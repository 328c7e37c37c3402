//! RGBA pixel buffers: the unit exchanged with the decoding and encoding
//! collaborators, and the crop used by the warp engine.

use vstd::prelude::*;

use crate::geometry::BoundingBox;

verus! {

/// One pixel, 8 bits per channel.
#[derive(Clone, Copy, PartialEq, Eq, Structural, Debug)]
pub struct Pixel {
    pub r: u8,
    pub g: u8,
    pub b: u8,
    pub a: u8,
}

/// Fully transparent black: what the warp writes outside the source.
pub open spec fn transparent() -> Pixel {
    Pixel { r: 0, g: 0, b: 0, a: 0 }
}

/// Fully transparent black, as a value.
pub fn transparent_pixel() -> (p: Pixel)
    ensures
        p == transparent(),
{
    Pixel { r: 0, g: 0, b: 0, a: 0 }
}

/// A 2-D grid of RGBA pixels in row-major order.
pub struct PixelBuffer {
    pub width: usize,
    pub height: usize,
    pub data: Vec<Pixel>,
}

impl PixelBuffer {
    /// Dimensions small enough to index exactly, and a fully allocated grid.
    pub open spec fn wf(self) -> bool {
        self.width <= 32767 && self.height <= 32767 && self.data@.len() == self.width
            * self.height
    }

    /// The pixel in column x of row y.
    pub open spec fn pixel_at(self, x: int, y: int) -> Pixel {
        self.data@[y * self.width + x]
    }

    /// A buffer of the given size with every pixel set to `fill`.
    pub fn filled(width: usize, height: usize, fill: Pixel) -> (r: PixelBuffer)
        requires
            width <= 32767,
            height <= 32767,
        ensures
            r.wf(),
            r.width == width,
            r.height == height,
            forall|x: int, y: int|
                0 <= x < width && 0 <= y < height ==> #[trigger] r.pixel_at(x, y) == fill,
    {
        proof {
            crate::arith::lemma_mul_bound(width as int, height as int, 32767, 32767);
        }
        let mut data: Vec<Pixel> = Vec::new();
        let total = width * height;
        let mut k: usize = 0;
        while k < total
            invariant
                k <= total,
                total == width * height,
                data@.len() == k,
                forall|j: int| 0 <= j < k ==> data@[j] == fill,
            decreases total - k,
        {
            data.push(fill);
            k = k + 1;
        }
        let pb = PixelBuffer { width, height, data };
        proof {
            assert forall|x: int, y: int|
                0 <= x < width && 0 <= y < height implies #[trigger] pb.pixel_at(x, y) == fill by {
                assert(0 <= y * width + x < width * height) by (nonlinear_arith)
                    requires
                        0 <= x < width,
                        0 <= y < height,
                ;
            }
        }
        pb
    }

    /// Reads one pixel.
    pub fn get(&self, x: usize, y: usize) -> (p: Pixel)
        requires
            self.wf(),
            x < self.width,
            y < self.height,
        ensures
            p == self.pixel_at(x as int, y as int),
    {
        proof {
            assert(y * self.width + x < self.width * self.height <= 0x4000_0000)
                by (nonlinear_arith)
                requires
                    x < self.width,
                    y < self.height,
                    self.width <= 32767,
                    self.height <= 32767,
            ;
        }
        self.data[y * self.width + x]
    }

    /// Packs raw RGBA bytes (4 per pixel, row-major) into a buffer; nothing
    /// if the dimensions are too large or do not match the byte count.
    pub fn from_rgba(width: usize, height: usize, bytes: &Vec<u8>) -> (r: Option<PixelBuffer>)
        ensures
            match r {
                Some(b) => b.wf() && b.width == width && b.height == height && width <= 32767
                    && height <= 32767 && bytes@.len() == 4 * (width * height) && forall|k: int|
                    0 <= k < width * height ==> #[trigger] b.data@[k] == (Pixel {
                        r: bytes@[4 * k],
                        g: bytes@[4 * k + 1],
                        b: bytes@[4 * k + 2],
                        a: bytes@[4 * k + 3],
                    }),
                None => width > 32767 || height > 32767 || bytes@.len() != 4 * (width * height),
            },
    {
        if width > 32767 || height > 32767 {
            return None;
        }
        proof {
            crate::arith::lemma_mul_bound(width as int, height as int, 32767, 32767);
        }
        let total = width * height;
        let need = 4 * total;
        if bytes.len() != need {
            return None;
        }
        let mut data: Vec<Pixel> = Vec::new();
        let mut k: usize = 0;
        while k < total
            invariant
                k <= total,
                total == width * height,
                total <= 0x4000_0000,
                bytes@.len() == 4 * total,
                data@.len() == k,
                forall|j: int|
                    0 <= j < k ==> #[trigger] data@[j] == (Pixel {
                        r: bytes@[4 * j],
                        g: bytes@[4 * j + 1],
                        b: bytes@[4 * j + 2],
                        a: bytes@[4 * j + 3],
                    }),
            decreases total - k,
        {
            let p = Pixel {
                r: bytes[4 * k],
                g: bytes[4 * k + 1],
                b: bytes[4 * k + 2],
                a: bytes[4 * k + 3],
            };
            data.push(p);
            k = k + 1;
        }
        Some(PixelBuffer { width, height, data })
    }

    /// Unpacks the buffer into raw RGBA bytes, 4 per pixel, row-major.
    pub fn to_rgba(&self) -> (r: Vec<u8>)
        requires
            self.wf(),
        ensures
            r@.len() == 4 * (self.width * self.height),
            forall|k: int|
                0 <= k < self.width * self.height ==> r@[4 * k] == (#[trigger] self.data@[k]).r
                    && r@[4 * k + 1] == self.data@[k].g && r@[4 * k + 2] == self.data@[k].b && r@[4
                    * k + 3] == self.data@[k].a,
    {
        proof {
            crate::arith::lemma_mul_bound(self.width as int, self.height as int, 32767, 32767);
        }
        let total = self.width * self.height;
        let mut out: Vec<u8> = Vec::new();
        let mut k: usize = 0;
        while k < total
            invariant
                k <= total,
                total == self.width * self.height,
                total <= 0x4000_0000,
                self.data@.len() == total,
                out@.len() == 4 * k,
                forall|j: int|
                    0 <= j < k ==> out@[4 * j] == (#[trigger] self.data@[j]).r && out@[4 * j + 1]
                        == self.data@[j].g && out@[4 * j + 2] == self.data@[j].b && out@[4 * j + 3]
                        == self.data@[j].a,
            decreases total - k,
        {
            let p = self.data[k];
            out.push(p.r);
            out.push(p.g);
            out.push(p.b);
            out.push(p.a);
            k = k + 1;
        }
        out
    }
}

/// What the crop of `src` to the box holds at (x, y): the source pixel under
/// the crop origin, or transparent black where the box reaches outside the
/// source.
pub open spec fn crop_pixel(src: PixelBuffer, bb: BoundingBox, x: int, y: int) -> Pixel {
    if x + bb.min_x < src.width && y + bb.min_y < src.height {
        src.pixel_at(x + bb.min_x, y + bb.min_y)
    } else {
        transparent()
    }
}

/// Crops the source to the bounding-box region, translating coordinates into
/// crop-local space; pixels of the region outside the source are transparent.
pub fn crop(src: &PixelBuffer, bb: &BoundingBox) -> (r: PixelBuffer)
    requires
        src.wf(),
        0 <= bb.min_x <= bb.max_x <= 32767,
        0 <= bb.min_y <= bb.max_y <= 32767,
    ensures
        r.wf(),
        r.width == bb.width(),
        r.height == bb.height(),
        forall|x: int, y: int|
            0 <= x < bb.width() && 0 <= y < bb.height() ==> #[trigger] r.pixel_at(x, y)
                == crop_pixel(*src, *bb, x, y),
{
    let w = (bb.max_x - bb.min_x) as usize;
    let h = (bb.max_y - bb.min_y) as usize;
    let mut data: Vec<Pixel> = Vec::new();
    let mut y: usize = 0;
    while y < h
        invariant
            y <= h,
            w == bb.width(),
            h == bb.height(),
            0 <= bb.min_x <= 32767,
            0 <= bb.min_y <= 32767,
            src.wf(),
            data@.len() == y * w,
            forall|i: int, j: int|
                0 <= i < w && 0 <= j < y ==> #[trigger] data@[j * w + i] == crop_pixel(
                    *src,
                    *bb,
                    i,
                    j,
                ),
        decreases h - y,
    {
        let mut x: usize = 0;
        while x < w
            invariant
                x <= w,
                y < h,
                w == bb.width(),
                h == bb.height(),
                0 <= bb.min_x <= 32767,
                0 <= bb.min_y <= 32767,
                src.wf(),
                data@.len() == y * w + x,
                forall|i: int, j: int|
                    0 <= i < w && 0 <= j < y ==> #[trigger] data@[j * w + i] == crop_pixel(
                        *src,
                        *bb,
                        i,
                        j,
                    ),
                forall|i: int|
                    0 <= i < x ==> #[trigger] data@[y * w + i] == crop_pixel(*src, *bb, i, y as int),
            decreases w - x,
        {
            let sx = x + bb.min_x as usize;
            let sy = y + bb.min_y as usize;
            let p = if sx < src.width && sy < src.height {
                src.get(sx, sy)
            } else {
                transparent_pixel()
            };
            data.push(p);
            x = x + 1;
            proof {
                assert forall|i: int, j: int|
                    0 <= i < w && 0 <= j < y implies #[trigger] data@[j * w + i] == crop_pixel(
                    *src,
                    *bb,
                    i,
                    j,
                ) by {
                    assert(j * w + i < y * w) by (nonlinear_arith)
                        requires
                            0 <= i < w,
                            0 <= j < y,
                    ;
                }
                assert forall|i: int| 0 <= i < x implies #[trigger] data@[y * w + i] == crop_pixel(
                    *src,
                    *bb,
                    i,
                    y as int,
                ) by {
                    if i < x - 1 {
                    } else {
                        assert(data@[y * w + i] == p);
                    }
                }
            }
        }
        y = y + 1;
        proof {
            assert(data@.len() == y * w) by (nonlinear_arith)
                requires
                    data@.len() == (y - 1) * w + w,
            ;
            assert forall|i: int, j: int| 0 <= i < w && 0 <= j < y implies #[trigger] data@[j * w
                + i] == crop_pixel(*src, *bb, i, j) by {
                if j < y - 1 {
                } else {
                }
            }
        }
    }
    proof {
        vstd::arithmetic::mul::lemma_mul_is_commutative(h as int, w as int);
    }
    PixelBuffer { width: w, height: h, data }
}

} // verus!
