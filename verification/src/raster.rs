//! Images held in memory as rows of 8-bit RGB pixels.

use vstd::prelude::*;
use vstd::slice::slice_subrange;
use crate::region::Region;

verus! {

/// The largest number of bytes that one allocation may hold.
pub open spec fn max_bytes() -> int {
    isize::MAX as int
}

/// Position of channel `c` of pixel `(x, y)` in the bytes of an image that is
/// `width` pixels wide.
pub open spec fn byte_index(width: int, x: int, y: int, c: int) -> int {
    (y * width + x) * 3 + c
}

/// An image as a mathematical value: its size and its bytes, row after row
/// from the top, three bytes (red, green, blue) for each pixel.
pub struct Pixels {
    pub width: nat,
    pub height: nat,
    pub data: Seq<u8>,
}

impl Pixels {
    /// The bytes are exactly those of `width * height` pixels.
    pub open spec fn wf(self) -> bool {
        &&& self.width <= u32::MAX
        &&& self.height <= u32::MAX
        &&& self.data.len() == 3 * self.width * self.height
    }

    /// Whether `(x, y)` is a pixel of the image.
    pub open spec fn has(self, x: int, y: int) -> bool {
        0 <= x < self.width && 0 <= y < self.height
    }

    /// Channel `c` (0 red, 1 green, 2 blue) of pixel `(x, y)`.
    pub open spec fn at(self, x: int, y: int, c: int) -> u8 {
        self.data[byte_index(self.width as int, x, y, c)]
    }

    /// Whether the image is the part of `whole` that `region` covers: as
    /// large as the region, and with the pixels that `whole` has there.
    pub open spec fn is_part_of(self, whole: Pixels, region: Region) -> bool {
        &&& self.wf()
        &&& self.width == region.spec_width()
        &&& self.height == region.spec_height()
        &&& forall|x: int, y: int, c: int|
            self.has(x, y) && 0 <= c < 3 ==> #[trigger] self.at(x, y, c) == whole.at(
                region.min.x + x,
                region.min.y + y,
                c,
            )
    }
}

/// An RGB image.
#[derive(Clone, Debug, PartialEq, Eq)]
pub struct Raster {
    width: u32,
    height: u32,
    data: Vec<u8>,
}

impl View for Raster {
    type V = Pixels;

    closed spec fn view(&self) -> Pixels {
        Pixels { width: self.width as nat, height: self.height as nat, data: self.data@ }
    }
}

/// Every channel of every pixel of a `width` by `height` image has its own
/// byte, and the bytes of a row follow each other.
pub proof fn lemma_byte_index(width: int, height: int, x: int, y: int, c: int)
    by (nonlinear_arith)
    requires
        0 <= x < width,
        0 <= y < height,
        0 <= c < 3,
    ensures
        0 <= byte_index(width, x, y, c) < 3 * width * height,
        byte_index(width, x, y, c) == y * (3 * width) + (3 * x + c),
        y * (3 * width) + 3 * width <= 3 * width * height,
{
}

/// Position of byte `k` of row `row` when every row holds `stride` bytes.
pub open spec fn row_index(stride: int, row: int, k: int) -> int {
    row * stride + k
}

/// Row `row` of `rows` rows of `stride` bytes lies inside the `rows * stride`
/// bytes of all rows.
pub proof fn lemma_row_index(stride: int, rows: int, row: int, k: int)
    by (nonlinear_arith)
    requires
        0 <= row < rows,
        0 <= k <= stride,
    ensures
        0 <= row * stride <= row_index(stride, row, k) <= rows * stride,
        k < stride ==> row_index(stride, row, k) < rows * stride,
        (row + 1) * stride == row * stride + stride,
{
}

impl Raster {
    /// The image holds exactly the bytes of its pixels.
    pub open spec fn wf(&self) -> bool {
        self@.wf()
    }

    /// Makes an image from its size and its bytes; `None` unless there are
    /// exactly three bytes for each pixel.
    pub fn from_raw(width: u32, height: u32, data: Vec<u8>) -> (out: Option<Raster>)
        ensures
            out is Some <==> data@.len() == 3 * width * height,
            out matches Some(r) ==> r.wf() && r@ == (Pixels {
                width: width as nat,
                height: height as nat,
                data: data@,
            }),
    {
        assert(3 * width * height <= 3 * 0xffff_ffff * 0xffff_ffff) by (nonlinear_arith)
            requires
                width <= 0xffff_ffff,
                height <= 0xffff_ffff,
        ;
        let need: u128 = 3 * (width as u128) * (height as u128);
        if data.len() as u128 == need {
            Some(Raster { width, height, data })
        } else {
            None
        }
    }

    /// Width in pixels.
    pub fn width(&self) -> (w: u32)
        ensures
            w == self@.width,
    {
        self.width
    }

    /// Height in pixels.
    pub fn height(&self) -> (h: u32)
        ensures
            h == self@.height,
    {
        self.height
    }

    /// The bytes of the image.
    pub fn as_raw(&self) -> (bytes: &[u8])
        ensures
            bytes@ == self@.data,
    {
        self.data.as_slice()
    }

    /// Gives up the image for its bytes.
    pub fn into_raw(self) -> (bytes: Vec<u8>)
        ensures
            bytes@ == self@.data,
    {
        self.data
    }

    /// The red, green and blue value of pixel `(x, y)`, if the image has
    /// such a pixel.
    pub fn pixel(&self, x: u32, y: u32) -> (out: Option<(u8, u8, u8)>)
        requires
            self.wf(),
        ensures
            out is Some <==> self@.has(x as int, y as int),
            out matches Some(p) ==> p.0 == self@.at(x as int, y as int, 0) && p.1 == self@.at(
                x as int,
                y as int,
                1,
            ) && p.2 == self@.at(x as int, y as int, 2),
    {
        if x >= self.width || y >= self.height {
            return None;
        }
        let len: usize = self.data.len();
        proof {
            lemma_byte_index(self.width as int, self.height as int, x as int, y as int, 0);
            lemma_byte_index(self.width as int, self.height as int, x as int, y as int, 2);
            assert(0 <= y * self.width <= (y * self.width + x) * 3) by (nonlinear_arith)
                requires
                    0 <= x,
                    0 <= y,
                    0 <= self.width,
            ;
        }
        let i: usize = (y as usize * self.width as usize + x as usize) * 3;
        Some((self.data[i], self.data[i + 1], self.data[i + 2]))
    }

    /// The part of the image that `region` covers, as an image of its own;
    /// `None` unless the region lies inside the image.
    pub fn crop(&self, region: &Region) -> (out: Option<Raster>)
        requires
            self.wf(),
        ensures
            out is Some <==> region.within(self@.width as int, self@.height as int),
            out matches Some(part) ==> part@.is_part_of(self@, *region),
    {
        if region.min.x > region.max.x || region.min.y > region.max.y || region.max.x > self.width
            || region.max.y > self.height {
            return None;
        }
        let w: u32 = region.max.x - region.min.x;
        let h: u32 = region.max.y - region.min.y;
        let len: usize = self.data.len();
        let mut data: Vec<u8> = Vec::new();
        if w > 0 && h > 0 {
            assert(3 * self.width <= 3 * self.width * self.height) by (nonlinear_arith)
                requires
                    self.height >= 1,
                    self.width >= 0,
            ;
            let stride: usize = 3 * (self.width as usize);
            let row_len: usize = 3 * (w as usize);
            let skip: usize = 3 * (region.min.x as usize);
            assert(len == self.height * stride) by (nonlinear_arith)
                requires
                    len == 3 * self.width * self.height,
                    stride == 3 * self.width,
            ;
            let mut y: u32 = 0;
            while y < h
                invariant
                    self.wf(),
                    region.within(self@.width as int, self@.height as int),
                    len == self.data@.len(),
                    len == self.height * stride,
                    stride == 3 * self.width,
                    row_len == 3 * w,
                    skip == 3 * region.min.x,
                    w == region.max.x - region.min.x,
                    h == region.max.y - region.min.y,
                    y <= h,
                    data@.len() == y * row_len,
                    forall|yy: int, k: int|
                        0 <= yy < y && 0 <= k < row_len ==> data@[#[trigger] row_index(
                            row_len as int,
                            yy,
                            k,
                        )] == self.data@[row_index(stride as int, region.min.y + yy, skip + k)],
                decreases h - y,
            {
                proof {
                    lemma_row_index(
                        stride as int,
                        self.height as int,
                        region.min.y + y,
                        skip + row_len,
                    );
                    lemma_row_index(row_len as int, y + 1, y as int, row_len as int);
                }
                let start: usize = (region.min.y as usize + y as usize) * stride + skip;
                let row = slice_subrange(self.data.as_slice(), start, start + row_len);
                let ghost before = data@;
                data.extend_from_slice(row);
                proof {
                    assert forall|yy: int, k: int|
                        0 <= yy < y + 1 && 0 <= k < row_len implies data@[row_index(
                        row_len as int,
                        yy,
                        k,
                    )] == self.data@[row_index(stride as int, region.min.y + yy, skip + k)] by {
                        if yy < y {
                            lemma_row_index(row_len as int, y as int, yy, k);
                            assert(before[row_index(row_len as int, yy, k)] == self.data@[row_index(
                                stride as int,
                                region.min.y + yy,
                                skip + k,
                            )]);
                        } else {
                            assert(row_index(row_len as int, yy, k) == before.len() + k);
                            assert(row@[k] == self.data@[start + k]);
                        }
                    }
                }
                y = y + 1;
            }
        }
        let out = Raster { width: w, height: h, data };
        proof {
            assert(out@.data.len() == 3 * w * h) by (nonlinear_arith)
                requires
                    (w > 0 && h > 0) ==> out@.data.len() == h * (3 * w),
                    !(w > 0 && h > 0) ==> out@.data.len() == 0,
                    w >= 0,
                    h >= 0,
            ;
            assert forall|x: int, y: int, c: int|
                out@.has(x, y) && 0 <= c < 3 implies #[trigger] out@.at(x, y, c) == self@.at(
                region.min.x + x,
                region.min.y + y,
                c,
            ) by {
                lemma_byte_index(w as int, h as int, x, y, c);
                lemma_byte_index(
                    self.width as int,
                    self.height as int,
                    region.min.x + x,
                    region.min.y + y,
                    c,
                );
                assert(out@.data[row_index(3 * w, y, 3 * x + c)] == self.data@[row_index(
                    3 * self.width,
                    region.min.y + y,
                    3 * region.min.x + (3 * x + c),
                )]);
            }
        }
        Some(out)
    }
}

} // verus!
