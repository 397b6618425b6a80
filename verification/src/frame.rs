//! One decoded picture held as packed RGB bytes with a row stride.
//!
//! A pixel takes three bytes, red first. Row `y` starts at byte
//! `y * row_stride`, and a row may be followed by padding up to the next.

use vstd::prelude::*;
use vstd::arithmetic::div_mod::lemma_fundamental_div_mod_converse;
use crate::image::{Image, Rgb};

verus! {

/// A buffer of `len` bytes can hold a `width` x `height` picture whose rows
/// start `row_stride` bytes apart: the picture is not empty, a row of pixels
/// fits between two row starts, and the last row ends inside the buffer.
pub open spec fn layout_ok(width: nat, height: nat, row_stride: nat, len: nat) -> bool {
    &&& width >= 1
    &&& height >= 1
    &&& 3 * width <= row_stride
    &&& (height - 1) * row_stride + 3 * width <= len
}

/// The pixel that `data` holds at column `x` of row `y`.
pub open spec fn pixel_of_bytes(data: Seq<u8>, row_stride: nat, x: int, y: int) -> Rgb {
    let at = y * row_stride + 3 * x;
    Rgb { r: data[at], g: data[at + 1], b: data[at + 2] }
}

/// The picture that `data` holds under the given layout.
pub open spec fn image_of_bytes(data: Seq<u8>, width: nat, height: nat, row_stride: nat) -> Image {
    Image {
        width,
        height,
        rows: Seq::new(
            height,
            |y: int| Seq::new(width, |x: int| pixel_of_bytes(data, row_stride, x, y)),
        ),
    }
}

/// Byte offsets of pixels inside a well laid out buffer stay inside it.
pub proof fn lemma_pixel_in_bounds(width: nat, height: nat, row_stride: nat, len: nat, x: int, y: int)
    requires
        layout_ok(width, height, row_stride, len),
        0 <= x < width,
        0 <= y < height,
    ensures
        0 <= y * row_stride + 3 * x,
        y * row_stride + 3 * x + 2 < len,
{
    assert(0 <= y * row_stride <= (height - 1) * row_stride) by (nonlinear_arith)
        requires
            0 <= y <= height - 1,
            0 <= row_stride,
    ;
}

/// Every byte between the end of a row's pixels and the start of the next
/// row is zero.
pub open spec fn padding_is_zero(data: Seq<u8>, width: nat, row_stride: nat) -> bool {
    forall|i: int| 0 <= i < data.len() && 3 * width <= i % (row_stride as int) ==> data[i] == 0
}

/// The byte at offset `i` of a buffer that holds the rows of `src`,
/// `row_stride` bytes apart and filled up with zeros.
spec fn repacked_byte(src: Seq<u8>, src_stride: int, width: int, row_stride: int, i: int) -> u8 {
    let y = i / row_stride;
    let k = i % row_stride;
    if k < 3 * width {
        src[y * src_stride + k]
    } else {
        0
    }
}

/// Where byte `k` of row `y` lies in the repacked buffer, and what it is.
proof fn lemma_repacked_byte(
    src: Seq<u8>,
    src_stride: int,
    width: int,
    row_stride: int,
    y: int,
    k: int,
)
    requires
        0 <= k < row_stride,
    ensures
        repacked_byte(src, src_stride, width, row_stride, y * row_stride + k) == if k < 3
            * width {
            src[y * src_stride + k]
        } else {
            0
        },
{
    lemma_fundamental_div_mod_converse(y * row_stride + k, row_stride, y, k);
}

/// A decoded picture: packed 8-bit RGB, rows `row_stride` bytes apart.
#[derive(Debug)]
pub struct Frame {
    width: usize,
    height: usize,
    row_stride: usize,
    data: Vec<u8>,
}

impl View for Frame {
    type V = Image;

    closed spec fn view(&self) -> Image {
        image_of_bytes(self.data@, self.width as nat, self.height as nat, self.row_stride as nat)
    }
}

impl Frame {
    /// The buffer matches the declared geometry.
    pub closed spec fn wf(&self) -> bool {
        layout_ok(
            self.width as nat,
            self.height as nat,
            self.row_stride as nat,
            self.data@.len(),
        )
    }

    /// Distance in bytes between the starts of two consecutive rows.
    pub closed spec fn spec_row_stride(&self) -> nat {
        self.row_stride as nat
    }

    /// The raw bytes, padding included.
    pub closed spec fn spec_bytes(&self) -> Seq<u8> {
        self.data@
    }

    /// What the view and the accessors say of a well-formed frame.
    pub proof fn lemma_wf(&self)
        requires
            self.wf(),
        ensures
            self@.wf(),
            self@ == image_of_bytes(
                self.spec_bytes(),
                self@.width,
                self@.height,
                self.spec_row_stride(),
            ),
            layout_ok(self@.width, self@.height, self.spec_row_stride(), self.spec_bytes().len()),
            3 * self@.width <= usize::MAX,
            self@.height <= usize::MAX,
    {
    }

    /// Wraps `data` as a frame, or returns `None` when the buffer does not
    /// match the geometry: a zero dimension, a stride shorter than a row of
    /// pixels, or a buffer that ends before the last row of pixels does.
    pub fn new(width: usize, height: usize, row_stride: usize, data: Vec<u8>) -> (res: Option<Frame>)
        ensures
            res.is_some() <==> layout_ok(
                width as nat,
                height as nat,
                row_stride as nat,
                data@.len(),
            ),
            res matches Some(f) ==> {
                &&& f.wf()
                &&& f@.wf()
                &&& f@ == image_of_bytes(data@, width as nat, height as nat, row_stride as nat)
                &&& f.spec_row_stride() == row_stride
                &&& f.spec_bytes() == data@
            },
    {
        if width == 0 || height == 0 || width > row_stride / 3 {
            return None;
        }
        proof {
            assert(data@.len() == data.len());
        }
        let needed: Option<usize> = match (height - 1).checked_mul(row_stride) {
            Some(before_last) => before_last.checked_add(3 * width),
            None => None,
        };
        match needed {
            Some(len) => {
                if len <= data.len() {
                    Some(Frame { width, height, row_stride, data })
                } else {
                    None
                }
            },
            None => None,
        }
    }

    /// Width in pixels.
    pub fn width(&self) -> (w: usize)
        ensures
            w == self@.width,
    {
        self.width
    }

    /// Height in pixels.
    pub fn height(&self) -> (h: usize)
        ensures
            h == self@.height,
    {
        self.height
    }

    /// Distance in bytes between the starts of two consecutive rows.
    pub fn row_stride(&self) -> (s: usize)
        ensures
            s == self.spec_row_stride(),
    {
        self.row_stride
    }

    /// The raw bytes, padding included.
    pub fn bytes(&self) -> (b: &Vec<u8>)
        ensures
            b@ == self.spec_bytes(),
    {
        &self.data
    }

    /// The pixel in column `x` of row `y`.
    pub fn pixel_at(&self, x: usize, y: usize) -> (p: Rgb)
        requires
            self.wf(),
            x < self@.width,
            y < self@.height,
        ensures
            p == self@.pixel(x as int, y as int),
    {
        proof {
            lemma_pixel_in_bounds(
                self.width as nat,
                self.height as nat,
                self.row_stride as nat,
                self.data@.len(),
                x as int,
                y as int,
            );
        }
        proof {
            assert(self.data@.len() == self.data.len());
        }
        let at: usize = y * self.row_stride + 3 * x;
        Rgb { r: self.data[at], g: self.data[at + 1], b: self.data[at + 2] }
    }

    /// The same picture laid out in `height` full rows of `row_stride` bytes,
    /// as the buffer of an encoder frame wants it. The bytes after the
    /// pixels of each row are zero.
    ///
    /// Returns `None` exactly when `row_stride` is too short for a row of
    /// pixels.
    pub fn repack(&self, row_stride: usize) -> (res: Option<Frame>)
        requires
            self.wf(),
        ensures
            res.is_some() <==> 3 * self@.width <= row_stride,
            res matches Some(f) ==> {
                &&& f.wf()
                &&& f@ == self@
                &&& f.spec_row_stride() == row_stride
                &&& f.spec_bytes().len() == row_stride * self@.height
                &&& padding_is_zero(f.spec_bytes(), self@.width, row_stride as nat)
            },
    {
        let row_len: usize = 3 * self.width;
        if row_stride < row_len {
            return None;
        }
        let ghost src = self.data@;
        let mut data: Vec<u8> = Vec::new();
        let mut y: usize = 0;
        while y < self.height
            invariant
                self.wf(),
                src == self.data@,
                row_len == 3 * self.width,
                row_len <= row_stride,
                y <= self.height,
                data@.len() == y * row_stride,
                forall|i: int|
                    0 <= i < data@.len() ==> data@[i] == repacked_byte(
                        src,
                        self.row_stride as int,
                        self.width as int,
                        row_stride as int,
                        i,
                    ),
            decreases self.height - y,
        {
            let mut k: usize = 0;
            while k < row_stride
                invariant
                    self.wf(),
                    src == self.data@,
                    row_len == 3 * self.width,
                    row_len <= row_stride,
                    y < self.height,
                    k <= row_stride,
                    data@.len() == y * row_stride + k,
                    forall|i: int|
                        0 <= i < data@.len() ==> data@[i] == repacked_byte(
                            src,
                            self.row_stride as int,
                            self.width as int,
                            row_stride as int,
                            i,
                        ),
                decreases row_stride - k,
            {
                proof {
                    lemma_repacked_byte(
                        src,
                        self.row_stride as int,
                        self.width as int,
                        row_stride as int,
                        y as int,
                        k as int,
                    );
                    assert(self.data@.len() == self.data.len());
                    assert(0 <= y * self.row_stride <= (self.height - 1) * self.row_stride)
                        by (nonlinear_arith)
                        requires
                            0 <= y <= self.height - 1,
                            0 <= self.row_stride,
                    ;
                }
                let v: u8 = if k < row_len {
                    self.data[y * self.row_stride + k]
                } else {
                    0
                };
                data.push(v);
                k += 1;
            }
            proof {
                assert((y + 1) * row_stride == y * row_stride + row_stride) by (nonlinear_arith);
            }
            y += 1;
        }
        proof {
            assert((self.height - 1) * row_stride + row_stride == self.height * row_stride)
                by (nonlinear_arith);
            assert(self.height * row_stride == row_stride * self.height) by (nonlinear_arith);
        }
        let ghost bytes = data@;
        let out = Frame { width: self.width, height: self.height, row_stride, data };
        proof {
            assert forall|yy: int, xx: int| 0 <= yy < self.height && 0 <= xx < self.width implies out@.rows[yy][xx]
                == self@.rows[yy][xx] by {
                lemma_repacked_byte(
                    src,
                    self.row_stride as int,
                    self.width as int,
                    row_stride as int,
                    yy,
                    3 * xx,
                );
                lemma_repacked_byte(
                    src,
                    self.row_stride as int,
                    self.width as int,
                    row_stride as int,
                    yy,
                    3 * xx + 1,
                );
                lemma_repacked_byte(
                    src,
                    self.row_stride as int,
                    self.width as int,
                    row_stride as int,
                    yy,
                    3 * xx + 2,
                );
                lemma_pixel_in_bounds(
                    self.width as nat,
                    self.height as nat,
                    row_stride as nat,
                    bytes.len(),
                    xx,
                    yy,
                );
            }
            assert(out@.rows =~~= self@.rows);
        }
        Some(out)
    }

    /// The pixel in column `x` of row `y`, or `None` outside the picture.
    pub fn pixel(&self, x: usize, y: usize) -> (p: Option<Rgb>)
        requires
            self.wf(),
        ensures
            p.is_some() <==> x < self@.width && y < self@.height,
            p matches Some(c) ==> c == self@.pixel(x as int, y as int),
    {
        if x < self.width && y < self.height {
            Some(self.pixel_at(x, y))
        } else {
            None
        }
    }
}

} // verus!
