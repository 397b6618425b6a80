//! The axis transpose: time becomes the horizontal axis and the horizontal
//! axis becomes time.
//!
//! Output frame `x` is built from column `x` of every input frame: its
//! column `t` is what input frame `t` shows in column `x`. The encoder needs
//! even dimensions, so an odd number of input frames gives one more column,
//! a copy of the last one. The outcome is therefore not undone by
//! transposing again: the added column stays.

use vstd::prelude::*;
use vstd::arithmetic::div_mod::lemma_fundamental_div_mod_converse;
use crate::frame::{image_of_bytes, lemma_pixel_in_bounds, Frame};
use crate::image::{uniform, Image, Rgb};
use crate::store::Volume;

verus! {

/// One frame of the output: as wide as the input is long, rounded up to
/// even, and as high as the input. It is built on demand and tightly packed.
pub type TransposedFrame = Frame;

/// A frame count rounded up to the next even number: the output width.
pub open spec fn even_width(frames: nat) -> nat {
    if frames % 2 == 0 {
        frames
    } else {
        frames + 1
    }
}

/// The input frame that fills output column `t`: frame `t` itself, and the
/// last frame for the column that padding adds.
pub open spec fn source_frame(frames: nat, t: int) -> int {
    if t < frames {
        t
    } else {
        frames - 1
    }
}

/// Output frame `x` of the transposed clip.
pub open spec fn transposed_image(clip: Seq<Image>, x: int) -> Image {
    Image {
        width: even_width(clip.len()),
        height: clip[0].height,
        rows: Seq::new(
            clip[0].height,
            |y: int|
                Seq::new(
                    even_width(clip.len()),
                    |t: int| clip[source_frame(clip.len(), t)].pixel(x, y),
                ),
        ),
    }
}

/// The transposed clip: one output frame for every input column.
pub open spec fn transposed_clip(clip: Seq<Image>) -> Seq<Image> {
    Seq::new(clip[0].width, |x: int| transposed_image(clip, x))
}

/// A clip of `T >= 1` frames of `X` x `Y` pixels transposes into `X` frames,
/// each `Y` pixels high and `T` pixels wide when `T` is even, `T + 1` when
/// it is odd.
pub proof fn lemma_output_dimensions(clip: Seq<Image>)
    requires
        uniform(clip),
        clip.len() >= 1,
    ensures
        transposed_clip(clip).len() == clip[0].width,
        forall|x: int|
            0 <= x < clip[0].width ==> {
                let out = #[trigger] transposed_clip(clip)[x];
                &&& out.wf()
                &&& out.height == clip[0].height
                &&& out.width == if clip.len() % 2 == 0 {
                    clip.len()
                } else {
                    clip.len() + 1
                }
            },
        uniform(transposed_clip(clip)),
{
}

/// Output frame `x` shows in column `t` of row `y` what input frame `t`
/// shows in column `x` of row `y`. This holds of every input frame, padded
/// output or not.
pub proof fn lemma_pixel_correct(clip: Seq<Image>, x: int, y: int, t: int)
    requires
        uniform(clip),
        0 <= t < clip.len(),
        0 <= x < clip[0].width,
        0 <= y < clip[0].height,
    ensures
        transposed_clip(clip)[x].pixel(t, y) == clip[t].pixel(x, y),
{
}

/// With an odd number `T` of input frames every output frame is `T + 1`
/// pixels wide, and its added column `T` repeats column `T - 1` in every
/// row.
pub proof fn lemma_padding_repeats_last_column(clip: Seq<Image>, x: int, y: int)
    requires
        uniform(clip),
        clip.len() % 2 == 1,
        0 <= x < clip[0].width,
        0 <= y < clip[0].height,
    ensures
        transposed_clip(clip)[x].width == clip.len() + 1,
        transposed_clip(clip)[x].pixel(clip.len() as int, y) == transposed_clip(clip)[x].pixel(
            clip.len() - 1,
            y,
        ),
{
}

/// Transposing is not its own inverse once padding took place: from an odd
/// number `T` of frames, transposing twice gives `T + 1` frames, never the
/// clip that was put in.
pub proof fn lemma_padded_transpose_not_involutive(clip: Seq<Image>)
    requires
        uniform(clip),
        clip.len() % 2 == 1,
    ensures
        transposed_clip(transposed_clip(clip)).len() == clip.len() + 1,
        transposed_clip(transposed_clip(clip)) != clip,
{
    lemma_output_dimensions(clip);
}

/// Where neither direction pads, that is where both the number of frames and
/// their width are even, transposing twice gives the clip back.
pub proof fn lemma_unpadded_transpose_involutive(clip: Seq<Image>)
    requires
        uniform(clip),
        clip.len() >= 1,
        clip.len() % 2 == 0,
        clip[0].width % 2 == 0,
    ensures
        transposed_clip(transposed_clip(clip)) == clip,
{
    lemma_output_dimensions(clip);
    let once = transposed_clip(clip);
    let twice = transposed_clip(once);
    assert forall|t: int| 0 <= t < clip.len() implies twice[t] == clip[t] by {
        assert forall|y: int, x: int|
            0 <= y < clip[0].height && 0 <= x < clip[0].width implies twice[t].rows[y][x]
            == once[x].rows[y][t] by {}
        assert(twice[t].rows =~~= clip[t].rows);
    }
}

/// Channel `c` of a pixel in byte order.
spec fn channel(p: Rgb, c: int) -> u8 {
    if c == 0 {
        p.r
    } else if c == 1 {
        p.g
    } else {
        p.b
    }
}

/// The byte that belongs at offset `i` of the tightly packed output frame
/// `x`, whose rows are `row_len` bytes long.
spec fn output_byte(clip: Seq<Image>, x: int, row_len: int, i: int) -> u8 {
    let y = i / row_len;
    let k = i % row_len;
    channel(clip[source_frame(clip.len(), k / 3)].pixel(x, y), k % 3)
}

/// Where byte `k` of row `y` lies in a buffer of rows `row_len` long, and
/// what belongs there.
proof fn lemma_output_byte(clip: Seq<Image>, x: int, row_len: int, y: int, k: int)
    requires
        0 <= k < row_len,
    ensures
        output_byte(clip, x, row_len, y * row_len + k) == channel(
            clip[source_frame(clip.len(), k / 3)].pixel(x, y),
            k % 3,
        ),
{
    lemma_fundamental_div_mod_converse(y * row_len + k, row_len, y, k);
}

impl Volume {
    /// Whether the output gets a padding column: the frame count is odd.
    pub fn is_padded(&self) -> (p: bool)
        requires
            self.wf(),
        ensures
            p == (self@.len() % 2 == 1),
            p == (even_width(self@.len()) != self@.len()),
    {
        self.frame_count() % 2 == 1
    }

    /// Width of every output frame: the frame count, rounded up to even.
    pub fn output_width(&self) -> (w: usize)
        requires
            self.wf(),
        ensures
            w == even_width(self@.len()),
    {
        let count: usize = self.frame_count();
        if count % 2 == 0 {
            count
        } else {
            count + 1
        }
    }

    /// Height of every output frame: the height of the input.
    pub fn output_height(&self) -> (h: usize)
        requires
            self.wf(),
        ensures
            h == self@[0].height,
    {
        self.height()
    }

    /// Number of output frames: the width of the input.
    pub fn output_frame_count(&self) -> (n: usize)
        requires
            self.wf(),
        ensures
            n == self@[0].width,
            n == transposed_clip(self@).len(),
    {
        self.width()
    }

    /// Builds output frame `x`, tightly packed.
    ///
    /// Row by row, the pixel at column `x` of input frame `t` goes to column
    /// `t`; with an odd frame count the pixel just written to the last
    /// column is written once more.
    pub fn transpose_frame(&self, x: usize) -> (out: TransposedFrame)
        requires
            self.wf(),
            x < self@[0].width,
        ensures
            out.wf(),
            out@.wf(),
            out@ == transposed_image(self@, x as int),
            out.spec_row_stride() == 3 * out@.width,
            out.spec_bytes().len() == 3 * out@.width * out@.height,
    {
        let count: usize = self.frame_count();
        let height: usize = self.height();
        let padded: bool = count % 2 == 1;
        let out_width: usize = if padded {
            count + 1
        } else {
            count
        };
        let ghost clip = self@;
        let ghost row_len: int = 3 * out_width;
        proof {
            self.lemma_wf();
        }
        let mut data: Vec<u8> = Vec::new();
        let mut y: usize = 0;
        while y < height
            invariant
                self.wf(),
                clip == self@,
                uniform(clip),
                1 <= count == clip.len(),
                height == clip[0].height,
                x < clip[0].width,
                padded == (count % 2 == 1),
                out_width == even_width(count as nat),
                row_len == 3 * out_width,
                y <= height,
                data@.len() == y * row_len,
                forall|i: int|
                    0 <= i < data@.len() ==> data@[i] == output_byte(clip, x as int, row_len, i),
            decreases height - y,
        {
            let mut t: usize = 0;
            while t < count
                invariant
                    self.wf(),
                    clip == self@,
                    uniform(clip),
                    1 <= count == clip.len(),
                    height == clip[0].height,
                    x < clip[0].width,
                    out_width == even_width(count as nat),
                    row_len == 3 * out_width,
                    y < height,
                    t <= count,
                    data@.len() == y * row_len + 3 * t,
                    forall|i: int|
                        0 <= i < data@.len() ==> data@[i] == output_byte(
                            clip,
                            x as int,
                            row_len,
                            i,
                        ),
                decreases count - t,
            {
                let p = self.frame(t).pixel_at(x, y);
                proof {
                    lemma_output_byte(clip, x as int, row_len, y as int, 3 * t);
                    lemma_output_byte(clip, x as int, row_len, y as int, 3 * t + 1);
                    lemma_output_byte(clip, x as int, row_len, y as int, 3 * t + 2);
                }
                data.push(p.r);
                data.push(p.g);
                data.push(p.b);
                t += 1;
            }
            if padded {
                let n: usize = data.len();
                proof {
                    lemma_output_byte(clip, x as int, row_len, y as int, 3 * count - 3);
                    lemma_output_byte(clip, x as int, row_len, y as int, 3 * count - 2);
                    lemma_output_byte(clip, x as int, row_len, y as int, 3 * count - 1);
                    lemma_output_byte(clip, x as int, row_len, y as int, 3 * count);
                    lemma_output_byte(clip, x as int, row_len, y as int, 3 * count + 1);
                    lemma_output_byte(clip, x as int, row_len, y as int, 3 * count + 2);
                }
                let r: u8 = data[n - 3];
                let g: u8 = data[n - 2];
                let b: u8 = data[n - 1];
                data.push(r);
                data.push(g);
                data.push(b);
            }
            proof {
                assert((y + 1) * row_len == y * row_len + row_len) by (nonlinear_arith);
            }
            y += 1;
        }
        proof {
            assert(row_len <= height * row_len) by (nonlinear_arith)
                requires
                    height >= 1,
                    row_len >= 0,
            ;
            assert((height - 1) * row_len + row_len == height * row_len) by (nonlinear_arith);
            assert(data@.len() == data.len());
        }
        let stride: usize = 3 * out_width;
        let ghost bytes = data@;
        let out = Frame::new(out_width, height, stride, data).unwrap();
        proof {
            let got = image_of_bytes(bytes, out_width as nat, height as nat, stride as nat);
            let want = transposed_image(clip, x as int);
            assert forall|yy: int, tt: int| 0 <= yy < height && 0 <= tt < out_width implies got.rows[yy][tt]
                == want.rows[yy][tt] by {
                lemma_pixel_in_bounds(
                    out_width as nat,
                    height as nat,
                    stride as nat,
                    bytes.len(),
                    tt,
                    yy,
                );
                lemma_output_byte(clip, x as int, row_len, yy, 3 * tt);
                lemma_output_byte(clip, x as int, row_len, yy, 3 * tt + 1);
                lemma_output_byte(clip, x as int, row_len, yy, 3 * tt + 2);
            }
            assert(got.rows =~~= want.rows);
            out.lemma_wf();
        }
        out
    }
}

} // verus!
