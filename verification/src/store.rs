//! The frame store: every decoded frame of the input, in temporal order.
//!
//! Transposing one output frame needs one column of every input frame, so
//! the whole clip is gathered first. A `FrameStore` is filled frame by frame
//! and then finalized into a `Volume`, which can only be read.

use vstd::prelude::*;
use crate::error::PipelineError;
use crate::frame::Frame;
use crate::image::{uniform, Image};

verus! {

/// The pictures that a vector of frames holds, in order.
pub open spec fn images_of(frames: Seq<Frame>) -> Seq<Image> {
    Seq::new(frames.len(), |t: int| frames[t]@)
}

/// Every frame is well formed and has the size of the first.
pub open spec fn frames_agree(frames: Seq<Frame>) -> bool {
    forall|t: int|
        0 <= t < frames.len() ==> (#[trigger] frames[t]).wf() && frames[t]@.same_size(frames[0]@)
}

/// Frames that agree hold a uniform clip.
pub proof fn lemma_frames_agree_uniform(frames: Seq<Frame>)
    requires
        frames_agree(frames),
    ensures
        uniform(images_of(frames)),
{
    let clip = images_of(frames);
    assert forall|t: int| 0 <= t < clip.len() implies (#[trigger] clip[t]).wf()
        && clip[t].same_size(clip[0]) by {
        frames[t].lemma_wf();
    }
}

/// The growing, append-only collection of decoded frames.
pub struct FrameStore {
    frames: Vec<Frame>,
}

impl View for FrameStore {
    type V = Seq<Image>;

    closed spec fn view(&self) -> Seq<Image> {
        images_of(self.frames@)
    }
}

impl FrameStore {
    /// All frames held are well formed and of one size.
    pub closed spec fn wf(&self) -> bool {
        frames_agree(self.frames@)
    }

    /// A well-formed store holds a uniform clip.
    pub proof fn lemma_wf(&self)
        requires
            self.wf(),
        ensures
            uniform(self@),
    {
        lemma_frames_agree_uniform(self.frames@);
    }

    /// An empty store.
    pub fn new() -> (store: FrameStore)
        ensures
            store.wf(),
            store@ == Seq::<Image>::empty(),
    {
        FrameStore { frames: Vec::new() }
    }

    /// Number of frames held.
    pub fn len(&self) -> (n: usize)
        ensures
            n == self@.len(),
    {
        self.frames.len()
    }

    /// Whether no frame is held.
    pub fn is_empty(&self) -> (b: bool)
        ensures
            b == (self@.len() == 0),
    {
        self.frames.len() == 0
    }

    /// Appends `frame` as the next frame in time.
    ///
    /// Fails with `DimensionMismatch`, leaving the store as it was, exactly
    /// when the store already holds a frame and `frame` differs from it in
    /// width or height.
    pub fn append(&mut self, frame: Frame) -> (res: Result<(), PipelineError>)
        requires
            old(self).wf(),
            frame.wf(),
        ensures
            final(self).wf(),
            res.is_err() <==> old(self)@.len() > 0 && !frame@.same_size(old(self)@[0]),
            res matches Err(e) ==> e == PipelineError::DimensionMismatch && final(self)@ == old(
                self,
            )@,
            res is Ok ==> final(self)@ == old(self)@.push(frame@),
    {
        if self.frames.len() > 0 {
            let first = &self.frames[0];
            if first.width() != frame.width() || first.height() != frame.height() {
                return Err(PipelineError::DimensionMismatch);
            }
        }
        let ghost before = self.frames@;
        self.frames.push(frame);
        proof {
            assert forall|t: int| 0 <= t < before.len() implies self.frames@[t] == before[t] by {}
        }
        Ok(())
    }

    /// Closes the store: what comes back can be read and transposed, not
    /// changed.
    ///
    /// Fails with `EmptyStore` exactly when no frame was appended. The
    /// output is one column wider than the clip is long when that length is
    /// odd, so the length has to leave room for it.
    pub fn finalize(self) -> (res: Result<Volume, PipelineError>)
        requires
            self.wf(),
            self@.len() < usize::MAX,
        ensures
            res.is_err() <==> self@.len() == 0,
            res matches Err(e) ==> e == PipelineError::EmptyStore,
            res matches Ok(volume) ==> volume.wf() && volume@ == self@,
    {
        if self.frames.len() == 0 {
            Err(PipelineError::EmptyStore)
        } else {
            Ok(Volume { frames: self.frames })
        }
    }
}

/// The finalized store: at least one frame, all of one size, read-only.
pub struct Volume {
    frames: Vec<Frame>,
}

impl View for Volume {
    type V = Seq<Image>;

    closed spec fn view(&self) -> Seq<Image> {
        images_of(self.frames@)
    }
}

impl Volume {
    /// At least one frame, all well formed and of one size, and few enough
    /// that the padded output width fits in `usize`.
    pub closed spec fn wf(&self) -> bool {
        &&& 1 <= self.frames@.len() < usize::MAX
        &&& frames_agree(self.frames@)
    }

    /// A well-formed volume holds a non-empty uniform clip.
    pub proof fn lemma_wf(&self)
        requires
            self.wf(),
        ensures
            uniform(self@),
            1 <= self@.len() < usize::MAX,
            self@[0].wf(),
            3 * self@[0].width <= usize::MAX,
            self@[0].height <= usize::MAX,
    {
        lemma_frames_agree_uniform(self.frames@);
        self.frames@[0].lemma_wf();
    }

    /// Number of input frames, `T`.
    pub fn frame_count(&self) -> (n: usize)
        requires
            self.wf(),
        ensures
            n == self@.len(),
            1 <= n < usize::MAX,
    {
        self.frames.len()
    }

    /// Width of the input frames in pixels, `X`.
    pub fn width(&self) -> (w: usize)
        requires
            self.wf(),
        ensures
            w == self@[0].width,
            w >= 1,
    {
        proof {
            self.lemma_wf();
        }
        self.frames[0].width()
    }

    /// Height of the input frames in pixels, `Y`.
    pub fn height(&self) -> (h: usize)
        requires
            self.wf(),
        ensures
            h == self@[0].height,
            h >= 1,
    {
        proof {
            self.lemma_wf();
        }
        self.frames[0].height()
    }

    /// The input frame at time `t`.
    pub fn frame(&self, t: usize) -> (f: &Frame)
        requires
            self.wf(),
            t < self@.len(),
        ensures
            f.wf(),
            f@ == self@[t as int],
    {
        &self.frames[t]
    }
}

} // verus!
