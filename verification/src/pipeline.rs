//! The control logic of one run, as a state machine.
//!
//! The caller owns decoder, scaler, encoder and muxer. It reports what they
//! did as an `Event` and is told what to do next as an `Action`:
//!
//! 1. decode every frame into the store;
//! 2. at the end of the input, close the store and open the output;
//! 3. once the header is written, compute the timestamp increment from the
//!    time base that the muxer settled on;
//! 4. hand output frames to the encoder in rising order, stamping and
//!    writing every packet that the encoder gives out;
//! 5. flush the encoder, stamp and write what is left, and finish.
//!
//! The first fatal condition ends the run: a failed pipeline accepts no
//! further event.

use vstd::prelude::*;
use crate::error::PipelineError;
use crate::frame::Frame;
use crate::image::{uniform, Image};
use crate::rational::Rational;
use crate::store::{FrameStore, Volume};
use crate::timestamp::{
    fits_i64, pts_increment, spec_pts, spec_pts_increment, Timestamp, TimestampSequence,
};
use crate::transpose::{even_width, transposed_image};

verus! {

/// What encoder and muxer are set up with.
#[derive(Clone, Copy, Debug, PartialEq, Eq, Structural)]
pub struct OutputConfig {
    /// Width of the output frames in pixels; always even.
    pub width: usize,
    /// Height of the output frames in pixels.
    pub height: usize,
    /// How many output frames there will be.
    pub frame_count: usize,
    /// The time base asked for: the duration of one frame.
    pub time_base: Rational,
    /// The frame rate, taken over from the input.
    pub frame_rate: Rational,
    /// Frames are never reordered, so this is zero.
    pub max_b_frames: usize,
}

/// The output settings for a clip played at `fps`.
pub open spec fn spec_output_config(clip: Seq<Image>, fps: Rational) -> OutputConfig {
    OutputConfig {
        width: even_width(clip.len()) as usize,
        height: clip[0].height as usize,
        frame_count: clip[0].width as usize,
        time_base: fps.spec_inverse(),
        frame_rate: fps,
        max_b_frames: 0,
    }
}

impl Volume {
    /// The settings for encoder and muxer: the transposed size, the number
    /// of output frames, the input's frame rate, one frame duration as the
    /// time base, and no B-frames.
    pub fn output_config(&self, fps: Rational) -> (config: OutputConfig)
        requires
            self.wf(),
        ensures
            config == spec_output_config(self@, fps),
            config.width == even_width(self@.len()),
            config.height == self@[0].height,
            config.frame_count == self@[0].width,
    {
        OutputConfig {
            width: self.output_width(),
            height: self.output_height(),
            frame_count: self.output_frame_count(),
            time_base: fps.inverse(),
            frame_rate: fps,
            max_b_frames: 0,
        }
    }
}

/// What the caller reports.
#[derive(Debug)]
pub enum Event {
    /// The decoder produced a frame, already converted to packed RGB.
    Frame(Frame),
    /// The decoder reached the end of the stream.
    EndOfInput,
    /// The muxer wrote its header; this is the time base that the stream
    /// really has, which may differ from the one asked for.
    HeaderWritten(Rational),
    /// The encoder gave out a packet.
    Packet,
    /// The encoder has no packet to give out.
    Drained,
    /// A collaborator failed.
    Failure(PipelineError),
}

/// What the caller is to do next.
#[derive(Debug)]
pub enum Action {
    /// Ask the decoder for the next frame.
    Decode,
    /// Set up encoder and muxer as given and write the header.
    OpenOutput(OutputConfig),
    /// Send this frame to the encoder, then ask the encoder for a packet.
    /// `pts` is the index of the frame, its time in the encoder's own time
    /// base.
    Encode { frame: Frame, pts: i64 },
    /// Rescale the packet into the stream's time base, overwrite both of its
    /// timestamps with these, write it, then ask the encoder for a packet.
    Write(Timestamp),
    /// Tell the encoder that no frame follows, then ask it for a packet.
    Flush,
    /// Write the trailer: the run is complete.
    Finish,
    /// Stop: the run failed.
    Abort(PipelineError),
}

/// An event as contracts see it.
pub enum EventView {
    Frame(Image),
    EndOfInput,
    HeaderWritten(Rational),
    Packet,
    Drained,
    Failure(PipelineError),
}

/// An action as contracts see it.
pub enum ActionView {
    Decode,
    OpenOutput(OutputConfig),
    Encode { image: Image, pts: int },
    Write(Timestamp),
    Flush,
    Finish,
    Abort(PipelineError),
}

/// The state of a run as contracts see it.
pub enum PipelineView {
    /// First pass: `clip` holds what was decoded so far.
    Decoding { fps: Rational, clip: Seq<Image> },
    /// The store is closed and the output is being opened.
    AwaitingHeader { fps: Rational, clip: Seq<Image> },
    /// Second pass: output frames below `next_column` went to the encoder,
    /// and `emitted` packets were stamped.
    Encoding { clip: Seq<Image>, next_column: nat, increment: int, emitted: nat },
    /// Every frame went to the encoder, which is being emptied.
    Flushing { increment: int, emitted: nat },
    /// The trailer was asked for.
    Finished,
    /// The run was aborted.
    Failed(PipelineError),
}

impl View for Event {
    type V = EventView;

    open spec fn view(&self) -> EventView {
        match *self {
            Event::Frame(frame) => EventView::Frame(frame@),
            Event::EndOfInput => EventView::EndOfInput,
            Event::HeaderWritten(time_base) => EventView::HeaderWritten(time_base),
            Event::Packet => EventView::Packet,
            Event::Drained => EventView::Drained,
            Event::Failure(kind) => EventView::Failure(kind),
        }
    }
}

impl Event {
    /// A frame that the event carries is well formed.
    pub open spec fn wf(&self) -> bool {
        match *self {
            Event::Frame(frame) => frame.wf(),
            _ => true,
        }
    }
}

impl View for Action {
    type V = ActionView;

    open spec fn view(&self) -> ActionView {
        match *self {
            Action::Decode => ActionView::Decode,
            Action::OpenOutput(config) => ActionView::OpenOutput(config),
            Action::Encode { frame, pts } => ActionView::Encode { image: frame@, pts: pts as int },
            Action::Write(stamp) => ActionView::Write(stamp),
            Action::Flush => ActionView::Flush,
            Action::Finish => ActionView::Finish,
            Action::Abort(kind) => ActionView::Abort(kind),
        }
    }
}

impl Action {
    /// A frame that the action carries is well formed and tightly packed.
    pub open spec fn wf(&self) -> bool {
        match *self {
            Action::Encode { frame, pts } => frame.wf() && frame.spec_row_stride() == 3
                * frame@.width,
            _ => true,
        }
    }
}

/// Both timestamps of packet number `emitted`.
pub open spec fn stamp_of(increment: int, emitted: nat) -> Timestamp {
    Timestamp { pts: spec_pts(increment, emitted) as i64, dts: spec_pts(increment, emitted) as i64 }
}

impl PipelineView {
    /// The state a run starts in.
    pub open spec fn initial(fps: Rational) -> PipelineView {
        PipelineView::Decoding { fps, clip: Seq::empty() }
    }

    /// The state is one that a run can reach.
    pub open spec fn wf(self) -> bool {
        match self {
            PipelineView::Decoding { fps, clip } => uniform(clip),
            PipelineView::AwaitingHeader { fps, clip } => uniform(clip) && 1 <= clip.len()
                < usize::MAX,
            PipelineView::Encoding { clip, next_column, increment, emitted } => {
                &&& uniform(clip)
                &&& 1 <= clip.len() < usize::MAX
                &&& 1 <= next_column <= clip[0].width
                &&& fits_i64(increment)
                &&& fits_i64(spec_pts(increment, emitted))
            },
            PipelineView::Flushing { increment, emitted } => fits_i64(increment) && fits_i64(
                spec_pts(increment, emitted),
            ),
            PipelineView::Finished => true,
            PipelineView::Failed(kind) => true,
        }
    }

    /// The run is over, completed or aborted.
    pub open spec fn is_over(self) -> bool {
        self is Finished || self is Failed
    }
}

/// Whether `event` may be reported in `state`.
///
/// Each phase of a run has its own events. Two machine limits are part of
/// this: the input may end only while the padded width of the output still
/// fits in `usize`, and a packet may be stamped only while the timestamp
/// after it still fits in 64 bits.
pub open spec fn spec_accepts(state: PipelineView, event: EventView) -> bool {
    match state {
        PipelineView::Decoding { fps, clip } => match event {
            EventView::Frame(image) => image.wf(),
            EventView::EndOfInput => clip.len() < usize::MAX,
            EventView::Failure(kind) => true,
            _ => false,
        },
        PipelineView::AwaitingHeader { fps, clip } => match event {
            EventView::HeaderWritten(time_base) => true,
            EventView::Failure(kind) => true,
            _ => false,
        },
        PipelineView::Encoding { clip, next_column, increment, emitted } => match event {
            EventView::Packet => fits_i64(spec_pts(increment, emitted) + increment),
            EventView::Drained => true,
            EventView::Failure(kind) => true,
            _ => false,
        },
        PipelineView::Flushing { increment, emitted } => match event {
            EventView::Packet => fits_i64(spec_pts(increment, emitted) + increment),
            EventView::Drained => true,
            EventView::Failure(kind) => true,
            _ => false,
        },
        PipelineView::Finished => false,
        PipelineView::Failed(kind) => false,
    }
}

/// The aborted state together with the action that reports why.
pub open spec fn abort_with(kind: PipelineError) -> (PipelineView, ActionView) {
    (PipelineView::Failed(kind), ActionView::Abort(kind))
}

/// The state after `event` and the action that answers it. Meaningful
/// where `spec_accepts(state, event)` holds.
pub open spec fn spec_step(state: PipelineView, event: EventView) -> (PipelineView, ActionView) {
    match state {
        PipelineView::Decoding { fps, clip } => match event {
            EventView::Frame(image) => if clip.len() > 0 && !image.same_size(clip[0]) {
                abort_with(PipelineError::DimensionMismatch)
            } else {
                (PipelineView::Decoding { fps, clip: clip.push(image) }, ActionView::Decode)
            },
            EventView::EndOfInput => if clip.len() == 0 {
                abort_with(PipelineError::EmptyStore)
            } else {
                (
                    PipelineView::AwaitingHeader { fps, clip },
                    ActionView::OpenOutput(spec_output_config(clip, fps)),
                )
            },
            EventView::Failure(kind) => abort_with(kind),
            _ => (state, ActionView::Decode),
        },
        PipelineView::AwaitingHeader { fps, clip } => match event {
            EventView::HeaderWritten(time_base) => if fps.num == 0 {
                abort_with(PipelineError::ZeroFrameRate)
            } else {
                (
                    PipelineView::Encoding {
                        clip,
                        next_column: 1,
                        increment: spec_pts_increment(fps, time_base),
                        emitted: 0,
                    },
                    ActionView::Encode { image: transposed_image(clip, 0), pts: 0 },
                )
            },
            EventView::Failure(kind) => abort_with(kind),
            _ => (state, ActionView::Decode),
        },
        PipelineView::Encoding { clip, next_column, increment, emitted } => match event {
            EventView::Packet => (
                PipelineView::Encoding { clip, next_column, increment, emitted: emitted + 1 },
                ActionView::Write(stamp_of(increment, emitted)),
            ),
            EventView::Drained => if next_column < clip[0].width {
                (
                    PipelineView::Encoding {
                        clip,
                        next_column: next_column + 1,
                        increment,
                        emitted,
                    },
                    ActionView::Encode {
                        image: transposed_image(clip, next_column as int),
                        pts: next_column as int,
                    },
                )
            } else {
                (PipelineView::Flushing { increment, emitted }, ActionView::Flush)
            },
            EventView::Failure(kind) => abort_with(kind),
            _ => (state, ActionView::Decode),
        },
        PipelineView::Flushing { increment, emitted } => match event {
            EventView::Packet => (
                PipelineView::Flushing { increment, emitted: emitted + 1 },
                ActionView::Write(stamp_of(increment, emitted)),
            ),
            EventView::Drained => (PipelineView::Finished, ActionView::Finish),
            EventView::Failure(kind) => abort_with(kind),
            _ => (state, ActionView::Decode),
        },
        PipelineView::Finished => (state, ActionView::Finish),
        PipelineView::Failed(kind) => (state, ActionView::Abort(kind)),
    }
}

/// The phases of a run with what each holds.
enum Stage {
    Decoding { fps: Rational, store: FrameStore },
    AwaitingHeader { fps: Rational, volume: Volume },
    Encoding { volume: Volume, next_column: usize, clock: TimestampSequence },
    Flushing { clock: TimestampSequence },
    Finished,
    Failed(PipelineError),
}

/// The driver of one run. It owns the frame store and the timestamp
/// sequence, and decides from each event what happens next.
pub struct Pipeline {
    stage: Stage,
}

impl View for Pipeline {
    type V = PipelineView;

    closed spec fn view(&self) -> PipelineView {
        match self.stage {
            Stage::Decoding { fps, store } => PipelineView::Decoding { fps, clip: store@ },
            Stage::AwaitingHeader { fps, volume } => PipelineView::AwaitingHeader {
                fps,
                clip: volume@,
            },
            Stage::Encoding { volume, next_column, clock } => PipelineView::Encoding {
                clip: volume@,
                next_column: next_column as nat,
                increment: clock.spec_increment(),
                emitted: clock.spec_emitted(),
            },
            Stage::Flushing { clock } => PipelineView::Flushing {
                increment: clock.spec_increment(),
                emitted: clock.spec_emitted(),
            },
            Stage::Finished => PipelineView::Finished,
            Stage::Failed(kind) => PipelineView::Failed(kind),
        }
    }
}

impl Pipeline {
    /// What the pipeline holds is well formed.
    pub closed spec fn wf(&self) -> bool {
        match self.stage {
            Stage::Decoding { fps, store } => store.wf(),
            Stage::AwaitingHeader { fps, volume } => volume.wf(),
            Stage::Encoding { volume, next_column, clock } => {
                &&& volume.wf()
                &&& clock.wf()
                &&& 1 <= next_column <= volume@[0].width
            },
            Stage::Flushing { clock } => clock.wf(),
            Stage::Finished => true,
            Stage::Failed(kind) => true,
        }
    }

    /// A well-formed pipeline is in a state that a run can reach.
    pub proof fn lemma_wf(&self)
        requires
            self.wf(),
        ensures
            self@.wf(),
    {
        match self.stage {
            Stage::Decoding { fps, store } => {
                store.lemma_wf();
            },
            Stage::AwaitingHeader { fps, volume } => {
                volume.lemma_wf();
            },
            Stage::Encoding { volume, next_column, clock } => {
                volume.lemma_wf();
                clock.lemma_current();
            },
            Stage::Flushing { clock } => {
                clock.lemma_current();
            },
            Stage::Finished => {},
            Stage::Failed(kind) => {},
        }
    }

    /// A pipeline at the start of a run whose input plays at `fps`.
    pub fn new(fps: Rational) -> (pipeline: Pipeline)
        ensures
            pipeline.wf(),
            pipeline@ == PipelineView::initial(fps),
    {
        Pipeline { stage: Stage::Decoding { fps, store: FrameStore::new() } }
    }

    /// Whether the run is over, completed or aborted.
    pub fn is_over(&self) -> (b: bool)
        ensures
            b == self@.is_over(),
    {
        match &self.stage {
            Stage::Finished => true,
            Stage::Failed(_) => true,
            _ => false,
        }
    }

    /// Why the run was aborted, if it was.
    pub fn failure(&self) -> (kind: Option<PipelineError>)
        ensures
            kind == (match self@ {
                PipelineView::Failed(k) => Some(k),
                _ => None,
            }),
    {
        match &self.stage {
            Stage::Failed(kind) => Some(*kind),
            _ => None,
        }
    }

    /// Whether `event` may be reported now.
    pub fn accepts(&self, event: &Event) -> (b: bool)
        requires
            self.wf(),
            event.wf(),
        ensures
            b == spec_accepts(self@, event@),
    {
        match &self.stage {
            Stage::Decoding { fps, store } => match event {
                Event::Frame(frame) => {
                    proof {
                        frame.lemma_wf();
                    }
                    true
                },
                Event::EndOfInput => store.len() < usize::MAX,
                Event::Failure(_) => true,
                _ => false,
            },
            Stage::AwaitingHeader { fps, volume } => match event {
                Event::HeaderWritten(_) => true,
                Event::Failure(_) => true,
                _ => false,
            },
            Stage::Encoding { volume, next_column, clock } => match event {
                Event::Packet => {
                    proof {
                        clock.lemma_current();
                    }
                    clock.can_advance()
                },
                Event::Drained => true,
                Event::Failure(_) => true,
                _ => false,
            },
            Stage::Flushing { clock } => match event {
                Event::Packet => {
                    proof {
                        clock.lemma_current();
                    }
                    clock.can_advance()
                },
                Event::Drained => true,
                Event::Failure(_) => true,
                _ => false,
            },
            Stage::Finished => false,
            Stage::Failed(_) => false,
        }
    }

    /// Takes in one event and says what to do next.
    pub fn step(self, event: Event) -> (out: (Pipeline, Action))
        requires
            self.wf(),
            event.wf(),
            spec_accepts(self@, event@),
        ensures
            out.0.wf(),
            out.1.wf(),
            (out.0@, out.1@) == spec_step(self@, event@),
    {
        match self.stage {
            Stage::Decoding { fps, store } => match event {
                Event::Frame(frame) => {
                    let mut store = store;
                    match store.append(frame) {
                        Ok(()) => (Pipeline { stage: Stage::Decoding { fps, store } }, Action::Decode),
                        Err(kind) => Self::abort(kind),
                    }
                },
                Event::EndOfInput => match store.finalize() {
                    Ok(volume) => {
                        let config = volume.output_config(fps);
                        (
                            Pipeline { stage: Stage::AwaitingHeader { fps, volume } },
                            Action::OpenOutput(config),
                        )
                    },
                    Err(kind) => Self::abort(kind),
                },
                Event::Failure(kind) => Self::abort(kind),
                _ => vstd::pervasive::unreached(),
            },
            Stage::AwaitingHeader { fps, volume } => match event {
                Event::HeaderWritten(time_base) => match pts_increment(fps, time_base) {
                    Ok(increment) => {
                        proof {
                            volume.lemma_wf();
                        }
                        let frame = volume.transpose_frame(0);
                        let clock = TimestampSequence::new(increment);
                        (
                            Pipeline { stage: Stage::Encoding { volume, next_column: 1, clock } },
                            Action::Encode { frame, pts: 0 },
                        )
                    },
                    Err(kind) => Self::abort(kind),
                },
                Event::Failure(kind) => Self::abort(kind),
                _ => vstd::pervasive::unreached(),
            },
            Stage::Encoding { volume, next_column, clock } => match event {
                Event::Packet => {
                    let mut clock = clock;
                    proof {
                        clock.lemma_current();
                    }
                    let stamp = clock.stamp();
                    (
                        Pipeline { stage: Stage::Encoding { volume, next_column, clock } },
                        Action::Write(stamp),
                    )
                },
                Event::Drained => {
                    if next_column < volume.width() {
                        proof {
                            volume.lemma_wf();
                        }
                        let frame = volume.transpose_frame(next_column);
                        let pts: i64 = next_column as i64;
                        (
                            Pipeline {
                                stage: Stage::Encoding {
                                    volume,
                                    next_column: next_column + 1,
                                    clock,
                                },
                            },
                            Action::Encode { frame, pts },
                        )
                    } else {
                        (Pipeline { stage: Stage::Flushing { clock } }, Action::Flush)
                    }
                },
                Event::Failure(kind) => Self::abort(kind),
                _ => vstd::pervasive::unreached(),
            },
            Stage::Flushing { clock } => match event {
                Event::Packet => {
                    let mut clock = clock;
                    proof {
                        clock.lemma_current();
                    }
                    let stamp = clock.stamp();
                    (Pipeline { stage: Stage::Flushing { clock } }, Action::Write(stamp))
                },
                Event::Drained => (Pipeline { stage: Stage::Finished }, Action::Finish),
                Event::Failure(kind) => Self::abort(kind),
                _ => vstd::pervasive::unreached(),
            },
            Stage::Finished => vstd::pervasive::unreached(),
            Stage::Failed(_) => vstd::pervasive::unreached(),
        }
    }

    /// The aborted pipeline together with the action that reports why.
    fn abort(kind: PipelineError) -> (out: (Pipeline, Action))
        ensures
            out.0.wf(),
            out.1.wf(),
            (out.0@, out.1@) == abort_with(kind),
    {
        (Pipeline { stage: Stage::Failed(kind) }, Action::Abort(kind))
    }
}

} // verus!
