//! Whole runs: what holds of every sequence of events.
//!
//! A run is the list of actions that a pipeline answers a list of events
//! with, from its first state on. It ends where the events end, or earlier
//! at the first event that the pipeline does not accept; after a failure or
//! after completion no event is accepted.

use vstd::prelude::*;
use crate::error::PipelineError;
use crate::image::{uniform, Image};
use crate::pipeline::{spec_accepts, spec_step, ActionView, EventView, PipelineView};
use crate::rational::Rational;
use crate::timestamp::{lemma_increment_fits, spec_pts, spec_pts_increment, Timestamp};
use crate::transpose::transposed_image;

verus! {

/// The actions that answer `events`, one for each accepted event, from
/// `state` on.
pub open spec fn actions(state: PipelineView, events: Seq<EventView>) -> Seq<ActionView>
    decreases events.len(),
{
    if events.len() == 0 || !spec_accepts(state, events[0]) {
        Seq::empty()
    } else {
        seq![spec_step(state, events[0]).1] + actions(
            spec_step(state, events[0]).0,
            events.drop_first(),
        )
    }
}

/// The timestamps of the packets that a list of actions writes, in order.
pub open spec fn stamps(acts: Seq<ActionView>) -> Seq<Timestamp>
    decreases acts.len(),
{
    if acts.len() == 0 {
        Seq::empty()
    } else {
        match acts[0] {
            ActionView::Write(stamp) => seq![stamp] + stamps(acts.drop_first()),
            _ => stamps(acts.drop_first()),
        }
    }
}

/// The state that is reached when the accepted events are through.
pub open spec fn final_state(state: PipelineView, events: Seq<EventView>) -> PipelineView
    decreases events.len(),
{
    if events.len() == 0 || !spec_accepts(state, events[0]) {
        state
    } else {
        final_state(spec_step(state, events[0]).0, events.drop_first())
    }
}

/// Those of the actions that send a frame to the encoder, in order.
pub open spec fn encodes(acts: Seq<ActionView>) -> Seq<ActionView>
    decreases acts.len(),
{
    if acts.len() == 0 {
        Seq::empty()
    } else if acts[0] is Encode {
        seq![acts[0]] + encodes(acts.drop_first())
    } else {
        encodes(acts.drop_first())
    }
}

/// The frames that the events report before anything else is reported.
pub open spec fn leading_frames(events: Seq<EventView>) -> Seq<Image>
    decreases events.len(),
{
    if events.len() == 0 {
        Seq::empty()
    } else {
        match events[0] {
            EventView::Frame(image) => seq![image] + leading_frames(events.drop_first()),
            _ => Seq::empty(),
        }
    }
}

/// What the encoder is owed from output frame `from` on: every output frame
/// of the transposed clip up to the last, each with its index as timestamp.
pub open spec fn columns(clip: Seq<Image>, from: nat) -> Seq<ActionView> {
    Seq::new(
        (clip[0].width - from) as nat,
        |i: int| ActionView::Encode { image: transposed_image(clip, from + i), pts: from + i },
    )
}

/// One frame event for each picture, in order.
pub open spec fn frame_events(clip: Seq<Image>) -> Seq<EventView> {
    Seq::new(clip.len(), |t: int| EventView::Frame(clip[t]))
}

/// `n` requests for the next frame.
pub open spec fn decode_requests(n: nat) -> Seq<ActionView> {
    Seq::new(n, |i: int| ActionView::Decode)
}

/// Whether an action makes the caller touch encoder or muxer.
pub open spec fn uses_output(action: ActionView) -> bool {
    action is OpenOutput || action is Encode || action is Write || action is Flush
        || action is Finish
}

/// The timestamps are `start * increment`, `(start + 1) * increment` and so
/// on, and every decode timestamp equals its presentation timestamp.
pub open spec fn periodic(list: Seq<Timestamp>, increment: int, start: nat) -> bool {
    forall|k: int|
        0 <= k < list.len() ==> {
            &&& (#[trigger] list[k]).pts == spec_pts(increment, (start + k) as nat)
            &&& list[k].dts == list[k].pts
        }
}

/// The first header event among `events`, if it comes while the pipeline
/// waits for it: the time base that the timestamps of the run are counted
/// in.
pub open spec fn negotiated_time_base(state: PipelineView, events: Seq<EventView>) -> Option<
    Rational,
>
    decreases events.len(),
{
    if events.len() == 0 || !spec_accepts(state, events[0]) {
        None
    } else {
        match (state, events[0]) {
            (PipelineView::AwaitingHeader { fps, clip }, EventView::HeaderWritten(time_base)) => Some(
                time_base,
            ),
            _ => negotiated_time_base(spec_step(state, events[0]).0, events.drop_first()),
        }
    }
}

/// What holds of the frames `sent` to the encoder by a run that ended in
/// state `end`, where `owed` is what the encoder is owed: they are the
/// first of those owed, in the same order, and all of them once the run is
/// flushing or finished.
pub open spec fn sent_in_order(sent: Seq<ActionView>, owed: Seq<ActionView>, end: PipelineView) -> bool {
    &&& sent.is_prefix_of(owed)
    &&& end is Flushing || end is Finished ==> sent == owed
}

/// A step from a reachable state on an accepted event leads to a reachable
/// state.
pub proof fn lemma_step_preserves_wf(state: PipelineView, event: EventView)
    requires
        state.wf(),
        spec_accepts(state, event),
    ensures
        spec_step(state, event).0.wf(),
{
    match state {
        PipelineView::Decoding { fps, clip } => {
            if let EventView::Frame(image) = event {
                let grown = clip.push(image);
                assert forall|t: int| 0 <= t < clip.len() implies grown[t] == clip[t] by {}
            }
        },
        PipelineView::AwaitingHeader { fps, clip } => {
            if let EventView::HeaderWritten(time_base) = event {
                if fps.num != 0 {
                    lemma_increment_fits(fps, time_base);
                }
            }
        },
        PipelineView::Encoding { clip, next_column, increment, emitted } => {
            assert((emitted + 1) * increment == emitted * increment + increment)
                by (nonlinear_arith);
        },
        PipelineView::Flushing { increment, emitted } => {
            assert((emitted + 1) * increment == emitted * increment + increment)
                by (nonlinear_arith);
        },
        PipelineView::Finished => {},
        PipelineView::Failed(kind) => {},
    }
}

/// Once a run is over, completed or aborted, nothing more happens: no event
/// is accepted, so no action follows.
pub proof fn lemma_over_is_final(state: PipelineView, events: Seq<EventView>)
    requires
        state.is_over(),
    ensures
        forall|event: EventView| !spec_accepts(state, event),
        actions(state, events) == Seq::<ActionView>::empty(),
{
}

/// When decoding ends without a single frame, the run is aborted with
/// `EmptyStore` and that is all that happens: whatever is reported
/// afterwards, no action touches encoder or muxer.
pub proof fn lemma_empty_input_aborts(fps: Rational, events: Seq<EventView>)
    requires
        events.len() >= 1,
        events[0] == EventView::EndOfInput,
    ensures
        actions(PipelineView::initial(fps), events) == seq![
            ActionView::Abort(PipelineError::EmptyStore),
        ],
        forall|i: int|
            0 <= i < actions(PipelineView::initial(fps), events).len() ==> !uses_output(
                #[trigger] actions(PipelineView::initial(fps), events)[i],
            ),
{
    lemma_over_is_final(PipelineView::Failed(PipelineError::EmptyStore), events.drop_first());
}

/// The encoder and the muxer are not touched before the input has ended:
/// while a run is still decoding, every action asks for the next frame or
/// aborts.
pub proof fn lemma_decoding_makes_no_output(state: PipelineView, event: EventView)
    requires
        state is Decoding,
        spec_accepts(state, event),
        event != EventView::EndOfInput,
    ensures
        !uses_output(spec_step(state, event).1),
        spec_step(state, event).0 is Decoding || spec_step(state, event).0 is Failed,
{
}

/// Putting an action in front of a list puts its timestamp, if it writes a
/// packet, in front of the list's timestamps.
proof fn lemma_stamps_cons(first: ActionView, rest: Seq<ActionView>)
    ensures
        stamps(seq![first] + rest) == match first {
            ActionView::Write(stamp) => seq![stamp] + stamps(rest),
            _ => stamps(rest),
        },
{
    assert((seq![first] + rest).drop_first() =~= rest);
}

/// From a state of the second pass on, packet after packet gets the next
/// multiple of the increment.
proof fn lemma_stamps_from(state: PipelineView, events: Seq<EventView>)
    requires
        state.wf(),
    ensures
        match state {
            PipelineView::Encoding { clip, next_column, increment, emitted } => periodic(
                stamps(actions(state, events)),
                increment,
                emitted,
            ),
            PipelineView::Flushing { increment, emitted } => periodic(
                stamps(actions(state, events)),
                increment,
                emitted,
            ),
            PipelineView::AwaitingHeader { fps, clip } => events.len() > 0 ==> (match events[0] {
                EventView::HeaderWritten(time_base) => if fps.num != 0 {
                    periodic(stamps(actions(state, events)), spec_pts_increment(fps, time_base), 0)
                } else {
                    stamps(actions(state, events)).len() == 0
                },
                _ => stamps(actions(state, events)).len() == 0,
            }),
            _ => true,
        },
        state.is_over() ==> stamps(actions(state, events)).len() == 0,
        events.len() == 0 ==> stamps(actions(state, events)).len() == 0,
    decreases events.len(),
{
    if events.len() > 0 && spec_accepts(state, events[0]) {
        let next = spec_step(state, events[0]).0;
        let action = spec_step(state, events[0]).1;
        let rest = events.drop_first();
        lemma_step_preserves_wf(state, events[0]);
        lemma_stamps_from(next, rest);
        lemma_stamps_cons(action, actions(next, rest));
        let tail = stamps(actions(next, rest));
        let all = stamps(actions(state, events));
        if events[0] == EventView::Packet {
            assert forall|k: int| 0 < k < all.len() implies all[k] == tail[k - 1] by {}
        }
    }
}

/// In every run the packets written carry the timestamps `0`, `increment`,
/// `2 * increment` and so on as both presentation and decode timestamp,
/// where `increment` is computed from the frame rate and from the time base
/// that the muxer reported. Before that report, and with a frame rate of
/// zero, no packet is written.
pub proof fn lemma_run_timestamps(fps: Rational, events: Seq<EventView>)
    ensures
        match negotiated_time_base(PipelineView::initial(fps), events) {
            Some(time_base) => if fps.num != 0 {
                periodic(
                    stamps(actions(PipelineView::initial(fps), events)),
                    spec_pts_increment(fps, time_base),
                    0,
                )
            } else {
                stamps(actions(PipelineView::initial(fps), events)).len() == 0
            },
            None => stamps(actions(PipelineView::initial(fps), events)).len() == 0,
        },
{
    lemma_stamps_before_header(PipelineView::initial(fps), fps, events);
}

/// The same, from any state of the first pass or the state that waits for
/// the header.
proof fn lemma_stamps_before_header(state: PipelineView, fps: Rational, events: Seq<EventView>)
    requires
        state.wf(),
        match state {
            PipelineView::Decoding { fps: f, clip } => f == fps,
            PipelineView::AwaitingHeader { fps: f, clip } => f == fps,
            PipelineView::Failed(kind) => true,
            _ => false,
        },
    ensures
        match negotiated_time_base(state, events) {
            Some(time_base) => if fps.num != 0 {
                periodic(stamps(actions(state, events)), spec_pts_increment(fps, time_base), 0)
            } else {
                stamps(actions(state, events)).len() == 0
            },
            None => stamps(actions(state, events)).len() == 0,
        },
    decreases events.len(),
{
    if events.len() > 0 && spec_accepts(state, events[0]) {
        let next = spec_step(state, events[0]).0;
        let action = spec_step(state, events[0]).1;
        let rest = events.drop_first();
        lemma_step_preserves_wf(state, events[0]);
        lemma_stamps_cons(action, actions(next, rest));
        match state {
            PipelineView::Decoding { fps: f, clip } => {
                lemma_stamps_before_header(next, fps, rest);
            },
            PipelineView::AwaitingHeader { fps: f, clip } => {
                lemma_stamps_from(state, events);
                if !(events[0] is HeaderWritten) {
                    lemma_stamps_before_header(next, fps, rest);
                }
            },
            _ => {},
        }
    }
}

/// Putting an action in front of a list puts it, if it sends a frame to the
/// encoder, in front of what the list sends.
proof fn lemma_encodes_cons(first: ActionView, rest: Seq<ActionView>)
    ensures
        encodes(seq![first] + rest) == if first is Encode {
            seq![first] + encodes(rest)
        } else {
            encodes(rest)
        },
{
    assert((seq![first] + rest).drop_first() =~= rest);
}

/// From any reachable state on, output frames go to the encoder in rising
/// order without a gap, and the run does not start to flush before the last
/// one went.
proof fn lemma_encodes_from(state: PipelineView, events: Seq<EventView>)
    requires
        state.wf(),
    ensures
        match state {
            PipelineView::Decoding { fps, clip } => sent_in_order(
                encodes(actions(state, events)),
                columns(clip + leading_frames(events), 0),
                final_state(state, events),
            ),
            PipelineView::AwaitingHeader { fps, clip } => sent_in_order(
                encodes(actions(state, events)),
                columns(clip, 0),
                final_state(state, events),
            ),
            PipelineView::Encoding { clip, next_column, increment, emitted } => sent_in_order(
                encodes(actions(state, events)),
                columns(clip, next_column),
                final_state(state, events),
            ),
            PipelineView::Flushing { increment, emitted } => encodes(actions(state, events)).len()
                == 0 && (final_state(state, events) is Flushing || final_state(state, events)
                is Finished || final_state(state, events) is Failed),
            PipelineView::Finished => encodes(actions(state, events)).len() == 0 && final_state(
                state,
                events,
            ) is Finished,
            PipelineView::Failed(kind) => encodes(actions(state, events)).len() == 0
                && final_state(state, events) is Failed,
        },
    decreases events.len(),
{
    if events.len() > 0 && spec_accepts(state, events[0]) {
        let next = spec_step(state, events[0]).0;
        let action = spec_step(state, events[0]).1;
        let rest = events.drop_first();
        lemma_step_preserves_wf(state, events[0]);
        lemma_encodes_from(next, rest);
        lemma_encodes_cons(action, actions(next, rest));
        let sent = encodes(actions(state, events));
        match state {
            PipelineView::Decoding { fps, clip } => {
                if next is Decoding {
                    assert(next->Decoding_clip + leading_frames(rest) =~= clip + leading_frames(
                        events,
                    ));
                }
            },
            PipelineView::AwaitingHeader { fps, clip } => {
                if next is Encoding {
                    assert(columns(clip, 0) =~= seq![action] + columns(clip, 1));
                    assert(sent.is_prefix_of(columns(clip, 0)));
                }
            },
            PipelineView::Encoding { clip, next_column, increment, emitted } => {
                if action is Encode {
                    assert(columns(clip, next_column) =~= seq![action] + columns(
                        clip,
                        next_column + 1,
                    ));
                    assert(sent.is_prefix_of(columns(clip, next_column)));
                } else if next is Flushing {
                    assert(sent =~= columns(clip, next_column));
                }
            },
            _ => {},
        }
    }
}

/// In every run the output frames go to the encoder in rising order,
/// beginning with the first and leaving none out: what is sent is the start
/// of the transposed clip of the frames that were decoded, each frame with
/// its index as timestamp. A run that gets as far as flushing has sent all
/// of them, one for every column of the input.
pub proof fn lemma_run_encodes_in_order(fps: Rational, events: Seq<EventView>)
    ensures
        sent_in_order(
            encodes(actions(PipelineView::initial(fps), events)),
            columns(leading_frames(events), 0),
            final_state(PipelineView::initial(fps), events),
        ),
{
    lemma_encodes_from(PipelineView::initial(fps), events);
}

/// While frames of one size come in, each is answered by a request for the
/// next.
proof fn lemma_decoding_run(
    fps: Rational,
    done: Seq<Image>,
    todo: Seq<Image>,
    rest: Seq<EventView>,
)
    requires
        uniform(done + todo),
    ensures
        actions(PipelineView::Decoding { fps, clip: done }, frame_events(todo) + rest)
            == decode_requests(todo.len()) + actions(
            PipelineView::Decoding { fps, clip: done + todo },
            rest,
        ),
    decreases todo.len(),
{
    let state = PipelineView::Decoding { fps, clip: done };
    let events = frame_events(todo) + rest;
    let all = done + todo;
    if todo.len() > 0 {
        let image = todo[0];
        assert(all[done.len() as int] == image);
        let grown = done.push(image);
        let later = todo.drop_first();
        assert(spec_step(state, events[0]) == (
            PipelineView::Decoding { fps, clip: grown },
            ActionView::Decode,
        ));
        assert(events.drop_first() =~= frame_events(later) + rest);
        assert(grown + later =~= all);
        lemma_decoding_run(fps, grown, later, rest);
        assert(seq![ActionView::Decode] + decode_requests(later.len()) =~= decode_requests(
            todo.len(),
        ));
        assert(actions(state, events) =~= decode_requests(todo.len()) + actions(
            PipelineView::Decoding { fps, clip: all },
            rest,
        ));
    }
}

/// When a frame comes in whose size differs from that of the frames before
/// it, the run is aborted with `DimensionMismatch`. Until then every action
/// asked for the next frame, so no output frame was produced, and nothing
/// happens afterwards.
pub proof fn lemma_mismatch_aborts(
    fps: Rational,
    clip: Seq<Image>,
    odd: Image,
    rest: Seq<EventView>,
)
    requires
        uniform(clip),
        clip.len() >= 1,
        odd.wf(),
        !odd.same_size(clip[0]),
    ensures
        actions(
            PipelineView::initial(fps),
            frame_events(clip) + (seq![EventView::Frame(odd)] + rest),
        ) == decode_requests(clip.len()) + seq![
            ActionView::Abort(PipelineError::DimensionMismatch),
        ],
{
    let tail = seq![EventView::Frame(odd)] + rest;
    let state = PipelineView::Decoding { fps, clip };
    lemma_decoding_run(fps, Seq::empty(), clip, tail);
    lemma_over_is_final(spec_step(state, tail[0]).0, tail.drop_first());
}

} // verus!
