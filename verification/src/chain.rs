use vstd::prelude::*;
use crate::seek::{
    first_submitted, initial_state, resolved_start, state_after, submissions, SeekState,
};
use crate::video::frames::{lemma_nearest_keyframe, nearest_keyframe, FrameRecord};

verus! {

/// The index at place `p` of `trace` can be decoded when it comes: it is a
/// keyframe, or the first frame of the file, or the frame that follows the
/// one handed over just before it.
pub open spec fn links(frames: Seq<FrameRecord>, trace: Seq<int>, p: int) -> bool {
    ||| frames[trace[p]].keyframe
    ||| trace[p] == 0
    ||| (p > 0 && trace[p - 1] == trace[p] - 1)
}

/// Every index of `trace` is the index of a stored frame and can be decoded
/// when it comes.
pub open spec fn chained(frames: Seq<FrameRecord>, trace: Seq<int>) -> bool {
    forall|p: int|
        0 <= p < trace.len() ==> 0 <= #[trigger] trace[p] < frames.len() && links(frames, trace, p)
}

/// `state` is where the decoder stands after `trace` was handed to it.
pub open spec fn follows(state: SeekState, trace: Seq<int>) -> bool {
    if state.has_decoded_any {
        trace.len() > 0 && trace.last() == state.current_index
    } else {
        trace.len() == 0 && state.current_index == 0
    }
}

/// A request to the demuxer.
pub enum Request {
    Decode { from: nat, to: nat },
    Seek { frame: nat },
}

/// What a request hands to the decoder.
pub open spec fn sent_for(frames: Seq<FrameRecord>, state: SeekState, request: Request) -> Seq<
    int,
> {
    match request {
        Request::Decode { from, to } => submissions(frames, state, from as int, to as int),
        Request::Seek { frame } => submissions(frames, state, frame as int, frame as int),
    }
}

/// Where the decoder stands, and all that was handed to it.
pub struct Playback {
    pub state: SeekState,
    pub trace: Seq<int>,
}

/// The outcome of a list of requests, made in order on a fresh demuxer.
pub open spec fn playback(frames: Seq<FrameRecord>, requests: Seq<Request>) -> Playback
    decreases requests.len(),
{
    if requests.len() == 0 {
        Playback { state: initial_state(), trace: Seq::empty() }
    } else {
        let before = playback(frames, requests.drop_last());
        let sent = sent_for(frames, before.state, requests.last());
        Playback { state: state_after(before.state, sent), trace: before.trace + sent }
    }
}

/// One request keeps the trace decodable: where every index handed over so
/// far could be decoded when it came, so can every index that a further
/// decode or seek hands over, and the decoder stays on a stored frame.
pub proof fn lemma_request_keeps_chain(
    frames: Seq<FrameRecord>,
    state: SeekState,
    trace: Seq<int>,
    target: int,
    to: int,
)
    requires
        0 <= state.current_index < frames.len(),
        follows(state, trace),
        chained(frames, trace),
        0 <= target,
    ensures
        chained(frames, trace + submissions(frames, state, target, to)),
        follows(
            state_after(state, submissions(frames, state, target, to)),
            trace + submissions(frames, state, target, to),
        ),
        0 <= state_after(state, submissions(frames, state, target, to)).current_index
            < frames.len(),
{
    let start = resolved_start(frames, state.current_index, target);
    lemma_nearest_keyframe(frames, target);
    assert(frames[start].keyframe || start == 0 || start == state.current_index + 1 || start
        == state.current_index);
}

/// Whatever is asked of a fresh demuxer, in whatever order, every index that
/// it hands to the decoder can be decoded when it comes.
pub proof fn lemma_playback_is_chained(frames: Seq<FrameRecord>, requests: Seq<Request>)
    requires
        frames.len() >= 1,
    ensures
        chained(frames, playback(frames, requests).trace),
        follows(playback(frames, requests).state, playback(frames, requests).trace),
        0 <= playback(frames, requests).state.current_index < frames.len(),
    decreases requests.len(),
{
    if requests.len() > 0 {
        lemma_playback_is_chained(frames, requests.drop_last());
        let before = playback(frames, requests.drop_last());
        match requests.last() {
            Request::Decode { from, to } => {
                lemma_request_keeps_chain(
                    frames,
                    before.state,
                    before.trace,
                    from as int,
                    to as int,
                );
            },
            Request::Seek { frame } => {
                lemma_request_keeps_chain(
                    frames,
                    before.state,
                    before.trace,
                    frame as int,
                    frame as int,
                );
            },
        }
    }
}

/// In a decodable trace, a frame that has a keyframe at or before it comes
/// at the end of an unbroken run from that keyframe: the nearest such
/// keyframe and every frame after it up to the frame itself were handed over
/// directly before it, in order.
pub proof fn lemma_chain_starts_at_keyframe(frames: Seq<FrameRecord>, trace: Seq<int>, p: int)
    requires
        chained(frames, trace),
        0 <= p < trace.len(),
        nearest_keyframe(frames, trace[p]) is Some,
    ensures
        ({
            let key = nearest_keyframe(frames, trace[p])->0;
            &&& 0 <= key <= trace[p]
            &&& frames[key].keyframe
            &&& 0 <= p - (trace[p] - key)
            &&& forall|d: int| 0 <= d <= trace[p] - key ==> #[trigger] trace[p - d] == trace[p] - d
        }),
    decreases p,
{
    let key = nearest_keyframe(frames, trace[p])->0;
    lemma_nearest_keyframe(frames, trace[p]);
    if !frames[trace[p]].keyframe {
        lemma_chain_starts_at_keyframe(frames, trace, p - 1);
        assert forall|d: int| 0 <= d <= trace[p] - key implies #[trigger] trace[p - d] == trace[p]
            - d by {
            if d > 0 {
                assert(trace[(p - 1) - (d - 1)] == trace[p - 1] - (d - 1));
            }
        }
    }
}

/// To seek to the frame that the decoder stands on hands over nothing and
/// leaves the decoder where it stands.
pub proof fn lemma_seek_to_current_is_idle(frames: Seq<FrameRecord>, state: SeekState)
    requires
        state.has_decoded_any,
        0 <= state.current_index < frames.len(),
    ensures
        submissions(frames, state, state.current_index, state.current_index) == Seq::<int>::empty(),
        state_after(state, submissions(frames, state, state.current_index, state.current_index))
            == state,
{
}

/// What a request hands over is a run of consecutive indices of stored
/// frames, in rising order.
pub proof fn lemma_submissions_are_a_run(
    frames: Seq<FrameRecord>,
    state: SeekState,
    target: int,
    to: int,
)
    requires
        0 <= state.current_index < frames.len(),
        0 <= target,
    ensures
        forall|k: int|
            0 <= k < submissions(frames, state, target, to).len() ==> {
                &&& #[trigger] submissions(frames, state, target, to)[k] == first_submitted(
                    frames,
                    state,
                    target,
                ) + k
                &&& 0 <= submissions(frames, state, target, to)[k] < frames.len()
                &&& submissions(frames, state, target, to)[k] <= to
            },
{
    lemma_nearest_keyframe(frames, target);
}

} // verus!
