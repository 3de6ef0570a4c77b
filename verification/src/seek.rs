use vstd::prelude::*;
use crate::video::frames::{
    index_of_timestamp, nearest_keyframe, FrameCache, FrameCacheStore, FrameRecord,
};
use crate::video::text::{decimal, push_decimal};
use crate::video::{DemuxError, VideoFile};

verus! {

/// Where the decoder stands: the index of the frame that was handed to it
/// last, and whether any frame was handed to it yet.
pub struct SeekState {
    pub current_index: int,
    pub has_decoded_any: bool,
}

/// The state before anything was decoded.
pub open spec fn initial_state() -> SeekState {
    SeekState { current_index: 0, has_decoded_any: false }
}

/// The index from which frames have to be handed over to reach `target`.
///
/// Standing on the target, nothing is rewound. Ahead of the current frame the
/// start is the last keyframe up to the target, unless that keyframe lies
/// behind the current frame (or there is none, which counts as the current
/// frame itself): then decoding goes on after the current frame. Behind the
/// current frame the start is the last keyframe up to the target, or the
/// first frame where there is none.
pub open spec fn resolved_start(frames: Seq<FrameRecord>, current: int, target: int) -> int {
    if target == current {
        current
    } else if target > current {
        let key = match nearest_keyframe(frames, target) {
            Some(k) => k,
            None => current,
        };
        if key < current {
            current + 1
        } else {
            key
        }
    } else {
        match nearest_keyframe(frames, target) {
            Some(k) => k,
            None => 0,
        }
    }
}

/// The first index that is handed over: the resolved start, or the one after
/// it where the resolved start is the frame that the decoder already has.
pub open spec fn first_submitted(frames: Seq<FrameRecord>, state: SeekState, target: int) -> int {
    let start = resolved_start(frames, state.current_index, target);
    if state.has_decoded_any && start == state.current_index {
        start + 1
    } else {
        start
    }
}

/// The last index that can be handed over for the upper bound `to`.
pub open spec fn last_submitted(frames: Seq<FrameRecord>, to: int) -> int {
    if to < frames.len() {
        to
    } else {
        frames.len() - 1
    }
}

/// The indices `first`, `first + 1`, and so on up to `last`.
pub open spec fn run_of(first: int, last: int) -> Seq<int> {
    if last < first {
        Seq::empty()
    } else {
        Seq::new((last - first + 1) as nat, |k: int| first + k)
    }
}

/// The indices that a request to decode from `target` up to `to` hands to the
/// decoder, in the order in which it hands them over.
pub open spec fn submissions(
    frames: Seq<FrameRecord>,
    state: SeekState,
    target: int,
    to: int,
) -> Seq<int> {
    run_of(first_submitted(frames, state, target), last_submitted(frames, to))
}

/// The state after the indices `submitted` were handed over.
pub open spec fn state_after(state: SeekState, submitted: Seq<int>) -> SeekState {
    if submitted.len() == 0 {
        state
    } else {
        SeekState { current_index: submitted.last(), has_decoded_any: true }
    }
}

/// What is handed over when the indices from `index` on are gone through one
/// by one: an index past `to` or past the last frame ends the walk, the index
/// that the decoder stands on is passed over unless nothing was decoded yet,
/// and every other index is handed over and is then the index that the
/// decoder stands on.
pub open spec fn walk(count: int, state: SeekState, index: int, to: int) -> Seq<int>
    decreases count - index,
{
    if index >= count || index > to {
        Seq::empty()
    } else if state.has_decoded_any && state.current_index == index {
        walk(count, state, index + 1, to)
    } else {
        seq![index] + walk(
            count,
            SeekState { current_index: index, has_decoded_any: true },
            index + 1,
            to,
        )
    }
}

/// A walk that does not start on the index that the decoder stands on hands
/// over every index up to the last one.
proof fn lemma_walk_is_a_run(frames: Seq<FrameRecord>, state: SeekState, index: int, to: int)
    requires
        !(state.has_decoded_any && state.current_index == index),
    ensures
        walk(frames.len() as int, state, index, to) == run_of(index, last_submitted(frames, to)),
    decreases frames.len() - index,
{
    if index < frames.len() && index <= to {
        let next = SeekState { current_index: index, has_decoded_any: true };
        lemma_walk_is_a_run(frames, next, index + 1, to);
        assert(seq![index] + run_of(index + 1, last_submitted(frames, to)) == run_of(
            index,
            last_submitted(frames, to),
        ));
    }
}

/// The indices that a request hands over are those that a walk from the
/// resolved start gives: to pass over the decoder's own index at every step
/// comes to no more than to pass it over where the walk starts on it.
pub proof fn lemma_submissions_are_the_walk(
    frames: Seq<FrameRecord>,
    state: SeekState,
    target: int,
    to: int,
)
    requires
        0 <= state.current_index < frames.len(),
    ensures
        submissions(frames, state, target, to) == walk(
            frames.len() as int,
            state,
            resolved_start(frames, state.current_index, target),
            to,
        ),
{
    let start = resolved_start(frames, state.current_index, target);
    if state.has_decoded_any && start == state.current_index {
        lemma_walk_is_a_run(frames, state, start + 1, to);
    } else {
        lemma_walk_is_a_run(frames, state, start, to);
    }
}

/// The message for an index that no stored frame has.
pub open spec fn frame_not_found(index: usize) -> Seq<char> {
    "Could not render frame: "@ + decimal(index as nat)
}

/// `after` is `before` with the indices `sent` appended.
pub open spec fn extended_by(after: Seq<usize>, before: Seq<usize>, sent: Seq<int>) -> bool {
    &&& after.len() == before.len() + sent.len()
    &&& forall|k: int| 0 <= k < before.len() ==> #[trigger] after[k] == before[k]
    &&& forall|k: int|
        before.len() <= k < after.len() ==> #[trigger] after[k] == sent[k - before.len()]
}

/// The frames of a loaded file and the place that decoding has reached.
pub struct Demuxer {
    first_render: bool,
    keyframes: FrameCacheStore,
    current_frame: usize,
    coded_width: u32,
    coded_height: u32,
    codec: Option<String>,
}

impl Demuxer {
    /// What holds of every demuxer: it stands on a stored frame, and on the
    /// first one for as long as nothing was decoded.
    #[verifier::type_invariant]
    pub closed spec fn in_range(self) -> bool {
        &&& self.current_frame < self.keyframes@.len()
        &&& self.first_render ==> self.current_frame == 0
    }

    /// The stored frames.
    pub closed spec fn frames(&self) -> Seq<FrameRecord> {
        self.keyframes@
    }

    /// Where decoding stands.
    pub closed spec fn state(&self) -> SeekState {
        SeekState { current_index: self.current_frame as int, has_decoded_any: !self.first_render }
    }

    /// The width that the track declares.
    pub closed spec fn width(&self) -> u32 {
        self.coded_width
    }

    /// The height that the track declares.
    pub closed spec fn height(&self) -> u32 {
        self.coded_height
    }

    /// The codec string, where the codec is a known one.
    pub closed spec fn codec_text(&self) -> Option<Seq<char>> {
        match self.codec {
            Some(text) => Some(text@),
            None => None,
        }
    }

    /// `self` holds the same file as `other`: the same frames, the same size
    /// and the same codec string.
    pub open spec fn same_file(&self, other: &Self) -> bool {
        &&& self.frames() == other.frames()
        &&& self.width() == other.width()
        &&& self.height() == other.height()
        &&& self.codec_text() == other.codec_text()
    }

    /// A demuxer stands on a stored frame, and on the first one for as long
    /// as nothing was decoded.
    pub proof fn lemma_in_range(self)
        requires
            self.in_range(),
        ensures
            0 <= self.state().current_index < self.frames().len(),
            !self.state().has_decoded_any ==> self.state().current_index == 0,
    {
    }

    /// A demuxer that stands before the first frame of `keyframes`.
    pub fn new(
        keyframes: FrameCacheStore,
        coded_width: u32,
        coded_height: u32,
        codec: Option<String>,
    ) -> (made: Self)
        ensures
            made.frames() == keyframes@,
            made.frames().len() >= 1,
            made.state() == initial_state(),
            made.width() == coded_width,
            made.height() == coded_height,
            made.codec_text() == match codec {
                Some(text) => Some(text@),
                None => None,
            },
    {
        proof {
            use_type_invariant(&keyframes);
            keyframes.lemma_holds_a_frame();
        }
        Demuxer {
            first_render: true,
            keyframes,
            current_frame: 0,
            coded_width,
            coded_height,
            codec,
        }
    }

    /// The width that the track declares.
    pub fn coded_width(&self) -> (width: u32)
        ensures
            width == self.width(),
    {
        self.coded_width
    }

    /// The height that the track declares.
    pub fn coded_height(&self) -> (height: u32)
        ensures
            height == self.height(),
    {
        self.coded_height
    }

    /// The number of stored frames.
    pub fn frame_count(&self) -> (n: usize)
        ensures
            n == self.frames().len(),
            n >= 1,
    {
        self.keyframes.count()
    }

    /// The first frame that has the timestamp `timestamp`.
    pub fn timestamp_to_frame(&self, timestamp: u64) -> (out: Option<usize>)
        ensures
            out is Some <==> index_of_timestamp(self.frames(), timestamp) is Some,
            out matches Some(index) ==> index_of_timestamp(self.frames(), timestamp) == Some(
                index as int,
            ),
            out matches Some(index) ==> index < self.frames().len()
                && self.frames()[index as int].timestamp == timestamp && forall|j: int|
                0 <= j < index ==> self.frames()[j].timestamp != timestamp,
            out is None ==> forall|j: int|
                0 <= j < self.frames().len() ==> self.frames()[j].timestamp != timestamp,
    {
        self.keyframes.timestamp_to_frame(timestamp)
    }

    /// The codec string, where the codec is a known one.
    pub fn codec(&self) -> (out: Option<String>)
        ensures
            out is Some <==> self.codec_text() is Some,
            out matches Some(text) ==> self.codec_text() == Some(text@),
    {
        match &self.codec {
            Some(text) => Some(text.clone()),
            None => None,
        }
    }

    /// The frame to hand to the decoder for the index `index`.
    pub fn render(&self, index: usize) -> (out: Result<&FrameCache, DemuxError>)
        ensures
            out is Ok <==> index < self.frames().len(),
            out matches Ok(found) ==> found@ == self.frames()[index as int],
            out matches Err(err) ==> err is FrameNotFound && err.message() == frame_not_found(
                index,
            ),
    {
        match self.keyframes.get(index) {
            Some(found) => Ok(found),
            None => {
                let mut message = String::from_str("Could not render frame: ");
                push_decimal(&mut message, index);
                Err(DemuxError::FrameNotFound(message))
            },
        }
    }

    /// Hands the frames from the start resolved for `from` up to `to` to the
    /// decoder, by appending their indices to `submitted`, and counts them.
    pub fn decode(&mut self, from: usize, to: usize, submitted: &mut Vec<usize>) -> (decoded: usize)
        ensures
            final(self).same_file(old(self)),
            ({
                let sent = submissions(
                    old(self).frames(),
                    old(self).state(),
                    from as int,
                    to as int,
                );
                &&& extended_by(final(submitted)@, old(submitted)@, sent)
                &&& decoded == sent.len()
                &&& final(self).state() == state_after(old(self).state(), sent)
            }),
            forall|k: int|
                old(submitted)@.len() <= k < final(submitted)@.len() ==> #[trigger] final(
                    submitted
                )@[k] < final(self).frames().len(),
            0 <= final(self).state().current_index < final(self).frames().len(),
    {
        let skip_until = self.skip_to_keyframe(from);
        self.submit_range(skip_until, to, submitted)
    }

    /// Hands the frames from the start resolved for `frame` up to `frame` to
    /// the decoder, by appending their indices to `submitted`, and gives the
    /// timestamp of the frame that the decoder then stands on.
    pub fn seek(&mut self, frame: usize, submitted: &mut Vec<usize>) -> (timestamp: u64)
        ensures
            final(self).same_file(old(self)),
            ({
                let sent = submissions(
                    old(self).frames(),
                    old(self).state(),
                    frame as int,
                    frame as int,
                );
                &&& extended_by(final(submitted)@, old(submitted)@, sent)
                &&& final(self).state() == state_after(old(self).state(), sent)
            }),
            forall|k: int|
                old(submitted)@.len() <= k < final(submitted)@.len() ==> #[trigger] final(
                    submitted
                )@[k] < final(self).frames().len(),
            0 <= final(self).state().current_index < final(self).frames().len(),
            timestamp == final(self).frames()[final(self).state().current_index].timestamp,
    {
        let skip_until = self.skip_to_keyframe(frame);
        self.submit_range(skip_until, frame, submitted);
        self.current_timestamp()
    }

    /// The timestamp of the frame that the decoder stands on.
    fn current_timestamp(&self) -> (timestamp: u64)
        ensures
            0 <= self.state().current_index < self.frames().len(),
            timestamp == self.frames()[self.state().current_index].timestamp,
    {
        proof {
            use_type_invariant(self);
        }
        match self.keyframes.get(self.current_frame) {
            Some(frame) => frame.timestamp,
            None => 0,
        }
    }

    /// The index from which frames have to be handed over to reach `frame`.
    pub fn skip_to_keyframe(&self, frame: usize) -> (start: usize)
        ensures
            start == resolved_start(self.frames(), self.state().current_index, frame as int),
    {
        proof {
            use_type_invariant(self);
        }
        if frame == self.current_frame {
            self.current_frame
        } else if frame > self.current_frame {
            let next = match self.keyframes.find_prev_key_frame_before(frame) {
                Some(k) => k,
                None => self.current_frame,
            };
            if next < self.current_frame {
                self.current_frame + 1
            } else {
                next
            }
        } else {
            match self.keyframes.find_prev_key_frame_before(frame) {
                Some(k) => k,
                None => 0,
            }
        }
    }

    /// Hands over the frames from `skip_until` up to `to`, but for the one
    /// that the decoder already stands on.
    fn submit_range(
        &mut self,
        skip_until: usize,
        to: usize,
        submitted: &mut Vec<usize>,
    ) -> (decoded: usize)
        ensures
            final(self).same_file(old(self)),
            0 <= final(self).state().current_index < final(self).frames().len(),
            ({
                let first = if old(self).state().has_decoded_any && skip_until == old(
                    self,
                ).state().current_index {
                    skip_until + 1
                } else {
                    skip_until as int
                };
                let sent = run_of(first, last_submitted(old(self).frames(), to as int));
                &&& extended_by(final(submitted)@, old(submitted)@, sent)
                &&& forall|k: int|
                    old(submitted)@.len() <= k < final(submitted)@.len() ==> #[trigger] final(
                        submitted
                    )@[k] < final(self).frames().len()
                &&& decoded == sent.len()
                &&& final(self).state() == state_after(old(self).state(), sent)
            }),
    {
        proof {
            use_type_invariant(&*self);
        }
        let count = self.keyframes.count();
        let ghost first = if !self.first_render && skip_until == self.current_frame {
            skip_until + 1
        } else {
            skip_until as int
        };
        let ghost before = submitted@;
        let ghost start_state = self.state();
        let mut decoded: usize = 0;
        let mut idx: usize = skip_until;
        while idx < count && idx <= to
            invariant
                count == self.keyframes@.len(),
                self.keyframes@ == old(self).keyframes@,
                self.coded_width == old(self).coded_width,
                self.coded_height == old(self).coded_height,
                self.codec == old(self).codec,
                self.current_frame < count,
                self.first_render ==> self.current_frame == 0,
                start_state == old(self).state(),
                before == old(submitted)@,
                first == if start_state.has_decoded_any && skip_until
                    == start_state.current_index {
                    skip_until + 1
                } else {
                    skip_until as int
                },
                skip_until <= idx,
                idx == skip_until || (idx <= count && idx <= to + 1),
                decoded == run_of(first, idx - 1).len(),
                decoded <= idx,
                extended_by(submitted@, before, run_of(first, idx - 1)),
                forall|k: int|
                    before.len() <= k < submitted@.len() ==> #[trigger] submitted@[k] < count,
                self.state() == state_after(start_state, run_of(first, idx - 1)),
            decreases count - idx,
        {
            if self.current_frame != idx || self.first_render {
                self.first_render = false;
                self.current_frame = idx;
                submitted.push(idx);
                decoded += 1;
            }
            idx += 1;
        }
        assert(idx - 1 == last_submitted(old(self).frames(), to as int) || (idx == skip_until
            && last_submitted(old(self).frames(), to as int) < skip_until));
        assert(run_of(first, idx - 1) == run_of(
            first,
            last_submitted(old(self).frames(), to as int),
        ));
        decoded
    }
}

/// What `load` reports for a file that it cannot set up: the first of a bad
/// codec configuration, a missing video track and an empty frame set.
pub open spec fn load_failure(file: VideoFile, err: DemuxError) -> bool {
    if file.codec_text() is Err {
        err is InvalidData && err.message() == file.codec_text()->Err_0
    } else if file.width() is None || file.height() is None {
        err is TrackNotFound && err.message() == "Could not find video track"@
    } else {
        err is NoFrames && err.message() == "Cannot initialize frame store cache with 0 frames"@
    }
}

/// Sets up a demuxer that stands before the first frame of `file`'s video
/// track.
pub fn load(file: VideoFile) -> (out: Result<Demuxer, DemuxError>)
    ensures
        out is Ok <==> file.codec_text() is Ok && file.width() is Some && file.height() is Some
            && file.video_frames().len() >= 1,
        out matches Ok(made) ==> {
            &&& made.frames() == file.video_frames()
            &&& made.state() == initial_state()
            &&& file.width() == Some(made.width())
            &&& file.height() == Some(made.height())
            &&& file.codec_text() == Ok::<Option<Seq<char>>, Seq<char>>(made.codec_text())
        },
        out matches Err(err) ==> load_failure(file, err),
{
    let codec = match file.codec() {
        Ok(text) => text,
        Err(err) => {
            return Err(err);
        },
    };
    let coded_width = match file.coded_width() {
        Ok(width) => width,
        Err(err) => {
            return Err(err);
        },
    };
    let coded_height = match file.coded_height() {
        Ok(height) => height,
        Err(err) => {
            return Err(err);
        },
    };
    let keyframes = match file.keyframes() {
        Ok(store) => store,
        Err(err) => {
            return Err(err);
        },
    };
    Ok(Demuxer::new(keyframes, coded_width, coded_height, codec))
}

} // verus!
