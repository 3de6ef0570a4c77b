use vstd::prelude::*;
use vstd::slice::slice_to_vec;

verus! {

/// A frame as the container's reader hands it out.
#[derive(Debug, PartialEq, Eq)]
pub struct Frame {
    /// The number of the track that the frame belongs to.
    pub track: u64,
    pub timestamp: u64,
    /// The encoded payload.
    pub data: Vec<u8>,
    /// Whether the container marks the frame as a keyframe, where it says so.
    pub is_keyframe: Option<bool>,
}

/// One encoded frame of the video track. Its place in the store is its index
/// in decode order.
#[derive(Debug, PartialEq, Eq)]
pub struct FrameCache {
    /// Whether decoding can start at this frame.
    pub keyframe: bool,
    pub timestamp: u64,
    /// The encoded payload.
    pub payload: Vec<u8>,
}

/// What a stored frame is, as a plain value.
pub struct FrameRecord {
    pub keyframe: bool,
    pub timestamp: u64,
    pub payload: Seq<u8>,
}

impl View for FrameCache {
    type V = FrameRecord;

    open spec fn view(&self) -> FrameRecord {
        FrameRecord { keyframe: self.keyframe, timestamp: self.timestamp, payload: self.payload@ }
    }
}

/// Why a frame or a store of frames could not be set up.
#[derive(Debug, PartialEq, Eq)]
pub enum FrameCacheError {
    /// A frame could not be set up.
    Init(String),
    /// There is no frame to store.
    NoFrames(String),
}

impl FrameCacheError {
    /// The text that the error carries.
    pub open spec fn message(self) -> Seq<char> {
        match self {
            FrameCacheError::Init(msg) => msg@,
            FrameCacheError::NoFrames(msg) => msg@,
        }
    }
}

/// The record that a frame of the container is stored as: a frame without a
/// keyframe mark is no keyframe.
pub open spec fn record_of_frame(frame: Frame) -> FrameRecord {
    FrameRecord {
        keyframe: frame.is_keyframe == Some(true),
        timestamp: frame.timestamp,
        payload: frame.data@,
    }
}

/// The records of the frames that belong to `track`, in the order in which
/// the frames come.
pub open spec fn track_records(frames: Seq<Frame>, track: u64) -> Seq<FrameRecord>
    decreases frames.len(),
{
    if frames.len() == 0 {
        Seq::empty()
    } else if frames.last().track == track {
        track_records(frames.drop_last(), track).push(record_of_frame(frames.last()))
    } else {
        track_records(frames.drop_last(), track)
    }
}

/// The views of a list of stored frames.
pub open spec fn records(store: Seq<FrameCache>) -> Seq<FrameRecord> {
    store.map_values(|frame: FrameCache| frame@)
}

/// The first index whose frame has the timestamp `timestamp`.
pub open spec fn index_of_timestamp(frames: Seq<FrameRecord>, timestamp: u64) -> Option<int>
    decreases frames.len(),
{
    if frames.len() == 0 {
        None
    } else {
        match index_of_timestamp(frames.drop_last(), timestamp) {
            Some(index) => Some(index),
            None => if frames.last().timestamp == timestamp {
                Some(frames.len() - 1)
            } else {
                None
            },
        }
    }
}

/// The last keyframe at or before `limit`.
pub open spec fn nearest_keyframe(frames: Seq<FrameRecord>, limit: int) -> Option<int>
    decreases limit + 1,
{
    if limit < 0 {
        None
    } else if limit < frames.len() && frames[limit].keyframe {
        Some(limit)
    } else {
        nearest_keyframe(frames, limit - 1)
    }
}

/// The sum of the payloads' lengths.
pub open spec fn payload_total(frames: Seq<FrameRecord>) -> nat
    decreases frames.len(),
{
    if frames.len() == 0 {
        0
    } else {
        payload_total(frames.drop_last()) + frames.last().payload.len()
    }
}

/// `index_of_timestamp` finds the first frame with the timestamp, and
/// finds none only where no frame has it.
pub proof fn lemma_index_of_timestamp(frames: Seq<FrameRecord>, timestamp: u64)
    ensures
        match index_of_timestamp(frames, timestamp) {
            Some(index) => 0 <= index < frames.len() && frames[index].timestamp == timestamp
                && forall|j: int| 0 <= j < index ==> frames[j].timestamp != timestamp,
            None => forall|j: int| 0 <= j < frames.len() ==> frames[j].timestamp != timestamp,
        },
    decreases frames.len(),
{
    if frames.len() > 0 {
        let front = frames.drop_last();
        lemma_index_of_timestamp(front, timestamp);
        assert(forall|j: int| 0 <= j < front.len() ==> front[j] == frames[j]);
    }
}

/// `nearest_keyframe` finds the greatest index up to `limit` that holds a
/// keyframe, and finds none only where no index up to `limit` holds one.
pub proof fn lemma_nearest_keyframe(frames: Seq<FrameRecord>, limit: int)
    ensures
        match nearest_keyframe(frames, limit) {
            Some(index) => 0 <= index <= limit && index < frames.len() && frames[index].keyframe
                && forall|j: int| index < j <= limit && j < frames.len() ==> !frames[j].keyframe,
            None => forall|j: int| 0 <= j <= limit && j < frames.len() ==> !frames[j].keyframe,
        },
    decreases limit + 1,
{
    if limit >= 0 && !(limit < frames.len() && frames[limit].keyframe) {
        lemma_nearest_keyframe(frames, limit - 1);
    }
}

impl FrameCache {
    /// Sets up a frame from its payload, its timestamp and its keyframe mark.
    pub fn init(bytes: &[u8], ts: u64, keyframe: bool) -> (frame: Self)
        ensures
            frame@ == (FrameRecord { keyframe, timestamp: ts, payload: bytes@ }),
    {
        Self { keyframe, timestamp: ts, payload: slice_to_vec(bytes) }
    }
}

/// Sets up the frames that belong to `track`, in the order in which they come.
pub fn frames_of_track(frames: &Vec<Frame>, track: u64) -> (store: Vec<FrameCache>)
    ensures
        records(store@) == track_records(frames@, track),
{
    let mut store: Vec<FrameCache> = Vec::new();
    let mut i: usize = 0;
    while i < frames.len()
        invariant
            i <= frames.len(),
            records(store@) == track_records(frames@.take(i as int), track),
        decreases frames.len() - i,
    {
        let frame = &frames[i];
        assert(frames@.take(i as int + 1).drop_last() == frames@.take(i as int));
        if frame.track == track {
            let keyframe = match frame.is_keyframe {
                Some(mark) => mark,
                None => false,
            };
            store.push(FrameCache::init(frame.data.as_slice(), frame.timestamp, keyframe));
        }
        i += 1;
    }
    assert(frames@.take(i as int) == frames@);
    store
}

/// The frames of one video track in decode order. It is built once, holds at
/// least one frame, and does not change.
pub struct FrameCacheStore {
    store: Vec<FrameCache>,
}

impl View for FrameCacheStore {
    type V = Seq<FrameRecord>;

    closed spec fn view(&self) -> Seq<FrameRecord> {
        records(self.store@)
    }
}

impl FrameCacheStore {
    /// What holds of every store: it holds at least one frame.
    #[verifier::type_invariant]
    pub closed spec fn holds_a_frame(self) -> bool {
        self.store@.len() >= 1
    }

    /// A store holds at least one frame.
    pub proof fn lemma_holds_a_frame(self)
        requires
            self.holds_a_frame(),
        ensures
            self@.len() >= 1,
    {
    }

    /// Builds the store of the frames of `video_track` among `frames`.
    pub fn init(frames: &Vec<Frame>, video_track: u64) -> (out: Result<
        FrameCacheStore,
        FrameCacheError,
    >)
        ensures
            out is Ok <==> track_records(frames@, video_track).len() >= 1,
            out matches Ok(made) ==> made@ == track_records(frames@, video_track),
            out matches Err(err) ==> err is NoFrames && err.message() == "No video frames found"@,
    {
        let store = frames_of_track(frames, video_track);
        if store.len() == 0 {
            return Err(FrameCacheError::NoFrames(String::from_str("No video frames found")));
        }
        Ok(Self { store })
    }

    /// Builds the store of `store`'s frames.
    pub fn new(store: Vec<FrameCache>) -> (out: Result<Self, FrameCacheError>)
        ensures
            out is Ok <==> store@.len() >= 1,
            out matches Ok(made) ==> made@ == records(store@),
            out matches Err(err) ==> err is NoFrames && err.message()
                == "Cannot initialize frame store cache with 0 frames"@,
    {
        if store.len() < 1 {
            return Err(
                FrameCacheError::NoFrames(
                    String::from_str("Cannot initialize frame store cache with 0 frames"),
                ),
            );
        }
        Ok(Self { store })
    }

    /// The total length of the payloads.
    pub fn total_size(&self) -> (total: u64)
        requires
            payload_total(self@) <= u64::MAX,
        ensures
            total == payload_total(self@),
    {
        let mut total: u64 = 0;
        let mut i: usize = 0;
        while i < self.store.len()
            invariant
                i <= self.store@.len(),
                total == payload_total(self@.take(i as int)),
                payload_total(self@) <= u64::MAX,
            decreases self.store@.len() - i,
        {
            proof {
                assert(self@.take(i as int + 1).drop_last() == self@.take(i as int));
                lemma_payload_total_grows(self@, i as int + 1);
            }
            total = total + self.store[i].payload.len() as u64;
            i += 1;
        }
        assert(self@.take(i as int) == self@);
        total
    }

    /// The number of frames.
    pub fn count(&self) -> (n: usize)
        ensures
            n == self@.len(),
            n >= 1,
    {
        proof {
            use_type_invariant(self);
        }
        self.store.len()
    }

    /// The frame at `id`.
    pub fn get(&self, id: usize) -> (out: Option<&FrameCache>)
        ensures
            out is Some <==> id < self@.len(),
            out matches Some(frame) ==> frame@ == self@[id as int],
    {
        if id < self.store.len() {
            Some(&self.store[id])
        } else {
            None
        }
    }

    /// The first frame that has the timestamp `timestamp`.
    pub fn timestamp_to_frame(&self, timestamp: u64) -> (out: Option<usize>)
        ensures
            out is Some <==> index_of_timestamp(self@, timestamp) is Some,
            out matches Some(index) ==> index_of_timestamp(self@, timestamp) == Some(index as int),
            out matches Some(index) ==> index < self@.len() && self@[index as int].timestamp
                == timestamp && forall|j: int| 0 <= j < index ==> self@[j].timestamp != timestamp,
            out is None ==> forall|j: int| 0 <= j < self@.len() ==> self@[j].timestamp != timestamp,
    {
        let mut i: usize = 0;
        while i < self.store.len()
            invariant
                i <= self.store@.len(),
                forall|j: int| 0 <= j < i ==> self@[j].timestamp != timestamp,
            decreases self.store@.len() - i,
        {
            if self.store[i].timestamp == timestamp {
                proof {
                    lemma_index_of_timestamp(self@, timestamp);
                    assert(self@[i as int].timestamp == timestamp);
                }
                return Some(i);
            }
            i += 1;
        }
        proof {
            lemma_index_of_timestamp(self@, timestamp);
        }
        None
    }

    /// The last keyframe at or before `before`.
    pub fn find_prev_key_frame_before(&self, before: usize) -> (out: Option<usize>)
        ensures
            out is Some <==> nearest_keyframe(self@, before as int) is Some,
            out matches Some(index) ==> nearest_keyframe(self@, before as int) == Some(
                index as int,
            ),
            out matches Some(index) ==> index <= before && index < self@.len()
                && self@[index as int].keyframe && forall|j: int|
                index < j <= before && j < self@.len() ==> !self@[j].keyframe,
            out is None ==> forall|j: int|
                0 <= j <= before && j < self@.len() ==> !self@[j].keyframe,
    {
        let mut i: usize = if before < self.store.len() {
            before + 1
        } else {
            self.store.len()
        };
        while i > 0
            invariant
                i <= self.store@.len(),
                i <= before + 1,
                forall|j: int| i <= j <= before && j < self@.len() ==> !self@[j].keyframe,
            decreases i,
        {
            i -= 1;
            if self.store[i].keyframe {
                proof {
                    lemma_nearest_keyframe(self@, before as int);
                    assert(self@[i as int].keyframe);
                }
                return Some(i);
            }
        }
        proof {
            lemma_nearest_keyframe(self@, before as int);
        }
        None
    }
}

/// The payload total of a longer prefix is no smaller, and that of every
/// prefix is at most the whole.
proof fn lemma_payload_total_grows(frames: Seq<FrameRecord>, n: int)
    requires
        0 <= n <= frames.len(),
    ensures
        payload_total(frames.take(n)) <= payload_total(frames),
    decreases frames.len() - n,
{
    if n < frames.len() {
        assert(frames.take(n + 1).drop_last() == frames.take(n));
        lemma_payload_total_grows(frames, n + 1);
    } else {
        assert(frames.take(n) == frames);
    }
}

} // verus!
