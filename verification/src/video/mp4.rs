use vstd::prelude::*;
use crate::video::codec::{codec_string_of, CodecDescriptor};
use crate::video::frames::{records, FrameCache, FrameCacheStore, FrameRecord};
use crate::video::scan::{first_true, lemma_first_true};
use crate::video::vpcc::Vpcc;
use crate::video::{
    codec_outcome, size_outcome, store_outcome, track_not_found, DemuxError,
};

verus! {

/// The fields of a VP9 configuration as the container's reader has already
/// taken them apart.
#[derive(Debug, Clone, Copy, PartialEq, Eq, Structural)]
pub struct Vp09Config {
    pub profile: u8,
    pub level: u8,
    pub bit_depth: u8,
    pub chroma_subsampling: u8,
}

/// A track as the container's reader describes it.
#[derive(Debug, Clone, Copy, PartialEq, Eq, Structural)]
pub struct Mp4Track {
    pub id: u32,
    /// Whether the reader knows the track's type, and it is video.
    pub is_video: bool,
    pub width: u16,
    pub height: u16,
    /// The VP9 configuration of the track's sample entry, where it has one.
    pub vp09: Option<Vp09Config>,
}

/// A sample of the video track as the container's reader hands it out.
#[derive(Debug, PartialEq, Eq)]
pub struct Mp4Sample {
    pub start_time: u64,
    pub bytes: Vec<u8>,
    pub is_sync: bool,
}

/// For each track, whether it is a video track.
pub open spec fn video_marks(tracks: Seq<Mp4Track>) -> Seq<bool> {
    Seq::new(tracks.len(), |i: int| tracks[i].is_video)
}

/// For each track, whether it has the id `id`.
pub open spec fn id_marks(tracks: Seq<Mp4Track>, id: u32) -> Seq<bool> {
    Seq::new(tracks.len(), |i: int| tracks[i].id == id)
}

/// For each track, whether it has a VP9 configuration.
pub open spec fn vp09_marks(tracks: Seq<Mp4Track>) -> Seq<bool> {
    Seq::new(tracks.len(), |i: int| tracks[i].vp09 is Some)
}

/// The configuration record that the reader's fields stand for.
pub open spec fn record_of_fields(fields: Vp09Config) -> Vpcc {
    Vpcc {
        profile: fields.profile,
        level: fields.level,
        bit_depth: fields.bit_depth,
        chroma_subsampling: fields.chroma_subsampling,
    }
}

/// The record that a sample is stored as: a sync sample is a keyframe.
pub open spec fn record_of_sample(sample: Mp4Sample) -> FrameRecord {
    FrameRecord {
        keyframe: sample.is_sync,
        timestamp: sample.start_time,
        payload: sample.bytes@,
    }
}

/// The records of the samples that the reader found, in their order.
pub open spec fn sample_records(samples: Seq<Option<Mp4Sample>>) -> Seq<FrameRecord>
    decreases samples.len(),
{
    if samples.len() == 0 {
        Seq::empty()
    } else {
        match samples.last() {
            Some(sample) => sample_records(samples.drop_last()).push(record_of_sample(sample)),
            None => sample_records(samples.drop_last()),
        }
    }
}

/// The id of the first video track.
pub fn find_video_track(tracks: &Vec<Mp4Track>) -> (out: Result<u32, DemuxError>)
    ensures
        out is Ok <==> first_true(video_marks(tracks@)) is Some,
        out matches Ok(id) ==> id == tracks@[first_true(video_marks(tracks@))->0].id,
        out matches Err(err) ==> err is TrackNotFound && err.message()
            == "Could not find video track"@,
{
    let mut i: usize = 0;
    while i < tracks.len()
        invariant
            i <= tracks@.len(),
            forall|j: int| 0 <= j < i ==> !video_marks(tracks@)[j],
        decreases tracks@.len() - i,
    {
        if tracks[i].is_video {
            proof {
                assert(video_marks(tracks@)[i as int]);
                lemma_first_true(video_marks(tracks@));
            }
            return Ok(tracks[i].id);
        }
        i += 1;
    }
    proof {
        lemma_first_true(video_marks(tracks@));
    }
    Err(track_not_found())
}

/// An MP4 file as its reader has taken it apart: the tracks, the samples of
/// the video track in decode order, and the id of the video track.
pub struct Mp4VideoFile {
    tracks: Vec<Mp4Track>,
    samples: Vec<Option<Mp4Sample>>,
    video_track: u32,
}

impl Mp4VideoFile {
    /// The file's tracks, in the order of the file.
    pub closed spec fn tracks(&self) -> Seq<Mp4Track> {
        self.tracks@
    }

    /// What the reader found under each sample number of the video track.
    pub closed spec fn samples(&self) -> Seq<Option<Mp4Sample>> {
        self.samples@
    }

    /// The id of the video track.
    pub closed spec fn video_track(&self) -> u32 {
        self.video_track
    }

    /// The place of the track that the video track's id selects: the first
    /// one that has the id.
    pub open spec fn selected(&self) -> Option<int> {
        first_true(id_marks(self.tracks(), self.video_track()))
    }

    /// Takes the first video track of `tracks` as the file's video track.
    pub fn init(tracks: Vec<Mp4Track>, samples: Vec<Option<Mp4Sample>>) -> (out: Result<
        Self,
        DemuxError,
    >)
        ensures
            out is Ok <==> first_true(video_marks(tracks@)) is Some,
            out matches Ok(file) ==> file.tracks() == tracks@ && file.samples() == samples@
                && file.video_track() == tracks@[first_true(video_marks(tracks@))->0].id,
            out matches Err(err) ==> err is TrackNotFound && err.message()
                == "Could not find video track"@,
    {
        let video_track = match find_video_track(&tracks) {
            Ok(id) => id,
            Err(err) => {
                return Err(err);
            },
        };
        Ok(Mp4VideoFile { tracks, samples, video_track })
    }

    /// The selected track.
    fn selected_track(&self) -> (out: Option<&Mp4Track>)
        ensures
            out is Some <==> self.selected() is Some,
            out matches Some(track) ==> *track == self.tracks()[self.selected()->0],
    {
        let mut i: usize = 0;
        while i < self.tracks.len()
            invariant
                i <= self.tracks@.len(),
                forall|j: int| 0 <= j < i ==> !id_marks(self.tracks@, self.video_track)[j],
            decreases self.tracks@.len() - i,
        {
            if self.tracks[i].id == self.video_track {
                proof {
                    assert(id_marks(self.tracks@, self.video_track)[i as int]);
                    lemma_first_true(id_marks(self.tracks@, self.video_track));
                }
                return Some(&self.tracks[i]);
            }
            i += 1;
        }
        proof {
            lemma_first_true(id_marks(self.tracks@, self.video_track));
        }
        None
    }

    /// The configuration record of the first track that has a VP9
    /// configuration, made of the reader's fields as they are.
    pub fn vpcc(&self) -> (out: Option<Vpcc>)
        ensures
            out is Some <==> first_true(vp09_marks(self.tracks())) is Some,
            out matches Some(record) ==> record == record_of_fields(
                self.tracks()[first_true(vp09_marks(self.tracks()))->0].vp09->0,
            ),
    {
        let mut i: usize = 0;
        while i < self.tracks.len()
            invariant
                i <= self.tracks@.len(),
                forall|j: int| 0 <= j < i ==> !vp09_marks(self.tracks@)[j],
            decreases self.tracks@.len() - i,
        {
            if let Some(fields) = self.tracks[i].vp09 {
                proof {
                    assert(vp09_marks(self.tracks@)[i as int]);
                    lemma_first_true(vp09_marks(self.tracks@));
                }
                return Some(
                    Vpcc {
                        profile: fields.profile,
                        level: fields.level,
                        bit_depth: fields.bit_depth,
                        chroma_subsampling: fields.chroma_subsampling,
                    },
                );
            }
            i += 1;
        }
        proof {
            lemma_first_true(vp09_marks(self.tracks@));
        }
        None
    }

    /// What is known of the file's codec: a VP9 descriptor where a track has
    /// a VP9 configuration, and nothing else.
    pub open spec fn spec_descriptor(&self) -> Option<CodecDescriptor> {
        match first_true(vp09_marks(self.tracks())) {
            Some(place) => Some(
                CodecDescriptor::Vp9(record_of_fields(self.tracks()[place].vp09->0)),
            ),
            None => None,
        }
    }

    /// The codec string of the file, where its codec is a known one.
    pub open spec fn codec_text(&self) -> Result<Option<Seq<char>>, Seq<char>> {
        Ok(codec_string_of(self.spec_descriptor()))
    }

    /// The width that the video track declares.
    pub open spec fn width(&self) -> Option<u32> {
        match self.selected() {
            Some(place) => Some(self.tracks()[place].width as u32),
            None => None,
        }
    }

    /// The height that the video track declares.
    pub open spec fn height(&self) -> Option<u32> {
        match self.selected() {
            Some(place) => Some(self.tracks()[place].height as u32),
            None => None,
        }
    }

    /// The frames of the video track, in decode order.
    pub open spec fn video_frames(&self) -> Seq<FrameRecord> {
        sample_records(self.samples())
    }

    /// What is known of the file's codec.
    pub fn descriptor(&self) -> (out: Result<Option<CodecDescriptor>, DemuxError>)
        ensures
            out == Ok::<Option<CodecDescriptor>, DemuxError>(self.spec_descriptor()),
    {
        match self.vpcc() {
            Some(record) => Ok(Some(CodecDescriptor::Vp9(record))),
            None => Ok(None),
        }
    }

    /// The codec string of the file, where its codec is a known one.
    pub fn codec(&self) -> (out: Result<Option<String>, DemuxError>)
        ensures
            out is Ok,
            codec_outcome(out, self.codec_text()),
    {
        match self.vpcc() {
            Some(record) => Ok(Some(record.to_codec_string())),
            None => Ok(None),
        }
    }

    /// The width that the video track declares.
    pub fn coded_width(&self) -> (out: Result<u32, DemuxError>)
        ensures
            size_outcome(out, self.width()),
    {
        match self.selected_track() {
            Some(track) => Ok(track.width as u32),
            None => Err(track_not_found()),
        }
    }

    /// The height that the video track declares.
    pub fn coded_height(&self) -> (out: Result<u32, DemuxError>)
        ensures
            size_outcome(out, self.height()),
    {
        match self.selected_track() {
            Some(track) => Ok(track.height as u32),
            None => Err(track_not_found()),
        }
    }

    /// The store of the samples that the reader found.
    pub fn keyframes(&self) -> (out: Result<FrameCacheStore, DemuxError>)
        ensures
            store_outcome(out, self.video_frames()),
    {
        let mut store: Vec<FrameCache> = Vec::new();
        let mut i: usize = 0;
        while i < self.samples.len()
            invariant
                i <= self.samples@.len(),
                records(store@) == sample_records(self.samples@.take(i as int)),
            decreases self.samples@.len() - i,
        {
            assert(self.samples@.take(i as int + 1).drop_last() == self.samples@.take(i as int));
            if let Some(sample) = &self.samples[i] {
                store.push(
                    FrameCache::init(sample.bytes.as_slice(), sample.start_time, sample.is_sync),
                );
            }
            i += 1;
        }
        assert(self.samples@.take(i as int) == self.samples@);
        match FrameCacheStore::new(store) {
            Ok(made) => Ok(made),
            Err(err) => Err(DemuxError::from(err)),
        }
    }
}

} // verus!
