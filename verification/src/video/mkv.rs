use vstd::prelude::*;
use crate::video::av1::{header_of, Av1};
use crate::video::codec::{codec_string_of, vp9_fallback, CodecDescriptor};
use crate::video::frames::{
    frames_of_track, track_records, Frame, FrameCacheStore, FrameRecord,
};
use crate::video::scan::{first_true, lemma_first_true};
use crate::video::vpcc::{record_of, Vpcc};
use crate::video::{
    codec_outcome, size_outcome, store_outcome, track_not_found, DemuxError,
};

verus! {

/// The video settings of a track.
#[derive(Debug, Clone, Copy, PartialEq, Eq, Structural)]
pub struct Video {
    pub pixel_width: u64,
    pub pixel_height: u64,
}

/// A track as the container's reader describes it.
#[derive(Debug, PartialEq, Eq)]
pub struct Track {
    /// The number that the track's frames carry.
    pub number: u64,
    /// The container's name for the codec.
    pub codec_id: String,
    /// The codec's configuration bytes, where the track has any.
    pub codec_private: Option<Vec<u8>>,
    /// The video settings, where the track is a video track.
    pub video: Option<Video>,
}

/// For each track, whether it is a video track.
pub open spec fn video_marks(tracks: Seq<Track>) -> Seq<bool> {
    Seq::new(tracks.len(), |i: int| tracks[i].video is Some)
}

/// For each track, whether it has the number `number`.
pub open spec fn number_marks(tracks: Seq<Track>, number: u64) -> Seq<bool> {
    Seq::new(tracks.len(), |i: int| tracks[i].number == number)
}

/// What is known of a track's codec, or the message that tells what is wrong
/// with its configuration bytes. An AV1 track without configuration bytes and
/// a track of another codec than AV1, VP9 and VP8 have no descriptor; a VP9
/// track without configuration bytes has the fallback one.
pub open spec fn descriptor_of(track: Track) -> Result<Option<CodecDescriptor>, Seq<char>> {
    if track.codec_id@ == "V_AV1"@ {
        match track.codec_private {
            Some(bytes) => match header_of(bytes@) {
                Ok(header) => Ok(Some(CodecDescriptor::Av1(header))),
                Err(message) => Err(message),
            },
            None => Ok(None),
        }
    } else if track.codec_id@ == "V_VP9"@ {
        match track.codec_private {
            Some(bytes) => match record_of(bytes@) {
                Ok(record) => Ok(Some(CodecDescriptor::Vp9(record))),
                Err(message) => Err(message),
            },
            None => Ok(Some(CodecDescriptor::Vp9(vp9_fallback()))),
        }
    } else if track.codec_id@ == "V_VP8"@ {
        Ok(Some(CodecDescriptor::Vp8))
    } else {
        Ok(None)
    }
}

/// Whether `text` reads as `literal`.
fn reads_as(text: &String, literal: &str) -> (same: bool)
    ensures
        same == (text@ == literal@),
{
    let other = String::from_str(literal);
    *text == other
}

impl Track {
    /// What is known of the track's codec.
    pub fn descriptor(&self) -> (out: Result<Option<CodecDescriptor>, DemuxError>)
        ensures
            out is Ok <==> descriptor_of(*self) is Ok,
            out matches Ok(found) ==> descriptor_of(*self) == Ok::<
                Option<CodecDescriptor>,
                Seq<char>,
            >(found),
            out matches Err(err) ==> err is InvalidData && descriptor_of(*self) == Err::<
                Option<CodecDescriptor>,
                Seq<char>,
            >(err.message()),
    {
        if reads_as(&self.codec_id, "V_AV1") {
            match &self.codec_private {
                Some(bytes) => match Av1::from(bytes.as_slice()) {
                    Ok(header) => Ok(Some(CodecDescriptor::Av1(header))),
                    Err(message) => Err(DemuxError::InvalidData(message)),
                },
                None => Ok(None),
            }
        } else if reads_as(&self.codec_id, "V_VP9") {
            match &self.codec_private {
                Some(bytes) => match Vpcc::from(bytes.as_slice()) {
                    Ok(record) => Ok(Some(CodecDescriptor::Vp9(record))),
                    Err(message) => Err(DemuxError::InvalidData(message)),
                },
                None => Ok(Some(CodecDescriptor::fallback_vp9())),
            }
        } else if reads_as(&self.codec_id, "V_VP8") {
            Ok(Some(CodecDescriptor::Vp8))
        } else {
            Ok(None)
        }
    }
}

/// The number of the first video track.
pub fn find_video_track(tracks: &Vec<Track>) -> (out: Result<u64, DemuxError>)
    ensures
        out is Ok <==> first_true(video_marks(tracks@)) is Some,
        out matches Ok(number) ==> number == tracks@[first_true(video_marks(tracks@))->0].number,
        out matches Err(err) ==> err is TrackNotFound && err.message()
            == "Could not find video track"@,
{
    let mut i: usize = 0;
    while i < tracks.len()
        invariant
            i <= tracks@.len(),
            forall|j: int| 0 <= j < i ==> !video_marks(tracks@)[j],
        decreases tracks@.len() - i,
    {
        if tracks[i].video.is_some() {
            proof {
                assert(video_marks(tracks@)[i as int]);
                lemma_first_true(video_marks(tracks@));
            }
            return Ok(tracks[i].number);
        }
        i += 1;
    }
    proof {
        lemma_first_true(video_marks(tracks@));
    }
    Err(track_not_found())
}

/// A Matroska or WebM file as its reader has taken it apart: the tracks, the
/// frames of all tracks in decode order, and the number of the video track.
pub struct MkvVideoFile {
    tracks: Vec<Track>,
    frames: Vec<Frame>,
    video_track: u64,
}

impl MkvVideoFile {
    /// The file's tracks, in the order of the file.
    pub closed spec fn tracks(&self) -> Seq<Track> {
        self.tracks@
    }

    /// The file's frames, in decode order.
    pub closed spec fn frames(&self) -> Seq<Frame> {
        self.frames@
    }

    /// The number of the video track.
    pub closed spec fn video_track(&self) -> u64 {
        self.video_track
    }

    /// The place of the track that the video track's number selects: the
    /// first one that has the number.
    pub open spec fn selected(&self) -> Option<int> {
        first_true(number_marks(self.tracks(), self.video_track()))
    }

    /// Takes the first video track of `tracks` as the file's video track.
    pub fn init(tracks: Vec<Track>, frames: Vec<Frame>) -> (out: Result<Self, DemuxError>)
        ensures
            out is Ok <==> first_true(video_marks(tracks@)) is Some,
            out matches Ok(file) ==> file.tracks() == tracks@ && file.frames() == frames@
                && file.video_track() == tracks@[first_true(video_marks(tracks@))->0].number,
            out matches Err(err) ==> err is TrackNotFound && err.message()
                == "Could not find video track"@,
    {
        let video_track = match find_video_track(&tracks) {
            Ok(number) => number,
            Err(err) => {
                return Err(err);
            },
        };
        Ok(MkvVideoFile { tracks, frames, video_track })
    }

    /// The selected track.
    fn selected_track(&self) -> (out: Option<&Track>)
        ensures
            out is Some <==> self.selected() is Some,
            out matches Some(track) ==> *track == self.tracks()[self.selected()->0],
    {
        let mut i: usize = 0;
        while i < self.tracks.len()
            invariant
                i <= self.tracks@.len(),
                forall|j: int| 0 <= j < i ==> !number_marks(self.tracks@, self.video_track)[j],
            decreases self.tracks@.len() - i,
        {
            if self.tracks[i].number == self.video_track {
                proof {
                    assert(number_marks(self.tracks@, self.video_track)[i as int]);
                    lemma_first_true(number_marks(self.tracks@, self.video_track));
                }
                return Some(&self.tracks[i]);
            }
            i += 1;
        }
        proof {
            lemma_first_true(number_marks(self.tracks@, self.video_track));
        }
        None
    }

    /// What is known of the video track's codec. A file whose video track's
    /// number selects no track has no descriptor.
    pub open spec fn spec_descriptor(&self) -> Result<Option<CodecDescriptor>, Seq<char>> {
        match self.selected() {
            Some(place) => descriptor_of(self.tracks()[place]),
            None => Ok(None),
        }
    }

    /// The codec string of the video track, where its codec is a known one,
    /// or the message that tells what is wrong with its configuration bytes.
    pub open spec fn codec_text(&self) -> Result<Option<Seq<char>>, Seq<char>> {
        match self.spec_descriptor() {
            Ok(found) => Ok(codec_string_of(found)),
            Err(message) => Err(message),
        }
    }

    /// The width of the video track's pictures, cut to its low 32 bits.
    pub open spec fn width(&self) -> Option<u32> {
        match self.selected() {
            Some(place) => match self.tracks()[place].video {
                Some(video) => Some(video.pixel_width as u32),
                None => None,
            },
            None => None,
        }
    }

    /// The height of the video track's pictures, cut to its low 32 bits.
    pub open spec fn height(&self) -> Option<u32> {
        match self.selected() {
            Some(place) => match self.tracks()[place].video {
                Some(video) => Some(video.pixel_height as u32),
                None => None,
            },
            None => None,
        }
    }

    /// The frames of the video track, in decode order.
    pub open spec fn video_frames(&self) -> Seq<FrameRecord> {
        track_records(self.frames(), self.video_track())
    }

    /// What is known of the video track's codec.
    pub fn descriptor(&self) -> (out: Result<Option<CodecDescriptor>, DemuxError>)
        ensures
            out is Ok <==> self.spec_descriptor() is Ok,
            out matches Ok(found) ==> self.spec_descriptor() == Ok::<
                Option<CodecDescriptor>,
                Seq<char>,
            >(found),
            out matches Err(err) ==> err is InvalidData && self.spec_descriptor() == Err::<
                Option<CodecDescriptor>,
                Seq<char>,
            >(err.message()),
    {
        match self.selected_track() {
            Some(track) => track.descriptor(),
            None => Ok(None),
        }
    }

    /// The codec string of the video track, where its codec is a known one.
    pub fn codec(&self) -> (out: Result<Option<String>, DemuxError>)
        ensures
            codec_outcome(out, self.codec_text()),
    {
        match self.descriptor() {
            Ok(Some(found)) => Ok(Some(found.to_codec_string())),
            Ok(None) => Ok(None),
            Err(err) => Err(err),
        }
    }

    /// The width of the video track's pictures.
    pub fn coded_width(&self) -> (out: Result<u32, DemuxError>)
        ensures
            size_outcome(out, self.width()),
    {
        match self.selected_track() {
            Some(track) => match track.video {
                Some(video) => Ok(
                    #[verifier::truncate]
                    (video.pixel_width as u32),
                ),
                None => Err(track_not_found()),
            },
            None => Err(track_not_found()),
        }
    }

    /// The height of the video track's pictures.
    pub fn coded_height(&self) -> (out: Result<u32, DemuxError>)
        ensures
            size_outcome(out, self.height()),
    {
        match self.selected_track() {
            Some(track) => match track.video {
                Some(video) => Ok(
                    #[verifier::truncate]
                    (video.pixel_height as u32),
                ),
                None => Err(track_not_found()),
            },
            None => Err(track_not_found()),
        }
    }

    /// The store of the video track's frames.
    pub fn keyframes(&self) -> (out: Result<FrameCacheStore, DemuxError>)
        ensures
            store_outcome(out, self.video_frames()),
    {
        let store = frames_of_track(&self.frames, self.video_track);
        match FrameCacheStore::new(store) {
            Ok(made) => Ok(made),
            Err(err) => Err(DemuxError::from(err)),
        }
    }
}

} // verus!
