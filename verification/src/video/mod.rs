use vstd::prelude::*;
use crate::video::frames::{FrameCacheError, FrameCacheStore, FrameRecord};
use crate::video::mkv::MkvVideoFile;
use crate::video::mp4::Mp4VideoFile;

pub mod av1;
pub mod codec;
pub mod frames;
pub mod mkv;
pub mod mp4;
pub mod scan;
pub mod text;
pub mod util;
pub mod vpcc;

verus! {

/// Why a file could not be taken apart.
#[derive(Debug, PartialEq, Eq)]
pub enum DemuxError {
    /// The container's reader could not read its input.
    Io(String),
    /// A codec's configuration bytes, or a frame, are malformed.
    InvalidData(String),
    /// There is no video track, or not the one asked for.
    TrackNotFound(String),
    /// Any other failure of the container's reader.
    Unknown(String),
    /// The video track holds no frame.
    NoFrames(String),
    /// There is no frame at the index that was to be handed to the decoder.
    FrameNotFound(String),
}

impl DemuxError {
    /// The text that the error carries.
    pub open spec fn message(self) -> Seq<char> {
        match self {
            DemuxError::Io(msg) => msg@,
            DemuxError::InvalidData(msg) => msg@,
            DemuxError::TrackNotFound(msg) => msg@,
            DemuxError::Unknown(msg) => msg@,
            DemuxError::NoFrames(msg) => msg@,
            DemuxError::FrameNotFound(msg) => msg@,
        }
    }

    /// The text that the error carries.
    pub fn to_string(&self) -> (text: String)
        ensures
            text@ == self.message(),
    {
        match self {
            DemuxError::Io(msg) => msg.clone(),
            DemuxError::InvalidData(msg) => msg.clone(),
            DemuxError::TrackNotFound(msg) => msg.clone(),
            DemuxError::Unknown(msg) => msg.clone(),
            DemuxError::NoFrames(msg) => msg.clone(),
            DemuxError::FrameNotFound(msg) => msg.clone(),
        }
    }
}

impl From<FrameCacheError> for DemuxError {
    fn from(value: FrameCacheError) -> (out: DemuxError) {
        match value {
            FrameCacheError::Init(err) => DemuxError::InvalidData(err),
            FrameCacheError::NoFrames(err) => DemuxError::NoFrames(err),
        }
    }
}

impl vstd::std_specs::convert::FromSpecImpl<FrameCacheError> for DemuxError {
    open spec fn obeys_from_spec() -> bool {
        true
    }

    /// A frame that could not be set up counts as invalid data; an empty
    /// frame set stays what it is. The text is kept.
    open spec fn from_spec(value: FrameCacheError) -> DemuxError {
        match value {
            FrameCacheError::Init(err) => DemuxError::InvalidData(err),
            FrameCacheError::NoFrames(err) => DemuxError::NoFrames(err),
        }
    }
}

/// The error for a file without a usable video track.
pub(crate) fn track_not_found() -> (err: DemuxError)
    ensures
        err is TrackNotFound,
        err.message() == "Could not find video track"@,
{
    DemuxError::TrackNotFound(String::from_str("Could not find video track"))
}

/// The text of a codec string, where there is one.
pub open spec fn text_of(text: Option<String>) -> Option<Seq<char>> {
    match text {
        Some(string) => Some(string@),
        None => None,
    }
}

/// `out` gives the codec string `wanted`, or reports the message `wanted` as
/// invalid data.
pub open spec fn codec_outcome(
    out: Result<Option<String>, DemuxError>,
    wanted: Result<Option<Seq<char>>, Seq<char>>,
) -> bool {
    match out {
        Ok(text) => wanted == Ok::<Option<Seq<char>>, Seq<char>>(text_of(text)),
        Err(err) => err is InvalidData && wanted == Err::<Option<Seq<char>>, Seq<char>>(
            err.message(),
        ),
    }
}

/// `out` gives the size `wanted`, or reports that there is no video track
/// where there is no such size.
pub open spec fn size_outcome(out: Result<u32, DemuxError>, wanted: Option<u32>) -> bool {
    match out {
        Ok(size) => wanted == Some(size),
        Err(err) => wanted is None && err is TrackNotFound && err.message()
            == "Could not find video track"@,
    }
}

/// `out` gives a store of the frames `wanted`, or reports that there are no
/// frames where `wanted` is empty.
pub open spec fn store_outcome(
    out: Result<FrameCacheStore, DemuxError>,
    wanted: Seq<FrameRecord>,
) -> bool {
    match out {
        Ok(store) => wanted.len() >= 1 && store@ == wanted,
        Err(err) => wanted.len() == 0 && err is NoFrames && err.message()
            == "Cannot initialize frame store cache with 0 frames"@,
    }
}

/// The container formats that can be read.
#[derive(Debug, Clone, Copy, PartialEq, Eq, Structural)]
pub enum ContainerFormat {
    Mkv,
    Mp4,
}

/// A video file of one of the container formats that can be read.
pub enum VideoFile {
    Mkv(MkvVideoFile),
    Mp4(Mp4VideoFile),
}

impl VideoFile {
    /// The container format of the file.
    pub open spec fn spec_format(&self) -> ContainerFormat {
        match self {
            VideoFile::Mkv(_) => ContainerFormat::Mkv,
            VideoFile::Mp4(_) => ContainerFormat::Mp4,
        }
    }

    /// The container format of the file.
    #[verifier::when_used_as_spec(spec_format)]
    pub fn format(&self) -> (format: ContainerFormat)
        ensures
            format == self.spec_format(),
    {
        match self {
            VideoFile::Mkv(_) => ContainerFormat::Mkv,
            VideoFile::Mp4(_) => ContainerFormat::Mp4,
        }
    }

    /// The codec string of the video, where its codec is a known one, or the
    /// message that tells what is wrong with the codec's configuration.
    pub open spec fn codec_text(&self) -> Result<Option<Seq<char>>, Seq<char>> {
        match self {
            VideoFile::Mkv(file) => file.codec_text(),
            VideoFile::Mp4(file) => file.codec_text(),
        }
    }

    /// The width of the video track's pictures, where there is such a track.
    pub open spec fn width(&self) -> Option<u32> {
        match self {
            VideoFile::Mkv(file) => file.width(),
            VideoFile::Mp4(file) => file.width(),
        }
    }

    /// The height of the video track's pictures, where there is such a
    /// track.
    pub open spec fn height(&self) -> Option<u32> {
        match self {
            VideoFile::Mkv(file) => file.height(),
            VideoFile::Mp4(file) => file.height(),
        }
    }

    /// The frames of the video track, in decode order.
    pub open spec fn video_frames(&self) -> Seq<FrameRecord> {
        match self {
            VideoFile::Mkv(file) => file.video_frames(),
            VideoFile::Mp4(file) => file.video_frames(),
        }
    }

    /// The codec string of the video, where its codec is a known one.
    pub fn codec(&self) -> (out: Result<Option<String>, DemuxError>)
        ensures
            codec_outcome(out, self.codec_text()),
    {
        match self {
            VideoFile::Mkv(file) => file.codec(),
            VideoFile::Mp4(file) => file.codec(),
        }
    }

    /// The width of the video track's pictures.
    pub fn coded_width(&self) -> (out: Result<u32, DemuxError>)
        ensures
            size_outcome(out, self.width()),
    {
        match self {
            VideoFile::Mkv(file) => file.coded_width(),
            VideoFile::Mp4(file) => file.coded_width(),
        }
    }

    /// The height of the video track's pictures.
    pub fn coded_height(&self) -> (out: Result<u32, DemuxError>)
        ensures
            size_outcome(out, self.height()),
    {
        match self {
            VideoFile::Mkv(file) => file.coded_height(),
            VideoFile::Mp4(file) => file.coded_height(),
        }
    }

    /// The store of the video track's frames.
    pub fn keyframes(&self) -> (out: Result<FrameCacheStore, DemuxError>)
        ensures
            store_outcome(out, self.video_frames()),
    {
        match self {
            VideoFile::Mkv(file) => file.keyframes(),
            VideoFile::Mp4(file) => file.keyframes(),
        }
    }
}

} // verus!
