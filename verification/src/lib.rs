//! Codec strings, a store of encoded frames, and the choice of the frames to
//! hand to a video decoder when a player decodes ahead or seeks.
//!
//! `video` reads codec configuration records and keeps the frames of a video
//! track; `seek` decides which frames a decode or seek request hands to the
//! decoder; `chain` states what holds of every sequence of such requests.

pub mod chain;
pub mod seek;
pub mod video;

pub use crate::seek::{load, Demuxer};
pub use crate::video::{ContainerFormat, DemuxError, VideoFile};
