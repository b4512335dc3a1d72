//! Frame-accurate extraction of sample ranges from decoded audio, and the
//! format rules for writing samples back out.
//!
//! The library holds the decisions of an extraction: where a requested range
//! starts and stops, whether a seek ahead of the start pays off, where the
//! decoder stands after each packet, which channels of a frame are kept and
//! which frames of a packet belong to the result. Decoding and file access
//! are the caller's: it hands each decoded packet to an [`Extraction`] and
//! does what the returned [`Action`] says.

pub mod channels;
pub mod collect;
pub mod error;
pub mod packets;
pub mod position;
pub mod range;
pub mod reader;
pub mod stream;
pub mod writer;

pub use channels::{resolve_channels, slice_frame, ChannelRange};
pub use collect::collect_frames;
pub use error::AudioReadError;
pub use position::{position_from_timestamp, PositionTracker};
pub use range::{resolve_range, resolve_start, resolve_stop, time_to_frame, FrameRange, Start, Stop};
pub use reader::{Action, AudioData, AudioReadConfig, ChannelLayout, Extraction};
pub use stream::{plan_seek, select_track, StreamSpec, TrackInfo};
pub use writer::{wav_layout, AudioWriteConfig, WavLayout, WriteSampleFormat};
