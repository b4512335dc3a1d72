//! The ways in which reading a range can be refused.

use vstd::prelude::*;

verus! {

/// Why a range of audio could not be read.
#[derive(Debug, Clone, Copy, PartialEq, Eq, Structural)]
pub enum AudioReadError {
    /// No track of the file has a codec that can be decoded.
    NoTrack,
    /// The chosen track does not state its sample rate.
    NoSampleRate,
    /// The end frame (first field) lies before the start frame (second field).
    EndFrameLargerThanStartFrame(usize, usize),
    /// The first channel (first field) is not among the channels of the
    /// stream, whose number is the second field.
    InvalidStartChannel(usize, usize),
    /// The channel range ends (first field) beyond the channels of the
    /// stream, whose number is the second field.
    InvalidEndChannel(usize, usize),
    /// The channel range ends (first field) at or before the channel it
    /// starts with (second field).
    EndChannelLargerThanStartChannel(usize, usize),
}

} // verus!
