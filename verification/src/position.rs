//! The running position: the absolute index of the frame that the decoder
//! hands out next.
//!
//! The position is taken from a packet's timestamp only while it is unknown,
//! at the start and after each reset of the decoder. From then on it is
//! counted, frame by frame, so that uneven timestamps do not move the
//! boundaries of the range. Positions beyond `u64::MAX` are held at
//! `u64::MAX`, which is at or after every frame that can be asked for.

use crate::stream::{saturated, seek_target, StreamSpec};
use vstd::arithmetic::div_mod::lemma_div_is_ordered;
use vstd::arithmetic::div_mod::lemma_div_multiples_vanish;
use vstd::arithmetic::div_mod::lemma_fundamental_div_mod;
use vstd::prelude::*;

verus! {

/// The absolute frame position of a packet with timestamp `ts`: the
/// timestamp times the sample rate, divided by the ticks per second and
/// rounded down, and no more than `u64::MAX`; 0 where the track has no time
/// base.
pub open spec fn position_at(ts: u64, stream: StreamSpec) -> int {
    match stream.time_base_denom {
        Some(denom) => saturated(ts as int * stream.sample_rate as int / denom as int),
        None => 0,
    }
}

/// Finds the absolute frame position of a packet from its timestamp.
pub fn position_from_timestamp(ts: u64, stream: &StreamSpec) -> (pos: u64)
    requires
        stream.wf(),
    ensures
        pos as int == position_at(ts, *stream),
{
    match stream.time_base_denom {
        None => 0,
        Some(denom) => {
            assert(ts as int * stream.sample_rate as int <= 0xffff_ffff_ffff_ffff * 0xffff_ffff)
                by (nonlinear_arith)
                requires
                    ts <= 0xffff_ffff_ffff_ffff,
                    stream.sample_rate <= 0xffff_ffff,
            ;
            let pos: u128 = ts as u128 * stream.sample_rate as u128 / denom as u128;
            if pos > u64::MAX as u128 {
                u64::MAX
            } else {
                pos as u64
            }
        },
    }
}

/// A planned seek does not pass the start of the range: the frame at the
/// timestamp that is sought stands at or before the start frame.
pub proof fn lemma_seek_undershoots(start_frame: u64, stream: StreamSpec)
    requires
        stream.wf(),
        seek_target(start_frame, stream) is Some,
    ensures
        0 <= seek_target(start_frame, stream)->0 <= u64::MAX,
        position_at(seek_target(start_frame, stream)->0 as u64, stream) <= start_frame,
{
    let rate = stream.sample_rate as int;
    let denom = stream.time_base_denom->0 as int;
    let seek_frame = start_frame as int * 9 / 10;
    let exact = seek_frame * denom / rate;
    let ts = seek_target(start_frame, stream)->0;
    assert(0 <= seek_frame <= start_frame);
    assert(0 <= seek_frame * denom) by (nonlinear_arith)
        requires
            0 <= seek_frame,
            0 < denom,
    ;
    lemma_fundamental_div_mod(seek_frame * denom, rate);
    assert(0 <= exact && exact * rate <= seek_frame * denom) by (nonlinear_arith)
        requires
            seek_frame * denom == rate * exact + (seek_frame * denom) % rate,
            0 <= (seek_frame * denom) % rate < rate,
            0 <= seek_frame * denom,
    ;
    assert(0 <= ts * rate <= exact * rate) by (nonlinear_arith)
        requires
            0 <= ts <= exact,
            0 < rate,
    ;
    lemma_div_is_ordered(ts * rate, seek_frame * denom, denom);
    lemma_div_multiples_vanish(seek_frame, denom);
    assert(seek_frame * denom == denom * seek_frame) by (nonlinear_arith);
}

/// Where the decoder stands.
#[derive(Debug, Clone, Copy, PartialEq, Eq, Structural)]
pub struct PositionTracker {
    /// The absolute position of the first frame of the next packet; `None`
    /// until a packet has been seen since the start or since the last reset.
    pub position: Option<u64>,
}

impl PositionTracker {
    /// The absolute position of the first frame of a packet with timestamp
    /// `ts`: the running position where it is known, else the one that the
    /// timestamp gives.
    pub open spec fn position_for(self, ts: u64, stream: StreamSpec) -> int {
        match self.position {
            Some(pos) => pos as int,
            None => position_at(ts, stream),
        }
    }

    /// The position after `frames` more frames, unknown if it was unknown.
    pub open spec fn advanced(self, frames: int) -> Self {
        PositionTracker {
            position: match self.position {
                Some(pos) => Some(saturated(pos + frames) as u64),
                None => None,
            },
        }
    }

    /// A tracker that does not know the position yet.
    pub fn new() -> (tracker: Self)
        ensures
            tracker.position is None,
    {
        PositionTracker { position: None }
    }

    /// Finds the position of the first frame of a packet, from the packet's
    /// timestamp if the position is unknown, and holds on to it.
    pub fn locate(&mut self, ts: u64, stream: &StreamSpec) -> (pos: u64)
        requires
            stream.wf(),
        ensures
            pos as int == old(self).position_for(ts, *stream),
            final(self).position == Some(pos),
    {
        let pos = match self.position {
            Some(pos) => pos,
            None => position_from_timestamp(ts, stream),
        };
        self.position = Some(pos);
        pos
    }

    /// Moves the position on by the frames of a packet.
    pub fn advance(&mut self, frames: usize)
        ensures
            *final(self) == old(self).advanced(frames as int),
    {
        self.position = match self.position {
            Some(pos) => Some(pos.saturating_add(frames as u64)),
            None => None,
        };
    }

    /// Forgets the position, as after a reset of the decoder: the next
    /// packet's timestamp gives it anew.
    pub fn reset(&mut self)
        ensures
            final(self).position is None,
    {
        self.position = None;
    }
}

} // verus!
