//! What is known of a stream before its first packet is decoded: which track
//! is read, at what rate, and how its timestamps count; and whether to seek
//! before reading.

use crate::error::AudioReadError;
use vstd::prelude::*;

verus! {

/// What a container says of one of its tracks.
#[derive(Debug, Clone, Copy, PartialEq, Eq, Structural)]
pub struct TrackInfo {
    /// The track's identifier within its container.
    pub id: u32,
    /// Whether the track names a codec, so that it can be decoded.
    pub decodable: bool,
    /// Frames per second, where the track states them.
    pub sample_rate: Option<u32>,
    /// Timestamp ticks per second, where the track has a time base.
    pub time_base_denom: Option<u32>,
}

/// The facts of the stream that is read, fixed for one extraction.
#[derive(Debug, Clone, Copy, PartialEq, Eq, Structural)]
pub struct StreamSpec {
    /// The identifier of the track that is read.
    pub track_id: u32,
    /// Frames per second.
    pub sample_rate: u32,
    /// Timestamp ticks per second, where the track has a time base.
    pub time_base_denom: Option<u32>,
}

impl StreamSpec {
    /// The rate is positive, and so is the tick count where there is one.
    pub open spec fn wf(&self) -> bool {
        &&& self.sample_rate > 0
        &&& self.time_base_denom is Some ==> self.time_base_denom->0 > 0
    }

    /// Whether the rate is positive, and the tick count where there is one.
    pub fn is_valid(&self) -> (valid: bool)
        ensures
            valid == self.wf(),
    {
        self.sample_rate > 0 && match self.time_base_denom {
            Some(denom) => denom > 0,
            None => true,
        }
    }
}

/// The index of the first decodable track among `tracks`, if there is one.
pub open spec fn first_decodable(tracks: Seq<TrackInfo>) -> Option<int>
    decreases tracks.len(),
{
    if tracks.len() == 0 {
        None
    } else if tracks[0].decodable {
        Some(0)
    } else {
        match first_decodable(tracks.drop_first()) {
            Some(i) => Some(i + 1),
            None => None,
        }
    }
}

/// `first_decodable` names a decodable track before which none is
/// decodable, and names none only where no track is decodable.
pub proof fn lemma_first_decodable(tracks: Seq<TrackInfo>)
    ensures
        match first_decodable(tracks) {
            Some(i) => {
                &&& 0 <= i < tracks.len()
                &&& tracks[i].decodable
                &&& forall|j: int| 0 <= j < i ==> !tracks[j].decodable
            },
            None => forall|j: int| 0 <= j < tracks.len() ==> !tracks[j].decodable,
        },
    decreases tracks.len(),
{
    if tracks.len() > 0 && !tracks[0].decodable {
        let rest = tracks.drop_first();
        lemma_first_decodable(rest);
        match first_decodable(rest) {
            Some(i) => {
                assert forall|j: int| 0 <= j < i + 1 implies !tracks[j].decodable by {
                    if j > 0 {
                        assert(tracks[j] == rest[j - 1]);
                    }
                }
            },
            None => {
                assert forall|j: int| 0 <= j < tracks.len() implies !tracks[j].decodable by {
                    if j > 0 {
                        assert(tracks[j] == rest[j - 1]);
                    }
                }
            },
        }
    }
}

/// What `select_track` answers for `tracks`.
pub open spec fn selected_track(tracks: Seq<TrackInfo>) -> Result<StreamSpec, AudioReadError> {
    match first_decodable(tracks) {
        None => Err(AudioReadError::NoTrack),
        Some(i) => match tracks[i].sample_rate {
            None => Err(AudioReadError::NoSampleRate),
            Some(rate) => Ok(
                StreamSpec {
                    track_id: tracks[i].id,
                    sample_rate: rate,
                    time_base_denom: tracks[i].time_base_denom,
                },
            ),
        },
    }
}

/// Chooses the track to read: the first one that can be decoded.
///
/// Fails with `NoTrack` where no track can be decoded, and with
/// `NoSampleRate` where the first decodable track states no sample rate.
pub fn select_track(tracks: &[TrackInfo]) -> (chosen: Result<StreamSpec, AudioReadError>)
    ensures
        chosen == selected_track(tracks@),
{
    let mut i: usize = 0;
    while i < tracks.len()
        invariant
            i <= tracks@.len(),
            forall|j: int| 0 <= j < i ==> !tracks@[j].decodable,
        decreases tracks@.len() - i,
    {
        let track = tracks[i];
        if track.decodable {
            proof {
                lemma_first_decodable(tracks@);
            }
            return match track.sample_rate {
                None => Err(AudioReadError::NoSampleRate),
                Some(rate) => Ok(
                    StreamSpec {
                        track_id: track.id,
                        sample_rate: rate,
                        time_base_denom: track.time_base_denom,
                    },
                ),
            };
        }
        i += 1;
    }
    proof {
        lemma_first_decodable(tracks@);
    }
    Err(AudioReadError::NoTrack)
}

/// `x`, or `u64::MAX` where `x` is larger.
pub open spec fn saturated(x: int) -> int {
    if x > u64::MAX as int {
        u64::MAX as int
    } else {
        x
    }
}

/// The timestamp to seek to before reading from `start_frame`, if a seek is
/// worth it.
///
/// A seek is planned only where the start lies more than one second into
/// the stream and the track has a time base. Its target is the timestamp of
/// the frame at nine tenths of `start_frame`, rounded down, so that a coarse
/// seek does not pass the start; it is no more than `u64::MAX`.
pub open spec fn seek_target(start_frame: u64, stream: StreamSpec) -> Option<int> {
    if start_frame > stream.sample_rate && stream.time_base_denom is Some {
        let seek_frame = start_frame as int * 9 / 10;
        Some(saturated(seek_frame * stream.time_base_denom->0 as int / stream.sample_rate as int))
    } else {
        None
    }
}

/// Decides whether to seek before reading from `start_frame`, and to which
/// timestamp.
pub fn plan_seek(start_frame: u64, stream: &StreamSpec) -> (target: Option<u64>)
    requires
        stream.wf(),
    ensures
        seek_target(start_frame, *stream) == match target {
            Some(ts) => Some(ts as int),
            None => None,
        },
{
    if start_frame <= stream.sample_rate as u64 {
        return None;
    }
    match stream.time_base_denom {
        None => None,
        Some(denom) => {
            let seek_frame: u128 = start_frame as u128 * 9 / 10;
            assert(seek_frame as int * denom as int <= 0xffff_ffff_ffff_ffff * 0xffff_ffff)
                by (nonlinear_arith)
                requires
                    seek_frame <= 0xffff_ffff_ffff_ffff,
                    denom <= 0xffff_ffff,
            ;
            let ts: u128 = seek_frame * denom as u128 / stream.sample_rate as u128;
            if ts > u64::MAX as u128 {
                Some(u64::MAX)
            } else {
                Some(ts as u64)
            }
        },
    }
}

} // verus!
