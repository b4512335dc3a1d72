//! Contiguous ranges of channels.

use crate::error::AudioReadError;
use vstd::prelude::*;

verus! {

/// The channels `start`, `start + 1`, .., `end - 1` of a stream.
#[derive(Debug, Clone, Copy, PartialEq, Eq, Structural)]
pub struct ChannelRange {
    /// The first channel of the range.
    pub start: usize,
    /// The channel after the last one of the range.
    pub end: usize,
}

impl ChannelRange {
    /// The range is not empty and lies within `total` channels.
    pub open spec fn fits(&self, total: usize) -> bool {
        self.start < self.end <= total
    }

    /// The range holds every one of `total` channels.
    pub open spec fn is_full(&self, total: usize) -> bool {
        self.start == 0 && self.end == total
    }

    /// The number of channels in the range.
    pub open spec fn span(&self) -> int {
        self.end - self.start
    }

    /// The number of channels in the range.
    pub fn width(&self) -> (w: usize)
        requires
            self.start <= self.end,
        ensures
            w == self.span(),
    {
        self.end - self.start
    }
}

/// The channel range that a request names on a stream of `total` channels,
/// before any check: a missing first channel is channel 0, a missing last
/// channel is `total`.
pub open spec fn requested_channels(
    first_channel: Option<usize>,
    last_channel: Option<usize>,
    total: usize,
) -> ChannelRange {
    ChannelRange {
        start: match first_channel {
            Some(c) => c,
            None => 0,
        },
        end: match last_channel {
            Some(c) => c,
            None => total,
        },
    }
}

/// What `resolve_channels` answers: the requested range where it fits, else
/// the first of the three faults that it shows, in this order: start beyond
/// the stream, end beyond the stream, end not after start.
pub open spec fn checked_channels(
    first_channel: Option<usize>,
    last_channel: Option<usize>,
    total: usize,
) -> Result<ChannelRange, AudioReadError> {
    let range = requested_channels(first_channel, last_channel, total);
    if range.start >= total {
        Err(AudioReadError::InvalidStartChannel(range.start, total))
    } else if range.end > total {
        Err(AudioReadError::InvalidEndChannel(range.end, total))
    } else if range.end <= range.start {
        Err(AudioReadError::EndChannelLargerThanStartChannel(range.end, range.start))
    } else {
        Ok(range)
    }
}

/// Resolves a requested channel range against the number of channels that
/// the stream turned out to have, and checks it.
pub fn resolve_channels(
    first_channel: Option<usize>,
    last_channel: Option<usize>,
    total: usize,
) -> (resolved: Result<ChannelRange, AudioReadError>)
    ensures
        resolved == checked_channels(first_channel, last_channel, total),
        resolved is Ok ==> resolved->Ok_0.fits(total),
{
    let start = match first_channel {
        Some(c) => c,
        None => 0,
    };
    let end = match last_channel {
        Some(c) => c,
        None => total,
    };
    if start >= total {
        Err(AudioReadError::InvalidStartChannel(start, total))
    } else if end > total {
        Err(AudioReadError::InvalidEndChannel(end, total))
    } else if end <= start {
        Err(AudioReadError::EndChannelLargerThanStartChannel(end, start))
    } else {
        Ok(ChannelRange { start, end })
    }
}

/// Appends to `out` the samples of the channels `ch` of one frame, in their
/// order. The frame holds one sample for each channel of the stream.
pub fn slice_frame<T: Copy>(out: &mut Vec<T>, frame: &[T], ch: ChannelRange)
    requires
        ch.start <= ch.end <= frame@.len(),
    ensures
        final(out)@ == old(out)@ + frame@.subrange(ch.start as int, ch.end as int),
{
    let mut c: usize = ch.start;
    assert(frame@.subrange(ch.start as int, ch.start as int) =~= Seq::<T>::empty());
    while c < ch.end
        invariant
            ch.start <= c <= ch.end <= frame@.len(),
            out@ == old(out)@ + frame@.subrange(ch.start as int, c as int),
        decreases ch.end - c,
    {
        out.push(frame[c]);
        c += 1;
        assert(frame@.subrange(ch.start as int, c as int) =~= frame@.subrange(
            ch.start as int,
            c - 1,
        ).push(frame@[c - 1]));
    }
}

/// A range is accepted exactly when, with the missing ends filled in, it
/// starts inside the stream, ends inside it or at its end, and ends after it
/// starts. A first channel beyond the stream, a last channel beyond it and a
/// last channel that is not after the first are each refused; each has its
/// own error, which is returned where no fault that is named before it is
/// there too.
pub proof fn lemma_channel_faults(
    first_channel: Option<usize>,
    last_channel: Option<usize>,
    total: usize,
)
    ensures
        checked_channels(first_channel, last_channel, total) is Ok <==> requested_channels(
            first_channel,
            last_channel,
            total,
        ).fits(total),
        (first_channel is Some && first_channel->0 >= total) || (last_channel is Some
            && last_channel->0 > total) || (first_channel is Some && last_channel is Some
            && last_channel->0 <= first_channel->0) ==> checked_channels(
            first_channel,
            last_channel,
            total,
        ) is Err,
        first_channel is Some && first_channel->0 >= total ==> checked_channels(
            first_channel,
            last_channel,
            total,
        ) == Err::<ChannelRange, _>(AudioReadError::InvalidStartChannel(first_channel->0, total)),
        last_channel is Some && last_channel->0 > total && requested_channels(
            first_channel,
            last_channel,
            total,
        ).start < total ==> checked_channels(first_channel, last_channel, total) == Err::<
            ChannelRange,
            _,
        >(AudioReadError::InvalidEndChannel(last_channel->0, total)),
        first_channel is Some && last_channel is Some && last_channel->0 <= first_channel->0
            < total && last_channel->0 <= total ==> checked_channels(
            first_channel,
            last_channel,
            total,
        ) == Err::<ChannelRange, _>(
            AudioReadError::EndChannelLargerThanStartChannel(last_channel->0, first_channel->0),
        ),
{
}

} // verus!
