use vstd::prelude::*;

verus! {

/// Samples in one chunk of a replayed recording: a thirtieth of a second
/// of every channel.
pub open spec fn chunk_samples(sample_rate: u32, channels: u16) -> int {
    (sample_rate as int / 30) * channels
}

/// Milliseconds that a chunk of `chunk_len` samples stands for at a rate
/// that is not zero.
pub open spec fn chunk_millis(chunk_len: usize, sample_rate: u32) -> int {
    (chunk_len as int * 1000) / (sample_rate as int)
}

/// The length of the chunks in which a recording is replayed, so that it
/// comes in as a live stream would. There is none where a chunk would be
/// empty, nor where its length cannot be counted.
pub fn replay_chunk_len(sample_rate: u32, channels: u16) -> (len: Option<usize>)
    ensures
        len.is_some() == (0 < chunk_samples(sample_rate, channels) <= usize::MAX),
        len matches Some(samples) ==> samples == chunk_samples(sample_rate, channels),
{
    let period: u64 = (sample_rate / 30) as u64;
    assert(period * (channels as u64) <= 0xffff_ffff * 0xffff) by (nonlinear_arith)
        requires
            period <= 0xffff_ffff,
            channels <= 0xffff,
    ;
    let samples: u64 = period * (channels as u64);
    if samples == 0 || samples > usize::MAX as u64 {
        None
    } else {
        Some(samples as usize)
    }
}

/// The time, in milliseconds, that a chunk stands for; none at a rate of
/// zero, nor where the time cannot be counted.
pub fn chunk_duration_ms(chunk_len: usize, sample_rate: u32) -> (millis: Option<u64>)
    ensures
        millis.is_some() == (sample_rate > 0 && chunk_millis(chunk_len, sample_rate) <= u64::MAX),
        millis matches Some(time) ==> time == chunk_millis(chunk_len, sample_rate),
{
    if sample_rate == 0 {
        return None;
    }
    let time: u128 = (chunk_len as u128) * 1000 / (sample_rate as u128);
    if time > u64::MAX as u128 {
        None
    } else {
        Some(time as u64)
    }
}

/// The time left to pause after a chunk that took `elapsed` of the `due`
/// milliseconds it stands for; none where it took longer.
pub fn remaining_pause_ms(due: u64, elapsed: u64) -> (pause: Option<u64>)
    ensures
        pause == if elapsed <= due {
            Some((due - elapsed) as u64)
        } else {
            None
        },
{
    due.checked_sub(elapsed)
}

} // verus!
