//! Musical-time conversion: ticks to sample counts under a fixed tempo.

use vstd::arithmetic::div_mod::{lemma_div_is_ordered, lemma_div_of0};
use vstd::prelude::*;

verus! {

/// A reason the fixed playback configuration was rejected before any
/// scheduling began. Every value is fatal: playback never starts with it.
#[derive(Clone, Copy, Debug, PartialEq, Eq, Structural)]
pub enum ConfigError {
    /// The declared tempo (microseconds per beat) was zero.
    InvalidTempo,
    /// The beats-per-minute value was zero.
    InvalidBpm,
    /// The pulses-per-quarter-note value was zero.
    InvalidPpqn,
    /// The sample rate reported by the audio backend was zero.
    InvalidSampleRate,
}

/// Beats per minute derived from a MIDI tempo in microseconds per beat:
/// one minute divided by the beat length, truncated toward zero.
pub open spec fn spec_bpm_from_tempo(tempo_us: int) -> int
    recommends
        tempo_us > 0,
{
    60_000_000int / tempo_us
}

/// Derives the session's beats-per-minute value from the file's declared
/// tempo. A zero tempo is a fatal configuration error.
pub fn bpm_from_tempo(tempo_us: u32) -> (r: Result<u32, ConfigError>)
    ensures
        tempo_us > 0 ==> (r matches Ok(bpm) && bpm == spec_bpm_from_tempo(tempo_us as int)),
        tempo_us == 0 ==> r == Err::<u32, ConfigError>(ConfigError::InvalidTempo),
{
    if tempo_us == 0 {
        Err(ConfigError::InvalidTempo)
    } else {
        Ok(60_000_000u32 / tempo_us)
    }
}

/// The number of whole samples that `ticks` ticks of musical time cover:
/// `ticks * (60 / (bpm * ppqn)) * sample_rate`, truncated toward zero and
/// capped at the largest sample position the scheduler can represent.
pub open spec fn spec_samples(ticks: int, bpm: int, ppqn: int, sample_rate: int) -> int
    recommends
        bpm > 0,
        ppqn > 0,
{
    let exact = (ticks * 60 * sample_rate) / (bpm * ppqn);
    if exact <= i64::MAX {
        exact
    } else {
        i64::MAX as int
    }
}

/// Converts a tick count into a sample count under the fixed tempo.
pub fn samples(ticks: u32, bpm: u32, ppqn: u32, sample_rate: u32) -> (r: i64)
    requires
        bpm > 0,
        ppqn > 0,
    ensures
        r == spec_samples(ticks as int, bpm as int, ppqn as int, sample_rate as int),
        0 <= r,
{
    proof {
        assert((ticks as int) * 60 * (sample_rate as int) <= (u32::MAX as int) * 60 * (
        u32::MAX as int)) by (nonlinear_arith)
            requires
                ticks <= u32::MAX,
                sample_rate <= u32::MAX,
        ;
        assert(0 <= (ticks as int) * 60 * (sample_rate as int)) by (nonlinear_arith)
            requires
                0 <= ticks,
                0 <= sample_rate,
        ;
        assert(1 <= (bpm as int) * (ppqn as int) <= (u32::MAX as int) * (u32::MAX as int))
            by (nonlinear_arith)
            requires
                1 <= bpm <= u32::MAX,
                1 <= ppqn <= u32::MAX,
        ;
    }
    let num: u128 = (ticks as u128) * 60 * (sample_rate as u128);
    let den: u128 = (bpm as u128) * (ppqn as u128);
    let q: u128 = num / den;
    if q <= i64::MAX as u128 {
        q as i64
    } else {
        i64::MAX
    }
}

/// Law: for every valid configuration (positive tempo parameters and sample
/// rate), the tick conversion maps zero ticks to zero samples, never yields a
/// negative count, and is monotonically non-decreasing in the tick count.
pub proof fn lemma_samples_monotone(ticks1: int, ticks2: int, bpm: int, ppqn: int, sample_rate: int)
    requires
        0 <= ticks1 <= ticks2,
        bpm > 0,
        ppqn > 0,
        sample_rate > 0,
    ensures
        spec_samples(0, bpm, ppqn, sample_rate) == 0,
        0 <= spec_samples(ticks1, bpm, ppqn, sample_rate),
        spec_samples(ticks1, bpm, ppqn, sample_rate) <= spec_samples(ticks2, bpm, ppqn, sample_rate),
{
    assert(bpm * ppqn > 0) by (nonlinear_arith)
        requires
            bpm > 0,
            ppqn > 0,
    ;
    assert(0 <= ticks1 * 60 * sample_rate && ticks1 * 60 * sample_rate <= ticks2 * 60
        * sample_rate) by (nonlinear_arith)
        requires
            0 <= ticks1 <= ticks2,
            sample_rate > 0,
    ;
    assert(0int * 60 * sample_rate == 0) by (nonlinear_arith);
    lemma_div_of0(bpm * ppqn);
    lemma_div_is_ordered(0, ticks1 * 60 * sample_rate, bpm * ppqn);
    lemma_div_is_ordered(ticks1 * 60 * sample_rate, ticks2 * 60 * sample_rate, bpm * ppqn);
}

} // verus!
