use bmidi_play::{bpm_from_tempo, samples, ConfigError};

#[test]
fn samples_eighth_note_at_120_bpm() {
    // 48 ticks at 96 ppqn is an eighth note; at 120 bpm and 44100 Hz it
    // covers 48 * 60 / (120 * 96) * 44100 = 11025 samples exactly.
    assert_eq!(samples(48, 120, 96, 44100), 11025);
}

#[test]
fn samples_zero_ticks_is_zero() {
    assert_eq!(samples(0, 120, 96, 44100), 0);
    assert_eq!(samples(0, 1, 1, u32::MAX), 0);
}

#[test]
fn samples_truncates_toward_zero() {
    // 1 * 60 / (120 * 96) * 44100 = 229.6875 -> 229.
    assert_eq!(samples(1, 120, 96, 44100), 229);
}

#[test]
fn samples_monotone_in_ticks() {
    let mut prev = 0i64;
    for ticks in 0..200u32 {
        let s = samples(ticks, 120, 96, 44100);
        assert!(s >= prev);
        prev = s;
    }
}

#[test]
fn samples_caps_at_largest_position() {
    assert_eq!(samples(u32::MAX, 1, 1, u32::MAX), i64::MAX);
}

#[test]
fn bpm_from_standard_tempo() {
    // 500000 microseconds per beat is the MIDI default: 120 bpm.
    assert_eq!(bpm_from_tempo(500_000), Ok(120));
    assert_eq!(bpm_from_tempo(100_000), Ok(600));
}

#[test]
fn bpm_from_tempo_truncates() {
    assert_eq!(bpm_from_tempo(700_000), Ok(85));
}

#[test]
fn bpm_from_zero_tempo_is_rejected() {
    assert_eq!(bpm_from_tempo(0), Err(ConfigError::InvalidTempo));
}

#[test]
fn bpm_from_overlong_tempo_is_zero() {
    // A beat longer than a minute truncates to zero bpm, which the
    // scheduler's constructor then rejects as invalid.
    assert_eq!(bpm_from_tempo(60_000_001), Ok(0));
}
