use engine_lab::tempo::{Tempo, MILLI_BPM_PER_BPM, TICKS_PER_BEAT};
use engine_lab::transport::{Transport, TransportState};

/// A beat position in ticks; a non-finite beat has no tick value and is
/// stood in for by the most negative one, which every beat input refuses.
fn ticks(beats: f64) -> i64 {
    if !beats.is_finite() {
        return i64::MIN;
    }
    (beats * TICKS_PER_BEAT as f64).round() as i64
}

/// A tempo in thousandths of a beat per minute.
fn bpm(beats_per_minute: f64) -> u64 {
    (beats_per_minute * MILLI_BPM_PER_BPM as f64).round() as u64
}

#[test]
fn test_tempo_creation() {
    let tempo = Tempo::new(bpm(120.0), 44_100, (4, 4));
    assert_eq!(tempo.bpm(), bpm(120.0));
    assert_eq!(tempo.sample_rate(), 44_100);
    assert_eq!(tempo.time_signature(), (4, 4));
}

#[test]
fn get_and_set_bpm() {
    let mut tempo = Tempo::new(bpm(120.0), 44_100, (4, 4));
    tempo.set_bpm(bpm(90.0));
    assert_eq!(tempo.bpm(), bpm(90.0));
}

#[test]
fn get_and_set_sample_rate() {
    let mut tempo = Tempo::new(bpm(120.0), 44_100, (4, 4));
    tempo.set_sample_rate(48_000);
    assert_eq!(tempo.sample_rate(), 48_000);
}

#[test]
fn test_samples_per_beat() {
    let tempo = Tempo::new(bpm(120.0), 44_100, (4, 4));
    assert_eq!(tempo.samples_per_beat(), 22_050);
}

#[test]
fn samples_per_beat_rounds_down_at_fractional_tempo() {
    // 60 * 44100 / 90.5 = 29237.569...
    let tempo = Tempo::new(bpm(90.5), 44_100, (4, 4));
    assert_eq!(tempo.samples_per_beat(), 29_237);
}

#[test]
fn beats_to_samples_rounds_half_up() {
    let tempo = Tempo::new(bpm(120.0), 44_100, (4, 4));
    // A quarter beat is 5512.5 samples.
    assert_eq!(tempo.beats_to_samples(ticks(0.25)), 5_513);
    assert_eq!(tempo.beats_to_samples(ticks(1.5)), 33_075);
    assert_eq!(tempo.beats_to_samples(ticks(8.0)), 176_400);
}

#[test]
fn beats_to_samples_of_non_positive_length_is_zero() {
    let tempo = Tempo::new(bpm(120.0), 44_100, (4, 4));
    assert_eq!(tempo.beats_to_samples(0), 0);
    assert_eq!(tempo.beats_to_samples(-5), 0);
    assert_eq!(tempo.beats_to_samples(i64::MIN), 0);
}

#[test]
fn beats_to_samples_saturates() {
    let tempo = Tempo::new(1, u64::MAX, (4, 4));
    assert_eq!(tempo.samples_per_beat(), u64::MAX);
    assert_eq!(tempo.beats_to_samples(i64::MAX), u64::MAX);
}

#[test]
fn samples_to_beats_rounds_down() {
    let tempo = Tempo::new(bpm(120.0), 44_100, (4, 4));
    assert_eq!(tempo.samples_to_beats(44_100), ticks(2.0));
    assert_eq!(tempo.samples_to_beats(22_049), 959_956);
    assert_eq!(tempo.samples_to_beats(0), 0);
}

#[test]
fn samples_to_beats_with_zero_samples_per_beat_is_held_at_max() {
    // 60 * 1 / 1_000_000 beats per minute is less than one sample per beat.
    let tempo = Tempo::new(1_000_000_000, 1, (4, 4));
    assert_eq!(tempo.samples_per_beat(), 0);
    assert_eq!(tempo.samples_to_beats(10), i64::MAX);
}

#[test]
fn whole_beats_convert_exactly_both_ways() {
    let tempo = Tempo::new(bpm(120.0), 48_000, (3, 4));
    let spb = tempo.samples_per_beat();
    assert_eq!(spb, 24_000);
    for k in 0..16i64 {
        let samples = tempo.beats_to_samples(k * TICKS_PER_BEAT);
        assert_eq!(samples, k as u64 * spb);
        assert_eq!(tempo.samples_to_beats(samples), k * TICKS_PER_BEAT);
    }
}

#[test]
fn conversions_keep_order() {
    let tempo = Tempo::new(bpm(133.0), 44_100, (4, 4));
    let mut last_samples = 0;
    let mut last_beats = 0;
    for step in 0..200i64 {
        let samples = tempo.beats_to_samples(step * 12_345);
        assert!(samples >= last_samples);
        last_samples = samples;
        let beats = tempo.samples_to_beats(step as u64 * 777);
        assert!(beats >= last_beats);
        last_beats = beats;
    }
}

#[test]
fn set_time_signature_is_kept() {
    let mut tempo = Tempo::new(bpm(120.0), 44_100, (4, 4));
    tempo.set_time_signature((7, 8));
    assert_eq!(tempo.time_signature(), (7, 8));
}

#[test]
fn test_transport_create() {
    let transport = Transport::new();
    assert_eq!(transport.is_playing(), false);
    assert_eq!(transport.sample_position(), 0);
}

#[test]
fn test_transport_play() {
    let mut transport = Transport::new();
    transport.play();
    assert_eq!(transport.is_playing(), true);
}

#[test]
fn test_transport_play_pause() {
    let mut transport = Transport::new();
    transport.play();
    assert_eq!(transport.is_playing(), true);
    transport.pause();
    assert_eq!(transport.is_playing(), false);
}

#[test]
fn test_transport_play_stop() {
    let mut transport = Transport::new();
    transport.play();
    assert_eq!(transport.is_playing(), true);
    transport.stop();
    assert_eq!(transport.is_playing(), false);
    assert_eq!(transport.sample_position(), 0);
}

#[test]
fn test_transport_play_already_playing() {
    let mut transport = Transport::new();
    transport.play();
    transport.play();
    assert_eq!(transport.is_playing(), true);
}

#[test]
fn test_transport_pause() {
    let mut transport = Transport::new();
    transport.play();
    transport.pause();
    assert_eq!(transport.is_playing(), false);
}

#[test]
fn test_transport_stop() {
    let mut transport = Transport::new();
    transport.play();
    transport.advance_s(44100);
    transport.stop();
    assert_eq!(transport.is_playing(), false);
    assert_eq!(transport.sample_position(), 0);
}

#[test]
fn test_transport_advance() {
    let mut transport = Transport::new();
    transport.play();
    transport.advance_s(512);
    assert_eq!(transport.sample_position(), 512);
}

#[test]
fn test_transport_advance_not_playing() {
    let mut transport = Transport::new();
    transport.advance_s(512);
    assert_eq!(transport.sample_position(), 0);
}

#[test]
fn test_transport_advance_play_pause() {
    let mut transport = Transport::new();
    transport.play();
    transport.advance_s(512);
    assert_eq!(transport.sample_position(), 512);
    transport.pause();
    transport.advance_s(512);
    assert_eq!(transport.sample_position(), 512);
}

#[test]
fn test_transport_set_sample_position() {
    let mut transport = Transport::new();
    transport.set_sample_position(44100);
    assert_eq!(transport.sample_position(), 44100);
}

#[test]
fn test_transport_set_sample_position_zero() {
    let mut transport = Transport::new();
    transport.set_sample_position(0);
    assert_eq!(transport.sample_position(), 0);
}

#[test]
fn test_transport_get_beat_position() {
    let mut transport = Transport::new();
    let tempo = Tempo::new(bpm(120.0), 44100, (4, 4));
    transport.set_sample_position(44100);
    let beat_position = transport.beat_position(&tempo);
    assert_eq!(beat_position, ticks(2.0));
}

#[test]
fn transport_states_are_reported() {
    let mut transport = Transport::new();
    assert_eq!(transport.state(), TransportState::Stopped);
    transport.play();
    assert_eq!(transport.state(), TransportState::Playing);
    transport.pause();
    assert_eq!(transport.state(), TransportState::Paused);
    transport.stop();
    assert_eq!(transport.state(), TransportState::Stopped);
}

#[test]
fn set_sample_position_keeps_state() {
    let mut transport = Transport::new();
    transport.play();
    transport.set_sample_position(1234);
    assert_eq!(transport.state(), TransportState::Playing);
    assert_eq!(transport.sample_position(), 1234);
}

#[test]
fn advance_in_beats_only_while_playing() {
    let tempo = Tempo::new(bpm(120.0), 44_100, (4, 4));
    let mut transport = Transport::new();
    transport.advance_b(ticks(1.0), &tempo);
    assert_eq!(transport.sample_position(), 0);
    transport.play();
    transport.advance_b(ticks(1.0), &tempo);
    assert_eq!(transport.sample_position(), 22_050);
    transport.advance_b(ticks(0.25), &tempo);
    assert_eq!(transport.sample_position(), 22_050 + 5_513);
    transport.pause();
    transport.advance_b(ticks(1.0), &tempo);
    assert_eq!(transport.sample_position(), 22_050 + 5_513);
}

#[test]
fn advances_in_samples_add_up() {
    let mut transport = Transport::new();
    transport.play();
    transport.advance_s(100);
    transport.advance_s(250);
    assert_eq!(transport.sample_position(), 350);
}

#[test]
fn bar_position_divides_beats_by_bar_length() {
    let tempo = Tempo::new(bpm(120.0), 44_100, (4, 4));
    let mut transport = Transport::new();
    // 10 beats: 2.5 bars of four beats.
    transport.set_sample_position(10 * 22_050);
    assert_eq!(transport.bar_position(&tempo), ticks(2.5));
    let waltz = Tempo::new(bpm(120.0), 44_100, (3, 4));
    // 9 beats: 3 bars of three beats.
    transport.set_sample_position(9 * 22_050);
    assert_eq!(transport.bar_position(&waltz), ticks(3.0));
}

#[test]
fn bar_position_with_empty_bar_is_held_at_max() {
    let tempo = Tempo::new(bpm(120.0), 44_100, (0, 4));
    let mut transport = Transport::new();
    transport.set_sample_position(22_050);
    assert_eq!(transport.bar_position(&tempo), i64::MAX);
}
