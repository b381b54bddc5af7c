use handy_core::diarization::{DiarizationConfig, EnergyBasedDiarizer, EnergyUpdate, SpeakerChange};

#[test]
fn test_diarizer_creation() {
    let diarizer = EnergyBasedDiarizer::new();
    assert_eq!(diarizer.get_current_speaker(), 0);
    assert_eq!(diarizer.get_speaker_count(), 1);
}

#[test]
fn test_reset() {
    let mut diarizer = EnergyBasedDiarizer::new();

    for _ in 0..100 {
        diarizer.process_frame(480, false, false);
    }

    diarizer.reset();
    assert_eq!(diarizer.get_current_speaker(), 0);
    assert_eq!(diarizer.get_speaker_count(), 1);
    assert_eq!(diarizer.history_len(), 0);
    assert!(!diarizer.has_primary_baseline());
}

#[test]
fn test_speaker_change_after_silence() {
    let config = DiarizationConfig {
        min_silence_duration_ms: 100,
        sample_rate: 16000,
        history_window_size: 20,
    };
    let mut diarizer = EnergyBasedDiarizer::with_config(config);

    for _ in 0..50 {
        diarizer.process_frame(480, false, false);
    }
    assert_eq!(diarizer.get_current_speaker(), 0);

    for _ in 0..10 {
        diarizer.process_frame(480, true, false);
    }

    let (result, update) = diarizer.process_frame(480, false, false);

    let change = result.expect("a long silence after a long turn changes the speaker");
    assert_eq!(change.previous_speaker, 0);
    assert_eq!(change.new_speaker, 1);
    assert_eq!(change.sample_offset, 61 * 480);
    assert_eq!(update, EnergyUpdate::Restart);
    assert_eq!(diarizer.get_speaker_count(), 2);
}

#[test]
fn test_config_defaults() {
    let config = DiarizationConfig::default();
    assert_eq!(config.min_silence_duration_ms, 500);
    assert_eq!(config.sample_rate, 16000);
    assert_eq!(config.history_window_size, 20);
}

#[test]
fn diarizer_silence_after_reset_reports_nothing() {
    let mut diarizer = EnergyBasedDiarizer::new();
    for _ in 0..200 {
        diarizer.process_frame(480, false, true);
    }
    diarizer.reset();
    let (change, update) = diarizer.process_frame(480, true, true);
    assert_eq!(change, None);
    assert_eq!(update, EnergyUpdate::Keep);
    assert_eq!(diarizer.get_speaker_count(), 1);
    assert_eq!(diarizer.get_current_speaker(), 0);
}

#[test]
fn diarizer_short_silence_changes_nothing() {
    let mut diarizer = EnergyBasedDiarizer::new();
    for _ in 0..100 {
        diarizer.process_frame(480, false, false);
    }
    // 16 frames of silence are 7680 samples: less than half a second
    for _ in 0..16 {
        diarizer.process_frame(480, true, false);
    }
    let (change, update) = diarizer.process_frame(480, false, false);
    assert_eq!(change, None);
    assert_eq!(update, EnergyUpdate::Blend);
    // one more frame of silence makes 8160 samples
    for _ in 0..17 {
        diarizer.process_frame(480, true, false);
    }
    let (change, _) = diarizer.process_frame(480, false, false);
    assert!(change.is_some());
}

#[test]
fn diarizer_silence_change_needs_a_turn_of_a_second() {
    let mut diarizer = EnergyBasedDiarizer::new();
    // 10 frames of speech and 17 of silence are 12960 samples: less than a second
    for _ in 0..10 {
        diarizer.process_frame(480, false, false);
    }
    for _ in 0..17 {
        diarizer.process_frame(480, true, false);
    }
    assert_eq!(diarizer.process_frame(480, false, false).0, None);
}

#[test]
fn diarizer_energy_change_needs_a_turn_of_two_seconds() {
    let mut diarizer = EnergyBasedDiarizer::new();
    // 66 frames are 31680 samples; the 67th brings the turn to 32160, over two seconds
    for _ in 0..66 {
        assert_eq!(diarizer.process_frame(480, false, true).0, None);
    }
    let (change, update) = diarizer.process_frame(480, false, true);
    assert_eq!(
        change,
        Some(SpeakerChange { new_speaker: 1, previous_speaker: 0, sample_offset: 67 * 480 })
    );
    assert_eq!(update, EnergyUpdate::Restart);
    // the turn of the second speaker has just begun: no change for two more seconds
    for _ in 0..66 {
        assert_eq!(diarizer.process_frame(480, false, true).0, None);
    }
    let (change, _) = diarizer.process_frame(480, false, true);
    assert_eq!(
        change,
        Some(SpeakerChange { new_speaker: 0, previous_speaker: 1, sample_offset: 134 * 480 })
    );
    assert_eq!(diarizer.get_speaker_count(), 2);
}

#[test]
fn diarizer_energy_change_needs_five_energies() {
    let config =
        DiarizationConfig { min_silence_duration_ms: 500, sample_rate: 100, history_window_size: 20 };
    let mut diarizer = EnergyBasedDiarizer::with_config(config);
    // each frame is long enough for the turn, but the window must hold five energies
    for i in 0..4 {
        assert_eq!(diarizer.process_frame(480, false, true).0, None, "frame {}", i);
    }
    assert!(diarizer.process_frame(480, false, true).0.is_some());
}

#[test]
fn diarizer_baseline_is_due_once_after_two_seconds_and_ten_energies() {
    let mut diarizer = EnergyBasedDiarizer::new();
    let mut due_at = Vec::new();
    for i in 0..100 {
        if diarizer.baseline_due(480) {
            due_at.push(i);
        }
        diarizer.process_frame(480, false, false);
    }
    // 67 frames bring the total over 32000 samples
    assert_eq!(due_at, vec![66]);
    assert!(diarizer.has_primary_baseline());
    assert_eq!(diarizer.history_len(), 20);
}

#[test]
fn diarizer_counts_do_not_overflow() {
    let mut diarizer = EnergyBasedDiarizer::new();
    diarizer.process_frame(usize::MAX, true, false);
    diarizer.process_frame(usize::MAX, true, false);
    let (change, _) = diarizer.process_frame(usize::MAX, false, false);
    assert_eq!(change.unwrap().sample_offset, usize::MAX);
    assert_eq!(diarizer.get_speaker_count(), 2);
}
