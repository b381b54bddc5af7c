use handy_core::recording::{
    pad_short_recording, AudioRecordingManager, MicrophoneMode, MuteCommand, RecordingState,
    PADDED_LENGTH, WHISPER_SAMPLE_RATE,
};

fn on_demand() -> AudioRecordingManager {
    AudioRecordingManager::new(false, true).unwrap()
}

fn always_on() -> AudioRecordingManager {
    AudioRecordingManager::new(true, true).unwrap()
}

#[test]
fn recording_manager_starts_in_the_mode_of_the_settings() {
    let m = on_demand();
    assert_eq!(m.mode(), MicrophoneMode::OnDemand);
    assert!(!m.is_open());
    assert!(!m.is_recording());
    let m = always_on();
    assert_eq!(m.mode(), MicrophoneMode::AlwaysOn);
    assert!(m.is_open());
    assert!(AudioRecordingManager::new(true, false).is_none());
    assert!(AudioRecordingManager::new(false, false).is_some());
}

#[test]
fn recording_is_exclusive() {
    let mut m = on_demand();
    assert!(m.try_start_recording("transcribe", true, true));
    assert!(m.is_recording());
    assert!(m.is_open());
    assert!(!m.try_start_recording("ask_ai", true, true));
    assert!(!m.try_start_recording("transcribe", true, true));
    match m.state() {
        RecordingState::Recording { binding_id } => assert_eq!(binding_id, "transcribe"),
        RecordingState::Idle => panic!("the recording was lost"),
    }
    // another binding cannot end it
    let (samples, command) = m.stop_recording("ask_ai", vec![1, 2, 3]);
    assert!(samples.is_none());
    assert_eq!(command, MuteCommand::Leave);
    assert!(m.is_recording());
    // its owner can
    let (samples, _) = m.stop_recording("transcribe", vec![0; 16000]);
    assert_eq!(samples.unwrap().len(), 16000);
    assert!(!m.is_recording());
    assert!(!m.is_open());
    assert!(m.try_start_recording("ask_ai", true, true));
    m.cancel_recording();
    assert!(!m.is_recording());
    assert!(m.try_start_recording("transcribe", true, true));
}

#[test]
fn recording_does_not_start_when_the_device_fails() {
    let mut m = on_demand();
    assert!(!m.try_start_recording("transcribe", false, true));
    assert!(!m.is_recording());
    assert!(!m.is_open());
    assert!(!m.try_start_recording("transcribe", true, false));
    assert!(!m.is_recording());
    assert!(m.is_open());
    let mut m = always_on();
    assert!(m.try_start_recording("transcribe", false, true));
}

#[test]
fn short_recordings_are_padded_with_zeros() {
    assert_eq!(WHISPER_SAMPLE_RATE, 16000);
    assert_eq!(PADDED_LENGTH, 20000);
    let padded = pad_short_recording(vec![7; 15999]);
    assert_eq!(padded.len(), 20000);
    assert_eq!(padded[15998], 7);
    assert!(padded[15999..].iter().all(|s| *s == 0));
    assert_eq!(f32::from_bits(padded[19999]), 0.0);
    assert_eq!(pad_short_recording(vec![7; 16000]).len(), 16000);
    assert_eq!(pad_short_recording(vec![]).len(), 0);
    assert_eq!(pad_short_recording(vec![5]).len(), 20000);
}

#[test]
fn stop_recording_returns_the_padded_samples() {
    let mut m = always_on();
    assert!(m.try_start_recording("transcribe", true, true));
    let (samples, command) = m.stop_recording("transcribe", vec![3, 4]);
    let samples = samples.unwrap();
    assert_eq!(samples.len(), 20000);
    assert_eq!(&samples[..3], &[3, 4, 0]);
    assert_eq!(command, MuteCommand::Leave);
    // always on: the stream stays open
    assert!(m.is_open());
}

#[test]
fn mute_is_symmetric_over_a_recording() {
    let mut m = on_demand();
    let mut output_muted = false;
    let mut apply = |c: MuteCommand, muted: &mut bool| match c {
        MuteCommand::Mute => *muted = true,
        MuteCommand::Unmute => *muted = false,
        MuteCommand::Leave => {}
    };
    assert!(m.try_start_recording("transcribe", true, true));
    let c = m.apply_mute(true, false);
    assert_eq!(c, MuteCommand::Mute);
    apply(c, &mut output_muted);
    assert!(output_muted);
    let c = m.remove_mute();
    assert_eq!(c, MuteCommand::Unmute);
    apply(c, &mut output_muted);
    let (_, c) = m.stop_recording("transcribe", vec![]);
    apply(c, &mut output_muted);
    assert!(!output_muted);
    // a second removal does nothing
    assert_eq!(m.remove_mute(), MuteCommand::Leave);
}

#[test]
fn mute_is_taken_back_by_a_cancellation() {
    for always in [false, true] {
        let mut m = AudioRecordingManager::new(always, true).unwrap();
        assert!(m.try_start_recording("transcribe", true, true));
        assert_eq!(m.apply_mute(true, false), MuteCommand::Mute);
        assert_eq!(m.cancel_recording(), MuteCommand::Unmute);
        assert!(!m.is_recording());
        assert_eq!(m.remove_mute(), MuteCommand::Leave);
        assert_eq!(m.cancel_recording(), MuteCommand::Leave);
    }
}

#[test]
fn mute_is_not_applied_without_the_setting_or_the_stream() {
    let mut m = on_demand();
    assert_eq!(m.apply_mute(true, false), MuteCommand::Leave);
    assert!(m.try_start_recording("transcribe", true, true));
    assert_eq!(m.apply_mute(false, false), MuteCommand::Leave);
    assert_eq!(m.remove_mute(), MuteCommand::Leave);
}

#[test]
fn closing_the_stream_takes_the_mute_back() {
    let mut m = on_demand();
    assert!(m.try_start_recording("transcribe", true, true));
    assert_eq!(m.apply_mute(true, false), MuteCommand::Mute);
    let (_, c) = m.stop_recording("transcribe", vec![]);
    assert_eq!(c, MuteCommand::Unmute);
}

#[test]
fn mode_changes_open_and_close_the_stream() {
    let mut m = always_on();
    let (c, r) = m.update_mode(MicrophoneMode::OnDemand, true);
    assert!(r.is_ok());
    assert_eq!(c, MuteCommand::Leave);
    assert_eq!(m.mode(), MicrophoneMode::OnDemand);
    assert!(!m.is_open());
    let (_, r) = m.update_mode(MicrophoneMode::AlwaysOn, false);
    assert_eq!(r, Err("Failed to open recorder".to_string()));
    assert_eq!(m.mode(), MicrophoneMode::OnDemand);
    let (_, r) = m.update_mode(MicrophoneMode::AlwaysOn, true);
    assert!(r.is_ok());
    assert!(m.is_open());
    // a running recording keeps the stream open through the change
    assert!(m.try_start_recording("transcribe", true, true));
    m.update_mode(MicrophoneMode::OnDemand, true);
    assert!(m.is_open());
    assert_eq!(m.start_microphone_stream(false), true);
    assert_eq!(m.stop_microphone_stream(), MuteCommand::Leave);
    assert!(!m.is_open());
    assert_eq!(m.stop_microphone_stream(), MuteCommand::Leave);
}

#[test]
fn active_listening_goes_back_to_the_mode_of_the_settings() {
    let mut m = on_demand();
    assert!(!m.is_active_listening());
    let (_, r) = m.start_active_listening(true, true);
    assert!(r.is_ok());
    assert!(m.is_active_listening());
    assert!(m.is_open());
    // starting again changes nothing
    let (c, r) = m.start_active_listening(false, false);
    assert!(r.is_ok());
    assert_eq!(c, MuteCommand::Leave);
    let (_, r) = m.stop_active_listening(false, true);
    assert!(r.is_ok());
    assert_eq!(m.mode(), MicrophoneMode::OnDemand);
    assert!(!m.is_open());
    let (_, r) = m.stop_active_listening(true, true);
    assert!(r.is_ok());
    assert_eq!(m.mode(), MicrophoneMode::OnDemand);

    m.start_active_listening(true, true).1.unwrap();
    let (_, r) = m.stop_active_listening(true, true);
    assert!(r.is_ok());
    assert_eq!(m.mode(), MicrophoneMode::AlwaysOn);
    assert!(m.is_open());

    let mut m = on_demand();
    let (_, r) = m.start_active_listening(false, true);
    assert_eq!(r, Err("Failed to open recorder".to_string()));
    let mut m = on_demand();
    let (_, r) = m.start_active_listening(true, false);
    assert_eq!(r, Err("Failed to start recording".to_string()));
    assert!(m.is_active_listening());
    let (_, r) = m.stop_active_listening(true, false);
    assert_eq!(r, Err("Failed to open recorder".to_string()));
}

fn output_after(muted: bool, command: MuteCommand) -> bool {
    match command {
        MuteCommand::Mute => true,
        MuteCommand::Unmute => false,
        MuteCommand::Leave => muted,
    }
}

#[test]
fn a_cycle_leaves_the_output_as_it_was_before() {
    for always in [false, true] {
        for setting in [false, true] {
            for before in [false, true] {
                let mut m = AudioRecordingManager::new(always, true).unwrap();
                let mut muted = before;
                assert!(m.try_start_recording("transcribe", true, true));
                let c = m.apply_mute(setting, muted);
                assert_eq!(c == MuteCommand::Mute, setting && !before);
                muted = output_after(muted, c);
                assert_eq!(muted, before || setting);
                muted = output_after(muted, m.remove_mute());
                let (_, c) = m.stop_recording("transcribe", vec![]);
                muted = output_after(muted, c);
                assert_eq!(muted, before, "{} {} {}", always, setting, before);
                assert_eq!(m.remove_mute(), MuteCommand::Leave);
            }
        }
    }
}

#[test]
fn a_cancelled_cycle_leaves_the_output_as_it_was_before() {
    for always in [false, true] {
        for setting in [false, true] {
            for before in [false, true] {
                let mut m = AudioRecordingManager::new(always, true).unwrap();
                let mut muted = before;
                assert!(m.try_start_recording("transcribe", true, true));
                muted = output_after(muted, m.apply_mute(setting, muted));
                muted = output_after(muted, m.cancel_recording());
                assert_eq!(muted, before, "{} {} {}", always, setting, before);
                assert!(!m.is_recording());
                assert_eq!(m.remove_mute(), MuteCommand::Leave);
            }
        }
    }
}

#[test]
fn an_output_muted_before_is_left_alone() {
    let mut m = AudioRecordingManager::new(false, true).unwrap();
    assert!(m.try_start_recording("transcribe", true, true));
    assert_eq!(m.apply_mute(true, true), MuteCommand::Leave);
    assert_eq!(m.remove_mute(), MuteCommand::Leave);
    assert!(m.try_start_recording("other", true, true) == false);
    assert_eq!(m.cancel_recording(), MuteCommand::Leave);
}
