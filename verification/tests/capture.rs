use alliot::voice::{listener_update, ListenerEvent, ListenerUpdate};
use alliot::voice_state::VoiceState;
use alliot::voice::vad::{RecorderStep, RecorderVad, RecordingError};
use alliot::voice::{
    check_audio, check_channels, ring_buffer_capacity, wake_outcome, wake_should_transcribe,
    AudioIssue, CaptureState, MicrophoneIssue, WakeOutcome,
};

#[test]
fn new_capture_is_idle() {
    let state = CaptureState::new();
    assert!(!state.is_recording());
    assert!(!state.should_auto_stop());
}

#[test]
fn chunks_while_idle_change_nothing() {
    let mut state = CaptureState::new();
    state.process_chunk(1000, true, 10);
    assert!(!state.is_recording());
    assert!(!state.should_auto_stop());
    state.start_recording();
    state.process_chunk(5, true, 10);
    assert!(state.is_recording());
    assert!(!state.should_auto_stop());
}

#[test]
fn silence_after_speech_stops_recording() {
    // 10 samples per second: 0.1 s of speech, then 1 s of silence.
    let mut state = CaptureState::new();
    state.start_recording();
    state.process_chunk(3, false, 10);
    assert!(!state.should_auto_stop());
    state.process_chunk(1, true, 10);
    state.process_chunk(9, false, 10);
    assert!(!state.should_auto_stop());
    state.process_chunk(1, false, 10);
    assert!(state.should_auto_stop());
    assert!(state.poll_recording_end());
    assert!(!state.is_recording());
}

#[test]
fn silence_before_speech_never_stops() {
    let mut state = CaptureState::new();
    state.start_recording();
    for _ in 0..6 {
        state.process_chunk(10, false, 10);
    }
    assert!(!state.should_auto_stop());
    assert!(!state.poll_recording_end());
    assert!(state.is_recording());
}

#[test]
fn speech_resets_silence() {
    let mut state = CaptureState::new();
    state.start_recording();
    state.process_chunk(2, true, 10);
    state.process_chunk(9, false, 10);
    state.process_chunk(1, true, 10);
    state.process_chunk(9, false, 10);
    assert!(!state.should_auto_stop());
    state.process_chunk(1, false, 10);
    assert!(state.should_auto_stop());
}

#[test]
fn maximal_length_stops_recording() {
    let mut state = CaptureState::new();
    state.start_recording();
    state.process_chunk(69, true, 10);
    assert!(!state.should_auto_stop());
    state.process_chunk(1, true, 10);
    assert!(state.should_auto_stop());
}

#[test]
fn stop_recording_withdraws_stop_request() {
    let mut state = CaptureState::new();
    state.start_recording();
    state.process_chunk(70, true, 10);
    assert!(state.should_auto_stop());
    state.stop_recording();
    assert!(!state.is_recording());
    assert!(!state.should_auto_stop());
    assert!(state.poll_recording_end());
}

#[test]
fn zero_sample_rate_reads_as_endless_audio() {
    let mut state = CaptureState::new();
    state.start_recording();
    state.process_chunk(1, true, 0);
    assert!(state.should_auto_stop());
}

#[test]
fn listener_transcribes_only_loud_idle_windows() {
    assert!(wake_should_transcribe(false, false, 50, 100, true));
    assert!(!wake_should_transcribe(false, false, 49, 100, true));
    assert!(!wake_should_transcribe(true, false, 100, 100, true));
    assert!(!wake_should_transcribe(false, true, 100, 100, true));
    assert!(!wake_should_transcribe(false, false, 100, 100, false));
}

#[test]
fn listener_outcomes() {
    match wake_outcome("Аллиот, открой blender") {
        WakeOutcome::RunCommand(command) => assert_eq!(command, "открой blender"),
        other => panic!("unexpected {:?}", other),
    }
    assert!(matches!(wake_outcome("Аллиот!"), WakeOutcome::AwaitCommand));
    assert!(matches!(wake_outcome("привет"), WakeOutcome::NoWakeWord));
}

#[test]
fn audio_checks() {
    assert_eq!(check_audio(0, 16000), Err(AudioIssue::Empty));
    assert_eq!(check_audio(100, 0), Err(AudioIssue::InvalidSampleRate));
    assert_eq!(check_audio(1599, 16000), Err(AudioIssue::TooShort));
    assert_eq!(check_audio(1600, 16000), Ok(()));
}

#[test]
fn microphone_settings() {
    assert_eq!(ring_buffer_capacity(48000), 240000);
    assert_eq!(check_channels(1), Ok(()));
    assert_eq!(check_channels(2), Err(MicrophoneIssue::NotMono(2)));
}

#[test]
fn recorder_waits_for_audio_then_speech() {
    let mut vad = RecorderVad::new();
    assert_eq!(vad.step(10, 100, 20, true, false, false), RecorderStep::TooLittleAudio);
    assert_eq!(vad.step(30, 100, 20, false, true, true), RecorderStep::Quiet);
    assert_eq!(vad.step(40, 100, 20, true, false, false), RecorderStep::Voice { speech_begins: true });
    assert_eq!(vad.step(50, 100, 20, true, false, false), RecorderStep::Voice { speech_begins: false });
    assert_eq!(vad.step(60, 100, 20, false, true, false), RecorderStep::Quiet);
    assert_eq!(vad.step(70, 100, 20, false, true, true), RecorderStep::Stop);
    assert_eq!(vad.verdict(70), Ok(()));
}

#[test]
fn recorder_stops_at_maximum() {
    let mut vad = RecorderVad::new();
    assert_eq!(vad.step(100, 100, 20, false, false, false), RecorderStep::Stop);
    assert_eq!(vad.verdict(100), Err(RecordingError::NoSpeech));
    assert_eq!(vad.verdict(0), Err(RecordingError::NoSamples));
}

#[test]
fn recording_error_messages() {
    assert_eq!(RecordingError::NoSamples.message(), "Микрофон не записал ни одного сэмпла");
    assert_eq!(RecordingError::NoSpeech.message(), "Речь не обнаружена");
}

#[test]
fn listener_updates() {
    assert_eq!(
        listener_update(false, ListenerEvent::Transcribed),
        ListenerUpdate { awake: false, voice_state: Some(VoiceState::Listening) }
    );
    assert_eq!(
        listener_update(false, ListenerEvent::WakeWordHeard),
        ListenerUpdate { awake: true, voice_state: None }
    );
    assert_eq!(
        listener_update(true, ListenerEvent::CommandRun),
        ListenerUpdate { awake: false, voice_state: None }
    );
    assert_eq!(
        listener_update(true, ListenerEvent::CommandListened),
        ListenerUpdate { awake: false, voice_state: Some(VoiceState::Analyzing) }
    );
    assert_eq!(
        listener_update(true, ListenerEvent::Stopped),
        ListenerUpdate { awake: false, voice_state: None }
    );
}
