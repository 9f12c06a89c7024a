use alliot::audio_buffer::AudioRingBuffer;
use alliot::config::AppConfig;
use alliot::voice_state::{VoiceState, VoiceStateManager};

#[test]
fn voice_state_starts_off() {
    assert_eq!(VoiceStateManager::new().get(), VoiceState::Off);
}

#[test]
fn voice_state_get_after_set() {
    let mut manager = VoiceStateManager::new();
    manager.set(VoiceState::Listening);
    assert_eq!(manager.get(), VoiceState::Listening);
    manager.set(VoiceState::Analyzing);
    manager.set(VoiceState::WaitingForWakeWord);
    assert_eq!(manager.get(), VoiceState::WaitingForWakeWord);
}

#[test]
fn default_config_name() {
    assert_eq!(AppConfig::default().name, "Alliot");
}

#[test]
fn ring_buffer_keeps_latest() {
    let mut buffer: AudioRingBuffer<f32> = AudioRingBuffer::new(3);
    assert!(buffer.is_empty());
    buffer.push(&[1.0, 2.0]);
    assert_eq!(buffer.len(), 2);
    buffer.push(&[3.0, 4.0, 5.0]);
    assert_eq!(buffer.snapshot(), vec![3.0, 4.0, 5.0]);
    assert_eq!(buffer.last_samples(2), vec![4.0, 5.0]);
    assert_eq!(buffer.last_samples(10), vec![3.0, 4.0, 5.0]);
    assert_eq!(buffer.last_samples(0), Vec::<f32>::new());
    buffer.clear();
    assert!(buffer.is_empty());
    assert_eq!(buffer.snapshot(), Vec::<f32>::new());
}

#[test]
fn ring_buffer_of_zero_capacity_keeps_nothing() {
    let mut buffer: AudioRingBuffer<i16> = AudioRingBuffer::new(0);
    buffer.push(&[7, 8, 9]);
    assert!(buffer.is_empty());
    assert_eq!(buffer.snapshot(), Vec::<i16>::new());
}

#[test]
fn ring_buffer_batches_compose() {
    let mut one: AudioRingBuffer<u8> = AudioRingBuffer::new(4);
    one.push(&[1, 2, 3]);
    one.push(&[4, 5, 6]);
    let mut both: AudioRingBuffer<u8> = AudioRingBuffer::new(4);
    both.push(&[1, 2, 3, 4, 5, 6]);
    assert_eq!(one.snapshot(), both.snapshot());
    assert_eq!(one.snapshot(), vec![3, 4, 5, 6]);
}
