use engine::voice::{VoiceDecompressor, VoicePacket, VoiceQuality, VoiceRecorder, VoiceRecordingState, VoiceResult};
use engine::steam_id::SteamId;

fn test_steam_id() -> SteamId {
    SteamId::from_account_id(12345)
}

// =============================================================================
// VOX-001: Start Voice Recording
// Reference: https://partner.steamgames.com/doc/api/ISteamUser#StartVoiceRecording
// =============================================================================

#[test]
fn vox_001_start_recording() {
    let mut recorder = VoiceRecorder::new();

    assert_eq!(recorder.state(), VoiceRecordingState::Idle);

    let result = recorder.start_recording();
    assert_eq!(result, VoiceResult::Done);
    assert_eq!(recorder.state(), VoiceRecordingState::Recording);
}

// =============================================================================
// VOX-002: Stop Voice Recording
// Reference: https://partner.steamgames.com/doc/api/ISteamUser#StopVoiceRecording
// =============================================================================

#[test]
fn vox_002_stop_recording() {
    let mut recorder = VoiceRecorder::new();

    recorder.start_recording();
    assert_eq!(recorder.state(), VoiceRecordingState::Recording);

    let result = recorder.stop_recording();
    assert_eq!(result, VoiceResult::Done);
    assert_eq!(recorder.state(), VoiceRecordingState::Idle);
}

// =============================================================================
// VOX-003: Get Voice
// Reference: https://partner.steamgames.com/doc/api/ISteamUser#GetVoice
// =============================================================================

#[test]
fn vox_003_get_voice() {
    let mut recorder = VoiceRecorder::new();

    recorder.start_recording();
    recorder.add_voice_data(vec![1, 2, 3, 4, 5]);

    let (result, data) = recorder.get_voice(1024);
    assert_eq!(result, VoiceResult::Done);
    assert_eq!(data, vec![1, 2, 3, 4, 5]);
}

#[test]
fn vox_003_get_voice_no_data() {
    let mut recorder = VoiceRecorder::new();

    recorder.start_recording();

    let (result, _data) = recorder.get_voice(1024);
    assert_eq!(result, VoiceResult::NoData);
}

// =============================================================================
// VOX-004: Decompress Voice
// Reference: https://partner.steamgames.com/doc/api/ISteamUser#DecompressVoice
// =============================================================================

#[test]
fn vox_004_decompress_voice() {
    let decompressor = VoiceDecompressor::new(16000);

    let compressed = vec![10, 20, 30, 40];
    let mut output = vec![0u8; 1024];

    let (result, bytes_written) = decompressor.decompress(&compressed, &mut output);
    assert_eq!(result, VoiceResult::Done);
    assert!(bytes_written > 0);
}

#[test]
fn vox_004_decompress_buffer_too_small() {
    let decompressor = VoiceDecompressor::new(16000);

    let compressed = vec![10, 20, 30, 40];
    let mut output = vec![0u8; 8]; // Too small

    let (result, _) = decompressor.decompress(&compressed, &mut output);
    assert_eq!(result, VoiceResult::BufferTooSmall);
}

// =============================================================================
// VOX-005: Optimal Sample Rate
// Reference: https://partner.steamgames.com/doc/api/ISteamUser#GetVoiceOptimalSampleRate
// =============================================================================

#[test]
fn vox_005_optimal_sample_rate() {
    let mut recorder = VoiceRecorder::new();

    recorder.set_quality(VoiceQuality::Normal);
    assert_eq!(recorder.get_optimal_sample_rate(), 16000);

    recorder.set_quality(VoiceQuality::High);
    assert_eq!(recorder.get_optimal_sample_rate(), 24000);

    recorder.set_quality(VoiceQuality::Low);
    assert_eq!(recorder.get_optimal_sample_rate(), 8000);
}

// =============================================================================
// VOX-006: Voice Available
// Reference: https://partner.steamgames.com/doc/api/ISteamUser#GetAvailableVoice
// =============================================================================

#[test]
fn vox_006_available_voice() {
    let mut recorder = VoiceRecorder::new();

    recorder.start_recording();
    recorder.add_voice_data(vec![1, 2, 3, 4, 5]);
    recorder.add_voice_data(vec![6, 7, 8]);

    let (result, bytes) = recorder.get_available_voice();
    assert_eq!(result, VoiceResult::Done);
    assert_eq!(bytes, 8);
}

// =============================================================================
// VOX-008: Push-to-Talk
// =============================================================================

#[test]
fn vox_008_push_to_talk() {
    let mut recorder = VoiceRecorder::new();

    assert!(!recorder.is_ptt_active());

    recorder.set_ptt(true);
    assert!(recorder.is_ptt_active());

    recorder.set_ptt(false);
    assert!(!recorder.is_ptt_active());
}

// =============================================================================
// VOX-009: Voice Activity Detection
// =============================================================================

#[test]
fn vox_009_voice_activity_detection() {
    let mut recorder = VoiceRecorder::new();

    assert!(recorder.is_vad_enabled());

    recorder.set_vad_enabled(false);
    assert!(!recorder.is_vad_enabled());
}

// =============================================================================
// VOX-010: Mute Self
// =============================================================================

#[test]
fn vox_010_mute_self() {
    let mut recorder = VoiceRecorder::new();

    assert!(!recorder.is_muted());

    recorder.set_muted(true);
    assert!(recorder.is_muted());

    // Starting recording while muted should fail
    let result = recorder.start_recording();
    assert_eq!(result, VoiceResult::Restricted);
}

#[test]
fn vox_010_mute_during_recording() {
    let mut recorder = VoiceRecorder::new();

    recorder.start_recording();
    assert_eq!(recorder.state(), VoiceRecordingState::Recording);

    recorder.set_muted(true);
    assert_eq!(recorder.state(), VoiceRecordingState::Paused);
}

// =============================================================================
// Additional Tests
// =============================================================================

#[test]
fn voice_packet_creation() {
    let mut recorder = VoiceRecorder::new();
    recorder.start_recording();

    let packet1 = recorder.create_packet(test_steam_id(), vec![1, 2, 3]);
    let packet2 = recorder.create_packet(test_steam_id(), vec![4, 5, 6]);

    assert_eq!(packet1.sequence, 0);
    assert_eq!(packet2.sequence, 1);
    assert_eq!(packet1.sender, test_steam_id());
}

#[test]
fn jitter_buffer_ordering() {
    let mut decompressor = VoiceDecompressor::new(16000);

    // Add packets out of order
    let packet2 = VoicePacket {
        sender: test_steam_id(),
        sequence: 2,
        data: vec![2],
        timestamp_ms: 200,
    };
    let packet0 = VoicePacket {
        sender: test_steam_id(),
        sequence: 0,
        data: vec![0],
        timestamp_ms: 0,
    };
    let packet1 = VoicePacket {
        sender: test_steam_id(),
        sequence: 1,
        data: vec![1],
        timestamp_ms: 100,
    };

    decompressor.add_packet(packet2);
    decompressor.add_packet(packet0);
    decompressor.add_packet(packet1);

    // Should come out in order
    assert_eq!(decompressor.get_next_packet().unwrap().sequence, 0);
    assert_eq!(decompressor.get_next_packet().unwrap().sequence, 1);
    assert_eq!(decompressor.get_next_packet().unwrap().sequence, 2);
}

#[test]
fn no_data_when_muted() {
    let mut recorder = VoiceRecorder::new();

    recorder.start_recording();
    recorder.set_muted(true);
    recorder.add_voice_data(vec![1, 2, 3]); // Should be ignored

    // Unmute and try to record again
    recorder.set_muted(false);
    recorder.start_recording();
    
    let (result, _) = recorder.get_available_voice();
    assert_eq!(result, VoiceResult::NoData);
}
