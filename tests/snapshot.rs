use url2audio::cpalaudio::ring_buffer_len;
use url2audio::player::PlayerState;
use url2audio::player_engine::{ChunkSpan, PlayerStatus, Playing};

#[test]
fn new_state_defaults() {
    let s = PlayerState::new();
    assert_eq!(s.playing, Playing::Playing);
    assert_eq!(s.position, 0);
    assert_eq!(s.duration, 0);
    assert_eq!(s.error, None);
    assert!(s.chunks.is_empty());
    assert!(!s.is_in_error_state());
}

#[test]
fn error_at_end_becomes_finished() {
    let mut s = PlayerState::new();
    s.apply(PlayerStatus::SendTimeStats(299_001, 300_000));
    s.apply(PlayerStatus::Error("anything".to_string()));
    assert_eq!(s.playing, Playing::Finished);
    assert_eq!(s.error, None);
}

#[test]
fn error_before_end_is_latched_until_clear() {
    let mut s = PlayerState::new();
    s.apply(PlayerStatus::SendTimeStats(298_999, 300_000));
    s.apply(PlayerStatus::Error("network".to_string()));
    assert_eq!(s.playing, Playing::Playing);
    assert_eq!(s.error, Some("network".to_string()));
    s.apply(PlayerStatus::SendPlaying(Playing::Paused));
    assert_eq!(s.error, Some("network".to_string()));
    s.apply(PlayerStatus::ClearError);
    assert_eq!(s.error, None);
}

#[test]
fn finished_clears_latched_error() {
    let mut s = PlayerState::new();
    s.apply(PlayerStatus::SendTimeStats(1000, 300_000));
    s.apply(PlayerStatus::Error("decode error".to_string()));
    s.apply(PlayerStatus::SendPlaying(Playing::Finished));
    assert_eq!(s.playing, Playing::Finished);
    assert_eq!(s.error, None);
}

#[test]
fn chunks_accumulate_in_order_and_clear_on_open() {
    let mut s = PlayerState::new();
    let a = ChunkSpan { start: 0, end: 65536, total: 1_000_000 };
    let b = ChunkSpan { start: 131072, end: 196608, total: 1_000_000 };
    s.apply_all(vec![PlayerStatus::ChunkAdded(a), PlayerStatus::ChunkAdded(b)]);
    assert_eq!(s.chunks, vec![a, b]);
    s.apply(PlayerStatus::ClearError);
    assert!(s.chunks.is_empty());
}

#[test]
fn ring_buffer_holds_200_ms() {
    assert_eq!(ring_buffer_len(44100, 2), 17640);
    assert_eq!(ring_buffer_len(48000, 1), 9600);
    assert_eq!(ring_buffer_len(0, 2), 0);
    assert_eq!(ring_buffer_len(u32::MAX, u32::MAX), 858993459 * u32::MAX as u64);
}
