//! Streaming audio playback core: a chunk-cached byte source over HTTP range
//! requests, the playback engine's decision logic, and the player snapshot
//! that mirrors the engine's status events.

pub mod cpalaudio;
pub mod player;
pub mod player_engine;
pub mod url_source;
pub mod url_source_buff;
