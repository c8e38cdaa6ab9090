//! Decision agent for a ledger-hosted jukebox: reconciles the on-chain
//! "currently playing song" with off-chain song-duration metadata, decides
//! whether the current playback round has reached its resolution point, and
//! plans the ledger action that advances the round.

pub mod cache;
pub mod codec;
pub mod decision;
pub mod errors;
pub mod machine;
pub mod numbers;
pub mod resource;
pub mod spotify;
