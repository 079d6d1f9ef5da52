//! Catalog lookup for a board-game café: substring search over an in-memory
//! catalog, MarkdownV2 rendering of the hits, and packing of the rendered
//! entries into one message under the transport's byte limit.

pub mod batcher;
pub mod board_games;
pub mod diagnostics;
pub mod markdown;
pub mod router;
pub mod search;
pub mod substring;
pub mod telemetry;
pub mod text;
