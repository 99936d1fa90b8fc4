//! Load-engine core of a JSON-RPC load generator: configuration model, request
//! payloads, request builders, rate pacing, confirmation tracking, WebSocket
//! subscription bookkeeping and streaming statistics.

// data model and wire formats
pub mod types;
pub mod encoding;
pub mod payload;
pub mod extractor;
pub mod instruction;
pub mod chain;
pub mod json;

// the engine's parts
mod random;
pub mod requests;
pub mod rate;
pub mod confirmation;
pub mod websocket;
pub mod pool;
pub mod engine;

// measurements
pub mod stats;
pub mod results;
