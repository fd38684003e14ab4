//! Matching core of a trading venue: resting buy/sell interest is kept in
//! per-side books of price levels and executed against incoming aggressive
//! orders under price-time priority, with exact volume accounting.

pub mod book;
pub mod connectivity;
pub mod engine;
pub mod lob;
pub mod order;
pub mod pricelevel;
pub mod sequencer;
