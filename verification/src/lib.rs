//! A per-connection push service for OHLCV price candles.
//!
//! The library holds the verified core of the service: the wire codec for
//! candle data (a JSON subset, produced and consumed byte by byte), the
//! fetch gateway's error normalization, and the per-connection supervisor
//! state machine that decides, for every event a connection can see, the
//! next state and the frames to send.

pub mod candle;
pub mod codec;
pub mod gateway;
pub mod numtok;
pub mod parse;
pub mod roundtrip;
pub mod supervisor;

pub use candle::Candle;
pub use candle::PriceUpdate;
pub use gateway::FetchError;
pub use gateway::FetchOutcome;
pub use gateway::fetch;
pub use supervisor::Action;
pub use supervisor::Event;
pub use supervisor::SupState;
pub use supervisor::step;
