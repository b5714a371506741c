//! Exchange connectors: symbol and pair conventions, websocket topics and
//! subscription messages, and the reading of websocket market data.
pub mod exmo;
pub mod exmo_ws;
pub mod okx;
pub mod okx_ws;
pub mod pairs;
