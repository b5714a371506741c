//! Order-book stores fed by websocket market data.
pub mod default_ws_market_data_store;
pub mod ws_datastore;
