//! A multi-client broadcast relay: clients receive an identifier, exchange
//! text with every other connected client, and are told of arrivals,
//! departures and shutdown.
pub mod text;
pub mod envelope;
mod outside;
pub mod pool;
pub mod session;
