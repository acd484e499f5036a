//! The REPE protocol: framing, routing, flow-controlled transfers, value
//! streams and the bookkeeping of its clients and servers.

use vstd::prelude::*;

pub mod text;
pub mod path;
pub mod structs;
pub mod constants;
pub mod error;
pub mod wire;
pub mod codec;
pub mod message;
pub mod stream;
pub mod value_stream;
pub mod peer;
pub mod handler;
pub mod mount;
pub mod typed;
pub mod server;
pub mod server_request;
pub mod websocket_limits;
pub mod websocket_server;
pub mod websocket_client;
pub mod wasm_client;
pub mod udp_client;
pub mod uniudp_fleet;

verus! {

} // verus!
