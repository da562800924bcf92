//! Screening of recent Bitcoin blocks for transactions with many inputs and
//! many outputs, the coarse mark of a CoinJoin.
//!
//! The library holds everything that is decided: what is sent to a node for
//! a call and what its answer means ([`rpc`]), which transactions of a block
//! are reported ([`classify`]), and which call a scan makes next
//! ([`scanner`]). It never opens a connection. The caller makes each call
//! that a [`Step`] asks for and hands back what the node gave.

pub mod classify;
pub mod error;
pub mod json;
pub mod rpc;
pub mod scan;
pub mod scanner;

pub use classify::{is_coinbase_transaction, scan_block, SuspiciousTransaction};
pub use error::{Field, RpcError};
pub use json::{Json, Number};
pub use rpc::{read_block_hash, read_latest_height, read_response, Request};
pub use scanner::{lowest_height, Scanner, Step};
