//! Verified core of a browser (EIP-1193) Ethereum wallet transport: the
//! connection state machine and the events it hands out, the parsing of the
//! wallet's notifications, the parameters sent to the injected provider and
//! the answers made of what it returns.
pub mod address;
pub mod chain_id;
pub mod eip1193;
pub mod errors;
pub mod json;
pub mod provider;
pub mod rpc;
pub mod transport;

pub use address::{accounts_from_text, Address};
pub use chain_id::parse_chain_id;
pub use eip1193::{
    join_responses, parse_params, response_payload, Eip1193, Eip1193Request, ErrorPayload,
    ResponsePayload,
};
pub use errors::{Eip1193Error, EthereumError};
pub use json::JsonValue;
pub use provider::Provider;
pub use transport::{BrowserTransport, Event, WalletType, WebProvider};
