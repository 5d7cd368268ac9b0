//! The errors of the wallet transport.
use vstd::prelude::*;

verus! {

/// The error `hex::FromHexError`, carried as it is.
#[verifier::external_type_specification]
#[verifier::external_body]
pub struct ExFromHexError(hex::FromHexError);

/// The error `serde_json::Error`, carried as it is.
#[verifier::external_type_specification]
#[verifier::external_body]
pub struct ExSerdeJsonError(serde_json::Error);

/// What can go wrong when talking to the injected EIP-1193 provider.
#[derive(Debug)]
pub enum Eip1193Error {
    /// The request failed; the text describes the JavaScript value thrown.
    JsValueError(String),
    /// No `window.ethereum` was found.
    JsNoEthereum,
    /// The provider's answer could not be read.
    JsParseError,
    /// Not implemented yet.
    Unimplemented,
    /// A JSON (de)serialisation error.
    SerdeJson(serde_json::Error),
    /// A hexadecimal decoding error.
    HexError(hex::FromHexError),
}

/// What can go wrong when connecting a wallet.
#[derive(Debug)]
pub enum EthereumError {
    /// The wallet asked for is not available in this browser.
    Unavailable,
    /// No wallet is connected.
    NotConnected,
    /// A wallet is connected already.
    AlreadyConnected,
    /// A hexadecimal decoding error.
    HexError(hex::FromHexError),
    /// An error of the injected provider.
    Eip1193Error(Eip1193Error),
}

} // verus!
