//! The one error type of the library.

use vstd::prelude::*;
use vstd::string::*;

verus! {

/// What a node's answer was expected to hold and did not.
#[derive(Clone, Copy, Debug, PartialEq, Eq, Structural)]
pub enum Field {
    /// `blocks` of the chain information, a non-negative integer.
    BlockHeight,
    /// The block hash, a string.
    BlockHash,
    /// `tx` of a block, an array.
    Transactions,
    /// `txid` of a transaction, a string.
    Txid,
    /// `vin` of a transaction, an array.
    Vin,
    /// `vout` of a transaction, an array.
    Vout,
}

/// Why a call or a scan failed.
#[derive(Debug, PartialEq, Eq)]
pub enum RpcError {
    /// The HTTP exchange itself did not complete; the text says why.
    Transport(String),
    /// The node answered with an error; the text is its message.
    Rejected(String),
    /// The node answered, but the answer lacks what was asked for.
    Malformed(Field),
}

/// What an [`RpcError`] holds, as a mathematical value.
pub enum RpcErrorView {
    Transport(Seq<char>),
    Rejected(Seq<char>),
    Malformed(Field),
}

impl View for RpcError {
    type V = RpcErrorView;

    open spec fn view(&self) -> RpcErrorView {
        match self {
            RpcError::Transport(reason) => RpcErrorView::Transport(reason@),
            RpcError::Rejected(message) => RpcErrorView::Rejected(message@),
            RpcError::Malformed(field) => RpcErrorView::Malformed(*field),
        }
    }
}

impl Field {
    /// What `label` returns, as characters.
    pub open spec fn spec_label(self) -> Seq<char> {
        match self {
            Field::BlockHeight => "block height"@,
            Field::BlockHash => "block hash"@,
            Field::Transactions => "transactions"@,
            Field::Txid => "txid"@,
            Field::Vin => "vin"@,
            Field::Vout => "vout"@,
        }
    }

    /// The words that name the field in a message.
    pub fn label(self) -> (words: &'static str)
        ensures
            words@ == self.spec_label(),
    {
        match self {
            Field::BlockHeight => "block height",
            Field::BlockHash => "block hash",
            Field::Transactions => "transactions",
            Field::Txid => "txid",
            Field::Vin => "vin",
            Field::Vout => "vout",
        }
    }
}

impl RpcErrorView {
    /// The text shown for the error.
    pub open spec fn message(self) -> Seq<char> {
        match self {
            RpcErrorView::Transport(reason) => reason,
            RpcErrorView::Rejected(message) => "RPC error: "@ + message,
            RpcErrorView::Malformed(field) => "Failed to parse "@ + field.spec_label(),
        }
    }
}

impl RpcError {
    /// The text shown for the error.
    pub fn message(&self) -> (text: String)
        ensures
            text@ == self@.message(),
    {
        match self {
            RpcError::Transport(reason) => reason.clone(),
            RpcError::Rejected(message) => {
                let mut text = String::from_str("RPC error: ");
                text.append(message.as_str());
                text
            },
            RpcError::Malformed(field) => {
                let mut text = String::from_str("Failed to parse ");
                text.append(field.label());
                text
            },
        }
    }
}

impl Clone for RpcError {
    fn clone(&self) -> (copy: RpcError)
        ensures
            copy@ == self@,
    {
        match self {
            RpcError::Transport(reason) => RpcError::Transport(reason.clone()),
            RpcError::Rejected(message) => RpcError::Rejected(message.clone()),
            RpcError::Malformed(field) => RpcError::Malformed(*field),
        }
    }
}

} // verus!
