//! What the wallet reports when it cannot go on.

use crate::noun::NounDecodeError;
use vstd::prelude::*;

verus! {

#[derive(Debug, PartialEq, Eq)]
pub enum WalletError {
    /// The wallet's state or a node's answer is not as it should be.
    OtherError(String),
    /// The same, with a text that goes on with the words for a malformed noun.
    OtherErrorFrom { text: String, cause: NounDecodeError },
    /// A command cannot be carried out as it was given.
    Unknown(String),
    /// A noun is not the value that was expected.
    Decode(NounDecodeError),
    /// A failure of the kernel or of a node, handed on in its own words.
    External(String),
}

pub enum WalletErrorView {
    OtherError(Seq<char>),
    OtherErrorFrom { text: Seq<char>, cause: NounDecodeError },
    Unknown(Seq<char>),
    Decode(NounDecodeError),
    External(Seq<char>),
}

impl View for WalletError {
    type V = WalletErrorView;

    open spec fn view(&self) -> WalletErrorView {
        match self {
            WalletError::OtherError(text) => WalletErrorView::OtherError(text@),
            WalletError::OtherErrorFrom { text, cause } => WalletErrorView::OtherErrorFrom {
                text: text@,
                cause: *cause,
            },
            WalletError::Unknown(text) => WalletErrorView::Unknown(text@),
            WalletError::Decode(err) => WalletErrorView::Decode(*err),
            WalletError::External(text) => WalletErrorView::External(text@),
        }
    }
}

} // verus!
