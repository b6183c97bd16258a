//! The failures that the wallet reports.

use vstd::prelude::*;

verus! {

/// Why an operation of the wallet failed.
#[derive(Clone, Copy, Debug, PartialEq, Eq, Structural)]
pub enum Error {
    /// Malformed hex, outpoint, transaction or PSBT, or an amount that does
    /// not fit.
    InvalidInput,
    /// A string is neither a silent payment address nor a Bitcoin address, or
    /// a recipient asks for a number of outputs that its address cannot have.
    InvalidAddress,
    /// An address belongs to another network than the wallet.
    NetworkMismatch,
    /// A tweak is missing, is not 32 bytes long, or is no scalar.
    InvalidTweak,
    /// The outputs spend more than the inputs hold.
    InsufficientFunds,
    /// What is left for change is not zero and too small for an output.
    DustChange,
    /// The inputs exceed the outputs by more than the dust threshold.
    MissingChange,
    /// The wallet holds no private spend key.
    WatchOnly,
    /// The outpoint is not among the owned outputs, or there is no wallet.
    NotFound,
    /// The owned output is not unspent.
    AlreadySpent,
    /// The owned output is already mined.
    AlreadyMined,
    /// No output of the transaction pays the address that should bear the fee.
    PayerNotInTx,
    /// Key derivation, key arithmetic or signing failed.
    Cryptographic,
    /// The seed phrase is no valid mnemonic.
    InvalidMnemonic,
    /// A derived output key was missing or left over.
    AssertionFailed,
}

impl Error {
    /// A short text for this failure.
    pub fn message(&self) -> (s: String)
        ensures
            s@ == self.text(),
    {
        match self {
            Error::InvalidInput => "Invalid input".to_owned(),
            Error::InvalidAddress => "Invalid address".to_owned(),
            Error::NetworkMismatch => "Wrong network for address".to_owned(),
            Error::InvalidTweak => "Invalid tweak".to_owned(),
            Error::InsufficientFunds => "Insufficient funds".to_owned(),
            Error::DustChange => "Change is dust".to_owned(),
            Error::MissingChange => "Missing a change output".to_owned(),
            Error::WatchOnly => "Watch-only wallet, can't spend".to_owned(),
            Error::NotFound => "owned outpoint not found".to_owned(),
            Error::AlreadySpent => "owned outpoint is already spent".to_owned(),
            Error::AlreadyMined => "owned outpoint is already mined".to_owned(),
            Error::PayerNotInTx => "Payer is not part of this transaction".to_owned(),
            Error::Cryptographic => "Cryptographic failure".to_owned(),
            Error::InvalidMnemonic => "Invalid mnemonic".to_owned(),
            Error::AssertionFailed => "Output keys do not match the outputs".to_owned(),
        }
    }

    /// The text of [`Error::message`].
    pub open spec fn text(&self) -> Seq<char> {
        match self {
            Error::InvalidInput => "Invalid input"@,
            Error::InvalidAddress => "Invalid address"@,
            Error::NetworkMismatch => "Wrong network for address"@,
            Error::InvalidTweak => "Invalid tweak"@,
            Error::InsufficientFunds => "Insufficient funds"@,
            Error::DustChange => "Change is dust"@,
            Error::MissingChange => "Missing a change output"@,
            Error::WatchOnly => "Watch-only wallet, can't spend"@,
            Error::NotFound => "owned outpoint not found"@,
            Error::AlreadySpent => "owned outpoint is already spent"@,
            Error::AlreadyMined => "owned outpoint is already mined"@,
            Error::PayerNotInTx => "Payer is not part of this transaction"@,
            Error::Cryptographic => "Cryptographic failure"@,
            Error::InvalidMnemonic => "Invalid mnemonic"@,
            Error::AssertionFailed => "Output keys do not match the outputs"@,
        }
    }
}

} // verus!
