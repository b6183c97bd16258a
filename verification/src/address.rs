//! Addresses: silent payment addresses, ordinary Bitcoin addresses, and the
//! receiver that gives a wallet its own two addresses.

use vstd::prelude::*;
use bitcoin::secp256k1::{PublicKey, Scalar, SecretKey};
use silentpayments::receiving::{Label, Receiver as SpReceiver};
use silentpayments::sending::SilentPaymentAddress;

verus! {

/// Version of the silent payment addresses that the wallet produces.
pub const SP_VERSION: u32 = 0;

/// Index of the label that marks the wallet's change.
pub const CHANGE_LABEL_INDEX: u32 = 0;

/// A silent payment address, as a mathematical value.
pub struct SpAddressView {
    /// The compressed scan public key.
    pub scan_pubkey: Seq<u8>,
    /// The compressed spend public key, with the label where there is one.
    pub m_pubkey: Seq<u8>,
    /// Whether the address is one of a test network.
    pub is_testnet: bool,
    /// The address in its canonical text.
    pub encoded: Seq<char>,
}

/// A silent payment address that was read from a string.
#[derive(Clone, Debug, PartialEq, Eq)]
pub struct SpAddress {
    /// The compressed scan public key.
    pub scan_pubkey: [u8; 33],
    /// The compressed spend public key, with the label where there is one.
    pub m_pubkey: [u8; 33],
    /// Whether the address is one of a test network.
    pub is_testnet: bool,
    /// The address in its canonical text.
    pub encoded: String,
}

impl View for SpAddress {
    type V = SpAddressView;

    open spec fn view(&self) -> SpAddressView {
        SpAddressView {
            scan_pubkey: self.scan_pubkey@,
            m_pubkey: self.m_pubkey@,
            is_testnet: self.is_testnet,
            encoded: self.encoded@,
        }
    }
}

impl SpAddressView {
    /// Whether two addresses have the same keys and network.
    pub open spec fn same_keys(self, other: SpAddressView) -> bool {
        &&& self.scan_pubkey == other.scan_pubkey
        &&& self.m_pubkey == other.m_pubkey
        &&& self.is_testnet == other.is_testnet
    }
}

/// An ordinary Bitcoin address, as a mathematical value.
pub struct AddressView {
    /// Whether the address is one of the main network.
    pub is_mainnet: bool,
    /// The script that pays to the address.
    pub script_pubkey: Seq<u8>,
}

/// An ordinary Bitcoin address that was read from a string.
#[derive(Clone, Debug, PartialEq, Eq)]
pub struct Address {
    /// Whether the address is one of the main network.
    pub is_mainnet: bool,
    /// The script that pays to the address.
    pub script_pubkey: Vec<u8>,
}

impl View for Address {
    type V = AddressView;

    open spec fn view(&self) -> AddressView {
        AddressView { is_mainnet: self.is_mainnet, script_pubkey: self.script_pubkey@ }
    }
}

/// The public half of a silent payment wallet, as a mathematical value.
pub struct ReceiverView {
    /// The version of the addresses.
    pub version: u32,
    /// The compressed scan public key.
    pub scan_pubkey: Seq<u8>,
    /// The compressed spend public key.
    pub spend_pubkey: Seq<u8>,
    /// The scalar of the label that marks change.
    pub change_label: Seq<u8>,
    /// Whether the wallet is one of a test network.
    pub is_testnet: bool,
}

/// The public half of a silent payment wallet: what its addresses are made of.
#[derive(Clone, Copy, Debug, PartialEq, Eq)]
pub struct Receiver {
    /// The version of the addresses.
    pub version: u32,
    /// The compressed scan public key.
    pub scan_pubkey: [u8; 33],
    /// The compressed spend public key.
    pub spend_pubkey: [u8; 33],
    /// The scalar of the label that marks change.
    pub change_label: [u8; 32],
    /// Whether the wallet is one of a test network.
    pub is_testnet: bool,
}

impl View for Receiver {
    type V = ReceiverView;

    open spec fn view(&self) -> ReceiverView {
        ReceiverView {
            version: self.version,
            scan_pubkey: self.scan_pubkey@,
            spend_pubkey: self.spend_pubkey@,
            change_label: self.change_label@,
            is_testnet: self.is_testnet,
        }
    }
}

/// The silent payment address that `SilentPaymentAddress::try_from` reads from
/// a string, if it reads one.
pub uninterp spec fn sp_address_of(s: Seq<char>) -> Option<SpAddressView>;

/// The Bitcoin address that `bitcoin::Address::from_str` reads from a string,
/// if it reads one.
pub uninterp spec fn address_of(s: Seq<char>) -> Option<AddressView>;

/// The bytes that `bitcoin::consensus::serialize` writes for a string.
pub uninterp spec fn consensus_string(s: Seq<char>) -> Seq<u8>;

/// The string that `bitcoin::consensus::deserialize` reads from bytes, if it
/// reads one.
pub uninterp spec fn consensus_string_of(bytes: Seq<u8>) -> Option<Seq<char>>;

/// The scalar of the label that `Label::new` derives from a private scan key
/// and an index.
pub uninterp spec fn label_of(scan_key: Seq<u8>, m: u32) -> Seq<u8>;

/// Whether `Receiver::new` accepts the keys, the label and the version.
pub uninterp spec fn receiver_accepted(r: ReceiverView) -> bool;

/// The address that `Receiver::get_receiving_address` encodes.
pub uninterp spec fn receiving_address_of(r: ReceiverView) -> Seq<char>;

/// The address that `Receiver::get_change_address` encodes.
pub uninterp spec fn change_address_of(r: ReceiverView) -> Seq<char>;

/// Calls `SilentPaymentAddress::try_from` and hands out the fields of the
/// address and its canonical text. `None` stands for every parse error.
#[verifier::external_body]
pub(crate) fn parse_sp_address(s: &str) -> (r: Option<SpAddress>)
    ensures
        match r {
            Some(a) => sp_address_of(s@) == Some(a@),
            None => sp_address_of(s@) is None,
        },
{
    let a = SilentPaymentAddress::try_from(s).ok()?;
    Some(SpAddress {
        scan_pubkey: a.get_scan_key().serialize(),
        m_pubkey: a.get_spend_key().serialize(),
        is_testnet: a.is_testnet(),
        encoded: a.into(),
    })
}

/// Calls `bitcoin::Address::from_str` and hands out whether the network is the
/// main one and the script of the address. `None` stands for every parse
/// error.
#[verifier::external_body]
pub(crate) fn parse_address(s: &str) -> (r: Option<Address>)
    ensures
        match r {
            Some(a) => address_of(s@) == Some(a@),
            None => address_of(s@) is None,
        },
{
    let a: bitcoin::Address<bitcoin::address::NetworkUnchecked> = s.parse().ok()?;
    let is_mainnet = matches!(a.network(), bitcoin::Network::Bitcoin);
    Some(Address { is_mainnet, script_pubkey: a.assume_checked().script_pubkey().to_bytes() })
}

/// Calls `bitcoin::consensus::serialize` on a string.
#[verifier::external_body]
pub(crate) fn encode_string(s: &String) -> (r: Vec<u8>)
    ensures
        r@ == consensus_string(s@),
{
    bitcoin::consensus::serialize(s)
}

/// Calls `bitcoin::consensus::deserialize` for a string. `None` stands for
/// every decoding error.
#[verifier::external_body]
pub(crate) fn decode_string(bytes: &Vec<u8>) -> (r: Option<String>)
    ensures
        match r {
            Some(s) => consensus_string_of(bytes@) == Some(s@),
            None => consensus_string_of(bytes@) is None,
        },
{
    bitcoin::consensus::deserialize(bytes).ok()
}

/// Calls `Label::new`. `None` exactly where the bytes are no private key. The
/// outside function stops the program where the hash that it takes is not
/// below the curve order, which no known input brings about.
#[verifier::external_body]
pub(crate) fn change_label(scan_key: &[u8; 32], m: u32) -> (r: Option<[u8; 32]>)
    ensures
        r.is_some() == crate::keys::is_secret_key(scan_key@),
        r matches Some(l) ==> l@ == label_of(scan_key@, m),
{
    let sk = SecretKey::from_slice(scan_key).ok()?;
    Some(Label::new(sk, m).into_inner().to_be_bytes())
}

/// Whether `Receiver::new` accepts the receiver's fields.
#[verifier::external_body]
pub(crate) fn check_receiver(r: &Receiver) -> (ok: bool)
    ensures
        ok == receiver_accepted(r@),
{
    let scan = PublicKey::from_slice(&r.scan_pubkey).ok();
    let spend = PublicKey::from_slice(&r.spend_pubkey).ok();
    let label = Scalar::from_be_bytes(r.change_label).ok().map(Label::from);
    match (scan, spend, label) {
        (Some(scan), Some(spend), Some(label)) => {
            SpReceiver::new(r.version, scan, spend, label, r.is_testnet).is_ok()
        },
        _ => false,
    }
}

/// Calls `Receiver::get_receiving_address` on the receiver that `Receiver::new`
/// makes of the fields. `None` exactly where it makes none.
#[verifier::external_body]
pub(crate) fn receiving_address(r: &Receiver) -> (a: Option<String>)
    ensures
        a.is_some() == receiver_accepted(r@),
        a matches Some(s) ==> s@ == receiving_address_of(r@),
{
    let scan = PublicKey::from_slice(&r.scan_pubkey).ok()?;
    let spend = PublicKey::from_slice(&r.spend_pubkey).ok()?;
    let label = Label::from(Scalar::from_be_bytes(r.change_label).ok()?);
    let receiver = SpReceiver::new(r.version, scan, spend, label, r.is_testnet).ok()?;
    Some(receiver.get_receiving_address())
}

/// Calls `Receiver::get_change_address` on the receiver that `Receiver::new`
/// makes of the fields. `None` exactly where it makes none.
#[verifier::external_body]
pub(crate) fn change_address(r: &Receiver) -> (a: Option<String>)
    ensures
        a.is_some() == receiver_accepted(r@),
        a matches Some(s) ==> s@ == change_address_of(r@),
{
    let scan = PublicKey::from_slice(&r.scan_pubkey).ok()?;
    let spend = PublicKey::from_slice(&r.spend_pubkey).ok()?;
    let label = Label::from(Scalar::from_be_bytes(r.change_label).ok()?);
    let receiver = SpReceiver::new(r.version, scan, spend, label, r.is_testnet).ok()?;
    Some(receiver.get_change_address())
}

/// Whether two arrays of 33 bytes hold the same bytes.
pub fn bytes33_eq(a: &[u8; 33], b: &[u8; 33]) -> (r: bool)
    ensures
        r == (a@ == b@),
{
    let mut i: usize = 0;
    while i < 33
        invariant
            i <= 33,
            forall|j: int| 0 <= j < i ==> a@[j] == b@[j],
        decreases 33 - i,
    {
        if a[i] != b[i] {
            return false;
        }
        i += 1;
    }
    assert(a@ =~= b@);
    true
}

impl Receiver {
    /// The address under which the wallet receives, where the keys and the
    /// label give a receiver.
    pub fn get_receiving_address(&self) -> (a: Option<String>)
        ensures
            a.is_some() == receiver_accepted(self@),
            a matches Some(s) ==> s@ == receiving_address_of(self@),
    {
        receiving_address(self)
    }

    /// The address to which the wallet sends its change, where the keys and
    /// the label give a receiver. It is not meant to be shown.
    pub fn get_change_address(&self) -> (a: Option<String>)
        ensures
            a.is_some() == receiver_accepted(self@),
            a matches Some(s) ==> s@ == change_address_of(self@),
    {
        change_address(self)
    }
}

impl SpAddress {
    /// Whether two addresses have the same keys and network.
    pub fn same_keys(&self, other: &SpAddress) -> (r: bool)
        ensures
            r == self@.same_keys(other@),
    {
        self.is_testnet == other.is_testnet && bytes33_eq(
            &self.scan_pubkey,
            &other.scan_pubkey,
        ) && bytes33_eq(&self.m_pubkey, &other.m_pubkey)
    }
}

} // verus!
