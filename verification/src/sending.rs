//! The sender's side of silent payments: from the private keys of the inputs
//! to the output keys of each recipient.

use vstd::prelude::*;
use bitcoin::secp256k1::SecretKey;

verus! {

/// The private key of an input, as a mathematical value.
pub struct InputKeyView {
    /// The 32 bytes of the private key.
    pub key: Seq<u8>,
    /// Whether the input spends a taproot output.
    pub is_taproot: bool,
}

/// The private key of an input.
#[derive(Clone, Copy, Debug)]
pub struct InputKey {
    /// The 32 bytes of the private key.
    pub key: [u8; 32],
    /// Whether the input spends a taproot output.
    pub is_taproot: bool,
}

impl View for InputKey {
    type V = InputKeyView;

    open spec fn view(&self) -> InputKeyView {
        InputKeyView { key: self.key@, is_taproot: self.is_taproot }
    }
}

/// An outpoint with its transaction id as text, as a mathematical value.
pub struct OutpointTextView {
    /// The transaction id as it is displayed.
    pub txid: Seq<char>,
    /// The index of the output.
    pub vout: u32,
}

/// An outpoint with its transaction id as text.
#[derive(Debug)]
pub struct OutpointText {
    /// The transaction id as it is displayed.
    pub txid: String,
    /// The index of the output.
    pub vout: u32,
}

impl View for OutpointText {
    type V = OutpointTextView;

    open spec fn view(&self) -> OutpointTextView {
        OutpointTextView { txid: self.txid@, vout: self.vout }
    }
}

/// The output keys of one silent payment address, as a mathematical value.
pub struct AddressKeysView {
    /// The address in its canonical text.
    pub address: Seq<char>,
    /// The output keys, in the order in which they are to be used.
    pub keys: Seq<Seq<u8>>,
}

/// The output keys of one silent payment address.
#[derive(Debug)]
pub struct AddressKeys {
    /// The address in its canonical text.
    pub address: String,
    /// The output keys, in the order in which they are to be used.
    pub keys: Vec<[u8; 32]>,
}

impl View for AddressKeys {
    type V = AddressKeysView;

    open spec fn view(&self) -> AddressKeysView {
        AddressKeysView {
            address: self.address@,
            keys: self.keys@.map_values(|k: [u8; 32]| k@),
        }
    }
}

/// The views of a sequence of input keys.
pub open spec fn input_keys_view(v: Seq<InputKey>) -> Seq<InputKeyView> {
    v.map_values(|k: InputKey| k@)
}

/// The views of a sequence of outpoints.
pub open spec fn outpoint_texts_view(v: Seq<OutpointText>) -> Seq<OutpointTextView> {
    v.map_values(|o: OutpointText| o@)
}

/// The views of a sequence of strings.
pub open spec fn texts_view(v: Seq<String>) -> Seq<Seq<char>> {
    v.map_values(|s: String| s@)
}

/// The views of a list of output keys by address.
pub open spec fn listing_view(v: Seq<AddressKeys>) -> Seq<AddressKeysView> {
    v.map_values(|k: AddressKeys| k@)
}

/// Entry `i` of a list is the one of address `a`.
pub open spec fn is_listed_at(v: Seq<AddressKeysView>, a: Seq<char>, i: int) -> bool {
    0 <= i < v.len() && v[i].address == a
}

/// No two entries of a list have the same address.
pub open spec fn distinct_addresses(v: Seq<AddressKeysView>) -> bool {
    forall|i: int, j: int| 0 <= i < j < v.len() ==> v[i].address != v[j].address
}

/// The map from each address of a list to its output keys.
pub open spec fn keys_map(v: Seq<AddressKeysView>) -> Map<Seq<char>, Seq<Seq<u8>>> {
    Map::new(
        |a: Seq<char>| exists|i: int| is_listed_at(v, a, i),
        |a: Seq<char>| v[choose|i: int| is_listed_at(v, a, i)].keys,
    )
}

/// The partial secret that `calculate_partial_secret` computes from the
/// private keys of the inputs and the outpoints that they spend, if it
/// computes one.
pub uninterp spec fn partial_secret_of(
    keys: Seq<InputKeyView>,
    outpoints: Seq<OutpointTextView>,
) -> Option<Seq<u8>>;

/// The output keys that `generate_recipient_pubkeys` derives for each address
/// among the recipients, if it derives them.
pub uninterp spec fn recipient_keys_of(
    addresses: Seq<Seq<char>>,
    partial_secret: Seq<u8>,
) -> Option<Map<Seq<char>, Seq<Seq<u8>>>>;

/// Calls `silentpayments::utils::sending::calculate_partial_secret`. `None`
/// stands for a key that is out of range and for every error of the call. The
/// outside function stops the program where the hash of the inputs is not
/// below the curve order, which no known input brings about.
#[verifier::external_body]
pub(crate) fn partial_secret(keys: &Vec<InputKey>, outpoints: &Vec<OutpointText>) -> (r: Option<
    [u8; 32],
>)
    ensures
        match r {
            Some(s) => partial_secret_of(input_keys_view(keys@), outpoint_texts_view(outpoints@))
                == Some(s@),
            None => partial_secret_of(input_keys_view(keys@), outpoint_texts_view(outpoints@))
                is None,
        },
{
    let keys: Option<Vec<(SecretKey, bool)>> = keys.iter().map(
        |k| SecretKey::from_slice(&k.key).ok().map(|s| (s, k.is_taproot)),
    ).collect();
    let outpoints: Vec<(String, u32)> =
        outpoints.iter().map(|o| (o.txid.clone(), o.vout)).collect();
    let secret = silentpayments::utils::sending::calculate_partial_secret(&keys?, &outpoints);
    secret.ok().map(|s| s.secret_bytes())
}

/// Calls `silentpayments::sending::generate_recipient_pubkeys` and lists the
/// map that it returns, in no particular order. `None` stands for a partial
/// secret that is out of range and for every error of the call.
#[verifier::external_body]
pub(crate) fn recipient_pubkeys(addresses: Vec<String>, partial_secret: &[u8; 32]) -> (r: Option<
    Vec<AddressKeys>,
>)
    ensures
        match r {
            Some(v) => distinct_addresses(listing_view(v@)) && recipient_keys_of(
                texts_view(addresses@),
                partial_secret@,
            ) == Some(keys_map(listing_view(v@))),
            None => recipient_keys_of(texts_view(addresses@), partial_secret@) is None,
        },
{
    let secret = SecretKey::from_slice(partial_secret).ok()?;
    let map = silentpayments::sending::generate_recipient_pubkeys(addresses, secret).ok()?;
    Some(map.into_iter().map(|(address, keys)| AddressKeys {
        address,
        keys: keys.iter().map(|k| k.serialize()).collect(),
    }).collect())
}

/// With distinct addresses, the entry of an address is at one index only, and
/// the map holds its keys.
pub proof fn lemma_listed_unique(v: Seq<AddressKeysView>, a: Seq<char>, i: int)
    requires
        distinct_addresses(v),
        is_listed_at(v, a, i),
    ensures
        keys_map(v).contains_key(a),
        keys_map(v)[a] == v[i].keys,
{
    let j = choose|j: int| is_listed_at(v, a, j);
    if j < i {
    } else if i < j {
    }
}

/// The index of the entry of an address in a list, if there is one.
pub fn find_address(keys: &Vec<AddressKeys>, address: &String) -> (r: Option<usize>)
    ensures
        match r {
            Some(i) => is_listed_at(listing_view(keys@), address@, i as int),
            None => !keys_map(listing_view(keys@)).contains_key(address@),
        },
{
    let mut i: usize = 0;
    while i < keys.len()
        invariant
            i <= keys.len(),
            forall|j: int| 0 <= j < i ==> !is_listed_at(listing_view(keys@), address@, j),
        decreases keys.len() - i,
    {
        if keys[i].address == *address {
            return Some(i);
        }
        i += 1;
    }
    None
}

} // verus!
