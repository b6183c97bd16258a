//! From a seed phrase to the scan key and the spend key of a wallet.

use vstd::prelude::*;
use bitcoin::bip32::{DerivationPath, Xpriv};
use bitcoin::secp256k1::Secp256k1;
use crate::error::Error;
use crate::keys::is_secret_key;

verus! {

/// Number of words of the seed phrases that the wallet makes.
pub const MNEMONIC_WORDS: usize = 12;

/// The path of the scan key on the main network.
pub const MAINNET_SCAN_PATH: &'static str = "m/352h/0h/0h/1h/0";

/// The path of the spend key on the main network.
pub const MAINNET_SPEND_PATH: &'static str = "m/352h/0h/0h/0h/0";

/// The path of the scan key on a test network.
pub const TESTNET_SCAN_PATH: &'static str = "m/352h/1h/0h/1h/0";

/// The path of the spend key on a test network.
pub const TESTNET_SPEND_PATH: &'static str = "m/352h/1h/0h/0h/0";

/// The path of the scan key.
pub open spec fn scan_path(is_testnet: bool) -> Seq<char> {
    if is_testnet {
        TESTNET_SCAN_PATH@
    } else {
        MAINNET_SCAN_PATH@
    }
}

/// The path of the spend key.
pub open spec fn spend_path(is_testnet: bool) -> Seq<char> {
    if is_testnet {
        TESTNET_SPEND_PATH@
    } else {
        MAINNET_SPEND_PATH@
    }
}

/// The words of the seed phrase that `Mnemonic::parse` reads from a string,
/// joined by single spaces, if it reads one.
pub uninterp spec fn mnemonic_of(phrase: Seq<char>) -> Option<Seq<char>>;

/// The 64 bytes of the seed that `Mnemonic::to_seed` computes from a seed
/// phrase and a passphrase, if the phrase is one.
pub uninterp spec fn seed_of(phrase: Seq<char>, passphrase: Seq<char>) -> Option<Seq<u8>>;

/// The private key at a path below the master key of a seed, as
/// `Xpriv::derive_priv` computes it, if it computes one.
pub uninterp spec fn child_key_of(seed: Seq<u8>, is_testnet: bool, path: Seq<char>) -> Option<
    Seq<u8>,
>;

/// The seed phrase in its canonical text, the scan key and the spend key that
/// belong to a seed phrase and a passphrase on a network.
///
/// `InvalidMnemonic` where the phrase is none, `Cryptographic` where a key
/// cannot be derived.
pub open spec fn keys_of(phrase: Seq<char>, passphrase: Seq<char>, is_testnet: bool) -> Result<
    (Seq<char>, Seq<u8>, Seq<u8>),
    Error,
> {
    match (mnemonic_of(phrase), seed_of(phrase, passphrase)) {
        (Some(words), Some(seed)) => match keys_of_seed(seed, is_testnet) {
            Ok((scan, spend)) => Ok((words, scan, spend)),
            Err(e) => Err(e),
        },
        _ => Err(Error::InvalidMnemonic),
    }
}

/// The scan key and the spend key below the master key of a seed: on the main
/// network at `m/352'/0'/0'/1'/0` and `m/352'/0'/0'/0'/0`, on a test network
/// at `m/352'/1'/0'/1'/0` and `m/352'/1'/0'/0'/0`.
pub open spec fn keys_of_seed(seed: Seq<u8>, is_testnet: bool) -> Result<
    (Seq<u8>, Seq<u8>),
    Error,
> {
    match (
        child_key_of(seed, is_testnet, scan_path(is_testnet)),
        child_key_of(seed, is_testnet, spend_path(is_testnet)),
    ) {
        (Some(scan), Some(spend)) => Ok((scan, spend)),
        _ => Err(Error::Cryptographic),
    }
}

/// Calls `Mnemonic::generate`, which draws the words at random, and hands out
/// the phrase as it is displayed. `None` stands for every error.
#[verifier::external_body]
pub(crate) fn generate_mnemonic(word_count: usize) -> (r: Option<String>) {
    bip39::Mnemonic::generate(word_count).ok().map(|m| m.to_string())
}

/// Calls `Mnemonic::parse` and hands out the phrase as it is displayed. `None`
/// stands for every parse error.
#[verifier::external_body]
pub(crate) fn parse_mnemonic(phrase: &str) -> (r: Option<String>)
    ensures
        match r {
            Some(m) => mnemonic_of(phrase@) == Some(m@),
            None => mnemonic_of(phrase@) is None,
        },
{
    bip39::Mnemonic::parse(phrase).ok().map(|m| m.to_string())
}

/// Calls `Mnemonic::to_seed` on the phrase that `Mnemonic::parse` reads.
/// `None` stands for every parse error.
#[verifier::external_body]
pub(crate) fn mnemonic_seed(phrase: &str, passphrase: &str) -> (r: Option<[u8; 64]>)
    ensures
        match r {
            Some(s) => seed_of(phrase@, passphrase@) == Some(s@),
            None => seed_of(phrase@, passphrase@) is None,
        },
{
    bip39::Mnemonic::parse(phrase).ok().map(|m| m.to_seed(passphrase))
}

/// Calls `Xpriv::derive_priv` on the master key that `Xpriv::new_master` makes
/// of the seed, for the path that `DerivationPath::from_str` reads. `None`
/// stands for every error. What comes back is the private key of an extended
/// key, a `SecretKey`, so that it is in range. The outside function stops the
/// program where a hash that it takes gives no key, which no known input
/// brings about.
#[verifier::external_body]
pub(crate) fn derive_child(seed: &[u8; 64], is_testnet: bool, path: &str) -> (r: Option<[u8; 32]>)
    ensures
        match r {
            Some(k) => child_key_of(seed@, is_testnet, path@) == Some(k@) && is_secret_key(k@),
            None => child_key_of(seed@, is_testnet, path@) is None,
        },
{
    let network = match is_testnet {
        true => bitcoin::Network::Testnet,
        false => bitcoin::Network::Bitcoin,
    };
    let master = Xpriv::new_master(network, seed).ok()?;
    let path: DerivationPath = path.parse().ok()?;
    let child = master.derive_priv(&Secp256k1::signing_only(), &path).ok()?;
    Some(child.private_key.secret_bytes())
}

/// The scan key and the spend key below the master key of a seed.
pub fn derive_keys_from_seed(seed: &[u8; 64], is_testnet: bool) -> (r: Result<
    ([u8; 32], [u8; 32]),
    Error,
>)
    ensures
        match r {
            Ok((scan, spend)) => is_secret_key(scan@) && is_secret_key(spend@) && keys_of_seed(
                seed@,
                is_testnet,
            ) == Ok::<(Seq<u8>, Seq<u8>), Error>((scan@, spend@)),
            Err(e) => keys_of_seed(seed@, is_testnet) == Err::<(Seq<u8>, Seq<u8>), Error>(e),
        },
{
    let (scan_path, spend_path) = if is_testnet {
        (TESTNET_SCAN_PATH, TESTNET_SPEND_PATH)
    } else {
        (MAINNET_SCAN_PATH, MAINNET_SPEND_PATH)
    };
    let scan_privkey = derive_child(seed, is_testnet, scan_path);
    let spend_privkey = derive_child(seed, is_testnet, spend_path);
    match (scan_privkey, spend_privkey) {
        (Some(scan), Some(spend)) => Ok((scan, spend)),
        _ => Err(Error::Cryptographic),
    }
}

/// The seed phrase in its canonical text, the scan key and the spend key that
/// belong to a seed phrase.
pub fn keys_from_mnemonic(phrase: &str, passphrase: &str, is_testnet: bool) -> (r: Result<
    (String, [u8; 32], [u8; 32]),
    Error,
>)
    ensures
        match r {
            Ok((words, scan, spend)) => is_secret_key(scan@) && is_secret_key(spend@) && keys_of(
                phrase@,
                passphrase@,
                is_testnet,
            ) == Ok::<(Seq<char>, Seq<u8>, Seq<u8>), Error>((words@, scan@, spend@)),
            Err(e) => keys_of(phrase@, passphrase@, is_testnet) == Err::<
                (Seq<char>, Seq<u8>, Seq<u8>),
                Error,
            >(e),
        },
{
    let words = parse_mnemonic(phrase);
    let seed = mnemonic_seed(phrase, passphrase);
    match (words, seed) {
        (Some(words), Some(seed)) => {
            let (scan, spend) = derive_keys_from_seed(&seed, is_testnet)?;
            Ok((words, scan, spend))
        },
        _ => Err(Error::InvalidMnemonic),
    }
}

/// The number of spaces in a text.
pub open spec fn count_spaces(s: Seq<char>) -> nat
    decreases s.len(),
{
    if s.len() == 0 {
        0
    } else {
        count_spaces(s.drop_last()) + if s.last() == ' ' {
            1nat
        } else {
            0nat
        }
    }
}

/// The number of words of a seed phrase in its canonical text, in which
/// single spaces part the words.
pub open spec fn word_count(s: Seq<char>) -> nat {
    count_spaces(s) + 1
}

/// Whether a seed phrase in its canonical text has `n` words.
pub fn has_word_count(phrase: &str, n: usize) -> (r: bool)
    ensures
        r == (word_count(phrase@) == n),
{
    let len = phrase.unicode_len();
    let mut spaces: usize = 0;
    let mut i: usize = 0;
    while i < len
        invariant
            i <= len,
            len == phrase@.len(),
            spaces == count_spaces(phrase@.take(i as int)),
            spaces <= i,
        decreases len - i,
    {
        proof {
            assert(phrase@.take(i as int + 1).drop_last() =~= phrase@.take(i as int));
        }
        if phrase.get_char(i) == ' ' {
            spaces += 1;
        }
        i += 1;
    }
    assert(phrase@.take(len as int) =~= phrase@);
    n > 0 && spaces == n - 1
}

/// The keys of a wallet from a seed phrase, or from a fresh seed phrase of
/// twelve words where the given one is empty.
///
/// For a given phrase the result is the one of [`keys_of`]. A fresh phrase is
/// drawn at random and handed back in its canonical text; the keys are the
/// keys of the phrase that is handed back, so that the wallet can be restored
/// from it. Where no phrase can be drawn, or what was drawn is no canonical
/// phrase of twelve words, the failure is `InvalidMnemonic`; where no key can
/// be derived, it is `Cryptographic`.
pub fn derive_keys_from_mnemonic(seedphrase: &str, passphrase: &str, is_testnet: bool) -> (r:
    Result<(String, [u8; 32], [u8; 32]), Error>)
    ensures
        match r {
            Ok((words, scan, spend)) => {
                &&& is_secret_key(scan@)
                &&& is_secret_key(spend@)
                &&& keys_of(restored_from(seedphrase@, words@), passphrase@, is_testnet) == Ok::<
                    (Seq<char>, Seq<u8>, Seq<u8>),
                    Error,
                >((words@, scan@, spend@))
                &&& seedphrase@.len() == 0 ==> word_count(words@) == MNEMONIC_WORDS
            },
            Err(e) => if seedphrase@.len() > 0 {
                keys_of(seedphrase@, passphrase@, is_testnet) == Err::<
                    (Seq<char>, Seq<u8>, Seq<u8>),
                    Error,
                >(e)
            } else {
                e == Error::InvalidMnemonic || e == Error::Cryptographic
            },
        },
{
    if seedphrase.is_empty() {
        let fresh = match generate_mnemonic(MNEMONIC_WORDS) {
            Some(f) => f,
            None => return Err(Error::InvalidMnemonic),
        };
        let (words, scan, spend) = keys_from_mnemonic(fresh.as_str(), passphrase, is_testnet)?;
        if words == fresh && has_word_count(words.as_str(), MNEMONIC_WORDS) {
            Ok((words, scan, spend))
        } else {
            Err(Error::InvalidMnemonic)
        }
    } else {
        keys_from_mnemonic(seedphrase, passphrase, is_testnet)
    }
}

/// The seed phrase whose keys a wallet has: the given one, or the one that
/// was handed back where none was given.
pub open spec fn restored_from(given: Seq<char>, handed_back: Seq<char>) -> Seq<char> {
    if given.len() > 0 {
        given
    } else {
        handed_back
    }
}

} // verus!
