use spwallet::derive::{
    derive_keys_from_mnemonic, derive_keys_from_seed, has_word_count, keys_from_mnemonic,
    MAINNET_SCAN_PATH, MAINNET_SPEND_PATH, MNEMONIC_WORDS, TESTNET_SCAN_PATH, TESTNET_SPEND_PATH,
};
use spwallet::error::Error;

const ZERO_SEED_PHRASE: &str =
    "abandon abandon abandon abandon abandon abandon abandon abandon abandon abandon abandon about";

fn hex(bytes: &[u8]) -> String {
    bytes.iter().map(|b| format!("{:02x}", b)).collect()
}

fn seed() -> [u8; 64] {
    let bytes: Vec<u8> = bitcoin::hashes::hex::FromHex::from_hex(
        "5eb00bbddcf069084889a8ab9155568165f5c453ccb85e70811aaed6f6da5fc1\
         9a5ac40b389cd370d086206dec8aa6c43daea6690f20ad3d8d48b2d2ce9e38e4",
    )
    .unwrap();
    bytes.try_into().unwrap()
}

#[test]
fn zero_seed_phrase_gives_the_mainnet_keys() {
    let (words, scan, spend) = derive_keys_from_mnemonic(ZERO_SEED_PHRASE, "", false).unwrap();
    assert_eq!(words, ZERO_SEED_PHRASE);
    assert_eq!(hex(&scan), "78e7fd7d2b7a2c1456709d147021a122d2dccaafeada040cc1002083e2833b09");
    assert_eq!(hex(&spend), "c88567742d5019d7ccc81f6e82cef8ef01997a6a3761cc9166036b580549539b");
}

#[test]
fn zero_seed_phrase_gives_the_testnet_keys() {
    let (_, scan, spend) = derive_keys_from_mnemonic(ZERO_SEED_PHRASE, "", true).unwrap();
    assert_eq!(hex(&scan), "38658693c017c46fd6b8bb94b8766c123cd5baf6026338305b6f59f82b36f9c0");
    assert_eq!(hex(&spend), "9fd37137e760930c7208fa905e991c78c522689d237a220b2820c3ddb4c745a8");
}

#[test]
fn keys_of_a_seed_follow_the_paths() {
    let (scan, spend) = derive_keys_from_seed(&seed(), false).unwrap();
    assert_eq!(hex(&scan), "78e7fd7d2b7a2c1456709d147021a122d2dccaafeada040cc1002083e2833b09");
    assert_eq!(hex(&spend), "c88567742d5019d7ccc81f6e82cef8ef01997a6a3761cc9166036b580549539b");
    let (scan, spend) = derive_keys_from_seed(&seed(), true).unwrap();
    assert_eq!(hex(&scan), "38658693c017c46fd6b8bb94b8766c123cd5baf6026338305b6f59f82b36f9c0");
    assert_eq!(hex(&spend), "9fd37137e760930c7208fa905e991c78c522689d237a220b2820c3ddb4c745a8");
}

#[test]
fn paths_are_those_of_bip_352() {
    assert_eq!(MAINNET_SCAN_PATH, "m/352h/0h/0h/1h/0");
    assert_eq!(MAINNET_SPEND_PATH, "m/352h/0h/0h/0h/0");
    assert_eq!(TESTNET_SCAN_PATH, "m/352h/1h/0h/1h/0");
    assert_eq!(TESTNET_SPEND_PATH, "m/352h/1h/0h/0h/0");
}

#[test]
fn derivation_agrees_with_the_crates_called_directly() {
    let mnemonic = bip39::Mnemonic::parse(ZERO_SEED_PHRASE).unwrap();
    let seed = mnemonic.to_seed("");
    let secp = bitcoin::secp256k1::Secp256k1::new();
    let master = bitcoin::bip32::Xpriv::new_master(bitcoin::Network::Bitcoin, &seed).unwrap();
    let path: bitcoin::bip32::DerivationPath = "m/352'/0'/0'/1'/0".parse().unwrap();
    let expected = master.derive_priv(&secp, &path).unwrap().private_key.secret_bytes();
    let (_, scan, _) = keys_from_mnemonic(ZERO_SEED_PHRASE, "", false).unwrap();
    assert_eq!(scan, expected);
}

#[test]
fn derivation_is_deterministic() {
    let a = derive_keys_from_mnemonic(ZERO_SEED_PHRASE, "", true).unwrap();
    let b = derive_keys_from_mnemonic(ZERO_SEED_PHRASE, "", true).unwrap();
    assert_eq!(a, b);
}

#[test]
fn passphrase_changes_the_keys() {
    let plain = derive_keys_from_mnemonic(ZERO_SEED_PHRASE, "", false).unwrap();
    let salted = derive_keys_from_mnemonic(ZERO_SEED_PHRASE, "TREZOR", false).unwrap();
    assert_eq!(plain.0, salted.0);
    assert_ne!(plain.1, salted.1);
    assert_ne!(plain.2, salted.2);
}

#[test]
fn phrase_is_handed_back_in_canonical_text() {
    let spaced = ZERO_SEED_PHRASE.replace(' ', "  ");
    let (words, scan, _) = keys_from_mnemonic(&spaced, "", false).unwrap();
    assert_eq!(words, ZERO_SEED_PHRASE);
    assert_eq!(hex(&scan), "78e7fd7d2b7a2c1456709d147021a122d2dccaafeada040cc1002083e2833b09");
}

#[test]
fn bad_phrases_are_refused() {
    let bad_checksum = ZERO_SEED_PHRASE.replace("about", "abandon");
    assert_eq!(derive_keys_from_mnemonic(&bad_checksum, "", false), Err(Error::InvalidMnemonic));
    assert_eq!(
        derive_keys_from_mnemonic("not a seed phrase", "", false),
        Err(Error::InvalidMnemonic)
    );
    assert_eq!(keys_from_mnemonic("", "", false), Err(Error::InvalidMnemonic));
}

#[test]
fn empty_phrase_gives_a_fresh_one_of_twelve_words() {
    let (words, scan, spend) = derive_keys_from_mnemonic("", "", false).unwrap();
    assert_eq!(words.split(' ').count(), 12);
    assert_ne!(words, ZERO_SEED_PHRASE);
    // the keys are those of the phrase that came back
    assert_eq!(keys_from_mnemonic(&words, "", false), Ok((words.clone(), scan, spend)));
    let (other, _, _) = derive_keys_from_mnemonic("", "", false).unwrap();
    assert_ne!(words, other);
}

#[test]
fn fresh_phrase_restores_the_keys_that_came_with_it() {
    for is_testnet in [false, true] {
        let fresh = derive_keys_from_mnemonic("", "", is_testnet).unwrap();
        assert!(has_word_count(&fresh.0, 12));
        assert_eq!(derive_keys_from_mnemonic(&fresh.0, "", is_testnet), Ok(fresh));
    }
}

#[test]
fn words_are_counted_by_the_spaces_between_them() {
    assert_eq!(MNEMONIC_WORDS, 12);
    assert!(has_word_count(ZERO_SEED_PHRASE, 12));
    assert!(!has_word_count(ZERO_SEED_PHRASE, 11));
    assert!(!has_word_count(ZERO_SEED_PHRASE, 24));
    assert!(has_word_count("abandon", 1));
    assert!(has_word_count("", 1));
    assert!(!has_word_count("", 0));
    assert!(has_word_count("a b", 2));
    assert!(has_word_count("\u{e9}t\u{e9} \u{e9}", 2));
}
