use bitcoin::secp256k1::{PublicKey, Scalar, Secp256k1, SecretKey};
use silentpayments::receiving::Label;
use silentpayments::sending::SilentPaymentAddress;
use spwallet::address::{Receiver, CHANGE_LABEL_INDEX, SP_VERSION};
use spwallet::error::Error;
use spwallet::keys::SpendKey;
use spwallet::spclient::SpClient;

const PUBKEY_OF_ONES: &str = "031b84c5567b126440995d3ed5aaba0565d71e1834604819ff9c17f5e9d5dd078f";

fn hex(bytes: &[u8]) -> String {
    bytes.iter().map(|b| format!("{:02x}", b)).collect()
}

fn wallet(spend_key: SpendKey, is_testnet: bool) -> SpClient {
    SpClient::new("default".to_string(), [1u8; 32], spend_key, None, 0, is_testnet).unwrap()
}

fn public_of(secret: [u8; 32]) -> PublicKey {
    SecretKey::from_slice(&secret).unwrap().public_key(&Secp256k1::new())
}

#[test]
fn receiver_holds_the_public_keys_and_the_change_label() {
    let w = wallet(SpendKey::Secret([1u8; 32]), false);
    assert_eq!(SP_VERSION, 0);
    assert_eq!(CHANGE_LABEL_INDEX, 0);
    assert_eq!(w.sp_receiver.version, 0);
    assert_eq!(hex(&w.sp_receiver.scan_pubkey), PUBKEY_OF_ONES);
    assert_eq!(hex(&w.sp_receiver.spend_pubkey), PUBKEY_OF_ONES);
    assert!(!w.sp_receiver.is_testnet);
    let label = Label::new(SecretKey::from_slice(&[1u8; 32]).unwrap(), 0);
    assert_eq!(w.sp_receiver.change_label, label.into_inner().to_be_bytes());
    assert_eq!(w.get_scan_key(), [1u8; 32]);
}

#[test]
fn receiving_address_encodes_the_scan_and_spend_keys() {
    let w = wallet(SpendKey::Secret([1u8; 32]), false);
    let address = w.get_receiving_address();
    assert!(address.starts_with("sp1"));
    let parsed = SilentPaymentAddress::try_from(address.as_str()).unwrap();
    assert_eq!(parsed.get_scan_key(), public_of([1u8; 32]));
    assert_eq!(parsed.get_spend_key(), public_of([1u8; 32]));
    assert!(!parsed.is_testnet());
    let direct = SilentPaymentAddress::new(public_of([1u8; 32]), public_of([1u8; 32]), false, 0)
        .unwrap();
    assert_eq!(address, String::from(direct));
}

#[test]
fn change_address_uses_the_label_of_index_zero() {
    let w = wallet(SpendKey::Secret([1u8; 32]), false);
    let receiving = w.get_receiving_address();
    let change = w.sp_receiver.get_change_address().unwrap();
    assert_ne!(receiving, change);
    let parsed = SilentPaymentAddress::try_from(change.as_str()).unwrap();
    assert_eq!(parsed.get_scan_key(), public_of([1u8; 32]));
    let label: Scalar = Label::new(SecretKey::from_slice(&[1u8; 32]).unwrap(), 0).into_inner();
    let labelled = public_of([1u8; 32]).add_exp_tweak(&Secp256k1::new(), &label).unwrap();
    assert_eq!(parsed.get_spend_key(), labelled);
}

#[test]
fn testnet_wallet_has_a_testnet_address() {
    let w = wallet(SpendKey::Secret([1u8; 32]), true);
    assert!(w.sp_receiver.is_testnet);
    let address = w.get_receiving_address();
    assert!(address.starts_with("tsp1"));
    assert!(SilentPaymentAddress::try_from(address.as_str()).unwrap().is_testnet());
}

#[test]
fn watch_only_wallet_has_the_address_of_the_spending_wallet() {
    let spending = wallet(SpendKey::Secret([7u8; 32]), false);
    let watching = wallet(SpendKey::Public(public_of([7u8; 32]).serialize()), false);
    assert_eq!(watching.get_receiving_address(), spending.get_receiving_address());
    assert_eq!(watching.sp_receiver, spending.sp_receiver);
    assert!(watching.is_valid());
    assert!(watching.list_outpoints().is_empty());
}

#[test]
fn keys_out_of_range_are_refused() {
    let zero = [0u8; 32];
    let above = [0xffu8; 32];
    let good = SpendKey::Secret([1u8; 32]);
    let new = |scan: [u8; 32], spend: SpendKey| {
        SpClient::new("default".to_string(), scan, spend, None, 0, false).map(|_| ())
    };
    assert_eq!(new(zero, good), Err(Error::InvalidInput));
    assert_eq!(new(above, good), Err(Error::InvalidInput));
    assert_eq!(new([1u8; 32], SpendKey::Secret(zero)), Err(Error::InvalidInput));
    assert_eq!(new([1u8; 32], SpendKey::Secret(above)), Err(Error::InvalidInput));
    // the largest private key is the curve order less one
    let mut largest: [u8; 32] = bitcoin::secp256k1::constants::CURVE_ORDER;
    largest[31] -= 1;
    assert_eq!(new(largest, good), Ok(()));
    assert_eq!(
        new(bitcoin::secp256k1::constants::CURVE_ORDER, good),
        Err(Error::InvalidInput)
    );
}

#[test]
fn curve_order_is_the_one_of_the_curve() {
    assert_eq!(spwallet::keys::curve_order_bytes(), bitcoin::secp256k1::constants::CURVE_ORDER);
}

#[test]
fn scalars_are_the_numbers_below_the_curve_order() {
    let order: [u8; 32] = bitcoin::secp256k1::constants::CURVE_ORDER;
    let mut below = order;
    below[31] -= 1;
    let mut above = order;
    above[31] += 1;
    let mut high_byte_smaller = [0xffu8; 32];
    high_byte_smaller[0] = 0xfe;
    let mut middle_byte_larger = order;
    middle_byte_larger[16] += 1;
    middle_byte_larger[31] = 0;
    let mut middle_byte_smaller = order;
    middle_byte_smaller[16] -= 1;
    middle_byte_smaller[31] = 0xff;
    let samples = [
        [0u8; 32],
        [1u8; 32],
        [0xffu8; 32],
        order,
        below,
        above,
        high_byte_smaller,
        middle_byte_larger,
        middle_byte_smaller,
    ];
    let expected = [true, true, false, false, true, false, true, false, true];
    for (sample, expected) in samples.iter().zip(expected) {
        assert_eq!(spwallet::keys::check_scalar(sample), expected);
        assert_eq!(Scalar::from_be_bytes(*sample).is_ok(), expected);
    }
}

#[test]
fn a_public_spend_key_off_the_curve_is_refused() {
    let mut off = [0u8; 33];
    off[0] = 0x02;
    off[32] = 0x05;
    assert!(PublicKey::from_slice(&off).is_err());
    let made = SpClient::new(
        "default".to_string(),
        [1u8; 32],
        SpendKey::Public(off),
        None,
        0,
        false,
    );
    assert_eq!(made.map(|_| ()), Err(Error::Cryptographic));
}

#[test]
fn a_receiver_is_plain_data() {
    let w = wallet(SpendKey::Secret([1u8; 32]), false);
    let copy = Receiver {
        version: w.sp_receiver.version,
        scan_pubkey: w.sp_receiver.scan_pubkey,
        spend_pubkey: w.sp_receiver.spend_pubkey,
        change_label: w.sp_receiver.change_label,
        is_testnet: w.sp_receiver.is_testnet,
    };
    assert_eq!(copy, w.sp_receiver);
}

#[test]
fn keys_are_read_from_hex_as_secp256k1_reads_them() {
    let order = hex(&bitcoin::secp256k1::constants::CURVE_ORDER);
    let samples = [
        "01".repeat(32),
        "00".repeat(32),
        "ff".repeat(32),
        "FE".repeat(32),
        "aB".repeat(32),
        order.clone(),
        format!("{}40", &order[..62]),
        "01".repeat(31),
        "01".repeat(33),
        format!("{}0", "01".repeat(31)),
        format!("{}zz", "01".repeat(31)),
        String::new(),
    ];
    for sample in &samples {
        let expected = sample.parse::<SecretKey>().ok().map(|k| k.secret_bytes());
        assert_eq!(spwallet::keys::secret_key_from_hex(sample), expected);
        let array: Option<[u8; 32]> = bitcoin::hashes::hex::FromHex::from_hex(sample).ok();
        assert_eq!(spwallet::keys::bytes32_from_hex(sample), array);
    }
    assert_eq!(spwallet::keys::secret_key_from_hex(&"01".repeat(32)), Some([1u8; 32]));
    assert!(spwallet::keys::check_secret_key(&[1u8; 32]));
    assert!(!spwallet::keys::check_secret_key(&[0u8; 32]));
    assert!(!spwallet::keys::check_secret_key(&bitcoin::secp256k1::constants::CURVE_ORDER));
    let mut one = [0u8; 32];
    one[0] = 1;
    assert!(spwallet::keys::check_secret_key(&one));
}
