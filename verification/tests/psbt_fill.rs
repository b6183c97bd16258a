use bitcoin::psbt::raw::ProprietaryKey;
use bitcoin::psbt::Psbt;
use bitcoin::secp256k1::{Scalar, Secp256k1, SecretKey, XOnlyPublicKey};
use silentpayments::receiving::Label;
use spwallet::error::Error;
use spwallet::filler::{
    collect_paid, fill_with_keys, has_distinct_addresses, input_keys, input_outpoints,
    slot_addresses,
};
use spwallet::tx::vec_to_bytes32;
use spwallet::keys::SpendKey;
use spwallet::outputs::{OutputSpendStatus, OwnedOutput, Recipient};
use spwallet::sending::{find_address, AddressKeys};
use spwallet::spclient::SpClient;

const NUMS_HEX: &str = "50929b74c1a04954b78b4b6035e97a5e078a5a0f28ec96d547bfee9ace803ac0";
const MAINNET_ADDRESS: &str = "bc1qw508d6qejxtdg4y5r3zarvary0c5xw7kv8f3t4";

fn hex(bytes: &[u8]) -> String {
    bytes.iter().map(|b| format!("{:02x}", b)).collect()
}

fn wallet() -> SpClient {
    SpClient::new("default".to_string(), [1u8; 32], SpendKey::Secret([1u8; 32]), None, 0, false)
        .unwrap()
}

fn watch_only_wallet() -> SpClient {
    let public = SecretKey::from_slice(&[1u8; 32]).unwrap().public_key(&Secp256k1::new());
    SpClient::new(
        "default".to_string(),
        [1u8; 32],
        SpendKey::Public(public.serialize()),
        None,
        0,
        false,
    )
    .unwrap()
}

fn sp_address(scan: u8, spend: u8) -> String {
    let secp = Secp256k1::new();
    let scan_sk = SecretKey::from_slice(&[scan; 32]).unwrap();
    let spend_sk = SecretKey::from_slice(&[spend; 32]).unwrap();
    silentpayments::receiving::Receiver::new(
        0,
        scan_sk.public_key(&secp),
        spend_sk.public_key(&secp),
        Label::new(scan_sk, 0),
        false,
    )
    .unwrap()
    .get_receiving_address()
}

fn signing_key() -> SecretKey {
    let spend = SecretKey::from_slice(&[1u8; 32]).unwrap();
    spend.add_tweak(&Scalar::from_be_bytes([2u8; 32]).unwrap()).unwrap()
}

fn txid_text() -> String {
    format!("{}00", "aa".repeat(31))
}

fn input(amount: u64) -> OwnedOutput {
    let (xonly, _) = signing_key().x_only_public_key(&Secp256k1::new());
    OwnedOutput {
        txoutpoint: format!("{}:0", txid_text()),
        blockheight: 100,
        tweak: "02".repeat(32),
        amount,
        script: format!("5120{}", hex(&xonly.serialize())),
        label: None,
        spend_status: OutputSpendStatus::Unspent,
    }
}

fn pay(address: &str, amount: u64, nb_outputs: u32) -> Recipient {
    Recipient { address: address.to_string(), amount, nb_outputs }
}

fn p2tr(key: &XOnlyPublicKey) -> bitcoin::ScriptBuf {
    bitcoin::ScriptBuf::from_hex(&format!("5120{}", hex(&key.serialize()))).unwrap()
}

fn placeholder() -> bitcoin::ScriptBuf {
    bitcoin::ScriptBuf::from_hex(&format!("5120{}", NUMS_HEX)).unwrap()
}

fn tweak_record_key() -> ProprietaryKey {
    ProprietaryKey { prefix: b"sp".to_vec(), subtype: 0, key: b"tweak".to_vec() }
}

fn address_record_key() -> ProprietaryKey {
    ProprietaryKey { prefix: b"sp".to_vec(), subtype: 0, key: b"address".to_vec() }
}

fn unfilled() -> (Psbt, String, String, String) {
    let x = sp_address(3, 4);
    let y = sp_address(5, 6);
    let psbt = wallet()
        .create_new_psbt(vec![input(100_000)], vec![pay(&x, 40_000, 2), pay(&y, 30_000, 1)])
        .unwrap();
    let change = wallet().sp_receiver.get_change_address().unwrap();
    (psbt, x, y, change)
}

fn expected_keys(addresses: Vec<String>) -> std::collections::HashMap<String, Vec<XOnlyPublicKey>> {
    let partial = silentpayments::utils::sending::calculate_partial_secret(
        &[(signing_key(), true)],
        &[(txid_text(), 0)],
    )
    .unwrap();
    silentpayments::sending::generate_recipient_pubkeys(addresses, partial).unwrap()
}

fn scripts(psbt: &Psbt) -> Vec<bitcoin::ScriptBuf> {
    psbt.unsigned_tx.output.iter().map(|o| o.script_pubkey.clone()).collect()
}

#[test]
fn outputs_take_the_keys_of_their_addresses_in_order() {
    let (mut psbt, x, y, change) = unfilled();
    assert_eq!(wallet().fill_sp_outputs(&mut psbt), Ok(()));

    let keys = expected_keys(vec![x.clone(), x.clone(), y.clone(), change.clone()]);
    assert_eq!(keys[&x].len(), 2);
    assert_ne!(keys[&x][0], keys[&x][1]);
    let expected =
        vec![p2tr(&keys[&x][0]), p2tr(&keys[&x][1]), p2tr(&keys[&y][0]), p2tr(&keys[&change][0])];
    assert_eq!(scripts(&psbt), expected);

    // nothing but the scripts has changed
    let (before, _, _, _) = unfilled();
    let values = |p: &Psbt| -> Vec<u64> {
        p.unsigned_tx.output.iter().map(|o| o.value.to_sat()).collect()
    };
    assert_eq!(values(&psbt), values(&before));
    assert_eq!(psbt.inputs, before.inputs);
    assert_eq!(psbt.outputs, before.outputs);
    assert_eq!(psbt.unsigned_tx.input, before.unsigned_tx.input);
}

#[test]
fn filling_is_deterministic() {
    let (mut first, _, _, _) = unfilled();
    let (mut second, _, _, _) = unfilled();
    wallet().fill_sp_outputs(&mut first).unwrap();
    wallet().fill_sp_outputs(&mut second).unwrap();
    assert_eq!(first, second);
    // filling again derives the same keys
    let once = first.clone();
    wallet().fill_sp_outputs(&mut first).unwrap();
    assert_eq!(first, once);
}

#[test]
fn ordinary_outputs_keep_their_script() {
    let x = sp_address(3, 4);
    let mut psbt = wallet()
        .create_new_psbt(
            vec![input(100_000)],
            vec![pay(MAINNET_ADDRESS, 60_000, 1), pay(&x, 40_000, 1)],
        )
        .unwrap();
    let before = scripts(&psbt);
    wallet().fill_sp_outputs(&mut psbt).unwrap();
    let after = scripts(&psbt);
    assert_eq!(after[0], before[0]);
    let keys = expected_keys(vec![x.clone()]);
    assert_eq!(after[1], p2tr(&keys[&x][0]));
}

#[test]
fn interleaved_outputs_of_one_address_take_its_keys_in_slot_order() {
    let x = sp_address(3, 4);
    let y = sp_address(5, 6);
    let mut psbt = wallet()
        .create_new_psbt(
            vec![input(100_000)],
            vec![pay(&x, 10_000, 1), pay(&y, 20_000, 2), pay(&x, 70_000, 2)],
        )
        .unwrap();
    wallet().fill_sp_outputs(&mut psbt).unwrap();
    let keys =
        expected_keys(vec![x.clone(), y.clone(), y.clone(), x.clone(), x.clone()]);
    let expected = vec![
        p2tr(&keys[&x][0]),
        p2tr(&keys[&y][0]),
        p2tr(&keys[&y][1]),
        p2tr(&keys[&x][1]),
        p2tr(&keys[&x][2]),
    ];
    assert_eq!(scripts(&psbt), expected);
}

#[test]
fn watch_only_wallet_cannot_fill() {
    let (mut psbt, _, _, _) = unfilled();
    let before = psbt.clone();
    assert_eq!(watch_only_wallet().fill_sp_outputs(&mut psbt), Err(Error::WatchOnly));
    assert_eq!(psbt, before);
}

#[test]
fn inputs_without_a_good_tweak_are_refused() {
    let (unfilled, _, _, _) = unfilled();

    let mut missing = unfilled.clone();
    missing.inputs[0].proprietary.clear();
    assert_eq!(wallet().fill_sp_outputs(&mut missing), Err(Error::InvalidTweak));

    let mut short = unfilled.clone();
    short.inputs[0].proprietary.insert(tweak_record_key(), vec![2u8; 31]);
    assert_eq!(wallet().fill_sp_outputs(&mut short), Err(Error::InvalidTweak));

    let mut large = unfilled.clone();
    large.inputs[0].proprietary.insert(tweak_record_key(), vec![0xffu8; 32]);
    assert_eq!(wallet().fill_sp_outputs(&mut large), Err(Error::InvalidTweak));

    // the tweak that makes the key zero: the curve order less the spend key
    let negated = SecretKey::from_slice(&[1u8; 32]).unwrap().negate().secret_bytes();
    let mut zero = unfilled.clone();
    zero.inputs[0].proprietary.insert(tweak_record_key(), negated.to_vec());
    let before = zero.clone();
    assert_eq!(wallet().fill_sp_outputs(&mut zero), Err(Error::Cryptographic));
    assert_eq!(zero, before);
}

#[test]
fn address_records_that_do_not_read_are_refused() {
    let (unfilled, _, _, _) = unfilled();

    let mut no_string = unfilled.clone();
    no_string.outputs[0].proprietary.insert(address_record_key(), vec![0xff, 0x01]);
    assert_eq!(wallet().fill_sp_outputs(&mut no_string), Err(Error::InvalidInput));

    let mut no_address = unfilled.clone();
    let text = bitcoin::consensus::serialize(&MAINNET_ADDRESS.to_string());
    no_address.outputs[0].proprietary.insert(address_record_key(), text);
    let before = no_address.clone();
    assert_eq!(wallet().fill_sp_outputs(&mut no_address), Err(Error::InvalidAddress));
    assert_eq!(no_address, before);
}

#[test]
fn a_psbt_without_a_map_for_each_output_is_refused() {
    let (mut psbt, _, _, _) = unfilled();
    psbt.outputs.pop();
    assert_eq!(wallet().fill_sp_outputs(&mut psbt), Err(Error::InvalidInput));
    let (mut psbt, _, _, _) = unfilled();
    psbt.inputs.push(Default::default());
    assert_eq!(wallet().fill_sp_outputs(&mut psbt), Err(Error::InvalidInput));
}

#[test]
fn a_psbt_without_inputs_has_no_partial_secret() {
    let x = sp_address(3, 4);
    let mut psbt = wallet().create_new_psbt(vec![], vec![pay(&x, 0, 1)]).unwrap();
    assert_eq!(wallet().fill_sp_outputs(&mut psbt), Err(Error::Cryptographic));
}

#[test]
fn keys_that_do_not_match_the_outputs_are_refused() {
    let (unfilled, x, y, change) = unfilled();
    let key = signing_key().x_only_public_key(&Secp256k1::new()).0.serialize();
    let entry = |address: &str, n: usize| AddressKeys {
        address: address.to_string(),
        keys: vec![key; n],
    };

    let mut psbt = unfilled.clone();
    let good = vec![entry(&x, 2), entry(&y, 1), entry(&change, 1)];
    assert_eq!(fill_with_keys(&mut psbt, &good), Ok(()));
    assert_eq!(scripts(&psbt), vec![p2tr(&XOnlyPublicKey::from_slice(&key).unwrap()); 4]);

    let mut psbt = unfilled.clone();
    let missing_address = vec![entry(&x, 2), entry(&change, 1)];
    assert_eq!(fill_with_keys(&mut psbt, &missing_address), Err(Error::AssertionFailed));
    assert_eq!(psbt, unfilled);

    let missing_key = vec![entry(&x, 1), entry(&y, 1), entry(&change, 1)];
    assert_eq!(fill_with_keys(&mut psbt, &missing_key), Err(Error::AssertionFailed));
    assert_eq!(psbt, unfilled);

    let left_over = vec![entry(&x, 2), entry(&y, 2), entry(&change, 1)];
    assert_eq!(fill_with_keys(&mut psbt, &left_over), Err(Error::AssertionFailed));
    assert_eq!(psbt, unfilled);

    let unused_address = vec![entry(&x, 2), entry(&y, 1), entry(&change, 1), entry("other", 1)];
    assert_eq!(fill_with_keys(&mut psbt, &unused_address), Err(Error::AssertionFailed));
    assert_eq!(psbt, unfilled);

    let listed_twice = vec![entry(&x, 2), entry(&y, 1), entry(&change, 1), entry(&x, 2)];
    assert_eq!(fill_with_keys(&mut psbt, &listed_twice), Err(Error::InvalidInput));
    assert_eq!(psbt, unfilled);

    let off_curve = AddressKeys { address: y.clone(), keys: vec![[0xffu8; 32]] };
    let bad_key = vec![entry(&x, 2), off_curve, entry(&change, 1)];
    assert_eq!(fill_with_keys(&mut psbt, &bad_key), Err(Error::Cryptographic));
    assert_eq!(psbt, unfilled);
}

#[test]
fn signing_key_of_an_input_is_the_spend_key_plus_the_tweak() {
    let (psbt, _, _, _) = unfilled();
    let keys = input_keys(&psbt, &[1u8; 32]).unwrap();
    assert_eq!(keys.len(), 1);
    assert_eq!(keys[0].key, [3u8; 32]);
    assert_eq!(keys[0].key, signing_key().secret_bytes());
    assert!(keys[0].is_taproot);
    // a spend key that is out of range gives no key
    assert_eq!(input_keys(&psbt, &[0u8; 32]).map(|_| ()), Err(Error::Cryptographic));
}

#[test]
fn signing_key_wraps_around_the_curve_order() {
    let (mut psbt, _, _, _) = unfilled();
    let mut largest: [u8; 32] = bitcoin::secp256k1::constants::CURVE_ORDER;
    largest[31] -= 1;
    psbt.inputs[0].proprietary.insert(tweak_record_key(), largest.to_vec());
    // 5 + (n - 1) = 4 modulo n
    let mut five = [0u8; 32];
    five[31] = 5;
    let mut four = [0u8; 32];
    four[31] = 4;
    assert_eq!(input_keys(&psbt, &five).unwrap()[0].key, four);
}

#[test]
fn outpoints_are_read_with_their_displayed_txid() {
    let (psbt, _, _, _) = unfilled();
    let outpoints = input_outpoints(&psbt);
    assert_eq!(outpoints.len(), 1);
    assert_eq!(outpoints[0].txid, txid_text());
    assert_eq!(outpoints[0].vout, 0);
}

#[test]
fn slot_addresses_are_read_from_the_records() {
    let x = sp_address(3, 4);
    let psbt = wallet()
        .create_new_psbt(
            vec![input(100_000)],
            vec![pay(&x, 40_000, 2), pay(MAINNET_ADDRESS, 60_000, 1)],
        )
        .unwrap();
    let addresses = slot_addresses(&psbt).unwrap();
    assert_eq!(addresses, vec![Some(x.clone()), Some(x.clone()), None]);
    assert_eq!(collect_paid(&addresses), vec![x.clone(), x.clone()]);
}

#[test]
fn small_helpers_do_what_they_say() {
    assert_eq!(vec_to_bytes32(&vec![7u8; 32]), Some([7u8; 32]));
    assert_eq!(vec_to_bytes32(&vec![7u8; 31]), None);
    assert_eq!(vec_to_bytes32(&vec![7u8; 33]), None);
    let mut counted: Vec<u8> = (0u8..32).collect();
    let array = vec_to_bytes32(&counted).unwrap();
    assert_eq!(array[5], 5);
    assert_eq!(array[31], 31);
    counted.clear();
    assert_eq!(vec_to_bytes32(&counted), None);

    let list = vec![
        AddressKeys { address: "a".to_string(), keys: vec![] },
        AddressKeys { address: "b".to_string(), keys: vec![[1u8; 32]] },
    ];
    assert!(has_distinct_addresses(&list));
    assert_eq!(find_address(&list, &"b".to_string()), Some(1));
    assert_eq!(find_address(&list, &"c".to_string()), None);
    assert_eq!(placeholder().len(), 34);
}
