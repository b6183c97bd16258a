use bitcoin::psbt::raw::ProprietaryKey;
use bitcoin::psbt::Psbt;
use bitcoin::secp256k1::{Scalar, Secp256k1, SecretKey};
use silentpayments::receiving::Label;
use spwallet::builder::{address_record, tweak_record};
use spwallet::constants::{
    address_key, nums, sp_prefix, tweak_key, DUST_THRESHOLD, PSBT_SP_SUBTYPE, TX_LOCK_TIME,
    TX_SEQUENCE, TX_VERSION,
};
use spwallet::error::Error;
use spwallet::keys::SpendKey;
use spwallet::outputs::{OutputSpendStatus, OwnedOutput, Recipient};
use spwallet::spclient::SpClient;

const MAINNET_ADDRESS: &str = "bc1qw508d6qejxtdg4y5r3zarvary0c5xw7kv8f3t4";
const MAINNET_SCRIPT: &str = "0014751e76e8199196d454941c45d1b3a323f1433bd6";
const TESTNET_ADDRESS: &str = "tb1qw508d6qejxtdg4y5r3zarvary0c5xw7kxpjzsx";
const LEGACY_ADDRESS: &str = "1BvBMSEYstWetqTFn5Au4m4GFg7xJaNVN2";
const NUMS_HEX: &str = "50929b74c1a04954b78b4b6035e97a5e078a5a0f28ec96d547bfee9ace803ac0";

fn hex(bytes: &[u8]) -> String {
    bytes.iter().map(|b| format!("{:02x}", b)).collect()
}

fn wallet(is_testnet: bool) -> SpClient {
    SpClient::new(
        "default".to_string(),
        [1u8; 32],
        SpendKey::Secret([1u8; 32]),
        None,
        0,
        is_testnet,
    )
    .unwrap()
}

fn sp_address(scan: u8, spend: u8, is_testnet: bool) -> String {
    let secp = Secp256k1::new();
    let scan_sk = SecretKey::from_slice(&[scan; 32]).unwrap();
    let spend_sk = SecretKey::from_slice(&[spend; 32]).unwrap();
    silentpayments::receiving::Receiver::new(
        0,
        scan_sk.public_key(&secp),
        spend_sk.public_key(&secp),
        Label::new(scan_sk, 0),
        is_testnet,
    )
    .unwrap()
    .get_receiving_address()
}

fn input_script() -> String {
    let secp = Secp256k1::new();
    let spend = SecretKey::from_slice(&[1u8; 32]).unwrap();
    let key = spend.add_tweak(&Scalar::from_be_bytes([2u8; 32]).unwrap()).unwrap();
    let (xonly, _) = key.x_only_public_key(&secp);
    format!("5120{}", hex(&xonly.serialize()))
}

fn txid_text() -> String {
    format!("{}00", "aa".repeat(31))
}

fn input(amount: u64) -> OwnedOutput {
    OwnedOutput {
        txoutpoint: format!("{}:0", txid_text()),
        blockheight: 100,
        tweak: "02".repeat(32),
        amount,
        script: input_script(),
        label: None,
        spend_status: OutputSpendStatus::Unspent,
    }
}

fn pay(address: &str, amount: u64, nb_outputs: u32) -> Recipient {
    Recipient { address: address.to_string(), amount, nb_outputs }
}

fn placeholder() -> bitcoin::ScriptBuf {
    bitcoin::ScriptBuf::from_hex(&format!("5120{}", NUMS_HEX)).unwrap()
}

fn tweak_record_key() -> ProprietaryKey {
    ProprietaryKey { prefix: b"sp".to_vec(), subtype: 0, key: b"tweak".to_vec() }
}

fn address_record_key() -> ProprietaryKey {
    ProprietaryKey { prefix: b"sp".to_vec(), subtype: 0, key: b"address".to_vec() }
}

fn address_of_output(psbt: &Psbt, index: usize) -> Option<String> {
    psbt.outputs[index]
        .proprietary
        .get(&address_record_key())
        .map(|bytes| bitcoin::consensus::deserialize::<String>(bytes).unwrap())
}

fn build(inputs: Vec<OwnedOutput>, recipients: Vec<Recipient>) -> Result<Psbt, Error> {
    wallet(false).create_new_psbt(inputs, recipients)
}

#[test]
fn constants_are_those_of_the_records() {
    assert_eq!(sp_prefix(), b"sp".to_vec());
    assert_eq!(tweak_key(), b"tweak".to_vec());
    assert_eq!(address_key(), b"address".to_vec());
    assert_eq!(PSBT_SP_SUBTYPE, 0);
    assert_eq!(hex(&nums()), NUMS_HEX);
    assert_eq!(DUST_THRESHOLD, 546);
    assert_eq!((TX_VERSION, TX_LOCK_TIME, TX_SEQUENCE), (2, 0, 0xFFFF_FFFF));
    let key = tweak_record();
    assert_eq!((key.prefix, key.subtype, key.key), (b"sp".to_vec(), 0, b"tweak".to_vec()));
    let key = address_record();
    assert_eq!((key.prefix, key.subtype, key.key), (b"sp".to_vec(), 0, b"address".to_vec()));
}

#[test]
fn two_silent_recipients_give_four_placeholder_outputs() {
    let x = sp_address(3, 4, false);
    let y = sp_address(5, 6, false);
    let psbt = build(vec![input(100_000)], vec![pay(&x, 40_000, 2), pay(&y, 30_000, 1)]).unwrap();

    let tx = &psbt.unsigned_tx;
    assert_eq!(tx.version, bitcoin::transaction::Version(2));
    assert_eq!(tx.lock_time, bitcoin::absolute::LockTime::ZERO);
    assert_eq!(tx.input.len(), 1);
    assert_eq!(tx.input[0].previous_output.to_string(), format!("{}:0", txid_text()));
    assert_eq!(tx.input[0].sequence, bitcoin::Sequence::MAX);
    assert!(tx.input[0].script_sig.is_empty());
    assert!(tx.input[0].witness.is_empty());

    let values: Vec<u64> = tx.output.iter().map(|o| o.value.to_sat()).collect();
    assert_eq!(values, vec![20_000, 20_000, 30_000, 30_000]);
    // the outputs, with the change, spend exactly what the input holds
    assert_eq!(values.iter().sum::<u64>(), 100_000);
    for output in &tx.output {
        assert_eq!(output.script_pubkey, placeholder());
    }

    assert_eq!(psbt.inputs.len(), 1);
    assert_eq!(psbt.outputs.len(), 4);
    let change = wallet(false).sp_receiver.get_change_address().unwrap();
    assert_eq!(address_of_output(&psbt, 0), Some(x.clone()));
    assert_eq!(address_of_output(&psbt, 1), Some(x));
    assert_eq!(address_of_output(&psbt, 2), Some(y));
    assert_eq!(address_of_output(&psbt, 3), Some(change));
}

#[test]
fn every_input_carries_its_output_and_its_tweak() {
    let x = sp_address(3, 4, false);
    let mut second = input(50_000);
    second.txoutpoint = format!("{}:7", "bb".repeat(32));
    second.tweak = format!("{}05", "00".repeat(31));
    let psbt = build(vec![input(100_000), second], vec![pay(&x, 150_000, 1)]).unwrap();

    assert_eq!(psbt.inputs.len(), 2);
    let script = bitcoin::ScriptBuf::from_hex(&input_script()).unwrap();
    let first = psbt.inputs[0].witness_utxo.as_ref().unwrap();
    assert_eq!((first.value.to_sat(), &first.script_pubkey), (100_000, &script));
    let other = psbt.inputs[1].witness_utxo.as_ref().unwrap();
    assert_eq!((other.value.to_sat(), &other.script_pubkey), (50_000, &script));
    assert_eq!(psbt.inputs[0].proprietary.get(&tweak_record_key()), Some(&vec![2u8; 32]));
    let mut five = vec![0u8; 32];
    five[31] = 5;
    assert_eq!(psbt.inputs[1].proprietary.get(&tweak_record_key()), Some(&five));
    assert_eq!(psbt.inputs[0].proprietary.len(), 1);
    assert_eq!(psbt.unsigned_tx.input[1].previous_output.vout, 7);
    // inputs and outputs spend exactly what is there: no change is needed
    assert_eq!(psbt.unsigned_tx.output.len(), 1);
    assert_eq!(psbt.inputs[0].tap_key_sig, None);
    assert_eq!(psbt.inputs[0].final_script_witness, None);
}

#[test]
fn ordinary_recipient_gets_its_own_script_and_no_record() {
    let x = sp_address(3, 4, false);
    let psbt = build(
        vec![input(100_000)],
        vec![pay(MAINNET_ADDRESS, 60_000, 1), pay(&x, 40_000, 1)],
    )
    .unwrap();
    let tx = &psbt.unsigned_tx;
    assert_eq!(tx.output.len(), 2);
    assert_eq!(hex(tx.output[0].script_pubkey.as_bytes()), MAINNET_SCRIPT);
    assert_eq!(tx.output[0].value.to_sat(), 60_000);
    assert!(psbt.outputs[0].proprietary.is_empty());
    assert_eq!(tx.output[1].script_pubkey, placeholder());
    assert_eq!(address_of_output(&psbt, 1), Some(x));

    let legacy = build(vec![input(100_000)], vec![pay(LEGACY_ADDRESS, 100_000, 1)]).unwrap();
    assert_eq!(
        hex(legacy.unsigned_tx.output[0].script_pubkey.as_bytes()),
        "76a91477bff20c60e522dfaa3350c39b030a5d004e839a88ac"
    );
}

#[test]
fn amount_is_divided_among_the_outputs_of_a_recipient() {
    let x = sp_address(3, 4, false);
    let psbt = build(vec![input(10)], vec![pay(&x, 10, 3)]).unwrap();
    let values: Vec<u64> = psbt.unsigned_tx.output.iter().map(|o| o.value.to_sat()).collect();
    assert_eq!(values, vec![4, 3, 3]);

    let psbt = build(vec![input(2)], vec![pay(&x, 2, 5)]).unwrap();
    let values: Vec<u64> = psbt.unsigned_tx.output.iter().map(|o| o.value.to_sat()).collect();
    assert_eq!(values, vec![2, 0, 0, 0, 0]);
}

#[test]
fn change_goes_to_the_change_address_above_the_dust_threshold() {
    let x = sp_address(3, 4, false);
    let with_change = build(vec![input(100_000)], vec![pay(&x, 100_000 - 547, 1)]).unwrap();
    assert_eq!(with_change.unsigned_tx.output.len(), 2);
    assert_eq!(with_change.unsigned_tx.output[1].value.to_sat(), 547);
    assert_eq!(with_change.unsigned_tx.output[1].script_pubkey, placeholder());

    let exact = build(vec![input(100_000)], vec![pay(&x, 100_000, 1)]).unwrap();
    assert_eq!(exact.unsigned_tx.output.len(), 1);
}

#[test]
fn change_that_is_dust_is_refused() {
    let x = sp_address(3, 4, false);
    let left = |change: u64| build(vec![input(100_000)], vec![pay(&x, 100_000 - change, 1)]);
    assert_eq!(left(546).map(|_| ()), Err(Error::DustChange));
    assert_eq!(left(1).map(|_| ()), Err(Error::DustChange));
    assert_eq!(left(0).map(|_| ()), Ok(()));
    assert_eq!(left(547).map(|_| ()), Ok(()));
}

#[test]
fn outputs_above_the_inputs_are_refused() {
    let x = sp_address(3, 4, false);
    let r = build(vec![input(100_000)], vec![pay(&x, 100_001, 1)]);
    assert_eq!(r.map(|_| ()), Err(Error::InsufficientFunds));
    let r = build(vec![], vec![pay(&x, 1, 1)]);
    assert_eq!(r.map(|_| ()), Err(Error::InsufficientFunds));
}

#[test]
fn totals_above_64_bits_are_refused() {
    let x = sp_address(3, 4, false);
    let mut second = input(u64::MAX);
    second.txoutpoint = format!("{}:1", "bb".repeat(32));
    let r = build(vec![input(1), second], vec![pay(&x, 1, 1)]);
    assert_eq!(r.map(|_| ()), Err(Error::InvalidInput));
    let r = build(vec![input(u64::MAX)], vec![pay(&x, u64::MAX, 1), pay(&x, 1, 1)]);
    assert_eq!(r.map(|_| ()), Err(Error::InvalidInput));
}

#[test]
fn addresses_of_another_network_are_refused() {
    let testnet = sp_address(3, 4, true);
    let r = build(vec![input(100_000)], vec![pay(&testnet, 100_000, 1)]);
    assert_eq!(r.map(|_| ()), Err(Error::NetworkMismatch));
    let r = build(vec![input(100_000)], vec![pay(TESTNET_ADDRESS, 100_000, 1)]);
    assert_eq!(r.map(|_| ()), Err(Error::NetworkMismatch));

    let mainnet = sp_address(3, 4, false);
    let on_testnet =
        |address: &str| wallet(true).create_new_psbt(vec![input(100_000)], vec![pay(address, 100_000, 1)]);
    assert_eq!(on_testnet(&mainnet).map(|_| ()), Err(Error::NetworkMismatch));
    assert_eq!(on_testnet(MAINNET_ADDRESS).map(|_| ()), Err(Error::NetworkMismatch));
    assert_eq!(on_testnet(&testnet).map(|_| ()), Ok(()));
    assert_eq!(on_testnet(TESTNET_ADDRESS).map(|_| ()), Ok(()));
}

#[test]
fn strings_that_are_no_address_are_refused() {
    let r = build(vec![input(100_000)], vec![pay("garbage", 100_000, 1)]);
    assert_eq!(r.map(|_| ()), Err(Error::InvalidAddress));
    let r = build(vec![input(100_000)], vec![pay("", 100_000, 1)]);
    assert_eq!(r.map(|_| ()), Err(Error::InvalidAddress));
}

#[test]
fn numbers_of_outputs_that_an_address_cannot_have_are_refused() {
    let x = sp_address(3, 4, false);
    let r = build(vec![input(100_000)], vec![pay(&x, 100_000, 0)]);
    assert_eq!(r.map(|_| ()), Err(Error::InvalidInput));
    let r = build(vec![input(100_000)], vec![pay(MAINNET_ADDRESS, 100_000, 2)]);
    assert_eq!(r.map(|_| ()), Err(Error::InvalidInput));
    let r = build(vec![input(100_000)], vec![pay(MAINNET_ADDRESS, 100_000, 0)]);
    assert_eq!(r.map(|_| ()), Err(Error::InvalidInput));
}

#[test]
fn tweaks_that_are_no_scalar_are_refused() {
    let x = sp_address(3, 4, false);
    let with_tweak = |tweak: String| {
        let mut i = input(100_000);
        i.tweak = tweak;
        build(vec![i], vec![pay(&x, 100_000, 1)]).map(|_| ())
    };
    assert_eq!(with_tweak("02".repeat(31)), Err(Error::InvalidTweak));
    assert_eq!(with_tweak("zz".repeat(32)), Err(Error::InvalidTweak));
    assert_eq!(with_tweak("ff".repeat(32)), Err(Error::InvalidTweak));
    assert_eq!(
        with_tweak(hex(&bitcoin::secp256k1::constants::CURVE_ORDER)),
        Err(Error::InvalidTweak)
    );
    // zero is a scalar
    assert_eq!(with_tweak("00".repeat(32)), Ok(()));
}

#[test]
fn inputs_that_do_not_parse_are_refused() {
    let x = sp_address(3, 4, false);
    let mut bad_outpoint = input(100_000);
    bad_outpoint.txoutpoint = txid_text();
    let r = build(vec![bad_outpoint], vec![pay(&x, 100_000, 1)]);
    assert_eq!(r.map(|_| ()), Err(Error::InvalidInput));

    let mut bad_script = input(100_000);
    bad_script.script = "512".to_string();
    let r = build(vec![bad_script], vec![pay(&x, 100_000, 1)]);
    assert_eq!(r.map(|_| ()), Err(Error::InvalidInput));

    // the first failure in the order of the inputs is reported
    let mut bad_tweak = input(100_000);
    bad_tweak.tweak = String::new();
    let mut bad_outpoint = input(100_000);
    bad_outpoint.txoutpoint = String::new();
    let r = build(vec![bad_tweak, bad_outpoint], vec![pay(&x, 100_000, 1)]);
    assert_eq!(r.map(|_| ()), Err(Error::InvalidTweak));
}
