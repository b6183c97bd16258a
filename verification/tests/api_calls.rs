use bitcoin::psbt::Psbt;
use bitcoin::secp256k1::{Scalar, Secp256k1, SecretKey};
use silentpayments::receiving::Label;
use spwallet::api::{
    add_fee_for_fee_rate, change_birthday, create_new_psbt, extract_tx_from_psbt,
    fill_sp_outputs, get_outputs, get_receiving_address, get_spendable_outputs, get_wallet_info,
    mark_transaction_inputs_as_spent, reset_wallet, setup, show_mnemonic, sign_psbt,
    WalletStatus, WalletType, PASSPHRASE,
};
use spwallet::error::Error;
use spwallet::keys::SpendKey;
use spwallet::outputs::{OutputSpendStatus, OwnedOutput, Recipient, ScanProgress};
use spwallet::spclient::SpClient;
use spwallet::tx::OutPoint;

const ZERO_SEED_PHRASE: &str =
    "abandon abandon abandon abandon abandon abandon abandon abandon abandon abandon abandon about";
const PUBKEY_OF_ONES: &str = "031b84c5567b126440995d3ed5aaba0565d71e1834604819ff9c17f5e9d5dd078f";

fn hex(bytes: &[u8]) -> String {
    bytes.iter().map(|b| format!("{:02x}", b)).collect()
}

fn wallet() -> SpClient {
    SpClient::new("default".to_string(), [1u8; 32], SpendKey::Secret([1u8; 32]), None, 7, false)
        .unwrap()
}

fn sp_address(scan: u8, spend: u8) -> String {
    let secp = Secp256k1::new();
    let scan_sk = SecretKey::from_slice(&[scan; 32]).unwrap();
    let spend_sk = SecretKey::from_slice(&[spend; 32]).unwrap();
    silentpayments::receiving::Receiver::new(
        0,
        scan_sk.public_key(&secp),
        spend_sk.public_key(&secp),
        Label::new(scan_sk, 0),
        false,
    )
    .unwrap()
    .get_receiving_address()
}

fn owned(tag: u8, height: u32, amount: u64) -> (OutPoint, OwnedOutput) {
    let spend = SecretKey::from_slice(&[1u8; 32]).unwrap();
    let key = spend.add_tweak(&Scalar::from_be_bytes([2u8; 32]).unwrap()).unwrap();
    let (xonly, _) = key.x_only_public_key(&Secp256k1::new());
    (
        OutPoint { txid: [tag; 32], vout: 0 },
        OwnedOutput {
            txoutpoint: format!("{}:0", hex(&[tag; 32])),
            blockheight: height,
            tweak: "02".repeat(32),
            amount,
            script: format!("5120{}", hex(&xonly.serialize())),
            label: None,
            spend_status: OutputSpendStatus::Unspent,
        },
    )
}

fn funded_wallet() -> SpClient {
    let mut w = wallet();
    w.extend_owned(vec![owned(0xaa, 5, 100_000), owned(0xbb, 9, 50_000)]);
    w
}

fn pay(address: &str, amount: u64, nb_outputs: u32) -> Recipient {
    Recipient { address: address.to_string(), amount, nb_outputs }
}

fn message(e: Error) -> String {
    e.message()
}

#[test]
fn setup_refuses_a_name_that_is_taken() {
    let r = setup(true, "mine".to_string(), WalletType::New, 0, false);
    assert_eq!(r, Err("mine".to_string()));
}

#[test]
fn setup_from_a_fresh_phrase_hands_the_phrase_back() {
    let (w, phrase) = setup(false, "mine".to_string(), WalletType::New, 10, true).unwrap();
    assert_eq!(phrase.split(' ').count(), 12);
    // the wallet can be restored from the phrase
    let kind = WalletType::Mnemonic(phrase.clone());
    let (restored, _) = setup(false, "mine".to_string(), kind, 10, true).unwrap();
    assert_eq!(restored, w);
    assert_eq!(w.mnemonic, Some(phrase.clone()));
    assert_eq!(w.label, "mine");
    assert_eq!((w.birthday, w.last_scan), (10, 9));
    assert!(w.sp_receiver.is_testnet);
    assert!(w.is_valid());
    let keys = spwallet::derive::keys_from_mnemonic(&phrase, PASSPHRASE, true).unwrap();
    assert_eq!(w.get_scan_key(), keys.1);
    assert_eq!(w.spend_key, SpendKey::Secret(keys.2));
}

#[test]
fn setup_from_a_phrase_derives_the_keys() {
    let kind = WalletType::Mnemonic(ZERO_SEED_PHRASE.to_string());
    let (w, text) = setup(false, "mine".to_string(), kind, 0, false).unwrap();
    assert_eq!(text, "");
    assert_eq!(w.mnemonic, Some(ZERO_SEED_PHRASE.to_string()));
    assert_eq!(
        hex(&w.get_scan_key()),
        "78e7fd7d2b7a2c1456709d147021a122d2dccaafeada040cc1002083e2833b09"
    );
    let spend: Vec<u8> = bitcoin::hashes::hex::FromHex::from_hex(
        "c88567742d5019d7ccc81f6e82cef8ef01997a6a3761cc9166036b580549539b",
    )
    .unwrap();
    assert_eq!(w.spend_key, SpendKey::Secret(spend.try_into().unwrap()));

    let bad = WalletType::Mnemonic("abandon abandon".to_string());
    let r = setup(false, "mine".to_string(), bad, 0, false);
    assert_eq!(r, Err(message(Error::InvalidMnemonic)));
    let empty = WalletType::Mnemonic(String::new());
    let r = setup(false, "mine".to_string(), empty, 0, false);
    assert_eq!(r, Err(message(Error::InvalidMnemonic)));
}

#[test]
fn setup_from_private_keys_reads_their_hex() {
    let kind = WalletType::PrivateKeys("01".repeat(32), "03".repeat(32));
    let (w, text) = setup(false, "mine".to_string(), kind, 3, false).unwrap();
    assert_eq!(text, "");
    assert_eq!(w.mnemonic, None);
    assert_eq!(w.get_scan_key(), [1u8; 32]);
    assert_eq!(w.spend_key, SpendKey::Secret([3u8; 32]));
    assert_eq!(w.last_scan, 2);

    let short = WalletType::PrivateKeys("01".repeat(31), "03".repeat(32));
    assert_eq!(
        setup(false, "mine".to_string(), short, 3, false),
        Err(message(Error::InvalidInput))
    );
    let zero = WalletType::PrivateKeys("01".repeat(32), "00".repeat(32));
    assert_eq!(
        setup(false, "mine".to_string(), zero, 3, false),
        Err(message(Error::InvalidInput))
    );
}

#[test]
fn setup_of_a_watch_only_wallet_reads_the_public_spend_key() {
    let kind = WalletType::ReadOnly("01".repeat(32), PUBKEY_OF_ONES.to_string());
    let (w, text) = setup(false, "mine".to_string(), kind, 0, false).unwrap();
    assert_eq!(text, "");
    let bytes: Vec<u8> = bitcoin::hashes::hex::FromHex::from_hex(PUBKEY_OF_ONES).unwrap();
    assert_eq!(w.spend_key, SpendKey::Public(bytes.try_into().unwrap()));
    assert_eq!(w.get_receiving_address(), wallet().get_receiving_address());

    let private = WalletType::ReadOnly("01".repeat(32), "01".repeat(32));
    assert_eq!(
        setup(false, "mine".to_string(), private, 0, false),
        Err(message(Error::InvalidInput))
    );
}

#[test]
fn operations_answer_that_there_is_no_wallet() {
    let not_found = "Wallet not found".to_string();
    let missing = "Wallet doesn't exist".to_string();
    assert_eq!(change_birthday(None, 5), Err(missing.clone()));
    assert_eq!(reset_wallet(None), Err(missing));
    assert_eq!(get_wallet_info(&None), Err(not_found.clone()));
    assert_eq!(get_receiving_address(&None), Err(not_found.clone()));
    assert_eq!(get_outputs(&None), Err(not_found.clone()));
    assert_eq!(get_spendable_outputs(&None), Err(not_found.clone()));
    assert_eq!(create_new_psbt(&None, vec![], vec![]), Err(not_found.clone()));
    assert_eq!(fill_sp_outputs(&None, String::new()), Err(not_found.clone()));
    assert_eq!(sign_psbt(&None, String::new(), true), Err(not_found.clone()));
    assert_eq!(mark_transaction_inputs_as_spent(None, String::new()), Err(not_found.clone()));
    assert_eq!(show_mnemonic(None), Err(not_found));
}

#[test]
fn operations_refuse_a_wallet_that_is_not_well_formed() {
    let mut w = funded_wallet();
    w.owned.push(owned(0xaa, 5, 1));
    let corrupt = "Wallet is not well formed".to_string();
    assert_eq!(get_wallet_info(&Some(w.clone())), Err(corrupt.clone()));
    assert_eq!(get_receiving_address(&Some(w.clone())), Err(corrupt.clone()));
    assert_eq!(reset_wallet(Some(w.clone())), Err(corrupt.clone()));
    assert_eq!(create_new_psbt(&Some(w.clone()), vec![], vec![]), Err(corrupt.clone()));
    assert_eq!(mark_transaction_inputs_as_spent(Some(w), String::new()), Err(corrupt));
}

#[test]
fn wallet_information_is_read_from_the_wallet() {
    let mut w = funded_wallet();
    w.update_last_scan(42);
    w.mark_outpoint_spent(OutPoint { txid: [0xbb; 32], vout: 0 }, [1u8; 32]).unwrap();
    let info = get_wallet_info(&Some(w.clone())).unwrap();
    assert_eq!(info, WalletStatus { amount: 100_000, birthday: 7, scan_height: 42 });
    assert_eq!(get_receiving_address(&Some(w.clone())), Ok(w.get_receiving_address()));
    assert_eq!(get_outputs(&Some(w.clone())), Ok(w.list_outpoints()));
    let spendable = get_spendable_outputs(&Some(w.clone())).unwrap();
    assert_eq!(spendable, vec![w.list_outpoints()[0].clone()]);
    assert_eq!(show_mnemonic(Some(w)), Ok(None));
    let progress = ScanProgress { start: 7, current: 42, end: 100 };
    assert!(progress.start <= progress.current && progress.current <= progress.end);
}

#[test]
fn birthday_changes_and_the_outputs_stay() {
    let w = change_birthday(Some(funded_wallet()), 8).unwrap();
    assert_eq!(w.birthday, 8);
    assert_eq!(w.last_scan, 6);
    assert_eq!(w.list_outpoints().len(), 2);
    let mut expected = funded_wallet();
    expected.birthday = 8;
    assert_eq!(w, expected);
}

#[test]
fn reset_goes_back_to_the_birthday() {
    let mut w = funded_wallet();
    w.update_last_scan(100);
    let reset = reset_wallet(Some(w)).unwrap();
    assert_eq!(reset.last_scan, 7);
    assert_eq!(reset.list_outpoints().len(), 1);
    assert_eq!(reset.list_outpoints()[0].blockheight, 5);
}

#[test]
fn a_payment_goes_through_all_the_steps() {
    let w = Some(funded_wallet());
    let x = sp_address(3, 4);
    let inputs = get_spendable_outputs(&w).unwrap();
    let text = create_new_psbt(&w, inputs, vec![pay(&x, 120_000, 2)]).unwrap();
    let built: Psbt = text.parse().unwrap();
    assert_eq!(built.unsigned_tx.output.len(), 3);

    let text = fill_sp_outputs(&w, text).unwrap();
    let text = add_fee_for_fee_rate(text, 5, x).unwrap();
    let unsigned: Psbt = text.parse().unwrap();
    let signed_text = sign_psbt(&w, text.clone(), false).unwrap();
    let signed: Psbt = signed_text.parse().unwrap();
    assert!(signed.inputs.iter().all(|i| i.tap_key_sig.is_some()));
    assert!(signed.inputs.iter().all(|i| i.final_script_witness.is_none()));

    let final_text = sign_psbt(&w, text, true).unwrap();
    let finalized: Psbt = final_text.parse().unwrap();
    assert!(finalized.inputs.iter().all(|i| i.tap_key_sig.is_none()));
    let tx_hex = extract_tx_from_psbt(final_text).unwrap();
    let bytes: Vec<u8> = bitcoin::hashes::hex::FromHex::from_hex(&tx_hex).unwrap();
    let tx: bitcoin::Transaction = bitcoin::consensus::deserialize(&bytes).unwrap();
    assert_eq!(tx.output, unsigned.unsigned_tx.output);
    let paid: u64 = tx.output.iter().map(|o| o.value.to_sat()).sum();
    assert_eq!(150_000 - paid, 5 * tx.vsize() as u64);

    let after = mark_transaction_inputs_as_spent(w, tx_hex).unwrap();
    assert_eq!(after.get_spendable_amt(), 0);
    assert_eq!(after.get_unconfirmed_amt(), 150_000);
    let expected = OutputSpendStatus::Spent(tx.txid().to_string());
    assert!(after.list_outpoints().iter().all(|o| o.spend_status == expected));
}

#[test]
fn texts_that_are_no_psbt_are_refused() {
    let w = Some(funded_wallet());
    let invalid = message(Error::InvalidInput);
    assert_eq!(fill_sp_outputs(&w, "no psbt".to_string()), Err(invalid.clone()));
    assert_eq!(sign_psbt(&w, "no psbt".to_string(), false), Err(invalid.clone()));
    assert_eq!(
        add_fee_for_fee_rate("no psbt".to_string(), 1, sp_address(3, 4)),
        Err(invalid.clone())
    );
    assert_eq!(extract_tx_from_psbt("no psbt".to_string()), Err(invalid.clone()));
    assert_eq!(mark_transaction_inputs_as_spent(w, "zz".to_string()), Err(invalid));
}

#[test]
fn failures_of_the_wallet_come_back_as_their_text() {
    let w = Some(funded_wallet());
    let x = sp_address(3, 4);
    let inputs = get_spendable_outputs(&w).unwrap();
    let r = create_new_psbt(&w, inputs.clone(), vec![pay(&x, 150_001, 1)]);
    assert_eq!(r, Err("Insufficient funds".to_string()));
    let r = create_new_psbt(&w, inputs.clone(), vec![pay("garbage", 1, 1)]);
    assert_eq!(r, Err("Invalid address".to_string()));

    let text = create_new_psbt(&w, inputs, vec![pay(&x, 150_000, 1)]).unwrap();
    let r = add_fee_for_fee_rate(text.clone(), 5, sp_address(5, 6));
    assert_eq!(r, Err("Payer is not part of this transaction".to_string()));

    let mut stripped: Psbt = text.parse().unwrap();
    stripped.inputs[0].proprietary.clear();
    assert_eq!(sign_psbt(&w, stripped.to_string(), false), Err("Invalid tweak".to_string()));
    // a transaction that is not signed yet can be extracted, without witnesses
    let tx_hex = extract_tx_from_psbt(text).unwrap();
    let bytes: Vec<u8> = bitcoin::hashes::hex::FromHex::from_hex(&tx_hex).unwrap();
    let tx: bitcoin::Transaction = bitcoin::consensus::deserialize(&bytes).unwrap();
    assert!(tx.input.iter().all(|i| i.witness.is_empty()));
}

#[test]
fn every_failure_has_its_text() {
    let all = [
        (Error::InvalidInput, "Invalid input"),
        (Error::InvalidAddress, "Invalid address"),
        (Error::NetworkMismatch, "Wrong network for address"),
        (Error::InvalidTweak, "Invalid tweak"),
        (Error::InsufficientFunds, "Insufficient funds"),
        (Error::DustChange, "Change is dust"),
        (Error::MissingChange, "Missing a change output"),
        (Error::WatchOnly, "Watch-only wallet, can't spend"),
        (Error::NotFound, "owned outpoint not found"),
        (Error::AlreadySpent, "owned outpoint is already spent"),
        (Error::AlreadyMined, "owned outpoint is already mined"),
        (Error::PayerNotInTx, "Payer is not part of this transaction"),
        (Error::Cryptographic, "Cryptographic failure"),
        (Error::InvalidMnemonic, "Invalid mnemonic"),
        (Error::AssertionFailed, "Output keys do not match the outputs"),
    ];
    for (e, text) in all {
        assert_eq!(e.message(), text);
    }
}

#[test]
fn watch_only_wallet_lists_and_receives_but_does_not_spend() {
    let kind = WalletType::ReadOnly("01".repeat(32), PUBKEY_OF_ONES.to_string());
    let (mut w, _) = setup(false, "watch".to_string(), kind, 7, false).unwrap();
    w.extend_owned(vec![owned(0xaa, 5, 100_000)]);
    let w = Some(w);
    assert_eq!(get_receiving_address(&w), Ok(wallet().get_receiving_address()));
    assert_eq!(get_outputs(&w).unwrap().len(), 1);
    let x = sp_address(3, 4);
    let inputs = get_spendable_outputs(&w).unwrap();
    let text = create_new_psbt(&w, inputs, vec![pay(&x, 100_000, 1)]).unwrap();
    let watch_only = "Watch-only wallet, can't spend".to_string();
    assert_eq!(fill_sp_outputs(&w, text.clone()), Err(watch_only.clone()));
    assert_eq!(sign_psbt(&w, text.clone(), false), Err(watch_only.clone()));
    // also for a PSBT whose inputs carry no tweak
    let mut stripped: Psbt = text.parse().unwrap();
    stripped.inputs[0].proprietary.clear();
    assert_eq!(sign_psbt(&w, stripped.to_string(), true), Err(watch_only));
}
