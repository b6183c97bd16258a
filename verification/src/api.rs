//! The operations that a front end calls, on a wallet that was loaded and on
//! PSBTs and transactions in their text form.
//!
//! Loading and saving the wallet is the caller's part: a wallet that could not
//! be loaded is handed in as `None`, and a wallet that was changed is handed
//! back to be saved.

use vstd::prelude::*;
use bitcoin::psbt::Psbt;
use crate::address::{receiver_accepted, receiving_address_of};
use crate::builder::new_psbt_of;
use crate::derive::{
    derive_keys_from_mnemonic, keys_from_mnemonic, keys_of, word_count, MNEMONIC_WORDS,
};
use crate::error::Error;
use crate::fees::{fee_plan, has_all_funding, with_fee_taken};
use crate::filler::fill_of;
use crate::keys::{
    public_key_from_hex, public_key_of_hex, secret_key_from_hex, secret_key_of_hex, secret_of,
    SpendKey, SpendKeyView,
};
use crate::outputs::{
    clone_output, entry_outputs, outputs_of, recipients_of, retain_up_to, sum_unspent,
    OutputSpendStatus, OwnedOutput, OwnedOutputView, Recipient,
};
use crate::psbt::{
    all_funded, extract_tx, extractable, extracted_tx, input_count, parse_psbt, psbt_of_str,
    psbt_string, psbt_to_string, psbt_view, tx_input_count, PsbtView,
};
use crate::signer::{finalized, is_signed, sign_failure};
use crate::spclient::{
    initial_last_scan, keys_in_range, mark_all_spent, opt_text, receiver_for, SpClient,
    SpClientView,
};
use crate::tx::{
    displayed_hash, parse_transaction, spent_outpoints, transaction_hex, transaction_of_hex,
    transaction_to_hex, txid_of,
};

verus! {

/// What a front end shows of a wallet.
#[derive(Clone, Copy, Debug, PartialEq, Eq)]
pub struct WalletStatus {
    /// The sum of the amounts of the unspent outputs.
    pub amount: u64,
    /// The height from which the chain is scanned.
    pub birthday: u32,
    /// The height up to which the chain was scanned.
    pub scan_height: u32,
}

/// From what a wallet is set up.
#[derive(Clone, Debug, PartialEq, Eq)]
pub enum WalletType {
    /// From a fresh seed phrase.
    New,
    /// From a seed phrase.
    Mnemonic(String),
    /// From the hex digits of the private scan key and the private spend key.
    PrivateKeys(String, String),
    /// From the hex digits of the private scan key and the public spend key;
    /// such a wallet cannot spend.
    ReadOnly(String, String),
}

/// The text with which an operation answers where there is no wallet.
pub open spec fn not_found_text() -> Seq<char> {
    "Wallet not found"@
}

/// The text with which a change of a wallet answers where there is no wallet.
pub open spec fn missing_text() -> Seq<char> {
    "Wallet doesn't exist"@
}

/// The text with which an operation answers where the wallet is not well
/// formed.
pub open spec fn corrupt_text() -> Seq<char> {
    "Wallet is not well formed"@
}

/// What keeps an operation from working on a wallet: there is none, or it is
/// not well formed.
pub open spec fn wallet_fault(wallet: Option<SpClient>) -> Option<Seq<char>> {
    match wallet {
        None => Some(not_found_text()),
        Some(w) => if w.wf() {
            None
        } else {
            Some(corrupt_text())
        },
    }
}

/// The unspent ones among owned outputs, in order.
pub open spec fn unspent_of(s: Seq<OwnedOutputView>) -> Seq<OwnedOutputView>
    decreases s.len(),
{
    if s.len() == 0 {
        s
    } else if s.last().spend_status is Unspent {
        unspent_of(s.drop_last()).push(s.last())
    } else {
        unspent_of(s.drop_last())
    }
}

/// The scan key and the spend key that a wallet is set up with, and its seed
/// phrase where it has one. A fresh wallet draws them at random; for it they
/// are not described here.
///
/// From a seed phrase, the keys are those of [`keys_of`]; otherwise they are
/// read from their hex digits, and `InvalidInput` is the failure where one
/// does not read.
pub open spec fn setup_keys(
    wallet_type: WalletType,
    passphrase: Seq<char>,
    is_testnet: bool,
) -> Result<(Seq<u8>, SpendKeyView, Option<Seq<char>>), Error> {
    match wallet_type {
        WalletType::New => Err(Error::InvalidMnemonic),
        WalletType::Mnemonic(m) => match keys_of(m@, passphrase, is_testnet) {
            Ok((_, scan, spend)) => Ok((scan, SpendKeyView::Secret(spend), Some(m@))),
            Err(e) => Err(e),
        },
        WalletType::PrivateKeys(scan, spend) => match (
            secret_key_of_hex(scan@),
            secret_key_of_hex(spend@),
        ) {
            (Some(a), Some(b)) => Ok((a, SpendKeyView::Secret(b), None)),
            _ => Err(Error::InvalidInput),
        },
        WalletType::ReadOnly(scan, spend) => match (
            secret_key_of_hex(scan@),
            public_key_of_hex(spend@),
        ) {
            (Some(a), Some(b)) => Ok((a, SpendKeyView::Public(b), None)),
            _ => Err(Error::InvalidInput),
        },
    }
}

/// The fresh wallet with the given keys and seed phrase.
pub open spec fn fresh_wallet(
    label: Seq<char>,
    scan_sk: Seq<u8>,
    spend_key: SpendKeyView,
    mnemonic: Option<Seq<char>>,
    birthday: u32,
    is_testnet: bool,
) -> SpClientView {
    SpClientView {
        label,
        scan_sk,
        spend_key,
        mnemonic,
        sp_receiver: receiver_for(scan_sk, spend_key, is_testnet),
        birthday,
        last_scan: initial_last_scan(birthday),
        owned: Seq::empty(),
    }
}

/// Whether a wallet can be made of the keys: they are in range and give a
/// receiver.
pub open spec fn keys_accepted(
    scan_sk: Seq<u8>,
    spend_key: SpendKeyView,
    is_testnet: bool,
) -> bool {
    keys_in_range(scan_sk, spend_key) && receiver_accepted(
        receiver_for(scan_sk, spend_key, is_testnet),
    )
}

/// The failure of making a wallet of keys that are not accepted.
pub open spec fn keys_failure(scan_sk: Seq<u8>, spend_key: SpendKeyView) -> Error {
    if keys_in_range(scan_sk, spend_key) {
        Error::Cryptographic
    } else {
        Error::InvalidInput
    }
}

/// The passphrase of the seed phrases: none.
pub const PASSPHRASE: &'static str = "";

/// Sets a wallet up: from a fresh seed phrase, from a seed phrase, from two
/// private keys, or from a private scan key and a public spend key.
///
/// Hands back the wallet, to be saved, and the seed phrase where it is fresh,
/// else an empty text. A fresh seed phrase has twelve words, and the keys of
/// the wallet are the keys of that phrase, so that the wallet can be restored
/// from it. Where a wallet of that name exists already, the
/// failure is the name.
pub fn setup(
    exists: bool,
    label: String,
    wallet_type: WalletType,
    birthday: u32,
    is_testnet: bool,
) -> (r: Result<(SpClient, String), String>)
    ensures
        match r {
            Ok((w, m)) => {
                &&& !exists
                &&& w.wf()
                &&& match wallet_type {
                    WalletType::New => word_count(m@) == MNEMONIC_WORDS && match keys_of(
                        m@,
                        PASSPHRASE@,
                        is_testnet,
                    ) {
                        Ok((words, scan, spend)) => words == m@ && w@ == fresh_wallet(
                            label@,
                            scan,
                            SpendKeyView::Secret(spend),
                            Some(m@),
                            birthday,
                            is_testnet,
                        ),
                        Err(_) => false,
                    },
                    _ => m@.len() == 0 && match setup_keys(wallet_type, PASSPHRASE@, is_testnet) {
                        Ok((scan, spend, words)) => w@ == fresh_wallet(
                            label@,
                            scan,
                            spend,
                            words,
                            birthday,
                            is_testnet,
                        ),
                        Err(_) => false,
                    },
                }
            },
            Err(m) => if exists {
                m@ == label@
            } else {
                match wallet_type {
                    WalletType::New => m@ == Error::InvalidMnemonic.text() || m@
                        == Error::Cryptographic.text(),
                    _ => match setup_keys(wallet_type, PASSPHRASE@, is_testnet) {
                        Ok((scan, spend, _)) => !keys_accepted(scan, spend, is_testnet) && m@
                            == keys_failure(scan, spend).text(),
                        Err(e) => m@ == e.text(),
                    },
                }
            },
        },
{
    if exists {
        return Err(label);
    }
    match wallet_type {
        WalletType::New => {
            proof {
                reveal_strlit("");
            }
            let (mnemonic, scan_sk, spend_sk) = match derive_keys_from_mnemonic(
                "",
                PASSPHRASE,
                is_testnet,
            ) {
                Ok(k) => k,
                Err(e) => return Err(e.message()),
            };
            match SpClient::new(
                label,
                scan_sk,
                SpendKey::Secret(spend_sk),
                Some(mnemonic.clone()),
                birthday,
                is_testnet,
            ) {
                Ok(w) => Ok((w, mnemonic)),
                Err(e) => Err(e.message()),
            }
        },
        WalletType::Mnemonic(mnemonic) => {
            let (_, scan_sk, spend_sk) = match keys_from_mnemonic(
                mnemonic.as_str(),
                PASSPHRASE,
                is_testnet,
            ) {
                Ok(k) => k,
                Err(e) => return Err(e.message()),
            };
            match SpClient::new(
                label,
                scan_sk,
                SpendKey::Secret(spend_sk),
                Some(mnemonic),
                birthday,
                is_testnet,
            ) {
                Ok(w) => Ok((w, String::new())),
                Err(e) => Err(e.message()),
            }
        },
        WalletType::PrivateKeys(scan_sk_hex, spend_sk_hex) => {
            let keys = (
                secret_key_from_hex(scan_sk_hex.as_str()),
                secret_key_from_hex(spend_sk_hex.as_str()),
            );
            let (scan_sk, spend_sk) = match keys {
                (Some(a), Some(b)) => (a, b),
                _ => return Err(Error::InvalidInput.message()),
            };
            match SpClient::new(
                label,
                scan_sk,
                SpendKey::Secret(spend_sk),
                None,
                birthday,
                is_testnet,
            ) {
                Ok(w) => Ok((w, String::new())),
                Err(e) => Err(e.message()),
            }
        },
        WalletType::ReadOnly(scan_sk_hex, spend_pk_hex) => {
            let keys = (
                secret_key_from_hex(scan_sk_hex.as_str()),
                public_key_from_hex(spend_pk_hex.as_str()),
            );
            let (scan_sk, spend_pk) = match keys {
                (Some(a), Some(b)) => (a, b),
                _ => return Err(Error::InvalidInput.message()),
            };
            match SpClient::new(
                label,
                scan_sk,
                SpendKey::Public(spend_pk),
                None,
                birthday,
                is_testnet,
            ) {
                Ok(w) => Ok((w, String::new())),
                Err(e) => Err(e.message()),
            }
        },
    }
}

/// The wallet with another birthday, to be saved. The owned outputs stay,
/// also those below the new birthday.
pub fn change_birthday(wallet: Option<SpClient>, birthday: u32) -> (r: Result<SpClient, String>)
    ensures
        match wallet {
            Some(w) => r matches Ok(c) && c@ == (SpClientView { birthday, ..w@ }),
            None => r matches Err(m) && m@ == missing_text(),
        },
{
    match wallet {
        Some(sp_client) => {
            let mut sp_client = sp_client;
            sp_client.birthday = birthday;
            Ok(sp_client)
        },
        None => Err("Wallet doesn't exist".to_owned()),
    }
}

/// The wallet as it is after a scan up to its birthday only: without the
/// outputs above the birthday, to be saved.
pub fn reset_wallet(wallet: Option<SpClient>) -> (r: Result<SpClient, String>)
    ensures
        match wallet {
            Some(w) => if w.wf() {
                r matches Ok(c) && c.wf() && c@ == (SpClientView {
                    owned: retain_up_to(w@.owned, w@.birthday),
                    last_scan: w@.birthday,
                    ..w@
                })
            } else {
                r matches Err(m) && m@ == corrupt_text()
            },
            None => r matches Err(m) && m@ == missing_text(),
        },
{
    match wallet {
        Some(sp_client) => {
            if !sp_client.is_valid() {
                return Err("Wallet is not well formed".to_owned());
            }
            let birthday = sp_client.birthday;
            Ok(sp_client.reset_from_blockheight(birthday))
        },
        None => Err("Wallet doesn't exist".to_owned()),
    }
}

/// The spendable amount, the birthday and the scan height of a wallet.
pub fn get_wallet_info(wallet: &Option<SpClient>) -> (r: Result<WalletStatus, String>)
    ensures
        match wallet_fault(*wallet) {
            Some(text) => r matches Err(m) && m@ == text,
            None => r matches Ok(s) && s.amount == sum_unspent(wallet->Some_0@.owned) && s.birthday
                == wallet->Some_0@.birthday && s.scan_height == wallet->Some_0@.last_scan,
        },
{
    let sp_client = match wallet {
        Some(s) => s,
        None => return Err("Wallet not found".to_owned()),
    };
    if !sp_client.is_valid() {
        return Err("Wallet is not well formed".to_owned());
    }
    let scan_height = sp_client.last_scan;
    let birthday = sp_client.birthday;
    let amount = sp_client.get_spendable_amt();
    Ok(WalletStatus { amount, birthday, scan_height })
}

/// The address under which a wallet receives.
pub fn get_receiving_address(wallet: &Option<SpClient>) -> (r: Result<String, String>)
    ensures
        match wallet_fault(*wallet) {
            Some(text) => r matches Err(m) && m@ == text,
            None => r matches Ok(a) && a@ == receiving_address_of(wallet->Some_0@.sp_receiver),
        },
{
    let sp_client = match wallet {
        Some(s) => s,
        None => return Err("Wallet not found".to_owned()),
    };
    if !sp_client.is_valid() {
        return Err("Wallet is not well formed".to_owned());
    }
    Ok(sp_client.get_receiving_address())
}

/// The owned outputs of a wallet.
pub fn get_outputs(wallet: &Option<SpClient>) -> (r: Result<Vec<OwnedOutput>, String>)
    ensures
        match wallet {
            Some(w) => r matches Ok(o) && outputs_of(o@) == entry_outputs(w@.owned),
            None => r matches Err(m) && m@ == not_found_text(),
        },
{
    match wallet {
        Some(s) => Ok(s.list_outpoints()),
        None => Err("Wallet not found".to_owned()),
    }
}

/// The unspent ones among the owned outputs of a wallet.
pub fn get_spendable_outputs(wallet: &Option<SpClient>) -> (r: Result<Vec<OwnedOutput>, String>)
    ensures
        match wallet {
            Some(w) => r matches Ok(o) && outputs_of(o@) == unspent_of(entry_outputs(w@.owned)),
            None => r matches Err(m) && m@ == not_found_text(),
        },
{
    let outputs = get_outputs(wallet)?;
    let ghost all = outputs_of(outputs@);
    let mut r: Vec<OwnedOutput> = Vec::new();
    let mut i: usize = 0;
    while i < outputs.len()
        invariant
            i <= outputs.len(),
            all == outputs_of(outputs@),
            outputs_of(r@) == unspent_of(all.take(i as int)),
        decreases outputs.len() - i,
    {
        proof {
            assert(all.take(i as int + 1).drop_last() =~= all.take(i as int));
        }
        match outputs[i].spend_status {
            OutputSpendStatus::Unspent => {
                r.push(clone_output(&outputs[i]));
            },
            _ => {},
        }
        i += 1;
    }
    assert(all.take(i as int) =~= all);
    Ok(r)
}

/// The text of the unsigned PSBT that spends chosen outputs of a wallet to
/// recipients.
pub fn create_new_psbt(
    wallet: &Option<SpClient>,
    inputs: Vec<OwnedOutput>,
    recipients: Vec<Recipient>,
) -> (r: Result<String, String>)
    ensures
        match wallet_fault(*wallet) {
            Some(text) => r matches Err(m) && m@ == text,
            None => match new_psbt_of(
                wallet->Some_0@.sp_receiver.is_testnet,
                crate::address::change_address_of(wallet->Some_0@.sp_receiver),
                outputs_of(inputs@),
                recipients_of(recipients@),
            ) {
                Ok(v) => r matches Ok(s) && is_text_of(s@, v),
                Err(e) => r matches Err(m) && m@ == e.text(),
            },
        },
{
    let sp_client = match wallet {
        Some(s) => s,
        None => return Err("Wallet not found".to_owned()),
    };
    if !sp_client.is_valid() {
        return Err("Wallet is not well formed".to_owned());
    }
    match sp_client.create_new_psbt(inputs, recipients) {
        Ok(psbt) => Ok(psbt_to_string(&psbt)),
        Err(e) => Err(e.message()),
    }
}

/// Whether a text is the text of some PSBT that holds `v`.
pub open spec fn is_text_of(text: Seq<char>, v: PsbtView) -> bool {
    exists|p: Psbt| psbt_view(p) == v && text == psbt_string(p)
}

/// What taking `delta` from output `vout` comes to, in text: the text of the
/// PSBT with the fee taken, or the text of `InsufficientFunds` where the
/// output holds less.
pub open spec fn fee_text(v: PsbtView, r: Result<String, String>, vout: int, delta: int) -> bool {
    if v.unsigned_tx.output[vout].value < delta {
        r matches Err(m) && m@ == Error::InsufficientFunds.text()
    } else {
        r matches Ok(s) && is_text_of(s@, with_fee_taken(v, vout, delta))
    }
}

/// The text of the PSBT after one output of the payer was made to bear the
/// fee at a fee rate in satoshi per virtual byte. The payer is a silent
/// payment address or an ordinary one.
pub fn add_fee_for_fee_rate(psbt: String, fee_rate: u32, payer: String) -> (r: Result<
    String,
    String,
>)
    ensures
        match psbt_of_str(psbt@) {
            None => r matches Err(m) && m@ == Error::InvalidInput.text(),
            Some(v) => match fee_plan(v, fee_rate, payer@) {
                Err(e) => r matches Err(m) && m@ == e.text(),
                Ok(plan) => if plan.delta == 0 {
                    r matches Ok(s) && is_text_of(s@, v)
                } else {
                    exists|k: int|
                        0 <= k < plan.payers.len() && fee_text(
                            v,
                            r,
                            #[trigger] plan.payers[k],
                            plan.delta,
                        )
                },
            },
        },
{
    let mut psbt = match parse_psbt(psbt.as_str()) {
        Some(p) => p,
        None => return Err(Error::InvalidInput.message()),
    };
    match SpClient::set_fees(&mut psbt, fee_rate, payer) {
        Ok(()) => Ok(psbt_to_string(&psbt)),
        Err(e) => Err(e.message()),
    }
}

/// The text of the PSBT after every output that pays a silent payment address
/// got its real script.
pub fn fill_sp_outputs(wallet: &Option<SpClient>, psbt: String) -> (r: Result<String, String>)
    ensures
        match wallet {
            None => r matches Err(m) && m@ == not_found_text(),
            Some(w) => match psbt_of_str(psbt@) {
                None => r matches Err(m) && m@ == Error::InvalidInput.text(),
                Some(v) => match fill_of(w.spend_key@, v) {
                    Ok(f) => r matches Ok(s) && is_text_of(s@, f),
                    Err(e) => r matches Err(m) && m@ == e.text(),
                },
            },
        },
{
    let sp_client = match wallet {
        Some(s) => s,
        None => return Err("Wallet not found".to_owned()),
    };
    let mut psbt = match parse_psbt(psbt.as_str()) {
        Some(p) => p,
        None => return Err(Error::InvalidInput.message()),
    };
    match sp_client.fill_sp_outputs(&mut psbt) {
        Ok(()) => Ok(psbt_to_string(&psbt)),
        Err(e) => Err(e.message()),
    }
}

/// The text of the PSBT with a signature on every input, finalized where
/// `finalize` says so.
///
/// A watch-only wallet gets the text of `WatchOnly`, whatever the PSBT holds.
pub fn sign_psbt(wallet: &Option<SpClient>, psbt: String, finalize: bool) -> (r: Result<
    String,
    String,
>)
    ensures
        match wallet {
            None => r matches Err(m) && m@ == not_found_text(),
            Some(w) => match psbt_of_str(psbt@) {
                None => r matches Err(m) && m@ == Error::InvalidInput.text(),
                Some(v) => match sign_failure(w.spend_key@, v) {
                    Some(e) => r matches Err(m) && m@ == e.text(),
                    None => r matches Ok(s) && exists|signed: PsbtView|
                        is_signed(secret_of(w.spend_key@), v, signed) && is_text_of(
                            s@,
                            if finalize {
                                finalized(signed)
                            } else {
                                signed
                            },
                        ),
                },
            },
        },
{
    let sp_client = match wallet {
        Some(s) => s,
        None => return Err("Wallet not found".to_owned()),
    };
    let psbt = match parse_psbt(psbt.as_str()) {
        Some(p) => p,
        None => return Err(Error::InvalidInput.message()),
    };
    let mut signed = match sp_client.sign_psbt(psbt) {
        Ok(s) => s,
        Err(e) => return Err(e.message()),
    };
    let ghost signed_view = psbt_view(signed);
    if finalize {
        proof {
            assert forall|i: int| 0 <= i < signed_view.inputs.len() implies (
            #[trigger] signed_view.inputs[i]).tap_key_sig is Some by {
                assert(crate::signer::carries_signature(
                    psbt_view(psbt).inputs[i],
                    signed_view.inputs[i],
                ));
            }
        }
        match SpClient::finalize_psbt(&mut signed) {
            Ok(()) => {},
            Err(e) => return Err(e.message()),
        }
    }
    Ok(psbt_to_string(&signed))
}

/// The hex digits of the transaction of a finalized PSBT.
///
/// Fails with the text of `InvalidInput` where the text is no PSBT, the PSBT
/// lacks a map or a spent output for an input, or the transaction cannot be
/// extracted.
pub fn extract_tx_from_psbt(psbt: String) -> (r: Result<String, String>)
    ensures
        match psbt_of_str(psbt@) {
            Some(v) => if v.inputs.len() == v.unsigned_tx.input.len() && all_funded(v)
                && extractable(v) {
                r matches Ok(s) && s@ == transaction_hex(extracted_tx(v))
            } else {
                r matches Err(m) && m@ == Error::InvalidInput.text()
            },
            None => r matches Err(m) && m@ == Error::InvalidInput.text(),
        },
{
    let psbt = match parse_psbt(psbt.as_str()) {
        Some(p) => p,
        None => return Err(Error::InvalidInput.message()),
    };
    if input_count(&psbt) != tx_input_count(&psbt) {
        return Err(Error::InvalidInput.message());
    }
    if !has_all_funding(&psbt) {
        return Err(Error::InvalidInput.message());
    }
    match extract_tx(psbt) {
        Some(final_tx) => Ok(transaction_to_hex(&final_tx)),
        None => Err(Error::InvalidInput.message()),
    }
}

/// The wallet after every owned output that a transaction spends was marked
/// as spent, to be saved.
///
/// Fails where the hex digits are no transaction, and where one of the owned
/// outputs that it spends is not unspent.
pub fn mark_transaction_inputs_as_spent(wallet: Option<SpClient>, tx: String) -> (r: Result<
    SpClient,
    String,
>)
    ensures
        match wallet_fault(wallet) {
            Some(text) => r matches Err(m) && m@ == text,
            None => match transaction_of_hex(tx@) {
                None => r matches Err(m) && m@ == Error::InvalidInput.text(),
                Some(t) => match mark_all_spent(
                    wallet->Some_0@.owned,
                    spent_outpoints(t),
                    displayed_hash(txid_of(t)),
                ) {
                    Ok(s) => r matches Ok(c) && c.wf() && c@ == (SpClientView {
                        owned: s,
                        ..wallet->Some_0@
                    }),
                    Err(e) => r matches Err(m) && m@ == e.text(),
                },
            },
        },
{
    let mut sp_client = match wallet {
        Some(s) => s,
        None => return Err("Wallet not found".to_owned()),
    };
    if !sp_client.is_valid() {
        return Err("Wallet is not well formed".to_owned());
    }
    let tx = match parse_transaction(tx.as_str()) {
        Some(t) => t,
        None => return Err(Error::InvalidInput.message()),
    };
    match sp_client.mark_transaction_inputs_as_spent(&tx) {
        Ok(()) => Ok(sp_client),
        Err(e) => Err(e.message()),
    }
}

/// The seed phrase of a wallet, where it has one.
pub fn show_mnemonic(wallet: Option<SpClient>) -> (r: Result<Option<String>, String>)
    ensures
        match wallet {
            Some(w) => r matches Ok(m) && opt_text(m) == w@.mnemonic,
            None => r matches Err(m) && m@ == not_found_text(),
        },
{
    match wallet {
        Some(s) => Ok(s.mnemonic),
        None => Err("Wallet not found".to_owned()),
    }
}

} // verus!
