//! Partially signed transactions.
//!
//! A PSBT stays a value of the `bitcoin` crate. What the wallet reads and
//! writes of it is described by [`psbt_view`]; each read and each write is one
//! small function around one field or one call of that crate.

use vstd::prelude::*;
use bitcoin::absolute::LockTime;
use bitcoin::transaction::Version;
use bitcoin::{Amount, ScriptBuf, Sequence, Transaction, TxIn, TxOut, Witness};
use bitcoin::psbt::{raw, Psbt};
use crate::tx::{
    outpoints_view, outputs_view, tx_view, OutPoint, OutPointView, TxInView, TxOutView, TxOutput,
    TxView,
};

verus! {

/// The key of a proprietary record, as a mathematical value.
pub struct PropKey {
    /// The prefix that names the application.
    pub prefix: Seq<u8>,
    /// The subtype.
    pub subtype: u8,
    /// The key bytes after the subtype.
    pub key: Seq<u8>,
}

/// The key of a proprietary record.
#[derive(Clone, Debug)]
pub struct ProprietaryKey {
    /// The prefix that names the application.
    pub prefix: Vec<u8>,
    /// The subtype.
    pub subtype: u8,
    /// The key bytes after the subtype.
    pub key: Vec<u8>,
}

impl View for ProprietaryKey {
    type V = PropKey;

    open spec fn view(&self) -> PropKey {
        PropKey { prefix: self.prefix@, subtype: self.subtype, key: self.key@ }
    }
}

/// A taproot key-spend signature with its sighash type.
pub struct TapKeySig {
    /// The 64 bytes of the Schnorr signature.
    pub sig: Seq<u8>,
    /// The sighash type in its consensus encoding.
    pub hash_ty: u8,
}

/// What the wallet reads and writes of the key-value map of one PSBT input.
pub struct InputView {
    /// The whole previous transaction, where it is recorded.
    pub non_witness_utxo: Option<TxView>,
    /// The output that the input spends, where it is recorded.
    pub witness_utxo: Option<TxOutView>,
    /// The serialized public keys for which a partial signature is recorded.
    pub partial_sigs: Set<Seq<u8>>,
    /// The sighash type to sign with, as the raw number.
    pub sighash_type: Option<u32>,
    /// The redeem script.
    pub redeem_script: Option<Seq<u8>>,
    /// The witness script.
    pub witness_script: Option<Seq<u8>>,
    /// The serialized public keys for which a derivation path is recorded.
    pub bip32_derivation: Set<Seq<u8>>,
    /// The final unlocking script.
    pub final_script_sig: Option<Seq<u8>>,
    /// The items of the final witness stack.
    pub final_script_witness: Option<Seq<Seq<u8>>>,
    /// The taproot key-spend signature.
    pub tap_key_sig: Option<TapKeySig>,
    /// The proprietary records.
    pub proprietary: Map<PropKey, Seq<u8>>,
}

/// What the wallet reads and writes of the key-value map of one PSBT output.
pub struct OutputView {
    /// The proprietary records.
    pub proprietary: Map<PropKey, Seq<u8>>,
}

/// What the wallet reads and writes of a PSBT.
pub struct PsbtView {
    /// The unsigned transaction.
    pub unsigned_tx: TxView,
    /// The key-value map of each input.
    pub inputs: Seq<InputView>,
    /// The key-value map of each output.
    pub outputs: Seq<OutputView>,
}

impl InputView {
    /// The map of an input of which nothing is recorded.
    pub open spec fn empty() -> InputView {
        InputView {
            non_witness_utxo: None,
            witness_utxo: None,
            partial_sigs: Set::empty(),
            sighash_type: None,
            redeem_script: None,
            witness_script: None,
            bip32_derivation: Set::empty(),
            final_script_sig: None,
            final_script_witness: None,
            tap_key_sig: None,
            proprietary: Map::empty(),
        }
    }

    /// The sighash type for a taproot signature: the default where none is
    /// recorded, and none where the recorded number is no taproot type.
    pub open spec fn taproot_hash_ty(self) -> Option<u8> {
        match self.sighash_type {
            None => Some(0u8),
            Some(n) => if is_tap_sighash_type(n as int) {
                Some(n as u8)
            } else {
                None
            },
        }
    }

    /// The bytes that stand for the key-spend signature in a witness.
    pub open spec fn key_sig_bytes(self) -> Option<Seq<u8>> {
        match self.tap_key_sig {
            None => None,
            Some(s) => Some(serialized_key_sig(s)),
        }
    }
}

impl OutputView {
    /// The map of an output of which nothing is recorded.
    pub open spec fn empty() -> OutputView {
        OutputView { proprietary: Map::empty() }
    }
}

impl PsbtView {
    /// Every input and every output of the transaction has its map.
    pub open spec fn consistent(self) -> bool {
        &&& self.inputs.len() == self.unsigned_tx.input.len()
        &&& self.outputs.len() == self.unsigned_tx.output.len()
    }
}

/// The numbers that stand for a taproot sighash type.
pub open spec fn is_tap_sighash_type(n: int) -> bool {
    n == 0 || n == 1 || n == 2 || n == 3 || n == 0x81 || n == 0x82 || n == 0x83
}

/// A key-spend signature as it stands in a witness: the 64 bytes, and the
/// sighash type after them unless it is the default.
pub open spec fn serialized_key_sig(s: TapKeySig) -> Seq<u8> {
    if s.hash_ty == 0 {
        s.sig
    } else {
        s.sig.push(s.hash_ty)
    }
}

/// The output that input `i` spends, taken from the witness UTXO or else from
/// the recorded previous transaction.
pub open spec fn funding_utxo(v: PsbtView, i: int) -> Option<TxOutView> {
    let vout = v.unsigned_tx.input[i].previous_output.vout as int;
    match (v.inputs[i].witness_utxo, v.inputs[i].non_witness_utxo) {
        (Some(u), _) => Some(u),
        (None, Some(prev)) => if vout < prev.output.len() {
            Some(prev.output[vout])
        } else {
            None
        },
        (None, None) => None,
    }
}

/// The spent output of every input is recorded.
pub open spec fn all_funded(v: PsbtView) -> bool {
    forall|i: int| 0 <= i < v.inputs.len() ==> (#[trigger] funding_utxo(v, i)) is Some
}

/// The transaction with the final scripts and witnesses of the inputs put in.
pub open spec fn extracted_tx(v: PsbtView) -> TxView {
    TxView {
        input: Seq::new(
            v.unsigned_tx.input.len(),
            |i: int|
                if i < v.inputs.len() {
                    TxInView {
                        script_sig: match v.inputs[i].final_script_sig {
                            Some(s) => s,
                            None => Seq::empty(),
                        },
                        witness: match v.inputs[i].final_script_witness {
                            Some(w) => w,
                            None => Seq::empty(),
                        },
                        ..v.unsigned_tx.input[i]
                    }
                } else {
                    v.unsigned_tx.input[i]
                },
        ),
        ..v.unsigned_tx
    }
}

/// The inputs of a fresh unsigned transaction: each spends one outpoint, with
/// the given sequence number, an empty script and an empty witness.
pub open spec fn unsigned_inputs(outpoints: Seq<OutPointView>, sequence: u32) -> Seq<TxInView> {
    outpoints.map_values(
        |o: OutPointView|
            TxInView {
                previous_output: o,
                script_sig: Seq::empty(),
                sequence,
                witness: Seq::empty(),
            },
    )
}

/// The view of an optional byte string.
pub open spec fn opt_bytes(r: Option<Vec<u8>>) -> Option<Seq<u8>> {
    match r {
        Some(v) => Some(v@),
        None => None,
    }
}

/// The view of an optional output.
pub open spec fn opt_output(r: Option<TxOutput>) -> Option<TxOutView> {
    match r {
        Some(v) => Some(v@),
        None => None,
    }
}

/// The views of the items of a witness stack.
pub open spec fn stack_view(items: Seq<Vec<u8>>) -> Seq<Seq<u8>> {
    items.map_values(|v: Vec<u8>| v@)
}

#[verifier::external_type_specification]
#[verifier::external_body]
pub struct ExPsbt(Psbt);

/// What a PSBT of the `bitcoin` crate holds in the fields that the wallet reads
/// and writes: the unsigned transaction, and of each input and output map the
/// fields that [`InputView`] and [`OutputView`] list.
pub uninterp spec fn psbt_view(p: Psbt) -> PsbtView;

/// The view of the PSBT that `bitcoin::psbt::Psbt::from_str` reads from a
/// base64 string, if it reads one.
pub uninterp spec fn psbt_of_str(s: Seq<char>) -> Option<PsbtView>;

/// The base64 text that the `Display` impl of `bitcoin::psbt::Psbt` writes.
pub uninterp spec fn psbt_string(p: Psbt) -> Seq<char>;

/// Whether `bitcoin::psbt::Psbt::extract_tx` hands out the transaction of a
/// PSBT in which every input has its spent output.
pub uninterp spec fn extractable(v: PsbtView) -> bool;

/// The hash that `SighashCache::taproot_key_spend_signature_hash` computes for
/// input `index` of a transaction with the given previous outputs and sighash
/// type, if it computes one.
pub uninterp spec fn key_spend_sighash_of(
    tx: TxView,
    prevouts: Seq<TxOutView>,
    index: int,
    hash_ty: u8,
) -> Option<Seq<u8>>;

/// Builds a transaction from plain values and calls
/// `bitcoin::psbt::Psbt::from_unsigned_tx`, which gives every input and output
/// an empty map and fails only where an input has a script or a witness.
#[verifier::external_body]
pub(crate) fn new_psbt(
    version: i32,
    lock_time: u32,
    outpoints: &Vec<OutPoint>,
    sequence: u32,
    outputs: &Vec<TxOutput>,
) -> (p: Psbt)
    ensures
        psbt_view(p).unsigned_tx == (TxView {
            version,
            lock_time,
            input: unsigned_inputs(outpoints_view(outpoints@), sequence),
            output: outputs_view(outputs@),
        }),
        psbt_view(p).inputs == Seq::new(outpoints@.len(), |i: int| InputView::empty()),
        psbt_view(p).outputs == Seq::new(outputs@.len(), |i: int| OutputView::empty()),
{
    let input = outpoints.iter().map(|o| TxIn {
        previous_output: bitcoin::OutPoint::new(
            bitcoin::hashes::Hash::from_byte_array(o.txid),
            o.vout,
        ),
        script_sig: ScriptBuf::new(),
        sequence: Sequence(sequence),
        witness: Witness::new(),
    }).collect();
    let output = outputs.iter().map(|o| TxOut {
        value: Amount::from_sat(o.value),
        script_pubkey: ScriptBuf::from_bytes(o.script_pubkey.clone()),
    }).collect();
    let (version, lock_time) = (Version(version), LockTime::from_consensus(lock_time));
    Psbt::from_unsigned_tx(Transaction { version, lock_time, input, output }).unwrap()
}

/// Calls `bitcoin::psbt::Psbt::from_str`. `None` stands for every parse error.
#[verifier::external_body]
pub(crate) fn parse_psbt(s: &str) -> (r: Option<Psbt>)
    ensures
        match r {
            Some(p) => psbt_of_str(s@) == Some(psbt_view(p)),
            None => psbt_of_str(s@) is None,
        },
{
    s.parse().ok()
}

/// Formats a PSBT with its `Display` impl.
#[verifier::external_body]
pub(crate) fn psbt_to_string(p: &Psbt) -> (s: String)
    ensures
        s@ == psbt_string(*p),
{
    p.to_string()
}

/// Clones a PSBT.
#[verifier::external_body]
pub(crate) fn clone_psbt(p: &Psbt) -> (r: Psbt)
    ensures
        r == *p,
{
    p.clone()
}

/// The length of the field `inputs`.
#[verifier::external_body]
pub(crate) fn input_count(p: &Psbt) -> (n: usize)
    ensures
        n == psbt_view(*p).inputs.len(),
{
    p.inputs.len()
}

/// The length of the field `outputs`.
#[verifier::external_body]
pub(crate) fn output_count(p: &Psbt) -> (n: usize)
    ensures
        n == psbt_view(*p).outputs.len(),
{
    p.outputs.len()
}

/// The number of inputs of the unsigned transaction.
#[verifier::external_body]
pub(crate) fn tx_input_count(p: &Psbt) -> (n: usize)
    ensures
        n == psbt_view(*p).unsigned_tx.input.len(),
{
    p.unsigned_tx.input.len()
}

/// The number of outputs of the unsigned transaction.
#[verifier::external_body]
pub(crate) fn tx_output_count(p: &Psbt) -> (n: usize)
    ensures
        n == psbt_view(*p).unsigned_tx.output.len(),
{
    p.unsigned_tx.output.len()
}

/// Reads the field `previous_output` of input `i` of the unsigned transaction.
#[verifier::external_body]
pub(crate) fn tx_input_outpoint(p: &Psbt, i: usize) -> (o: OutPoint)
    requires
        i < psbt_view(*p).unsigned_tx.input.len(),
    ensures
        o@ == psbt_view(*p).unsigned_tx.input[i as int].previous_output,
{
    let prev = p.unsigned_tx.input[i].previous_output;
    OutPoint { txid: bitcoin::hashes::Hash::to_byte_array(prev.txid), vout: prev.vout }
}

/// Reads output `i` of the unsigned transaction.
#[verifier::external_body]
pub(crate) fn tx_output(p: &Psbt, i: usize) -> (o: TxOutput)
    requires
        i < psbt_view(*p).unsigned_tx.output.len(),
    ensures
        o@ == psbt_view(*p).unsigned_tx.output[i as int],
{
    let u = &p.unsigned_tx.output[i];
    TxOutput { value: u.value.to_sat(), script_pubkey: u.script_pubkey.to_bytes() }
}

/// Writes the script of output `i` of the unsigned transaction.
#[verifier::external_body]
pub(crate) fn set_tx_output_script(p: &mut Psbt, i: usize, script: Vec<u8>)
    requires
        i < psbt_view(*old(p)).unsigned_tx.output.len(),
    ensures
        psbt_view(*final(p)) == (PsbtView {
            unsigned_tx: TxView {
                output: psbt_view(*old(p)).unsigned_tx.output.update(
                    i as int,
                    TxOutView {
                        script_pubkey: script@,
                        ..psbt_view(*old(p)).unsigned_tx.output[i as int]
                    },
                ),
                ..psbt_view(*old(p)).unsigned_tx
            },
            ..psbt_view(*old(p))
        }),
{
    p.unsigned_tx.output[i].script_pubkey = ScriptBuf::from_bytes(script);
}

/// Writes the amount of output `i` of the unsigned transaction.
#[verifier::external_body]
pub(crate) fn set_tx_output_value(p: &mut Psbt, i: usize, value: u64)
    requires
        i < psbt_view(*old(p)).unsigned_tx.output.len(),
    ensures
        psbt_view(*final(p)) == (PsbtView {
            unsigned_tx: TxView {
                output: psbt_view(*old(p)).unsigned_tx.output.update(
                    i as int,
                    TxOutView { value, ..psbt_view(*old(p)).unsigned_tx.output[i as int] },
                ),
                ..psbt_view(*old(p)).unsigned_tx
            },
            ..psbt_view(*old(p))
        }),
{
    p.unsigned_tx.output[i].value = Amount::from_sat(value);
}

/// Looks a key up in the proprietary records of input `i`.
#[verifier::external_body]
pub(crate) fn input_proprietary(p: &Psbt, i: usize, key: &ProprietaryKey) -> (r: Option<Vec<u8>>)
    requires
        i < psbt_view(*p).inputs.len(),
    ensures
        match r {
            Some(v) => psbt_view(*p).inputs[i as int].proprietary.contains_key(key@)
                && psbt_view(*p).inputs[i as int].proprietary[key@] == v@,
            None => !psbt_view(*p).inputs[i as int].proprietary.contains_key(key@),
        },
{
    let (prefix, subtype) = (key.prefix.clone(), key.subtype);
    let key = raw::ProprietaryKey { prefix, subtype, key: key.key.clone() };
    p.inputs[i].proprietary.get(&key).cloned()
}

/// Looks a key up in the proprietary records of output `i`.
#[verifier::external_body]
pub(crate) fn output_proprietary(p: &Psbt, i: usize, key: &ProprietaryKey) -> (r: Option<Vec<u8>>)
    requires
        i < psbt_view(*p).outputs.len(),
    ensures
        match r {
            Some(v) => psbt_view(*p).outputs[i as int].proprietary.contains_key(key@)
                && psbt_view(*p).outputs[i as int].proprietary[key@] == v@,
            None => !psbt_view(*p).outputs[i as int].proprietary.contains_key(key@),
        },
{
    let (prefix, subtype) = (key.prefix.clone(), key.subtype);
    let key = raw::ProprietaryKey { prefix, subtype, key: key.key.clone() };
    p.outputs[i].proprietary.get(&key).cloned()
}

/// Inserts a proprietary record into the map of input `i`; a record with the
/// same key is replaced.
#[verifier::external_body]
pub(crate) fn insert_input_proprietary(p: &mut Psbt, i: usize, key: &ProprietaryKey, value: Vec<u8>)
    requires
        i < psbt_view(*old(p)).inputs.len(),
    ensures
        psbt_view(*final(p)) == (PsbtView {
            inputs: psbt_view(*old(p)).inputs.update(
                i as int,
                InputView {
                    proprietary: psbt_view(*old(p)).inputs[i as int].proprietary.insert(
                        key@,
                        value@,
                    ),
                    ..psbt_view(*old(p)).inputs[i as int]
                },
            ),
            ..psbt_view(*old(p))
        }),
{
    let (prefix, subtype) = (key.prefix.clone(), key.subtype);
    let key = raw::ProprietaryKey { prefix, subtype, key: key.key.clone() };
    p.inputs[i].proprietary.insert(key, value);
}

/// Inserts a proprietary record into the map of output `i`; a record with the
/// same key is replaced.
#[verifier::external_body]
pub(crate) fn insert_output_proprietary(
    p: &mut Psbt,
    i: usize,
    key: &ProprietaryKey,
    value: Vec<u8>,
)
    requires
        i < psbt_view(*old(p)).outputs.len(),
    ensures
        psbt_view(*final(p)) == (PsbtView {
            outputs: psbt_view(*old(p)).outputs.update(
                i as int,
                OutputView {
                    proprietary: psbt_view(*old(p)).outputs[i as int].proprietary.insert(
                        key@,
                        value@,
                    ),
                },
            ),
            ..psbt_view(*old(p))
        }),
{
    let (prefix, subtype) = (key.prefix.clone(), key.subtype);
    let key = raw::ProprietaryKey { prefix, subtype, key: key.key.clone() };
    p.outputs[i].proprietary.insert(key, value);
}

/// Reads the field `witness_utxo` of input `i`.
#[verifier::external_body]
pub(crate) fn witness_utxo(p: &Psbt, i: usize) -> (r: Option<TxOutput>)
    requires
        i < psbt_view(*p).inputs.len(),
    ensures
        opt_output(r) == psbt_view(*p).inputs[i as int].witness_utxo,
{
    p.inputs[i].witness_utxo.as_ref().map(|u| TxOutput {
        value: u.value.to_sat(),
        script_pubkey: u.script_pubkey.to_bytes(),
    })
}

/// Writes the field `witness_utxo` of input `i`.
#[verifier::external_body]
pub(crate) fn set_witness_utxo(p: &mut Psbt, i: usize, utxo: &TxOutput)
    requires
        i < psbt_view(*old(p)).inputs.len(),
    ensures
        psbt_view(*final(p)) == (PsbtView {
            inputs: psbt_view(*old(p)).inputs.update(
                i as int,
                InputView { witness_utxo: Some(utxo@), ..psbt_view(*old(p)).inputs[i as int] },
            ),
            ..psbt_view(*old(p))
        }),
{
    let script_pubkey = ScriptBuf::from_bytes(utxo.script_pubkey.clone());
    p.inputs[i].witness_utxo = Some(TxOut { value: Amount::from_sat(utxo.value), script_pubkey });
}

/// Calls `bitcoin::psbt::Psbt::iter_funding_utxos`, which yields for each input
/// its witness UTXO or else the spent output of the recorded previous
/// transaction, and collects the outputs; `None` where one input has neither.
#[verifier::external_body]
pub(crate) fn funding_utxos(p: &Psbt) -> (r: Option<Vec<TxOutput>>)
    requires
        psbt_view(*p).inputs.len() == psbt_view(*p).unsigned_tx.input.len(),
    ensures
        match r {
            Some(v) => v@.len() == psbt_view(*p).inputs.len() && forall|i: int|
                0 <= i < v@.len() ==> funding_utxo(psbt_view(*p), i) == Some(#[trigger] v@[i]@),
            None => !all_funded(psbt_view(*p)),
        },
{
    p.iter_funding_utxos().map(|u| u.ok().map(|u| TxOutput {
        value: u.value.to_sat(),
        script_pubkey: u.script_pubkey.to_bytes(),
    })).collect()
}

/// Calls `bitcoin::psbt::Input::taproot_hash_ty` on input `i`: the default type
/// where no sighash type is recorded, `None` where the recorded number is no
/// taproot sighash type.
#[verifier::external_body]
pub(crate) fn input_hash_ty(p: &Psbt, i: usize) -> (r: Option<u8>)
    requires
        i < psbt_view(*p).inputs.len(),
    ensures
        r == psbt_view(*p).inputs[i as int].taproot_hash_ty(),
{
    p.inputs[i].taproot_hash_ty().ok().map(|t| t as u8)
}

/// Writes the field `tap_key_sig` of input `i`.
#[verifier::external_body]
pub(crate) fn set_tap_key_sig(p: &mut Psbt, i: usize, sig: &[u8; 64], hash_ty: u8)
    requires
        i < psbt_view(*old(p)).inputs.len(),
        is_tap_sighash_type(hash_ty as int),
    ensures
        psbt_view(*final(p)) == (PsbtView {
            inputs: psbt_view(*old(p)).inputs.update(
                i as int,
                InputView {
                    tap_key_sig: Some(TapKeySig { sig: sig@, hash_ty }),
                    ..psbt_view(*old(p)).inputs[i as int]
                },
            ),
            ..psbt_view(*old(p))
        }),
{
    let sig = bitcoin::secp256k1::schnorr::Signature::from_slice(sig).unwrap();
    let hash_ty = bitcoin::TapSighashType::from_consensus_u8(hash_ty).unwrap();
    p.inputs[i].tap_key_sig = Some(bitcoin::taproot::Signature { sig, hash_ty });
}

/// Calls `bitcoin::taproot::Signature::to_vec` on the key-spend signature of
/// input `i`: the 64 bytes, and the sighash type after them unless it is the
/// default.
#[verifier::external_body]
pub(crate) fn tap_key_sig_bytes(p: &Psbt, i: usize) -> (r: Option<Vec<u8>>)
    requires
        i < psbt_view(*p).inputs.len(),
    ensures
        opt_bytes(r) == psbt_view(*p).inputs[i as int].key_sig_bytes(),
{
    p.inputs[i].tap_key_sig.map(|s| s.to_vec())
}

/// Writes the field `final_script_witness` of input `i`, with
/// `bitcoin::Witness::from_slice`.
#[verifier::external_body]
pub(crate) fn set_final_script_witness(p: &mut Psbt, i: usize, items: &Vec<Vec<u8>>)
    requires
        i < psbt_view(*old(p)).inputs.len(),
    ensures
        psbt_view(*final(p)) == (PsbtView {
            inputs: psbt_view(*old(p)).inputs.update(
                i as int,
                InputView {
                    final_script_witness: Some(stack_view(items@)),
                    ..psbt_view(*old(p)).inputs[i as int]
                },
            ),
            ..psbt_view(*old(p))
        }),
{
    p.inputs[i].final_script_witness = Some(Witness::from_slice(items));
}

/// Empties the field `tap_key_sig` of input `i`.
#[verifier::external_body]
pub(crate) fn clear_tap_key_sig(p: &mut Psbt, i: usize)
    requires
        i < psbt_view(*old(p)).inputs.len(),
    ensures
        psbt_view(*final(p)) == (PsbtView {
            inputs: psbt_view(*old(p)).inputs.update(
                i as int,
                InputView { tap_key_sig: None, ..psbt_view(*old(p)).inputs[i as int] },
            ),
            ..psbt_view(*old(p))
        }),
{
    p.inputs[i].tap_key_sig = None;
}

/// Empties the field `partial_sigs` of input `i`.
#[verifier::external_body]
pub(crate) fn clear_partial_sigs(p: &mut Psbt, i: usize)
    requires
        i < psbt_view(*old(p)).inputs.len(),
    ensures
        psbt_view(*final(p)) == (PsbtView {
            inputs: psbt_view(*old(p)).inputs.update(
                i as int,
                InputView { partial_sigs: Set::empty(), ..psbt_view(*old(p)).inputs[i as int] },
            ),
            ..psbt_view(*old(p))
        }),
{
    p.inputs[i].partial_sigs = std::collections::BTreeMap::new();
}

/// Empties the field `sighash_type` of input `i`.
#[verifier::external_body]
pub(crate) fn clear_sighash_type(p: &mut Psbt, i: usize)
    requires
        i < psbt_view(*old(p)).inputs.len(),
    ensures
        psbt_view(*final(p)) == (PsbtView {
            inputs: psbt_view(*old(p)).inputs.update(
                i as int,
                InputView { sighash_type: None, ..psbt_view(*old(p)).inputs[i as int] },
            ),
            ..psbt_view(*old(p))
        }),
{
    p.inputs[i].sighash_type = None;
}

/// Empties the field `redeem_script` of input `i`.
#[verifier::external_body]
pub(crate) fn clear_redeem_script(p: &mut Psbt, i: usize)
    requires
        i < psbt_view(*old(p)).inputs.len(),
    ensures
        psbt_view(*final(p)) == (PsbtView {
            inputs: psbt_view(*old(p)).inputs.update(
                i as int,
                InputView { redeem_script: None, ..psbt_view(*old(p)).inputs[i as int] },
            ),
            ..psbt_view(*old(p))
        }),
{
    p.inputs[i].redeem_script = None;
}

/// Empties the field `witness_script` of input `i`.
#[verifier::external_body]
pub(crate) fn clear_witness_script(p: &mut Psbt, i: usize)
    requires
        i < psbt_view(*old(p)).inputs.len(),
    ensures
        psbt_view(*final(p)) == (PsbtView {
            inputs: psbt_view(*old(p)).inputs.update(
                i as int,
                InputView { witness_script: None, ..psbt_view(*old(p)).inputs[i as int] },
            ),
            ..psbt_view(*old(p))
        }),
{
    p.inputs[i].witness_script = None;
}

/// Empties the field `bip32_derivation` of input `i`.
#[verifier::external_body]
pub(crate) fn clear_bip32_derivation(p: &mut Psbt, i: usize)
    requires
        i < psbt_view(*old(p)).inputs.len(),
    ensures
        psbt_view(*final(p)) == (PsbtView {
            inputs: psbt_view(*old(p)).inputs.update(
                i as int,
                InputView {
                    bip32_derivation: Set::empty(),
                    ..psbt_view(*old(p)).inputs[i as int]
                },
            ),
            ..psbt_view(*old(p))
        }),
{
    p.inputs[i].bip32_derivation = std::collections::BTreeMap::new();
}

/// Calls `bitcoin::psbt::Psbt::extract_tx`, which puts the final script and
/// witness of each input into the unsigned transaction. `None` stands for
/// every error: outputs above the inputs, an absurd fee rate. The call stops
/// the program where the lengths differ or a recorded previous transaction
/// lacks the spent output, which `requires` leaves out.
#[verifier::external_body]
pub(crate) fn extract_tx(p: Psbt) -> (r: Option<Transaction>)
    requires
        psbt_view(p).inputs.len() == psbt_view(p).unsigned_tx.input.len(),
        all_funded(psbt_view(p)),
    ensures
        r.is_some() == extractable(psbt_view(p)),
        r matches Some(t) ==> tx_view(t) == extracted_tx(psbt_view(p)),
{
    p.extract_tx().ok()
}

/// Calls `SighashCache::taproot_key_spend_signature_hash` on the unsigned
/// transaction, with all the previous outputs. `None` stands for every error.
#[verifier::external_body]
pub(crate) fn key_spend_sighash(
    p: &Psbt,
    prevouts: &Vec<TxOutput>,
    index: usize,
    hash_ty: u8,
) -> (r: Option<[u8; 32]>)
    ensures
        match r {
            Some(h) => key_spend_sighash_of(
                psbt_view(*p).unsigned_tx,
                outputs_view(prevouts@),
                index as int,
                hash_ty,
            ) == Some(h@),
            None => key_spend_sighash_of(
                psbt_view(*p).unsigned_tx,
                outputs_view(prevouts@),
                index as int,
                hash_ty,
            ) is None,
        },
{
    let ty = bitcoin::TapSighashType::from_consensus_u8(hash_ty).ok()?;
    let prevouts: Vec<TxOut> = prevouts.iter().map(|o| TxOut {
        value: Amount::from_sat(o.value),
        script_pubkey: ScriptBuf::from_bytes(o.script_pubkey.clone()),
    }).collect();
    let prevouts = bitcoin::sighash::Prevouts::All(&prevouts);
    let mut cache = bitcoin::sighash::SighashCache::new(&p.unsigned_tx);
    let hash = cache.taproot_key_spend_signature_hash(index, &prevouts, ty).ok()?;
    Some(bitcoin::hashes::Hash::to_byte_array(hash))
}

} // verus!

