//! Placing the fee of a PSBT on one of the outputs of a payer.
//!
//! The size of the final transaction is measured on a copy that is signed
//! with a dummy signature, which has the size of a real one.

use vstd::prelude::*;
use bitcoin::Transaction;
use bitcoin::psbt::Psbt;
use crate::address::{
    address_of, consensus_string_of, decode_string, parse_address, parse_sp_address, sp_address_of,
    SpAddress, SpAddressView,
};
use crate::builder::{
    address_record, address_record_key, all_slots, built_psbt, inputs_data_of,
    lemma_all_slots_total, lemma_slot_outputs_total, new_psbt_of, slots_with_change, total_in,
    total_out, InputDataView, SlotView,
};
use crate::constants::DUST_THRESHOLD;
use crate::error::Error;
use crate::outputs::{OwnedOutputView, RecipientView};
use crate::psbt::{
    all_funded, clone_psbt, extract_tx, extractable, extracted_tx, funding_utxo, funding_utxos,
    input_count, output_count, output_proprietary, psbt_view, set_tap_key_sig, set_tx_output_value,
    tx_input_count, tx_output, tx_output_count, InputView, OutputView, PsbtView, TapKeySig,
};
use crate::signer::{carries_signatures, finalized};
use crate::spclient::SpClient;
use crate::tx::{
    bytes_eq, total_value, transaction_vsize, tx_shape, tx_view, vsize_of, TxOutView, TxView,
};

verus! {

/// The 64 bytes that stand in for a signature where only its size matters.
pub open spec fn fake_signature() -> Seq<u8> {
    Seq::new(64, |i: int| 1u8)
}

/// The PSBT with the stand-in signature on every input.
pub open spec fn fake_signed(v: PsbtView) -> PsbtView {
    PsbtView {
        inputs: v.inputs.map_values(
            |i: InputView|
                InputView {
                    tap_key_sig: Some(TapKeySig { sig: fake_signature(), hash_ty: 0 }),
                    ..i
                },
        ),
        ..v
    }
}

/// The transaction of the PSBT as it is with a stand-in signature in the
/// witness of every input.
pub open spec fn fake_tx(v: PsbtView) -> TxView {
    extracted_tx(finalized(fake_signed(v)))
}

/// Whether the transaction of a PSBT can be measured: every input of the
/// transaction has its map and its spent output, and the transaction with
/// stand-in signatures can be extracted.
pub open spec fn can_measure(v: PsbtView) -> bool {
    &&& v.inputs.len() == v.unsigned_tx.input.len()
    &&& all_funded(v)
    &&& extractable(finalized(fake_signed(v)))
}

/// The silent payment address that an output carries, if it carries one.
///
/// `InvalidInput` where the record holds no string, `InvalidAddress` where the
/// string is no silent payment address.
pub open spec fn slot_recipient_of(o: OutputView) -> Result<Option<SpAddressView>, Error> {
    if !o.proprietary.contains_key(address_record_key()) {
        Ok(None)
    } else {
        match consensus_string_of(o.proprietary[address_record_key()]) {
            None => Err(Error::InvalidInput),
            Some(text) => match sp_address_of(text) {
                None => Err(Error::InvalidAddress),
                Some(a) => Ok(Some(a)),
            },
        }
    }
}

/// The indices of the outputs that carry a silent payment address with the
/// keys and the network of `payer`, or the failure of the first output whose
/// address does not read.
pub open spec fn outputs_to(outputs: Seq<OutputView>, payer: SpAddressView) -> Result<
    Seq<int>,
    Error,
>
    decreases outputs.len(),
{
    if outputs.len() == 0 {
        Ok(Seq::empty())
    } else {
        match outputs_to(outputs.drop_last(), payer) {
            Err(e) => Err(e),
            Ok(s) => match slot_recipient_of(outputs.last()) {
                Err(e) => Err(e),
                Ok(Some(a)) => if a.same_keys(payer) {
                    Ok(s.push(outputs.len() - 1))
                } else {
                    Ok(s)
                },
                Ok(None) => Ok(s),
            },
        }
    }
}

/// The indices of the outputs with the given script.
pub open spec fn outputs_with_script(outputs: Seq<TxOutView>, script: Seq<u8>) -> Seq<int>
    decreases outputs.len(),
{
    if outputs.len() == 0 {
        Seq::empty()
    } else if outputs.last().script_pubkey == script {
        outputs_with_script(outputs.drop_last(), script).push(outputs.len() - 1)
    } else {
        outputs_with_script(outputs.drop_last(), script)
    }
}

/// The indices of the outputs that pay the payer: for a silent payment
/// address, those that carry it; for an ordinary address, those with its
/// script. `InvalidAddress` where the payer is neither.
pub open spec fn payer_outputs(v: PsbtView, payer: Seq<char>) -> Result<Seq<int>, Error> {
    match sp_address_of(payer) {
        Some(a) => outputs_to(v.outputs, a),
        None => match address_of(payer) {
            None => Err(Error::InvalidAddress),
            Some(a) => Ok(outputs_with_script(v.unsigned_tx.output, a.script_pubkey)),
        },
    }
}

/// The sum of the amounts that the first `n` inputs spend.
pub open spec fn funding_sum(v: PsbtView, n: nat) -> int
    decreases n,
{
    if n == 0 {
        0
    } else {
        funding_sum(v, (n - 1) as nat) + (funding_utxo(v, n - 1)->Some_0).value
    }
}

/// What the inputs hold above the outputs.
pub open spec fn surplus(v: PsbtView) -> int {
    funding_sum(v, v.inputs.len()) - total_value(v.unsigned_tx.output)
}

/// The fee of the transaction at a fee rate in satoshi per virtual byte.
pub open spec fn fee_at(v: PsbtView, fee_rate: u32) -> int {
    fee_rate * vsize_of(tx_shape(fake_tx(v)))
}

/// Where the fee goes: the outputs of the payer, and what one of them has to
/// give up.
pub struct FeePlan {
    /// The indices of the outputs of the payer.
    pub payers: Seq<int>,
    /// The part of the fee that the surplus does not cover; zero where it
    /// covers the fee.
    pub delta: int,
}

/// The outputs of the payer, as far as the PSBT can bear a fee at all.
///
/// `InvalidInput` where the PSBT lacks a map for an input or output of its
/// transaction; the failure of [`payer_outputs`]; `PayerNotInTx` where no
/// output pays the payer; `InvalidInput` where an input lacks its spent
/// output, or a total is above 64 bits; `InsufficientFunds` where the outputs
/// spend more than the inputs hold; `MissingChange` where the surplus is above
/// the dust threshold.
pub open spec fn fee_basis(v: PsbtView, payer: Seq<char>) -> Result<Seq<int>, Error> {
    if !v.consistent() {
        Err(Error::InvalidInput)
    } else {
        match payer_outputs(v, payer) {
            Err(e) => Err(e),
            Ok(payers) => if payers.len() == 0 {
                Err(Error::PayerNotInTx)
            } else if !all_funded(v) || funding_sum(v, v.inputs.len()) > u64::MAX || total_value(
                v.unsigned_tx.output,
            ) > u64::MAX {
                Err(Error::InvalidInput)
            } else if surplus(v) < 0 {
                Err(Error::InsufficientFunds)
            } else if surplus(v) > DUST_THRESHOLD {
                Err(Error::MissingChange)
            } else {
                Ok(payers)
            },
        }
    }
}

/// Where the fee goes at a fee rate in satoshi per virtual byte.
///
/// After the failures of [`fee_basis`]: `InvalidInput` where the transaction
/// with stand-in signatures cannot be extracted, or the fee is above 64 bits.
pub open spec fn fee_plan(v: PsbtView, fee_rate: u32, payer: Seq<char>) -> Result<FeePlan, Error> {
    match fee_basis(v, payer) {
        Err(e) => Err(e),
        Ok(payers) => if !extractable(finalized(fake_signed(v))) || fee_at(v, fee_rate)
            > u64::MAX {
            Err(Error::InvalidInput)
        } else if fee_at(v, fee_rate) > surplus(v) {
            Ok(FeePlan { payers, delta: fee_at(v, fee_rate) - surplus(v) })
        } else {
            Ok(FeePlan { payers, delta: 0 })
        },
    }
}

/// The PSBT with `delta` taken from the amount of output `vout`.
pub open spec fn with_fee_taken(v: PsbtView, vout: int, delta: int) -> PsbtView {
    PsbtView {
        unsigned_tx: TxView {
            output: v.unsigned_tx.output.update(
                vout,
                TxOutView {
                    value: (v.unsigned_tx.output[vout].value - delta) as u64,
                    ..v.unsigned_tx.output[vout]
                },
            ),
            ..v.unsigned_tx
        },
        ..v
    }
}

/// What taking `delta` from output `vout` comes to: the PSBT with the fee
/// taken, or `InsufficientFunds` and the PSBT as it was where the output
/// holds less.
pub open spec fn fee_taken(
    before: Psbt,
    after: Psbt,
    r: Result<(), Error>,
    vout: int,
    delta: int,
) -> bool {
    if psbt_view(before).unsigned_tx.output[vout].value < delta {
        r == Err::<(), Error>(Error::InsufficientFunds) && after == before
    } else {
        r is Ok && psbt_view(after) == with_fee_taken(psbt_view(before), vout, delta)
    }
}

/// The views of a sequence of indices.
pub open spec fn indices_view(v: Seq<usize>) -> Seq<int> {
    v.map_values(|i: usize| i as int)
}

/// Once a prefix of the outputs has failed, all of them fail in the same way.
proof fn lemma_outputs_to_fail(outputs: Seq<OutputView>, payer: SpAddressView, n: int)
    requires
        0 <= n <= outputs.len(),
        outputs_to(outputs.take(n), payer) is Err,
    ensures
        outputs_to(outputs, payer) == outputs_to(outputs.take(n), payer),
    decreases outputs.len() - n,
{
    if n == outputs.len() {
        assert(outputs.take(n) =~= outputs);
    } else {
        assert(outputs.take(n + 1).drop_last() =~= outputs.take(n));
        lemma_outputs_to_fail(outputs, payer, n + 1);
    }
}

/// The indices of the payer's outputs are indices of outputs.
proof fn lemma_outputs_to_bounded(outputs: Seq<OutputView>, payer: SpAddressView)
    ensures
        outputs_to(outputs, payer) matches Ok(s) ==> forall|k: int|
            0 <= k < s.len() ==> 0 <= #[trigger] s[k] < outputs.len(),
    decreases outputs.len(),
{
    if outputs.len() > 0 {
        lemma_outputs_to_bounded(outputs.drop_last(), payer);
        if outputs_to(outputs, payer) is Ok {
            let before = outputs_to(outputs.drop_last(), payer)->Ok_0;
            let all = outputs_to(outputs, payer)->Ok_0;
            assert forall|k: int| 0 <= k < all.len() implies 0 <= #[trigger] all[k]
                < outputs.len() by {
                if k < before.len() {
                }
            }
        }
    }
}

/// The indices of the outputs with a script are indices of outputs.
proof fn lemma_outputs_with_script_bounded(outputs: Seq<TxOutView>, script: Seq<u8>)
    ensures
        forall|k: int|
            0 <= k < outputs_with_script(outputs, script).len() ==> 0
                <= #[trigger] outputs_with_script(outputs, script)[k] < outputs.len(),
    decreases outputs.len(),
{
    if outputs.len() > 0 {
        lemma_outputs_with_script_bounded(outputs.drop_last(), script);
        let before = outputs_with_script(outputs.drop_last(), script);
        let all = outputs_with_script(outputs, script);
        assert forall|k: int| 0 <= k < all.len() implies 0 <= #[trigger] all[k] < outputs.len() by {
            if k < before.len() {
            }
        }
    }
}

/// The sums over a prefix are not negative and at most the sums over more.
proof fn lemma_funding_sum_monotone(v: PsbtView, n: nat, m: nat)
    requires
        n <= m,
    ensures
        0 <= funding_sum(v, n) <= funding_sum(v, m),
    decreases m,
{
    if n < m {
        lemma_funding_sum_monotone(v, n, (m - 1) as nat);
    } else if n > 0 {
        lemma_funding_sum_monotone(v, (n - 1) as nat, (n - 1) as nat);
    }
}

/// The total of a prefix of outputs is not negative and at most the total.
proof fn lemma_total_value_prefix(outputs: Seq<TxOutView>, n: int)
    requires
        0 <= n <= outputs.len(),
    ensures
        0 <= total_value(outputs.take(n)) <= total_value(outputs),
    decreases outputs.len() - n,
{
    if n == outputs.len() {
        assert(outputs.take(n) =~= outputs);
        lemma_total_value_nonneg(outputs);
    } else {
        lemma_total_value_prefix(outputs, n + 1);
        assert(outputs.take(n + 1).drop_last() =~= outputs.take(n));
        lemma_total_value_nonneg(outputs.take(n));
    }
}

/// The total of a sequence of outputs is not negative.
proof fn lemma_total_value_nonneg(outputs: Seq<TxOutView>)
    ensures
        0 <= total_value(outputs),
    decreases outputs.len(),
{
    if outputs.len() > 0 {
        lemma_total_value_nonneg(outputs.drop_last());
    }
}

/// Replacing output `i` changes the total by the difference of the amounts.
pub proof fn lemma_total_value_update(outputs: Seq<TxOutView>, i: int, o: TxOutView)
    requires
        0 <= i < outputs.len(),
    ensures
        total_value(outputs.update(i, o)) == total_value(outputs) - outputs[i].value + o.value,
    decreases outputs.len(),
{
    if i == outputs.len() - 1 {
        assert(outputs.update(i, o).drop_last() =~= outputs.drop_last());
    } else {
        lemma_total_value_update(outputs.drop_last(), i, o);
        assert(outputs.update(i, o).drop_last() =~= outputs.drop_last().update(i, o));
    }
}

/// The sum of what the inputs spend depends only on the unsigned transaction
/// and on the outputs that the inputs record.
proof fn lemma_funding_sum_same(a: PsbtView, b: PsbtView, n: nat)
    requires
        n <= a.inputs.len(),
        a.inputs.len() == b.inputs.len(),
        a.unsigned_tx.input == b.unsigned_tx.input,
        forall|i: int|
            0 <= i < a.inputs.len() ==> (#[trigger] a.inputs[i]).witness_utxo
                == b.inputs[i].witness_utxo && a.inputs[i].non_witness_utxo
                == b.inputs[i].non_witness_utxo,
    ensures
        funding_sum(a, n) == funding_sum(b, n),
    decreases n,
{
    if n > 0 {
        lemma_funding_sum_same(a, b, (n - 1) as nat);
    }
}

/// In a PSBT that is made of inputs and outputs, the first `n` inputs spend
/// what the first `n` chosen outputs hold.
proof fn lemma_built_funding(d: Seq<InputDataView>, s: Seq<SlotView>, n: nat)
    requires
        n <= d.len(),
    ensures
        funding_sum(built_psbt(d, s), n) == total_in(d.take(n as int)),
        forall|i: int| 0 <= i < n ==> (#[trigger] funding_utxo(built_psbt(d, s), i)) is Some,
    decreases n,
{
    if n > 0 {
        lemma_built_funding(d, s, (n - 1) as nat);
        assert(d.take(n as int).drop_last() =~= d.take(n - 1));
    }
}

/// A PSBT that was built spends exactly what its inputs hold: every input
/// records what it spends, and the outputs, with the change among them, add
/// up to the inputs.
pub proof fn law_built_psbt_is_balanced(
    is_testnet: bool,
    change_address: Seq<char>,
    inputs: Seq<OwnedOutputView>,
    recipients: Seq<RecipientView>,
)
    requires
        new_psbt_of(is_testnet, change_address, inputs, recipients) is Ok,
    ensures
        (new_psbt_of(is_testnet, change_address, inputs, recipients)->Ok_0).consistent(),
        all_funded(new_psbt_of(is_testnet, change_address, inputs, recipients)->Ok_0),
        surplus(new_psbt_of(is_testnet, change_address, inputs, recipients)->Ok_0) == 0,
{
    let d = inputs_data_of(inputs)->Ok_0;
    let paid = all_slots(recipients, is_testnet)->Ok_0;
    let s = slots_with_change(paid, total_in(d), total_out(recipients), change_address)->Ok_0;
    let v = built_psbt(d, s);
    lemma_built_funding(d, s, d.len());
    assert(d.take(d.len() as int) =~= d);
    lemma_all_slots_total(recipients, is_testnet);
    lemma_slot_outputs_total(s);
    if total_in(d) - total_out(recipients) > DUST_THRESHOLD {
        crate::builder::lemma_total_out_nonneg(recipients);
        assert(s.drop_last() =~= paid);
    }
}

/// The transaction with stand-in signatures has the virtual size of the
/// transaction that is signed and finalized, where every input signs with
/// the default sighash type.
pub proof fn law_fake_sign_has_the_signed_size(v: PsbtView, signed: PsbtView)
    requires
        carries_signatures(v, signed),
        forall|i: int|
            0 <= i < v.inputs.len() ==> (#[trigger] v.inputs[i]).taproot_hash_ty() == Some(0u8),
    ensures
        vsize_of(tx_shape(extracted_tx(finalized(signed)))) == vsize_of(tx_shape(fake_tx(v))),
{
    let done = extracted_tx(finalized(signed));
    let stand_in = fake_tx(v);
    assert forall|i: int| 0 <= i < done.input.len() implies done.input[i].script_sig
        == stand_in.input[i].script_sig && done.input[i].witness.map_values(|w: Seq<u8>| w.len())
        == stand_in.input[i].witness.map_values(|w: Seq<u8>| w.len()) by {
        if i < v.inputs.len() {
        }
    }
    assert(tx_shape(done).inputs =~= tx_shape(stand_in).inputs);
}

/// After the fee was taken from an output, the inputs hold more than the
/// outputs by exactly the fee.
pub proof fn law_fee_equation(v: PsbtView, fee_rate: u32, payer: Seq<char>, k: int)
    requires
        fee_plan(v, fee_rate, payer) is Ok,
        (fee_plan(v, fee_rate, payer)->Ok_0).delta > 0,
        0 <= k < (fee_plan(v, fee_rate, payer)->Ok_0).payers.len(),
        v.unsigned_tx.output[(fee_plan(v, fee_rate, payer)->Ok_0).payers[k]].value >= (fee_plan(
            v,
            fee_rate,
            payer,
        )->Ok_0).delta,
    ensures
        surplus(
            with_fee_taken(
                v,
                (fee_plan(v, fee_rate, payer)->Ok_0).payers[k],
                (fee_plan(v, fee_rate, payer)->Ok_0).delta,
            ),
        ) == fee_at(v, fee_rate),
{
    let plan = fee_plan(v, fee_rate, payer)->Ok_0;
    let vout = plan.payers[k];
    lemma_payers_bounded(v, payer);
    let w = with_fee_taken(v, vout, plan.delta);
    lemma_total_value_update(v.unsigned_tx.output, vout, w.unsigned_tx.output[vout]);
    lemma_funding_sum_same(v, w, v.inputs.len());
}

/// The indices of the payer's outputs are indices of outputs of the
/// transaction.
pub proof fn lemma_payers_bounded(v: PsbtView, payer: Seq<char>)
    requires
        v.consistent(),
    ensures
        payer_outputs(v, payer) matches Ok(s) ==> forall|k: int|
            0 <= k < s.len() ==> 0 <= #[trigger] s[k] < v.unsigned_tx.output.len(),
{
    match sp_address_of(payer) {
        Some(a) => {
            lemma_outputs_to_bounded(v.outputs, a);
        },
        None => {
            match address_of(payer) {
                Some(a) => {
                    lemma_outputs_with_script_bounded(v.unsigned_tx.output, a.script_pubkey);
                },
                None => {},
            }
        },
    }
}

/// Calls `SliceRandom::choose` with the thread's random number generator:
/// one of the items, whichever, and none where there is no item.
#[verifier::external_body]
pub(crate) fn choose_index(items: &Vec<usize>) -> (r: Option<usize>)
    ensures
        match r {
            Some(x) => items@.contains(x),
            None => items@.len() == 0,
        },
{
    let mut rng = bip39::rand::thread_rng();
    bip39::rand::seq::SliceRandom::choose(&items[..], &mut rng).copied()
}

/// The silent payment address that output `i` carries.
fn slot_recipient(psbt: &Psbt, i: usize) -> (r: Result<Option<SpAddress>, Error>)
    requires
        i < psbt_view(*psbt).outputs.len(),
    ensures
        match r {
            Ok(Some(a)) => slot_recipient_of(psbt_view(*psbt).outputs[i as int]) == Ok::<
                Option<SpAddressView>,
                Error,
            >(Some(a@)),
            Ok(None) => slot_recipient_of(psbt_view(*psbt).outputs[i as int]) == Ok::<
                Option<SpAddressView>,
                Error,
            >(None),
            Err(e) => slot_recipient_of(psbt_view(*psbt).outputs[i as int]) == Err::<
                Option<SpAddressView>,
                Error,
            >(e),
        },
{
    let record = match output_proprietary(psbt, i, &address_record()) {
        Some(r) => r,
        None => return Ok(None),
    };
    let text = match decode_string(&record) {
        Some(t) => t,
        None => return Err(Error::InvalidInput),
    };
    match parse_sp_address(text.as_str()) {
        Some(a) => Ok(Some(a)),
        None => Err(Error::InvalidAddress),
    }
}

/// The indices of the outputs that pay the payer.
pub fn payer_vouts(psbt: &Psbt, payer: &String) -> (r: Result<Vec<usize>, Error>)
    ensures
        match r {
            Ok(s) => payer_outputs(psbt_view(*psbt), payer@) == Ok::<Seq<int>, Error>(
                indices_view(s@),
            ),
            Err(e) => payer_outputs(psbt_view(*psbt), payer@) == Err::<Seq<int>, Error>(e),
        },
{
    let mut found: Vec<usize> = Vec::new();
    assert(indices_view(found@) =~= Seq::<int>::empty());
    match parse_sp_address(payer.as_str()) {
        Some(sp_address) => {
            let n = output_count(psbt);
            let ghost all = psbt_view(*psbt).outputs;
            let mut i: usize = 0;
            while i < n
                invariant
                    i <= n,
                    n == all.len(),
                    all == psbt_view(*psbt).outputs,
                    sp_address_of(payer@) == Some(sp_address@),
                    outputs_to(all.take(i as int), sp_address@) == Ok::<Seq<int>, Error>(
                        indices_view(found@),
                    ),
                decreases n - i,
            {
                proof {
                    assert(all.take(i as int + 1).drop_last() =~= all.take(i as int));
                }
                let ghost before = indices_view(found@);
                match slot_recipient(psbt, i) {
                    Ok(Some(candidate)) => {
                        if sp_address.same_keys(&candidate) {
                            found.push(i);
                            assert(indices_view(found@) =~= before.push(i as int));
                        }
                    },
                    Ok(None) => {},
                    Err(e) => {
                        proof {
                            lemma_outputs_to_fail(all, sp_address@, i as int + 1);
                        }
                        return Err(e);
                    },
                }
                i += 1;
            }
            assert(all.take(i as int) =~= all);
            Ok(found)
        },
        None => {
            let address = match parse_address(payer.as_str()) {
                Some(a) => a,
                None => return Err(Error::InvalidAddress),
            };
            let n = tx_output_count(psbt);
            let ghost all = psbt_view(*psbt).unsigned_tx.output;
            let mut i: usize = 0;
            while i < n
                invariant
                    i <= n,
                    n == all.len(),
                    all == psbt_view(*psbt).unsigned_tx.output,
                    sp_address_of(payer@) is None,
                    address_of(payer@) == Some(address@),
                    outputs_with_script(all.take(i as int), address.script_pubkey@)
                        == indices_view(found@),
                decreases n - i,
            {
                proof {
                    assert(all.take(i as int + 1).drop_last() =~= all.take(i as int));
                }
                let output = tx_output(psbt, i);
                if bytes_eq(&output.script_pubkey, &address.script_pubkey) {
                    found.push(i);
                }
                i += 1;
            }
            assert(all.take(i as int) =~= all);
            Ok(found)
        },
    }
}

/// Whether every input of the transaction has its map, and its spent output
/// recorded in it.
pub fn has_all_funding(psbt: &Psbt) -> (r: bool)
    ensures
        r == (psbt_view(*psbt).inputs.len() == psbt_view(*psbt).unsigned_tx.input.len()
            && all_funded(psbt_view(*psbt))),
{
    if input_count(psbt) != tx_input_count(psbt) {
        return false;
    }
    match funding_utxos(psbt) {
        Some(utxos) => {
            proof {
                let v = psbt_view(*psbt);
                assert forall|k: int| 0 <= k < v.inputs.len() implies (#[trigger] funding_utxo(
                    v,
                    k,
                )) is Some by {
                    assert(funding_utxo(v, k) == Some(utxos@[k]@));
                }
            }
            true
        },
        None => false,
    }
}

/// The sum of the amounts that the inputs spend, where every input of the
/// transaction has its map and its spent output recorded in it, and the sum
/// fits in 64 bits.
pub fn funding_total(psbt: &Psbt) -> (r: Option<u64>)
    ensures
        match r {
            Some(t) => psbt_view(*psbt).inputs.len() == psbt_view(*psbt).unsigned_tx.input.len()
                && all_funded(psbt_view(*psbt)) && t == funding_sum(
                psbt_view(*psbt),
                psbt_view(*psbt).inputs.len(),
            ),
            None => psbt_view(*psbt).inputs.len() != psbt_view(*psbt).unsigned_tx.input.len()
                || !all_funded(psbt_view(*psbt)) || funding_sum(
                psbt_view(*psbt),
                psbt_view(*psbt).inputs.len(),
            ) > u64::MAX,
        },
{
    if input_count(psbt) != tx_input_count(psbt) {
        return None;
    }
    let utxos = match funding_utxos(psbt) {
        Some(u) => u,
        None => return None,
    };
    let ghost v = psbt_view(*psbt);
    let mut sum: u64 = 0;
    let mut i: usize = 0;
    while i < utxos.len()
        invariant
            i <= utxos.len(),
            v == psbt_view(*psbt),
            utxos@.len() == v.inputs.len(),
            forall|k: int|
                0 <= k < utxos@.len() ==> funding_utxo(v, k) == Some(#[trigger] utxos@[k]@),
            sum == funding_sum(v, i as nat),
        decreases utxos.len() - i,
    {
        proof {
            lemma_funding_sum_monotone(v, (i + 1) as nat, v.inputs.len());
            assert(funding_utxo(v, i as int) == Some(utxos@[i as int]@));
        }
        match sum.checked_add(utxos[i].value) {
            Some(s) => {
                sum = s;
            },
            None => {
                return None;
            },
        }
        i += 1;
    }
    proof {
        assert forall|k: int| 0 <= k < v.inputs.len() implies (#[trigger] funding_utxo(v, k))
            is Some by {
            assert(funding_utxo(v, k) == Some(utxos@[k]@));
        }
    }
    Some(sum)
}

/// The sum of the amounts of the outputs, where it fits in 64 bits.
pub fn output_total(psbt: &Psbt) -> (r: Option<u64>)
    ensures
        match r {
            Some(t) => t == total_value(psbt_view(*psbt).unsigned_tx.output),
            None => total_value(psbt_view(*psbt).unsigned_tx.output) > u64::MAX,
        },
{
    let n = tx_output_count(psbt);
    let ghost all = psbt_view(*psbt).unsigned_tx.output;
    let mut sum: u64 = 0;
    let mut i: usize = 0;
    while i < n
        invariant
            i <= n,
            n == all.len(),
            all == psbt_view(*psbt).unsigned_tx.output,
            sum == total_value(all.take(i as int)),
        decreases n - i,
    {
        proof {
            assert(all.take(i as int + 1).drop_last() =~= all.take(i as int));
            lemma_total_value_prefix(all, i as int + 1);
        }
        match sum.checked_add(tx_output(psbt, i).value) {
            Some(s) => {
                sum = s;
            },
            None => {
                return None;
            },
        }
        i += 1;
    }
    assert(all.take(i as int) =~= all);
    Some(sum)
}

/// Takes `delta` from the amount of output `vout`.
///
/// Fails with `InvalidInput` where there is no such output and with
/// `InsufficientFunds` where the output holds less; the PSBT is then left as
/// it was.
pub fn deduct_fee(psbt: &mut Psbt, vout: usize, delta: u64) -> (r: Result<(), Error>)
    ensures
        if vout >= psbt_view(*old(psbt)).unsigned_tx.output.len() {
            r == Err::<(), Error>(Error::InvalidInput) && *final(psbt) == *old(psbt)
        } else if psbt_view(*old(psbt)).unsigned_tx.output[vout as int].value < delta {
            r == Err::<(), Error>(Error::InsufficientFunds) && *final(psbt) == *old(psbt)
        } else {
            r is Ok && psbt_view(*final(psbt)) == with_fee_taken(
                psbt_view(*old(psbt)),
                vout as int,
                delta as int,
            )
        },
{
    if vout >= tx_output_count(psbt) {
        return Err(Error::InvalidInput);
    }
    let old_value = tx_output(psbt, vout).value;
    if old_value < delta {
        return Err(Error::InsufficientFunds);
    }
    set_tx_output_value(psbt, vout, old_value - delta);
    Ok(())
}

impl SpClient {
    /// The transaction of a PSBT as it is with a stand-in signature in the
    /// witness of every input, for measuring its size.
    ///
    /// Fails with `InvalidInput` where an input of the transaction lacks its
    /// map or its spent output, or the transaction cannot be extracted.
    pub fn sign_psbt_fake(psbt: &Psbt) -> (r: Result<Transaction, Error>)
        ensures
            match r {
                Ok(t) => can_measure(psbt_view(*psbt)) && tx_view(t) == fake_tx(psbt_view(*psbt)),
                Err(e) => e == Error::InvalidInput && !can_measure(psbt_view(*psbt)),
            },
    {
        if !has_all_funding(psbt) {
            return Err(Error::InvalidInput);
        }
        let mut fake_psbt = clone_psbt(psbt);
        let fake_sig: [u8; 64] = [1u8; 64];
        let n = input_count(psbt);
        let ghost start = psbt_view(*psbt);
        let mut i: usize = 0;
        assert(start.inputs =~= Seq::new(
            n as nat,
            |k: int|
                if k < i {
                    fake_signed(start).inputs[k]
                } else {
                    start.inputs[k]
                },
        ));
        while i < n
            invariant
                i <= n,
                n == start.inputs.len(),
                fake_sig@ == fake_signature(),
                psbt_view(fake_psbt) == (PsbtView {
                    inputs: Seq::new(
                        n as nat,
                        |k: int|
                            if k < i {
                                fake_signed(start).inputs[k]
                            } else {
                                start.inputs[k]
                            },
                    ),
                    ..start
                }),
            decreases n - i,
        {
            set_tap_key_sig(&mut fake_psbt, i, &fake_sig, 0);
            assert(psbt_view(fake_psbt).inputs =~= Seq::new(
                n as nat,
                |k: int|
                    if k < i + 1 {
                        fake_signed(start).inputs[k]
                    } else {
                        start.inputs[k]
                    },
            ));
            i += 1;
        }
        assert(psbt_view(fake_psbt).inputs =~= fake_signed(start).inputs);
        let done = SpClient::finalize_psbt(&mut fake_psbt);
        proof {
            let f = psbt_view(fake_psbt);
            assert forall|k: int| 0 <= k < f.inputs.len() implies (#[trigger] funding_utxo(f, k))
                is Some by {
                assert(funding_utxo(start, k) is Some);
            }
        }
        match extract_tx(fake_psbt) {
            Some(t) => Ok(t),
            None => Err(Error::InvalidInput),
        }
    }

    /// Makes one output of the payer bear the fee of the transaction at a fee
    /// rate in satoshi per virtual byte.
    ///
    /// The fee is the fee rate times the virtual size of the transaction with
    /// stand-in signatures. What the inputs hold above the outputs counts
    /// towards it; what is missing is taken from one output of the payer,
    /// chosen at random. Where that output holds less, the call fails with
    /// `InsufficientFunds`. The PSBT is left as it was where the call fails.
    pub fn set_fees(psbt: &mut Psbt, fee_rate: u32, payer: String) -> (r: Result<(), Error>)
        ensures
            match fee_plan(psbt_view(*old(psbt)), fee_rate, payer@) {
                Err(e) => r == Err::<(), Error>(e) && *final(psbt) == *old(psbt),
                Ok(plan) => if plan.delta == 0 {
                    r is Ok && *final(psbt) == *old(psbt)
                } else {
                    exists|k: int|
                        0 <= k < plan.payers.len() && fee_taken(
                            *old(psbt),
                            *final(psbt),
                            r,
                            #[trigger] plan.payers[k],
                            plan.delta,
                        )
                },
            },
            r is Ok && fee_at(psbt_view(*old(psbt)), fee_rate) > surplus(psbt_view(*old(psbt)))
                ==> surplus(psbt_view(*final(psbt))) == fee_at(psbt_view(*old(psbt)), fee_rate),
    {
        if input_count(psbt) != tx_input_count(psbt) || output_count(psbt) != tx_output_count(
            psbt,
        ) {
            return Err(Error::InvalidInput);
        }
        let payer_vouts = payer_vouts(psbt, &payer)?;
        if payer_vouts.len() == 0 {
            return Err(Error::PayerNotInTx);
        }
        let total_input_amt = match funding_total(psbt) {
            Some(t) => t,
            None => return Err(Error::InvalidInput),
        };
        let total_output_amt = match output_total(psbt) {
            Some(t) => t,
            None => return Err(Error::InvalidInput),
        };
        if total_output_amt > total_input_amt {
            return Err(Error::InsufficientFunds);
        }
        let dust = total_input_amt - total_output_amt;
        if dust > DUST_THRESHOLD {
            return Err(Error::MissingChange);
        }
        let fake = SpClient::sign_psbt_fake(psbt)?;
        let vsize = transaction_vsize(&fake);
        let fee_amt = match (fee_rate as u64).checked_mul(vsize as u64) {
            Some(f) => f,
            None => return Err(Error::InvalidInput),
        };
        if fee_amt > dust {
            let deduce_from = match choose_index(&payer_vouts) {
                Some(v) => v,
                // not reached: the payer has an output
                None => return Err(Error::PayerNotInTx),
            };
            let ghost k = choose|k: int|
                0 <= k < payer_vouts@.len() && payer_vouts@[k] == deduce_from;
            proof {
                lemma_payers_bounded(psbt_view(*psbt), payer@);
                if psbt_view(*psbt).unsigned_tx.output[deduce_from as int].value >= fee_amt - dust {
                    law_fee_equation(psbt_view(*psbt), fee_rate, payer@, k);
                }
            }
            deduct_fee(psbt, deduce_from, fee_amt - dust)
        } else {
            Ok(())
        }
    }
}

} // verus!
