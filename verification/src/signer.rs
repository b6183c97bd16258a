//! Signing the taproot key-spend inputs of a PSBT, and finalizing it.

use vstd::prelude::*;
use bitcoin::psbt::Psbt;
use crate::error::Error;
use crate::filler::{input_key, input_key_of};
use crate::keys::{schnorr_verifies, secret_of, sign_schnorr, xonly_key_of, SpendKey, SpendKeyView};
use crate::psbt::{
    clear_bip32_derivation, clear_partial_sigs, clear_redeem_script, clear_sighash_type,
    clear_tap_key_sig, clear_witness_script, input_count, input_hash_ty, is_tap_sighash_type,
    key_spend_sighash, key_spend_sighash_of, psbt_view, serialized_key_sig,
    set_final_script_witness, set_tap_key_sig, stack_view, tap_key_sig_bytes, tx_input_count,
    witness_utxo, InputView, PsbtView, TapKeySig,
};
use crate::spclient::SpClient;
use crate::tx::{outputs_view, TxOutView, TxOutput};

verus! {

/// Every input carries a key-spend signature.
pub open spec fn all_signed(v: PsbtView) -> bool {
    forall|i: int| 0 <= i < v.inputs.len() ==> (#[trigger] v.inputs[i]).tap_key_sig is Some
}

/// The map of a signed input after finalization: the signature is the one
/// item of the final witness, and what only served to sign is gone.
pub open spec fn finalized_input(i: InputView) -> InputView {
    InputView {
        final_script_witness: Some(seq![serialized_key_sig(i.tap_key_sig->Some_0)]),
        tap_key_sig: None,
        partial_sigs: Set::empty(),
        sighash_type: None,
        redeem_script: None,
        witness_script: None,
        bip32_derivation: Set::empty(),
        ..i
    }
}

/// The PSBT with every input finalized.
pub open spec fn finalized(v: PsbtView) -> PsbtView {
    PsbtView { inputs: v.inputs.map_values(|i: InputView| finalized_input(i)), ..v }
}

/// The outputs that the inputs spend, where each input carries its own.
pub open spec fn witness_utxos(inputs: Seq<InputView>) -> Option<Seq<TxOutView>>
    decreases inputs.len(),
{
    if inputs.len() == 0 {
        Some(Seq::empty())
    } else {
        match (witness_utxos(inputs.drop_last()), inputs.last().witness_utxo) {
            (Some(s), Some(u)) => Some(s.push(u)),
            _ => None,
        }
    }
}

/// What a wallet needs to sign input `i`: the sighash type, the hash to sign
/// and the private key.
pub struct SigningData {
    /// The sighash type in its consensus encoding.
    pub hash_ty: u8,
    /// The 32 bytes of the hash to sign.
    pub sighash: Seq<u8>,
    /// The private key: the private spend key plus the tweak of the input.
    pub key: Seq<u8>,
}

/// The sighash type and the hash to sign for input `i`.
///
/// `InvalidInput` where there is no such input or it names a sighash type
/// that is no taproot type, `Cryptographic` where no hash is computed.
pub open spec fn sighash_of(v: PsbtView, prevouts: Seq<TxOutView>, i: int) -> Result<
    (Seq<u8>, u8),
    Error,
> {
    if !(0 <= i < v.inputs.len()) {
        Err(Error::InvalidInput)
    } else {
        match v.inputs[i].taproot_hash_ty() {
            None => Err(Error::InvalidInput),
            Some(ty) => match key_spend_sighash_of(v.unsigned_tx, prevouts, i, ty) {
                None => Err(Error::Cryptographic),
                Some(h) => Ok((h, ty)),
            },
        }
    }
}

/// What is needed to sign input `i`, or the reason why it cannot be signed.
pub open spec fn signing_data_of(
    spend: Seq<u8>,
    v: PsbtView,
    prevouts: Seq<TxOutView>,
    i: int,
) -> Result<SigningData, Error> {
    match sighash_of(v, prevouts, i) {
        Err(e) => Err(e),
        Ok((sighash, hash_ty)) => match input_key_of(spend, v.inputs[i]) {
            Err(e) => Err(e),
            Ok(key) => Ok(SigningData { hash_ty, sighash, key }),
        },
    }
}

/// The failure of the first of the first `n` inputs that cannot be signed.
pub open spec fn first_failure(
    spend: Seq<u8>,
    v: PsbtView,
    prevouts: Seq<TxOutView>,
    n: nat,
) -> Option<Error>
    decreases n,
{
    if n == 0 {
        None
    } else {
        match first_failure(spend, v, prevouts, (n - 1) as nat) {
            Some(e) => Some(e),
            None => match signing_data_of(spend, v, prevouts, n - 1) {
                Err(e) => Some(e),
                Ok(_) => None,
            },
        }
    }
}

/// Why a wallet with the given spend key does not sign a PSBT, if it does not.
///
/// `WatchOnly` where the spend key is public; `InvalidInput` where the PSBT
/// lacks a map for an input of its transaction, or an input does not carry the
/// output that it spends; then the failure of the first input that cannot be
/// signed.
pub open spec fn sign_failure(spend_key: SpendKeyView, v: PsbtView) -> Option<Error> {
    match spend_key {
        SpendKeyView::Public(_) => Some(Error::WatchOnly),
        SpendKeyView::Secret(k) => if v.inputs.len() != v.unsigned_tx.input.len() {
            Some(Error::InvalidInput)
        } else {
            match witness_utxos(v.inputs) {
                None => Some(Error::InvalidInput),
                Some(prevouts) => first_failure(k, v, prevouts, v.inputs.len()),
            }
        },
    }
}

/// Input `before` with a signature of 64 bytes for its sighash type, and
/// nothing else changed.
pub open spec fn carries_signature(before: InputView, after: InputView) -> bool {
    &&& after.tap_key_sig matches Some(s) && s.sig.len() == 64 && Some(s.hash_ty)
        == before.taproot_hash_ty()
    &&& after == InputView { tap_key_sig: after.tap_key_sig, ..before }
}

/// PSBT `before` with a signature of 64 bytes on every input, and nothing
/// else changed.
pub open spec fn carries_signatures(before: PsbtView, after: PsbtView) -> bool {
    &&& after.inputs.len() == before.inputs.len()
    &&& forall|i: int|
        0 <= i < before.inputs.len() ==> carries_signature(
            before.inputs[i],
            #[trigger] after.inputs[i],
        )
    &&& after == PsbtView { inputs: after.inputs, ..before }
}

/// Whether a signature is the one that input `i` needs: it has the sighash
/// type of the input, and it verifies for the key-spend hash of the input
/// under the x-only public key of the private spend key plus the tweak of the
/// input.
pub open spec fn signs_input(
    spend: Seq<u8>,
    v: PsbtView,
    prevouts: Seq<TxOutView>,
    i: int,
    s: TapKeySig,
) -> bool {
    &&& signing_data_of(spend, v, prevouts, i) is Ok
    &&& s.hash_ty == (signing_data_of(spend, v, prevouts, i)->Ok_0).hash_ty
    &&& schnorr_verifies(
        s.sig,
        (signing_data_of(spend, v, prevouts, i)->Ok_0).sighash,
        xonly_key_of((signing_data_of(spend, v, prevouts, i)->Ok_0).key),
    )
}

/// PSBT `before` after a wallet with the private spend key `spend` has signed
/// it: every input carries the signature that it needs, over the hash that
/// is taken with the spent outputs of all inputs, and nothing else changed.
pub open spec fn is_signed(spend: Seq<u8>, before: PsbtView, after: PsbtView) -> bool {
    &&& carries_signatures(before, after)
    &&& witness_utxos(before.inputs) is Some
    &&& forall|i: int|
        0 <= i < before.inputs.len() ==> signs_input(
            spend,
            before,
            witness_utxos(before.inputs)->Some_0,
            i,
            (#[trigger] after.inputs[i]).tap_key_sig->Some_0,
        )
}

/// Once one of the first inputs has failed, more of them fail in the same way.
proof fn lemma_first_failure_stays(
    spend: Seq<u8>,
    v: PsbtView,
    prevouts: Seq<TxOutView>,
    n: nat,
    m: nat,
)
    requires
        n <= m,
        first_failure(spend, v, prevouts, n) is Some,
    ensures
        first_failure(spend, v, prevouts, m) == first_failure(spend, v, prevouts, n),
    decreases m - n,
{
    if n < m {
        lemma_first_failure_stays(spend, v, prevouts, n, (m - 1) as nat);
    }
}

/// Once a prefix of the inputs lacks an output, all of them do.
proof fn lemma_witness_utxos_fail(inputs: Seq<InputView>, n: int)
    requires
        0 <= n <= inputs.len(),
        witness_utxos(inputs.take(n)) is None,
    ensures
        witness_utxos(inputs) is None,
    decreases inputs.len() - n,
{
    if n == inputs.len() {
        assert(inputs.take(n) =~= inputs);
    } else {
        assert(inputs.take(n + 1).drop_last() =~= inputs.take(n));
        lemma_witness_utxos_fail(inputs, n + 1);
    }
}

/// After finalization no input carries a key-spend signature, partial
/// signatures, a sighash type, a redeem script, a witness script or
/// derivation paths, and each carries a final witness.
pub proof fn law_finalization_scrubs(v: PsbtView, i: int)
    requires
        0 <= i < v.inputs.len(),
    ensures
        finalized(v).inputs.len() == v.inputs.len(),
        finalized(v).inputs[i].tap_key_sig is None,
        finalized(v).inputs[i].partial_sigs == Set::<Seq<u8>>::empty(),
        finalized(v).inputs[i].sighash_type is None,
        finalized(v).inputs[i].redeem_script is None,
        finalized(v).inputs[i].witness_script is None,
        finalized(v).inputs[i].bip32_derivation == Set::<Seq<u8>>::empty(),
        finalized(v).inputs[i].final_script_witness is Some,
{
}

/// Whether every input carries a key-spend signature.
pub fn has_all_signatures(psbt: &Psbt) -> (r: bool)
    ensures
        r == all_signed(psbt_view(*psbt)),
{
    let n = input_count(psbt);
    let mut i: usize = 0;
    while i < n
        invariant
            i <= n,
            n == psbt_view(*psbt).inputs.len(),
            forall|k: int|
                0 <= k < i ==> (#[trigger] psbt_view(*psbt).inputs[k]).tap_key_sig is Some,
        decreases n - i,
    {
        if tap_key_sig_bytes(psbt, i).is_none() {
            return false;
        }
        i += 1;
    }
    true
}

/// The outputs that the inputs spend, where each input carries its own.
pub fn collect_prevouts(psbt: &Psbt) -> (r: Option<Vec<TxOutput>>)
    ensures
        match r {
            Some(p) => witness_utxos(psbt_view(*psbt).inputs) == Some(outputs_view(p@)),
            None => witness_utxos(psbt_view(*psbt).inputs) is None,
        },
{
    let n = input_count(psbt);
    let ghost all = psbt_view(*psbt).inputs;
    let mut prevouts: Vec<TxOutput> = Vec::new();
    let mut i: usize = 0;
    while i < n
        invariant
            i <= n,
            n == all.len(),
            all == psbt_view(*psbt).inputs,
            witness_utxos(all.take(i as int)) == Some(outputs_view(prevouts@)),
        decreases n - i,
    {
        proof {
            assert(all.take(i as int + 1).drop_last() =~= all.take(i as int));
        }
        match witness_utxo(psbt, i) {
            Some(u) => {
                prevouts.push(u);
            },
            None => {
                proof {
                    lemma_witness_utxos_fail(all, i as int + 1);
                }
                return None;
            },
        }
        i += 1;
    }
    assert(all.take(i as int) =~= all);
    Some(prevouts)
}

impl SpClient {
    /// The hash to sign for the key spend of an input, and the sighash type: the
    /// one that the input names, or the default.
    pub fn taproot_sighash(psbt: &Psbt, prevouts: &Vec<TxOutput>, input_index: usize) -> (r:
        Result<([u8; 32], u8), Error>)
        ensures
            match r {
                Ok((h, ty)) => is_tap_sighash_type(ty as int) && sighash_of(
                    psbt_view(*psbt),
                    outputs_view(prevouts@),
                    input_index as int,
                ) == Ok::<(Seq<u8>, u8), Error>((h@, ty)),
                Err(e) => sighash_of(
                    psbt_view(*psbt),
                    outputs_view(prevouts@),
                    input_index as int,
                ) == Err::<(Seq<u8>, u8), Error>(e),
            },
    {
        if input_index >= input_count(psbt) {
            return Err(Error::InvalidInput);
        }
        let hash_ty = match input_hash_ty(psbt, input_index) {
            Some(t) => t,
            None => return Err(Error::InvalidInput),
        };
        match key_spend_sighash(psbt, prevouts, input_index, hash_ty) {
            Some(h) => Ok((h, hash_ty)),
            None => Err(Error::Cryptographic),
        }
    }

    /// Signs every input of a PSBT with the private spend key plus the tweak
    /// of the input, and hands the PSBT back with the signatures.
    ///
    /// A watch-only wallet gets `WatchOnly`, whatever the PSBT holds. An input
    /// without a tweak gets `InvalidTweak`. The signatures use fresh
    /// randomness, so that two calls give different ones; each verifies for
    /// the hash and the key of its input.
    pub fn sign_psbt(&self, psbt: Psbt) -> (r: Result<Psbt, Error>)
        ensures
            match sign_failure(self.spend_key@, psbt_view(psbt)) {
                Some(e) => r == Err::<Psbt, Error>(e),
                None => r matches Ok(p) && is_signed(
                    secret_of(self.spend_key@),
                    psbt_view(psbt),
                    psbt_view(p),
                ),
            },
    {
        let b_spend = match self.spend_key {
            SpendKey::Secret(key) => key,
            SpendKey::Public(_) => return Err(Error::WatchOnly),
        };
        let n = input_count(&psbt);
        if n != tx_input_count(&psbt) {
            return Err(Error::InvalidInput);
        }
        let prevouts = match collect_prevouts(&psbt) {
            Some(p) => p,
            None => return Err(Error::InvalidInput),
        };
        let ghost start = psbt_view(psbt);
        let ghost prev = outputs_view(prevouts@);
        let mut signed_psbt = psbt;
        let mut i: usize = 0;
        while i < n
            invariant
                i <= n,
                n == start.inputs.len(),
                n == start.unsigned_tx.input.len(),
                start == psbt_view(psbt),
                self.spend_key == SpendKey::Secret(b_spend),
                prev == outputs_view(prevouts@),
                witness_utxos(start.inputs) == Some(prev),
                first_failure(b_spend@, start, prev, i as nat) is None,
                psbt_view(signed_psbt).inputs.len() == n,
                psbt_view(signed_psbt) == (PsbtView {
                    inputs: psbt_view(signed_psbt).inputs,
                    ..start
                }),
                forall|k: int|
                    0 <= k < i ==> carries_signature(
                        start.inputs[k],
                        #[trigger] psbt_view(signed_psbt).inputs[k],
                    ) && signs_input(
                        b_spend@,
                        start,
                        prev,
                        k,
                        psbt_view(signed_psbt).inputs[k].tap_key_sig->Some_0,
                    ),
                forall|k: int| i <= k < n ==> psbt_view(signed_psbt).inputs[k] == start.inputs[k],
            decreases n - i,
        {
            let (msg, sighash_ty) = match SpClient::taproot_sighash(&signed_psbt, &prevouts, i) {
                Ok(m) => m,
                Err(e) => {
                    proof {
                        lemma_first_failure_stays(b_spend@, start, prev, (i + 1) as nat, n as nat);
                    }
                    return Err(e);
                },
            };
            let sk = match input_key(&signed_psbt, i, &b_spend) {
                Ok(k) => k,
                Err(e) => {
                    proof {
                        lemma_first_failure_stays(b_spend@, start, prev, (i + 1) as nat, n as nat);
                    }
                    return Err(e);
                },
            };
            let sig = match sign_schnorr(&msg, &sk) {
                Some(s) => s,
                // not reached: the key of an input is a private key
                None => return Err(Error::Cryptographic),
            };
            let ghost before = psbt_view(signed_psbt);
            set_tap_key_sig(&mut signed_psbt, i, &sig, sighash_ty);
            proof {
                assert(sighash_of(before, prev, i as int) == sighash_of(start, prev, i as int));
            }
            i += 1;
        }
        Ok(signed_psbt)
    }

    /// Makes the key-spend signature of every input its final witness, and
    /// removes from the inputs what only served to sign.
    ///
    /// Fails with `InvalidInput` where an input carries no key-spend
    /// signature; the PSBT is then left as it was.
    pub fn finalize_psbt(psbt: &mut Psbt) -> (r: Result<(), Error>)
        ensures
            if all_signed(psbt_view(*old(psbt))) {
                r is Ok && psbt_view(*final(psbt)) == finalized(psbt_view(*old(psbt)))
            } else {
                r == Err::<(), Error>(Error::InvalidInput) && *final(psbt) == *old(psbt)
            },
    {
        if !has_all_signatures(psbt) {
            return Err(Error::InvalidInput);
        }
        let n = input_count(psbt);
        let ghost start = psbt_view(*psbt);
        let mut i: usize = 0;
        assert(start.inputs =~= Seq::new(
            n as nat,
            |k: int|
                if k < i {
                    finalized_input(start.inputs[k])
                } else {
                    start.inputs[k]
                },
        ));
        while i < n
            invariant
                i <= n,
                n == start.inputs.len(),
                all_signed(start),
                psbt_view(*psbt) == (PsbtView {
                    inputs: Seq::new(
                        n as nat,
                        |k: int|
                            if k < i {
                                finalized_input(start.inputs[k])
                            } else {
                                start.inputs[k]
                            },
                    ),
                    ..start
                }),
            decreases n - i,
        {
            let sig = match tap_key_sig_bytes(psbt, i) {
                Some(s) => s,
                // not reached: every input has a signature
                None => Vec::new(),
            };
            let mut script_witness: Vec<Vec<u8>> = Vec::new();
            script_witness.push(sig);
            assert(stack_view(script_witness@) =~= seq![
                serialized_key_sig(start.inputs[i as int].tap_key_sig->Some_0),
            ]);
            set_final_script_witness(psbt, i, &script_witness);
            clear_tap_key_sig(psbt, i);
            clear_partial_sigs(psbt, i);
            clear_sighash_type(psbt, i);
            clear_redeem_script(psbt, i);
            clear_witness_script(psbt, i);
            clear_bip32_derivation(psbt, i);
            assert(psbt_view(*psbt).inputs =~= Seq::new(
                n as nat,
                |k: int|
                    if k < i + 1 {
                        finalized_input(start.inputs[k])
                    } else {
                        start.inputs[k]
                    },
            ));
            i += 1;
        }
        assert(psbt_view(*psbt).inputs =~= start.inputs.map_values(
            |x: InputView| finalized_input(x),
        ));
        Ok(())
    }
}

} // verus!
