//! Completing a PSBT: the outputs that pay silent payment addresses get their
//! real scripts, derived from the private keys of the inputs.

use vstd::prelude::*;
use bitcoin::psbt::Psbt;
use crate::address::{consensus_string_of, decode_string, parse_sp_address, sp_address_of};
use crate::builder::{address_record, address_record_key, tweak_record, tweak_record_key};
use crate::error::Error;
use crate::keys::{
    add_tweak, can_tweak, check_scalar, is_scalar, is_xonly_key, lemma_tweaked_key_unique,
    p2tr_script, p2tr_script_bytes, tweaked_key, SpendKey, SpendKeyView,
};
use crate::psbt::{
    input_count, input_proprietary, output_count, output_proprietary, psbt_view,
    set_tx_output_script, tx_input_count, tx_input_outpoint, tx_output_count, InputView, OutputView,
    PsbtView,
};
use crate::sending::{
    distinct_addresses, find_address, input_keys_view, keys_map, lemma_listed_unique, listing_view,
    outpoint_texts_view, partial_secret, partial_secret_of, recipient_keys_of, recipient_pubkeys,
    texts_view, AddressKeys, AddressKeysView, InputKey, InputKeyView, OutpointText,
    OutpointTextView,
};
use crate::spclient::SpClient;
use crate::tx::{display_hash, displayed_hash, vec_to_bytes32, TxInView, TxOutView, TxView};

verus! {

/// The views of a sequence of optional strings.
pub open spec fn opt_texts_view(v: Seq<Option<String>>) -> Seq<Option<Seq<char>>> {
    v.map_values(
        |s: Option<String>|
            match s {
                Some(t) => Some(t@),
                None => None,
            },
    )
}

/// The views of a sequence of optional byte strings.
pub open spec fn opt_scripts_view(v: Seq<Option<Vec<u8>>>) -> Seq<Option<Seq<u8>>> {
    v.map_values(
        |s: Option<Vec<u8>>|
            match s {
                Some(t) => Some(t@),
                None => None,
            },
    )
}

/// The private key that signs for an input: the private spend key plus the
/// tweak that the input carries, modulo the curve order.
///
/// `InvalidTweak` where the input carries no tweak or one that is no scalar
/// of 32 bytes, `Cryptographic` where the sum is no private key.
pub open spec fn input_key_of(spend: Seq<u8>, input: InputView) -> Result<Seq<u8>, Error> {
    if !input.proprietary.contains_key(tweak_record_key()) {
        Err(Error::InvalidTweak)
    } else if !is_scalar(input.proprietary[tweak_record_key()]) {
        Err(Error::InvalidTweak)
    } else if !can_tweak(spend, input.proprietary[tweak_record_key()]) {
        Err(Error::Cryptographic)
    } else {
        Ok(tweaked_key(spend, input.proprietary[tweak_record_key()]))
    }
}

/// The private keys of all inputs, each marked as a taproot key, or the failure
/// of the first input that fails.
pub open spec fn input_keys_of(spend: Seq<u8>, inputs: Seq<InputView>) -> Result<
    Seq<InputKeyView>,
    Error,
>
    decreases inputs.len(),
{
    if inputs.len() == 0 {
        Ok(Seq::empty())
    } else {
        match input_keys_of(spend, inputs.drop_last()) {
            Err(e) => Err(e),
            Ok(keys) => match input_key_of(spend, inputs.last()) {
                Err(e) => Err(e),
                Ok(key) => Ok(keys.push(InputKeyView { key, is_taproot: true })),
            },
        }
    }
}

/// The outpoints that the inputs spend, each with its transaction id as text.
pub open spec fn outpoint_texts(inputs: Seq<TxInView>) -> Seq<OutpointTextView> {
    inputs.map_values(
        |i: TxInView|
            OutpointTextView {
                txid: displayed_hash(i.previous_output.txid),
                vout: i.previous_output.vout,
            },
    )
}

/// The silent payment address that an output pays, in its canonical text, or
/// none where the output carries no address record.
///
/// `InvalidInput` where the record holds no string, `InvalidAddress` where the
/// string is no silent payment address.
pub open spec fn slot_address_of(o: OutputView) -> Result<Option<Seq<char>>, Error> {
    if !o.proprietary.contains_key(address_record_key()) {
        Ok(None)
    } else {
        match consensus_string_of(o.proprietary[address_record_key()]) {
            None => Err(Error::InvalidInput),
            Some(text) => match sp_address_of(text) {
                None => Err(Error::InvalidAddress),
                Some(a) => Ok(Some(a.encoded)),
            },
        }
    }
}

/// The silent payment address of each output, or the failure of the first
/// output that fails.
pub open spec fn slot_addresses_of(outputs: Seq<OutputView>) -> Result<
    Seq<Option<Seq<char>>>,
    Error,
>
    decreases outputs.len(),
{
    if outputs.len() == 0 {
        Ok(Seq::empty())
    } else {
        match slot_addresses_of(outputs.drop_last()) {
            Err(e) => Err(e),
            Ok(a) => match slot_address_of(outputs.last()) {
                Err(e) => Err(e),
                Ok(x) => Ok(a.push(x)),
            },
        }
    }
}

/// The addresses that are paid, once for each output that pays them, in the
/// order of the outputs.
pub open spec fn paid_addresses(addrs: Seq<Option<Seq<char>>>) -> Seq<Seq<char>>
    decreases addrs.len(),
{
    if addrs.len() == 0 {
        Seq::empty()
    } else {
        match addrs.last() {
            Some(a) => paid_addresses(addrs.drop_last()).push(a),
            None => paid_addresses(addrs.drop_last()),
        }
    }
}

/// The number of outputs that pay the address `a`.
pub open spec fn count_of(addrs: Seq<Option<Seq<char>>>, a: Seq<char>) -> nat
    decreases addrs.len(),
{
    if addrs.len() == 0 {
        0
    } else {
        count_of(addrs.drop_last(), a) + if addrs.last() == Some(a) {
            1nat
        } else {
            0nat
        }
    }
}

/// The new script of output `j`, or none where the output pays no silent
/// payment address and keeps its script.
///
/// The output takes the key of its address whose index is the number of
/// earlier outputs that pay the same address. `AssertionFailed` where the
/// address has no such key, `Cryptographic` where the key is refused.
pub open spec fn slot_script(
    addrs: Seq<Option<Seq<char>>>,
    keys: Map<Seq<char>, Seq<Seq<u8>>>,
    j: int,
) -> Result<Option<Seq<u8>>, Error> {
    match addrs[j] {
        None => Ok(None),
        Some(a) => if !keys.contains_key(a) || count_of(addrs.take(j), a) >= keys[a].len() {
            Err(Error::AssertionFailed)
        } else if !is_xonly_key(keys[a][count_of(addrs.take(j), a) as int]) {
            Err(Error::Cryptographic)
        } else {
            Ok(Some(p2tr_script_bytes(keys[a][count_of(addrs.take(j), a) as int])))
        },
    }
}

/// The new scripts of the first `n` outputs, or the failure of the first
/// output that fails.
pub open spec fn slot_scripts(
    addrs: Seq<Option<Seq<char>>>,
    keys: Map<Seq<char>, Seq<Seq<u8>>>,
    n: nat,
) -> Result<Seq<Option<Seq<u8>>>, Error>
    decreases n,
{
    if n == 0 {
        Ok(Seq::empty())
    } else {
        match slot_scripts(addrs, keys, (n - 1) as nat) {
            Err(e) => Err(e),
            Ok(s) => match slot_script(addrs, keys, n - 1) {
                Err(e) => Err(e),
                Ok(x) => Ok(s.push(x)),
            },
        }
    }
}

/// Every address has as many keys as outputs that pay it.
pub open spec fn all_used(
    addrs: Seq<Option<Seq<char>>>,
    keys: Map<Seq<char>, Seq<Seq<u8>>>,
) -> bool {
    forall|a: Seq<char>| #[trigger] keys.contains_key(a) ==> keys[a].len() == count_of(addrs, a)
}

/// The outputs with the new scripts put in.
pub open spec fn with_scripts(outputs: Seq<TxOutView>, scripts: Seq<Option<Seq<u8>>>) -> Seq<
    TxOutView,
> {
    Seq::new(
        outputs.len(),
        |j: int|
            if j < scripts.len() {
                match scripts[j] {
                    Some(s) => TxOutView { script_pubkey: s, ..outputs[j] },
                    None => outputs[j],
                }
            } else {
                outputs[j]
            },
    )
}

/// The PSBT with the new scripts put into the outputs of its transaction.
pub open spec fn filled(v: PsbtView, scripts: Seq<Option<Seq<u8>>>) -> PsbtView {
    PsbtView {
        unsigned_tx: TxView {
            output: with_scripts(v.unsigned_tx.output, scripts),
            ..v.unsigned_tx
        },
        ..v
    }
}

/// What filling a PSBT with the given output keys gives.
///
/// `InvalidInput` where the PSBT lacks a map for an input or output of its
/// transaction; then the failure of the first output whose address does not
/// read or that finds no key; `AssertionFailed` where keys are left over.
pub open spec fn fill_with(v: PsbtView, keys: Map<Seq<char>, Seq<Seq<u8>>>) -> Result<
    PsbtView,
    Error,
> {
    if !v.consistent() {
        Err(Error::InvalidInput)
    } else {
        match slot_addresses_of(v.outputs) {
            Err(e) => Err(e),
            Ok(addrs) => match slot_scripts(addrs, keys, addrs.len()) {
                Err(e) => Err(e),
                Ok(scripts) => if !all_used(addrs, keys) {
                    Err(Error::AssertionFailed)
                } else {
                    Ok(filled(v, scripts))
                },
            },
        }
    }
}

/// What filling a PSBT with a list of output keys by address gives:
/// `InvalidInput` where an address is listed twice, and else what
/// [`fill_with`] says of the map that the list stands for.
pub open spec fn fill_with_listing(v: PsbtView, listing: Seq<AddressKeysView>) -> Result<
    PsbtView,
    Error,
> {
    if !distinct_addresses(listing) {
        Err(Error::InvalidInput)
    } else {
        fill_with(v, keys_map(listing))
    }
}

/// What a wallet with the given spend key makes of a PSBT when it fills the
/// outputs that pay silent payment addresses.
///
/// `WatchOnly` where the spend key is public; `InvalidInput` where the PSBT
/// lacks a map for an input or output of its transaction; then the failure of
/// the first input whose key cannot be made; `Cryptographic` where there is no
/// partial secret; the failure of the first output whose address does not
/// read; `Cryptographic` where no output keys are derived; and at last what
/// [`fill_with`] says.
pub open spec fn fill_of(spend_key: SpendKeyView, v: PsbtView) -> Result<PsbtView, Error> {
    match spend_key {
        SpendKeyView::Public(_) => Err(Error::WatchOnly),
        SpendKeyView::Secret(k) => if !v.consistent() {
            Err(Error::InvalidInput)
        } else {
            match input_keys_of(k, v.inputs) {
                Err(e) => Err(e),
                Ok(keys) => match partial_secret_of(keys, outpoint_texts(v.unsigned_tx.input)) {
                    None => Err(Error::Cryptographic),
                    Some(secret) => match slot_addresses_of(v.outputs) {
                        Err(e) => Err(e),
                        Ok(addrs) => match recipient_keys_of(paid_addresses(addrs), secret) {
                            None => Err(Error::Cryptographic),
                            Some(m) => fill_with(v, m),
                        },
                    },
                },
            }
        },
    }
}

/// Once a prefix of the inputs has failed, all of them fail in the same way.
proof fn lemma_input_keys_fail(spend: Seq<u8>, inputs: Seq<InputView>, n: int)
    requires
        0 <= n <= inputs.len(),
        input_keys_of(spend, inputs.take(n)) is Err,
    ensures
        input_keys_of(spend, inputs) == input_keys_of(spend, inputs.take(n)),
    decreases inputs.len() - n,
{
    if n == inputs.len() {
        assert(inputs.take(n) =~= inputs);
    } else {
        assert(inputs.take(n + 1).drop_last() =~= inputs.take(n));
        lemma_input_keys_fail(spend, inputs, n + 1);
    }
}

/// Once a prefix of the outputs has failed, all of them fail in the same way.
proof fn lemma_slot_addresses_fail(outputs: Seq<OutputView>, n: int)
    requires
        0 <= n <= outputs.len(),
        slot_addresses_of(outputs.take(n)) is Err,
    ensures
        slot_addresses_of(outputs) == slot_addresses_of(outputs.take(n)),
    decreases outputs.len() - n,
{
    if n == outputs.len() {
        assert(outputs.take(n) =~= outputs);
    } else {
        assert(outputs.take(n + 1).drop_last() =~= outputs.take(n));
        lemma_slot_addresses_fail(outputs, n + 1);
    }
}

/// Once the scripts of the first outputs have failed, the scripts of more of
/// them fail in the same way.
proof fn lemma_slot_scripts_fail(
    addrs: Seq<Option<Seq<char>>>,
    keys: Map<Seq<char>, Seq<Seq<u8>>>,
    n: nat,
    m: nat,
)
    requires
        n <= m,
        slot_scripts(addrs, keys, n) is Err,
    ensures
        slot_scripts(addrs, keys, m) == slot_scripts(addrs, keys, n),
    decreases m - n,
{
    if n < m {
        lemma_slot_scripts_fail(addrs, keys, n, (m - 1) as nat);
    }
}

/// There are as many addresses as outputs.
proof fn lemma_slot_addresses_len(outputs: Seq<OutputView>)
    ensures
        slot_addresses_of(outputs) matches Ok(a) ==> a.len() == outputs.len(),
    decreases outputs.len(),
{
    if outputs.len() > 0 {
        lemma_slot_addresses_len(outputs.drop_last());
    }
}

/// There are as many scripts as outputs that were asked for.
proof fn lemma_slot_scripts_len(
    addrs: Seq<Option<Seq<char>>>,
    keys: Map<Seq<char>, Seq<Seq<u8>>>,
    n: nat,
)
    ensures
        slot_scripts(addrs, keys, n) matches Ok(s) ==> s.len() == n,
    decreases n,
{
    if n > 0 {
        lemma_slot_scripts_len(addrs, keys, (n - 1) as nat);
    }
}

/// Script `j` of the new scripts is the one of output `j`.
proof fn lemma_slot_scripts_index(
    addrs: Seq<Option<Seq<char>>>,
    keys: Map<Seq<char>, Seq<Seq<u8>>>,
    n: nat,
    j: int,
)
    requires
        0 <= j < n,
        slot_scripts(addrs, keys, n) is Ok,
    ensures
        slot_script(addrs, keys, j) == Ok::<Option<Seq<u8>>, Error>(
            (slot_scripts(addrs, keys, n)->Ok_0)[j],
        ),
    decreases n,
{
    lemma_slot_scripts_len(addrs, keys, (n - 1) as nat);
    if j < n - 1 {
        lemma_slot_scripts_index(addrs, keys, (n - 1) as nat, j);
    }
}

/// An address is paid by at most as many of the first outputs as of more of
/// them, and by one more once an output that pays it is passed.
proof fn lemma_count_grows(addrs: Seq<Option<Seq<char>>>, a: Seq<char>, i: int, j: int)
    requires
        0 <= i <= j <= addrs.len(),
    ensures
        count_of(addrs.take(i), a) <= count_of(addrs.take(j), a),
        i < j && addrs[i] == Some(a) ==> count_of(addrs.take(i), a) < count_of(addrs.take(j), a),
    decreases j - i,
{
    if i < j {
        assert(addrs.take(j).drop_last() =~= addrs.take(j - 1));
        lemma_count_grows(addrs, a, i, j - 1);
    }
}

/// Where several outputs pay one silent payment address, they take the first
/// keys of that address, one each, in the order of the outputs: an output
/// takes the key whose index is the number of earlier outputs that pay the
/// same address, and the address has exactly as many keys as outputs.
pub proof fn law_multi_output_distribution(
    addrs: Seq<Option<Seq<char>>>,
    keys: Map<Seq<char>, Seq<Seq<u8>>>,
    a: Seq<char>,
    i: int,
    j: int,
)
    requires
        slot_scripts(addrs, keys, addrs.len()) is Ok,
        all_used(addrs, keys),
        0 <= i < j < addrs.len(),
        addrs[i] == Some(a),
        addrs[j] == Some(a),
    ensures
        keys.contains_key(a),
        keys[a].len() == count_of(addrs, a),
        count_of(addrs.take(i), a) < count_of(addrs.take(j), a) < count_of(addrs, a),
        (slot_scripts(addrs, keys, addrs.len())->Ok_0)[i] == Some(
            p2tr_script_bytes(keys[a][count_of(addrs.take(i), a) as int]),
        ),
        (slot_scripts(addrs, keys, addrs.len())->Ok_0)[j] == Some(
            p2tr_script_bytes(keys[a][count_of(addrs.take(j), a) as int]),
        ),
{
    lemma_slot_scripts_index(addrs, keys, addrs.len(), i);
    lemma_slot_scripts_index(addrs, keys, addrs.len(), j);
    lemma_count_grows(addrs, a, i, j);
}

/// Filling is a function of the spend key and of what the PSBT holds: two
/// PSBTs that hold the same are filled alike, script by script.
pub proof fn law_fill_is_deterministic(spend_key: SpendKeyView, a: Psbt, b: Psbt)
    requires
        psbt_view(a) == psbt_view(b),
    ensures
        fill_of(spend_key, psbt_view(a)) == fill_of(spend_key, psbt_view(b)),
{
}

/// The private key that signs for input `i`: the private spend key plus the
/// tweak that the input carries.
pub(crate) fn input_key(psbt: &Psbt, i: usize, spend: &[u8; 32]) -> (r: Result<[u8; 32], Error>)
    requires
        i < psbt_view(*psbt).inputs.len(),
    ensures
        match r {
            Ok(k) => input_key_of(spend@, psbt_view(*psbt).inputs[i as int]) == Ok::<
                Seq<u8>,
                Error,
            >(k@) && crate::keys::is_secret_key(k@),
            Err(e) => input_key_of(spend@, psbt_view(*psbt).inputs[i as int]) == Err::<
                Seq<u8>,
                Error,
            >(e),
        },
{
    let record = match input_proprietary(psbt, i, &tweak_record()) {
        Some(t) => t,
        None => return Err(Error::InvalidTweak),
    };
    let tweak = match vec_to_bytes32(&record) {
        Some(t) => t,
        None => return Err(Error::InvalidTweak),
    };
    if !check_scalar(&tweak) {
        return Err(Error::InvalidTweak);
    }
    match add_tweak(spend, &tweak) {
        Some(k) => {
            proof {
                lemma_tweaked_key_unique(k@, spend@, tweak@);
            }
            Ok(k)
        },
        None => Err(Error::Cryptographic),
    }
}

/// The private keys of all inputs, each marked as a taproot key.
pub fn input_keys(psbt: &Psbt, spend: &[u8; 32]) -> (r: Result<Vec<InputKey>, Error>)
    ensures
        match r {
            Ok(k) => input_keys_of(spend@, psbt_view(*psbt).inputs) == Ok::<
                Seq<InputKeyView>,
                Error,
            >(input_keys_view(k@)),
            Err(e) => input_keys_of(spend@, psbt_view(*psbt).inputs) == Err::<
                Seq<InputKeyView>,
                Error,
            >(e),
        },
{
    let n = input_count(psbt);
    let ghost all = psbt_view(*psbt).inputs;
    let mut keys: Vec<InputKey> = Vec::new();
    let mut i: usize = 0;
    assert(input_keys_view(keys@) =~= Seq::<InputKeyView>::empty());
    while i < n
        invariant
            i <= n,
            n == all.len(),
            all == psbt_view(*psbt).inputs,
            input_keys_of(spend@, all.take(i as int)) == Ok::<Seq<InputKeyView>, Error>(
                input_keys_view(keys@),
            ),
        decreases n - i,
    {
        proof {
            assert(all.take(i as int + 1).drop_last() =~= all.take(i as int));
        }
        let ghost before = input_keys_view(keys@);
        match input_key(psbt, i, spend) {
            Ok(key) => {
                // every input of a silent payment wallet spends a taproot output
                let k = InputKey { key, is_taproot: true };
                keys.push(k);
                assert(input_keys_view(keys@) =~= before.push(k@));
            },
            Err(e) => {
                proof {
                    lemma_input_keys_fail(spend@, all, i as int + 1);
                }
                return Err(e);
            },
        }
        i += 1;
    }
    assert(all.take(i as int) =~= all);
    Ok(keys)
}

/// The outpoints that the inputs of the transaction spend, each with its
/// transaction id as text.
pub fn input_outpoints(psbt: &Psbt) -> (r: Vec<OutpointText>)
    ensures
        outpoint_texts_view(r@) == outpoint_texts(psbt_view(*psbt).unsigned_tx.input),
{
    let n = tx_input_count(psbt);
    let ghost all = outpoint_texts(psbt_view(*psbt).unsigned_tx.input);
    let mut r: Vec<OutpointText> = Vec::new();
    let mut i: usize = 0;
    while i < n
        invariant
            i <= n,
            n == psbt_view(*psbt).unsigned_tx.input.len(),
            all == outpoint_texts(psbt_view(*psbt).unsigned_tx.input),
            outpoint_texts_view(r@) == all.take(i as int),
        decreases n - i,
    {
        let prev = tx_input_outpoint(psbt, i);
        let ghost before = outpoint_texts_view(r@);
        let o = OutpointText { txid: display_hash(&prev.txid), vout: prev.vout };
        r.push(o);
        assert(outpoint_texts_view(r@) =~= before.push(o@));
        i += 1;
    }
    r
}

/// The silent payment address that output `i` pays, in its canonical text.
fn slot_address(psbt: &Psbt, i: usize) -> (r: Result<Option<String>, Error>)
    requires
        i < psbt_view(*psbt).outputs.len(),
    ensures
        match r {
            Ok(Some(a)) => slot_address_of(psbt_view(*psbt).outputs[i as int]) == Ok::<
                Option<Seq<char>>,
                Error,
            >(Some(a@)),
            Ok(None) => slot_address_of(psbt_view(*psbt).outputs[i as int]) == Ok::<
                Option<Seq<char>>,
                Error,
            >(None),
            Err(e) => slot_address_of(psbt_view(*psbt).outputs[i as int]) == Err::<
                Option<Seq<char>>,
                Error,
            >(e),
        },
{
    let record = match output_proprietary(psbt, i, &address_record()) {
        Some(r) => r,
        None => return Ok(None),
    };
    let text = match decode_string(&record) {
        Some(t) => t,
        None => return Err(Error::InvalidInput),
    };
    match parse_sp_address(text.as_str()) {
        Some(a) => Ok(Some(a.encoded)),
        None => Err(Error::InvalidAddress),
    }
}

/// The silent payment address of each output.
pub fn slot_addresses(psbt: &Psbt) -> (r: Result<Vec<Option<String>>, Error>)
    ensures
        match r {
            Ok(a) => slot_addresses_of(psbt_view(*psbt).outputs) == Ok::<
                Seq<Option<Seq<char>>>,
                Error,
            >(opt_texts_view(a@)),
            Err(e) => slot_addresses_of(psbt_view(*psbt).outputs) == Err::<
                Seq<Option<Seq<char>>>,
                Error,
            >(e),
        },
{
    let n = output_count(psbt);
    let ghost all = psbt_view(*psbt).outputs;
    let mut addrs: Vec<Option<String>> = Vec::new();
    let mut i: usize = 0;
    assert(opt_texts_view(addrs@) =~= Seq::<Option<Seq<char>>>::empty());
    while i < n
        invariant
            i <= n,
            n == all.len(),
            all == psbt_view(*psbt).outputs,
            slot_addresses_of(all.take(i as int)) == Ok::<Seq<Option<Seq<char>>>, Error>(
                opt_texts_view(addrs@),
            ),
        decreases n - i,
    {
        proof {
            assert(all.take(i as int + 1).drop_last() =~= all.take(i as int));
        }
        let ghost before = opt_texts_view(addrs@);
        match slot_address(psbt, i) {
            Ok(a) => {
                let ghost x = crate::spclient::opt_text(a);
                addrs.push(a);
                assert(opt_texts_view(addrs@) =~= before.push(x));
            },
            Err(e) => {
                proof {
                    lemma_slot_addresses_fail(all, i as int + 1);
                }
                return Err(e);
            },
        }
        i += 1;
    }
    assert(all.take(i as int) =~= all);
    Ok(addrs)
}

/// The addresses that are paid, once for each output that pays them.
pub fn collect_paid(addrs: &Vec<Option<String>>) -> (r: Vec<String>)
    ensures
        texts_view(r@) == paid_addresses(opt_texts_view(addrs@)),
{
    let ghost all = opt_texts_view(addrs@);
    let mut r: Vec<String> = Vec::new();
    let mut i: usize = 0;
    while i < addrs.len()
        invariant
            i <= addrs.len(),
            all == opt_texts_view(addrs@),
            texts_view(r@) == paid_addresses(all.take(i as int)),
        decreases addrs.len() - i,
    {
        proof {
            assert(all.take(i as int + 1).drop_last() =~= all.take(i as int));
        }
        match &addrs[i] {
            Some(a) => {
                r.push(a.clone());
            },
            None => {},
        }
        i += 1;
    }
    assert(all.take(i as int) =~= all);
    r
}

/// The number of the first `n` outputs that pay the address `a`.
fn count_paid(addrs: &Vec<Option<String>>, n: usize, a: &String) -> (r: usize)
    requires
        n <= addrs.len(),
    ensures
        r == count_of(opt_texts_view(addrs@).take(n as int), a@),
        r <= n,
{
    let ghost all = opt_texts_view(addrs@);
    let mut r: usize = 0;
    let mut i: usize = 0;
    while i < n
        invariant
            i <= n,
            n <= addrs.len(),
            all == opt_texts_view(addrs@),
            r == count_of(all.take(i as int), a@),
            r <= i,
        decreases n - i,
    {
        proof {
            assert(all.take(i as int + 1).drop_last() =~= all.take(i as int));
        }
        match &addrs[i] {
            Some(t) => {
                if *t == *a {
                    r += 1;
                }
            },
            None => {},
        }
        i += 1;
    }
    r
}

/// Whether no address is listed twice.
pub fn has_distinct_addresses(keys: &Vec<AddressKeys>) -> (r: bool)
    ensures
        r == distinct_addresses(listing_view(keys@)),
{
    let ghost v = listing_view(keys@);
    let mut j: usize = 0;
    while j < keys.len()
        invariant
            j <= keys.len(),
            v == listing_view(keys@),
            forall|a: int, b: int| 0 <= a < b < j ==> v[a].address != v[b].address,
        decreases keys.len() - j,
    {
        let mut i: usize = 0;
        while i < j
            invariant
                i <= j,
                j < keys.len(),
                v == listing_view(keys@),
                forall|a: int| 0 <= a < i ==> v[a].address != v[j as int].address,
            decreases j - i,
        {
            if keys[i].address == keys[j].address {
                assert(v[i as int].address == v[j as int].address);
                return false;
            }
            i += 1;
        }
        j += 1;
    }
    true
}

/// The new script of each output.
fn plan_scripts(addrs: &Vec<Option<String>>, keys: &Vec<AddressKeys>) -> (r: Result<
    Vec<Option<Vec<u8>>>,
    Error,
>)
    requires
        distinct_addresses(listing_view(keys@)),
    ensures
        match r {
            Ok(s) => slot_scripts(
                opt_texts_view(addrs@),
                keys_map(listing_view(keys@)),
                addrs@.len(),
            ) == Ok::<Seq<Option<Seq<u8>>>, Error>(opt_scripts_view(s@)),
            Err(e) => slot_scripts(
                opt_texts_view(addrs@),
                keys_map(listing_view(keys@)),
                addrs@.len(),
            ) == Err::<Seq<Option<Seq<u8>>>, Error>(e),
        },
{
    let ghost all = opt_texts_view(addrs@);
    let ghost m = keys_map(listing_view(keys@));
    let mut scripts: Vec<Option<Vec<u8>>> = Vec::new();
    let mut j: usize = 0;
    assert(opt_scripts_view(scripts@) =~= Seq::<Option<Seq<u8>>>::empty());
    while j < addrs.len()
        invariant
            j <= addrs.len(),
            all == opt_texts_view(addrs@),
            m == keys_map(listing_view(keys@)),
            distinct_addresses(listing_view(keys@)),
            slot_scripts(all, m, j as nat) == Ok::<Seq<Option<Seq<u8>>>, Error>(
                opt_scripts_view(scripts@),
            ),
        decreases addrs.len() - j,
    {
        let ghost before = opt_scripts_view(scripts@);
        let step: Result<Option<Vec<u8>>, Error> = match &addrs[j] {
            None => Ok(None),
            Some(a) => match find_address(keys, a) {
                None => Err(Error::AssertionFailed),
                Some(e) => {
                    let rank = count_paid(addrs, j, a);
                    if rank >= keys[e].keys.len() {
                        Err(Error::AssertionFailed)
                    } else {
                        match p2tr_script(&keys[e].keys[rank]) {
                            Some(s) => Ok(Some(s)),
                            None => Err(Error::Cryptographic),
                        }
                    }
                },
            },
        };
        match step {
            Ok(s) => {
                let ghost x = crate::psbt::opt_bytes(s);
                scripts.push(s);
                assert(opt_scripts_view(scripts@) =~= before.push(x));
            },
            Err(e) => {
                proof {
                    lemma_slot_scripts_fail(all, m, (j + 1) as nat, addrs@.len());
                }
                return Err(e);
            },
        }
        j += 1;
    }
    Ok(scripts)
}

/// Whether every address has as many keys as outputs that pay it.
fn check_all_used(addrs: &Vec<Option<String>>, keys: &Vec<AddressKeys>) -> (r: bool)
    requires
        distinct_addresses(listing_view(keys@)),
    ensures
        r == all_used(opt_texts_view(addrs@), keys_map(listing_view(keys@))),
{
    let ghost all = opt_texts_view(addrs@);
    let ghost v = listing_view(keys@);
    let mut e: usize = 0;
    while e < keys.len()
        invariant
            e <= keys.len(),
            all == opt_texts_view(addrs@),
            v == listing_view(keys@),
            distinct_addresses(v),
            forall|i: int|
                0 <= i < e ==> (#[trigger] v[i]).keys.len() == count_of(all, v[i].address),
        decreases keys.len() - e,
    {
        let used = count_paid(addrs, addrs.len(), &keys[e].address);
        proof {
            assert(all.take(addrs@.len() as int) =~= all);
            lemma_listed_unique(v, v[e as int].address, e as int);
        }
        if keys[e].keys.len() != used {
            return false;
        }
        e += 1;
    }
    proof {
        assert forall|a: Seq<char>| #[trigger]
            keys_map(v).contains_key(a) implies keys_map(v)[a].len() == count_of(all, a) by {
            let i = choose|i: int| crate::sending::is_listed_at(v, a, i);
        }
    }
    true
}

/// Puts the output keys into the outputs of a PSBT: each output that pays a
/// silent payment address takes the next key of that address. The PSBT is
/// left as it was where this fails.
///
/// Fails with `InvalidInput` where an address is listed twice, and else as
/// [`fill_with`] says.
pub fn fill_with_keys(psbt: &mut Psbt, keys: &Vec<AddressKeys>) -> (r: Result<(), Error>)
    ensures
        match fill_with_listing(psbt_view(*old(psbt)), listing_view(keys@)) {
            Ok(v) => r is Ok && psbt_view(*final(psbt)) == v,
            Err(e) => r == Err::<(), Error>(e) && *final(psbt) == *old(psbt),
        },
{
    if !has_distinct_addresses(keys) {
        return Err(Error::InvalidInput);
    }
    if input_count(psbt) != tx_input_count(psbt) || output_count(psbt) != tx_output_count(psbt) {
        return Err(Error::InvalidInput);
    }
    let addrs = slot_addresses(psbt)?;
    let scripts = plan_scripts(&addrs, keys)?;
    if !check_all_used(&addrs, keys) {
        return Err(Error::AssertionFailed);
    }
    proof {
        lemma_slot_addresses_len(psbt_view(*psbt).outputs);
        lemma_slot_scripts_len(
            opt_texts_view(addrs@),
            keys_map(listing_view(keys@)),
            addrs@.len(),
        );
    }
    put_scripts(psbt, scripts);
    Ok(())
}

/// Writes the new scripts into the outputs of the transaction.
fn put_scripts(psbt: &mut Psbt, scripts: Vec<Option<Vec<u8>>>)
    requires
        scripts@.len() == psbt_view(*old(psbt)).unsigned_tx.output.len(),
    ensures
        psbt_view(*final(psbt)) == filled(psbt_view(*old(psbt)), opt_scripts_view(scripts@)),
{
    let ghost start = psbt_view(*psbt);
    let ghost all = opt_scripts_view(scripts@);
    let mut scripts = scripts;
    let n = scripts.len();
    let mut j: usize = n;
    assert(psbt_view(*psbt).unsigned_tx.output =~= with_tail(
        start.unsigned_tx.output,
        all,
        n as int,
    ));
    while j > 0
        invariant
            j <= n,
            n == all.len(),
            n == start.unsigned_tx.output.len(),
            scripts@.len() == j,
            opt_scripts_view(scripts@) == all.take(j as int),
            psbt_view(*psbt) == (PsbtView {
                unsigned_tx: TxView {
                    output: with_tail(start.unsigned_tx.output, all, j as int),
                    ..start.unsigned_tx
                },
                ..start
            }),
        decreases j,
    {
        let ghost before = opt_scripts_view(scripts@);
        let ghost items = scripts@;
        let last = scripts.pop();
        j -= 1;
        assert(before[j as int] == crate::psbt::opt_bytes(items[j as int]));
        match last {
            Some(Some(s)) => {
                set_tx_output_script(psbt, j, s);
            },
            _ => {
            },
        }
        assert(psbt_view(*psbt).unsigned_tx.output =~= with_tail(
            start.unsigned_tx.output,
            all,
            j as int,
        ));
    }
    assert(with_tail(start.unsigned_tx.output, all, 0) =~= with_scripts(
        start.unsigned_tx.output,
        all,
    ));
}

/// The outputs with the new scripts put in from index `from` on.
pub open spec fn with_tail(
    outputs: Seq<TxOutView>,
    scripts: Seq<Option<Seq<u8>>>,
    from: int,
) -> Seq<TxOutView> {
    Seq::new(
        outputs.len(),
        |j: int|
            if from <= j < scripts.len() {
                match scripts[j] {
                    Some(s) => TxOutView { script_pubkey: s, ..outputs[j] },
                    None => outputs[j],
                }
            } else {
                outputs[j]
            },
    )
}

impl SpClient {
    /// Gives every output that pays a silent payment address its real script.
    ///
    /// The output keys are derived from the private keys of the inputs, each
    /// the private spend key plus the tweak that the input carries, and from
    /// the outpoints that the inputs spend. Where an address is paid by
    /// several outputs, they take its keys in the order of the outputs. The
    /// PSBT is left as it was where this fails.
    pub fn fill_sp_outputs(&self, psbt: &mut Psbt) -> (r: Result<(), Error>)
        ensures
            match fill_of(self.spend_key@, psbt_view(*old(psbt))) {
                Ok(v) => r is Ok && psbt_view(*final(psbt)) == v,
                Err(e) => r == Err::<(), Error>(e) && *final(psbt) == *old(psbt),
            },
    {
        let b_spend = match self.spend_key {
            SpendKey::Secret(key) => key,
            SpendKey::Public(_) => return Err(Error::WatchOnly),
        };
        if input_count(psbt) != tx_input_count(psbt) || output_count(psbt) != tx_output_count(
            psbt,
        ) {
            return Err(Error::InvalidInput);
        }
        let input_privkeys = input_keys(psbt, &b_spend)?;
        let outpoints = input_outpoints(psbt);
        let secret = match partial_secret(&input_privkeys, &outpoints) {
            Some(s) => s,
            None => return Err(Error::Cryptographic),
        };
        let addrs = slot_addresses(psbt)?;
        let sp_addresses = collect_paid(&addrs);
        let keys = match recipient_pubkeys(sp_addresses, &secret) {
            Some(k) => k,
            None => return Err(Error::Cryptographic),
        };
        fill_with_keys(psbt, &keys)
    }
}

} // verus!
