//! Building an unsigned PSBT from chosen inputs and recipients.
//!
//! The outputs that pay silent payment addresses get a placeholder script;
//! each carries its address in a proprietary record, and each input carries
//! its tweak, so that the PSBT can be completed and signed later.

use vstd::prelude::*;
use bitcoin::psbt::Psbt;
use crate::address::{
    address_of, change_address, change_address_of, consensus_string, encode_string, parse_address,
    parse_sp_address, sp_address_of,
};
use crate::constants::{
    address_key, address_key_bytes, nums, nums_bytes, sp_prefix, sp_prefix_bytes, tweak_key,
    tweak_key_bytes, DUST_THRESHOLD, PSBT_SP_SUBTYPE, TX_LOCK_TIME, TX_SEQUENCE, TX_VERSION,
};
use crate::error::Error;
use crate::keys::{
    bytes32_from_hex, bytes32_of_hex, check_scalar, is_scalar, is_xonly_key, p2tr_script,
    p2tr_script_bytes,
};
use crate::outputs::{
    outputs_of, recipients_of, OwnedOutput, OwnedOutputView, Recipient, RecipientView,
};
use crate::psbt::{
    insert_input_proprietary, insert_output_proprietary, new_psbt, psbt_view, set_witness_utxo,
    unsigned_inputs, InputView, OutputView, PropKey, ProprietaryKey, PsbtView,
};
use crate::spclient::SpClient;
use crate::tx::{
    bytes32_to_vec, bytes_of_hex, clone_bytes, decode_hex, outpoint_of_str, outpoints_view,
    outputs_view, parse_outpoint, OutPoint, OutPointView, TxOutView, TxOutput, TxView,
};

verus! {

/// What one chosen input brings into a PSBT.
#[derive(Debug)]
pub struct InputData {
    /// The outpoint that is spent.
    pub outpoint: OutPoint,
    /// The output that is spent.
    pub utxo: TxOutput,
    /// The tweak of the output.
    pub tweak: [u8; 32],
}

/// What one chosen input brings into a PSBT, as a mathematical value.
pub struct InputDataView {
    /// The outpoint that is spent.
    pub outpoint: OutPointView,
    /// The output that is spent.
    pub utxo: TxOutView,
    /// The tweak of the output.
    pub tweak: Seq<u8>,
}

impl View for InputData {
    type V = InputDataView;

    open spec fn view(&self) -> InputDataView {
        InputDataView { outpoint: self.outpoint@, utxo: self.utxo@, tweak: self.tweak@ }
    }
}

/// One output of a PSBT that is being built.
#[derive(Debug)]
pub struct Slot {
    /// The amount and the script.
    pub output: TxOutput,
    /// The canonical text of the silent payment address that is paid, if one
    /// is.
    pub address: Option<String>,
}

/// One output of a PSBT that is being built, as a mathematical value.
pub struct SlotView {
    /// The amount and the script.
    pub output: TxOutView,
    /// The canonical text of the silent payment address that is paid, if one
    /// is.
    pub address: Option<Seq<char>>,
}

impl View for Slot {
    type V = SlotView;

    open spec fn view(&self) -> SlotView {
        SlotView {
            output: self.output@,
            address: match self.address {
                Some(a) => Some(a@),
                None => None,
            },
        }
    }
}

/// The views of a sequence of inputs.
pub open spec fn data_of(v: Seq<InputData>) -> Seq<InputDataView> {
    v.map_values(|d: InputData| d@)
}

/// The views of a sequence of slots.
pub open spec fn slots_of(v: Seq<Slot>) -> Seq<SlotView> {
    v.map_values(|s: Slot| s@)
}

/// The key of the record that holds the tweak of an input.
pub open spec fn tweak_record_key() -> PropKey {
    PropKey { prefix: sp_prefix_bytes(), subtype: PSBT_SP_SUBTYPE, key: tweak_key_bytes() }
}

/// The key of the record that holds the silent payment address of an output.
pub open spec fn address_record_key() -> PropKey {
    PropKey { prefix: sp_prefix_bytes(), subtype: PSBT_SP_SUBTYPE, key: address_key_bytes() }
}

/// The script of an output whose key is not derived yet.
pub open spec fn placeholder_script() -> Seq<u8> {
    p2tr_script_bytes(nums_bytes())
}

/// What a chosen output brings into a PSBT: its outpoint, tweak and script are
/// read from their texts. `InvalidInput` where the outpoint or the script does
/// not parse, `InvalidTweak` where the tweak is no scalar.
pub open spec fn input_data_of(o: OwnedOutputView) -> Result<InputDataView, Error> {
    match (outpoint_of_str(o.txoutpoint), bytes32_of_hex(o.tweak), bytes_of_hex(o.script)) {
        (None, _, _) => Err(Error::InvalidInput),
        (Some(_), None, _) => Err(Error::InvalidTweak),
        (Some(outpoint), Some(tweak), script) => if !is_scalar(tweak) {
            Err(Error::InvalidTweak)
        } else {
            match script {
                None => Err(Error::InvalidInput),
                Some(script_pubkey) => Ok(
                    InputDataView {
                        outpoint,
                        utxo: TxOutView { value: o.amount, script_pubkey },
                        tweak,
                    },
                ),
            }
        },
    }
}

/// What the chosen outputs bring into a PSBT, or the failure of the first one
/// that fails.
pub open spec fn inputs_data_of(s: Seq<OwnedOutputView>) -> Result<Seq<InputDataView>, Error>
    decreases s.len(),
{
    if s.len() == 0 {
        Ok(Seq::empty())
    } else {
        match inputs_data_of(s.drop_last()) {
            Err(e) => Err(e),
            Ok(d) => match input_data_of(s.last()) {
                Err(e) => Err(e),
                Ok(x) => Ok(d.push(x)),
            },
        }
    }
}

/// The sum of the amounts of the inputs.
pub open spec fn total_in(d: Seq<InputDataView>) -> int
    decreases d.len(),
{
    if d.len() == 0 {
        0
    } else {
        total_in(d.drop_last()) + d.last().utxo.value
    }
}

/// The sum of the amounts of the recipients.
pub open spec fn total_out(r: Seq<RecipientView>) -> int
    decreases r.len(),
{
    if r.len() == 0 {
        0
    } else {
        total_out(r.drop_last()) + r.last().amount
    }
}

/// The amount of output `j` of the `k` outputs among which `amount` is
/// divided: each gets the `k`-th part, and the first gets the remainder too.
pub open spec fn slot_amount(amount: u64, k: u32, j: int) -> u64 {
    if j == 0 {
        (amount / (k as u64) + amount % (k as u64)) as u64
    } else {
        (amount / (k as u64)) as u64
    }
}

/// The outputs for one recipient in a wallet of the given network.
///
/// A silent payment address gets as many outputs as the recipient asks for,
/// with the placeholder script; an ordinary address gets one, with its own
/// script. `InvalidAddress` where the text is neither, `NetworkMismatch` where
/// the address is of the other network, `InvalidInput` where the number of
/// outputs is zero, or is not one for an ordinary address.
pub open spec fn recipient_slots(r: RecipientView, is_testnet: bool) -> Result<
    Seq<SlotView>,
    Error,
> {
    match sp_address_of(r.address) {
        Some(a) => if a.is_testnet != is_testnet {
            Err(Error::NetworkMismatch)
        } else if r.nb_outputs == 0 {
            Err(Error::InvalidInput)
        } else {
            Ok(
                Seq::new(
                    r.nb_outputs as nat,
                    |j: int|
                        SlotView {
                            output: TxOutView {
                                value: slot_amount(r.amount, r.nb_outputs, j),
                                script_pubkey: placeholder_script(),
                            },
                            address: Some(a.encoded),
                        },
                ),
            )
        },
        None => match address_of(r.address) {
            None => Err(Error::InvalidAddress),
            Some(a) => if a.is_mainnet == is_testnet {
                Err(Error::NetworkMismatch)
            } else if r.nb_outputs != 1 {
                Err(Error::InvalidInput)
            } else {
                Ok(
                    seq![
                        SlotView {
                            output: TxOutView { value: r.amount, script_pubkey: a.script_pubkey },
                            address: None,
                        },
                    ],
                )
            },
        },
    }
}

/// The outputs for all recipients, in order, or the failure of the first
/// recipient that fails.
pub open spec fn all_slots(r: Seq<RecipientView>, is_testnet: bool) -> Result<Seq<SlotView>, Error>
    decreases r.len(),
{
    if r.len() == 0 {
        Ok(Seq::empty())
    } else {
        match all_slots(r.drop_last(), is_testnet) {
            Err(e) => Err(e),
            Ok(s) => match recipient_slots(r.last(), is_testnet) {
                Err(e) => Err(e),
                Ok(t) => Ok(s + t),
            },
        }
    }
}

/// The output that takes the change: the placeholder script, and the address
/// record where the change address reads as a silent payment address.
pub open spec fn change_slot(amount: u64, change_address: Seq<char>) -> SlotView {
    SlotView {
        output: TxOutView { value: amount, script_pubkey: placeholder_script() },
        address: match sp_address_of(change_address) {
            Some(a) => Some(a.encoded),
            None => None,
        },
    }
}

/// The map of an input that was put into a fresh PSBT.
pub open spec fn input_map(d: InputDataView) -> InputView {
    InputView {
        witness_utxo: Some(d.utxo),
        proprietary: Map::empty().insert(tweak_record_key(), d.tweak),
        ..InputView::empty()
    }
}

/// The map of an output that was put into a fresh PSBT.
pub open spec fn output_map(s: SlotView) -> OutputView {
    match s.address {
        Some(a) => OutputView {
            proprietary: Map::empty().insert(address_record_key(), consensus_string(a)),
        },
        None => OutputView::empty(),
    }
}

/// The PSBT that is made of inputs and outputs.
pub open spec fn built_psbt(d: Seq<InputDataView>, s: Seq<SlotView>) -> PsbtView {
    PsbtView {
        unsigned_tx: TxView {
            version: TX_VERSION,
            lock_time: TX_LOCK_TIME,
            input: unsigned_inputs(d.map_values(|x: InputDataView| x.outpoint), TX_SEQUENCE),
            output: s.map_values(|x: SlotView| x.output),
        },
        inputs: d.map_values(|x: InputDataView| input_map(x)),
        outputs: s.map_values(|x: SlotView| output_map(x)),
    }
}

/// The outputs of a PSBT for the given recipients and change.
///
/// `InsufficientFunds` where the recipients get more than the inputs hold;
/// `DustChange` where what is left is not zero and at most the dust threshold;
/// above the threshold it goes into one more output, for the change address.
pub open spec fn slots_with_change(
    paid: Seq<SlotView>,
    total_in: int,
    total_out: int,
    change_address: Seq<char>,
) -> Result<Seq<SlotView>, Error> {
    if total_out > total_in {
        Err(Error::InsufficientFunds)
    } else if total_in - total_out > DUST_THRESHOLD {
        Ok(paid.push(change_slot((total_in - total_out) as u64, change_address)))
    } else if total_in - total_out > 0 {
        Err(Error::DustChange)
    } else {
        Ok(paid)
    }
}

/// The PSBT that a wallet of the given network and change address builds from
/// chosen outputs and recipients, or the reason why it builds none.
///
/// The steps fail in this order: an input that does not parse; a total of the
/// inputs above 64 bits (`InvalidInput`); a placeholder key that is refused
/// (`Cryptographic`); a recipient that fails; a total of the recipients above
/// 64 bits (`InvalidInput`); the change.
pub open spec fn new_psbt_of(
    is_testnet: bool,
    change_address: Seq<char>,
    inputs: Seq<OwnedOutputView>,
    recipients: Seq<RecipientView>,
) -> Result<PsbtView, Error> {
    match inputs_data_of(inputs) {
        Err(e) => Err(e),
        Ok(d) => if total_in(d) > u64::MAX {
            Err(Error::InvalidInput)
        } else if !is_xonly_key(nums_bytes()) {
            Err(Error::Cryptographic)
        } else {
            match all_slots(recipients, is_testnet) {
                Err(e) => Err(e),
                Ok(paid) => if total_out(recipients) > u64::MAX {
                    Err(Error::InvalidInput)
                } else {
                    match slots_with_change(
                        paid,
                        total_in(d),
                        total_out(recipients),
                        change_address,
                    ) {
                        Err(e) => Err(e),
                        Ok(s) => Ok(built_psbt(d, s)),
                    }
                },
            }
        },
    }
}

/// Once a prefix of the inputs has failed, all of them fail in the same way.
proof fn lemma_inputs_fail(s: Seq<OwnedOutputView>, n: int)
    requires
        0 <= n <= s.len(),
        inputs_data_of(s.take(n)) is Err,
    ensures
        inputs_data_of(s) == inputs_data_of(s.take(n)),
    decreases s.len() - n,
{
    if n == s.len() {
        assert(s.take(n) =~= s);
    } else {
        assert(s.take(n + 1).drop_last() =~= s.take(n));
        lemma_inputs_fail(s, n + 1);
    }
}

/// Once a prefix of the recipients has failed, all of them fail in the same
/// way.
proof fn lemma_slots_fail(r: Seq<RecipientView>, is_testnet: bool, n: int)
    requires
        0 <= n <= r.len(),
        all_slots(r.take(n), is_testnet) is Err,
    ensures
        all_slots(r, is_testnet) == all_slots(r.take(n), is_testnet),
    decreases r.len() - n,
{
    if n == r.len() {
        assert(r.take(n) =~= r);
    } else {
        assert(r.take(n + 1).drop_last() =~= r.take(n));
        lemma_slots_fail(r, is_testnet, n + 1);
    }
}

/// The totals of a prefix are at most the totals of the whole.
proof fn lemma_total_in_prefix(d: Seq<InputDataView>, n: int)
    requires
        0 <= n <= d.len(),
    ensures
        0 <= total_in(d.take(n)) <= total_in(d),
    decreases d.len() - n,
{
    if n == d.len() {
        assert(d.take(n) =~= d);
        lemma_total_in_nonneg(d);
    } else {
        lemma_total_in_prefix(d, n + 1);
        assert(d.take(n + 1).drop_last() =~= d.take(n));
        lemma_total_in_nonneg(d.take(n));
    }
}

/// The total of the inputs is not negative.
proof fn lemma_total_in_nonneg(d: Seq<InputDataView>)
    ensures
        0 <= total_in(d),
    decreases d.len(),
{
    if d.len() > 0 {
        lemma_total_in_nonneg(d.drop_last());
    }
}

/// The total of the recipients is not negative.
pub proof fn lemma_total_out_nonneg(r: Seq<RecipientView>)
    ensures
        0 <= total_out(r),
    decreases r.len(),
{
    if r.len() > 0 {
        lemma_total_out_nonneg(r.drop_last());
    }
}

/// The totals of a prefix are at most the totals of the whole.
proof fn lemma_total_out_prefix(r: Seq<RecipientView>, n: int)
    requires
        0 <= n <= r.len(),
    ensures
        0 <= total_out(r.take(n)) <= total_out(r),
    decreases r.len() - n,
{
    if n == r.len() {
        assert(r.take(n) =~= r);
        lemma_total_out_nonneg(r);
    } else {
        lemma_total_out_prefix(r, n + 1);
        assert(r.take(n + 1).drop_last() =~= r.take(n));
        lemma_total_out_nonneg(r.take(n));
    }
}

/// In a PSBT that was built, every input carries the output that it spends
/// and its tweak; every output for a silent payment address carries that
/// address, and no other output carries an address.
pub proof fn law_psbt_augmentation(d: Seq<InputDataView>, s: Seq<SlotView>)
    ensures
        built_psbt(d, s).consistent(),
        forall|i: int|
            0 <= i < d.len() ==> {
                &&& (#[trigger] built_psbt(d, s).inputs[i]).witness_utxo == Some(d[i].utxo)
                &&& built_psbt(d, s).inputs[i].proprietary.contains_key(tweak_record_key())
                &&& built_psbt(d, s).inputs[i].proprietary[tweak_record_key()] == d[i].tweak
            },
        forall|j: int|
            0 <= j < s.len() ==> match s[j].address {
                Some(a) => (#[trigger] built_psbt(d, s).outputs[j]).proprietary.contains_key(
                    address_record_key(),
                ) && built_psbt(d, s).outputs[j].proprietary[address_record_key()]
                    == consensus_string(a),
                None => !(#[trigger] built_psbt(d, s).outputs[j]).proprietary.contains_key(
                    address_record_key(),
                ),
            },
{
}

/// The outputs for a recipient are as many as the recipient asks for; they
/// are marked with an address exactly where the recipient's address is a
/// silent payment address, and their amounts add up to the recipient's.
pub proof fn law_recipient_slots(r: RecipientView, is_testnet: bool)
    requires
        recipient_slots(r, is_testnet) is Ok,
    ensures
        (recipient_slots(r, is_testnet)->Ok_0).len() == r.nb_outputs,
        forall|j: int|
            0 <= j < r.nb_outputs ==> ((#[trigger] (recipient_slots(
                r,
                is_testnet,
            )->Ok_0)[j]).address is Some <==> sp_address_of(r.address) is Some),
        slots_total(recipient_slots(r, is_testnet)->Ok_0) == r.amount,
{
    let s = recipient_slots(r, is_testnet)->Ok_0;
    if sp_address_of(r.address) is Some {
        lemma_split_total(s, r.amount, r.nb_outputs, s.len() as int);
        assert(s.take(s.len() as int) =~= s);
    } else {
        assert(slots_total(s.drop_last()) == 0);
    }
}

/// The sum of the amounts of a sequence of outputs that are being built.
pub open spec fn slots_total(s: Seq<SlotView>) -> int
    decreases s.len(),
{
    if s.len() == 0 {
        0
    } else {
        slots_total(s.drop_last()) + s.last().output.value
    }
}

/// The total of two sequences of outputs, one after the other.
pub proof fn lemma_slots_total_concat(a: Seq<SlotView>, b: Seq<SlotView>)
    ensures
        slots_total(a + b) == slots_total(a) + slots_total(b),
    decreases b.len(),
{
    if b.len() == 0 {
    } else {
        lemma_slots_total_concat(a, b.drop_last());
        assert((a + b).drop_last() =~= a + b.drop_last());
    }
}

/// The outputs for all recipients hold together what the recipients get.
pub proof fn lemma_all_slots_total(r: Seq<RecipientView>, is_testnet: bool)
    requires
        all_slots(r, is_testnet) is Ok,
    ensures
        slots_total(all_slots(r, is_testnet)->Ok_0) == total_out(r),
    decreases r.len(),
{
    if r.len() > 0 {
        lemma_all_slots_total(r.drop_last(), is_testnet);
        law_recipient_slots(r.last(), is_testnet);
        lemma_slots_total_concat(
            all_slots(r.drop_last(), is_testnet)->Ok_0,
            recipient_slots(r.last(), is_testnet)->Ok_0,
        );
    }
}

/// The outputs of a transaction that is made of slots hold what the slots
/// hold.
pub proof fn lemma_slot_outputs_total(s: Seq<SlotView>)
    ensures
        crate::tx::total_value(s.map_values(|x: SlotView| x.output)) == slots_total(s),
    decreases s.len(),
{
    if s.len() > 0 {
        lemma_slot_outputs_total(s.drop_last());
        assert(s.map_values(|x: SlotView| x.output).drop_last() =~= s.drop_last().map_values(
            |x: SlotView| x.output,
        ));
    }
}

/// The first `n` of the outputs among which an amount is divided hold the
/// `n`-fold part and the remainder.
proof fn lemma_split_total(s: Seq<SlotView>, amount: u64, k: u32, n: int)
    requires
        k > 0,
        s.len() == k,
        1 <= n <= k,
        forall|j: int| 0 <= j < k ==> (#[trigger] s[j]).output.value == slot_amount(amount, k, j),
    ensures
        slots_total(s.take(n)) == n * (amount / (k as u64)) + amount % (k as u64),
        n == k ==> slots_total(s.take(n)) == amount,
    decreases n,
{
    let q = amount / (k as u64);
    let rest = amount % (k as u64);
    assert(q + rest <= amount && k * q + rest == amount) by (nonlinear_arith)
        requires
            k >= 1,
            q == amount / (k as u64),
            rest == amount % (k as u64),
    ;
    assert(s.take(n).drop_last() =~= s.take(n - 1));
    if n == 1 {
        assert(slots_total(s.take(0)) == 0);
    } else {
        lemma_split_total(s, amount, k, n - 1);
        assert(n * q == (n - 1) * q + q) by (nonlinear_arith);
    }
}

/// The key of the record that holds the tweak of an input.
pub fn tweak_record() -> (k: ProprietaryKey)
    ensures
        k@ == tweak_record_key(),
{
    ProprietaryKey { prefix: sp_prefix(), subtype: PSBT_SP_SUBTYPE, key: tweak_key() }
}

/// The key of the record that holds the silent payment address of an output.
pub fn address_record() -> (k: ProprietaryKey)
    ensures
        k@ == address_record_key(),
{
    ProprietaryKey { prefix: sp_prefix(), subtype: PSBT_SP_SUBTYPE, key: address_key() }
}

/// Reads the outpoint, the tweak and the script of a chosen output.
pub fn parse_input(o: &OwnedOutput) -> (r: Result<InputData, Error>)
    ensures
        match r {
            Ok(d) => input_data_of(o@) == Ok::<InputDataView, Error>(d@),
            Err(e) => input_data_of(o@) == Err::<InputDataView, Error>(e),
        },
{
    let outpoint = match parse_outpoint(o.txoutpoint.as_str()) {
        Some(p) => p,
        None => return Err(Error::InvalidInput),
    };
    let tweak = match bytes32_from_hex(o.tweak.as_str()) {
        Some(t) => t,
        None => return Err(Error::InvalidTweak),
    };
    if !check_scalar(&tweak) {
        return Err(Error::InvalidTweak);
    }
    let script_pubkey = match decode_hex(o.script.as_str()) {
        Some(s) => s,
        None => return Err(Error::InvalidInput),
    };
    Ok(InputData { outpoint, utxo: TxOutput { value: o.amount, script_pubkey }, tweak })
}

/// Reads the chosen outputs, in order.
pub fn parse_inputs(inputs: &Vec<OwnedOutput>) -> (r: Result<Vec<InputData>, Error>)
    ensures
        match r {
            Ok(d) => inputs_data_of(outputs_of(inputs@)) == Ok::<Seq<InputDataView>, Error>(
                data_of(d@),
            ),
            Err(e) => inputs_data_of(outputs_of(inputs@)) == Err::<Seq<InputDataView>, Error>(e),
        },
{
    let mut data: Vec<InputData> = Vec::new();
    let ghost all = outputs_of(inputs@);
    let mut i: usize = 0;
    assert(data_of(data@) =~= Seq::<InputDataView>::empty());
    while i < inputs.len()
        invariant
            i <= inputs.len(),
            all == outputs_of(inputs@),
            inputs_data_of(all.take(i as int)) == Ok::<Seq<InputDataView>, Error>(data_of(data@)),
        decreases inputs.len() - i,
    {
        proof {
            assert(all.take(i as int + 1).drop_last() =~= all.take(i as int));
        }
        let ghost before = data_of(data@);
        match parse_input(&inputs[i]) {
            Ok(d) => {
                data.push(d);
                assert(data_of(data@) =~= before.push(d@));
            },
            Err(e) => {
                proof {
                    lemma_inputs_fail(all, i as int + 1);
                }
                return Err(e);
            },
        }
        i += 1;
    }
    assert(all.take(i as int) =~= all);
    Ok(data)
}

/// The sum of the amounts of the inputs, where it fits in 64 bits.
pub fn sum_inputs(data: &Vec<InputData>) -> (r: Option<u64>)
    ensures
        match r {
            Some(t) => t == total_in(data_of(data@)),
            None => total_in(data_of(data@)) > u64::MAX,
        },
{
    let mut sum: u64 = 0;
    let ghost all = data_of(data@);
    let mut i: usize = 0;
    while i < data.len()
        invariant
            i <= data.len(),
            all == data_of(data@),
            sum == total_in(all.take(i as int)),
        decreases data.len() - i,
    {
        proof {
            assert(all.take(i as int + 1).drop_last() =~= all.take(i as int));
            lemma_total_in_prefix(all, i as int + 1);
        }
        match sum.checked_add(data[i].utxo.value) {
            Some(s) => {
                sum = s;
            },
            None => {
                return None;
            },
        }
        i += 1;
    }
    assert(all.take(i as int) =~= all);
    Some(sum)
}

/// The sum of the amounts of the recipients, where it fits in 64 bits.
pub fn sum_recipients(recipients: &Vec<Recipient>) -> (r: Option<u64>)
    ensures
        match r {
            Some(t) => t == total_out(recipients_of(recipients@)),
            None => total_out(recipients_of(recipients@)) > u64::MAX,
        },
{
    let mut sum: u64 = 0;
    let ghost all = recipients_of(recipients@);
    let mut i: usize = 0;
    while i < recipients.len()
        invariant
            i <= recipients.len(),
            all == recipients_of(recipients@),
            sum == total_out(all.take(i as int)),
        decreases recipients.len() - i,
    {
        proof {
            assert(all.take(i as int + 1).drop_last() =~= all.take(i as int));
            lemma_total_out_prefix(all, i as int + 1);
        }
        match sum.checked_add(recipients[i].amount) {
            Some(s) => {
                sum = s;
            },
            None => {
                return None;
            },
        }
        i += 1;
    }
    assert(all.take(i as int) =~= all);
    Some(sum)
}

/// Adds the outputs for one recipient to the outputs that are there.
fn push_recipient_slots(
    slots: &mut Vec<Slot>,
    recipient: &Recipient,
    is_testnet: bool,
    placeholder: &Vec<u8>,
) -> (r: Result<(), Error>)
    requires
        placeholder@ == placeholder_script(),
    ensures
        match r {
            Ok(()) => recipient_slots(recipient@, is_testnet) is Ok && slots_of(final(slots)@)
                == slots_of(old(slots)@) + recipient_slots(recipient@, is_testnet)->Ok_0,
            Err(e) => recipient_slots(recipient@, is_testnet) == Err::<Seq<SlotView>, Error>(e),
        },
{
    let ghost start = slots_of(slots@);
    match parse_sp_address(recipient.address.as_str()) {
        Some(a) => {
            if a.is_testnet != is_testnet {
                return Err(Error::NetworkMismatch);
            }
            if recipient.nb_outputs == 0 {
                return Err(Error::InvalidInput);
            }
            let k: u64 = recipient.nb_outputs as u64;
            let part: u64 = recipient.amount / k;
            let rest: u64 = recipient.amount % k;
            assert(part + rest <= recipient.amount) by (nonlinear_arith)
                requires
                    k >= 1,
                    part == recipient.amount / k,
                    rest == recipient.amount % k,
            ;
            let ghost target = recipient_slots(recipient@, is_testnet)->Ok_0;
            let mut j: u32 = 0;
            while j < recipient.nb_outputs
                invariant
                    j <= recipient.nb_outputs,
                    recipient.nb_outputs > 0,
                    k == recipient.nb_outputs,
                    part == recipient.amount / k,
                    rest == recipient.amount % k,
                    part + rest <= recipient.amount,
                    placeholder@ == placeholder_script(),
                    sp_address_of(recipient.address@) == Some(a@),
                    a.is_testnet == is_testnet,
                    recipient_slots(recipient@, is_testnet) == Ok::<Seq<SlotView>, Error>(target),
                    slots_of(slots@) == start + target.take(j as int),
                decreases recipient.nb_outputs - j,
            {
                let value: u64 = if j == 0 {
                    part + rest
                } else {
                    part
                };
                let ghost before = slots_of(slots@);
                let slot = Slot {
                    output: TxOutput { value, script_pubkey: clone_bytes(placeholder) },
                    address: Some(a.encoded.clone()),
                };
                slots.push(slot);
                proof {
                    assert(slots_of(slots@) =~= before.push(slot@));
                }
                j += 1;
            }
            Ok(())
        },
        None => {
            let a = match parse_address(recipient.address.as_str()) {
                Some(a) => a,
                None => return Err(Error::InvalidAddress),
            };
            if a.is_mainnet == is_testnet {
                return Err(Error::NetworkMismatch);
            }
            if recipient.nb_outputs != 1 {
                return Err(Error::InvalidInput);
            }
            let slot = Slot {
                output: TxOutput { value: recipient.amount, script_pubkey: a.script_pubkey },
                address: None,
            };
            slots.push(slot);
            Ok(())
        },
    }
}

/// The outputs for all recipients, in order.
fn plan_slots(recipients: &Vec<Recipient>, is_testnet: bool, placeholder: &Vec<u8>) -> (r:
    Result<Vec<Slot>, Error>)
    requires
        placeholder@ == placeholder_script(),
    ensures
        match r {
            Ok(s) => all_slots(recipients_of(recipients@), is_testnet) == Ok::<
                Seq<SlotView>,
                Error,
            >(slots_of(s@)),
            Err(e) => all_slots(recipients_of(recipients@), is_testnet) == Err::<
                Seq<SlotView>,
                Error,
            >(e),
        },
{
    let mut slots: Vec<Slot> = Vec::new();
    let ghost all = recipients_of(recipients@);
    let mut i: usize = 0;
    assert(slots_of(slots@) =~= Seq::<SlotView>::empty());
    while i < recipients.len()
        invariant
            i <= recipients.len(),
            all == recipients_of(recipients@),
            placeholder@ == placeholder_script(),
            all_slots(all.take(i as int), is_testnet) == Ok::<Seq<SlotView>, Error>(
                slots_of(slots@),
            ),
        decreases recipients.len() - i,
    {
        proof {
            assert(all.take(i as int + 1).drop_last() =~= all.take(i as int));
        }
        match push_recipient_slots(&mut slots, &recipients[i], is_testnet, placeholder) {
            Ok(()) => {},
            Err(e) => {
                proof {
                    lemma_slots_fail(all, is_testnet, i as int + 1);
                }
                return Err(e);
            },
        }
        i += 1;
    }
    assert(all.take(i as int) =~= all);
    Ok(slots)
}

/// Makes the PSBT of the given inputs and outputs: an unsigned transaction,
/// the spent output and the tweak with each input, and the address with each
/// output that pays a silent payment address.
pub fn assemble_psbt(data: &Vec<InputData>, slots: &Vec<Slot>) -> (p: Psbt)
    ensures
        psbt_view(p) == built_psbt(data_of(data@), slots_of(slots@)),
{
    let ghost d = data_of(data@);
    let ghost s = slots_of(slots@);
    let mut outpoints: Vec<OutPoint> = Vec::new();
    let mut i: usize = 0;
    while i < data.len()
        invariant
            i <= data.len(),
            d == data_of(data@),
            outpoints_view(outpoints@) == d.map_values(|x: InputDataView| x.outpoint).take(
                i as int,
            ),
        decreases data.len() - i,
    {
        let ghost before = outpoints_view(outpoints@);
        outpoints.push(data[i].outpoint);
        assert(outpoints_view(outpoints@) =~= before.push(d[i as int].outpoint));
        i += 1;
    }
    assert(d.map_values(|x: InputDataView| x.outpoint).take(i as int) =~= d.map_values(
        |x: InputDataView| x.outpoint,
    ));
    let mut outputs: Vec<TxOutput> = Vec::new();
    let mut j: usize = 0;
    while j < slots.len()
        invariant
            j <= slots.len(),
            s == slots_of(slots@),
            outputs_view(outputs@) == s.map_values(|x: SlotView| x.output).take(j as int),
        decreases slots.len() - j,
    {
        let ghost before = outputs_view(outputs@);
        let output = TxOutput {
            value: slots[j].output.value,
            script_pubkey: clone_bytes(&slots[j].output.script_pubkey),
        };
        outputs.push(output);
        assert(outputs_view(outputs@) =~= before.push(s[j as int].output));
        j += 1;
    }
    assert(s.map_values(|x: SlotView| x.output).take(j as int) =~= s.map_values(
        |x: SlotView| x.output,
    ));
    let mut psbt = new_psbt(TX_VERSION, TX_LOCK_TIME, &outpoints, TX_SEQUENCE, &outputs);
    let ghost tx = psbt_view(psbt).unsigned_tx;
    let key = tweak_record();
    let mut i: usize = 0;
    while i < data.len()
        invariant
            i <= data.len(),
            d == data_of(data@),
            key@ == tweak_record_key(),
            psbt_view(psbt).unsigned_tx == tx,
            psbt_view(psbt).outputs == Seq::new(s.len(), |n: int| OutputView::empty()),
            psbt_view(psbt).inputs == Seq::new(
                d.len(),
                |n: int|
                    if n < i {
                        input_map(d[n])
                    } else {
                        InputView::empty()
                    },
            ),
        decreases data.len() - i,
    {
        set_witness_utxo(&mut psbt, i, &data[i].utxo);
        insert_input_proprietary(&mut psbt, i, &key, bytes32_to_vec(&data[i].tweak));
        i += 1;
    }
    let key = address_record();
    let mut j: usize = 0;
    while j < slots.len()
        invariant
            j <= slots.len(),
            s == slots_of(slots@),
            key@ == address_record_key(),
            psbt_view(psbt).unsigned_tx == tx,
            psbt_view(psbt).inputs == d.map_values(|x: InputDataView| input_map(x)),
            psbt_view(psbt).outputs == Seq::new(
                s.len(),
                |n: int|
                    if n < j {
                        output_map(s[n])
                    } else {
                        OutputView::empty()
                    },
            ),
        decreases slots.len() - j,
    {
        match &slots[j].address {
            Some(a) => {
                insert_output_proprietary(&mut psbt, j, &key, encode_string(a));
            },
            None => {},
        }
        j += 1;
    }
    assert(psbt_view(psbt).outputs =~= s.map_values(|x: SlotView| output_map(x)));
    psbt
}

impl SpClient {
    /// Builds the unsigned PSBT that spends the chosen outputs to the
    /// recipients.
    ///
    /// The amount of a recipient with several outputs is divided among them:
    /// each gets the same part, and the first gets the remainder too. What the
    /// inputs hold above the recipients goes to the wallet's change address
    /// where it is above the dust threshold.
    pub fn create_new_psbt(&self, inputs: Vec<OwnedOutput>, recipients: Vec<Recipient>) -> (r:
        Result<Psbt, Error>)
        requires
            self.wf(),
        ensures
            match r {
                Ok(p) => new_psbt_of(
                    self.sp_receiver.is_testnet,
                    change_address_of(self.sp_receiver@),
                    outputs_of(inputs@),
                    recipients_of(recipients@),
                ) == Ok::<PsbtView, Error>(psbt_view(p)),
                Err(e) => new_psbt_of(
                    self.sp_receiver.is_testnet,
                    change_address_of(self.sp_receiver@),
                    outputs_of(inputs@),
                    recipients_of(recipients@),
                ) == Err::<PsbtView, Error>(e),
            },
    {
        let data = parse_inputs(&inputs)?;
        let total_input_amount = match sum_inputs(&data) {
            Some(t) => t,
            None => return Err(Error::InvalidInput),
        };
        let placeholder_spk = match p2tr_script(&nums()) {
            Some(s) => s,
            None => return Err(Error::Cryptographic),
        };
        let mut slots = plan_slots(&recipients, self.sp_receiver.is_testnet, &placeholder_spk)?;
        let total_output_amount = match sum_recipients(&recipients) {
            Some(t) => t,
            None => return Err(Error::InvalidInput),
        };
        if total_output_amount > total_input_amount {
            return Err(Error::InsufficientFunds);
        }
        let change_amt = total_input_amount - total_output_amount;
        if change_amt > DUST_THRESHOLD {
            let change = match change_address(&self.sp_receiver) {
                Some(a) => a,
                // not reached: the receiver of a well-formed wallet is accepted
                None => return Err(Error::Cryptographic),
            };
            let address = match parse_sp_address(change.as_str()) {
                Some(a) => Some(a.encoded),
                None => None,
            };
            let ghost before = slots_of(slots@);
            let slot = Slot {
                output: TxOutput { value: change_amt, script_pubkey: placeholder_spk },
                address,
            };
            slots.push(slot);
            assert(slots_of(slots@) =~= before.push(slot@));
        } else if change_amt > 0 {
            return Err(Error::DustChange);
        }
        Ok(assemble_psbt(&data, &slots))
    }
}

} // verus!
