//! The outputs that a wallet owns, and the rules by which their status moves.

use vstd::prelude::*;
use crate::error::Error;
use crate::tx::{OutPoint, OutPointView};

verus! {

/// How far a scan of the chain has come.
#[derive(Clone, Copy, Debug, PartialEq, Eq)]
pub struct ScanProgress {
    /// The height at which the scan started.
    pub start: u32,
    /// The height that the scan has reached.
    pub current: u32,
    /// The height at which the scan ends.
    pub end: u32,
}

/// Whether an owned output can still be spent.
#[derive(Clone, Debug, PartialEq, Eq)]
pub enum OutputSpendStatus {
    /// No transaction that spends the output was seen.
    Unspent,
    /// A transaction that spends the output was seen; its id is given.
    Spent(String),
    /// The spending transaction was confirmed in the block whose hash is given.
    Mined(String),
}

/// The status of an owned output, as a mathematical value.
pub enum SpendStatusView {
    /// No transaction that spends the output was seen.
    Unspent,
    /// A transaction that spends the output was seen; its id is given.
    Spent(Seq<char>),
    /// The spending transaction was confirmed in the block whose hash is given.
    Mined(Seq<char>),
}

impl View for OutputSpendStatus {
    type V = SpendStatusView;

    open spec fn view(&self) -> SpendStatusView {
        match self {
            OutputSpendStatus::Unspent => SpendStatusView::Unspent,
            OutputSpendStatus::Spent(t) => SpendStatusView::Spent(t@),
            OutputSpendStatus::Mined(b) => SpendStatusView::Mined(b@),
        }
    }
}

/// An output that pays the wallet.
#[derive(Clone, Debug, PartialEq, Eq)]
pub struct OwnedOutput {
    /// The outpoint, as `txid:vout`.
    pub txoutpoint: String,
    /// The height of the block that holds the output.
    pub blockheight: u32,
    /// The hex digits of the 32 bytes that, added to the private spend key,
    /// give the key of the output.
    pub tweak: String,
    /// The amount in satoshi.
    pub amount: u64,
    /// The hex digits of the locking script.
    pub script: String,
    /// The label under which the output was received, if any.
    pub label: Option<String>,
    /// Whether the output can still be spent.
    pub spend_status: OutputSpendStatus,
}

/// An owned output, as a mathematical value.
pub struct OwnedOutputView {
    /// The outpoint, as `txid:vout`.
    pub txoutpoint: Seq<char>,
    /// The height of the block that holds the output.
    pub blockheight: u32,
    /// The hex digits of the tweak.
    pub tweak: Seq<char>,
    /// The amount in satoshi.
    pub amount: u64,
    /// The hex digits of the locking script.
    pub script: Seq<char>,
    /// The label under which the output was received, if any.
    pub label: Option<Seq<char>>,
    /// Whether the output can still be spent.
    pub spend_status: SpendStatusView,
}

impl View for OwnedOutput {
    type V = OwnedOutputView;

    open spec fn view(&self) -> OwnedOutputView {
        OwnedOutputView {
            txoutpoint: self.txoutpoint@,
            blockheight: self.blockheight,
            tweak: self.tweak@,
            amount: self.amount,
            script: self.script@,
            label: match self.label {
                Some(l) => Some(l@),
                None => None,
            },
            spend_status: self.spend_status@,
        }
    }
}

/// Someone to pay.
#[derive(Clone, Debug, PartialEq, Eq)]
pub struct Recipient {
    /// A silent payment address or an ordinary Bitcoin address.
    pub address: String,
    /// The amount in satoshi, for all the outputs together.
    pub amount: u64,
    /// The number of outputs to pay with; one for an ordinary address.
    pub nb_outputs: u32,
}

/// A recipient, as a mathematical value.
pub struct RecipientView {
    /// A silent payment address or an ordinary Bitcoin address.
    pub address: Seq<char>,
    /// The amount in satoshi, for all the outputs together.
    pub amount: u64,
    /// The number of outputs to pay with.
    pub nb_outputs: u32,
}

impl View for Recipient {
    type V = RecipientView;

    open spec fn view(&self) -> RecipientView {
        RecipientView { address: self.address@, amount: self.amount, nb_outputs: self.nb_outputs }
    }
}

/// One owned output under its outpoint.
pub struct OwnedEntry {
    /// The outpoint.
    pub outpoint: OutPointView,
    /// What is known of the output.
    pub output: OwnedOutputView,
}

/// The owned outputs of a wallet as a mathematical value: a sequence of
/// entries, of which no two have the same outpoint.
pub open spec fn entries_of(v: Seq<(OutPoint, OwnedOutput)>) -> Seq<OwnedEntry> {
    v.map_values(|e: (OutPoint, OwnedOutput)| OwnedEntry { outpoint: e.0@, output: e.1@ })
}

/// The views of a sequence of owned outputs.
pub open spec fn outputs_of(v: Seq<OwnedOutput>) -> Seq<OwnedOutputView> {
    v.map_values(|o: OwnedOutput| o@)
}

/// The views of a sequence of recipients.
pub open spec fn recipients_of(v: Seq<Recipient>) -> Seq<RecipientView> {
    v.map_values(|r: Recipient| r@)
}

/// The outputs of a sequence of entries, in order.
pub open spec fn entry_outputs(s: Seq<OwnedEntry>) -> Seq<OwnedOutputView> {
    s.map_values(|e: OwnedEntry| e.output)
}

/// No two entries have the same outpoint.
pub open spec fn distinct_keys(s: Seq<OwnedEntry>) -> bool {
    forall|i: int, j: int| 0 <= i < j < s.len() ==> s[i].outpoint != s[j].outpoint
}

/// Entry `i` is the one under outpoint `k`.
pub open spec fn is_entry(s: Seq<OwnedEntry>, k: OutPointView, i: int) -> bool {
    0 <= i < s.len() && s[i].outpoint == k
}

/// Some entry is under outpoint `k`.
pub open spec fn has_key(s: Seq<OwnedEntry>, k: OutPointView) -> bool {
    exists|i: int| is_entry(s, k, i)
}

/// The index of an entry under outpoint `k`.
pub open spec fn index_of(s: Seq<OwnedEntry>, k: OutPointView) -> int {
    choose|i: int| is_entry(s, k, i)
}

/// The sum of all amounts.
pub open spec fn sum_all(s: Seq<OwnedEntry>) -> int
    decreases s.len(),
{
    if s.len() == 0 {
        0
    } else {
        sum_all(s.drop_last()) + s.last().output.amount
    }
}

/// The sum of the amounts of the unspent outputs.
pub open spec fn sum_unspent(s: Seq<OwnedEntry>) -> int
    decreases s.len(),
{
    if s.len() == 0 {
        0
    } else {
        sum_unspent(s.drop_last()) + if s.last().output.spend_status is Unspent {
            s.last().output.amount as int
        } else {
            0
        }
    }
}

/// The sum of the amounts of the outputs that are spent and not yet mined.
pub open spec fn sum_spent(s: Seq<OwnedEntry>) -> int
    decreases s.len(),
{
    if s.len() == 0 {
        0
    } else {
        sum_spent(s.drop_last()) + if s.last().output.spend_status is Spent {
            s.last().output.amount as int
        } else {
            0
        }
    }
}

/// The sum of the amounts of the outputs whose spending was mined.
pub open spec fn sum_mined(s: Seq<OwnedEntry>) -> int
    decreases s.len(),
{
    if s.len() == 0 {
        0
    } else {
        sum_mined(s.drop_last()) + if s.last().output.spend_status is Mined {
            s.last().output.amount as int
        } else {
            0
        }
    }
}

/// The entries with one more: under a new outpoint it is added at the end,
/// under a known one it takes the place of the old entry.
pub open spec fn insert_entry(s: Seq<OwnedEntry>, e: OwnedEntry) -> Seq<OwnedEntry> {
    if has_key(s, e.outpoint) {
        s.update(index_of(s, e.outpoint), e)
    } else {
        s.push(e)
    }
}

/// The entries after each of `more` was inserted, in order.
pub open spec fn extend_entries(s: Seq<OwnedEntry>, more: Seq<OwnedEntry>) -> Seq<OwnedEntry>
    decreases more.len(),
{
    if more.len() == 0 {
        s
    } else {
        insert_entry(extend_entries(s, more.drop_last()), more.last())
    }
}

/// The entries whose block height is at most `height`, in order.
pub open spec fn retain_up_to(s: Seq<OwnedEntry>, height: u32) -> Seq<OwnedEntry>
    decreases s.len(),
{
    if s.len() == 0 {
        s
    } else if s.last().output.blockheight <= height {
        retain_up_to(s.drop_last(), height).push(s.last())
    } else {
        retain_up_to(s.drop_last(), height)
    }
}

/// Entry `i` with another status.
pub open spec fn with_status(s: Seq<OwnedEntry>, i: int, status: SpendStatusView) -> Seq<
    OwnedEntry,
> {
    s.update(
        i,
        OwnedEntry { output: OwnedOutputView { spend_status: status, ..s[i].output }, ..s[i] },
    )
}

/// What marking the output under `k` as spent by the transaction `txid` gives:
/// the new entries, or the reason why nothing changes.
pub open spec fn mark_spent(s: Seq<OwnedEntry>, k: OutPointView, txid: Seq<char>) -> Result<
    Seq<OwnedEntry>,
    Error,
> {
    if !has_key(s, k) {
        Err(Error::NotFound)
    } else if s[index_of(s, k)].output.spend_status is Unspent {
        Ok(with_status(s, index_of(s, k), SpendStatusView::Spent(txid)))
    } else {
        Err(Error::AlreadySpent)
    }
}

/// What marking the output under `k` as mined in the block `block` gives: the
/// new entries, or the reason why nothing changes.
pub open spec fn mark_mined(s: Seq<OwnedEntry>, k: OutPointView, block: Seq<char>) -> Result<
    Seq<OwnedEntry>,
    Error,
> {
    if !has_key(s, k) {
        Err(Error::NotFound)
    } else if s[index_of(s, k)].output.spend_status is Mined {
        Err(Error::AlreadyMined)
    } else {
        Ok(with_status(s, index_of(s, k), SpendStatusView::Mined(block)))
    }
}

/// One step of the life of an owned output.
pub enum StatusChange {
    /// The output under the outpoint is marked as spent by a transaction.
    Spend(OutPointView, Seq<char>),
    /// The output under the outpoint is marked as mined in a block.
    Mine(OutPointView, Seq<char>),
}

/// The entries after one step; a step that fails changes nothing.
pub open spec fn after_change(s: Seq<OwnedEntry>, c: StatusChange) -> Seq<OwnedEntry> {
    match c {
        StatusChange::Spend(k, txid) => match mark_spent(s, k, txid) {
            Ok(t) => t,
            Err(_) => s,
        },
        StatusChange::Mine(k, block) => match mark_mined(s, k, block) {
            Ok(t) => t,
            Err(_) => s,
        },
    }
}

/// The entries after a sequence of steps.
pub open spec fn after_changes(s: Seq<OwnedEntry>, changes: Seq<StatusChange>) -> Seq<OwnedEntry>
    decreases changes.len(),
{
    if changes.len() == 0 {
        s
    } else {
        after_change(after_changes(s, changes.drop_last()), changes.last())
    }
}

/// With distinct outpoints, the entry under an outpoint is at one index only.
pub proof fn lemma_index_unique(s: Seq<OwnedEntry>, k: OutPointView, i: int)
    requires
        distinct_keys(s),
        is_entry(s, k, i),
    ensures
        has_key(s, k),
        index_of(s, k) == i,
{
    let j = index_of(s, k);
    if j < i {
    } else if i < j {
    }
}

/// The total of a sequence of entries with one more.
pub proof fn lemma_sums_push(s: Seq<OwnedEntry>, e: OwnedEntry)
    ensures
        sum_all(s.push(e)) == sum_all(s) + e.output.amount,
        sum_unspent(s.push(e)) == sum_unspent(s) + if e.output.spend_status is Unspent {
            e.output.amount as int
        } else {
            0
        },
        sum_spent(s.push(e)) == sum_spent(s) + if e.output.spend_status is Spent {
            e.output.amount as int
        } else {
            0
        },
        sum_mined(s.push(e)) == sum_mined(s) + if e.output.spend_status is Mined {
            e.output.amount as int
        } else {
            0
        },
{
    assert(s.push(e).drop_last() =~= s);
}

/// No sum is negative, and each partial sum is at most the total.
pub proof fn lemma_sums_bounded(s: Seq<OwnedEntry>)
    ensures
        0 <= sum_unspent(s) <= sum_all(s),
        0 <= sum_spent(s) <= sum_all(s),
        0 <= sum_mined(s) <= sum_all(s),
    decreases s.len(),
{
    if s.len() > 0 {
        lemma_sums_bounded(s.drop_last());
    }
}

/// The sums of a prefix are at most the sums of the whole.
pub proof fn lemma_sums_prefix(s: Seq<OwnedEntry>, n: int)
    requires
        0 <= n <= s.len(),
    ensures
        sum_all(s.take(n)) <= sum_all(s),
        sum_unspent(s.take(n)) <= sum_unspent(s),
        sum_spent(s.take(n)) <= sum_spent(s),
    decreases s.len() - n,
{
    if n == s.len() {
        assert(s.take(n) =~= s);
    } else {
        lemma_sums_prefix(s, n + 1);
        assert(s.take(n + 1).drop_last() =~= s.take(n));
    }
}

/// Replacing entry `i` changes the total by the difference of the amounts.
pub proof fn lemma_sum_all_update(s: Seq<OwnedEntry>, i: int, e: OwnedEntry)
    requires
        0 <= i < s.len(),
    ensures
        sum_all(s.update(i, e)) == sum_all(s) - s[i].output.amount + e.output.amount,
    decreases s.len(),
{
    if i == s.len() - 1 {
        assert(s.update(i, e).drop_last() =~= s.drop_last());
    } else {
        lemma_sum_all_update(s.drop_last(), i, e);
        assert(s.update(i, e).drop_last() =~= s.drop_last().update(i, e));
    }
}

/// What is kept up to a height has distinct outpoints and a total that is not
/// larger; each kept entry is one of the old ones.
pub proof fn lemma_retain(s: Seq<OwnedEntry>, height: u32)
    requires
        distinct_keys(s),
    ensures
        distinct_keys(retain_up_to(s, height)),
        0 <= sum_all(retain_up_to(s, height)) <= sum_all(s),
        forall|i: int|
            0 <= i < retain_up_to(s, height).len() ==> exists|j: int|
                0 <= j < s.len() && s[j] == #[trigger] retain_up_to(s, height)[i],
    decreases s.len(),
{
    if s.len() > 0 {
        let t = s.drop_last();
        lemma_retain(t, height);
        let r = retain_up_to(t, height);
        if s.last().output.blockheight <= height {
            let q = r.push(s.last());
            assert forall|i: int, j: int| 0 <= i < j < q.len() implies q[i].outpoint
                != q[j].outpoint by {
                if j == q.len() - 1 {
                    let m = choose|m: int| 0 <= m < t.len() && t[m] == r[i];
                }
            }
            lemma_sums_push(r, s.last());
            assert forall|i: int| 0 <= i < q.len() implies exists|j: int|
                0 <= j < s.len() && s[j] == #[trigger] q[i] by {
                if i == q.len() - 1 {
                } else {
                    let m = choose|m: int| 0 <= m < t.len() && t[m] == r[i];
                }
            }
        } else {
            assert forall|i: int| 0 <= i < r.len() implies exists|j: int|
                0 <= j < s.len() && s[j] == #[trigger] r[i] by {
                let m = choose|m: int| 0 <= m < t.len() && t[m] == r[i];
            }
        }
    }
}

/// Inserting an entry keeps the outpoints distinct.
pub proof fn lemma_insert_distinct(s: Seq<OwnedEntry>, e: OwnedEntry)
    requires
        distinct_keys(s),
    ensures
        distinct_keys(insert_entry(s, e)),
{
    if has_key(s, e.outpoint) {
        let i = index_of(s, e.outpoint);
    } else {
        assert forall|i: int, j: int| 0 <= i < j < s.push(e).len() implies s.push(e)[i].outpoint
            != s.push(e)[j].outpoint by {
            if j == s.len() {
                assert(!is_entry(s, e.outpoint, i));
            }
        }
    }
}

/// At all times the unspent, the spent and the mined amounts add up to the
/// total of the owned outputs.
pub proof fn law_balance_consistency(s: Seq<OwnedEntry>)
    ensures
        sum_unspent(s) + sum_spent(s) + sum_mined(s) == sum_all(s),
    decreases s.len(),
{
    if s.len() > 0 {
        law_balance_consistency(s.drop_last());
    }
}

/// An output that was marked as spent cannot be marked as spent again.
pub proof fn law_double_spend_fails(
    s: Seq<OwnedEntry>,
    k: OutPointView,
    first: Seq<char>,
    second: Seq<char>,
)
    requires
        distinct_keys(s),
        mark_spent(s, k, first) is Ok,
    ensures
        mark_spent(mark_spent(s, k, first)->Ok_0, k, second) == Err::<Seq<OwnedEntry>, Error>(
            Error::AlreadySpent,
        ),
{
    let i = index_of(s, k);
    let t = mark_spent(s, k, first)->Ok_0;
    lemma_index_unique(t, k, i);
}

/// No sequence of marking outputs as spent or as mined moves an output whose
/// spending was mined to another status, or to another block.
pub proof fn law_mined_is_terminal(s: Seq<OwnedEntry>, changes: Seq<StatusChange>, i: int)
    requires
        distinct_keys(s),
        0 <= i < s.len(),
        s[i].output.spend_status is Mined,
    ensures
        after_changes(s, changes).len() == s.len(),
        distinct_keys(after_changes(s, changes)),
        after_changes(s, changes)[i] == s[i],
    decreases changes.len(),
{
    if changes.len() > 0 {
        law_mined_is_terminal(s, changes.drop_last(), i);
    }
}

/// A copy of a spend status.
pub fn clone_status(s: &OutputSpendStatus) -> (r: OutputSpendStatus)
    ensures
        r@ == s@,
{
    match s {
        OutputSpendStatus::Unspent => OutputSpendStatus::Unspent,
        OutputSpendStatus::Spent(t) => OutputSpendStatus::Spent(t.clone()),
        OutputSpendStatus::Mined(b) => OutputSpendStatus::Mined(b.clone()),
    }
}

/// A copy of an owned output.
pub fn clone_output(o: &OwnedOutput) -> (r: OwnedOutput)
    ensures
        r@ == o@,
{
    OwnedOutput {
        txoutpoint: o.txoutpoint.clone(),
        blockheight: o.blockheight,
        tweak: o.tweak.clone(),
        amount: o.amount,
        script: o.script.clone(),
        label: match &o.label {
            Some(l) => Some(l.clone()),
            None => None,
        },
        spend_status: clone_status(&o.spend_status),
    }
}

/// The index of the entry under an outpoint, if there is one.
pub fn find_entry(owned: &Vec<(OutPoint, OwnedOutput)>, outpoint: &OutPoint) -> (r: Option<usize>)
    ensures
        match r {
            Some(i) => is_entry(entries_of(owned@), outpoint@, i as int),
            None => !has_key(entries_of(owned@), outpoint@),
        },
{
    let mut i: usize = 0;
    while i < owned.len()
        invariant
            i <= owned.len(),
            forall|j: int| 0 <= j < i ==> !is_entry(entries_of(owned@), outpoint@, j),
        decreases owned.len() - i,
    {
        if owned[i].0.same(outpoint) {
            return Some(i);
        }
        i += 1;
    }
    None
}

} // verus!
