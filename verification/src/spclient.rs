//! The wallet: its keys, its receiver, its scan heights and its owned outputs.

use vstd::prelude::*;
use bitcoin::Transaction;
use crate::address::{
    bytes33_eq, change_label, check_receiver, label_of, receiver_accepted, receiving_address,
    receiving_address_of, Receiver, ReceiverView, CHANGE_LABEL_INDEX, SP_VERSION,
};
use crate::error::Error;
use crate::keys::{is_secret_key, public_key, public_key_of, SpendKey, SpendKeyView};
use crate::outputs::{
    clone_output, distinct_keys, entries_of, entry_outputs, extend_entries, find_entry, has_key,
    insert_entry, lemma_insert_distinct, lemma_retain, lemma_sum_all_update, lemma_sums_bounded,
    lemma_sums_prefix, mark_mined, mark_spent, outputs_of, retain_up_to, sum_all, sum_spent,
    sum_unspent, with_status, OutputSpendStatus, OwnedEntry, OwnedOutput, SpendStatusView,
};
use crate::tx::{
    bytes32_eq, display_hash, displayed_hash, outpoints_view, spent_outpoints,
    transaction_outpoints, transaction_txid, tx_view, txid_of, OutPoint, OutPointView,
};

verus! {

/// A silent payment wallet.
#[derive(Clone, Debug, PartialEq, Eq)]
pub struct SpClient {
    /// The name of the wallet.
    pub label: String,
    /// The private scan key.
    pub scan_sk: [u8; 32],
    /// The spend key, private or public.
    pub spend_key: SpendKey,
    /// The seed phrase, where the wallet was made from one.
    pub mnemonic: Option<String>,
    /// What the wallet's addresses are made of.
    pub sp_receiver: Receiver,
    /// The height from which the chain is scanned.
    pub birthday: u32,
    /// The height up to which the chain was scanned.
    pub last_scan: u32,
    /// The owned outputs, each under its outpoint.
    pub owned: Vec<(OutPoint, OwnedOutput)>,
}

/// A wallet, as a mathematical value.
pub struct SpClientView {
    /// The name of the wallet.
    pub label: Seq<char>,
    /// The private scan key.
    pub scan_sk: Seq<u8>,
    /// The spend key, private or public.
    pub spend_key: SpendKeyView,
    /// The seed phrase, where the wallet was made from one.
    pub mnemonic: Option<Seq<char>>,
    /// What the wallet's addresses are made of.
    pub sp_receiver: ReceiverView,
    /// The height from which the chain is scanned.
    pub birthday: u32,
    /// The height up to which the chain was scanned.
    pub last_scan: u32,
    /// The owned outputs, each under its outpoint.
    pub owned: Seq<OwnedEntry>,
}

impl View for SpClient {
    type V = SpClientView;

    open spec fn view(&self) -> SpClientView {
        SpClientView {
            label: self.label@,
            scan_sk: self.scan_sk@,
            spend_key: self.spend_key@,
            mnemonic: match self.mnemonic {
                Some(m) => Some(m@),
                None => None,
            },
            sp_receiver: self.sp_receiver@,
            birthday: self.birthday,
            last_scan: self.last_scan,
            owned: entries_of(self.owned@),
        }
    }
}

/// The view of an optional string.
pub open spec fn opt_text(s: Option<String>) -> Option<Seq<char>> {
    match s {
        Some(m) => Some(m@),
        None => None,
    }
}

/// The height up to which a fresh wallet counts as scanned.
pub open spec fn initial_last_scan(birthday: u32) -> u32 {
    if birthday == 0 {
        0
    } else {
        (birthday - 1) as u32
    }
}

/// The later of two heights.
pub open spec fn later_height(recorded: u32, scanned: u32) -> u32 {
    if scanned > recorded {
        scanned
    } else {
        recorded
    }
}

/// The public spend key that belongs to a spend key.
pub open spec fn spend_pubkey_of(spend_key: SpendKeyView) -> Seq<u8> {
    match spend_key {
        SpendKeyView::Secret(k) => public_key_of(k),
        SpendKeyView::Public(p) => p,
    }
}

/// The receiver of a wallet with the given keys.
pub open spec fn receiver_for(
    scan_sk: Seq<u8>,
    spend_key: SpendKeyView,
    is_testnet: bool,
) -> ReceiverView {
    ReceiverView {
        version: SP_VERSION,
        scan_pubkey: public_key_of(scan_sk),
        spend_pubkey: spend_pubkey_of(spend_key),
        change_label: label_of(scan_sk, CHANGE_LABEL_INDEX),
        is_testnet,
    }
}

/// Whether the keys are in range: the scan key is a private key, and so is the
/// spend key where it is private.
pub open spec fn keys_in_range(scan_sk: Seq<u8>, spend_key: SpendKeyView) -> bool {
    &&& is_secret_key(scan_sk)
    &&& spend_key matches SpendKeyView::Secret(k) ==> is_secret_key(k)
}

/// What the steps of marking the owned ones among `outpoints` as spent give,
/// one after the other: the new entries, or the first failure.
pub open spec fn mark_all_spent(
    s: Seq<OwnedEntry>,
    outpoints: Seq<OutPointView>,
    txid: Seq<char>,
) -> Result<Seq<OwnedEntry>, Error>
    decreases outpoints.len(),
{
    if outpoints.len() == 0 {
        Ok(s)
    } else {
        match mark_all_spent(s, outpoints.drop_last(), txid) {
            Ok(t) => if has_key(t, outpoints.last()) {
                mark_spent(t, outpoints.last(), txid)
            } else {
                Ok(t)
            },
            Err(e) => Err(e),
        }
    }
}

impl SpClientView {
    /// The wallet is well formed: its keys are in range, its receiver is the
    /// one of its keys and is accepted, no outpoint is owned twice, and the
    /// total of the owned amounts fits in 64 bits.
    pub open spec fn wf(self) -> bool {
        &&& keys_in_range(self.scan_sk, self.spend_key)
        &&& self.sp_receiver == receiver_for(
            self.scan_sk,
            self.spend_key,
            self.sp_receiver.is_testnet,
        )
        &&& receiver_accepted(self.sp_receiver)
        &&& distinct_keys(self.owned)
        &&& sum_all(self.owned) <= u64::MAX
    }
}

impl SpClient {
    /// The wallet is well formed: its keys are in range, its receiver is the
    /// one of its keys and is accepted, no outpoint is owned twice, and the
    /// total of the owned amounts fits in 64 bits.
    pub open spec fn wf(&self) -> bool {
        self@.wf()
    }

    /// Whether the wallet is well formed.
    pub fn is_valid(&self) -> (r: bool)
        ensures
            r == self.wf(),
    {
        let scan_pubkey = match public_key(&self.scan_sk) {
            Some(p) => p,
            None => return false,
        };
        let spend_pubkey = match self.spend_key {
            SpendKey::Public(key) => key,
            SpendKey::Secret(key) => match public_key(&key) {
                Some(p) => p,
                None => return false,
            },
        };
        let label_scalar = match change_label(&self.scan_sk, CHANGE_LABEL_INDEX) {
            Some(l) => l,
            None => return false,
        };
        self.sp_receiver.version == SP_VERSION && bytes33_eq(
            &self.sp_receiver.scan_pubkey,
            &scan_pubkey,
        ) && bytes33_eq(&self.sp_receiver.spend_pubkey, &spend_pubkey) && bytes32_eq(
            &self.sp_receiver.change_label,
            &label_scalar,
        ) && check_receiver(&self.sp_receiver) && has_distinct_keys(&self.owned) && total_fits(
            &self.owned,
        )
    }

    /// Makes a wallet that owns nothing yet.
    ///
    /// Fails with `InvalidInput` where a private key is out of range, and with
    /// `Cryptographic` where the keys give no receiver.
    pub fn new(
        label: String,
        scan_sk: [u8; 32],
        spend_key: SpendKey,
        mnemonic: Option<String>,
        birthday: u32,
        is_testnet: bool,
    ) -> (r: Result<SpClient, Error>)
        ensures
            match r {
                Ok(c) => {
                    &&& keys_in_range(scan_sk@, spend_key@)
                    &&& c.wf()
                    &&& c@ == (SpClientView {
                        label: label@,
                        scan_sk: scan_sk@,
                        spend_key: spend_key@,
                        mnemonic: opt_text(mnemonic),
                        sp_receiver: receiver_for(scan_sk@, spend_key@, is_testnet),
                        birthday,
                        last_scan: initial_last_scan(birthday),
                        owned: Seq::empty(),
                    })
                },
                Err(e) => if !keys_in_range(scan_sk@, spend_key@) {
                    e == Error::InvalidInput
                } else {
                    e == Error::Cryptographic && !receiver_accepted(
                        receiver_for(scan_sk@, spend_key@, is_testnet),
                    )
                },
            },
    {
        let scan_pubkey = match public_key(&scan_sk) {
            Some(p) => p,
            None => return Err(Error::InvalidInput),
        };
        let label_scalar = match change_label(&scan_sk, CHANGE_LABEL_INDEX) {
            Some(l) => l,
            None => return Err(Error::InvalidInput),
        };
        let spend_pubkey = match spend_key {
            SpendKey::Public(key) => key,
            SpendKey::Secret(key) => match public_key(&key) {
                Some(p) => p,
                None => return Err(Error::InvalidInput),
            },
        };
        let sp_receiver = Receiver {
            version: SP_VERSION,
            scan_pubkey,
            spend_pubkey,
            change_label: label_scalar,
            is_testnet,
        };
        if !check_receiver(&sp_receiver) {
            return Err(Error::Cryptographic);
        }
        let last_scan = if birthday == 0 {
            0
        } else {
            birthday - 1
        };
        let owned: Vec<(OutPoint, OwnedOutput)> = Vec::new();
        assert(entries_of(owned@) =~= Seq::<OwnedEntry>::empty());
        Ok(
            SpClient {
                label,
                scan_sk,
                spend_key,
                mnemonic,
                sp_receiver,
                birthday,
                last_scan,
                owned,
            },
        )
    }

    /// Records the height up to which the chain was scanned. The height never
    /// goes down this way: a height below the recorded one changes nothing.
    pub fn update_last_scan(&mut self, scan_height: u32)
        ensures
            final(self)@ == (SpClientView {
                last_scan: later_height(old(self)@.last_scan, scan_height),
                ..old(self)@
            }),
    {
        if scan_height > self.last_scan {
            self.last_scan = scan_height;
        }
    }

    /// The sum of the amounts of the unspent outputs.
    pub fn get_spendable_amt(&self) -> (r: u64)
        requires
            self.wf(),
        ensures
            r == sum_unspent(self@.owned),
    {
        let mut sum: u64 = 0;
        let mut i: usize = 0;
        proof {
            lemma_sums_bounded(self@.owned);
        }
        while i < self.owned.len()
            invariant
                i <= self.owned.len(),
                sum == sum_unspent(self@.owned.take(i as int)),
                sum_unspent(self@.owned) <= u64::MAX,
            decreases self.owned.len() - i,
        {
            proof {
                lemma_sums_prefix(self@.owned, i as int + 1);
                assert(self@.owned.take(i as int + 1).drop_last() =~= self@.owned.take(
                    i as int,
                ));
            }
            match self.owned[i].1.spend_status {
                OutputSpendStatus::Unspent => {
                    sum = sum + self.owned[i].1.amount;
                },
                _ => {},
            }
            i += 1;
        }
        assert(self@.owned.take(i as int) =~= self@.owned);
        sum
    }

    /// The sum of the amounts of the outputs that are spent and not yet mined.
    pub fn get_unconfirmed_amt(&self) -> (r: u64)
        requires
            self.wf(),
        ensures
            r == sum_spent(self@.owned),
    {
        let mut sum: u64 = 0;
        let mut i: usize = 0;
        proof {
            lemma_sums_bounded(self@.owned);
        }
        while i < self.owned.len()
            invariant
                i <= self.owned.len(),
                sum == sum_spent(self@.owned.take(i as int)),
                sum_spent(self@.owned) <= u64::MAX,
            decreases self.owned.len() - i,
        {
            proof {
                lemma_sums_prefix(self@.owned, i as int + 1);
                assert(self@.owned.take(i as int + 1).drop_last() =~= self@.owned.take(
                    i as int,
                ));
            }
            match self.owned[i].1.spend_status {
                OutputSpendStatus::Spent(_) => {
                    sum = sum + self.owned[i].1.amount;
                },
                _ => {},
            }
            i += 1;
        }
        assert(self@.owned.take(i as int) =~= self@.owned);
        sum
    }

    /// Whether the total of the owned amounts would still fit in 64 bits after
    /// `owned` was put in with [`SpClient::extend_owned`].
    pub fn can_extend(&self, owned: &Vec<(OutPoint, OwnedOutput)>) -> (r: bool)
        requires
            self.wf(),
        ensures
            r == (sum_all(extend_entries(self@.owned, entries_of(owned@))) <= u64::MAX),
    {
        let mut work = clone_entries(&self.owned);
        let fits = extend_vec(&mut work, owned);
        fits
    }

    /// Puts outputs in; one under an outpoint that is owned already takes the
    /// place of the old one.
    pub fn extend_owned(&mut self, owned: Vec<(OutPoint, OwnedOutput)>)
        requires
            old(self).wf(),
            sum_all(extend_entries(old(self)@.owned, entries_of(owned@))) <= u64::MAX,
        ensures
            final(self).wf(),
            final(self)@.owned == extend_entries(old(self)@.owned, entries_of(owned@)),
            final(self)@ == (SpClientView { owned: final(self)@.owned, ..old(self)@ }),
    {
        let _ = extend_vec(&mut self.owned, &owned);
    }

    /// Whether an outpoint is owned.
    pub fn check_outpoint_owned(&self, outpoint: OutPoint) -> (r: bool)
        ensures
            r == has_key(self@.owned, outpoint@),
    {
        find_entry(&self.owned, &outpoint).is_some()
    }

    /// Marks an owned output as spent by the transaction with the given id.
    ///
    /// Fails with `NotFound` where the outpoint is not owned and with
    /// `AlreadySpent` where the output is not unspent; the wallet is then left
    /// as it was.
    pub fn mark_outpoint_spent(&mut self, outpoint: OutPoint, txid: [u8; 32]) -> (r: Result<
        (),
        Error,
    >)
        requires
            old(self).wf(),
        ensures
            final(self).wf(),
            match mark_spent(old(self)@.owned, outpoint@, displayed_hash(txid@)) {
                Ok(s) => r is Ok && final(self)@.owned == s,
                Err(e) => r == Err::<(), Error>(e) && final(self)@.owned == old(self)@.owned,
            },
            final(self)@ == (SpClientView { owned: final(self)@.owned, ..old(self)@ }),
    {
        let text = display_hash(&txid);
        mark_spent_in(&mut self.owned, &outpoint, text)
    }

    /// Marks an owned output as mined in the block with the given hash.
    ///
    /// Fails with `NotFound` where the outpoint is not owned and with
    /// `AlreadyMined` where the output is mined already; the wallet is then
    /// left as it was.
    pub fn mark_outpoint_mined(&mut self, outpoint: OutPoint, blkhash: [u8; 32]) -> (r: Result<
        (),
        Error,
    >)
        requires
            old(self).wf(),
        ensures
            final(self).wf(),
            match mark_mined(old(self)@.owned, outpoint@, displayed_hash(blkhash@)) {
                Ok(s) => r is Ok && final(self)@.owned == s,
                Err(e) => r == Err::<(), Error>(e) && final(self)@.owned == old(self)@.owned,
            },
            final(self)@ == (SpClientView { owned: final(self)@.owned, ..old(self)@ }),
    {
        let i = match find_entry(&self.owned, &outpoint) {
            Some(i) => i,
            None => return Err(Error::NotFound),
        };
        match self.owned[i].1.spend_status {
            OutputSpendStatus::Mined(_) => Err(Error::AlreadyMined),
            _ => {
                let text = display_hash(&blkhash);
                let ghost before = self@.owned;
                let mut entry = (self.owned[i].0, clone_output(&self.owned[i].1));
                entry.1.spend_status = OutputSpendStatus::Mined(text);
                self.owned.set(i, entry);
                proof {
                    assert(self@.owned =~= with_status(
                        before,
                        i as int,
                        SpendStatusView::Mined(displayed_hash(blkhash@)),
                    ));
                    lemma_sum_all_update(before, i as int, self@.owned[i as int]);
                }
                Ok(())
            },
        }
    }

    /// Marks as spent every owned output that a transaction spends. Inputs
    /// that spend what the wallet does not own are passed over.
    ///
    /// Where one of the owned outputs is not unspent, fails with
    /// `AlreadySpent` and leaves the wallet as it was.
    pub fn mark_transaction_inputs_as_spent(&mut self, tx: &Transaction) -> (r: Result<(), Error>)
        requires
            old(self).wf(),
        ensures
            final(self).wf(),
            match mark_all_spent(
                old(self)@.owned,
                spent_outpoints(tx_view(*tx)),
                displayed_hash(txid_of(tx_view(*tx))),
            ) {
                Ok(s) => r is Ok && final(self)@.owned == s,
                Err(e) => r == Err::<(), Error>(e) && final(self)@.owned == old(self)@.owned,
            },
            final(self)@ == (SpClientView { owned: final(self)@.owned, ..old(self)@ }),
    {
        let txid = transaction_txid(tx);
        let outpoints = transaction_outpoints(tx);
        let mut work = clone_entries(&self.owned);
        let ghost start = self@.owned;
        let ghost all = spent_outpoints(tx_view(*tx));
        let ghost text = displayed_hash(txid@);
        let mut i: usize = 0;
        while i < outpoints.len()
            invariant
                i <= outpoints.len(),
                *self == *old(self),
                old(self).wf(),
                start == old(self)@.owned,
                all == spent_outpoints(tx_view(*tx)),
                outpoints_view(outpoints@) == all,
                text == displayed_hash(txid@),
                text == displayed_hash(txid_of(tx_view(*tx))),
                distinct_keys(entries_of(work@)),
                sum_all(entries_of(work@)) <= u64::MAX,
                mark_all_spent(start, all.take(i as int), text) == Ok::<Seq<OwnedEntry>, Error>(
                    entries_of(work@),
                ),
            decreases outpoints.len() - i,
        {
            proof {
                assert(all.take(i as int + 1).drop_last() =~= all.take(i as int));
            }
            if find_entry(&work, &outpoints[i]).is_some() {
                let step = mark_spent_in(&mut work, &outpoints[i], display_hash(&txid));
                match step {
                    Ok(()) => {},
                    Err(e) => {
                        proof {
                            lemma_mark_all_fails(start, all, i as int + 1, text);
                        }
                        return Err(e);
                    },
                }
            }
            i += 1;
        }
        assert(all.take(i as int) =~= all);
        self.owned = work;
        Ok(())
    }

    /// The owned outputs, in the order in which their outpoints came in.
    pub fn list_outpoints(&self) -> (r: Vec<OwnedOutput>)
        ensures
            outputs_of(r@) == entry_outputs(self@.owned),
    {
        let mut r: Vec<OwnedOutput> = Vec::new();
        let mut i: usize = 0;
        while i < self.owned.len()
            invariant
                i <= self.owned.len(),
                outputs_of(r@) == entry_outputs(self@.owned).take(i as int),
            decreases self.owned.len() - i,
        {
            let ghost before = outputs_of(r@);
            r.push(clone_output(&self.owned[i].1));
            assert(outputs_of(r@) =~= before.push(entry_outputs(self@.owned)[i as int]));
            i += 1;
        }
        r
    }

    /// The wallet without the outputs above a height, scanned up to that
    /// height. The outputs that stay keep their status.
    pub fn reset_from_blockheight(self, blockheight: u32) -> (r: SpClient)
        requires
            self.wf(),
        ensures
            r.wf(),
            r@ == (SpClientView {
                owned: retain_up_to(self@.owned, blockheight),
                last_scan: blockheight,
                ..self@
            }),
    {
        let mut kept: Vec<(OutPoint, OwnedOutput)> = Vec::new();
        let mut i: usize = 0;
        while i < self.owned.len()
            invariant
                i <= self.owned.len(),
                entries_of(kept@) == retain_up_to(self@.owned.take(i as int), blockheight),
            decreases self.owned.len() - i,
        {
            proof {
                assert(self@.owned.take(i as int + 1).drop_last() =~= self@.owned.take(
                    i as int,
                ));
            }
            if self.owned[i].1.blockheight <= blockheight {
                kept.push((self.owned[i].0, clone_output(&self.owned[i].1)));
            }
            i += 1;
        }
        proof {
            assert(self@.owned.take(i as int) =~= self@.owned);
            lemma_retain(self@.owned, blockheight);
        }
        SpClient {
            label: self.label,
            scan_sk: self.scan_sk,
            spend_key: self.spend_key,
            mnemonic: self.mnemonic,
            sp_receiver: self.sp_receiver,
            birthday: self.birthday,
            last_scan: blockheight,
            owned: kept,
        }
    }

    /// The address under which the wallet receives.
    pub fn get_receiving_address(&self) -> (r: String)
        requires
            self.wf(),
        ensures
            r@ == receiving_address_of(self.sp_receiver@),
    {
        match receiving_address(&self.sp_receiver) {
            Some(a) => a,
            // not reached: the receiver of a well-formed wallet is accepted
            None => String::new(),
        }
    }

    /// The private scan key.
    pub fn get_scan_key(&self) -> (r: [u8; 32])
        ensures
            r@ == self@.scan_sk,
    {
        self.scan_sk
    }
}

/// A copy of a list of owned outputs.
pub fn clone_entries(owned: &Vec<(OutPoint, OwnedOutput)>) -> (r: Vec<(OutPoint, OwnedOutput)>)
    ensures
        entries_of(r@) == entries_of(owned@),
{
    let mut r: Vec<(OutPoint, OwnedOutput)> = Vec::new();
    let mut i: usize = 0;
    while i < owned.len()
        invariant
            i <= owned.len(),
            entries_of(r@) == entries_of(owned@).take(i as int),
        decreases owned.len() - i,
    {
        let ghost before = entries_of(r@);
        r.push((owned[i].0, clone_output(&owned[i].1)));
        assert(entries_of(r@) =~= before.push(entries_of(owned@)[i as int]));
        i += 1;
    }
    r
}

/// Whether no two of the owned outputs are under the same outpoint.
pub fn has_distinct_keys(owned: &Vec<(OutPoint, OwnedOutput)>) -> (r: bool)
    ensures
        r == distinct_keys(entries_of(owned@)),
{
    let ghost s = entries_of(owned@);
    let mut j: usize = 0;
    while j < owned.len()
        invariant
            j <= owned.len(),
            s == entries_of(owned@),
            forall|a: int, b: int| 0 <= a < b < j ==> s[a].outpoint != s[b].outpoint,
        decreases owned.len() - j,
    {
        let mut i: usize = 0;
        while i < j
            invariant
                i <= j,
                j < owned.len(),
                s == entries_of(owned@),
                forall|a: int| 0 <= a < i ==> s[a].outpoint != s[j as int].outpoint,
            decreases j - i,
        {
            if owned[i].0.same(&owned[j].0) {
                assert(s[i as int].outpoint == s[j as int].outpoint);
                return false;
            }
            i += 1;
        }
        j += 1;
    }
    true
}

/// Inserts each of `more` into `owned`, in order, and says whether the total
/// of the amounts fits in 64 bits afterwards.
fn extend_vec(
    owned: &mut Vec<(OutPoint, OwnedOutput)>,
    more: &Vec<(OutPoint, OwnedOutput)>,
) -> (fits: bool)
    requires
        distinct_keys(entries_of(old(owned)@)),
    ensures
        entries_of(final(owned)@) == extend_entries(entries_of(old(owned)@), entries_of(more@)),
        distinct_keys(entries_of(final(owned)@)),
        fits == (sum_all(entries_of(final(owned)@)) <= u64::MAX),
{
    let ghost start = entries_of(owned@);
    let ghost added = entries_of(more@);
    let mut i: usize = 0;
    while i < more.len()
        invariant
            i <= more.len(),
            added == entries_of(more@),
            distinct_keys(entries_of(owned@)),
            entries_of(owned@) == extend_entries(start, added.take(i as int)),
        decreases more.len() - i,
    {
        proof {
            assert(added.take(i as int + 1).drop_last() =~= added.take(i as int));
            lemma_insert_distinct(entries_of(owned@), added[i as int]);
        }
        let ghost before = entries_of(owned@);
        let entry = (more[i].0, clone_output(&more[i].1));
        match find_entry(owned, &more[i].0) {
            Some(j) => {
                owned.set(j, entry);
                assert(entries_of(owned@) =~= insert_entry(before, added[i as int]));
            },
            None => {
                owned.push(entry);
                assert(entries_of(owned@) =~= insert_entry(before, added[i as int]));
            },
        }
        i += 1;
    }
    assert(added.take(i as int) =~= added);
    total_fits(owned)
}

/// Whether the total of the amounts fits in 64 bits.
fn total_fits(owned: &Vec<(OutPoint, OwnedOutput)>) -> (fits: bool)
    ensures
        fits == (sum_all(entries_of(owned@)) <= u64::MAX),
{
    let mut sum: u64 = 0;
    let mut i: usize = 0;
    while i < owned.len()
        invariant
            i <= owned.len(),
            sum == sum_all(entries_of(owned@).take(i as int)),
        decreases owned.len() - i,
    {
        proof {
            lemma_sums_prefix(entries_of(owned@), i as int + 1);
            assert(entries_of(owned@).take(i as int + 1).drop_last() =~= entries_of(owned@).take(
                i as int,
            ));
        }
        match sum.checked_add(owned[i].1.amount) {
            Some(s) => {
                sum = s;
            },
            None => {
                return false;
            },
        }
        i += 1;
    }
    assert(entries_of(owned@).take(i as int) =~= entries_of(owned@));
    true
}

/// Marks the output under an outpoint as spent by the transaction whose id
/// reads `text`.
fn mark_spent_in(owned: &mut Vec<(OutPoint, OwnedOutput)>, outpoint: &OutPoint, text: String) -> (r:
    Result<(), Error>)
    requires
        distinct_keys(entries_of(old(owned)@)),
    ensures
        distinct_keys(entries_of(final(owned)@)),
        sum_all(entries_of(final(owned)@)) == sum_all(entries_of(old(owned)@)),
        match mark_spent(entries_of(old(owned)@), outpoint@, text@) {
            Ok(s) => r is Ok && entries_of(final(owned)@) == s,
            Err(e) => r == Err::<(), Error>(e) && entries_of(final(owned)@) == entries_of(
                old(owned)@,
            ),
        },
{
    let i = match find_entry(owned, outpoint) {
        Some(i) => i,
        None => return Err(Error::NotFound),
    };
    match owned[i].1.spend_status {
        OutputSpendStatus::Unspent => {
            let ghost before = entries_of(owned@);
            let ghost status = SpendStatusView::Spent(text@);
            let mut entry = (owned[i].0, clone_output(&owned[i].1));
            entry.1.spend_status = OutputSpendStatus::Spent(text);
            owned.set(i, entry);
            proof {
                assert(entries_of(owned@) =~= with_status(before, i as int, status));
                lemma_sum_all_update(before, i as int, entries_of(owned@)[i as int]);
            }
            Ok(())
        },
        _ => Err(Error::AlreadySpent),
    }
}

/// Once marking a prefix of the outpoints has failed, marking all of them
/// fails in the same way.
proof fn lemma_mark_all_fails(
    s: Seq<OwnedEntry>,
    outpoints: Seq<OutPointView>,
    n: int,
    txid: Seq<char>,
)
    requires
        0 <= n <= outpoints.len(),
        mark_all_spent(s, outpoints.take(n), txid) is Err,
    ensures
        mark_all_spent(s, outpoints, txid) == mark_all_spent(s, outpoints.take(n), txid),
    decreases outpoints.len() - n,
{
    if n == outpoints.len() {
        assert(outpoints.take(n) =~= outpoints);
    } else {
        assert(outpoints.take(n + 1).drop_last() =~= outpoints.take(n));
        lemma_mark_all_fails(s, outpoints, n + 1, txid);
    }
}

} // verus!
