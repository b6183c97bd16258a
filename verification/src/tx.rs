//! Outpoints, outputs and whole transactions.
//!
//! The wallet's own values ([`OutPoint`], [`TxOutput`]) are plain data. A whole
//! transaction stays a value of the `bitcoin` crate; what the wallet states of
//! it is stated over [`tx_view`].

use vstd::prelude::*;
use bitcoin::Transaction;

verus! {

/// A reference to one output of a transaction, as a mathematical value.
pub struct OutPointView {
    /// The 32 bytes of the transaction id, in the order in which they are hashed.
    pub txid: Seq<u8>,
    /// The index of the output.
    pub vout: u32,
}

/// A reference to one output of a transaction.
#[derive(Clone, Copy, Debug, PartialEq, Eq)]
pub struct OutPoint {
    /// The 32 bytes of the transaction id, in the order in which they are hashed.
    pub txid: [u8; 32],
    /// The index of the output.
    pub vout: u32,
}

impl View for OutPoint {
    type V = OutPointView;

    open spec fn view(&self) -> OutPointView {
        OutPointView { txid: self.txid@, vout: self.vout }
    }
}

/// An amount and the script that locks it, as a mathematical value.
pub struct TxOutView {
    /// The amount in satoshi.
    pub value: u64,
    /// The bytes of the locking script.
    pub script_pubkey: Seq<u8>,
}

/// An amount and the script that locks it.
#[derive(Clone, Debug, PartialEq, Eq)]
pub struct TxOutput {
    /// The amount in satoshi.
    pub value: u64,
    /// The bytes of the locking script.
    pub script_pubkey: Vec<u8>,
}

impl View for TxOutput {
    type V = TxOutView;

    open spec fn view(&self) -> TxOutView {
        TxOutView { value: self.value, script_pubkey: self.script_pubkey@ }
    }
}

/// One input of a transaction, as a mathematical value.
pub struct TxInView {
    /// The output that the input spends.
    pub previous_output: OutPointView,
    /// The bytes of the unlocking script.
    pub script_sig: Seq<u8>,
    /// The sequence number.
    pub sequence: u32,
    /// The items of the witness stack.
    pub witness: Seq<Seq<u8>>,
}

/// A transaction, as a mathematical value.
pub struct TxView {
    /// The version number.
    pub version: i32,
    /// The lock time in its consensus encoding.
    pub lock_time: u32,
    /// The inputs, in order.
    pub input: Seq<TxInView>,
    /// The outputs, in order.
    pub output: Seq<TxOutView>,
}

/// The lengths on which the size of a transaction depends.
pub struct TxShape {
    /// For each input, the length of its unlocking script and the lengths of
    /// the items of its witness.
    pub inputs: Seq<(nat, Seq<nat>)>,
    /// For each output, the length of its locking script.
    pub outputs: Seq<nat>,
}

/// The lengths of the scripts and witness items of a transaction.
pub open spec fn tx_shape(tx: TxView) -> TxShape {
    TxShape {
        inputs: tx.input.map_values(
            |i: TxInView| (i.script_sig.len(), i.witness.map_values(|w: Seq<u8>| w.len())),
        ),
        outputs: tx.output.map_values(|o: TxOutView| o.script_pubkey.len()),
    }
}

/// The lower-case hex digit of a number below 16.
pub open spec fn hex_digit(n: u8) -> char {
    if n < 10 {
        (n + 48) as char
    } else {
        (n + 87) as char
    }
}

/// The lower-case hex digits of a byte string, two for each byte.
pub open spec fn hex_of(bytes: Seq<u8>) -> Seq<char>
    decreases bytes.len(),
{
    if bytes.len() == 0 {
        Seq::empty()
    } else {
        hex_of(bytes.drop_last()).push(hex_digit(bytes.last() / 16)).push(
            hex_digit(bytes.last() % 16),
        )
    }
}

/// The number that a hex digit stands for, in either case; none for any other
/// character.
pub open spec fn hex_value(c: char) -> Option<u8> {
    if '0' <= c <= '9' {
        Some((c as int - 48) as u8)
    } else if 'a' <= c <= 'f' {
        Some((c as int - 87) as u8)
    } else if 'A' <= c <= 'F' {
        Some((c as int - 55) as u8)
    } else {
        None
    }
}

/// The bytes that a text of an even number of hex digits stands for, two
/// digits for each byte; none where one character is no hex digit.
pub open spec fn bytes_of_hex_pairs(s: Seq<char>) -> Option<Seq<u8>>
    decreases s.len(),
{
    if s.len() < 2 {
        Some(Seq::empty())
    } else {
        match (
            bytes_of_hex_pairs(s.take(s.len() - 2)),
            hex_value(s[s.len() - 2]),
            hex_value(s[s.len() - 1]),
        ) {
            (Some(b), Some(hi), Some(lo)) => Some(b.push((16 * hi + lo) as u8)),
            _ => None,
        }
    }
}

/// The bytes that hex digits stand for; none where their number is odd or one
/// character is no hex digit.
pub open spec fn bytes_of_hex(s: Seq<char>) -> Option<Seq<u8>> {
    if s.len() % 2 != 0 {
        None
    } else {
        bytes_of_hex_pairs(s)
    }
}

/// A transaction id or a block hash as it is displayed: the hex digits of its
/// bytes in reverse order.
pub open spec fn displayed_hash(hash: Seq<u8>) -> Seq<char> {
    hex_of(hash.reverse())
}

/// The views of a sequence of outputs.
pub open spec fn outputs_view(v: Seq<TxOutput>) -> Seq<TxOutView> {
    v.map_values(|o: TxOutput| o@)
}

/// The views of a sequence of outpoints.
pub open spec fn outpoints_view(v: Seq<OutPoint>) -> Seq<OutPointView> {
    v.map_values(|o: OutPoint| o@)
}

/// The outpoints that the inputs of a transaction spend, in order.
pub open spec fn spent_outpoints(tx: TxView) -> Seq<OutPointView> {
    tx.input.map_values(|i: TxInView| i.previous_output)
}

/// The sum of the amounts of a sequence of outputs.
pub open spec fn total_value(outputs: Seq<TxOutView>) -> int
    decreases outputs.len(),
{
    if outputs.len() == 0 {
        0
    } else {
        total_value(outputs.drop_last()) + outputs.last().value
    }
}

#[verifier::external_type_specification]
#[verifier::external_body]
pub struct ExTransaction(Transaction);

/// What a transaction of the `bitcoin` crate holds: its version, its lock time,
/// and its inputs and outputs with all their fields.
pub uninterp spec fn tx_view(t: Transaction) -> TxView;

/// The outpoint that `bitcoin::OutPoint::from_str` reads from a string of the
/// form `txid:vout`, if it reads one.
pub uninterp spec fn outpoint_of_str(s: Seq<char>) -> Option<OutPointView>;

/// The transaction that `bitcoin::consensus::deserialize` reads from the bytes
/// that a string of hex digits stands for, if it reads one.
pub uninterp spec fn transaction_of_hex(s: Seq<char>) -> Option<TxView>;

/// The hex digits of the consensus encoding of a transaction, as
/// `bitcoin::consensus::encode::serialize_hex` writes them.
pub uninterp spec fn transaction_hex(tx: TxView) -> Seq<char>;

/// The 32 bytes of the id that `bitcoin::Transaction::txid` computes.
pub uninterp spec fn txid_of(tx: TxView) -> Seq<u8>;

/// The virtual size that `bitcoin::Transaction::vsize` computes for a
/// transaction whose scripts and witness items have the given lengths.
pub uninterp spec fn vsize_of(shape: TxShape) -> nat;

/// Calls `bitcoin::OutPoint::from_str`. The result is a function of the string
/// alone; `None` stands for every parse error.
#[verifier::external_body]
pub(crate) fn parse_outpoint(s: &str) -> (r: Option<OutPoint>)
    ensures
        match r {
            Some(o) => outpoint_of_str(s@) == Some(o@),
            None => outpoint_of_str(s@) is None,
        },
{
    let parsed: Option<bitcoin::OutPoint> = s.parse().ok();
    parsed.map(|o| OutPoint { txid: bitcoin::hashes::Hash::to_byte_array(o.txid), vout: o.vout })
}

/// Once a prefix of hex digits stands for no bytes, the whole stands for
/// none.
proof fn lemma_hex_pairs_fail(s: Seq<char>, n: int)
    requires
        0 <= n <= s.len(),
        n % 2 == 0,
        s.len() % 2 == 0,
        bytes_of_hex_pairs(s.take(n)) is None,
    ensures
        bytes_of_hex_pairs(s) is None,
    decreases s.len() - n,
{
    if n == s.len() {
        assert(s.take(n) =~= s);
    } else {
        assert(s.take(n + 2).take(n) =~= s.take(n));
        lemma_hex_pairs_fail(s, n + 2);
    }
}

/// The number that a hex digit stands for.
fn hex_digit_value(c: char) -> (r: Option<u8>)
    ensures
        r == hex_value(c),
{
    if c == '0' {
        Some(0)
    } else if c == '1' {
        Some(1)
    } else if c == '2' {
        Some(2)
    } else if c == '3' {
        Some(3)
    } else if c == '4' {
        Some(4)
    } else if c == '5' {
        Some(5)
    } else if c == '6' {
        Some(6)
    } else if c == '7' {
        Some(7)
    } else if c == '8' {
        Some(8)
    } else if c == '9' {
        Some(9)
    } else if c == 'a' || c == 'A' {
        Some(10)
    } else if c == 'b' || c == 'B' {
        Some(11)
    } else if c == 'c' || c == 'C' {
        Some(12)
    } else if c == 'd' || c == 'D' {
        Some(13)
    } else if c == 'e' || c == 'E' {
        Some(14)
    } else if c == 'f' || c == 'F' {
        Some(15)
    } else {
        None
    }
}

/// The bytes that hex digits stand for, as `FromHex::from_hex` reads them:
/// two digits of either case for each byte.
pub fn decode_hex(hex: &str) -> (r: Option<Vec<u8>>)
    ensures
        match r {
            Some(b) => bytes_of_hex(hex@) == Some(b@),
            None => bytes_of_hex(hex@) is None,
        },
{
    let len = hex.unicode_len();
    if len % 2 != 0 {
        return None;
    }
    let mut bytes: Vec<u8> = Vec::new();
    let mut i: usize = 0;
    while i < len
        invariant
            i <= len,
            i % 2 == 0,
            len % 2 == 0,
            len == hex@.len(),
            bytes_of_hex_pairs(hex@.take(i as int)) == Some(bytes@),
        decreases len - i,
    {
        proof {
            assert(hex@.take(i as int + 2).take(i as int) =~= hex@.take(i as int));
        }
        let digits = (hex_digit_value(hex.get_char(i)), hex_digit_value(hex.get_char(i + 1)));
        match digits {
            (Some(hi), Some(lo)) => {
                bytes.push(16 * hi + lo);
            },
            _ => {
                proof {
                    lemma_hex_pairs_fail(hex@, i as int + 2);
                }
                return None;
            },
        }
        i += 2;
    }
    assert(hex@.take(len as int) =~= hex@);
    Some(bytes)
}

/// The 32 bytes of a byte string as an array, where it has 32.
pub fn vec_to_bytes32(v: &Vec<u8>) -> (r: Option<[u8; 32]>)
    ensures
        r.is_some() == (v@.len() == 32),
        r matches Some(a) ==> a@ == v@,
{
    if v.len() != 32 {
        return None;
    }
    let mut a: [u8; 32] = [0u8; 32];
    let mut i: usize = 0;
    while i < 32
        invariant
            i <= 32,
            v@.len() == 32,
            forall|j: int| 0 <= j < i ==> a@[j] == v@[j],
        decreases 32 - i,
    {
        a.set(i, v[i]);
        i += 1;
    }
    Some(a)
}

/// The lower-case hex digit of a number below 16, as a text of one
/// character.
fn hex_digit_str(n: u8) -> (s: &'static str)
    requires
        n < 16,
    ensures
        s@ == seq![hex_digit(n)],
{
    proof {
        reveal_strlit("0");
        reveal_strlit("1");
        reveal_strlit("2");
        reveal_strlit("3");
        reveal_strlit("4");
        reveal_strlit("5");
        reveal_strlit("6");
        reveal_strlit("7");
        reveal_strlit("8");
        reveal_strlit("9");
        reveal_strlit("a");
        reveal_strlit("b");
        reveal_strlit("c");
        reveal_strlit("d");
        reveal_strlit("e");
        reveal_strlit("f");
    }
    let s = if n == 0 {
        "0"
    } else if n == 1 {
        "1"
    } else if n == 2 {
        "2"
    } else if n == 3 {
        "3"
    } else if n == 4 {
        "4"
    } else if n == 5 {
        "5"
    } else if n == 6 {
        "6"
    } else if n == 7 {
        "7"
    } else if n == 8 {
        "8"
    } else if n == 9 {
        "9"
    } else if n == 10 {
        "a"
    } else if n == 11 {
        "b"
    } else if n == 12 {
        "c"
    } else if n == 13 {
        "d"
    } else if n == 14 {
        "e"
    } else {
        "f"
    };
    s
}

/// A transaction id or a block hash as it is displayed: the lower-case hex
/// digits of its bytes in reverse order.
pub fn display_hash(hash: &[u8; 32]) -> (s: String)
    ensures
        s@ == displayed_hash(hash@),
{
    let ghost reversed = hash@.reverse();
    let mut s = String::new();
    let mut i: usize = 32;
    while i > 0
        invariant
            i <= 32,
            reversed == hash@.reverse(),
            s@ == hex_of(reversed.take(32 - i)),
        decreases i,
    {
        i -= 1;
        let b = hash[i];
        s.append(hex_digit_str(b / 16));
        s.append(hex_digit_str(b % 16));
        proof {
            let part = reversed.take(32 - i);
            assert(part.drop_last() =~= reversed.take(31 - i));
        }
    }
    assert(reversed.take(32) =~= reversed);
    s
}

/// Decodes hex digits and calls `bitcoin::consensus::deserialize` on the
/// bytes. `None` stands for bad hex and for every decoding error.
#[verifier::external_body]
pub(crate) fn parse_transaction(hex: &str) -> (r: Option<Transaction>)
    ensures
        match r {
            Some(t) => transaction_of_hex(hex@) == Some(tx_view(t)),
            None => transaction_of_hex(hex@) is None,
        },
{
    let bytes: Vec<u8> = bitcoin::hashes::hex::FromHex::from_hex(hex).ok()?;
    bitcoin::consensus::deserialize(&bytes).ok()
}

/// Calls `bitcoin::consensus::encode::serialize_hex`.
#[verifier::external_body]
pub(crate) fn transaction_to_hex(t: &Transaction) -> (s: String)
    ensures
        s@ == transaction_hex(tx_view(*t)),
{
    bitcoin::consensus::encode::serialize_hex(t)
}

/// Calls `bitcoin::Transaction::txid`.
#[verifier::external_body]
pub(crate) fn transaction_txid(t: &Transaction) -> (id: [u8; 32])
    ensures
        id@ == txid_of(tx_view(*t)),
{
    bitcoin::hashes::Hash::to_byte_array(t.txid())
}

/// Reads the field `previous_output` of every input of a transaction.
#[verifier::external_body]
pub(crate) fn transaction_outpoints(t: &Transaction) -> (r: Vec<OutPoint>)
    ensures
        outpoints_view(r@) == spent_outpoints(tx_view(*t)),
{
    t.input.iter().map(|i| OutPoint {
        txid: bitcoin::hashes::Hash::to_byte_array(i.previous_output.txid),
        vout: i.previous_output.vout,
    }).collect()
}

/// Calls `bitcoin::Transaction::vsize`, which adds up the sizes of the parts
/// of the transaction: of its contents only the numbers of inputs, outputs
/// and witness items and the lengths of the scripts and witness items count.
#[verifier::external_body]
pub(crate) fn transaction_vsize(t: &Transaction) -> (n: usize)
    ensures
        n == vsize_of(tx_shape(tx_view(*t))),
{
    t.vsize()
}

/// Whether two arrays of 32 bytes hold the same bytes.
pub fn bytes32_eq(a: &[u8; 32], b: &[u8; 32]) -> (r: bool)
    ensures
        r == (a@ == b@),
{
    let mut i: usize = 0;
    while i < 32
        invariant
            i <= 32,
            forall|j: int| 0 <= j < i ==> a@[j] == b@[j],
        decreases 32 - i,
    {
        if a[i] != b[i] {
            return false;
        }
        i += 1;
    }
    assert(a@ =~= b@);
    true
}

/// Whether two byte strings hold the same bytes.
pub fn bytes_eq(a: &Vec<u8>, b: &Vec<u8>) -> (r: bool)
    ensures
        r == (a@ == b@),
{
    if a.len() != b.len() {
        return false;
    }
    let mut i: usize = 0;
    while i < a.len()
        invariant
            i <= a.len(),
            a.len() == b.len(),
            forall|j: int| 0 <= j < i ==> a@[j] == b@[j],
        decreases a.len() - i,
    {
        if a[i] != b[i] {
            return false;
        }
        i += 1;
    }
    assert(a@ =~= b@);
    true
}

/// A copy of a byte string.
pub fn clone_bytes(v: &Vec<u8>) -> (r: Vec<u8>)
    ensures
        r@ == v@,
{
    let mut r: Vec<u8> = Vec::new();
    let mut i: usize = 0;
    while i < v.len()
        invariant
            i <= v.len(),
            r@ == v@.take(i as int),
        decreases v.len() - i,
    {
        r.push(v[i]);
        i += 1;
    }
    r
}

/// The bytes of an array of 32 as a byte string.
pub fn bytes32_to_vec(a: &[u8; 32]) -> (r: Vec<u8>)
    ensures
        r@ == a@,
{
    let mut r: Vec<u8> = Vec::new();
    let mut i: usize = 0;
    while i < 32
        invariant
            i <= 32,
            r@ == a@.take(i as int),
        decreases 32 - i,
    {
        r.push(a[i]);
        i += 1;
    }
    r
}

impl OutPoint {
    /// Whether two outpoints name the same output.
    pub fn same(&self, other: &OutPoint) -> (r: bool)
        ensures
            r == (self@ == other@),
    {
        self.vout == other.vout && bytes32_eq(&self.txid, &other.txid)
    }
}

} // verus!
