//! Keys as plain bytes, and the calls into `secp256k1` that compute on them.
//!
//! A private key is the 32 bytes of a scalar, most significant byte first; a
//! public key is the 33 bytes of a compressed point; an output key is the 32
//! bytes of an x coordinate.

use vstd::prelude::*;
use bitcoin::secp256k1::{
    Keypair, Message, PublicKey, Scalar, Secp256k1, SecretKey, XOnlyPublicKey,
};
use crate::tx::{bytes_of_hex, decode_hex, vec_to_bytes32};

verus! {

/// The spend key of a wallet: private where the wallet can spend, public where
/// it only watches.
#[derive(Clone, Copy, Debug, PartialEq, Eq)]
pub enum SpendKey {
    /// The 32 bytes of the private spend key.
    Secret([u8; 32]),
    /// The 33 bytes of the compressed public spend key.
    Public([u8; 33]),
}

/// A spend key, as a mathematical value.
pub enum SpendKeyView {
    /// The 32 bytes of the private spend key.
    Secret(Seq<u8>),
    /// The 33 bytes of the compressed public spend key.
    Public(Seq<u8>),
}

impl View for SpendKey {
    type V = SpendKeyView;

    open spec fn view(&self) -> SpendKeyView {
        match self {
            SpendKey::Secret(k) => SpendKeyView::Secret(k@),
            SpendKey::Public(p) => SpendKeyView::Public(p@),
        }
    }
}

/// The number that a byte string stands for, most significant byte first.
pub open spec fn be_value(b: Seq<u8>) -> nat
    decreases b.len(),
{
    if b.len() == 0 {
        0
    } else {
        be_value(b.drop_last()) * 256 + b.last() as nat
    }
}

/// The order of the group of the curve secp256k1.
pub open spec fn curve_order() -> nat {
    0xFFFFFFFF_FFFFFFFF_FFFFFFFF_FFFFFFFE_BAAEDCE6_AF48A03B_BFD25E8C_D0364141nat
}

/// The bytes that stand for the order of the group of the curve.
pub fn curve_order_bytes() -> (r: [u8; 32])
    ensures
        be_value(r@) == curve_order(),
{
    let r: [u8; 32] = [
        0xffu8, 0xffu8, 0xffu8, 0xffu8, 0xffu8, 0xffu8, 0xffu8, 0xffu8,
        0xffu8, 0xffu8, 0xffu8, 0xffu8, 0xffu8, 0xffu8, 0xffu8, 0xfeu8,
        0xbau8, 0xaeu8, 0xdcu8, 0xe6u8, 0xafu8, 0x48u8, 0xa0u8, 0x3bu8,
        0xbfu8, 0xd2u8, 0x5eu8, 0x8cu8, 0xd0u8, 0x36u8, 0x41u8, 0x41u8,
    ];
    proof {
        lemma_be_value_of_words(r@);
    }
    r
}

/// The number that 32 bytes stand for, taken eight bytes at a time.
proof fn lemma_be_value_of_words(b: Seq<u8>)
    requires
        b.len() == 32,
    ensures
        be_value(b) == ((be_value(b.subrange(0, 8)) * 0x1_0000_0000_0000_0000 + be_value(
            b.subrange(8, 16),
        )) * 0x1_0000_0000_0000_0000 + be_value(b.subrange(16, 24))) * 0x1_0000_0000_0000_0000
            + be_value(b.subrange(24, 32)),
        be_value(b.subrange(0, 8)) == word_value(b.subrange(0, 8)),
        be_value(b.subrange(8, 16)) == word_value(b.subrange(8, 16)),
        be_value(b.subrange(16, 24)) == word_value(b.subrange(16, 24)),
        be_value(b.subrange(24, 32)) == word_value(b.subrange(24, 32)),
{
    lemma_be_value_split(b, 24);
    lemma_be_value_split(b.subrange(0, 24), 16);
    lemma_be_value_split(b.subrange(0, 16), 8);
    assert(vstd::arithmetic::power::pow(256, 8) == 0x1_0000_0000_0000_0000) by {
        reveal_with_fuel(vstd::arithmetic::power::pow, 9);
    }
    assert(b.subrange(0, 24).subrange(0, 16) =~= b.subrange(0, 16));
    assert(b.subrange(0, 24).subrange(16, 24) =~= b.subrange(16, 24));
    assert(b.subrange(0, 16).subrange(0, 8) =~= b.subrange(0, 8));
    assert(b.subrange(0, 16).subrange(8, 16) =~= b.subrange(8, 16));
    lemma_word_value(b.subrange(0, 8));
    lemma_word_value(b.subrange(8, 16));
    lemma_word_value(b.subrange(16, 24));
    lemma_word_value(b.subrange(24, 32));
}

/// The number that eight bytes stand for, written out.
pub open spec fn word_value(w: Seq<u8>) -> nat {
    (((((((w[0] as nat * 256 + w[1] as nat) * 256 + w[2] as nat) * 256 + w[3] as nat) * 256
        + w[4] as nat) * 256 + w[5] as nat) * 256 + w[6] as nat) * 256 + w[7] as nat) as nat
}

/// Eight bytes stand for the number that [`word_value`] writes out.
proof fn lemma_word_value(w: Seq<u8>)
    requires
        w.len() == 8,
    ensures
        be_value(w) == word_value(w),
{
    reveal_with_fuel(be_value, 9);
}

/// The number that a byte string stands for, from the numbers of its two
/// parts.
proof fn lemma_be_value_split(b: Seq<u8>, n: int)
    requires
        0 <= n <= b.len(),
    ensures
        be_value(b) == be_value(b.subrange(0, n)) * vstd::arithmetic::power::pow(
            256,
            (b.len() - n) as nat,
        ) + be_value(b.subrange(n, b.len() as int)),
    decreases b.len() - n,
{
    if n == b.len() {
        assert(b.subrange(0, n) =~= b);
        vstd::arithmetic::power::lemma_pow0(256);
    } else {
        let front = b.drop_last();
        lemma_be_value_split(front, n);
        assert(front.subrange(0, n) =~= b.subrange(0, n));
        assert(b.subrange(n, b.len() as int).drop_last() =~= front.subrange(n, front.len() as int));
        vstd::arithmetic::power::lemma_pow_adds(256, (front.len() - n) as nat, 1);
        vstd::arithmetic::power::lemma_pow1(256);
        let p = vstd::arithmetic::power::pow(256, (front.len() - n) as nat);
        let x = be_value(b.subrange(0, n));
        let y = be_value(front.subrange(n, front.len() as int));
        assert((x * p + y) * 256 == x * (p * 256) + y * 256) by (nonlinear_arith);
    }
}

/// 32 bytes that stand for a number below the curve order.
pub open spec fn is_scalar(b: Seq<u8>) -> bool {
    b.len() == 32 && be_value(b) < curve_order()
}

/// 32 bytes that stand for a private key: a scalar that is not zero.
pub open spec fn is_secret_key(b: Seq<u8>) -> bool {
    is_scalar(b) && be_value(b) != 0
}

/// Whether `sum` is the private key `key + tweak` modulo the curve order.
pub open spec fn is_tweaked_key(sum: Seq<u8>, key: Seq<u8>, tweak: Seq<u8>) -> bool {
    is_secret_key(sum) && be_value(sum) == (be_value(key) + be_value(tweak)) % curve_order()
}

/// Whether a private key and a tweak add up to a private key: both are in
/// range and the sum is not zero modulo the curve order.
pub open spec fn can_tweak(key: Seq<u8>, tweak: Seq<u8>) -> bool {
    is_secret_key(key) && is_scalar(tweak) && (be_value(key) + be_value(tweak)) % curve_order()
        != 0
}

/// The private key `key + tweak` modulo the curve order.
pub open spec fn tweaked_key(key: Seq<u8>, tweak: Seq<u8>) -> Seq<u8> {
    choose|sum: Seq<u8>| is_tweaked_key(sum, key, tweak)
}

/// Byte strings of one length that stand for the same number are equal.
pub proof fn lemma_be_value_injective(a: Seq<u8>, b: Seq<u8>)
    requires
        a.len() == b.len(),
        be_value(a) == be_value(b),
    ensures
        a == b,
    decreases a.len(),
{
    if a.len() == 0 {
    } else {
        let x = be_value(a.drop_last());
        let y = be_value(b.drop_last());
        assert(x == y && a.last() == b.last()) by (nonlinear_arith)
            requires
                x * 256 + a.last() as nat == y * 256 + b.last() as nat,
                a.last() < 256,
                b.last() < 256,
        ;
        lemma_be_value_injective(a.drop_last(), b.drop_last());
        assert(a =~= a.drop_last().push(a.last()));
    }
}

/// The sum of a private key and a tweak is one byte string only.
pub proof fn lemma_tweaked_key_unique(sum: Seq<u8>, key: Seq<u8>, tweak: Seq<u8>)
    requires
        is_tweaked_key(sum, key, tweak),
    ensures
        sum == tweaked_key(key, tweak),
{
    lemma_be_value_injective(sum, tweaked_key(key, tweak));
}

/// The compressed public key of a private key, as
/// `SecretKey::public_key` computes it.
pub uninterp spec fn public_key_of(secret: Seq<u8>) -> Seq<u8>;

/// Whether `Secp256k1::verify_schnorr` accepts 64 bytes as a signature of a
/// digest of 32 bytes under the x-only public key that 32 bytes stand for.
pub uninterp spec fn schnorr_verifies(sig: Seq<u8>, digest: Seq<u8>, xonly_key: Seq<u8>) -> bool;

/// The x-only public key of a private key: the x coordinate of its public
/// key, which is the compressed public key without its first byte.
pub open spec fn xonly_key_of(secret: Seq<u8>) -> Seq<u8> {
    public_key_of(secret).subrange(1, 33)
}

/// The private key that a spend key holds; for a public spend key, nothing.
pub open spec fn secret_of(spend_key: SpendKeyView) -> Seq<u8> {
    match spend_key {
        SpendKeyView::Secret(k) => k,
        SpendKeyView::Public(_) => Seq::empty(),
    }
}

/// Whether `XOnlyPublicKey::from_slice` accepts 32 bytes as the x coordinate
/// of a point of the curve.
pub uninterp spec fn is_xonly_key(bytes: Seq<u8>) -> bool;

/// The private key that 64 hex digits stand for; none where the text is no
/// such digits or the number is zero or not below the curve order.
pub open spec fn secret_key_of_hex(s: Seq<char>) -> Option<Seq<u8>> {
    match bytes32_of_hex(s) {
        Some(b) => if is_secret_key(b) {
            Some(b)
        } else {
            None
        },
        None => None,
    }
}

/// The compressed form of the public key that `PublicKey::from_str` reads from
/// hex digits, if it reads one.
pub uninterp spec fn public_key_of_hex(s: Seq<char>) -> Option<Seq<u8>>;

/// The 32 bytes that 64 hex digits stand for; none for any other text.
pub open spec fn bytes32_of_hex(s: Seq<char>) -> Option<Seq<u8>> {
    match bytes_of_hex(s) {
        Some(b) => if b.len() == 32 {
            Some(b)
        } else {
            None
        },
        None => None,
    }
}

/// Parses a private key with `SecretKey::from_slice` and computes its public
/// key with `SecretKey::public_key`. The parse fails exactly on bytes that are
/// zero or not below the curve order.
#[verifier::external_body]
pub(crate) fn public_key(secret: &[u8; 32]) -> (r: Option<[u8; 33]>)
    ensures
        r.is_some() == is_secret_key(secret@),
        r matches Some(p) ==> p@ == public_key_of(secret@),
{
    let sk = SecretKey::from_slice(secret).ok()?;
    Some(sk.public_key(&Secp256k1::signing_only()).serialize())
}

/// A byte string stands for a number below 256 to the power of its length.
proof fn lemma_be_value_bound(b: Seq<u8>)
    ensures
        be_value(b) < vstd::arithmetic::power::pow(256, b.len()),
    decreases b.len(),
{
    if b.len() == 0 {
        vstd::arithmetic::power::lemma_pow0(256);
    } else {
        lemma_be_value_bound(b.drop_last());
        vstd::arithmetic::power::lemma_pow_adds(256, (b.len() - 1) as nat, 1);
        vstd::arithmetic::power::lemma_pow1(256);
        let p = vstd::arithmetic::power::pow(256, (b.len() - 1) as nat);
        let x = be_value(b.drop_last());
        assert(x * 256 + b.last() < p * 256) by (nonlinear_arith)
            requires
                x < p,
                b.last() < 256,
        ;
    }
}

/// Of two byte strings of one length that agree up to index `i`, the one with
/// the smaller byte at `i` stands for the smaller number.
proof fn lemma_be_value_order(a: Seq<u8>, b: Seq<u8>, i: int)
    requires
        a.len() == b.len(),
        0 <= i < a.len(),
        a.take(i) == b.take(i),
        a[i] < b[i],
    ensures
        be_value(a) < be_value(b),
{
    let p = vstd::arithmetic::power::pow(256, (a.len() - i - 1) as nat);
    lemma_be_value_split(a, i + 1);
    lemma_be_value_split(b, i + 1);
    lemma_be_value_bound(a.subrange(i + 1, a.len() as int));
    assert(a.subrange(0, i + 1).drop_last() =~= a.take(i));
    assert(b.subrange(0, i + 1).drop_last() =~= b.take(i));
    let x = be_value(a.subrange(0, i + 1));
    let y = be_value(b.subrange(0, i + 1));
    let s = be_value(a.subrange(i + 1, a.len() as int));
    let t = be_value(b.subrange(i + 1, b.len() as int));
    assert(x * p + s < y * p + t) by (nonlinear_arith)
        requires
            x + 1 <= y,
            s < p,
            0 <= t,
    ;
}

/// Whether 32 bytes stand for a number below the curve order.
pub fn check_scalar(bytes: &[u8; 32]) -> (r: bool)
    ensures
        r == is_scalar(bytes@),
{
    let order = curve_order_bytes();
    let mut i: usize = 0;
    while i < 32
        invariant
            i <= 32,
            be_value(order@) == curve_order(),
            bytes@.take(i as int) == order@.take(i as int),
        decreases 32 - i,
    {
        if bytes[i] < order[i] {
            proof {
                lemma_be_value_order(bytes@, order@, i as int);
            }
            return true;
        }
        if bytes[i] > order[i] {
            proof {
                lemma_be_value_order(order@, bytes@, i as int);
            }
            return false;
        }
        assert(bytes@.take(i as int + 1) =~= order@.take(i as int + 1)) by {
        }
        i += 1;
    }
    assert(bytes@ =~= order@) by {
        assert(bytes@.take(32) =~= bytes@);
    }
    false
}

/// Calls `SecretKey::add_tweak`, which adds modulo the curve order and fails
/// where the sum is zero. `None` also where the key or the tweak is out of
/// range.
#[verifier::external_body]
pub(crate) fn add_tweak(key: &[u8; 32], tweak: &[u8; 32]) -> (r: Option<[u8; 32]>)
    ensures
        r.is_some() == can_tweak(key@, tweak@),
        r matches Some(sum) ==> is_tweaked_key(sum@, key@, tweak@),
{
    let sk = SecretKey::from_slice(key).ok()?;
    let tweak = Scalar::from_be_bytes(*tweak).ok()?;
    sk.add_tweak(&tweak).ok().map(|k| k.secret_bytes())
}

/// Calls `Secp256k1::sign_schnorr_with_rng` with the thread's random number
/// generator, which creates a BIP-340 signature of the digest for the key pair
/// of the private key: a signature that verifies under the x-only public key
/// of that private key. The signature differs from call to call; `None`
/// exactly where the bytes are no private key.
#[verifier::external_body]
pub(crate) fn sign_schnorr(digest: &[u8; 32], key: &[u8; 32]) -> (r: Option<[u8; 64]>)
    ensures
        r.is_some() == is_secret_key(key@),
        r matches Some(sig) ==> schnorr_verifies(sig@, digest@, xonly_key_of(key@)),
{
    let secp = Secp256k1::signing_only();
    let keypair = Keypair::from_secret_key(&secp, &SecretKey::from_slice(key).ok()?);
    let msg = Message::from_digest(*digest);
    Some(secp.sign_schnorr_with_rng(&msg, &keypair, &mut bip39::rand::thread_rng()).serialize())
}

/// Calls `ScriptBuf::new_p2tr_tweaked` on an output key: the script is the
/// opcode for witness version 1, a push of 32 bytes, and the key. `None`
/// exactly where `XOnlyPublicKey::from_slice` refuses the bytes.
#[verifier::external_body]
pub(crate) fn p2tr_script(output_key: &[u8; 32]) -> (r: Option<Vec<u8>>)
    ensures
        r.is_some() == is_xonly_key(output_key@),
        r matches Some(s) ==> s@ == p2tr_script_bytes(output_key@),
{
    let key = XOnlyPublicKey::from_slice(output_key).ok()?;
    let key = bitcoin::key::TapTweak::dangerous_assume_tweaked(key);
    Some(bitcoin::ScriptBuf::new_p2tr_tweaked(key).to_bytes())
}

/// The script that pays to a taproot output key.
pub open spec fn p2tr_script_bytes(output_key: Seq<u8>) -> Seq<u8> {
    seq![0x51u8, 0x20u8] + output_key
}

/// A byte string stands for zero exactly where all its bytes are zero.
proof fn lemma_be_value_zero(b: Seq<u8>)
    ensures
        be_value(b) == 0 <==> forall|i: int| 0 <= i < b.len() ==> b[i] == 0,
    decreases b.len(),
{
    if b.len() > 0 {
        lemma_be_value_zero(b.drop_last());
        if be_value(b) == 0 {
            assert forall|i: int| 0 <= i < b.len() implies b[i] == 0 by {
                if i < b.len() - 1 {
                    assert(b.drop_last()[i] == 0);
                }
            }
        } else if forall|i: int| 0 <= i < b.len() ==> b[i] == 0 {
            assert forall|i: int| 0 <= i < b.drop_last().len() implies b.drop_last()[i] == 0 by {
                assert(b[i] == 0);
            }
        }
    }
}

/// Whether 32 bytes stand for a private key: a number that is not zero and
/// below the curve order.
pub fn check_secret_key(bytes: &[u8; 32]) -> (r: bool)
    ensures
        r == is_secret_key(bytes@),
{
    let mut i: usize = 0;
    let mut zero = true;
    while i < 32
        invariant
            i <= 32,
            zero == (forall|j: int| 0 <= j < i ==> bytes@[j] == 0),
        decreases 32 - i,
    {
        if bytes[i] != 0 {
            zero = false;
        }
        i += 1;
    }
    proof {
        lemma_be_value_zero(bytes@);
    }
    !zero && check_scalar(bytes)
}

/// The private key that 64 hex digits stand for, as `SecretKey::from_str`
/// reads it.
pub fn secret_key_from_hex(s: &str) -> (r: Option<[u8; 32]>)
    ensures
        match r {
            Some(k) => secret_key_of_hex(s@) == Some(k@),
            None => secret_key_of_hex(s@) is None,
        },
{
    match bytes32_from_hex(s) {
        Some(key) => if check_secret_key(&key) {
            Some(key)
        } else {
            None
        },
        None => None,
    }
}

/// Calls `PublicKey::from_str`. `None` stands for every parse error.
#[verifier::external_body]
pub(crate) fn public_key_from_hex(s: &str) -> (r: Option<[u8; 33]>)
    ensures
        match r {
            Some(k) => public_key_of_hex(s@) == Some(k@),
            None => public_key_of_hex(s@) is None,
        },
{
    let key: Option<PublicKey> = s.parse().ok();
    key.map(|k| k.serialize())
}

/// The 32 bytes that 64 hex digits stand for, as `FromHex::from_hex` reads
/// them for an array of 32 bytes.
pub fn bytes32_from_hex(s: &str) -> (r: Option<[u8; 32]>)
    ensures
        match r {
            Some(k) => bytes32_of_hex(s@) == Some(k@),
            None => bytes32_of_hex(s@) is None,
        },
{
    match decode_hex(s) {
        Some(bytes) => vec_to_bytes32(&bytes),
        None => None,
    }
}

} // verus!
