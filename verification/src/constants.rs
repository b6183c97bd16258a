//! Numeric constants and the byte strings of the proprietary PSBT records.

use vstd::prelude::*;

verus! {

/// Largest amount, in satoshi, that is never turned into a change output.
pub const DUST_THRESHOLD: u64 = 546;

/// Subtype of the proprietary PSBT records of this wallet.
pub const PSBT_SP_SUBTYPE: u8 = 0;

/// Version of the transactions that the wallet builds.
pub const TX_VERSION: i32 = 2;

/// Lock time of the transactions that the wallet builds.
pub const TX_LOCK_TIME: u32 = 0;

/// Sequence number of every input that the wallet builds.
pub const TX_SEQUENCE: u32 = 0xFFFF_FFFF;

/// The ASCII bytes of `sp`, the prefix of the proprietary PSBT records.
pub open spec fn sp_prefix_bytes() -> Seq<u8> {
    seq![0x73u8, 0x70u8]
}

/// The ASCII bytes of `tweak`, the key of the record that an input carries.
pub open spec fn tweak_key_bytes() -> Seq<u8> {
    seq![0x74u8, 0x77u8, 0x65u8, 0x61u8, 0x6bu8]
}

/// The ASCII bytes of `address`, the key of the record that an output carries.
pub open spec fn address_key_bytes() -> Seq<u8> {
    seq![0x61u8, 0x64u8, 0x64u8, 0x72u8, 0x65u8, 0x73u8, 0x73u8]
}

/// The x coordinate of the BIP-341 point with no known discrete logarithm.
pub open spec fn nums_bytes() -> Seq<u8> {
    seq![
        0x50u8, 0x92u8, 0x9bu8, 0x74u8, 0xc1u8, 0xa0u8, 0x49u8, 0x54u8,
        0xb7u8, 0x8bu8, 0x4bu8, 0x60u8, 0x35u8, 0xe9u8, 0x7au8, 0x5eu8,
        0x07u8, 0x8au8, 0x5au8, 0x0fu8, 0x28u8, 0xecu8, 0x96u8, 0xd5u8,
        0x47u8, 0xbfu8, 0xeeu8, 0x9au8, 0xceu8, 0x80u8, 0x3au8, 0xc0u8,
    ]
}

/// The prefix of the proprietary PSBT records.
pub fn sp_prefix() -> (r: Vec<u8>)
    ensures
        r@ == sp_prefix_bytes(),
{
    let r: Vec<u8> = vec![0x73u8, 0x70u8];
    r
}

/// The key of the tweak record.
pub fn tweak_key() -> (r: Vec<u8>)
    ensures
        r@ == tweak_key_bytes(),
{
    let r: Vec<u8> = vec![0x74u8, 0x77u8, 0x65u8, 0x61u8, 0x6bu8];
    r
}

/// The key of the address record.
pub fn address_key() -> (r: Vec<u8>)
    ensures
        r@ == address_key_bytes(),
{
    let r: Vec<u8> = vec![0x61u8, 0x64u8, 0x64u8, 0x72u8, 0x65u8, 0x73u8, 0x73u8];
    r
}

/// The placeholder key of a silent payment output whose key is not derived yet.
pub fn nums() -> (r: [u8; 32])
    ensures
        r@ == nums_bytes(),
{
    let r: [u8; 32] = [
        0x50u8, 0x92u8, 0x9bu8, 0x74u8, 0xc1u8, 0xa0u8, 0x49u8, 0x54u8,
        0xb7u8, 0x8bu8, 0x4bu8, 0x60u8, 0x35u8, 0xe9u8, 0x7au8, 0x5eu8,
        0x07u8, 0x8au8, 0x5au8, 0x0fu8, 0x28u8, 0xecu8, 0x96u8, 0xd5u8,
        0x47u8, 0xbfu8, 0xeeu8, 0x9au8, 0xceu8, 0x80u8, 0x3au8, 0xc0u8,
    ];
    r
}

} // verus!
