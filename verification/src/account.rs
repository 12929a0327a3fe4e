//! The account that holds a token's fund of native currency.
use parity_scale_codec::{Decode, Encode};
use vstd::prelude::*;

verus! {

/// The identifier that marks a module-owned account.
pub open spec fn module_type_id() -> Seq<u8> {
    seq![0x6du8, 0x6fu8, 0x64u8, 0x6cu8]
}

/// The module identifier of the token factory (`coinfund`).
pub open spec fn coinfund_module_id() -> Seq<u8> {
    seq![0x63u8, 0x6fu8, 0x69u8, 0x6eu8, 0x66u8, 0x75u8, 0x6eu8, 0x64u8]
}

/// The four little-endian bytes of `x`.
pub open spec fn le_bytes_u32(x: u32) -> Seq<u8> {
    seq![
        (x & 0xff) as u8,
        ((x >> 8u32) & 0xff) as u8,
        ((x >> 16u32) & 0xff) as u8,
        ((x >> 24u32) & 0xff) as u8,
    ]
}

/// The unsigned integer whose little-endian bytes are `s`.
pub open spec fn le_value(s: Seq<u8>) -> nat
    decreases s.len(),
{
    if s.len() == 0 {
        0
    } else {
        s[0] as nat + 256 * le_value(s.drop_first())
    }
}

/// `le_value` of the fund-account seed of token 0.
pub open spec fn fund_account_base() -> nat {
    0x646e75666e696f636c646f6dnat
}

/// The fund account of the token `index`: the little-endian account number
/// whose bytes are the module type id, the module id and the token index.
pub open spec fn spec_fund_account_id(index: u32) -> u128 {
    (fund_account_base() + index * 0x1_0000_0000_0000_0000_0000_0000nat) as u128
}

#[verifier::external_type_specification]
#[verifier::external_body]
pub struct ExCodecError(parity_scale_codec::Error);

/// SCALE-encodes the tuple `(type_id, module_id, index)` with
/// `parity_scale_codec::Encode::encode`. Fixed-size byte arrays encode as
/// their bytes, a `u32` as its four little-endian bytes, and a tuple as the
/// concatenation of its fields' encodings.
#[verifier::external_body]
fn encode_sub_account_seed(type_id: [u8; 4], module_id: [u8; 8], index: u32) -> (r: Vec<u8>)
    ensures
        r@ == type_id@ + module_id@ + le_bytes_u32(index),
{
    (type_id, module_id, index).encode()
}

/// Decodes a `u128` with `parity_scale_codec::Decode::decode` from the front
/// of `bytes`: it fails when fewer than sixteen bytes are given, and
/// otherwise reads the first sixteen as a little-endian number.
#[verifier::external_body]
fn decode_u128(bytes: &[u8]) -> (r: Result<u128, parity_scale_codec::Error>)
    ensures
        r is Ok <==> bytes@.len() >= 16,
        r matches Ok(v) ==> v as nat == le_value(bytes@.subrange(0, 16)),
{
    let mut input: &[u8] = bytes;
    u128::decode(&mut input)
}

proof fn lemma_le_value_append(a: Seq<u8>, b: Seq<u8>)
    ensures
        le_value(a + b) == le_value(a) + vstd::arithmetic::power::pow(256, a.len()) * le_value(b),
    decreases a.len(),
{
    vstd::arithmetic::power::lemma_pow0(256);
    if a.len() == 0 {
        assert(a + b =~= b);
    } else {
        assert((a + b).drop_first() =~= a.drop_first() + b);
        lemma_le_value_append(a.drop_first(), b);
        vstd::arithmetic::power::lemma_pow_adds(256, 1, (a.len() - 1) as nat);
        vstd::arithmetic::power::lemma_pow1(256);
        let p = vstd::arithmetic::power::pow(256, (a.len() - 1) as nat);
        assert(256 * (le_value(a.drop_first()) + p * le_value(b))
            == 256 * le_value(a.drop_first()) + (256 * p) * le_value(b)) by (nonlinear_arith);
    }
}

proof fn lemma_le_bytes_u32(x: u32)
    ensures
        le_value(le_bytes_u32(x)) == x,
{
    let s = le_bytes_u32(x);
    let b0 = x & 0xff;
    let b1 = (x >> 8u32) & 0xff;
    let b2 = (x >> 16u32) & 0xff;
    let b3 = (x >> 24u32) & 0xff;
    assert(b0 < 256 && b1 < 256 && b2 < 256 && b3 < 256) by (bit_vector)
        requires
            b0 == x & 0xff,
            b1 == (x >> 8u32) & 0xff,
            b2 == (x >> 16u32) & 0xff,
            b3 == (x >> 24u32) & 0xff,
    ;
    assert(b0 + 256 * (b1 + 256 * (b2 + 256 * b3)) == x) by (bit_vector)
        requires
            b0 == x & 0xff,
            b1 == (x >> 8u32) & 0xff,
            b2 == (x >> 16u32) & 0xff,
            b3 == (x >> 24u32) & 0xff,
    ;
    let s1 = s.drop_first();
    let s2 = s1.drop_first();
    let s3 = s2.drop_first();
    let s4 = s3.drop_first();
    assert(s4.len() == 0);
    assert(le_value(s4) == 0);
    assert(le_value(s3) == s[3] as nat);
    assert(le_value(s2) == s[2] as nat + 256 * le_value(s3));
    assert(le_value(s1) == s[1] as nat + 256 * le_value(s2));
    assert(le_value(s) == s[0] as nat + 256 * le_value(s1));
}

proof fn lemma_seed_value(index: u32)
    ensures
        le_value(module_type_id() + coinfund_module_id() + le_bytes_u32(index))
            == spec_fund_account_id(index),
{
    let prefix = module_type_id() + coinfund_module_id();
    assert(prefix =~= seq![0x6du8, 0x6fu8, 0x64u8, 0x6cu8, 0x63u8, 0x6fu8, 0x69u8, 0x6eu8, 0x66u8, 0x75u8, 0x6eu8, 0x64u8]);
    assert(le_value(seq![0x6du8, 0x6fu8, 0x64u8, 0x6cu8, 0x63u8, 0x6fu8, 0x69u8, 0x6eu8, 0x66u8, 0x75u8, 0x6eu8, 0x64u8])
        == fund_account_base()) by {
        reveal_with_fuel(le_value, 13);
    }
    lemma_le_value_append(prefix, le_bytes_u32(index));
    lemma_le_bytes_u32(index);
    assert(vstd::arithmetic::power::pow(256, 12) == 0x1_0000_0000_0000_0000_0000_0000nat) by {
        reveal_with_fuel(vstd::arithmetic::power::pow, 13);
    }
    assert(fund_account_base() + index * 0x1_0000_0000_0000_0000_0000_0000nat < 0x1_0000_0000_0000_0000_0000_0000_0000_0000nat);
}

/// The account that holds the native-currency fund of token `index`: the
/// account number that the SCALE encoding of the module type id, the module
/// id and the index decodes to.
pub(crate) fn fund_account_id(index: u32) -> (r: u128)
    ensures
        r == spec_fund_account_id(index),
{
    let type_id: [u8; 4] = [0x6d, 0x6f, 0x64, 0x6c];
    let module_id: [u8; 8] = [0x63, 0x6f, 0x69, 0x6e, 0x66, 0x75, 0x6e, 0x64];
    assert(type_id@ =~= module_type_id());
    assert(module_id@ =~= coinfund_module_id());
    let seed = encode_sub_account_seed(type_id, module_id, index);
    proof {
        assert(seed@.subrange(0, 16) =~= seed@);
        lemma_seed_value(index);
    }
    match decode_u128(seed.as_slice()) {
        Ok(account) => account,
        Err(_) => 0,
    }
}

} // verus!
