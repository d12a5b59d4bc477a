//! The canonical binary encodings the host ABI speaks: fixed-width
//! little-endian integers and the compact (variable-length) encoding of small
//! counts. The encodings themselves are stated as spec functions; the actual
//! encoding and decoding is done by the `parity_scale_codec` crate behind
//! trusted wrappers whose contracts restate those spec functions.

use vstd::arithmetic::div_mod::{lemma_breakdown, lemma_mod_mod, lemma_small_mod};
use vstd::prelude::*;

verus! {

/// 256 to the power `n`: the number of byte strings of length `n`.
pub open spec fn pow256(n: nat) -> nat
    decreases n,
{
    if n == 0 {
        1
    } else {
        256 * pow256((n - 1) as nat)
    }
}

/// The `n`-byte little-endian encoding of `v % pow256(n)`.
pub open spec fn le_bytes_of(v: nat, n: nat) -> Seq<u8>
    decreases n,
{
    if n == 0 {
        Seq::empty()
    } else {
        seq![(v % 256) as u8] + le_bytes_of(v / 256, (n - 1) as nat)
    }
}

/// The value of a byte string read as a little-endian integer.
pub open spec fn le_value_of(s: Seq<u8>) -> nat
    decreases s.len(),
{
    if s.len() == 0 {
        0
    } else {
        (s[0] as nat) + 256 * le_value_of(s.drop_first())
    }
}

/// The canonical 16-byte encoding of a balance.
pub open spec fn u128_le_bytes(v: u128) -> Seq<u8> {
    le_bytes_of(v as nat, 16)
}

/// The balance encoded in the first 16 bytes of `s`.
pub open spec fn u128_of_le(s: Seq<u8>) -> u128 {
    le_value_of(s.take(16)) as u128
}

/// The compact encoding of a 32-bit count: two mode bits select one of four
/// widths, and small values occupy a single byte.
pub open spec fn compact_u32_bytes(v: u32) -> Seq<u8> {
    if v < 64 {
        seq![(v * 4) as u8]
    } else if v < 16384 {
        le_bytes_of((v * 4 + 1) as nat, 2)
    } else if v < 0x40000000 {
        le_bytes_of((v * 4 + 2) as nat, 4)
    } else {
        seq![3u8] + le_bytes_of(v as nat, 4)
    }
}

/// Decoding a compact count from the front of `s`: the decoded value and the
/// number of bytes it occupied, or nothing when the prefix is not a canonical
/// compact encoding.
pub open spec fn compact_u32_decode(s: Seq<u8>) -> Option<(u32, int)> {
    if s.len() == 0 {
        None
    } else {
        let p = s[0] as u32;
        if p % 4 == 0 {
            Some(((p / 4) as u32, 1))
        } else if p % 4 == 1 {
            if s.len() < 2 {
                None
            } else {
                let x = (le_value_of(s.take(2)) / 4) as u32;
                if 64 <= x {
                    Some((x, 2))
                } else {
                    None
                }
            }
        } else if p % 4 == 2 {
            if s.len() < 4 {
                None
            } else {
                let x = (le_value_of(s.take(4)) / 4) as u32;
                if 16384 <= x {
                    Some((x, 4))
                } else {
                    None
                }
            }
        } else {
            if p != 3 {
                None
            } else if s.len() < 5 {
                None
            } else {
                let x = le_value_of(s.subrange(1, 5));
                if x > 0x3fffffff {
                    Some((x as u32, 5))
                } else {
                    None
                }
            }
        }
    }
}

pub proof fn lemma_pow256_pos(n: nat)
    ensures
        pow256(n) >= 1,
    decreases n,
{
    if n > 0 {
        lemma_pow256_pos((n - 1) as nat);
    }
}

pub proof fn lemma_le_bytes_len(v: nat, n: nat)
    ensures
        le_bytes_of(v, n).len() == n,
    decreases n,
{
    if n > 0 {
        lemma_le_bytes_len(v / 256, (n - 1) as nat);
    }
}

/// Reading back an `n`-byte little-endian encoding yields the value modulo
/// `pow256(n)`.
pub proof fn lemma_le_bytes_value(v: nat, n: nat)
    ensures
        le_value_of(le_bytes_of(v, n)) == v % pow256(n),
    decreases n,
{
    if n == 0 {
        assert(v % 1 == 0) by {
            lemma_small_mod(0, 1);
            assert(v % 1 == (v % 1) % 1) by {
                lemma_mod_mod(v as int, 1, 1);
            }
            lemma_small_mod((v % 1) as nat, 1);
        }
    } else {
        let rest = le_bytes_of(v / 256, (n - 1) as nat);
        let s = seq![(v % 256) as u8] + rest;
        assert(s.drop_first() =~= rest);
        lemma_le_bytes_value(v / 256, (n - 1) as nat);
        lemma_pow256_pos((n - 1) as nat);
        lemma_breakdown(v as int, 256, pow256((n - 1) as nat) as int);
        assert(pow256(n) == 256 * pow256((n - 1) as nat));
    }
}

/// Decoding the 16-byte encoding of a balance gives the balance back.
pub proof fn lemma_u128_round_trip(v: u128)
    ensures
        u128_of_le(u128_le_bytes(v)) == v,
{
    let bytes = le_bytes_of(v as nat, 16);
    lemma_le_bytes_len(v as nat, 16);
    assert(bytes.take(16) =~= bytes);
    lemma_le_bytes_value(v as nat, 16);
    assert(pow256(16) == 0x100000000000000000000000000000000) by {
        reveal_with_fuel(pow256, 17);
    }
    lemma_small_mod(v as nat, pow256(16));
}

/// Decoding a compact encoding followed by arbitrary bytes gives back the
/// encoded value and consumes exactly the encoding.
pub proof fn lemma_compact_u32_round_trip(v: u32, rest: Seq<u8>)
    ensures
        compact_u32_bytes(v).len() >= 1,
        compact_u32_decode(compact_u32_bytes(v) + rest) == Some(
            (v, compact_u32_bytes(v).len() as int),
        ),
{
    let enc = compact_u32_bytes(v);
    let s = enc + rest;
    if v < 64 {
        assert(s[0] == (v * 4) as u8);
    } else if v < 16384 {
        let x = (v * 4 + 1) as nat;
        lemma_le_bytes_len(x, 2);
        assert(enc[0] == (x % 256) as u8);
        assert(s[0] == enc[0] && s[1] == enc[1]);
        assert((x % 256) % 4 == x % 4) by {
            lemma_mod_mod(x as int, 4, 64);
        }
        assert(x % 4 == 1);
        assert((s[0] as u32) % 4 == 1);
        assert(s.take(2) =~= enc);
        lemma_le_bytes_value(x, 2);
        assert(pow256(2) == 65536) by {
            reveal_with_fuel(pow256, 3);
        }
        lemma_small_mod(x, 65536);
        assert(le_value_of(enc) == x);
        assert(x / 4 == v as nat);
    } else if v < 0x40000000 {
        let x = (v * 4 + 2) as nat;
        lemma_le_bytes_len(x, 4);
        assert(enc[0] == (x % 256) as u8);
        assert(s[0] == enc[0]);
        assert((x % 256) % 4 == x % 4) by {
            lemma_mod_mod(x as int, 4, 64);
        }
        assert(x % 4 == 2);
        assert((s[0] as u32) % 4 == 2);
        assert(s.take(4) =~= enc);
        lemma_le_bytes_value(x, 4);
        assert(pow256(4) == 0x100000000) by {
            reveal_with_fuel(pow256, 5);
        }
        lemma_small_mod(x, 0x100000000);
        assert(le_value_of(enc) == x);
        assert(x / 4 == v as nat);
    } else {
        let x = v as nat;
        lemma_le_bytes_len(x, 4);
        assert(s[0] == 3u8);
        assert(s.len() >= 5);
        assert(s.subrange(1, 5) =~= le_bytes_of(x, 4));
        lemma_le_bytes_value(x, 4);
        assert(pow256(4) == 0x100000000) by {
            reveal_with_fuel(pow256, 5);
        }
        lemma_small_mod(x, 0x100000000);
    }
}

/// Relies on `parity_scale_codec`'s `Encode` for `u128`: the encoding is the
/// value's 16 little-endian bytes.
#[verifier::external_body]
pub fn encode_u128(v: u128) -> (r: Vec<u8>)
    ensures
        r@ == u128_le_bytes(v),
{
    parity_scale_codec::Encode::encode(&v)
}

/// Relies on `parity_scale_codec`'s `Decode` for `u128`: it reads exactly 16
/// little-endian bytes and fails when fewer are available.
#[verifier::external_body]
pub fn decode_u128(bytes: &[u8]) -> (r: Option<u128>)
    ensures
        bytes@.len() >= 16 ==> r == Some(u128_of_le(bytes@)),
        bytes@.len() < 16 ==> r is None,
{
    let mut input: &[u8] = bytes;
    <u128 as parity_scale_codec::Decode>::decode(&mut input).ok()
}

/// Relies on `parity_scale_codec`'s `Decode` for `[u8; 32]`: it reads exactly
/// 32 bytes and fails when fewer are available.
#[verifier::external_body]
pub fn decode_account_id(bytes: &[u8]) -> (r: Option<[u8; 32]>)
    ensures
        (match r {
            Some(a) => bytes@.len() >= 32 && a@ == bytes@.take(32),
            None => bytes@.len() < 32,
        }),
{
    let mut input: &[u8] = bytes;
    <[u8; 32] as parity_scale_codec::Decode>::decode(&mut input).ok()
}

/// Relies on `parity_scale_codec`'s `Encode` for `Compact<u32>`: the encoding
/// is the canonical compact form of the value.
#[verifier::external_body]
pub fn encode_compact_u32(v: u32) -> (r: Vec<u8>)
    ensures
        r@ == compact_u32_bytes(v),
{
    parity_scale_codec::Encode::encode(&parity_scale_codec::Compact(v))
}

/// Relies on `parity_scale_codec`'s `Decode` for `Compact<u32>`: it consumes
/// the canonical compact prefix and rejects every other prefix; the returned
/// slice is what remains of the input.
#[verifier::external_body]
pub fn decode_compact_u32<'a>(bytes: &'a [u8]) -> (r: Option<(u32, &'a [u8])>)
    ensures
        (match compact_u32_decode(bytes@) {
            Some((v, k)) => r matches Some(p) && p.0 == v && p.1@ == bytes@.skip(k),
            None => r is None,
        }),
{
    let mut input: &[u8] = bytes;
    match <parity_scale_codec::Compact<u32> as parity_scale_codec::Decode>::decode(&mut input) {
        Ok(c) => Some((c.0, input)),
        Err(_) => None,
    }
}

} // verus!
