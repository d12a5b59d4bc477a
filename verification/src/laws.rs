//! The laws the engine obeys, stated over the same views its contracts use
//! and proved once and for all.

use crate::codec::{u128_le_bytes, u128_of_le};
use crate::ext::transfer_result;
use crate::storage::{balance_at, balance_key_of, has_balance};
use crate::{codec, Balance};
use vstd::prelude::*;

verus! {

/// Reading a key just written yields exactly the written value, and reading
/// a key just cleared finds nothing.
///
/// `set_storage` leaves the store at `m.insert(k, v)` and `clear_storage` at
/// `m.remove(k)`; `get_storage` returns the stored value on a hit and
/// `KeyNotFound` on a miss. This law closes the chain between the three
/// contracts.
pub proof fn lemma_storage_round_trip(m: Map<Seq<u8>, Seq<u8>>, k: Seq<u8>, v: Seq<u8>)
    ensures
        m.insert(k, v).contains_key(k),
        m.insert(k, v)[k] == v,
        !m.insert(k, v).remove(k).contains_key(k),
        !m.remove(k).contains_key(k),
{
}

/// A transfer moves the amount exactly: the sender's balance drops by it,
/// the receiver's rises by it, and their sum is unchanged.
///
/// The law holds whenever `transfer` succeeds between accounts whose balance
/// slots do not collide: the amount is covered, the slots decode, and the
/// credit does not overflow. An absent destination slot counts as zero, and
/// every storage slot other than the two balance slots is untouched.
pub proof fn lemma_transfer_conserves(m: Map<Seq<u8>, Seq<u8>>, a: Seq<u8>, b: Seq<u8>, n: Balance)
    requires
        balance_key_of(a) != balance_key_of(b),
        has_balance(m, a),
        m[balance_key_of(a)].len() >= 16,
        n <= balance_at(m, a),
        has_balance(m, b) ==> m[balance_key_of(b)].len() >= 16,
        (if has_balance(m, b) {
            balance_at(m, b)
        } else {
            0
        }) + n <= u128::MAX,
    ensures
        transfer_result(m, a, b, u128_le_bytes(n)) matches Some(m2) && {
            let before_b: Balance = if has_balance(m, b) {
                balance_at(m, b)
            } else {
                0
            };
            &&& balance_at(m2, a) == balance_at(m, a) - n
            &&& balance_at(m2, b) == before_b + n
            &&& balance_at(m2, a) + balance_at(m2, b) == balance_at(m, a) + before_b
            &&& forall|k: Seq<u8>|
                #![auto]
                k != balance_key_of(a) && k != balance_key_of(b) ==> m2.contains_key(k)
                    == m.contains_key(k) && (m.contains_key(k) ==> m2[k] == m[k])
        },
{
    codec::lemma_le_bytes_len(n as nat, 16);
    codec::lemma_u128_round_trip(n);
    let c = balance_at(m, a);
    codec::lemma_le_bytes_len((c - n) as nat, 16);
    codec::lemma_u128_round_trip((c - n) as u128);
    let before_b: Balance = if has_balance(m, b) {
        balance_at(m, b)
    } else {
        0
    };
    codec::lemma_le_bytes_len((before_b + n) as nat, 16);
    codec::lemma_u128_round_trip((before_b + n) as u128);
}

/// Balance keys are a function of the account alone: equal accounts always
/// derive equal keys.
///
/// The other half of the story — distinct accounts deriving distinct keys —
/// rests on the hash's collision resistance, which is an assumption about
/// BLAKE2b and not derivable here; a test checks it on concrete accounts.
pub proof fn lemma_balance_key_deterministic(a: Seq<u8>, b: Seq<u8>)
    ensures
        balance_key_of(a) == balance_key_of(a),
        a == b ==> balance_key_of(a) == balance_key_of(b),
{
}

/// Appending to a log keeps everything already recorded, in order, and adds
/// the new entry at the end; an emptied log has nothing to read.
///
/// `record_event` and `record_println` leave the log at `log.push(e)`, the
/// snapshot getters return the log as it stands, and `clear` leaves it
/// empty, so recording entries and reading them back yields the same
/// entries in the same order.
pub proof fn lemma_recorder_round_trip<T>(log: Seq<T>, e1: T, e2: T)
    ensures
        log.push(e1).push(e2).len() == log.len() + 2,
        log.push(e1).push(e2)[log.len() as int] == e1,
        log.push(e1).push(e2)[log.len() as int + 1] == e2,
        forall|i: int| 0 <= i < log.len() ==> log.push(e1).push(e2)[i] == log[i],
        Seq::<T>::empty().len() == 0,
{
}

/// Building a topic is deterministic: the same encoded value always yields
/// the same fixed-width topic — the zero-padded bytes when it fits the
/// digest width, the digest otherwise.
pub proof fn lemma_topic_building_deterministic(enc1: Seq<u8>, enc2: Seq<u8>)
    ensures
        enc1 == enc2 ==> crate::backend::topic_of(enc1) == crate::backend::topic_of(enc2),
        enc1.len() <= 32 ==> crate::backend::topic_of(enc1) == enc1 + Seq::new(
            (32 - enc1.len()) as nat,
            |i: int| 0u8,
        ),
        enc1.len() > 32 ==> crate::backend::topic_of(enc1) == crate::hashing::blake2b256_of(enc1),
        enc1.len() <= 32 ==> crate::backend::topic_of(enc1).len() == 32,
{
}

/// Decoding an encoded balance gives the balance back: the fixed-width
/// marshalling of balances loses nothing.
pub proof fn lemma_balance_codec_round_trip(v: Balance)
    ensures
        u128_of_le(u128_le_bytes(v)) == v,
{
    codec::lemma_u128_round_trip(v);
}

} // verus!
