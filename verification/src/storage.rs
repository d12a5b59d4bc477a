//! The storage engine: a byte-key to byte-value store, plus the derived
//! slots under which account balances live.
//!
//! Balance slots are addressed by hashing a fixed namespace prefix followed
//! by the account identifier, so they cannot be written by accident through
//! an ordinary contract-assigned key (short of a hash collision).

use crate::bytemap::{
    bytes_equal, extend_bytes, keys_unique, lemma_keys_unique_push, lemma_keys_unique_remove,
    lemma_map_of_contains_key, lemma_map_of_get, lemma_map_of_len, lemma_map_of_push,
    lemma_map_of_remove, map_of,
};
use crate::{codec, hashing, AccountError, Balance};
use vstd::prelude::*;

verus! {

/// The namespace prefix reserved for balance slots: the bytes of `balance:`.
pub open spec fn balance_prefix() -> Seq<u8> {
    seq![98u8, 97u8, 108u8, 97u8, 110u8, 99u8, 101u8, 58u8]
}

/// The storage key under which the balance of `who` lives.
pub open spec fn balance_key_of(who: Seq<u8>) -> Seq<u8> {
    hashing::blake2b256_of(balance_prefix() + who)
}

/// Whether `m` holds a balance slot for `who`.
pub open spec fn has_balance(m: Map<Seq<u8>, Seq<u8>>, who: Seq<u8>) -> bool {
    m.contains_key(balance_key_of(who))
}

/// Whether the balance slot for `who`, if present, is wide enough to decode.
pub open spec fn balance_entry_wf(m: Map<Seq<u8>, Seq<u8>>, who: Seq<u8>) -> bool {
    m.contains_key(balance_key_of(who)) ==> m[balance_key_of(who)].len() >= 16
}

/// The balance stored for `who`; meaningful when `has_balance` holds.
pub open spec fn balance_at(m: Map<Seq<u8>, Seq<u8>>, who: Seq<u8>) -> Balance {
    codec::u128_of_le(m[balance_key_of(who)])
}

/// Returns the storage key under which to find the balance for account `who`.
pub fn balance_of_key(who: &[u8]) -> (r: [u8; 32])
    ensures
        r@ == balance_key_of(who@),
{
    let mut keyed: Vec<u8> = Vec::new();
    keyed.push(98);
    keyed.push(97);
    keyed.push(108);
    keyed.push(97);
    keyed.push(110);
    keyed.push(99);
    keyed.push(101);
    keyed.push(58);
    proof {
        assert(keyed@ =~= balance_prefix());
    }
    extend_bytes(&mut keyed, who);
    hashing::blake2b_256(keyed.as_slice())
}

/// Provides the storage backend.
pub struct Storage {
    entries: Vec<(Vec<u8>, Vec<u8>)>,
}

impl View for Storage {
    type V = Map<Seq<u8>, Seq<u8>>;

    closed spec fn view(&self) -> Map<Seq<u8>, Seq<u8>> {
        map_of(self.entries_view())
    }
}

impl Default for Storage {
    /// An empty store.
    fn default() -> (r: Self)
        ensures
            r.wf(),
            r@ == Map::<Seq<u8>, Seq<u8>>::empty(),
    {
        Storage::new()
    }
}

impl Storage {
    spec fn entries_view(&self) -> Seq<(Seq<u8>, Seq<u8>)> {
        self.entries@.map_values(|p: (Vec<u8>, Vec<u8>)| (p.0@, p.1@))
    }

    /// The store keeps at most one entry per key.
    pub closed spec fn wf(&self) -> bool {
        keys_unique(self.entries_view())
    }

    /// Creates a new storage instance.
    pub fn new() -> (r: Self)
        ensures
            r.wf(),
            r@ == Map::<Seq<u8>, Seq<u8>>::empty(),
    {
        let r = Storage { entries: Vec::new() };
        proof {
            assert(r.entries_view() =~= Seq::<(Seq<u8>, Seq<u8>)>::empty());
        }
        r
    }

    /// The index of the entry carrying `key`, if any.
    fn index_of(&self, key: &[u8]) -> (r: Option<usize>)
        ensures
            (match r {
                Some(i) => i < self.entries_view().len() && self.entries_view()[i as int].0
                    == key@,
                None => forall|i: int|
                    0 <= i < self.entries_view().len() ==> self.entries_view()[i].0 != key@,
            }),
    {
        let mut i: usize = 0;
        while i < self.entries.len()
            invariant
                0 <= i <= self.entries@.len(),
                forall|j: int| 0 <= j < i ==> self.entries_view()[j].0 != key@,
            decreases self.entries@.len() - i,
        {
            let p = &self.entries[i];
            if bytes_equal(p.0.as_slice(), key) {
                return Some(i);
            }
            i += 1;
        }
        None
    }

    /// Returns the amount of entries in the storage.
    pub fn len(&self) -> (r: usize)
        requires
            self.wf(),
        ensures
            r == self@.dom().len(),
            self@.dom().finite(),
    {
        proof {
            lemma_map_of_len(self.entries_view());
        }
        self.entries.len()
    }

    /// Returns a reference to the value corresponding to the key.
    pub fn get(&self, key: &[u8]) -> (r: Option<&Vec<u8>>)
        requires
            self.wf(),
        ensures
            (match r {
                Some(v) => self@.contains_key(key@) && v@ == self@[key@],
                None => !self@.contains_key(key@),
            }),
    {
        match self.index_of(key) {
            Some(i) => {
                proof {
                    lemma_map_of_get(self.entries_view(), i as int);
                }
                Some(&self.entries[i].1)
            }
            None => {
                proof {
                    lemma_map_of_contains_key(self.entries_view(), key@);
                }
                None
            }
        }
    }

    /// Sets the value of the entry, and returns the entry's old value.
    pub fn insert(&mut self, key: Vec<u8>, value: Vec<u8>) -> (r: Option<Vec<u8>>)
        requires
            old(self).wf(),
        ensures
            final(self).wf(),
            final(self)@ == old(self)@.insert(key@, value@),
            (match r {
                Some(v) => old(self)@.contains_key(key@) && v@ == old(self)@[key@],
                None => !old(self)@.contains_key(key@),
            }),
    {
        let ghost prior = self.entries_view();
        match self.index_of(key.as_slice()) {
            Some(i) => {
                proof {
                    lemma_map_of_get(prior, i as int);
                    lemma_map_of_remove(prior, i as int);
                    lemma_keys_unique_remove(prior, i as int);
                }
                let (_, old_value) = self.entries.remove(i);
                proof {
                    assert(self.entries_view() =~= prior.remove(i as int));
                }
                self.entries.push((key, value));
                proof {
                    let rem = prior.remove(i as int);
                    assert(self.entries_view() =~= rem.push((key@, value@)));
                    lemma_map_of_push(rem, key@, value@);
                    assert forall|j: int| 0 <= j < rem.len() implies rem[j].0 != key@ by {
                        let j0 = if j < i as int {
                            j
                        } else {
                            j + 1
                        };
                        assert(rem[j] == prior[j0]);
                    }
                    lemma_keys_unique_push(rem, key@, value@);
                    assert(map_of(prior).remove(key@).insert(key@, value@) =~= map_of(
                        prior,
                    ).insert(key@, value@));
                }
                Some(old_value)
            }
            None => {
                proof {
                    lemma_map_of_contains_key(prior, key@);
                }
                self.entries.push((key, value));
                proof {
                    assert(self.entries_view() =~= prior.push((key@, value@)));
                    lemma_map_of_push(prior, key@, value@);
                    lemma_keys_unique_push(prior, key@, value@);
                }
                None
            }
        }
    }

    /// Removes a key from the storage, returning the value at the key if the
    /// key was previously in storage.
    pub fn remove(&mut self, key: &[u8]) -> (r: Option<Vec<u8>>)
        requires
            old(self).wf(),
        ensures
            final(self).wf(),
            final(self)@ == old(self)@.remove(key@),
            (match r {
                Some(v) => old(self)@.contains_key(key@) && v@ == old(self)@[key@],
                None => !old(self)@.contains_key(key@),
            }),
    {
        let ghost prior = self.entries_view();
        match self.index_of(key) {
            Some(i) => {
                proof {
                    lemma_map_of_get(prior, i as int);
                    lemma_map_of_remove(prior, i as int);
                    lemma_keys_unique_remove(prior, i as int);
                }
                let (_, old_value) = self.entries.remove(i);
                proof {
                    assert(self.entries_view() =~= prior.remove(i as int));
                }
                Some(old_value)
            }
            None => {
                proof {
                    lemma_map_of_contains_key(prior, key@);
                    assert(map_of(prior).remove(key@) =~= map_of(prior));
                }
                None
            }
        }
    }

    /// Clears the storage, removing all key-value pairs.
    pub fn clear(&mut self)
        ensures
            final(self).wf(),
            final(self)@ == Map::<Seq<u8>, Seq<u8>>::empty(),
    {
        self.entries.clear();
        proof {
            assert(self.entries_view() =~= Seq::<(Seq<u8>, Seq<u8>)>::empty());
        }
    }

    /// Returns the balance of `account_id`, if available.
    ///
    /// A present but short balance slot cannot be decoded; such a store is
    /// ruled out by the precondition, and `balance_entry` reports it instead.
    pub fn get_balance(&self, account_id: &[u8]) -> (r: Option<Balance>)
        requires
            self.wf(),
            balance_entry_wf(self@, account_id@),
        ensures
            (match r {
                Some(b) => has_balance(self@, account_id@) && b == balance_at(
                    self@,
                    account_id@,
                ),
                None => !has_balance(self@, account_id@),
            }),
    {
        let hashed_key = balance_of_key(account_id);
        match self.get(hashed_key.as_slice()) {
            Some(encoded) => {
                match codec::decode_u128(encoded.as_slice()) {
                    Some(b) => Some(b),
                    None => {
                        proof {
                            assert(false);
                        }
                        None
                    }
                }
            }
            None => None,
        }
    }

    /// Reads the balance slot of `account_id` without assuming it decodes:
    /// absent slots read as `Ok(None)` and short slots as a decoding error.
    pub fn balance_entry(&self, account_id: &[u8]) -> (r: Result<Option<Balance>, AccountError>)
        requires
            self.wf(),
        ensures
            !has_balance(self@, account_id@) ==> r == Ok::<Option<Balance>, AccountError>(None),
            has_balance(self@, account_id@) && self@[balance_key_of(account_id@)].len() >= 16
                ==> r == Ok::<Option<Balance>, AccountError>(
                Some(balance_at(self@, account_id@)),
            ),
            has_balance(self@, account_id@) && self@[balance_key_of(account_id@)].len() < 16
                ==> r == Err::<Option<Balance>, AccountError>(AccountError::Decoding),
    {
        let hashed_key = balance_of_key(account_id);
        match self.get(hashed_key.as_slice()) {
            None => Ok(None),
            Some(encoded) => {
                if encoded.len() < 16 {
                    Err(AccountError::Decoding)
                } else {
                    match self.get_balance(account_id) {
                        Some(b) => Ok(Some(b)),
                        None => {
                            proof {
                                assert(false);
                            }
                            Ok(None)
                        }
                    }
                }
            }
        }
    }

    /// Sets the balance of `account_id` to `new_balance`.
    pub fn set_balance(&mut self, account_id: &[u8], new_balance: Balance)
        requires
            old(self).wf(),
        ensures
            final(self).wf(),
            final(self)@ == old(self)@.insert(
                balance_key_of(account_id@),
                codec::u128_le_bytes(new_balance),
            ),
    {
        let hashed_key = balance_of_key(account_id);
        let encoded = codec::encode_u128(new_balance);
        let key_vec = vstd::slice::slice_to_vec(hashed_key.as_slice());
        let _ = self.insert(key_vec, encoded);
    }
}

} // verus!
