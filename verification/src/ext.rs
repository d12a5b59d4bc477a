//! The host-function surface: the byte-buffer-level operations a contract
//! runtime exposes to contract code, emulated over an in-memory world.
//!
//! Every output parameter is a caller-allocated buffer at least as large as
//! the worst-case encoded result; a call writes the encoded result and leaves
//! the buffer holding exactly those bytes. Status is reported through
//! [`Error`]; operations the emulator does not model always fail with
//! [`Error::Unsupported`] instead of aborting.

use crate::bytemap::{bytes_equal, clone_bytes};
use crate::codec;
use crate::exec_context::{zero_account, ExecContext};
use crate::hashing;
use crate::storage::{balance_at, balance_key_of, has_balance, Storage};
use crate::test_api::{bump, lower, DebugInfo, EmittedEvent, EventView};
use crate::{AccountError, Balance};
use std::io::Write;
use vstd::prelude::*;

verus! {

/// Every error that can be returned to a contract when it calls one of the
/// host functions.
///
/// The first eight variants mirror the fixed numeric code table; the
/// last three are raised by the emulator itself and never come from a raw
/// return code.
#[derive(Debug, Clone, Copy, PartialEq, Eq, Structural)]
pub enum Error {
    /// The called function trapped and has its state changes reverted.
    CalleeTrapped,
    /// The called function ran to completion but decided to revert its state.
    CalleeReverted,
    /// The passed key does not exist in storage.
    KeyNotFound,
    /// Transfer failed because it would have brought the sender's total
    /// balance below the subsistence threshold.
    BelowSubsistenceThreshold,
    /// Transfer failed for another reason.
    TransferFailed,
    /// The newly created contract is below the subsistence threshold after
    /// executing its constructor.
    NewContractNotFunded,
    /// No code could be found at the supplied code hash.
    CodeNotFound,
    /// The account that was called is either no contract or is a tombstone.
    NotCallable,
    /// An unknown error was received from the host module.
    UnknownError,
    /// The operation is not modelled by this emulator.
    Unsupported,
    /// An event's topic buffer does not frame its topics correctly.
    MalformedTopics,
}

/// The raw return code returned by the host side.
#[derive(Debug, Clone, Copy, PartialEq, Eq, Structural)]
pub struct ReturnCode(pub u32);

impl ReturnCode {
    /// Returns the raw underlying `u32` representation.
    pub fn into_u32(self) -> (r: u32)
        ensures
            r == self.0,
    {
        self.0
    }
}

/// The fixed mapping from raw return codes to error kinds: zero means
/// success, unmapped non-zero codes mean an unknown error.
pub open spec fn code_error(code: u32) -> Result<(), Error> {
    if code == 0 {
        Ok(())
    } else if code == 1 {
        Err(Error::CalleeTrapped)
    } else if code == 2 {
        Err(Error::CalleeReverted)
    } else if code == 3 {
        Err(Error::KeyNotFound)
    } else if code == 4 {
        Err(Error::BelowSubsistenceThreshold)
    } else if code == 5 {
        Err(Error::TransferFailed)
    } else if code == 6 {
        Err(Error::NewContractNotFunded)
    } else if code == 7 {
        Err(Error::CodeNotFound)
    } else if code == 8 {
        Err(Error::NotCallable)
    } else {
        Err(Error::UnknownError)
    }
}

impl Error {
    /// Maps a raw return code through the fixed table.
    pub fn from_return_code(return_code: ReturnCode) -> (r: Result<(), Error>)
        ensures
            r == code_error(return_code.0),
    {
        let code = return_code.into_u32();
        if code == 0 {
            Ok(())
        } else if code == 1 {
            Err(Error::CalleeTrapped)
        } else if code == 2 {
            Err(Error::CalleeReverted)
        } else if code == 3 {
            Err(Error::KeyNotFound)
        } else if code == 4 {
            Err(Error::BelowSubsistenceThreshold)
        } else if code == 5 {
            Err(Error::TransferFailed)
        } else if code == 6 {
            Err(Error::NewContractNotFunded)
        } else if code == 7 {
            Err(Error::CodeNotFound)
        } else if code == 8 {
            Err(Error::NotCallable)
        } else {
            Err(Error::UnknownError)
        }
    }
}

/// The topics listed in an event's topic buffer: a compact count, then that
/// many equal-size chunks filling the remainder exactly. Anything else is
/// malformed and rejected.
pub open spec fn parse_topics(topics: Seq<u8>) -> Option<Seq<Seq<u8>>> {
    match codec::compact_u32_decode(topics) {
        None => None,
        Some((count, k)) => {
            let rest = topics.skip(k);
            if count == 0 {
                Some(Seq::empty())
            } else if rest.len() == 0 || rest.len() as int % (count as int) != 0 {
                None
            } else {
                let chunk = rest.len() as int / count as int;
                Some(Seq::new(count as nat, |i: int| rest.subrange(i * chunk, (i + 1) * chunk)))
            }
        }
    }
}

/// What a transfer does to storage: the new storage when the transfer can go
/// through, or nothing when it must fail.
///
/// A transfer fails when the amount does not decode, the executing account
/// has no decodable balance slot, its balance does not cover the amount, the
/// destination slot exists but cannot be decoded, or crediting would
/// overflow. Otherwise the sender's slot is debited first and the destination
/// slot — read after the debit, so a self-transfer conserves the balance — is
/// credited.
pub open spec fn transfer_result(
    m: Map<Seq<u8>, Seq<u8>>,
    callee: Seq<u8>,
    dest: Seq<u8>,
    value: Seq<u8>,
) -> Option<Map<Seq<u8>, Seq<u8>>> {
    if value.len() < 16 {
        None
    } else {
        let n = codec::u128_of_le(value);
        let bkc = balance_key_of(callee);
        if !(m.contains_key(bkc) && m[bkc].len() >= 16) {
            None
        } else {
            let c = codec::u128_of_le(m[bkc]);
            if n > c {
                None
            } else {
                let m1 = m.insert(bkc, codec::u128_le_bytes((c - n) as u128));
                let bkd = balance_key_of(dest);
                let base = if m1.contains_key(bkd) {
                    if m1[bkd].len() >= 16 {
                        Some(codec::u128_of_le(m1[bkd]))
                    } else {
                        None
                    }
                } else {
                    Some(0u128)
                };
                match base {
                    None => None,
                    Some(d) => if n > u128::MAX - d {
                        None
                    } else {
                        Some(m1.insert(bkd, codec::u128_le_bytes((d + n) as u128)))
                    },
                }
            }
        }
    }
}

/// The emulated world: storage (balances included), the execution context,
/// and the recorder the test harness reads.
pub struct Engine {
    /// The environment storage, balance slots included.
    pub database: Storage,
    /// The current execution context.
    pub exec_context: ExecContext,
    /// Events, printed lines and per-account storage counters.
    pub debug_info: DebugInfo,
}

impl Engine {
    pub open spec fn wf(&self) -> bool {
        self.database.wf() && self.debug_info.wf()
    }

    /// A fresh world: empty storage, default context, empty recorder.
    pub fn new() -> (r: Engine)
        ensures
            r.wf(),
            r.database@ == Map::<Seq<u8>, Seq<u8>>::empty(),
            r.exec_context.caller@ == zero_account(),
            r.exec_context.callee@ == zero_account(),
            r.exec_context.value_transferred == 0,
            r.debug_info.emitted_events@.len() == 0,
            r.debug_info.recorded_printlns@.len() == 0,
            r.debug_info.count_reads@ == Map::<Seq<u8>, u64>::empty(),
            r.debug_info.count_writes@ == Map::<Seq<u8>, u64>::empty(),
            r.debug_info.cells_per_account@ == Map::<Seq<u8>, u64>::empty(),
    {
        Engine {
            database: Storage::new(),
            exec_context: ExecContext::default(),
            debug_info: DebugInfo::new(),
        }
    }

    /// Sets the caller for the next emulated call.
    pub fn set_caller(&mut self, caller: Vec<u8>)
        ensures
            final(self).exec_context.caller == caller,
            final(self).exec_context.callee == old(self).exec_context.callee,
            final(self).exec_context.value_transferred == old(self).exec_context.value_transferred,
            final(self).database == old(self).database,
            final(self).debug_info == old(self).debug_info,
    {
        self.exec_context.caller = caller;
    }

    /// Sets the executing account for the next emulated call.
    pub fn set_callee(&mut self, callee: Vec<u8>)
        ensures
            final(self).exec_context.callee == callee,
            final(self).exec_context.caller == old(self).exec_context.caller,
            final(self).exec_context.value_transferred == old(self).exec_context.value_transferred,
            final(self).database == old(self).database,
            final(self).debug_info == old(self).debug_info,
    {
        self.exec_context.callee = callee;
    }

    /// Sets the value transferred along with the next emulated call.
    pub fn set_value_transferred(&mut self, value: Balance)
        ensures
            final(self).exec_context.value_transferred == value,
            final(self).exec_context.caller == old(self).exec_context.caller,
            final(self).exec_context.callee == old(self).exec_context.callee,
            final(self).database == old(self).database,
            final(self).debug_info == old(self).debug_info,
    {
        self.exec_context.value_transferred = value;
    }

    /// Writes the encoded value into the contract storage at the given key.
    pub fn set_storage(&mut self, key: &[u8], encoded_value: &[u8])
        requires
            old(self).wf(),
        ensures
            final(self).wf(),
            final(self).database@ == old(self).database@.insert(key@, encoded_value@),
            final(self).exec_context == old(self).exec_context,
            final(self).debug_info.count_writes@ == bump(
                old(self).debug_info.count_writes@,
                old(self).exec_context.callee@,
            ),
            final(self).debug_info.cells_per_account@ == bump(
                old(self).debug_info.cells_per_account@,
                old(self).exec_context.callee@,
            ),
            final(self).debug_info.count_reads == old(self).debug_info.count_reads,
            final(self).debug_info.emitted_events == old(self).debug_info.emitted_events,
            final(self).debug_info.recorded_printlns == old(self).debug_info.recorded_printlns,
    {
        let account = clone_bytes(&self.exec_context.callee);
        self.debug_info.inc_writes(account.as_slice());
        self.debug_info.inc_cells_per_account(account.as_slice());
        let key_vec = vstd::slice::slice_to_vec(key);
        let value_vec = vstd::slice::slice_to_vec(encoded_value);
        let _ = self.database.insert(key_vec, value_vec);
    }

    /// Removes the value from storage entries at the given key; absence is no
    /// error.
    pub fn clear_storage(&mut self, key: &[u8])
        requires
            old(self).wf(),
        ensures
            final(self).wf(),
            final(self).database@ == old(self).database@.remove(key@),
            final(self).exec_context == old(self).exec_context,
            final(self).debug_info.count_writes@ == bump(
                old(self).debug_info.count_writes@,
                old(self).exec_context.callee@,
            ),
            final(self).debug_info.cells_per_account@ == lower(
                old(self).debug_info.cells_per_account@,
                old(self).exec_context.callee@,
            ),
            final(self).debug_info.count_reads == old(self).debug_info.count_reads,
            final(self).debug_info.emitted_events == old(self).debug_info.emitted_events,
            final(self).debug_info.recorded_printlns == old(self).debug_info.recorded_printlns,
    {
        let account = clone_bytes(&self.exec_context.callee);
        self.debug_info.inc_writes(account.as_slice());
        self.debug_info.dec_cells_per_account(account.as_slice());
        let _ = self.database.remove(key);
    }

    /// Copies the value stored at the key into `output`; a miss is
    /// `KeyNotFound` and leaves `output` as it was.
    pub fn get_storage(&mut self, key: &[u8], output: &mut Vec<u8>) -> (r: Result<(), Error>)
        requires
            old(self).wf(),
            old(self).database@.contains_key(key@) ==> old(output)@.len() >= old(self).database@[key@].len(),
        ensures
            final(self).wf(),
            final(self).database == old(self).database,
            final(self).exec_context == old(self).exec_context,
            final(self).debug_info.count_writes == old(self).debug_info.count_writes,
            final(self).debug_info.cells_per_account == old(self).debug_info.cells_per_account,
            final(self).debug_info.emitted_events == old(self).debug_info.emitted_events,
            final(self).debug_info.recorded_printlns == old(self).debug_info.recorded_printlns,
            (if old(self).database@.contains_key(key@) {
                r == Ok::<(), Error>(()) && final(output)@ == old(self).database@[key@] && final(self).debug_info.count_reads@ == bump(
                    old(self).debug_info.count_reads@,
                    old(self).exec_context.callee@,
                )
            } else {
                r == Err::<(), Error>(Error::KeyNotFound) && final(output)@ == old(output)@
                    && final(self).debug_info.count_reads == old(self).debug_info.count_reads
            }),
    {
        let looked: Option<Vec<u8>> = match self.database.get(key) {
            Some(value) => Some(clone_bytes(value)),
            None => None,
        };
        match looked {
            Some(value) => {
                let account = clone_bytes(&self.exec_context.callee);
                self.debug_info.inc_reads(account.as_slice());
                *output = value;
                Ok(())
            }
            None => Err(Error::KeyNotFound),
        }
    }

    /// Transfers value from the executing contract to the destination
    /// account, which need not exist beforehand; a transfer of zero is
    /// allowed. Fails with `TransferFailed` exactly when `transfer_result`
    /// gives no new storage.
    pub fn transfer(&mut self, account_id: &[u8], value: &[u8]) -> (r: Result<(), Error>)
        requires
            old(self).wf(),
        ensures
            final(self).wf(),
            final(self).exec_context == old(self).exec_context,
            final(self).debug_info == old(self).debug_info,
            (match transfer_result(
                old(self).database@,
                old(self).exec_context.callee@,
                account_id@,
                value@,
            ) {
                Some(m2) => r == Ok::<(), Error>(()) && final(self).database@ == m2,
                None => r == Err::<(), Error>(Error::TransferFailed) && final(self).database
                    == old(self).database,
            }),
    {
        let n = match codec::decode_u128(value) {
            Some(n) => n,
            None => {
                return Err(Error::TransferFailed);
            }
        };
        let callee = clone_bytes(&self.exec_context.callee);
        let bkc = crate::storage::balance_of_key(callee.as_slice());
        let c = match self.database.get(bkc.as_slice()) {
            Some(stored) => {
                if stored.len() < 16 {
                    return Err(Error::TransferFailed);
                }
                match codec::decode_u128(stored.as_slice()) {
                    Some(c) => c,
                    None => {
                        proof {
                            assert(false);
                        }
                        0
                    }
                }
            }
            None => {
                return Err(Error::TransferFailed);
            }
        };
        if n > c {
            return Err(Error::TransferFailed);
        }
        let bkd = crate::storage::balance_of_key(account_id);
        let ghost m1 = self.database@.insert(bkc@, codec::u128_le_bytes((c - n) as u128));
        let d: u128 = if bytes_equal(bkc.as_slice(), bkd.as_slice()) {
            proof {
                codec::lemma_le_bytes_len((c - n) as nat, 16);
                codec::lemma_u128_round_trip((c - n) as u128);
            }
            c - n
        } else {
            match self.database.get(bkd.as_slice()) {
                Some(stored) => {
                    if stored.len() < 16 {
                        return Err(Error::TransferFailed);
                    }
                    match codec::decode_u128(stored.as_slice()) {
                        Some(d) => d,
                        None => {
                            proof {
                                assert(false);
                            }
                            0
                        }
                    }
                }
                None => 0,
            }
        };
        if n > u128::MAX - d {
            return Err(Error::TransferFailed);
        }
        self.database.set_balance(callee.as_slice(), c - n);
        self.database.set_balance(account_id, d + n);
        Ok(())
    }

    /// Transfers the executing contract's whole balance to the beneficiary
    /// and reports the terminal outcome: the transferred amount and the
    /// beneficiary. The caller of the emulated execution must stop there.
    pub fn terminate(&mut self, beneficiary: &[u8]) -> (r: Result<(Balance, Vec<u8>), Error>)
        requires
            old(self).wf(),
        ensures
            final(self).wf(),
            final(self).exec_context == old(self).exec_context,
            final(self).debug_info == old(self).debug_info,
            (if has_balance(old(self).database@, old(self).exec_context.callee@) && old(self).database@[balance_key_of(old(self).exec_context.callee@)].len() >= 16 {
                match transfer_result(
                    old(self).database@,
                    old(self).exec_context.callee@,
                    beneficiary@,
                    codec::u128_le_bytes(
                        balance_at(old(self).database@, old(self).exec_context.callee@),
                    ),
                ) {
                    Some(m2) => r matches Ok(p) && p.0 == balance_at(
                        old(self).database@,
                        old(self).exec_context.callee@,
                    ) && p.1@ == beneficiary@ && final(self).database@ == m2,
                    None => r == Err::<(Balance, Vec<u8>), Error>(Error::TransferFailed) && final(self).database == old(self).database,
                }
            } else {
                r == Err::<(Balance, Vec<u8>), Error>(Error::TransferFailed) && final(self).database
                    == old(self).database
            }),
    {
        let callee = clone_bytes(&self.exec_context.callee);
        let bkc = crate::storage::balance_of_key(callee.as_slice());
        let all = match self.database.get(bkc.as_slice()) {
            Some(stored) => {
                if stored.len() < 16 {
                    return Err(Error::TransferFailed);
                }
                match codec::decode_u128(stored.as_slice()) {
                    Some(b) => b,
                    None => {
                        proof {
                            assert(false);
                        }
                        0
                    }
                }
            }
            None => {
                return Err(Error::TransferFailed);
            }
        };
        let encoded = codec::encode_u128(all);
        match self.transfer(beneficiary, encoded.as_slice()) {
            Ok(()) => Ok((all, vstd::slice::slice_to_vec(beneficiary))),
            Err(e) => Err(e),
        }
    }

    /// Writes the caller's identifier into `output`.
    pub fn caller(&self, output: &mut Vec<u8>)
        requires
            old(output)@.len() >= self.exec_context.caller@.len(),
        ensures
            final(output)@ == self.exec_context.caller@,
    {
        *output = clone_bytes(&self.exec_context.caller);
    }

    /// Writes the executing contract's identifier into `output`.
    pub fn address(&self, output: &mut Vec<u8>)
        requires
            old(output)@.len() >= self.exec_context.callee@.len(),
        ensures
            final(output)@ == self.exec_context.callee@,
    {
        *output = clone_bytes(&self.exec_context.callee);
    }

    /// Writes the encoded value transferred with the call into `output`.
    pub fn value_transferred(&self, output: &mut Vec<u8>)
        requires
            old(output)@.len() >= 16,
        ensures
            final(output)@ == codec::u128_le_bytes(self.exec_context.value_transferred),
    {
        *output = codec::encode_u128(self.exec_context.value_transferred);
    }

    /// Writes the executing contract's encoded balance into `output`. The
    /// executing account must have been funded by test setup; `try_balance`
    /// checks instead of assuming.
    pub fn balance(&self, output: &mut Vec<u8>)
        requires
            self.wf(),
            old(output)@.len() >= 16,
            has_balance(self.database@, self.exec_context.callee@),
            self.database@[balance_key_of(self.exec_context.callee@)].len() >= 16,
        ensures
            final(output)@ == codec::u128_le_bytes(
                balance_at(self.database@, self.exec_context.callee@),
            ),
    {
        let callee = clone_bytes(&self.exec_context.callee);
        let bkc = crate::storage::balance_of_key(callee.as_slice());
        match self.database.get(bkc.as_slice()) {
            Some(stored) => {
                match codec::decode_u128(stored.as_slice()) {
                    Some(b) => {
                        *output = codec::encode_u128(b);
                    }
                    None => {
                        proof {
                            assert(false);
                        }
                    }
                }
            }
            None => {
                proof {
                    assert(false);
                }
            }
        }
    }

    /// Like `balance`, but reports a missing or undecodable balance slot as
    /// an error instead of assuming it away.
    pub fn try_balance(&self, output: &mut Vec<u8>) -> (r: Result<(), crate::Error>)
        requires
            self.wf(),
            old(output)@.len() >= 16,
        ensures
            (if has_balance(self.database@, self.exec_context.callee@) {
                if self.database@[balance_key_of(self.exec_context.callee@)].len() >= 16 {
                    r == Ok::<(), crate::Error>(()) && final(output)@ == codec::u128_le_bytes(
                        balance_at(self.database@, self.exec_context.callee@),
                    )
                } else {
                    r == Err::<(), crate::Error>(
                        crate::Error::Account(AccountError::Decoding),
                    ) && final(output)@ == old(output)@
                }
            } else {
                r == Err::<(), crate::Error>(
                    crate::Error::Account(AccountError::NoAccountForId),
                ) && final(output)@ == old(output)@
            }),
    {
        let callee = clone_bytes(&self.exec_context.callee);
        let bkc = crate::storage::balance_of_key(callee.as_slice());
        let wide_enough = match self.database.get(bkc.as_slice()) {
            Some(stored) => stored.len() >= 16,
            None => {
                return Err(crate::Error::Account(AccountError::NoAccountForId));
            }
        };
        if !wide_enough {
            return Err(crate::Error::Account(AccountError::Decoding));
        }
        self.balance(output);
        Ok(())
    }

    /// Returns the balance of `account_id`.
    pub fn get_balance(&self, account_id: Vec<u8>) -> (r: Result<Balance, crate::Error>)
        requires
            self.wf(),
        ensures
            (if has_balance(self.database@, account_id@) {
                if self.database@[balance_key_of(account_id@)].len() >= 16 {
                    r == Ok::<Balance, crate::Error>(balance_at(self.database@, account_id@))
                } else {
                    r == Err::<Balance, crate::Error>(
                        crate::Error::Account(AccountError::Decoding),
                    )
                }
            } else {
                r == Err::<Balance, crate::Error>(
                    crate::Error::Account(AccountError::NoAccountForId),
                )
            }),
    {
        match self.database.balance_entry(account_id.as_slice()) {
            Ok(Some(b)) => Ok(b),
            Ok(None) => Err(crate::Error::Account(AccountError::NoAccountForId)),
            Err(e) => Err(crate::Error::Account(e)),
        }
    }

    /// Sets the balance of `account_id` to `new_balance`.
    pub fn set_balance(&mut self, account_id: Vec<u8>, new_balance: Balance)
        requires
            old(self).wf(),
        ensures
            final(self).wf(),
            final(self).database@ == old(self).database@.insert(
                balance_key_of(account_id@),
                codec::u128_le_bytes(new_balance),
            ),
            final(self).exec_context == old(self).exec_context,
            final(self).debug_info == old(self).debug_info,
    {
        self.database.set_balance(account_id.as_slice(), new_balance);
    }

    /// Deposits an event identified by the supplied topics and data; rejects
    /// a topic buffer whose remainder does not split evenly.
    pub fn deposit_event(&mut self, topics: &[u8], data: &[u8]) -> (r: Result<(), Error>)
        requires
            old(self).wf(),
        ensures
            final(self).wf(),
            final(self).database == old(self).database,
            final(self).exec_context == old(self).exec_context,
            final(self).debug_info.recorded_printlns == old(self).debug_info.recorded_printlns,
            final(self).debug_info.count_reads == old(self).debug_info.count_reads,
            final(self).debug_info.count_writes == old(self).debug_info.count_writes,
            final(self).debug_info.cells_per_account == old(self).debug_info.cells_per_account,
            (match parse_topics(topics@) {
                Some(ts) => r == Ok::<(), Error>(()) && final(self).debug_info.emitted_events.deep_view() == old(self).debug_info.emitted_events.deep_view().push(
                    (EventView { topics: ts, data: data@ }),
                ),
                None => r == Err::<(), Error>(Error::MalformedTopics) && final(self).debug_info.emitted_events == old(self).debug_info.emitted_events,
            }),
    {
        let decoded = codec::decode_compact_u32(topics);
        let (count, rest) = match decoded {
            Some(p) => p,
            None => {
                return Err(Error::MalformedTopics);
            }
        };
        let mut topics_vec: Vec<Vec<u8>> = Vec::new();
        let ghost ts = parse_topics(topics@)->Some_0;
        if count > 0 {
            let count_us = count as usize;
            if rest.len() == 0 || rest.len() % count_us != 0 {
                return Err(Error::MalformedTopics);
            }
            let chunk = rest.len() / count_us;
            proof {
                vstd::arithmetic::div_mod::lemma_fundamental_div_mod(
                    rest@.len() as int,
                    count_us as int,
                );
                assert(count_us as int * (chunk as int) == rest@.len() as int);
                assert(chunk as int >= 1) by (nonlinear_arith)
                    requires
                        count_us as int * (chunk as int) == rest@.len() as int,
                        rest@.len() as int > 0,
                        count_us as int >= 1,
                        chunk as int >= 0,
                ;
            }
            let mut i: usize = 0;
            while i < count_us
                invariant
                    0 <= i <= count_us,
                    count_us >= 1,
                    chunk >= 1,
                    chunk == rest@.len() as int / count_us as int,
                    count_us as int * chunk == rest@.len(),
                    rest@.len() <= usize::MAX,
                    topics_vec@.len() == i,
                    forall|j: int|
                        0 <= j < i ==> topics_vec@[j]@ == rest@.subrange(
                            j * chunk,
                            (j + 1) * chunk,
                        ),
                decreases count_us - i,
            {
                proof {
                    assert((i + 1) * chunk <= count_us as int * chunk) by (nonlinear_arith)
                        requires
                            i + 1 <= count_us,
                            chunk >= 1,
                    ;
                    assert(i * chunk >= 0) by (nonlinear_arith)
                        requires
                            i >= 0,
                            chunk >= 1,
                    ;
                    assert(i * chunk + chunk == (i + 1) * chunk) by (nonlinear_arith);
                    assert(i * chunk + chunk <= rest@.len());
                }
                let start = i * chunk;
                let end = start + chunk;
                let piece = vstd::slice::slice_subrange(rest, start, end);
                topics_vec.push(vstd::slice::slice_to_vec(piece));
                i += 1;
            }
        }
        let ev = EmittedEvent { topics: topics_vec, data: vstd::slice::slice_to_vec(data) };
        proof {
            assert(ev@ =~~= (EventView { topics: ts, data: data@ }));
        }
        self.debug_info.record_event(ev);
        Ok(())
    }

    /// Records the line for the test harness and forwards it to the console.
    pub fn println(&mut self, content: &str)
        ensures
            final(self).debug_info.recorded_printlns.deep_view() == old(self).debug_info.recorded_printlns.deep_view().push(content@),
            final(self).debug_info.emitted_events == old(self).debug_info.emitted_events,
            final(self).debug_info.count_reads == old(self).debug_info.count_reads,
            final(self).debug_info.count_writes == old(self).debug_info.count_writes,
            final(self).debug_info.cells_per_account == old(self).debug_info.cells_per_account,
            final(self).database == old(self).database,
            final(self).exec_context == old(self).exec_context,
    {
        let ghost prior = self.debug_info.recorded_printlns.deep_view();
        let text = content.to_owned();
        self.debug_info.record_println(text);
        proof {
            assert(self.debug_info.recorded_printlns.deep_view() =~~= prior.push(content@));
        }
        console_line(content);
    }

    /// A snapshot of the events deposited so far, in order.
    pub fn get_emitted_events(&self) -> (r: Vec<EmittedEvent>)
        ensures
            r.deep_view() == self.debug_info.emitted_events.deep_view(),
    {
        self.debug_info.get_emitted_events()
    }

    /// A snapshot of the lines printed so far, in order.
    pub fn get_recorded_printlns(&self) -> (r: Vec<String>)
        ensures
            r@ == self.debug_info.recorded_printlns@,
    {
        self.debug_info.get_recorded_printlns()
    }
}

/// Relies on `std::io::Write::write_fmt` through `writeln`: forwards one line
/// to the process's standard output; nothing is promised of it.
#[verifier::external_body]
fn console_line(content: &str) {
    let _ = writeln!(std::io::stdout(), "{}", content);
}

/// Conduct the BLAKE-2 256-bit hash and place the result into `output`.
pub fn hash_blake2_256(input: &[u8], output: &mut [u8; 32])
    ensures
        final(output)@ == hashing::blake2b256_of(input@),
{
    *output = hashing::blake2b_256(input);
}

/// Conduct the BLAKE-2 128-bit hash and place the result into `output`.
pub fn hash_blake2_128(input: &[u8], output: &mut [u8; 16])
    ensures
        final(output)@ == hashing::blake2b128_of(input@),
{
    *output = hashing::blake2b_128(input);
}

/// Conduct the SHA-2 256-bit hash and place the result into `output`.
pub fn hash_sha2_256(input: &[u8], output: &mut [u8; 32])
    ensures
        final(output)@ == hashing::sha2_256_of(input@),
{
    *output = hashing::sha2_256(input);
}

/// Conduct the KECCAK 256-bit hash and place the result into `output`.
pub fn hash_keccak_256(input: &[u8], output: &mut [u8; 32])
    ensures
        final(output)@ == hashing::keccak256_of(input@),
{
    *output = hashing::keccak_256(input);
}

impl Engine {
    /// The emulator does not model chain time.
    pub fn now(&self, _output: &mut Vec<u8>) -> (r: Result<(), Error>)
        ensures
            r == Err::<(), Error>(Error::Unsupported),
            final(_output)@ == old(_output)@,
    {
        Err(Error::Unsupported)
    }

    /// The emulator does not model block numbers.
    pub fn block_number(&self, _output: &mut Vec<u8>) -> (r: Result<(), Error>)
        ensures
            r == Err::<(), Error>(Error::Unsupported),
            final(_output)@ == old(_output)@,
    {
        Err(Error::Unsupported)
    }

    /// The emulator does not meter gas.
    pub fn gas_left(&self, _output: &mut Vec<u8>) -> (r: Result<(), Error>)
        ensures
            r == Err::<(), Error>(Error::Unsupported),
            final(_output)@ == old(_output)@,
    {
        Err(Error::Unsupported)
    }

    /// The emulator does not model rent.
    pub fn rent_allowance(&self, _output: &mut Vec<u8>) -> (r: Result<(), Error>)
        ensures
            r == Err::<(), Error>(Error::Unsupported),
            final(_output)@ == old(_output)@,
    {
        Err(Error::Unsupported)
    }

    /// The emulator does not model existential deposits.
    pub fn minimum_balance(&self, _output: &mut Vec<u8>) -> (r: Result<(), Error>)
        ensures
            r == Err::<(), Error>(Error::Unsupported),
            final(_output)@ == old(_output)@,
    {
        Err(Error::Unsupported)
    }

    /// The emulator does not model tombstones.
    pub fn tombstone_deposit(&self, _output: &mut Vec<u8>) -> (r: Result<(), Error>)
        ensures
            r == Err::<(), Error>(Error::Unsupported),
            final(_output)@ == old(_output)@,
    {
        Err(Error::Unsupported)
    }

    /// The emulator does not model contract instantiation.
    pub fn instantiate(
        &self,
        _code_hash: &[u8],
        _gas_limit: u64,
        _endowment: &[u8],
        _input: &[u8],
        _out_address: &mut Vec<u8>,
        _out_return_value: &mut Vec<u8>,
        _salt: &[u8],
    ) -> (r: Result<(), Error>)
        ensures
            r == Err::<(), Error>(Error::Unsupported),
            final(_out_address)@ == old(_out_address)@,
            final(_out_return_value)@ == old(_out_return_value)@,
    {
        Err(Error::Unsupported)
    }

    /// The emulator does not model cross-contract calls.
    pub fn call(
        &self,
        _callee: &[u8],
        _gas_limit: u64,
        _value: &[u8],
        _input: &[u8],
        _output: &mut Vec<u8>,
    ) -> (r: Result<(), Error>)
        ensures
            r == Err::<(), Error>(Error::Unsupported),
            final(_output)@ == old(_output)@,
    {
        Err(Error::Unsupported)
    }

    /// The emulator does not model fee schedules.
    pub fn weight_to_fee(&self, _gas: u64, _output: &mut Vec<u8>) -> (r: Result<(), Error>)
        ensures
            r == Err::<(), Error>(Error::Unsupported),
            final(_output)@ == old(_output)@,
    {
        Err(Error::Unsupported)
    }

    /// The emulator does not model rent.
    pub fn set_rent_allowance(&self, _value: &[u8]) -> (r: Result<(), Error>)
        ensures
            r == Err::<(), Error>(Error::Unsupported),
    {
        Err(Error::Unsupported)
    }

    /// The emulator does not model randomness.
    pub fn random(&self, _subject: &[u8], _output: &mut Vec<u8>) -> (r: Result<(), Error>)
        ensures
            r == Err::<(), Error>(Error::Unsupported),
            final(_output)@ == old(_output)@,
    {
        Err(Error::Unsupported)
    }

    /// The emulator does not model chain extensions.
    pub fn call_chain_extension(
        &self,
        _func_id: u32,
        _input: &[u8],
        _output: &mut Vec<u8>,
    ) -> (r: Result<u32, Error>)
        ensures
            r == Err::<u32, Error>(Error::Unsupported),
            final(_output)@ == old(_output)@,
    {
        Err(Error::Unsupported)
    }

    /// The emulator does not model tombstone restoration.
    pub fn restore_to(
        &self,
        _account_id: &[u8],
        _code_hash: &[u8],
        _rent_allowance: &[u8],
        _filtered_keys: &[Vec<u8>],
    ) -> (r: Result<(), Error>)
        ensures
            r == Err::<(), Error>(Error::Unsupported),
    {
        Err(Error::Unsupported)
    }
}

} // verus!
