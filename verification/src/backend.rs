//! The typed marshalling backend: a type-safe layer over the byte-buffer
//! host surface. It encodes arguments into scratch buffers, invokes the
//! surface, and decodes results; topic buffers for event emission are built
//! here and proven to frame their topics correctly.

use crate::bytemap::{bytes_equal, extend_bytes};
use crate::codec;
use crate::ext::{parse_topics, Engine, Error};
use crate::hashing;
use crate::test_api::EventView;
use vstd::prelude::*;

verus! {

/// Errors a contract sees through the typed backend: the host error kinds,
/// plus a decoding failure of a returned value.
#[derive(Debug, Clone, Copy, PartialEq, Eq, Structural)]
pub enum EnvError {
    /// A returned value could not be decoded into its typed form.
    Decode,
    /// The emulated environment itself failed.
    OffChain,
    CalleeTrapped,
    CalleeReverted,
    KeyNotFound,
    BelowSubsistenceThreshold,
    TransferFailed,
    NewContractNotFunded,
    CodeNotFound,
    NotCallable,
    UnknownError,
    Unsupported,
    MalformedTopics,
}

/// The typed-backend error kind standing for each host error kind.
pub open spec fn env_error_of(e: Error) -> EnvError {
    match e {
        Error::CalleeTrapped => EnvError::CalleeTrapped,
        Error::CalleeReverted => EnvError::CalleeReverted,
        Error::KeyNotFound => EnvError::KeyNotFound,
        Error::BelowSubsistenceThreshold => EnvError::BelowSubsistenceThreshold,
        Error::TransferFailed => EnvError::TransferFailed,
        Error::NewContractNotFunded => EnvError::NewContractNotFunded,
        Error::CodeNotFound => EnvError::CodeNotFound,
        Error::NotCallable => EnvError::NotCallable,
        Error::UnknownError => EnvError::UnknownError,
        Error::Unsupported => EnvError::Unsupported,
        Error::MalformedTopics => EnvError::MalformedTopics,
    }
}

impl From<Error> for EnvError {
    fn from(e: Error) -> (r: EnvError)
        ensures
            r == env_error_of(e),
    {
        match e {
            Error::CalleeTrapped => EnvError::CalleeTrapped,
            Error::CalleeReverted => EnvError::CalleeReverted,
            Error::KeyNotFound => EnvError::KeyNotFound,
            Error::BelowSubsistenceThreshold => EnvError::BelowSubsistenceThreshold,
            Error::TransferFailed => EnvError::TransferFailed,
            Error::NewContractNotFunded => EnvError::NewContractNotFunded,
            Error::CodeNotFound => EnvError::CodeNotFound,
            Error::NotCallable => EnvError::NotCallable,
            Error::UnknownError => EnvError::UnknownError,
            Error::Unsupported => EnvError::Unsupported,
            Error::MalformedTopics => EnvError::MalformedTopics,
        }
    }
}

impl vstd::std_specs::convert::FromSpecImpl<Error> for EnvError {
    open spec fn obeys_from_spec() -> bool {
        true
    }

    open spec fn from_spec(e: Error) -> EnvError {
        env_error_of(e)
    }
}

/// The deep view of a byte-vector list indexes to each vector's bytes.
pub proof fn lemma_deep_index(v: Vec<Vec<u8>>, i: int)
    requires
        0 <= i < v@.len(),
    ensures
        v.deep_view()[i] == v@[i]@,
{
    assert(v.deep_view()[i] =~= v@[i]@);
}

/// A rejected topic: the same topic value may be attached to an event only
/// once.
#[derive(Debug, Clone, Copy, PartialEq, Eq, Structural)]
pub enum TopicsError {
    DuplicateTopic,
}

/// The fixed-width form of one encoded topic value: left-aligned and
/// zero-padded when it fits the digest width, its digest otherwise.
pub open spec fn topic_of(enc: Seq<u8>) -> Seq<u8> {
    if enc.len() <= 32 {
        enc + Seq::new((32 - enc.len()) as nat, |i: int| 0u8)
    } else {
        hashing::blake2b256_of(enc)
    }
}

/// All the topics, concatenated in order.
pub open spec fn concat_topics(ts: Seq<Seq<u8>>) -> Seq<u8>
    decreases ts.len(),
{
    if ts.len() == 0 {
        Seq::empty()
    } else {
        concat_topics(ts.drop_last()) + ts.last()
    }
}

pub proof fn lemma_concat_topics_len(ts: Seq<Seq<u8>>)
    requires
        forall|i: int| 0 <= i < ts.len() ==> (#[trigger] ts[i]).len() == 32,
    ensures
        concat_topics(ts).len() == 32 * ts.len(),
    decreases ts.len(),
{
    if ts.len() > 0 {
        lemma_concat_topics_len(ts.drop_last());
    }
}

pub proof fn lemma_concat_topics_index(ts: Seq<Seq<u8>>, i: int)
    requires
        forall|j: int| 0 <= j < ts.len() ==> (#[trigger] ts[j]).len() == 32,
        0 <= i < ts.len(),
    ensures
        concat_topics(ts).subrange(32 * i, 32 * i + 32) == ts[i],
    decreases ts.len(),
{
    let dl = ts.drop_last();
    lemma_concat_topics_len(dl);
    if i == ts.len() - 1 {
        assert(concat_topics(ts).subrange(32 * i, 32 * i + 32) =~= ts.last());
    } else {
        lemma_concat_topics_index(dl, i);
        assert(concat_topics(ts).subrange(32 * i, 32 * i + 32) =~= concat_topics(dl).subrange(
            32 * i,
            32 * i + 32,
        ));
    }
}

/// A topic buffer built from fixed-width topics frames exactly those topics.
pub proof fn lemma_parse_built_topics(ts: Seq<Seq<u8>>)
    requires
        forall|i: int| 0 <= i < ts.len() ==> (#[trigger] ts[i]).len() == 32,
        ts.len() <= u32::MAX,
    ensures
        parse_topics(compact_u32_bytes_of_len(ts) + concat_topics(ts)) == Some(ts),
{
    let n = ts.len() as u32;
    let enc = codec::compact_u32_bytes(n);
    let rest = concat_topics(ts);
    let s = enc + rest;
    codec::lemma_compact_u32_round_trip(n, rest);
    lemma_concat_topics_len(ts);
    assert(s.skip(enc.len() as int) =~= rest);
    if n == 0 {
        assert(parse_topics(s)->Some_0 =~= ts);
    } else {
        vstd::arithmetic::div_mod::lemma_fundamental_div_mod_converse(
            rest.len() as int,
            n as int,
            32,
            0,
        );
        let chunk = rest.len() as int / n as int;
        assert(chunk == 32);
        assert forall|i: int| 0 <= i < n implies rest.subrange(i * 32, i * 32 + 32) == ts[i] by {
            lemma_concat_topics_index(ts, i);
            assert(32 * i == i * 32) by (nonlinear_arith);
            assert(32 * i + 32 == (i + 1) * 32) by (nonlinear_arith);
        }
        assert(parse_topics(s)->Some_0 =~= ts);
    }
}

/// The compact encoding of the topic count.
pub open spec fn compact_u32_bytes_of_len(ts: Seq<Seq<u8>>) -> Seq<u8> {
    codec::compact_u32_bytes(ts.len() as u32)
}

/// Builds the topic buffer for one event: each pushed value is padded or
/// hashed to the digest width, duplicates are rejected, and `output`
/// serializes a compact count followed by the topics.
pub struct TopicsBuilder {
    pub topics: Vec<Vec<u8>>,
}

impl TopicsBuilder {
    /// Every topic is digest-wide and occurs once.
    pub open spec fn wf(&self) -> bool {
        &&& forall|i: int|
            0 <= i < self.topics.deep_view().len() ==> (#[trigger] self.topics.deep_view()[i]).len()
                == 32
        &&& forall|i: int, j: int|
            0 <= i < j < self.topics.deep_view().len() ==> self.topics.deep_view()[i]
                != self.topics.deep_view()[j]
    }

    /// A builder with no topics yet.
    pub fn new() -> (r: Self)
        ensures
            r.wf(),
            r.topics.deep_view() == Seq::<Seq<u8>>::empty(),
    {
        let r = TopicsBuilder { topics: Vec::new() };
        proof {
            assert(r.topics.deep_view() =~= Seq::<Seq<u8>>::empty());
        }
        r
    }

    /// Announces how many topics will be pushed; the builder does not care.
    pub fn expect(&mut self, _expected_topics: usize)
        ensures
            *final(self) == *old(self),
    {
    }

    /// Adds the topic for one encoded value; a value whose topic is already
    /// present is rejected and changes nothing.
    pub fn push_topic(&mut self, encoded: &[u8]) -> (r: Result<(), TopicsError>)
        requires
            old(self).wf(),
        ensures
            final(self).wf(),
            (if exists|i: int|
                0 <= i < old(self).topics.deep_view().len() && old(self).topics.deep_view()[i]
                    == topic_of(encoded@) {
                r == Err::<(), TopicsError>(TopicsError::DuplicateTopic) && *final(self) == *old(self)
            } else {
                r == Ok::<(), TopicsError>(()) && final(self).topics.deep_view() == old(self).topics.deep_view().push(topic_of(encoded@))
            }),
    {
        let topic: Vec<u8> = if encoded.len() <= 32 {
            let mut t = vstd::slice::slice_to_vec(encoded);
            while t.len() < 32
                invariant
                    encoded@.len() <= t@.len() <= 32,
                    forall|j: int| 0 <= j < encoded@.len() ==> t@[j] == encoded@[j],
                    forall|j: int| encoded@.len() <= j < t@.len() ==> t@[j] == 0u8,
                decreases 32 - t@.len(),
            {
                t.push(0u8);
            }
            proof {
                assert(t@ =~= topic_of(encoded@));
            }
            t
        } else {
            let h = hashing::blake2b_256(encoded);
            vstd::slice::slice_to_vec(h.as_slice())
        };
        let mut dup: bool = false;
        let mut i: usize = 0;
        while i < self.topics.len()
            invariant
                0 <= i <= self.topics@.len(),
                dup ==> exists|j: int|
                    0 <= j < self.topics@.len() && self.topics@[j]@ == topic@,
                !dup ==> forall|j: int| 0 <= j < i ==> self.topics@[j]@ != topic@,
            decreases self.topics@.len() - i,
        {
            let existing = &self.topics[i];
            if bytes_equal(existing.as_slice(), topic.as_slice()) {
                dup = true;
            }
            i += 1;
        }
        if dup {
            proof {
                let j = choose|j: int| 0 <= j < self.topics@.len() && self.topics@[j]@ == topic@;
                lemma_deep_index(self.topics, j);
            }
            return Err(TopicsError::DuplicateTopic);
        }
        let ghost prior = self.topics.deep_view();
        proof {
            assert forall|j: int| 0 <= j < prior.len() implies prior[j] != topic_of(encoded@) by {
                lemma_deep_index(old(self).topics, j);
            }
        }
        self.topics.push(topic);
        proof {
            assert(self.topics.deep_view() =~~= prior.push(topic_of(encoded@)));
        }
        Ok(())
    }

    /// Serializes the built topics: a compact count, then each topic's
    /// fixed-width bytes in order.
    pub fn output(self) -> (r: Vec<u8>)
        requires
            self.wf(),
            self.topics@.len() <= u32::MAX,
        ensures
            r@ == compact_u32_bytes_of_len(self.topics.deep_view()) + concat_topics(
                self.topics.deep_view(),
            ),
    {
        let ghost ts = self.topics.deep_view();
        let mut all = codec::encode_compact_u32(self.topics.len() as u32);
        let ghost head = all@;
        proof {
            assert(all@ =~= head + concat_topics(ts.take(0)));
        }
        let mut i: usize = 0;
        while i < self.topics.len()
            invariant
                0 <= i <= self.topics@.len(),
                ts == self.topics.deep_view(),
                all@ == head + concat_topics(ts.take(i as int)),
            decreases self.topics@.len() - i,
        {
            let piece = &self.topics[i];
            extend_bytes(&mut all, piece.as_slice());
            proof {
                assert(ts.take(i + 1 as int).drop_last() =~= ts.take(i as int));
                assert(all@ =~= head + concat_topics(ts.take(i + 1 as int)));
            }
            i += 1;
        }
        proof {
            assert(ts.take(ts.len() as int) =~= ts);
        }
        all
    }
}

/// Parameters of a cross-contract call, already encoded where the receiver
/// expects encoded bytes.
pub struct CallParams {
    pub callee: Vec<u8>,
    pub gas_limit: u64,
    pub transferred_value: crate::Balance,
    pub exec_input: Vec<u8>,
}

/// Parameters of a contract instantiation, already encoded where the
/// receiver expects encoded bytes.
pub struct CreateParams {
    pub code_hash: Vec<u8>,
    pub gas_limit: u64,
    pub endowment: crate::Balance,
    pub exec_input: Vec<u8>,
    pub salt_bytes: Vec<u8>,
}

/// A fixed-capacity scratch buffer for marshalling; any encoded value must
/// fit it.
fn scratch_buffer() -> (r: Vec<u8>)
    ensures
        r@.len() == 1024,
{
    let r: Vec<u8> = vec![0u8; 1024];
    r
}

/// The typed backend instance: the engine plus the marshalling around it.
pub struct EnvInstance {
    /// The off-chain engine.
    pub engine: Engine,
}

impl EnvInstance {
    /// A backend over a fresh world.
    pub fn new() -> (r: Self)
        ensures
            r.engine.wf(),
            r.engine.database@ == Map::<Seq<u8>, Seq<u8>>::empty(),
            r.engine.exec_context.caller@ == crate::exec_context::zero_account(),
            r.engine.exec_context.callee@ == crate::exec_context::zero_account(),
            r.engine.exec_context.value_transferred == 0,
            r.engine.debug_info.emitted_events@.len() == 0,
            r.engine.debug_info.recorded_printlns@.len() == 0,
            r.engine.debug_info.count_reads@ == Map::<Seq<u8>, u64>::empty(),
            r.engine.debug_info.count_writes@ == Map::<Seq<u8>, u64>::empty(),
            r.engine.debug_info.cells_per_account@ == Map::<Seq<u8>, u64>::empty(),
    {
        EnvInstance { engine: Engine::new() }
    }

    /// The caller's identifier, decoded to its fixed width.
    pub fn caller(&mut self) -> (r: Result<Vec<u8>, EnvError>)
        requires
            old(self).engine.exec_context.caller@.len() <= 1024,
        ensures
            *final(self) == *old(self),
            (if old(self).engine.exec_context.caller@.len() >= 32 {
                r matches Ok(a) && a@ == old(self).engine.exec_context.caller@.take(32)
            } else {
                r == Err::<Vec<u8>, EnvError>(EnvError::Decode)
            }),
    {
        let mut buf = scratch_buffer();
        self.engine.caller(&mut buf);
        match codec::decode_account_id(buf.as_slice()) {
            Some(a) => Ok(vstd::slice::slice_to_vec(a.as_slice())),
            None => Err(EnvError::Decode),
        }
    }

    /// The executing contract's identifier, decoded to its fixed width.
    pub fn account_id(&mut self) -> (r: Result<Vec<u8>, EnvError>)
        requires
            old(self).engine.exec_context.callee@.len() <= 1024,
        ensures
            *final(self) == *old(self),
            (if old(self).engine.exec_context.callee@.len() >= 32 {
                r matches Ok(a) && a@ == old(self).engine.exec_context.callee@.take(32)
            } else {
                r == Err::<Vec<u8>, EnvError>(EnvError::Decode)
            }),
    {
        let mut buf = scratch_buffer();
        self.engine.address(&mut buf);
        match codec::decode_account_id(buf.as_slice()) {
            Some(a) => Ok(vstd::slice::slice_to_vec(a.as_slice())),
            None => Err(EnvError::Decode),
        }
    }

    /// The value transferred with the current call.
    pub fn transferred_balance(&mut self) -> (r: Result<crate::Balance, EnvError>)
        ensures
            *final(self) == *old(self),
            r == Ok::<crate::Balance, EnvError>(old(self).engine.exec_context.value_transferred),
    {
        let mut buf = scratch_buffer();
        self.engine.value_transferred(&mut buf);
        proof {
            codec::lemma_le_bytes_len(self.engine.exec_context.value_transferred as nat, 16);
            codec::lemma_u128_round_trip(self.engine.exec_context.value_transferred);
        }
        match codec::decode_u128(buf.as_slice()) {
            Some(v) => Ok(v),
            None => {
                proof {
                    assert(false);
                }
                Err(EnvError::Decode)
            }
        }
    }

    /// The executing contract's balance; the account must have been funded by
    /// test setup, and anything else is an off-chain failure.
    pub fn balance(&mut self) -> (r: Result<crate::Balance, EnvError>)
        requires
            old(self).engine.wf(),
        ensures
            *final(self) == *old(self),
            (if crate::storage::has_balance(
                old(self).engine.database@,
                old(self).engine.exec_context.callee@,
            ) && old(self).engine.database@[crate::storage::balance_key_of(
                old(self).engine.exec_context.callee@,
            )].len() >= 16 {
                r == Ok::<crate::Balance, EnvError>(
                    crate::storage::balance_at(
                        old(self).engine.database@,
                        old(self).engine.exec_context.callee@,
                    ),
                )
            } else {
                r == Err::<crate::Balance, EnvError>(EnvError::OffChain)
            }),
    {
        let mut buf = scratch_buffer();
        match self.engine.try_balance(&mut buf) {
            Ok(()) => {
                proof {
                    codec::lemma_le_bytes_len(
                        crate::storage::balance_at(
                            self.engine.database@,
                            self.engine.exec_context.callee@,
                        ) as nat,
                        16,
                    );
                    codec::lemma_u128_round_trip(
                        crate::storage::balance_at(
                            self.engine.database@,
                            self.engine.exec_context.callee@,
                        ),
                    );
                }
                match codec::decode_u128(buf.as_slice()) {
                    Some(v) => Ok(v),
                    None => {
                        proof {
                            assert(false);
                        }
                        Err(EnvError::Decode)
                    }
                }
            }
            Err(_) => Err(EnvError::OffChain),
        }
    }

    /// Writes an encoded value into contract storage.
    pub fn set_contract_storage(&mut self, key: &[u8], encoded_value: &[u8])
        requires
            old(self).engine.wf(),
        ensures
            final(self).engine.wf(),
            final(self).engine.database@ == old(self).engine.database@.insert(
                key@,
                encoded_value@,
            ),
            final(self).engine.exec_context == old(self).engine.exec_context,
            final(self).engine.debug_info.emitted_events == old(self).engine.debug_info.emitted_events,
            final(self).engine.debug_info.recorded_printlns == old(self).engine.debug_info.recorded_printlns,
    {
        self.engine.set_storage(key, encoded_value);
    }

    /// Reads the value under a key, if any; the scratch buffer bounds the
    /// value's width.
    pub fn get_contract_storage(&mut self, key: &[u8]) -> (r: Result<Option<Vec<u8>>, EnvError>)
        requires
            old(self).engine.wf(),
            old(self).engine.database@.contains_key(key@) ==> old(self).engine.database@[key@].len() <= 9600,
        ensures
            final(self).engine.wf(),
            final(self).engine.database == old(self).engine.database,
            final(self).engine.exec_context == old(self).engine.exec_context,
            final(self).engine.debug_info.emitted_events == old(self).engine.debug_info.emitted_events,
            final(self).engine.debug_info.recorded_printlns == old(self).engine.debug_info.recorded_printlns,
            (if old(self).engine.database@.contains_key(key@) {
                r matches Ok(v) && v matches Some(bytes) && bytes@ == old(self).engine.database@[key@]
            } else {
                r == Ok::<Option<Vec<u8>>, EnvError>(None)
            }),
    {
        let mut output: Vec<u8> = vec![0u8; 9600];
        match self.engine.get_storage(key, &mut output) {
            Ok(()) => Ok(Some(output)),
            Err(e) => {
                match e {
                    Error::KeyNotFound => Ok(None),
                    _ => {
                        proof {
                            assert(false);
                        }
                        Err(EnvError::from(e))
                    }
                }
            }
        }
    }

    /// Removes the value under a key.
    pub fn clear_contract_storage(&mut self, key: &[u8])
        requires
            old(self).engine.wf(),
        ensures
            final(self).engine.wf(),
            final(self).engine.database@ == old(self).engine.database@.remove(key@),
            final(self).engine.exec_context == old(self).engine.exec_context,
            final(self).engine.debug_info.emitted_events == old(self).engine.debug_info.emitted_events,
            final(self).engine.debug_info.recorded_printlns == old(self).engine.debug_info.recorded_printlns,
    {
        self.engine.clear_storage(key);
    }

    /// The emulator has no call input to decode.
    pub fn decode_input(&mut self) -> (r: Result<Vec<u8>, EnvError>)
        ensures
            *final(self) == *old(self),
            r == Err::<Vec<u8>, EnvError>(EnvError::Unsupported),
    {
        Err(EnvError::Unsupported)
    }

    /// The emulator has no caller to return a value to.
    pub fn return_value(&mut self, _flags: u32, _return_value: &[u8]) -> (r: Result<(), EnvError>)
        ensures
            *final(self) == *old(self),
            r == Err::<(), EnvError>(EnvError::Unsupported),
    {
        Err(EnvError::Unsupported)
    }

    /// Prints and records a line.
    pub fn println(&mut self, content: &str)
        ensures
            final(self).engine.debug_info.recorded_printlns.deep_view() == old(self).engine.debug_info.recorded_printlns.deep_view().push(content@),
            final(self).engine.debug_info.emitted_events == old(self).engine.debug_info.emitted_events,
            final(self).engine.database == old(self).engine.database,
            final(self).engine.exec_context == old(self).engine.exec_context,
    {
        self.engine.println(content);
    }

    /// Deposits one event built from a topic builder and its encoded data.
    pub fn emit_event(&mut self, topics: TopicsBuilder, encoded_data: &[u8])
        requires
            old(self).engine.wf(),
            topics.wf(),
            topics.topics@.len() <= u32::MAX,
        ensures
            final(self).engine.wf(),
            final(self).engine.debug_info.emitted_events.deep_view() == old(self).engine.debug_info.emitted_events.deep_view().push(
                (EventView { topics: topics.topics.deep_view(), data: encoded_data@ }),
            ),
            final(self).engine.database == old(self).engine.database,
            final(self).engine.exec_context == old(self).engine.exec_context,
            final(self).engine.debug_info.recorded_printlns == old(self).engine.debug_info.recorded_printlns,
    {
        let ghost ts = topics.topics.deep_view();
        let enc_topics = topics.output();
        proof {
            lemma_parse_built_topics(ts);
        }
        match self.engine.deposit_event(enc_topics.as_slice(), encoded_data) {
            Ok(()) => (),
            Err(_) => {
                proof {
                    assert(false);
                }
            }
        }
    }

    /// Transfers value to the destination account.
    pub fn transfer(&mut self, destination: &[u8], value: crate::Balance) -> (r: Result<
        (),
        EnvError,
    >)
        requires
            old(self).engine.wf(),
        ensures
            final(self).engine.wf(),
            final(self).engine.exec_context == old(self).engine.exec_context,
            final(self).engine.debug_info == old(self).engine.debug_info,
            (match crate::ext::transfer_result(
                old(self).engine.database@,
                old(self).engine.exec_context.callee@,
                destination@,
                codec::u128_le_bytes(value),
            ) {
                Some(m2) => r == Ok::<(), EnvError>(()) && final(self).engine.database@ == m2,
                None => r == Err::<(), EnvError>(EnvError::TransferFailed) && final(self).engine.database == old(self).engine.database,
            }),
    {
        let enc_value = codec::encode_u128(value);
        match self.engine.transfer(destination, enc_value.as_slice()) {
            Ok(()) => Ok(()),
            Err(e) => Err(EnvError::from(e)),
        }
    }

    /// Ends the emulated execution, handing the whole balance to the
    /// beneficiary; the terminal outcome carries the amount and beneficiary.
    pub fn terminate_contract(&mut self, beneficiary: &[u8]) -> (r: Result<
        (crate::Balance, Vec<u8>),
        EnvError,
    >)
        requires
            old(self).engine.wf(),
        ensures
            final(self).engine.wf(),
            final(self).engine.exec_context == old(self).engine.exec_context,
            final(self).engine.debug_info == old(self).engine.debug_info,
            (if crate::storage::has_balance(
                old(self).engine.database@,
                old(self).engine.exec_context.callee@,
            ) && old(self).engine.database@[crate::storage::balance_key_of(
                old(self).engine.exec_context.callee@,
            )].len() >= 16 {
                match crate::ext::transfer_result(
                    old(self).engine.database@,
                    old(self).engine.exec_context.callee@,
                    beneficiary@,
                    codec::u128_le_bytes(
                        crate::storage::balance_at(
                            old(self).engine.database@,
                            old(self).engine.exec_context.callee@,
                        ),
                    ),
                ) {
                    Some(m2) => r matches Ok(p) && p.0 == crate::storage::balance_at(
                        old(self).engine.database@,
                        old(self).engine.exec_context.callee@,
                    ) && p.1@ == beneficiary@ && final(self).engine.database@ == m2,
                    None => r == Err::<(crate::Balance, Vec<u8>), EnvError>(
                        EnvError::TransferFailed,
                    ) && final(self).engine.database == old(self).engine.database,
                }
            } else {
                r == Err::<(crate::Balance, Vec<u8>), EnvError>(EnvError::TransferFailed) && final(self).engine.database == old(self).engine.database
            }),
    {
        match self.engine.terminate(beneficiary) {
            Ok(p) => Ok(p),
            Err(e) => Err(EnvError::from(e)),
        }
    }

    /// The emulator does not meter gas.
    pub fn gas_left(&mut self) -> (r: Result<crate::Balance, EnvError>)
        ensures
            *final(self) == *old(self),
            r == Err::<crate::Balance, EnvError>(EnvError::Unsupported),
    {
        let mut buf = scratch_buffer();
        match self.engine.gas_left(&mut buf) {
            Ok(()) => {
                proof {
                    assert(false);
                }
                Err(EnvError::Decode)
            }
            Err(e) => Err(EnvError::from(e)),
        }
    }

    /// The emulator does not model chain time.
    pub fn block_timestamp(&mut self) -> (r: Result<Vec<u8>, EnvError>)
        ensures
            *final(self) == *old(self),
            r == Err::<Vec<u8>, EnvError>(EnvError::Unsupported),
    {
        let mut buf = scratch_buffer();
        match self.engine.now(&mut buf) {
            Ok(()) => {
                proof {
                    assert(false);
                }
                Ok(buf)
            }
            Err(e) => Err(EnvError::from(e)),
        }
    }

    /// The emulator does not model block numbers.
    pub fn block_number(&mut self) -> (r: Result<Vec<u8>, EnvError>)
        ensures
            *final(self) == *old(self),
            r == Err::<Vec<u8>, EnvError>(EnvError::Unsupported),
    {
        let mut buf = scratch_buffer();
        match self.engine.block_number(&mut buf) {
            Ok(()) => {
                proof {
                    assert(false);
                }
                Ok(buf)
            }
            Err(e) => Err(EnvError::from(e)),
        }
    }

    /// The emulator does not model rent.
    pub fn rent_allowance(&mut self) -> (r: Result<crate::Balance, EnvError>)
        ensures
            *final(self) == *old(self),
            r == Err::<crate::Balance, EnvError>(EnvError::Unsupported),
    {
        let mut buf = scratch_buffer();
        match self.engine.rent_allowance(&mut buf) {
            Ok(()) => {
                proof {
                    assert(false);
                }
                Err(EnvError::Decode)
            }
            Err(e) => Err(EnvError::from(e)),
        }
    }

    /// The emulator does not model rent.
    pub fn set_rent_allowance(&mut self, new_value: crate::Balance) -> (r: Result<(), EnvError>)
        ensures
            *final(self) == *old(self),
            r == Err::<(), EnvError>(EnvError::Unsupported),
    {
        let enc_value = codec::encode_u128(new_value);
        match self.engine.set_rent_allowance(enc_value.as_slice()) {
            Ok(()) => {
                proof {
                    assert(false);
                }
                Ok(())
            }
            Err(e) => Err(EnvError::from(e)),
        }
    }

    /// The emulator does not model existential deposits.
    pub fn minimum_balance(&mut self) -> (r: Result<crate::Balance, EnvError>)
        ensures
            *final(self) == *old(self),
            r == Err::<crate::Balance, EnvError>(EnvError::Unsupported),
    {
        let mut buf = scratch_buffer();
        match self.engine.minimum_balance(&mut buf) {
            Ok(()) => {
                proof {
                    assert(false);
                }
                Err(EnvError::Decode)
            }
            Err(e) => Err(EnvError::from(e)),
        }
    }

    /// The emulator does not model tombstones.
    pub fn tombstone_deposit(&mut self) -> (r: Result<crate::Balance, EnvError>)
        ensures
            *final(self) == *old(self),
            r == Err::<crate::Balance, EnvError>(EnvError::Unsupported),
    {
        let mut buf = scratch_buffer();
        match self.engine.tombstone_deposit(&mut buf) {
            Ok(()) => {
                proof {
                    assert(false);
                }
                Err(EnvError::Decode)
            }
            Err(e) => Err(EnvError::from(e)),
        }
    }

    /// Reusable implementation for invoking another contract message; the
    /// emulator does not model cross-contract calls, so this always reports
    /// the operation as unsupported.
    fn invoke_contract_impl(&mut self, params: &CallParams) -> (r: Result<Vec<u8>, EnvError>)
        ensures
            *final(self) == *old(self),
            r == Err::<Vec<u8>, EnvError>(EnvError::Unsupported),
    {
        let enc_value = codec::encode_u128(params.transferred_value);
        let mut output = scratch_buffer();
        match self.engine.call(
            params.callee.as_slice(),
            params.gas_limit,
            enc_value.as_slice(),
            params.exec_input.as_slice(),
            &mut output,
        ) {
            Ok(()) => {
                proof {
                    assert(false);
                }
                Ok(output)
            }
            Err(e) => Err(EnvError::from(e)),
        }
    }

    /// Invokes another contract message, dropping any return value.
    pub fn invoke_contract(&mut self, params: &CallParams) -> (r: Result<(), EnvError>)
        ensures
            *final(self) == *old(self),
            r == Err::<(), EnvError>(EnvError::Unsupported),
    {
        match self.invoke_contract_impl(params) {
            Ok(_) => Ok(()),
            Err(e) => Err(e),
        }
    }

    /// Invokes another contract message and returns its encoded result.
    pub fn eval_contract(&mut self, params: &CallParams) -> (r: Result<Vec<u8>, EnvError>)
        ensures
            *final(self) == *old(self),
            r == Err::<Vec<u8>, EnvError>(EnvError::Unsupported),
    {
        self.invoke_contract_impl(params)
    }

    /// Instantiates a contract; the emulator does not model instantiation,
    /// so this always reports the operation as unsupported.
    pub fn instantiate_contract(&mut self, params: &CreateParams) -> (r: Result<Vec<u8>, EnvError>)
        ensures
            *final(self) == *old(self),
            r == Err::<Vec<u8>, EnvError>(EnvError::Unsupported),
    {
        let enc_endowment = codec::encode_u128(params.endowment);
        let mut out_address = scratch_buffer();
        let mut out_return_value = scratch_buffer();
        match self.engine.instantiate(
            params.code_hash.as_slice(),
            params.gas_limit,
            enc_endowment.as_slice(),
            params.exec_input.as_slice(),
            &mut out_address,
            &mut out_return_value,
            params.salt_bytes.as_slice(),
        ) {
            Ok(()) => {
                proof {
                    assert(false);
                }
                match codec::decode_account_id(out_address.as_slice()) {
                    Some(a) => Ok(vstd::slice::slice_to_vec(a.as_slice())),
                    None => Err(EnvError::Decode),
                }
            }
            Err(e) => Err(EnvError::from(e)),
        }
    }

    /// Restores a tombstone; the emulator does not model restoration, so this
    /// always reports the operation as unsupported.
    pub fn restore_contract(
        &mut self,
        account_id: &[u8],
        code_hash: &[u8],
        rent_allowance: &[u8],
        filtered_keys: &[Vec<u8>],
    ) -> (r: Result<(), EnvError>)
        ensures
            *final(self) == *old(self),
            r == Err::<(), EnvError>(EnvError::Unsupported),
    {
        match self.engine.restore_to(account_id, code_hash, rent_allowance, filtered_keys) {
            Ok(()) => {
                proof {
                    assert(false);
                }
                Ok(())
            }
            Err(e) => Err(EnvError::from(e)),
        }
    }

    /// Calls a chain extension; the emulator registers none, so this always
    /// reports the operation as unsupported.
    pub fn call_chain_extension(&mut self, func_id: u32, input: &[u8]) -> (r: Result<
        Vec<u8>,
        EnvError,
    >)
        ensures
            *final(self) == *old(self),
            r == Err::<Vec<u8>, EnvError>(EnvError::Unsupported),
    {
        let mut output = scratch_buffer();
        match self.engine.call_chain_extension(func_id, input, &mut output) {
            Ok(_status) => {
                proof {
                    assert(false);
                }
                Ok(output)
            }
            Err(e) => Err(EnvError::from(e)),
        }
    }

    /// Converts a weight to a fee; the emulator has no fee schedule, so this
    /// always reports the operation as unsupported.
    pub fn weight_to_fee(&mut self, gas: u64) -> (r: Result<crate::Balance, EnvError>)
        ensures
            *final(self) == *old(self),
            r == Err::<crate::Balance, EnvError>(EnvError::Unsupported),
    {
        let mut output = scratch_buffer();
        match self.engine.weight_to_fee(gas, &mut output) {
            Ok(()) => {
                match codec::decode_u128(output.as_slice()) {
                    Some(v) => {
                        proof {
                            assert(false);
                        }
                        Ok(v)
                    }
                    None => Err(EnvError::Decode),
                }
            }
            Err(e) => Err(EnvError::from(e)),
        }
    }

    /// Draws randomness; the emulator models none, so this always reports the
    /// operation as unsupported.
    pub fn random(&mut self, subject: &[u8]) -> (r: Result<Vec<u8>, EnvError>)
        ensures
            *final(self) == *old(self),
            r == Err::<Vec<u8>, EnvError>(EnvError::Unsupported),
    {
        let mut output = scratch_buffer();
        match self.engine.random(subject, &mut output) {
            Ok(()) => {
                proof {
                    assert(false);
                }
                Ok(output)
            }
            Err(e) => Err(EnvError::from(e)),
        }
    }
}

} // verus!
