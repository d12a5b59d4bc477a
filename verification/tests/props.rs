use ink_engine::backend::{EnvError, EnvInstance, TopicsBuilder, TopicsError};
use ink_engine::codec;
use ink_engine::exec_context::ExecContext;
use ink_engine::ext::{self, Engine, Error, ReturnCode};
use ink_engine::storage::balance_of_key;
use ink_engine::{AccountError, Error as EngineError};

#[test]
fn balance_key_is_deterministic_and_separates_accounts() {
    let alice = vec![1u8; 32];
    let bob = vec![2u8; 32];
    assert_eq!(balance_of_key(&alice), balance_of_key(&alice));
    assert_eq!(balance_of_key(&bob), balance_of_key(&bob));
    assert_ne!(balance_of_key(&alice), balance_of_key(&bob));
}

#[test]
fn recorder_round_trip_in_order() {
    let mut engine = Engine::new();
    engine.println("one");
    engine.println("two");
    engine.println("three");
    let lines = engine.get_recorded_printlns();
    assert_eq!(lines.len(), 3);
    assert_eq!(lines[0], "one");
    assert_eq!(lines[1], "two");
    assert_eq!(lines[2], "three");

    let first = engine.deposit_event(&[4u8, 7, 7], &[1]);
    let second = engine.deposit_event(&[4u8, 8, 8], &[2]);
    assert_eq!(first, Ok(()));
    assert_eq!(second, Ok(()));
    let events = engine.get_emitted_events();
    assert_eq!(events.len(), 2);
    assert_eq!(events[0].data, vec![1]);
    assert_eq!(events[1].data, vec![2]);

    engine.debug_info.clear();
    assert_eq!(engine.get_recorded_printlns().len(), 0);
    assert_eq!(engine.get_emitted_events().len(), 0);
}

#[test]
fn topic_building_is_deterministic() {
    let mut b1 = TopicsBuilder::new();
    let mut b2 = TopicsBuilder::new();
    assert_eq!(b1.push_topic(&[97, 98]), Ok(()));
    assert_eq!(b2.push_topic(&[97, 98]), Ok(()));
    let mut padded = vec![97u8, 98];
    padded.resize(32, 0);
    assert_eq!(b1.topics[0], padded);
    assert_eq!(b1.topics[0], b2.topics[0]);

    let long = vec![7u8; 40];
    let mut b3 = TopicsBuilder::new();
    let mut b4 = TopicsBuilder::new();
    assert_eq!(b3.push_topic(&long), Ok(()));
    assert_eq!(b4.push_topic(&long), Ok(()));
    assert_eq!(b3.topics[0].len(), 32);
    assert_eq!(b3.topics[0], b4.topics[0]);
    assert_ne!(b3.topics[0], long[..32].to_vec());
}

#[test]
fn duplicate_topics_are_rejected() {
    let mut builder = TopicsBuilder::new();
    builder.expect(2);
    assert_eq!(builder.push_topic(&[1, 2, 3]), Ok(()));
    assert_eq!(
        builder.push_topic(&[1, 2, 3]),
        Err(TopicsError::DuplicateTopic)
    );
    assert_eq!(builder.topics.len(), 1);
}

#[test]
fn topics_output_frames_count_and_topics() {
    let mut builder = TopicsBuilder::new();
    assert_eq!(builder.push_topic(&[12, 13]), Ok(()));
    assert_eq!(builder.push_topic(&[14, 15]), Ok(()));
    let out = builder.output();
    assert_eq!(out.len(), 1 + 32 + 32);
    assert_eq!(out[0], 8);
    assert_eq!(&out[1..3], &[12, 13]);
    assert_eq!(&out[3..33], &[0u8; 30]);
    assert_eq!(&out[33..35], &[14, 15]);
}

#[test]
fn emit_event_deposits_fixed_width_topics() {
    let mut backend = EnvInstance::new();
    let mut builder = TopicsBuilder::new();
    assert_eq!(builder.push_topic(&[42, 43]), Ok(()));
    backend.emit_event(builder, &[9, 9, 9]);
    let events = backend.engine.get_emitted_events();
    assert_eq!(events.len(), 1);
    assert_eq!(events[0].topics.len(), 1);
    assert_eq!(events[0].topics[0].len(), 32);
    assert_eq!(&events[0].topics[0][..2], &[42, 43]);
    assert_eq!(events[0].data, vec![9, 9, 9]);
}

#[test]
fn unsupported_operations_always_fail() {
    let mut engine = Engine::new();
    let mut out = vec![0u8; 64];
    assert_eq!(engine.now(&mut out), Err(Error::Unsupported));
    assert_eq!(engine.block_number(&mut out), Err(Error::Unsupported));
    assert_eq!(engine.gas_left(&mut out), Err(Error::Unsupported));
    assert_eq!(engine.rent_allowance(&mut out), Err(Error::Unsupported));
    assert_eq!(engine.minimum_balance(&mut out), Err(Error::Unsupported));
    assert_eq!(engine.tombstone_deposit(&mut out), Err(Error::Unsupported));
    let mut out2 = vec![0u8; 64];
    assert_eq!(
        engine.instantiate(&[1], 0, &[2], &[3], &mut out, &mut out2, &[4]),
        Err(Error::Unsupported)
    );
    assert_eq!(
        engine.call(&[1], 0, &[2], &[3], &mut out),
        Err(Error::Unsupported)
    );
    assert_eq!(engine.weight_to_fee(5, &mut out), Err(Error::Unsupported));
    assert_eq!(engine.set_rent_allowance(&[1]), Err(Error::Unsupported));
    assert_eq!(engine.random(&[1], &mut out), Err(Error::Unsupported));
    assert_eq!(
        engine.call_chain_extension(7, &[1], &mut out),
        Err(Error::Unsupported)
    );
    assert_eq!(
        engine.restore_to(&[1], &[2], &[3], &[vec![4]]),
        Err(Error::Unsupported)
    );
}

#[test]
fn unsupported_operations_fail_through_the_backend() {
    let mut backend = EnvInstance::new();
    assert_eq!(backend.decode_input(), Err(EnvError::Unsupported));
    assert_eq!(backend.gas_left(), Err(EnvError::Unsupported));
    assert_eq!(backend.block_timestamp(), Err(EnvError::Unsupported));
    assert_eq!(backend.block_number(), Err(EnvError::Unsupported));
    assert_eq!(backend.rent_allowance(), Err(EnvError::Unsupported));
    assert_eq!(backend.set_rent_allowance(5), Err(EnvError::Unsupported));
    assert_eq!(backend.minimum_balance(), Err(EnvError::Unsupported));
    assert_eq!(backend.tombstone_deposit(), Err(EnvError::Unsupported));
    assert_eq!(backend.return_value(0, &[1]), Err(EnvError::Unsupported));
    assert_eq!(backend.weight_to_fee(5), Err(EnvError::Unsupported));
    assert_eq!(backend.random(&[1]), Err(EnvError::Unsupported));
    assert_eq!(
        backend.call_chain_extension(7, &[1]),
        Err(EnvError::Unsupported)
    );
    assert_eq!(
        backend.restore_contract(&[1], &[2], &[3], &[vec![4]]),
        Err(EnvError::Unsupported)
    );
    let call = ink_engine::backend::CallParams {
        callee: vec![1; 32],
        gas_limit: 0,
        transferred_value: 7,
        exec_input: vec![],
    };
    assert_eq!(backend.invoke_contract(&call), Err(EnvError::Unsupported));
    assert_eq!(backend.eval_contract(&call), Err(EnvError::Unsupported));
    let create = ink_engine::backend::CreateParams {
        code_hash: vec![0; 32],
        gas_limit: 0,
        endowment: 7,
        exec_input: vec![],
        salt_bytes: vec![1],
    };
    assert_eq!(
        backend.instantiate_contract(&create),
        Err(EnvError::Unsupported)
    );
}

#[test]
fn error_code_table_is_fixed() {
    assert_eq!(Error::from_return_code(ReturnCode(0)), Ok(()));
    assert_eq!(
        Error::from_return_code(ReturnCode(1)),
        Err(Error::CalleeTrapped)
    );
    assert_eq!(
        Error::from_return_code(ReturnCode(2)),
        Err(Error::CalleeReverted)
    );
    assert_eq!(
        Error::from_return_code(ReturnCode(3)),
        Err(Error::KeyNotFound)
    );
    assert_eq!(
        Error::from_return_code(ReturnCode(4)),
        Err(Error::BelowSubsistenceThreshold)
    );
    assert_eq!(
        Error::from_return_code(ReturnCode(5)),
        Err(Error::TransferFailed)
    );
    assert_eq!(
        Error::from_return_code(ReturnCode(6)),
        Err(Error::NewContractNotFunded)
    );
    assert_eq!(
        Error::from_return_code(ReturnCode(7)),
        Err(Error::CodeNotFound)
    );
    assert_eq!(
        Error::from_return_code(ReturnCode(8)),
        Err(Error::NotCallable)
    );
    assert_eq!(
        Error::from_return_code(ReturnCode(99)),
        Err(Error::UnknownError)
    );
    assert_eq!(ReturnCode(12).into_u32(), 12);
}

#[test]
fn compact_encoding_round_trips_every_width() {
    for v in [0u32, 1, 63, 64, 16383, 16384, 0x3fffffff, 0x40000000, u32::MAX] {
        let enc = codec::encode_compact_u32(v);
        let decoded = codec::decode_compact_u32(&enc).expect("canonical encoding must decode");
        assert_eq!(decoded.0, v);
        assert_eq!(decoded.1.len(), 0);
    }
    assert_eq!(codec::encode_compact_u32(0), vec![0]);
    assert_eq!(codec::encode_compact_u32(1), vec![4]);
    assert_eq!(codec::encode_compact_u32(63), vec![252]);
    assert_eq!(codec::encode_compact_u32(64), vec![1, 1]);
}

#[test]
fn compact_decoding_rejects_what_is_not_canonical() {
    // A two-byte mode prefix with no second byte.
    assert_eq!(codec::decode_compact_u32(&[1]), None);
    // A two-byte encoding of a value that fits one byte.
    assert_eq!(codec::decode_compact_u32(&[1, 0]), None);
    // Empty input.
    assert_eq!(codec::decode_compact_u32(&[]), None);
}

#[test]
fn balance_encoding_is_little_endian_and_fixed_width() {
    let enc = codec::encode_u128(1);
    assert_eq!(enc.len(), 16);
    assert_eq!(enc[0], 1);
    assert_eq!(&enc[1..], &[0u8; 15]);
    let enc = codec::encode_u128(0x0201);
    assert_eq!(enc[0], 1);
    assert_eq!(enc[1], 2);
    assert_eq!(codec::decode_u128(&enc), Some(0x0201));
    assert_eq!(codec::decode_u128(&enc[..15]), None);
    assert_eq!(codec::decode_u128(&[]), None);
}

#[test]
fn account_decoding_takes_the_fixed_width_prefix() {
    let mut bytes = vec![7u8; 40];
    bytes[0] = 1;
    let decoded = codec::decode_account_id(&bytes).expect("32 bytes are available");
    assert_eq!(decoded[0], 1);
    assert_eq!(&decoded[1..], &[7u8; 31]);
    assert_eq!(codec::decode_account_id(&bytes[..31]), None);
}

#[test]
fn digests_match_their_published_values() {
    let mut out32 = [0u8; 32];
    ext::hash_sha2_256(&[], &mut out32);
    assert_eq!(
        out32,
        [
            0xe3, 0xb0, 0xc4, 0x42, 0x98, 0xfc, 0x1c, 0x14, 0x9a, 0xfb, 0xf4, 0xc8, 0x99, 0x6f,
            0xb9, 0x24, 0x27, 0xae, 0x41, 0xe4, 0x64, 0x9b, 0x93, 0x4c, 0xa4, 0x95, 0x99, 0x1b,
            0x78, 0x52, 0xb8, 0x55,
        ]
    );
    ext::hash_keccak_256(&[], &mut out32);
    assert_eq!(
        out32,
        [
            0xc5, 0xd2, 0x46, 0x01, 0x86, 0xf7, 0x23, 0x3c, 0x92, 0x7e, 0x7d, 0xb2, 0xdc, 0xc7,
            0x03, 0xc0, 0xe5, 0x00, 0xb6, 0x53, 0xca, 0x82, 0x27, 0x3b, 0x7b, 0xfa, 0xd8, 0x04,
            0x5d, 0x85, 0xa4, 0x70,
        ]
    );
    ext::hash_blake2_256(&[], &mut out32);
    assert_eq!(
        out32,
        [
            0x0e, 0x57, 0x51, 0xc0, 0x26, 0xe5, 0x43, 0xb2, 0xe8, 0xab, 0x2e, 0xb0, 0x60, 0x99,
            0xda, 0xa1, 0xd1, 0xe5, 0xdf, 0x47, 0x77, 0x8f, 0x77, 0x87, 0xfa, 0xab, 0x45, 0xcd,
            0xf1, 0x2f, 0xe3, 0xa8,
        ]
    );
    let mut first = [0u8; 16];
    let mut second = [0u8; 16];
    ext::hash_blake2_128(&[1, 2, 3], &mut first);
    ext::hash_blake2_128(&[1, 2, 3], &mut second);
    assert_eq!(first, second);
    ext::hash_blake2_128(&[1, 2, 4], &mut second);
    assert_ne!(first, second);
    assert_ne!(&first[..3], &[1, 2, 3][..]);
}

#[test]
fn storage_counters_track_reads_writes_and_cells() {
    let mut engine = Engine::new();
    let account = vec![5u8; 32];
    engine.set_callee(account.clone());
    engine.set_storage(&[1; 32], &[9]);
    engine.set_storage(&[2; 32], &[9]);
    let mut out = vec![0u8; 16];
    let _ = engine.get_storage(&[1; 32], &mut out);
    engine.clear_storage(&[2; 32]);
    let (reads, writes) = engine.debug_info.get_contract_storage_rw(&account);
    assert_eq!(reads, 1);
    assert_eq!(writes, 3);
    // A miss counts no read.
    let _ = engine.get_storage(&[3; 32], &mut out);
    let (reads, _) = engine.debug_info.get_contract_storage_rw(&account);
    assert_eq!(reads, 1);
}

#[test]
fn transfer_is_checked() {
    let mut engine = Engine::new();
    let alice = vec![1u8; 32];
    let bob = vec![2u8; 32];
    engine.set_callee(alice.clone());

    // The executing account has no balance slot yet.
    let val = codec::encode_u128(0);
    assert_eq!(engine.transfer(&bob, &val), Err(Error::TransferFailed));

    engine.set_balance(alice.clone(), 100);
    // More than the balance covers.
    let val = codec::encode_u128(101);
    assert_eq!(engine.transfer(&bob, &val), Err(Error::TransferFailed));
    assert_eq!(engine.get_balance(alice.clone()), Ok(100));

    // A malformed amount.
    assert_eq!(engine.transfer(&bob, &[1, 2, 3]), Err(Error::TransferFailed));

    // A transfer of zero is allowed and moves nothing.
    let val = codec::encode_u128(0);
    assert_eq!(engine.transfer(&bob, &val), Ok(()));
    assert_eq!(engine.get_balance(alice.clone()), Ok(100));
    assert_eq!(engine.get_balance(bob.clone()), Ok(0));

    // A self-transfer conserves the balance.
    let val = codec::encode_u128(60);
    assert_eq!(engine.transfer(&alice, &val), Ok(()));
    assert_eq!(engine.get_balance(alice), Ok(100));
}

#[test]
fn terminate_hands_over_the_whole_balance() {
    let mut engine = Engine::new();
    let contract = vec![1u8; 32];
    let beneficiary = vec![2u8; 32];
    engine.set_callee(contract.clone());
    engine.set_balance(contract.clone(), 500);
    let outcome = engine.terminate(&beneficiary);
    assert_eq!(outcome, Ok((500, beneficiary.clone())));
    assert_eq!(engine.get_balance(contract), Ok(0));
    assert_eq!(engine.get_balance(beneficiary), Ok(500));

    let mut engine = Engine::new();
    engine.set_callee(vec![3u8; 32]);
    assert_eq!(engine.terminate(&[4u8; 32]), Err(Error::TransferFailed));
}

#[test]
fn malformed_topic_buffers_are_rejected() {
    let mut engine = Engine::new();
    // Three bytes cannot split into two equal topics.
    let res = engine.deposit_event(&[8u8, 1, 2, 3], &[]);
    assert_eq!(res, Err(Error::MalformedTopics));
    // A count with nothing after it.
    let res = engine.deposit_event(&[8u8], &[]);
    assert_eq!(res, Err(Error::MalformedTopics));
    // A truncated count.
    let res = engine.deposit_event(&[], &[]);
    assert_eq!(res, Err(Error::MalformedTopics));
    // No topics at all is fine.
    let res = engine.deposit_event(&[0u8], &[1]);
    assert_eq!(res, Ok(()));
    assert_eq!(engine.get_emitted_events().len(), 1);
}

#[test]
fn corrupt_balance_slots_are_reported() {
    let mut engine = Engine::new();
    let account = vec![9u8; 32];
    let key = balance_of_key(&account);
    engine.set_storage(&key, &[1, 2, 3]);
    assert_eq!(
        engine.get_balance(account),
        Err(EngineError::Account(AccountError::Decoding))
    );
    assert_eq!(
        engine.get_balance(vec![10u8; 32]),
        Err(EngineError::Account(AccountError::NoAccountForId))
    );
}

#[test]
fn exec_context_resets_to_zero() {
    let mut context = ExecContext::default();
    context.caller = vec![13u8; 32];
    context.callee = vec![14u8; 32];
    context.value_transferred = 17;
    assert_eq!(context.callee(), Ok(vec![14u8; 32]));
    context.reset();
    assert_eq!(context.caller, vec![0u8; 32]);
    assert_eq!(context.callee, vec![0u8; 32]);
    assert_eq!(context.value_transferred, 0);
}

#[test]
fn typed_reads_decode_what_the_engine_wrote() {
    let mut backend = EnvInstance::new();
    let account = vec![21u8; 32];
    backend.engine.set_caller(account.clone());
    backend.engine.set_callee(account.clone());
    backend.engine.set_value_transferred(1337);
    backend.engine.set_balance(account.clone(), 99);
    assert_eq!(backend.caller(), Ok(account.clone()));
    assert_eq!(backend.account_id(), Ok(account));
    assert_eq!(backend.transferred_balance(), Ok(1337));
    assert_eq!(backend.balance(), Ok(99));

    // A caller narrower than an account identifier cannot be decoded.
    backend.engine.set_caller(vec![1u8; 10]);
    assert_eq!(backend.caller(), Err(EnvError::Decode));

    // An unfunded executing account is an off-chain failure.
    backend.engine.set_callee(vec![22u8; 32]);
    assert_eq!(backend.balance(), Err(EnvError::OffChain));
}

#[test]
fn contract_storage_goes_through_the_backend() {
    let mut backend = EnvInstance::new();
    backend.set_contract_storage(&[7; 32], &[1, 2]);
    assert_eq!(
        backend.get_contract_storage(&[7; 32]),
        Ok(Some(vec![1, 2]))
    );
    backend.clear_contract_storage(&[7; 32]);
    assert_eq!(backend.get_contract_storage(&[7; 32]), Ok(None));
}

#[test]
fn backend_transfer_and_termination_mirror_the_engine() {
    let mut backend = EnvInstance::new();
    let alice = vec![1u8; 32];
    let bob = vec![2u8; 32];
    backend.engine.set_callee(alice.clone());
    backend.engine.set_balance(alice.clone(), 1337);
    assert_eq!(backend.transfer(&bob, 337), Ok(()));
    assert_eq!(backend.engine.get_balance(alice.clone()), Ok(1000));
    assert_eq!(backend.engine.get_balance(bob.clone()), Ok(337));
    assert_eq!(
        backend.terminate_contract(&bob),
        Ok((1000, bob.clone()))
    );
    assert_eq!(backend.engine.get_balance(bob), Ok(1337));
}
