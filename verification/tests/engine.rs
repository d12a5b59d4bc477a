use ink_engine::ext::{Engine, Error};
use ink_engine::storage::Storage;

const BUFFER_SIZE: usize = 1024;

fn get_buffer() -> Vec<u8> {
    vec![0; BUFFER_SIZE]
}

#[test]
fn basic_operations() {
    let mut storage = Storage::new();
    let key1 = vec![42];
    let key2 = vec![43];
    let val1 = vec![44];
    let val2 = vec![45];
    let val3 = vec![46];

    assert_eq!(storage.len(), 0);
    assert_eq!(storage.get(&key1), None);
    assert_eq!(storage.insert(key1.clone(), val1.clone()), None);
    assert_eq!(storage.get(&key1), Some(&val1));
    assert_eq!(
        storage.insert(key1.clone(), val2.clone()),
        Some(val1.clone())
    );
    assert_eq!(storage.get(&key1), Some(&val2));
    assert_eq!(storage.insert(key2.clone(), val3.clone()), None);
    assert_eq!(storage.len(), 2);
    assert_eq!(storage.remove(&key2), Some(val3));
    assert_eq!(storage.len(), 1);
    storage.clear();
    assert_eq!(storage.len(), 0);
}

#[test]
fn store_load_clear() {
    let mut engine = Engine::new();
    let key = &[0x42; 32][..];
    let output = &mut get_buffer();
    let res = engine.get_storage(key, output);
    assert_eq!(res, Err(Error::KeyNotFound));

    engine.set_storage(&key, &[0x05_u8; 5]);
    let res = engine.get_storage(&key, output);
    assert_eq!(res, Ok(()),);
    assert_eq!(output[..5], [0x05; 5]);

    engine.clear_storage(&key);
    let res = engine.get_storage(key, output);
    assert_eq!(res, Err(Error::KeyNotFound));
}

#[test]
fn setting_getting_balance() {
    // given
    let mut engine = Engine::new();
    let account_id = vec![1; 32];
    let balance = 1337;
    engine.set_callee(account_id.clone());
    engine.set_balance(account_id, balance);

    // when
    let mut output = get_buffer();
    engine.balance(&mut output);

    // then
    let output = <u128 as parity_scale_codec::Decode>::decode(&mut &output[..16])
        .expect("decoding balance failed");
    assert_eq!(output, balance);
}

#[test]
fn setting_getting_caller() {
    // given
    let mut engine = Engine::new();
    let account_id = vec![1; 32];

    // when
    engine.set_caller(account_id.clone());

    // then
    let mut output = get_buffer();
    engine.caller(&mut output);
    assert_eq!(&output[..account_id.len()], &account_id);
}

#[test]
fn address() {
    // given
    let mut engine = Engine::new();
    let account_id = vec![1; 32];
    engine.set_callee(account_id.clone());

    // when
    let mut output = get_buffer();
    engine.address(&mut output);

    // then
    assert_eq!(&output[..account_id.len()], &account_id);
}

#[test]
fn transfer() {
    // given
    let mut engine = Engine::new();
    let alice = vec![1; 32];
    let bob = vec![2; 32];
    engine.set_callee(alice.clone());
    engine.set_balance(alice.clone(), 1337);

    // when
    let val = parity_scale_codec::Encode::encode(&337u128);
    assert_eq!(engine.transfer(&bob, &val), Ok(()));

    // then
    assert_eq!(engine.get_balance(alice), Ok(1000));
    assert_eq!(engine.get_balance(bob), Ok(337));
}

#[test]
fn printlns() {
    let mut engine = Engine::new();
    engine.println("foobar");
    let recorded = engine.get_recorded_printlns();
    assert_eq!(recorded.get(0), Some(&"foobar".to_string()));
    assert_eq!(recorded.get(1), None);
}

#[test]
fn events() {
    // given
    let mut engine = Engine::new();
    let topics_count: parity_scale_codec::Compact<u32> = parity_scale_codec::Compact(2u32);
    let mut enc_topics_count = parity_scale_codec::Encode::encode(&topics_count);
    let topic1 = vec![12u8, 13];
    let topic2 = vec![14u8, 15];
    let data = &vec![21, 22, 23];

    // when
    let mut enc_topics_info: Vec<u8> = Vec::new();
    enc_topics_info.append(&mut enc_topics_count);
    enc_topics_info.append(&mut topic1.clone());
    enc_topics_info.append(&mut topic2.clone());
    let res = engine.deposit_event(&enc_topics_info, data);
    assert_eq!(res, Ok(()));

    // then
    let events = engine.get_emitted_events();
    assert_eq!(events.len(), 1);

    let event = events.get(0).expect("event must exist");
    assert_eq!(event.topics.len(), 2);
    assert_eq!(
        event.topics.get(0).expect("first topic must exist"),
        &topic1
    );
    assert_eq!(
        event.topics.get(1).expect("second topic must exist"),
        &topic2
    );
    assert_eq!(&event.data, data);
}

#[test]
fn value_transferred() {
    // given
    let mut engine = Engine::new();
    let value = 1337;
    engine.set_value_transferred(value);

    // when
    let output = &mut get_buffer();
    engine.value_transferred(output);

    // then
    let output = <u128 as parity_scale_codec::Decode>::decode(&mut &output[..16])
        .expect("decoding value transferred failed");
    assert_eq!(output, value);
}
