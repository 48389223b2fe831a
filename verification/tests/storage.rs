use ec_kv_store::base_libs::operation::{BinKV, Operation, OperationType};
use ec_kv_store::classes::store::Store;
use ec_kv_store::wal::{lookup, record_bytes};

fn op(op_type: OperationType, key: &str, value: &[u8]) -> Operation {
    Operation { op_type, kv: BinKV { key: key.to_string(), value: value.to_vec() } }
}

fn record(tag: &[u8], key: &[u8], value: &[u8]) -> Vec<u8> {
    let mut bytes = tag.to_vec();
    bytes.extend_from_slice(&(key.len() as u64).to_le_bytes());
    bytes.extend_from_slice(key);
    bytes.extend_from_slice(&(value.len() as u64).to_le_bytes());
    bytes.extend_from_slice(value);
    bytes
}

#[test]
fn record_layout_of_set() {
    let bytes = record_bytes(&op(OperationType::SET, "foo", b"hello"));
    assert_eq!(
        bytes,
        vec![
            b'S', b'E', b'T', 3, 0, 0, 0, 0, 0, 0, 0, b'f', b'o', b'o', 5, 0, 0, 0, 0, 0, 0, 0,
            b'h', b'e', b'l', b'l', b'o',
        ]
    );
}

#[test]
fn record_layout_of_delete() {
    let bytes = record_bytes(&op(OperationType::DELETE, "k", &[0]));
    assert_eq!(
        bytes,
        vec![b'D', b'E', b'L', 1, 0, 0, 0, 0, 0, 0, 0, b'k', 1, 0, 0, 0, 0, 0, 0, 0, 0]
    );
}

#[test]
fn record_of_non_ascii_key() {
    let bytes = record_bytes(&op(OperationType::SET, "é", b""));
    assert_eq!(bytes, record(b"SET", "é".as_bytes(), b""));
    assert_eq!(bytes.len(), 3 + 8 + 2 + 8);
}

#[test]
fn no_record_for_reads() {
    assert!(record_bytes(&op(OperationType::GET, "k", b"")).is_empty());
    assert!(record_bytes(&op(OperationType::PING, "", b"")).is_empty());
    assert!(record_bytes(&op(OperationType::BAD, "", b"")).is_empty());
}

#[test]
fn lookup_in_empty_log() {
    assert_eq!(lookup(&Vec::new(), "k"), None);
}

#[test]
fn lookup_returns_last_set() {
    let store = Store::new();
    let mut wal = Vec::new();
    store.write_to_wal(&mut wal, &op(OperationType::SET, "a", b"1"));
    store.write_to_wal(&mut wal, &op(OperationType::SET, "b", b"2"));
    store.write_to_wal(&mut wal, &op(OperationType::SET, "a", b"345"));
    assert_eq!(store.get_from_wal(&wal, "a"), Some(b"345".to_vec()));
    assert_eq!(store.get_from_wal(&wal, "b"), Some(b"2".to_vec()));
    assert_eq!(store.get_from_wal(&wal, "c"), None);
}

#[test]
fn lookup_after_delete_is_none() {
    let store = Store::new();
    let mut wal = Vec::new();
    store.write_to_wal(&mut wal, &op(OperationType::SET, "a", b"1"));
    store.write_to_wal(&mut wal, &op(OperationType::SET, "b", b"2"));
    store.write_to_wal(&mut wal, &op(OperationType::DELETE, "a", &[0]));
    assert_eq!(store.get_from_wal(&wal, "a"), None);
    assert_eq!(store.get_from_wal(&wal, "b"), Some(b"2".to_vec()));
    store.write_to_wal(&mut wal, &op(OperationType::SET, "a", b"again"));
    assert_eq!(store.get_from_wal(&wal, "a"), Some(b"again".to_vec()));
}

#[test]
fn lookup_follows_any_interleaving() {
    let keys = ["a", "b", "c"];
    let mut wal = Vec::new();
    let mut model: Vec<Option<Vec<u8>>> = vec![None, None, None];
    let store = Store::new();
    let mut seed: u32 = 12345;
    for step in 0..200u32 {
        seed = seed.wrapping_mul(1103515245).wrapping_add(12345);
        let which = ((seed >> 16) % 3) as usize;
        let kind = (seed >> 8) % 4;
        if kind == 0 {
            store.write_to_wal(&mut wal, &op(OperationType::DELETE, keys[which], &[0]));
            model[which] = None;
        } else if kind == 1 {
            store.write_to_wal(&mut wal, &op(OperationType::GET, keys[which], b""));
        } else {
            let value = step.to_le_bytes().to_vec();
            store.write_to_wal(&mut wal, &op(OperationType::SET, keys[which], &value));
            model[which] = Some(value);
        }
        for i in 0..3 {
            assert_eq!(store.get_from_wal(&wal, keys[i]), model[i]);
        }
    }
}

#[test]
fn write_appends_to_the_log() {
    let store = Store::new();
    let mut wal = vec![1u8, 2, 3];
    store.write_to_wal(&mut wal, &op(OperationType::SET, "k", b"v"));
    let mut expected = vec![1u8, 2, 3];
    expected.extend_from_slice(&record(b"SET", b"k", b"v"));
    assert_eq!(wal, expected);
    store.write_to_wal(&mut wal, &op(OperationType::PING, "", b""));
    assert_eq!(wal, expected);
}

#[test]
fn persist_logs_only_writes() {
    let mut store = Store::new();
    let mut wal = Vec::new();
    store.persist_request_ec(&mut wal, &op(OperationType::GET, "k", b""));
    store.persist_request_ec(&mut wal, &op(OperationType::BAD, "", b""));
    assert!(wal.is_empty());
    store.persist_request_ec(&mut wal, &op(OperationType::SET, "k", b"v"));
    assert_eq!(wal, record(b"SET", b"k", b"v"));
    store.persist_request_ec(&mut wal, &op(OperationType::DELETE, "k", &[0]));
    assert_eq!(wal.len(), 2 * (3 + 8 + 1 + 8 + 1));
    assert_eq!(store.get("k"), "");
}

#[test]
fn partial_trailing_record_ends_the_scan() {
    let mut wal = record(b"SET", b"k", b"v");
    let second = record(b"SET", b"k", b"longer");
    for cut in 0..second.len() {
        let mut log = wal.clone();
        log.extend_from_slice(&second[..cut]);
        assert_eq!(lookup(&log, "k"), Some(b"v".to_vec()), "cut at {}", cut);
    }
    wal.extend_from_slice(&second);
    assert_eq!(lookup(&wal, "k"), Some(b"longer".to_vec()));
}

#[test]
fn oversized_length_ends_the_scan() {
    let mut wal = record(b"SET", b"k", b"v");
    wal.extend_from_slice(b"SET");
    wal.extend_from_slice(&u64::MAX.to_le_bytes());
    wal.extend_from_slice(&[0u8; 40]);
    assert_eq!(lookup(&wal, "k"), Some(b"v".to_vec()));
}

#[test]
fn unknown_tag_is_skipped() {
    let mut wal = record(b"SET", b"k", b"v");
    wal.extend_from_slice(&record(b"XYZ", b"k", b"w"));
    assert_eq!(lookup(&wal, "k"), Some(b"v".to_vec()));
    wal.extend_from_slice(&record(b"DEL", b"k", &[0]));
    assert_eq!(lookup(&wal, "k"), None);
}

#[test]
fn record_with_undecodable_key_is_skipped() {
    let mut wal = record(b"SET", b"k", b"v");
    wal.extend_from_slice(&record(b"SET", &[0xff, 0xfe], b"w"));
    wal.extend_from_slice(&record(b"SET", b"j", b"x"));
    assert_eq!(lookup(&wal, "k"), Some(b"v".to_vec()));
    assert_eq!(lookup(&wal, "j"), Some(b"x".to_vec()));
}

#[test]
fn key_is_matched_whole() {
    let wal = record(b"SET", b"key", b"v");
    assert_eq!(lookup(&wal, "ke"), None);
    assert_eq!(lookup(&wal, "keyy"), None);
    assert_eq!(lookup(&wal, ""), None);
    assert_eq!(lookup(&wal, "key"), Some(b"v".to_vec()));
}

#[test]
fn store_set_get_remove() {
    let mut store = Store::new();
    assert_eq!(store.get("a"), "");
    store.set("a", "1");
    store.set("b", "2");
    assert_eq!(store.get("a"), "1");
    store.set("a", "3");
    assert_eq!(store.get("a"), "3");
    assert_eq!(store.remove("a"), "3");
    assert_eq!(store.get("a"), "");
    assert_eq!(store.remove("a"), "");
    assert_eq!(store.get("b"), "2");
}

#[test]
fn process_request_replies() {
    let mut store = Store::new();
    assert_eq!(store.process_request(&op(OperationType::BAD, "", b"")), "Bad command received\n");
    assert_eq!(store.process_request(&op(OperationType::PING, "", b"")), "PONG\n");
    assert_eq!(store.process_request(&op(OperationType::GET, "foo", b"")), "");
    assert_eq!(store.process_request(&op(OperationType::SET, "foo", b"hello")), "OK\n");
    assert_eq!(store.process_request(&op(OperationType::GET, "foo", b"")), "hello\n");
    assert_eq!(store.get("foo"), "hello");
    assert_eq!(store.process_request(&op(OperationType::DELETE, "foo", &[0])), "OK\n");
    assert_eq!(store.process_request(&op(OperationType::GET, "foo", b"")), "");
    assert_eq!(store.process_request(&op(OperationType::DELETE, "foo", &[0])), "OK\n");
}

#[test]
fn process_request_keeps_non_ascii_values() {
    let mut store = Store::new();
    store.process_request(&op(OperationType::SET, "k", "värde".as_bytes()));
    assert_eq!(store.get("k"), "värde");
    assert_eq!(store.process_request(&op(OperationType::GET, "k", b"")), "värde\n");
}

#[test]
fn empty_value_reads_as_absent() {
    let mut store = Store::new();
    store.set("k", "");
    assert_eq!(store.process_request(&op(OperationType::GET, "k", b"")), "");
}
