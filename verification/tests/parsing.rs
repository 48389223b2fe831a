use ec_kv_store::base_libs::address::Address;
use ec_kv_store::base_libs::operation::{Operation, OperationType};
use ec_kv_store::base_libs::paxos::{format_response, PaxosState};
use ec_kv_store::base_libs::request::{Request, RequestType};
use ec_kv_store::text::{char_is_whitespace, chars_of, decimal_string, word_is, word_ranges};

fn parse(text: &str) -> Option<Operation> {
    Operation::parse(&text.as_bytes().to_vec())
}

#[test]
fn parse_ping() {
    let op = parse("PING").unwrap();
    assert_eq!(op.op_type, OperationType::PING);
    assert_eq!(op.kv.key, "");
    assert!(op.kv.value.is_empty());
}

#[test]
fn parse_get() {
    let op = parse("GET foo").unwrap();
    assert_eq!(op.op_type, OperationType::GET);
    assert_eq!(op.kv.key, "foo");
    assert!(op.kv.value.is_empty());
}

#[test]
fn parse_set() {
    let op = parse("SET foo hello").unwrap();
    assert_eq!(op.op_type, OperationType::SET);
    assert_eq!(op.kv.key, "foo");
    assert_eq!(op.kv.value, b"hello".to_vec());
}

#[test]
fn parse_del_carries_one_zero_byte() {
    let op = parse("DEL foo").unwrap();
    assert_eq!(op.op_type, OperationType::DELETE);
    assert_eq!(op.kv.key, "foo");
    assert_eq!(op.kv.value, vec![0u8]);
}

#[test]
fn parse_unknown_command_is_bad() {
    for text in ["HELLO", "GET", "GET a b", "SET a", "SET a b c", "DEL", "PING now", "ping", "DELETE k"] {
        let op = parse(text).unwrap();
        assert_eq!(op.op_type, OperationType::BAD, "{}", text);
        assert_eq!(op.kv.key, "");
        assert!(op.kv.value.is_empty());
    }
}

#[test]
fn parse_ignores_surrounding_whitespace() {
    let op = parse("  \t SET   key \n value \r\n").unwrap();
    assert_eq!(op.op_type, OperationType::SET);
    assert_eq!(op.kv.key, "key");
    assert_eq!(op.kv.value, b"value".to_vec());
}

#[test]
fn parse_splits_at_unicode_whitespace() {
    let op = parse("GET\u{3000}k\u{a0}").unwrap();
    assert_eq!(op.op_type, OperationType::GET);
    assert_eq!(op.kv.key, "k");
}

#[test]
fn parse_keeps_non_ascii_text() {
    let op = parse("SET clé värde").unwrap();
    assert_eq!(op.kv.key, "clé");
    assert_eq!(op.kv.value, "värde".as_bytes().to_vec());
}

#[test]
fn parse_empty_payload_is_none() {
    assert!(parse("").is_none());
    assert!(parse("   \n\t").is_none());
}

#[test]
fn parse_invalid_utf8_is_none() {
    assert!(Operation::parse(&vec![0x47, 0x45, 0x54, 0x20, 0xff, 0xfe]).is_none());
    assert!(Operation::parse(&vec![0xc3]).is_none());
}

#[test]
fn operation_type_tokens() {
    assert_eq!(OperationType::BAD.to_string(), "BAD");
    assert_eq!(OperationType::PING.to_string(), "PING");
    assert_eq!(OperationType::GET.to_string(), "GET");
    assert_eq!(OperationType::SET.to_string(), "SET");
    assert_eq!(OperationType::DELETE.to_string(), "DEL");
}

#[test]
fn request_parse_cases() {
    let get = Request::parse(&b"GET k".to_vec()).unwrap();
    assert_eq!(get.reqtype, RequestType::GET);
    assert_eq!(get.key, "k");
    assert_eq!(get.val, "");
    let set = Request::parse(&b" SET k v ".to_vec()).unwrap();
    assert_eq!(set.reqtype, RequestType::SET);
    assert_eq!(set.key, "k");
    assert_eq!(set.val, "v");
    let remove = Request::parse(&b"REMOVE k".to_vec()).unwrap();
    assert_eq!(remove.reqtype, RequestType::REMOVE);
    assert_eq!(remove.key, "k");
    assert_eq!(remove.val, "");
    let bad = Request::parse(&b"DEL k".to_vec()).unwrap();
    assert_eq!(bad.reqtype, RequestType::BAD);
    assert_eq!(bad.key, "");
    assert!(Request::parse(&b"".to_vec()).is_none());
    assert!(Request::parse(&vec![0xff]).is_none());
}

#[test]
fn request_rendering() {
    let set = Request::parse(&b"SET k v".to_vec()).unwrap();
    assert_eq!(set.to_string(), "SET: k v");
    assert_eq!(RequestType::REMOVE.to_string(), "REMOVE");
    assert_eq!(RequestType::BAD.to_string(), "BAD");
    assert_eq!(RequestType::GET.to_string(), "GET");
}

#[test]
fn whitespace_agrees_with_std() {
    let mut code: u32 = 0;
    while code <= 0x3100 {
        if let Some(c) = char::from_u32(code) {
            assert_eq!(char_is_whitespace(c), c.is_whitespace(), "U+{:04X}", code);
        }
        code += 1;
    }
    assert!(!char_is_whitespace('\u{10FFFF}'));
}

#[test]
fn word_ranges_of_text() {
    let chars = chars_of(" ab  c\u{2003}déf ");
    assert_eq!(chars.len(), 11);
    assert_eq!(word_ranges(&chars), vec![(1, 3), (5, 6), (7, 10)]);
    assert!(word_ranges(&chars_of("")).is_empty());
    assert_eq!(word_ranges(&chars_of("x")), vec![(0, 1)]);
    assert!(word_is(&chars, (1, 3), "ab"));
    assert!(!word_is(&chars, (1, 3), "ac"));
    assert!(!word_is(&chars, (1, 3), "abc"));
    assert!(word_is(&chars, (7, 10), "déf"));
}

#[test]
fn decimal_rendering() {
    assert_eq!(decimal_string(0), "0");
    assert_eq!(decimal_string(7), "7");
    assert_eq!(decimal_string(10), "10");
    assert_eq!(decimal_string(65535), "65535");
    assert_eq!(decimal_string(u64::MAX), "18446744073709551615");
}

#[test]
fn address_rendering_and_equality() {
    let a = Address::new("127.0.0.1", 8080);
    assert_eq!(a.ip, "127.0.0.1");
    assert_eq!(a.port, 8080);
    assert_eq!(a.to_string(), "127.0.0.1:8080");
    assert_eq!(Address::new("10.0.0.2", 0).to_string(), "10.0.0.2:0");
    assert!(a == Address::new("127.0.0.1", 8080));
    assert!(a != Address::new("127.0.0.1", 8081));
    assert!(a != Address::new("127.0.0.2", 8080));
    let b = a.clone();
    assert!(a == b);
}

#[test]
fn response_has_three_lines() {
    assert_eq!(
        format_response(12, "Request is handled by leader", "PONG\n"),
        "Request ID: 12\nMessage: Request is handled by leader\nReply: PONG\n."
    );
    assert_eq!(format_response(0, "", ""), "Request ID: 0\nMessage: \nReply: .");
}

#[test]
fn role_names() {
    assert_eq!(PaxosState::Leader.to_string(), "Leader");
    assert_eq!(PaxosState::Follower.to_string(), "Follower");
}

#[test]
fn operation_rendering() {
    let set = parse("SET k hi").unwrap();
    assert_eq!(set.to_string(), "SET: k [104, 105]");
    let del = parse("DEL k").unwrap();
    assert_eq!(del.to_string(), "DEL: k [0]");
    let get = parse("GET key").unwrap();
    assert_eq!(get.to_string(), "GET: key []");
    let ping = parse("PING").unwrap();
    assert_eq!(ping.to_string(), "PING:  []");
    let cloned = set.clone();
    assert_eq!(cloned, set);
}
