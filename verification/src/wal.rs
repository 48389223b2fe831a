//! The write-ahead log: its record format and the keyed read.
//!
//! A log is a sequence of records without separators. Each record is a
//! three-byte tag, `SET` or `DEL`, followed by a key and a value, each
//! written as its length in eight little-endian bytes and its bytes.

use crate::base_libs::operation::{BinKVView, Operation, OperationType, OperationView};
use vstd::bytes::{spec_u64_from_le_bytes, spec_u64_to_le_bytes, u64_from_le_bytes};
use vstd::prelude::*;
use vstd::slice::slice_subrange;
use vstd::utf8::*;

verus! {

/// Bytes of a record before the key: the tag and the key's length.
pub const KEY_OFFSET: usize = 11;

/// Bytes of a record besides its key and its value.
pub const FRAME_OVERHEAD: usize = 19;

/// A length as eight little-endian bytes.
pub open spec fn le64(n: nat) -> Seq<u8> {
    spec_u64_to_le_bytes(n as u64)
}

/// The serialized form of a key and its value.
pub open spec fn binkv_bytes(kv: BinKVView) -> Seq<u8> {
    let key = encode_utf8(kv.key);
    le64(key.len()) + key + le64(kv.value.len()) + kv.value
}

/// The key and value that `bytes` start with, if they start with the
/// serialized form of any.
pub open spec fn binkv_parsed(bytes: Seq<u8>) -> Option<BinKVView> {
    if bytes.len() < 8 {
        None
    } else {
        let key_len = spec_u64_from_le_bytes(bytes.subrange(0, 8)) as int;
        if bytes.len() - 8 < key_len || !valid_utf8(bytes.subrange(8, 8 + key_len)) || bytes.len()
            - 8 - key_len < 8 {
            None
        } else {
            let value_len = spec_u64_from_le_bytes(
                bytes.subrange(8 + key_len, 16 + key_len),
            ) as int;
            if bytes.len() - 16 - key_len < value_len {
                None
            } else {
                Some(
                    BinKVView {
                        key: decode_utf8(bytes.subrange(8, 8 + key_len)),
                        value: bytes.subrange(16 + key_len, 16 + key_len + value_len),
                    },
                )
            }
        }
    }
}

/// The ASCII bytes `SET`.
pub open spec fn set_tag() -> Seq<u8> {
    seq![0x53u8, 0x45u8, 0x54u8]
}

/// The ASCII bytes `DEL`.
pub open spec fn del_tag() -> Seq<u8> {
    seq![0x44u8, 0x45u8, 0x4Cu8]
}

/// The record that an operation adds to the log. Only `SET` and `DELETE`
/// are logged.
pub open spec fn wal_record(op: OperationView) -> Seq<u8> {
    match op.op_type {
        OperationType::SET => set_tag() + binkv_bytes(op.kv),
        OperationType::DELETE => del_tag() + binkv_bytes(op.kv),
        _ => Seq::empty(),
    }
}

/// One record of a log, cut at the lengths that it holds.
pub ghost struct Frame {
    pub tag: Seq<u8>,
    pub key: Seq<u8>,
    pub value: Seq<u8>,
}

impl Frame {
    /// Number of bytes that the record takes in the log.
    pub open spec fn len(self) -> nat {
        FRAME_OVERHEAD as nat + self.key.len() + self.value.len()
    }
}

/// The record at the start of `log`, or `None` where the log ends before
/// the record does.
pub open spec fn first_frame(log: Seq<u8>) -> Option<Frame> {
    if log.len() < KEY_OFFSET {
        None
    } else {
        let key_len = spec_u64_from_le_bytes(log.subrange(3, 11)) as int;
        if log.len() - 11 < key_len || log.len() - 11 - key_len < 8 {
            None
        } else {
            let value_len = spec_u64_from_le_bytes(
                log.subrange(11 + key_len, 19 + key_len),
            ) as int;
            if log.len() - 19 - key_len < value_len {
                None
            } else {
                Some(
                    Frame {
                        tag: log.subrange(0, 3),
                        key: log.subrange(11, 11 + key_len),
                        value: log.subrange(19 + key_len, 19 + key_len + value_len),
                    },
                )
            }
        }
    }
}

/// The value found for `key` once `frame` is read, where `candidate` was
/// the value found before: a `SET` of the key replaces it, a `DEL` of the
/// key clears it, any other record leaves it.
pub open spec fn after_frame(frame: Frame, key: Seq<char>, candidate: Option<Seq<u8>>) -> Option<
    Seq<u8>,
> {
    if frame.key != encode_utf8(key) {
        candidate
    } else if frame.tag == set_tag() {
        Some(frame.value)
    } else if frame.tag == del_tag() {
        None
    } else {
        candidate
    }
}

/// The value found for `key` after reading `log` to its end, or to its
/// first incomplete record, starting from `candidate`.
pub open spec fn wal_scan(log: Seq<u8>, key: Seq<char>, candidate: Option<Seq<u8>>) -> Option<
    Seq<u8>,
>
    decreases log.len(),
{
    match first_frame(log) {
        None => candidate,
        Some(frame) => wal_scan(log.skip(frame.len() as int), key, after_frame(frame, key, candidate)),
    }
}

/// The value that the log holds for `key`: that of the last `SET` of the
/// key, unless a `DEL` of the key follows it.
pub open spec fn wal_lookup(log: Seq<u8>, key: Seq<char>) -> Option<Seq<u8>> {
    wal_scan(log, key, None)
}

/// The error type of the serializer, `bincode::ErrorKind`. Its values are
/// passed through and never read.
#[verifier::external_type_specification]
#[verifier::external_body]
pub struct ExBincodeErrorKind(bincode::ErrorKind);

/// Serializes a key and its value through `bincode::serialize`, as a pair.
///
/// Not proved, but taken from bincode: with the options of that function
/// a string is written as its length in eight little-endian bytes followed
/// by its UTF-8 bytes, a byte vector in the same way, and a pair as its two
/// parts one after the other; values of these types do not make it fail.
#[verifier::external_body]
fn encode_kv(key: &String, value: &Vec<u8>) -> (res: Result<Vec<u8>, Box<bincode::ErrorKind>>)
    ensures
        res is Ok,
        res->Ok_0@ == binkv_bytes(BinKVView { key: key@, value: value@ }),
{
    bincode::serialize(&(key, value))
}

/// Reads a key and its value through `bincode::deserialize`, as a pair.
///
/// Not proved, but taken from bincode: it succeeds exactly where the bytes
/// start with a length in eight little-endian bytes, that many bytes of
/// well-formed UTF-8, a second length and that many bytes more, and gives
/// the text and the bytes back; what follows them is ignored.
#[verifier::external_body]
fn decode_kv(bytes: &[u8]) -> (res: Result<(String, Vec<u8>), Box<bincode::ErrorKind>>)
    ensures
        res is Ok <==> binkv_parsed(bytes@) is Some,
        res is Ok ==> binkv_parsed(bytes@) == Some(
            BinKVView { key: res->Ok_0.0@, value: res->Ok_0.1@ },
        ),
{
    bincode::deserialize::<(String, Vec<u8>)>(bytes)
}

/// The record that `operation` adds to the log: empty unless the operation
/// is a `SET` or a `DELETE`.
pub fn record_bytes(operation: &Operation) -> (res: Vec<u8>)
    ensures
        res@ == wal_record(operation@),
{
    let mut record: Vec<u8> = Vec::new();
    match operation.op_type {
        OperationType::SET => {
            record.push(0x53u8);
            record.push(0x45u8);
            record.push(0x54u8);
        },
        OperationType::DELETE => {
            record.push(0x44u8);
            record.push(0x45u8);
            record.push(0x4Cu8);
        },
        _ => {
            return record;
        },
    }
    let ghost tag = record@;
    match encode_kv(&operation.kv.key, &operation.kv.value) {
        Ok(encoded) => {
            record.extend_from_slice(encoded.as_slice());
            assert(record@ =~= tag + encoded@);
        },
        // A text and a byte vector are always serialized.
        Err(_) => {},
    }
    assert(tag =~= if operation.op_type == OperationType::SET {
        set_tag()
    } else {
        del_tag()
    });
    record
}

/// Whether the three bytes of `log` at `pos` are `a b c`.
fn tag_is(log: &Vec<u8>, pos: usize, a: u8, b: u8, c: u8) -> (res: bool)
    requires
        pos + 3 <= log@.len(),
    ensures
        res == (log@.subrange(pos as int, pos + 3) == seq![a, b, c]),
{
    let ghost tag = log@.subrange(pos as int, pos + 3);
    assert(tag[0] == log@[pos as int]);
    assert(tag[1] == log@[pos + 1]);
    assert(tag[2] == log@[pos + 2]);
    assert(log@.len() == log.len());
    let res = log[pos] == a && log[pos + 1] == b && log[pos + 2] == c;
    assert(res ==> tag =~= seq![a, b, c]);
    res
}

/// A key matches a record exactly where the record's key bytes decode to it.
proof fn lemma_key_match(bytes: Seq<u8>, key: Seq<char>)
    ensures
        (valid_utf8(bytes) && decode_utf8(bytes) == key) <==> bytes == encode_utf8(key),
{
    if valid_utf8(bytes) {
        decode_utf8_encode_utf8(bytes);
    }
    encode_utf8_valid_utf8(key);
    encode_utf8_decode_utf8(key);
}

/// Reads `log` from its start and returns the value that it holds for
/// `key`. A record that the log ends in the middle of ends the scan.
pub fn lookup(log: &Vec<u8>, key: &str) -> (res: Option<Vec<u8>>)
    ensures
        match res {
            Some(value) => wal_lookup(log@, key@) == Some(value@),
            None => wal_lookup(log@, key@) is None,
        },
{
    let wanted: String = key.to_owned();
    let mut candidate: Option<Vec<u8>> = None;
    let mut pos: usize = 0;
    assert(log@.skip(0) =~= log@);
    loop
        invariant
            pos <= log@.len(),
            wanted@ == key@,
            wal_lookup(log@, key@) == wal_scan(
                log@.skip(pos as int),
                key@,
                match candidate {
                    Some(value) => Some(value@),
                    None => None,
                },
            ),
        ensures
            match candidate {
                Some(value) => wal_lookup(log@, key@) == Some(value@),
                None => wal_lookup(log@, key@) is None,
            },
        decreases log@.len() - pos,
    {
        let ghost rest = log@.skip(pos as int);
        let left = log.len() - pos;
        if left < KEY_OFFSET {
            break ;
        }
        let key_len = u64_from_le_bytes(slice_subrange(log.as_slice(), pos + 3, pos + 11));
        assert(rest.subrange(3, 11) =~= log@.subrange(pos + 3, pos + 11));
        if ((left - KEY_OFFSET) as u64) < key_len {
            break ;
        }
        let key_len = key_len as usize;
        if left - KEY_OFFSET - key_len < 8 {
            break ;
        }
        let value_at = pos + FRAME_OVERHEAD + key_len;
        let value_len = u64_from_le_bytes(slice_subrange(log.as_slice(), value_at - 8, value_at));
        assert(rest.subrange(11 + key_len, 19 + key_len) =~= log@.subrange(
            value_at - 8,
            value_at as int,
        ));
        if ((left - FRAME_OVERHEAD - key_len) as u64) < value_len {
            break ;
        }
        let value_len = value_len as usize;
        let next = value_at + value_len;
        let ghost frame = first_frame(rest)->0;
        let ghost body = log@.subrange(pos + 3, next as int);
        proof {
            assert(frame.tag =~= log@.subrange(pos as int, pos + 3));
            assert(frame.key =~= body.subrange(8, 8 + key_len));
            assert(frame.value =~= body.subrange(16 + key_len, 16 + key_len + value_len));
            assert(body.subrange(0, 8) =~= log@.subrange(pos + 3, pos + 11));
            assert(body.subrange(8 + key_len, 16 + key_len) =~= log@.subrange(
                value_at - 8,
                value_at as int,
            ));
            assert(rest.skip(frame.len() as int) =~= log@.skip(next as int));
            lemma_key_match(frame.key, key@);
        }
        match decode_kv(slice_subrange(log.as_slice(), pos + 3, next)) {
            Ok((found, value)) => {
                if found == wanted {
                    if tag_is(log, pos, 0x53u8, 0x45u8, 0x54u8) {
                        candidate = Some(value);
                    } else if tag_is(log, pos, 0x44u8, 0x45u8, 0x4Cu8) {
                        candidate = None;
                    }
                }
            },
            // A record whose key is not UTF-8 is the record of no key.
            Err(_) => {},
        }
        pos = next;
    }
    candidate
}

/// The log after the operations `ops` were written to an empty log, in
/// order.
pub open spec fn written(ops: Seq<OperationView>) -> Seq<u8>
    decreases ops.len(),
{
    if ops.len() == 0 {
        Seq::empty()
    } else {
        written(ops.drop_last()) + wal_record(ops.last())
    }
}

/// What the last `SET` or `DELETE` of `key` among `ops` leaves under the
/// key: the value of a `SET`, nothing after a `DELETE`, and nothing where
/// no operation touched the key.
pub open spec fn last_write(ops: Seq<OperationView>, key: Seq<char>) -> Option<Seq<u8>>
    decreases ops.len(),
{
    if ops.len() == 0 {
        None
    } else {
        after_write(ops.last(), key, last_write(ops.drop_last(), key))
    }
}

/// What `op` leaves under `key`, where `candidate` was there before.
pub open spec fn after_write(op: OperationView, key: Seq<char>, candidate: Option<Seq<u8>>) -> Option<
    Seq<u8>,
> {
    if op.kv.key != key {
        candidate
    } else if op.op_type == OperationType::SET {
        Some(op.kv.value)
    } else if op.op_type == OperationType::DELETE {
        None
    } else {
        candidate
    }
}

/// Whether the lengths of the key and the value fit the eight bytes that
/// a record has for each.
pub open spec fn loggable(op: OperationView) -> bool {
    encode_utf8(op.kv.key).len() <= u64::MAX && op.kv.value.len() <= u64::MAX
}

/// Whether `log` is made of whole records.
pub open spec fn whole(log: Seq<u8>) -> bool
    decreases log.len(),
{
    log.len() == 0 || match first_frame(log) {
        None => false,
        Some(frame) => whole(log.skip(frame.len() as int)),
    }
}

/// A record, read back, is one frame with the tag, key and value that were
/// written.
proof fn lemma_record_frame(op: OperationView)
    requires
        loggable(op),
        op.op_type == OperationType::SET || op.op_type == OperationType::DELETE,
    ensures
        first_frame(wal_record(op)) == Some(
            Frame {
                tag: if op.op_type == OperationType::SET {
                    set_tag()
                } else {
                    del_tag()
                },
                key: encode_utf8(op.kv.key),
                value: op.kv.value,
            },
        ),
        wal_record(op).len() == FRAME_OVERHEAD + encode_utf8(op.kv.key).len() + op.kv.value.len(),
{
    vstd::bytes::lemma_auto_spec_u64_to_from_le_bytes();
    let record = wal_record(op);
    let key = encode_utf8(op.kv.key);
    let tag = if op.op_type == OperationType::SET {
        set_tag()
    } else {
        del_tag()
    };
    let key_len = key.len() as int;
    let value_len = op.kv.value.len() as int;
    assert(record =~= tag + le64(key.len()) + key + le64(op.kv.value.len()) + op.kv.value);
    assert(record.subrange(3, 11) =~= le64(key.len()));
    assert(record.subrange(11 + key_len, 19 + key_len) =~= le64(op.kv.value.len()));
    assert(record.subrange(0, 3) =~= tag);
    assert(record.subrange(11, 11 + key_len) =~= key);
    assert(record.subrange(19 + key_len, 19 + key_len + value_len) =~= op.kv.value);
}

/// Reading a log of whole records with one more record at its end gives
/// what that record makes of the value read from the log alone.
proof fn lemma_scan_append(
    log: Seq<u8>,
    op: OperationView,
    key: Seq<char>,
    candidate: Option<Seq<u8>>,
)
    requires
        whole(log),
        loggable(op),
    ensures
        whole(log + wal_record(op)),
        wal_scan(log + wal_record(op), key, candidate) == after_write(
            op,
            key,
            wal_scan(log, key, candidate),
        ),
    decreases log.len(),
{
    let record = wal_record(op);
    let logged = op.op_type == OperationType::SET || op.op_type == OperationType::DELETE;
    if !logged {
        assert(log + record =~= log);
    } else if log.len() == 0 {
        assert(log + record =~= record);
        lemma_record_frame(op);
        let frame = first_frame(record)->0;
        assert(record.skip(frame.len() as int) =~= Seq::<u8>::empty());
        assert(set_tag() != del_tag()) by {
            assert(set_tag()[0] != del_tag()[0]);
        }
        if frame.key == encode_utf8(key) {
            encode_utf8_decode_utf8(key);
            encode_utf8_decode_utf8(op.kv.key);
        }
        assert(whole(record.skip(frame.len() as int)));
        assert(wal_scan(Seq::<u8>::empty(), key, after_frame(frame, key, candidate))
            == after_frame(frame, key, candidate));
    } else {
        let frame = first_frame(log)->0;
        let joined = log + record;
        let key_len = frame.key.len() as int;
        let value_len = frame.value.len() as int;
        assert(joined.subrange(3, 11) =~= log.subrange(3, 11));
        assert(joined.subrange(11 + key_len, 19 + key_len) =~= log.subrange(
            11 + key_len,
            19 + key_len,
        ));
        assert(joined.subrange(0, 3) =~= log.subrange(0, 3));
        assert(joined.subrange(11, 11 + key_len) =~= log.subrange(11, 11 + key_len));
        assert(joined.subrange(19 + key_len, 19 + key_len + value_len) =~= log.subrange(
            19 + key_len,
            19 + key_len + value_len,
        ));
        assert(first_frame(joined) == Some(frame));
        assert(joined.skip(frame.len() as int) =~= log.skip(frame.len() as int) + record);
        lemma_scan_append(log.skip(frame.len() as int), op, key, after_frame(frame, key, candidate));
    }
}

/// The log written by any sequence of operations is made of whole records.
pub proof fn lemma_written_whole(ops: Seq<OperationView>)
    requires
        forall|i: int| 0 <= i < ops.len() ==> loggable(#[trigger] ops[i]),
    ensures
        whole(written(ops)),
    decreases ops.len(),
{
    if ops.len() > 0 {
        lemma_written_whole(ops.drop_last());
        lemma_scan_append(written(ops.drop_last()), ops.last(), Seq::empty(), None);
    }
}

/// A read returns the last write.
///
/// After any sequence of operations was written to an empty log, the log
/// holds for each key the value of the last `SET` of that key, nothing
/// where a `DELETE` of the key came after it, and nothing where no `SET`
/// or `DELETE` of the key was written.
pub proof fn lemma_read_last_write(ops: Seq<OperationView>, key: Seq<char>)
    requires
        forall|i: int| 0 <= i < ops.len() ==> loggable(#[trigger] ops[i]),
    ensures
        wal_lookup(written(ops), key) == last_write(ops, key),
    decreases ops.len(),
{
    if ops.len() > 0 {
        lemma_written_whole(ops.drop_last());
        lemma_read_last_write(ops.drop_last(), key);
        lemma_scan_append(written(ops.drop_last()), ops.last(), key, None);
    }
}

/// One more write to a log of whole records changes what a read returns
/// for the key of that write, and for no other key.
pub proof fn lemma_write_then_read(log: Seq<u8>, op: OperationView, key: Seq<char>)
    requires
        whole(log),
        loggable(op),
    ensures
        whole(log + wal_record(op)),
        wal_lookup(log + wal_record(op), key) == after_write(op, key, wal_lookup(log, key)),
{
    lemma_scan_append(log, op, key, None);
}

} // verus!
