//! The in-memory store of a node, and its write-ahead log.

use crate::base_libs::operation::{Operation, OperationType, OperationView};
use crate::text::decode_text;
use crate::wal::{lookup, record_bytes, wal_lookup, wal_record};
use vstd::hash_map::StringHashMap;
use vstd::prelude::*;
use vstd::utf8::*;

verus! {

/// The values that a node holds in memory, by key.
pub struct Store {
    map: StringHashMap<String>,
}

/// The text stored under `key`, or the empty text where there is none.
pub open spec fn stored(store: Map<Seq<char>, Seq<char>>, key: Seq<char>) -> Seq<char> {
    if store.contains_key(key) {
        store[key]
    } else {
        Seq::empty()
    }
}

/// The store after `op` is applied to it: a `SET` puts the value, read as
/// UTF-8, under the key, a `DELETE` takes the key out, and the other
/// operations change nothing.
pub open spec fn applied(store: Map<Seq<char>, Seq<char>>, op: OperationView) -> Map<
    Seq<char>,
    Seq<char>,
> {
    match op.op_type {
        OperationType::SET => store.insert(op.kv.key, decode_utf8(op.kv.value)),
        OperationType::DELETE => store.remove(op.kv.key),
        _ => store,
    }
}

/// The reply line that `op` gets from a store.
pub open spec fn reply(store: Map<Seq<char>, Seq<char>>, op: OperationView) -> Seq<char> {
    match op.op_type {
        OperationType::BAD => "Bad command received\n"@,
        OperationType::PING => "PONG\n"@,
        OperationType::GET => if stored(store, op.kv.key).len() == 0 {
            Seq::empty()
        } else {
            stored(store, op.kv.key) + "\n"@
        },
        OperationType::SET => "OK\n"@,
        OperationType::DELETE => "OK\n"@,
    }
}

impl View for Store {
    type V = Map<Seq<char>, Seq<char>>;

    closed spec fn view(&self) -> Map<Seq<char>, Seq<char>> {
        self.map@.map_values(|value: String| value@)
    }
}

impl Store {
    /// An empty store.
    pub fn new() -> (res: Self)
        ensures
            res@ == Map::<Seq<char>, Seq<char>>::empty(),
    {
        let res = Store { map: StringHashMap::new() };
        assert(res@ =~= Map::<Seq<char>, Seq<char>>::empty());
        res
    }

    /// Puts `value` under `key`.
    pub fn set(&mut self, key: &str, value: &str)
        ensures
            final(self)@ == old(self)@.insert(key@, value@),
    {
        self.map.insert(key.to_owned(), value.to_owned());
        assert(final(self)@ =~= old(self)@.insert(key@, value@));
    }

    /// The text under `key`, or the empty text where the key is absent.
    pub fn get(&self, key: &str) -> (res: String)
        ensures
            res@ == stored(self@, key@),
    {
        match self.map.get(key) {
            Some(value) => value.clone(),
            None => String::new(),
        }
    }

    /// Takes `key` out and returns the text that was under it, or the
    /// empty text where the key was absent.
    pub fn remove(&mut self, key: &str) -> (res: String)
        ensures
            final(self)@ == old(self)@.remove(key@),
            res@ == stored(old(self)@, key@),
    {
        let res = self.get(key);
        self.map.remove(key);
        assert(final(self)@ =~= old(self)@.remove(key@));
        res
    }

    /// Applies `request` to the store and returns its reply line.
    pub fn process_request(&mut self, request: &Operation) -> (res: String)
        requires
            request.well_formed(),
        ensures
            final(self)@ == applied(old(self)@, request@),
            res@ == reply(old(self)@, request@),
    {
        match request.op_type {
            OperationType::BAD => "Bad command received\n".to_owned(),
            OperationType::PING => "PONG\n".to_owned(),
            OperationType::GET => {
                let mut result = self.get(request.kv.key.as_str());
                if result.as_str().is_empty() {
                    String::new()
                } else {
                    result.append("\n");
                    result
                }
            },
            OperationType::SET => {
                match decode_text(&request.kv.value) {
                    Some(text) => {
                        self.set(request.kv.key.as_str(), text.as_str());
                    },
                    None => {},
                }
                "OK\n".to_owned()
            },
            OperationType::DELETE => {
                self.remove(request.kv.key.as_str());
                "OK\n".to_owned()
            },
        }
    }

    /// Adds the record of `operation_ec` to the log image `wal`, where the
    /// operation is one that is logged.
    pub fn persist_request_ec(&mut self, wal: &mut Vec<u8>, operation_ec: &Operation)
        ensures
            final(wal)@ == old(wal)@ + wal_record(operation_ec@),
            final(self)@ == old(self)@,
    {
        match operation_ec.op_type {
            OperationType::SET | OperationType::DELETE => {
                self.write_to_wal(wal, operation_ec);
            },
            _ => {
                assert(wal@ =~= old(wal)@ + wal_record(operation_ec@));
            },
        }
    }

    /// The value that the log image `wal` holds for `key`.
    pub fn get_from_wal(&self, wal: &Vec<u8>, key: &str) -> (res: Option<Vec<u8>>)
        ensures
            match res {
                Some(value) => wal_lookup(wal@, key@) == Some(value@),
                None => wal_lookup(wal@, key@) is None,
            },
    {
        lookup(wal, key)
    }

    /// Adds the record of `operation_ec` to the end of the log image `wal`.
    /// Only a `SET` or a `DELETE` has a record.
    pub fn write_to_wal(&self, wal: &mut Vec<u8>, operation_ec: &Operation)
        ensures
            final(wal)@ == old(wal)@ + wal_record(operation_ec@),
    {
        let record = record_bytes(operation_ec);
        wal.extend_from_slice(record.as_slice());
        assert(final(wal)@ =~= old(wal)@ + wal_record(operation_ec@));
    }
}

} // verus!
