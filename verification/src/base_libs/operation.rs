//! Client commands: the operation a datagram asks for, and its parser.

use crate::text::{
    chars_of, decimal, decode_text, push_decimal, slices, split_whitespace, word_is, word_ranges,
};
use vstd::prelude::*;
use vstd::utf8::*;

verus! {

/// What a client command asks for.
#[derive(Debug, Clone, Copy, PartialEq, Eq, Structural)]
pub enum OperationType {
    BAD,
    PING,
    GET,
    SET,
    DELETE,
}

/// A key with the bytes stored under it.
#[derive(Debug, PartialEq, Eq)]
pub struct BinKV {
    pub key: String,
    pub value: Vec<u8>,
}

/// A client command: its kind, its key and its value bytes.
#[derive(Debug, PartialEq, Eq)]
pub struct Operation {
    pub op_type: OperationType,
    pub kv: BinKV,
}

/// Mathematical value of a [`BinKV`].
pub ghost struct BinKVView {
    pub key: Seq<char>,
    pub value: Seq<u8>,
}

/// Mathematical value of an [`Operation`].
pub ghost struct OperationView {
    pub op_type: OperationType,
    pub kv: BinKVView,
}

impl View for BinKV {
    type V = BinKVView;

    open spec fn view(&self) -> BinKVView {
        BinKVView { key: self.key@, value: self.value@ }
    }
}

impl View for Operation {
    type V = OperationView;

    open spec fn view(&self) -> OperationView {
        OperationView { op_type: self.op_type, kv: self.kv@ }
    }
}

impl Clone for BinKV {
    fn clone(&self) -> (res: Self)
        ensures
            res@ == self@,
    {
        BinKV { key: self.key.clone(), value: self.value.clone() }
    }
}

impl Clone for Operation {
    fn clone(&self) -> (res: Self)
        ensures
            res@ == self@,
    {
        Operation { op_type: self.op_type, kv: self.kv.clone() }
    }
}

/// An operation of kind `op_type` on `key` with `value`.
pub open spec fn operation(op_type: OperationType, key: Seq<char>, value: Seq<u8>) -> OperationView {
    OperationView { op_type, kv: BinKVView { key, value } }
}

/// The command that a datagram holds.
///
/// The payload is read as UTF-8 text and split into words at whitespace.
/// `PING`, `GET key`, `SET key value` and `DEL key` give the operation of
/// that kind; `DEL` carries a single zero byte as its value. Any other text
/// with at least one word is a `BAD` operation. A payload that is not UTF-8,
/// or that holds no word, is no command at all.
pub open spec fn parse_command(payload: Seq<u8>) -> Option<OperationView> {
    if !valid_utf8(payload) {
        None
    } else {
        let words = split_whitespace(decode_utf8(payload));
        if words.len() == 0 {
            None
        } else if words.len() == 1 && words[0] == "PING"@ {
            Some(operation(OperationType::PING, Seq::empty(), Seq::empty()))
        } else if words.len() == 2 && words[0] == "GET"@ {
            Some(operation(OperationType::GET, words[1], Seq::empty()))
        } else if words.len() == 3 && words[0] == "SET"@ {
            Some(operation(OperationType::SET, words[1], encode_utf8(words[2])))
        } else if words.len() == 2 && words[0] == "DEL"@ {
            Some(operation(OperationType::DELETE, words[1], seq![0u8]))
        } else {
            Some(operation(OperationType::BAD, Seq::empty(), Seq::empty()))
        }
    }
}

impl OperationType {
    /// The token that names this kind in logs and replies: `DELETE` is
    /// written `DEL`.
    pub open spec fn token(self) -> Seq<char> {
        match self {
            OperationType::BAD => "BAD"@,
            OperationType::PING => "PING"@,
            OperationType::GET => "GET"@,
            OperationType::SET => "SET"@,
            OperationType::DELETE => "DEL"@,
        }
    }

    /// The token that names this kind.
    pub fn to_string(&self) -> (res: String)
        ensures
            res@ == self.token(),
    {
        let word = match self {
            OperationType::BAD => "BAD",
            OperationType::PING => "PING",
            OperationType::GET => "GET",
            OperationType::SET => "SET",
            OperationType::DELETE => "DEL",
        };
        word.to_owned()
    }
}

/// The bytes written as decimal numbers with `, ` between them.
pub open spec fn byte_items(bytes: Seq<u8>) -> Seq<char>
    decreases bytes.len(),
{
    if bytes.len() == 0 {
        Seq::empty()
    } else if bytes.len() == 1 {
        decimal(bytes[0] as nat)
    } else {
        byte_items(bytes.drop_last()) + ", "@ + decimal(bytes.last() as nat)
    }
}

/// The bytes written as a list in square brackets.
pub open spec fn byte_list(bytes: Seq<u8>) -> Seq<char> {
    "["@ + byte_items(bytes) + "]"@
}

impl Operation {
    /// The operation written as its kind, a colon, its key and the list of
    /// its value bytes.
    pub open spec fn rendered(&self) -> Seq<char> {
        self.op_type.token() + ": "@ + self.kv.key@ + " "@ + byte_list(self.kv.value@)
    }

    /// The operation written as its kind, a colon, its key and the list of
    /// its value bytes.
    pub fn to_string(&self) -> (res: String)
        ensures
            res@ == self.rendered(),
    {
        let mut res = self.op_type.to_string();
        res.append(": ");
        res.append(self.kv.key.as_str());
        res.append(" ");
        res.append("[");
        let ghost head = res@;
        let mut i: usize = 0;
        proof {
            reveal_strlit("");
            assert(self.kv.value@.take(0) =~= Seq::<u8>::empty());
            assert(res@ =~= head + byte_items(self.kv.value@.take(0)));
        }
        while i < self.kv.value.len()
            invariant
                i <= self.kv.value@.len(),
                res@ == head + byte_items(self.kv.value@.take(i as int)),
            decreases self.kv.value@.len() - i,
        {
            let ghost before = self.kv.value@.take(i as int);
            let ghost now = self.kv.value@.take(i + 1);
            proof {
                assert(now.drop_last() =~= before);
                assert(now.last() == self.kv.value@[i as int]);
            }
            if i > 0 {
                res.append(", ");
            }
            push_decimal(&mut res, self.kv.value[i] as u64);
            assert(res@ =~= head + byte_items(now));
            i += 1;
        }
        assert(self.kv.value@.take(i as int) =~= self.kv.value@);
        res.append("]");
        assert(res@ =~= self.rendered());
        res
    }

    /// Whether the value can be kept as text: a `SET` carries UTF-8.
    pub open spec fn well_formed(&self) -> bool {
        self.op_type == OperationType::SET ==> valid_utf8(self.kv.value@)
    }

    /// Parses the payload of a client datagram.
    pub fn parse(payload: &Vec<u8>) -> (res: Option<Self>)
        ensures
            match res {
                Some(op) => parse_command(payload@) == Some(op@) && op.well_formed(),
                None => parse_command(payload@) is None,
            },
    {
        let text = match decode_text(payload) {
            Some(text) => text,
            None => {
                return None;
            },
        };
        let chars = chars_of(text.as_str());
        let ranges = word_ranges(&chars);
        let ghost words = split_whitespace(decode_utf8(payload@));
        assert(words == slices(chars@, ranges@));
        let count = ranges.len();
        if count == 0 {
            return None;
        }
        let first = ranges[0];
        assert(words[0] == chars@.subrange(first.0 as int, first.1 as int));
        if count == 1 && word_is(&chars, first, "PING") {
            return Some(
                Operation {
                    op_type: OperationType::PING,
                    kv: BinKV { key: String::new(), value: Vec::new() },
                },
            );
        }
        if count == 2 && word_is(&chars, first, "GET") {
            let key = text.as_str().substring_char(ranges[1].0, ranges[1].1).to_owned();
            assert(key@ == words[1]);
            return Some(
                Operation { op_type: OperationType::GET, kv: BinKV { key, value: Vec::new() } },
            );
        }
        if count == 3 && word_is(&chars, first, "SET") {
            let key = text.as_str().substring_char(ranges[1].0, ranges[1].1).to_owned();
            let value = text.as_str().substring_char(ranges[2].0, ranges[2].1).as_bytes_vec();
            assert(key@ == words[1]);
            assert(value@ == encode_utf8(words[2]));
            proof {
                encode_utf8_valid_utf8(words[2]);
            }
            return Some(Operation { op_type: OperationType::SET, kv: BinKV { key, value } });
        }
        if count == 2 && word_is(&chars, first, "DEL") {
            let key = text.as_str().substring_char(ranges[1].0, ranges[1].1).to_owned();
            let mut value: Vec<u8> = Vec::new();
            value.push(0u8);
            assert(key@ == words[1]);
            assert(value@ =~= seq![0u8]);
            return Some(Operation { op_type: OperationType::DELETE, kv: BinKV { key, value } });
        }
        Some(
            Operation {
                op_type: OperationType::BAD,
                kv: BinKV { key: String::new(), value: Vec::new() },
            },
        )
    }
}

} // verus!
