//! The commands of the plain key-value protocol: `GET`, `SET` and `REMOVE`.

use crate::text::{chars_of, decode_text, slices, split_whitespace, word_is, word_ranges};
use vstd::prelude::*;
use vstd::utf8::*;

verus! {

/// What a request asks for.
#[derive(Debug, Clone, Copy, PartialEq, Eq, Structural)]
pub enum RequestType {
    BAD,
    GET,
    SET,
    REMOVE,
}

/// A request: its kind, its key and its value.
#[derive(Debug, PartialEq, Eq)]
pub struct Request {
    pub reqtype: RequestType,
    pub key: String,
    pub val: String,
}

/// Mathematical value of a [`Request`].
pub ghost struct RequestView {
    pub reqtype: RequestType,
    pub key: Seq<char>,
    pub val: Seq<char>,
}

impl View for Request {
    type V = RequestView;

    open spec fn view(&self) -> RequestView {
        RequestView { reqtype: self.reqtype, key: self.key@, val: self.val@ }
    }
}

/// The request that a payload holds.
///
/// The payload is read as UTF-8 text and split into words at whitespace.
/// `GET key`, `SET key value` and `REMOVE key` give the request of that
/// kind. Any other text with at least one word is a `BAD` request. A
/// payload that is not UTF-8, or that holds no word, is no request at all.
pub open spec fn parse_request(payload: Seq<u8>) -> Option<RequestView> {
    if !valid_utf8(payload) {
        None
    } else {
        let words = split_whitespace(decode_utf8(payload));
        if words.len() == 0 {
            None
        } else if words.len() == 2 && words[0] == "GET"@ {
            Some(RequestView { reqtype: RequestType::GET, key: words[1], val: Seq::empty() })
        } else if words.len() == 3 && words[0] == "SET"@ {
            Some(RequestView { reqtype: RequestType::SET, key: words[1], val: words[2] })
        } else if words.len() == 2 && words[0] == "REMOVE"@ {
            Some(RequestView { reqtype: RequestType::REMOVE, key: words[1], val: Seq::empty() })
        } else {
            Some(RequestView { reqtype: RequestType::BAD, key: Seq::empty(), val: Seq::empty() })
        }
    }
}

impl RequestType {
    /// The word that names this kind.
    pub open spec fn token(self) -> Seq<char> {
        match self {
            RequestType::BAD => "BAD"@,
            RequestType::GET => "GET"@,
            RequestType::SET => "SET"@,
            RequestType::REMOVE => "REMOVE"@,
        }
    }

    /// The word that names this kind.
    pub fn to_string(&self) -> (res: String)
        ensures
            res@ == self.token(),
    {
        match self {
            RequestType::BAD => "BAD".to_owned(),
            RequestType::GET => "GET".to_owned(),
            RequestType::SET => "SET".to_owned(),
            RequestType::REMOVE => "REMOVE".to_owned(),
        }
    }
}

impl Request {
    /// The request written as its kind, a colon, its key and its value.
    pub open spec fn rendered(&self) -> Seq<char> {
        self.reqtype.token() + ": "@ + self.key@ + " "@ + self.val@
    }

    /// Parses a payload.
    pub fn parse(payload: &Vec<u8>) -> (res: Option<Self>)
        ensures
            match res {
                Some(request) => parse_request(payload@) == Some(request@),
                None => parse_request(payload@) is None,
            },
    {
        let text = match decode_text(payload) {
            Some(text) => text,
            None => {
                return None;
            },
        };
        let chars = chars_of(text.as_str());
        let ranges = word_ranges(&chars);
        let ghost words = split_whitespace(decode_utf8(payload@));
        assert(words == slices(chars@, ranges@));
        let count = ranges.len();
        if count == 0 {
            return None;
        }
        let first = ranges[0];
        assert(words[0] == chars@.subrange(first.0 as int, first.1 as int));
        if count == 2 && word_is(&chars, first, "GET") {
            let key = text.as_str().substring_char(ranges[1].0, ranges[1].1).to_owned();
            assert(key@ == words[1]);
            return Some(Request { reqtype: RequestType::GET, key, val: String::new() });
        }
        if count == 3 && word_is(&chars, first, "SET") {
            let key = text.as_str().substring_char(ranges[1].0, ranges[1].1).to_owned();
            let val = text.as_str().substring_char(ranges[2].0, ranges[2].1).to_owned();
            assert(key@ == words[1]);
            assert(val@ == words[2]);
            return Some(Request { reqtype: RequestType::SET, key, val });
        }
        if count == 2 && word_is(&chars, first, "REMOVE") {
            let key = text.as_str().substring_char(ranges[1].0, ranges[1].1).to_owned();
            assert(key@ == words[1]);
            return Some(Request { reqtype: RequestType::REMOVE, key, val: String::new() });
        }
        Some(Request { reqtype: RequestType::BAD, key: String::new(), val: String::new() })
    }

    /// The request written as its kind, a colon, its key and its value.
    pub fn to_string(&self) -> (res: String)
        ensures
            res@ == self.rendered(),
    {
        let mut res = self.reqtype.to_string();
        res.append(": ");
        res.append(self.key.as_str());
        res.append(" ");
        res.append(self.val.as_str());
        res
    }
}

} // verus!
