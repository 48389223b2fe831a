//! Text helpers shared by the command parser and the reply formatter:
//! Unicode whitespace, splitting into words, decimal rendering and UTF-8
//! decoding.

use vstd::prelude::*;
use vstd::utf8::*;

verus! {

/// The characters with the Unicode `White_Space` property.
pub open spec fn is_whitespace(c: char) -> bool {
    let u = c as u32;
    ||| 0x09 <= u <= 0x0D
    ||| u == 0x20
    ||| u == 0x85
    ||| u == 0xA0
    ||| u == 0x1680
    ||| 0x2000 <= u <= 0x200A
    ||| u == 0x2028
    ||| u == 0x2029
    ||| u == 0x202F
    ||| u == 0x205F
    ||| u == 0x3000
}

/// Scanning state after reading a prefix of a text: the words that are
/// already closed by a following whitespace character, and the word that is
/// still open (empty while the scanner is between words).
pub open spec fn scan_words(s: Seq<char>) -> (Seq<Seq<char>>, Seq<char>)
    decreases s.len(),
{
    if s.len() == 0 {
        (Seq::empty(), Seq::empty())
    } else {
        let (closed, open) = scan_words(s.drop_last());
        let c = s.last();
        if !is_whitespace(c) {
            (closed, open.push(c))
        } else if open.len() > 0 {
            (closed.push(open), Seq::empty())
        } else {
            (closed, open)
        }
    }
}

/// The maximal runs of non-whitespace characters of `s`, in order.
pub open spec fn split_whitespace(s: Seq<char>) -> Seq<Seq<char>> {
    let (closed, open) = scan_words(s);
    if open.len() > 0 {
        closed.push(open)
    } else {
        closed
    }
}

/// Whether `s` holds no whitespace character.
pub open spec fn no_whitespace(s: Seq<char>) -> bool {
    forall|i: int| 0 <= i < s.len() ==> !is_whitespace(#[trigger] s[i])
}

/// Every word of the scanning state is free of whitespace, and every
/// closed word has at least one character.
proof fn lemma_scan_words_shape(s: Seq<char>)
    ensures
        no_whitespace(scan_words(s).1),
        forall|i: int|
            0 <= i < scan_words(s).0.len() ==> (#[trigger] scan_words(s).0[i]).len() > 0
                && no_whitespace(scan_words(s).0[i]),
    decreases s.len(),
{
    if s.len() > 0 {
        lemma_scan_words_shape(s.drop_last());
    }
}

/// Each word has at least one character and holds no whitespace.
pub proof fn lemma_words_shape(s: Seq<char>)
    ensures
        forall|i: int|
            0 <= i < split_whitespace(s).len() ==> (#[trigger] split_whitespace(s)[i]).len() > 0
                && no_whitespace(split_whitespace(s)[i]),
{
    lemma_scan_words_shape(s);
}

/// Scanning a text after another goes on from the state that the first
/// text left.
proof fn lemma_scan_words_after_space(a: Seq<char>, c: char, b: Seq<char>)
    requires
        is_whitespace(c),
    ensures
        scan_words(a + seq![c] + b).0 == split_whitespace(a) + scan_words(b).0,
        scan_words(a + seq![c] + b).1 == scan_words(b).1,
    decreases b.len(),
{
    let whole = a + seq![c] + b;
    if b.len() == 0 {
        assert(whole.drop_last() =~= a);
        assert(whole.last() == c);
        assert(split_whitespace(a) + scan_words(b).0 =~= split_whitespace(a));
    } else {
        lemma_scan_words_after_space(a, c, b.drop_last());
        assert(whole.drop_last() =~= a + seq![c] + b.drop_last());
        assert(whole.last() == b.last());
        let before = scan_words(b.drop_last());
        if is_whitespace(b.last()) && before.1.len() > 0 {
            assert((split_whitespace(a) + before.0).push(before.1) =~= split_whitespace(a)
                + before.0.push(before.1));
        }
    }
}

/// A whitespace character parts the words before it from the words after
/// it.
pub proof fn lemma_words_around_space(a: Seq<char>, c: char, b: Seq<char>)
    requires
        is_whitespace(c),
    ensures
        split_whitespace(a + seq![c] + b) == split_whitespace(a) + split_whitespace(b),
{
    lemma_scan_words_after_space(a, c, b);
    let left = split_whitespace(a);
    let state = scan_words(b);
    if state.1.len() > 0 {
        assert((left + state.0).push(state.1) =~= left + state.0.push(state.1));
    }
}

/// A text without whitespace is scanned as one open word.
proof fn lemma_scan_one_word(s: Seq<char>)
    requires
        no_whitespace(s),
    ensures
        scan_words(s).0.len() == 0,
        scan_words(s).1 == s,
    decreases s.len(),
{
    if s.len() > 0 {
        let init = s.drop_last();
        assert forall|i: int| 0 <= i < init.len() implies !is_whitespace(#[trigger] init[i]) by {
            assert(init[i] == s[i]);
        }
        lemma_scan_one_word(init);
        assert(init.push(s.last()) =~= s);
    } else {
        assert(s =~= Seq::<char>::empty());
    }
}

/// A text without whitespace is one word, and the empty text has none.
pub proof fn lemma_one_word(s: Seq<char>)
    requires
        no_whitespace(s),
    ensures
        split_whitespace(s) == if s.len() == 0 {
            Seq::<Seq<char>>::empty()
        } else {
            seq![s]
        },
{
    lemma_scan_one_word(s);
    if s.len() > 0 {
        assert(scan_words(s).0.push(s) =~= seq![s]);
    } else {
        assert(scan_words(s).0 =~= Seq::<Seq<char>>::empty());
    }
}

/// The decimal digit `d` as a character.
pub open spec fn digit_char(d: nat) -> char
    recommends
        d < 10,
{
    if d == 0 {
        '0'
    } else if d == 1 {
        '1'
    } else if d == 2 {
        '2'
    } else if d == 3 {
        '3'
    } else if d == 4 {
        '4'
    } else if d == 5 {
        '5'
    } else if d == 6 {
        '6'
    } else if d == 7 {
        '7'
    } else if d == 8 {
        '8'
    } else {
        '9'
    }
}

/// `n` written in base ten, without leading zeros.
pub open spec fn decimal(n: nat) -> Seq<char>
    decreases n,
{
    if n < 10 {
        seq![digit_char(n)]
    } else {
        decimal(n / 10).push(digit_char(n % 10))
    }
}

/// Whether `c` is whitespace.
pub fn char_is_whitespace(c: char) -> (res: bool)
    ensures
        res == is_whitespace(c),
{
    let u: u32 = c as u32;
    (0x09 <= u && u <= 0x0D) || u == 0x20 || u == 0x85 || u == 0xA0 || u == 0x1680 || (0x2000 <= u
        && u <= 0x200A) || u == 0x2028 || u == 0x2029 || u == 0x202F || u == 0x205F || u == 0x3000
}

/// The characters of `s`, one vector element each.
pub fn chars_of(s: &str) -> (v: Vec<char>)
    ensures
        v@ == s@,
{
    let mut v: Vec<char> = Vec::new();
    for c in it: s.chars()
        invariant
            it.seq() == s@,
            v@ == it.seq().take(it.index() as int),
    {
        v.push(c);
        assert(v@ =~= it.seq().take(it.index() + 1));
    }
    assert(v@ =~= s@);
    v
}

/// The pieces of `chars` that the index ranges in `ranges` cut out.
pub open spec fn slices(chars: Seq<char>, ranges: Seq<(usize, usize)>) -> Seq<Seq<char>> {
    Seq::new(ranges.len(), |j: int| chars.subrange(ranges[j].0 as int, ranges[j].1 as int))
}

/// Whether every range in `ranges` lies inside a text of `len` characters.
pub open spec fn ranges_within(ranges: Seq<(usize, usize)>, len: nat) -> bool {
    forall|j: int| 0 <= j < ranges.len() ==> (#[trigger] ranges[j]).0 <= ranges[j].1 <= len
}

/// The words of `chars` as half-open index ranges, in order.
pub fn word_ranges(chars: &Vec<char>) -> (res: Vec<(usize, usize)>)
    ensures
        ranges_within(res@, chars@.len()),
        slices(chars@, res@) == split_whitespace(chars@),
{
    let mut res: Vec<(usize, usize)> = Vec::new();
    let mut start: usize = 0;
    let mut i: usize = 0;
    assert(slices(chars@, res@) =~= scan_words(chars@.take(0)).0);
    assert(scan_words(chars@.take(0)).1 =~= chars@.subrange(0, 0));
    while i < chars.len()
        invariant
            start <= i <= chars@.len(),
            ranges_within(res@, chars@.len()),
            slices(chars@, res@) == scan_words(chars@.take(i as int)).0,
            scan_words(chars@.take(i as int)).1 == chars@.subrange(start as int, i as int),
        decreases chars@.len() - i,
    {
        let c = chars[i];
        let ghost before = res@;
        proof {
            assert(chars@.take(i + 1).drop_last() =~= chars@.take(i as int));
            assert(chars@.take(i + 1).last() == c);
        }
        if !char_is_whitespace(c) {
            assert(chars@.subrange(start as int, i as int).push(c) =~= chars@.subrange(
                start as int,
                i + 1,
            ));
        } else if start < i {
            res.push((start, i));
            assert(slices(chars@, res@) =~= slices(chars@, before).push(
                chars@.subrange(start as int, i as int),
            ));
            start = i + 1;
            assert(chars@.subrange(start as int, i + 1) =~= Seq::<char>::empty());
        } else {
            start = i + 1;
            assert(chars@.subrange(start as int, i + 1) =~= Seq::<char>::empty());
        }
        i += 1;
    }
    assert(chars@.take(i as int) =~= chars@);
    if start < i {
        let ghost before = res@;
        res.push((start, i));
        assert(slices(chars@, res@) =~= slices(chars@, before).push(
            chars@.subrange(start as int, i as int),
        ));
    }
    res
}

/// Whether the piece of `chars` in `range` is the text `word`.
pub fn word_is(chars: &Vec<char>, range: (usize, usize), word: &str) -> (res: bool)
    requires
        range.0 <= range.1 <= chars@.len(),
    ensures
        res == (chars@.subrange(range.0 as int, range.1 as int) == word@),
{
    let ghost piece = chars@.subrange(range.0 as int, range.1 as int);
    let wanted = chars_of(word);
    if range.1 - range.0 != wanted.len() {
        return false;
    }
    let mut i: usize = 0;
    while i < wanted.len()
        invariant
            i <= wanted@.len(),
            wanted@ == word@,
            range.0 + wanted@.len() == range.1 <= chars@.len(),
            piece == chars@.subrange(range.0 as int, range.1 as int),
            forall|j: int| 0 <= j < i ==> piece[j] == wanted@[j],
        decreases wanted@.len() - i,
    {
        if chars[range.0 + i] != wanted[i] {
            assert(piece[i as int] != wanted@[i as int]);
            return false;
        }
        i += 1;
    }
    assert(piece =~= wanted@);
    true
}

/// The digit `d` as a one-character string.
fn digit_str(d: u64) -> (res: &'static str)
    requires
        d < 10,
    ensures
        res@ == seq![digit_char(d as nat)],
{
    proof {
        reveal_strlit("0");
        reveal_strlit("1");
        reveal_strlit("2");
        reveal_strlit("3");
        reveal_strlit("4");
        reveal_strlit("5");
        reveal_strlit("6");
        reveal_strlit("7");
        reveal_strlit("8");
        reveal_strlit("9");
    }
    let res = if d == 0 {
        "0"
    } else if d == 1 {
        "1"
    } else if d == 2 {
        "2"
    } else if d == 3 {
        "3"
    } else if d == 4 {
        "4"
    } else if d == 5 {
        "5"
    } else if d == 6 {
        "6"
    } else if d == 7 {
        "7"
    } else if d == 8 {
        "8"
    } else {
        "9"
    };
    assert(res@ =~= seq![digit_char(d as nat)]);
    res
}

/// Appends `n` in base ten to `out`.
pub fn push_decimal(out: &mut String, n: u64)
    ensures
        final(out)@ == old(out)@ + decimal(n as nat),
    decreases n,
{
    if n >= 10 {
        push_decimal(out, n / 10);
    }
    out.append(digit_str(n % 10));
    assert(final(out)@ =~= old(out)@ + decimal(n as nat));
}

/// `n` in base ten.
pub fn decimal_string(n: u64) -> (res: String)
    ensures
        res@ == decimal(n as nat),
{
    let mut res = String::new();
    push_decimal(&mut res, n);
    assert(res@ =~= decimal(n as nat));
    res
}

/// Decodes `bytes` as UTF-8 through `String::from_utf8`.
///
/// Not proved, but taken from the standard library: the result is the text
/// that the bytes encode, or `None` where they are not well-formed UTF-8.
#[verifier::external_body]
pub(crate) fn decode_text(bytes: &Vec<u8>) -> (res: Option<String>)
    ensures
        res is Some <==> valid_utf8(bytes@),
        res is Some ==> res.unwrap()@ == decode_utf8(bytes@),
{
    String::from_utf8(bytes.clone()).ok()
}

} // verus!
