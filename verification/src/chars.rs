//! Character classes and maximal runs over character sequences.

use vstd::prelude::*;
use vstd::std_specs::iter::IteratorSpec;
use vstd::utf8::{encode_scalar, encode_utf8};

verus! {

/// The sets of characters that the token patterns are built from.
#[derive(Clone, Copy, PartialEq, Eq, Structural, Debug)]
pub enum CharClass {
    /// A decimal digit.
    Digit,
    /// A letter of the basic Latin alphabet.
    Letter,
    /// A letter, a digit or an underscore.
    Word,
    /// White space, as Unicode defines it.
    Space,
    /// Anything but a line feed or a carriage return.
    NotLineBreak,
    /// Anything but an asterisk.
    NotStar,
    /// Anything but a double quote.
    NotQuote,
}

pub open spec fn is_digit(c: char) -> bool {
    '0' <= c <= '9'
}

pub open spec fn is_letter(c: char) -> bool {
    ('a' <= c <= 'z') || ('A' <= c <= 'Z')
}

pub open spec fn is_word(c: char) -> bool {
    is_letter(c) || is_digit(c) || c == '_'
}

/// The code points with the Unicode property `White_Space`.
pub open spec fn is_space(c: char) -> bool {
    let u = c as u32;
    ||| 0x09 <= u <= 0x0D
    ||| u == 0x20
    ||| u == 0x85
    ||| u == 0xA0
    ||| u == 0x1680
    ||| 0x2000 <= u <= 0x200A
    ||| u == 0x2028
    ||| u == 0x2029
    ||| u == 0x202F
    ||| u == 0x205F
    ||| u == 0x3000
}

pub open spec fn in_class(class: CharClass, c: char) -> bool {
    match class {
        CharClass::Digit => is_digit(c),
        CharClass::Letter => is_letter(c),
        CharClass::Word => is_word(c),
        CharClass::Space => is_space(c),
        CharClass::NotLineBreak => c != '\n' && c != '\r',
        CharClass::NotStar => c != '*',
        CharClass::NotQuote => c != '"',
    }
}

/// The length of the longest run of characters of `class` that starts at `pos`.
pub open spec fn run_len(s: Seq<char>, pos: int, class: CharClass) -> nat
    decreases s.len() - pos,
{
    if 0 <= pos < s.len() && in_class(class, s[pos]) {
        1 + run_len(s, pos + 1, class)
    } else {
        0
    }
}

/// A run stays inside the sequence, holds only characters of its class, and
/// is followed by the end of the sequence or by a character outside the class.
pub proof fn lemma_run_len(s: Seq<char>, pos: int, class: CharClass)
    requires
        0 <= pos <= s.len(),
    ensures
        pos + run_len(s, pos, class) <= s.len(),
        forall|i: int| pos <= i < pos + run_len(s, pos, class) ==> in_class(class, #[trigger] s[i]),
        pos + run_len(s, pos, class) < s.len() ==> !in_class(
            class,
            s[pos + run_len(s, pos, class)],
        ),
    decreases s.len() - pos,
{
    if pos < s.len() && in_class(class, s[pos]) {
        lemma_run_len(s, pos + 1, class);
    }
}

/// A stretch of characters of `class` that cannot be extended is the run.
pub proof fn lemma_run_len_is(s: Seq<char>, pos: int, class: CharClass, n: nat)
    requires
        0 <= pos,
        pos + n <= s.len(),
        forall|i: int| pos <= i < pos + n ==> in_class(class, #[trigger] s[i]),
        pos + n < s.len() ==> !in_class(class, s[pos + n]),
    ensures
        run_len(s, pos, class) == n,
    decreases n,
{
    if n > 0 {
        lemma_run_len_is(s, pos + 1, class, (n - 1) as nat);
    }
}

pub fn char_in_class(class: CharClass, c: char) -> (r: bool)
    ensures
        r == in_class(class, c),
{
    match class {
        CharClass::Digit => '0' <= c && c <= '9',
        CharClass::Letter => ('a' <= c && c <= 'z') || ('A' <= c && c <= 'Z'),
        CharClass::Word => ('a' <= c && c <= 'z') || ('A' <= c && c <= 'Z') || ('0' <= c && c
            <= '9') || c == '_',
        CharClass::Space => {
            let u: u32 = c as u32;
            (0x09 <= u && u <= 0x0D) || u == 0x20 || u == 0x85 || u == 0xA0 || u == 0x1680 || (
            0x2000 <= u && u <= 0x200A) || u == 0x2028 || u == 0x2029 || u == 0x202F || u
                == 0x205F || u == 0x3000
        },
        CharClass::NotLineBreak => c != '\n' && c != '\r',
        CharClass::NotStar => c != '*',
        CharClass::NotQuote => c != '"',
    }
}

/// Walks over the run of `class` that starts at `pos` and returns where it ends.
pub fn scan_run(s: &Vec<char>, pos: usize, class: CharClass) -> (end: usize)
    requires
        pos <= s.len(),
    ensures
        end == pos + run_len(s@, pos as int, class),
        end <= s.len(),
{
    let mut i: usize = pos;
    while i < s.len() && char_in_class(class, s[i])
        invariant
            pos <= i <= s.len(),
            run_len(s@, pos as int, class) == (i - pos) + run_len(s@, i as int, class),
        decreases s.len() - i,
    {
        i = i + 1;
    }
    i
}

/// The characters of a string, in order.
pub fn chars_of(text: &str) -> (v: Vec<char>)
    ensures
        v@ == text@,
{
    let mut v: Vec<char> = Vec::new();
    for c in it: text.chars()
        invariant
            it.seq() == text@,
            v@ == text@.take(it.index()),
    {
        v.push(c);
    }
    v
}

/// The number of bytes that the first `pos` characters take in UTF-8.
pub open spec fn byte_offset(s: Seq<char>, pos: int) -> nat {
    encode_utf8(s.take(pos)).len()
}

/// The UTF-8 encoding of a concatenation is the concatenation of the encodings.
pub proof fn lemma_encode_concat(a: Seq<char>, b: Seq<char>)
    ensures
        encode_utf8(a + b) == encode_utf8(a) + encode_utf8(b),
    decreases a.len(),
{
    if a.len() == 0 {
        assert(a + b == b);
    } else {
        assert((a + b).drop_first() == a.drop_first() + b);
        lemma_encode_concat(a.drop_first(), b);
    }
}

/// Byte offsets grow with the position, by the width of each character passed.
pub proof fn lemma_byte_offset_step(s: Seq<char>, pos: int)
    requires
        0 <= pos < s.len(),
    ensures
        byte_offset(s, pos + 1) == byte_offset(s, pos) + encode_scalar(s[pos] as u32).len(),
        1 <= encode_scalar(s[pos] as u32).len() <= 4,
        byte_offset(s, pos + 1) <= encode_utf8(s).len(),
{
    let c = s[pos];
    assert(s.take(pos + 1) == s.take(pos) + seq![c]);
    lemma_encode_concat(s.take(pos), seq![c]);
    assert(seq![c].drop_first() == Seq::<char>::empty());
    assert(encode_utf8(seq![c]) == encode_scalar(c as u32) + encode_utf8(Seq::<char>::empty()));
    assert(s == s.take(pos + 1) + s.skip(pos + 1));
    lemma_encode_concat(s.take(pos + 1), s.skip(pos + 1));
}

/// The number of bytes that a character takes in UTF-8.
pub fn utf8_width(c: char) -> (w: usize)
    ensures
        w == encode_scalar(c as u32).len(),
{
    let u: u32 = c as u32;
    if u <= 0x7F {
        1
    } else if u <= 0x7FF {
        2
    } else if u <= 0xFFFF {
        proof {
            vstd::utf8::char_is_scalar(c);
        }
        3
    } else {
        4
    }
}

/// The byte offset in `text` of the character at index `pos`.
pub fn byte_offset_of(s: &Vec<char>, pos: usize) -> (offset: usize)
    requires
        pos <= s.len(),
        encode_utf8(s@).len() <= usize::MAX,
    ensures
        offset == byte_offset(s@, pos as int),
{
    let mut offset: usize = 0;
    let mut i: usize = 0;
    assert(s@.take(0) == Seq::<char>::empty());
    while i < pos
        invariant
            i <= pos <= s.len(),
            offset == byte_offset(s@, i as int),
            encode_utf8(s@).len() <= usize::MAX,
        decreases pos - i,
    {
        proof {
            lemma_byte_offset_step(s@, i as int);
        }
        offset = offset + utf8_width(s[i]);
        i = i + 1;
    }
    offset
}

/// Appends the characters of `extra`.
pub fn push_chars(out: &mut Vec<char>, extra: &Vec<char>)
    ensures
        final(out)@ == old(out)@ + extra@,
{
    let mut i: usize = 0;
    while i < extra.len()
        invariant
            i <= extra.len(),
            out@ == old(out)@ + extra@.take(i as int),
        decreases extra.len() - i,
    {
        out.push(extra[i]);
        i = i + 1;
    }
}

/// Appends the characters of `extra` from index `from` up to index `to`.
pub fn push_range(out: &mut Vec<char>, extra: &Vec<char>, from: usize, to: usize)
    requires
        from <= to <= extra.len(),
    ensures
        final(out)@ == old(out)@ + extra@.subrange(from as int, to as int),
{
    let mut i: usize = from;
    while i < to
        invariant
            from <= i <= to <= extra.len(),
            out@ == old(out)@ + extra@.subrange(from as int, i as int),
        decreases to - i,
    {
        out.push(extra[i]);
        i = i + 1;
    }
}

/// `String::push` appends one character to the end of the string.
pub assume_specification[ String::push ](s: &mut String, c: char)
    ensures
        final(s)@ == old(s)@.push(c),
;

/// The string of the characters of `s` from index `from` up to index `to`.
pub fn string_of_range(s: &Vec<char>, from: usize, to: usize) -> (r: String)
    requires
        from <= to <= s.len(),
    ensures
        r@ == s@.subrange(from as int, to as int),
{
    let mut r = String::new();
    let mut i: usize = from;
    while i < to
        invariant
            from <= i <= to <= s.len(),
            r@ == s@.subrange(from as int, i as int),
        decreases to - i,
    {
        r.push(s[i]);
        i = i + 1;
    }
    r
}

/// The string of the characters of `s`.
pub fn string_of(s: &Vec<char>) -> (r: String)
    ensures
        r@ == s@,
{
    let r = string_of_range(s, 0, s.len());
    assert(s@.subrange(0, s.len() as int) == s@);
    r
}

/// Whether `text` stands in `s` at `pos`.
pub open spec fn starts_with(s: Seq<char>, pos: int, text: Seq<char>) -> bool {
    &&& 0 <= pos
    &&& pos + text.len() <= s.len()
    &&& s.subrange(pos, pos + text.len()) == text
}

pub fn has_prefix_at(s: &Vec<char>, pos: usize, text: &Vec<char>) -> (r: bool)
    requires
        pos <= s.len(),
    ensures
        r == starts_with(s@, pos as int, text@),
{
    if text.len() > s.len() - pos {
        return false;
    }
    let mut i: usize = 0;
    while i < text.len()
        invariant
            i <= text.len(),
            pos + text.len() <= s.len(),
            s@.subrange(pos as int, pos + i) == text@.take(i as int),
        decreases text.len() - i,
    {
        if s[pos + i] != text[i] {
            assert(s@.subrange(pos as int, pos + text.len())[i as int] != text@[i as int]);
            return false;
        }
        assert(s@.subrange(pos as int, pos + i + 1) == s@.subrange(pos as int, pos + i).push(
            s@[pos + i],
        ));
        assert(text@.take(i + 1) == text@.take(i as int).push(text@[i as int]));
        i = i + 1;
    }
    assert(text@.take(text.len() as int) == text@);
    true
}

} // verus!
