//! Text between bytes and strings, and decimal numbers.
//!
//! The model of a `String` of the syntax tree is the sequence of its UTF-8
//! bytes: the parsers cut it out of the input, and the printers write it.

use vstd::prelude::*;
use vstd::slice::{slice_subrange, slice_to_vec};
use vstd::string::StringExecFns;
use vstd::utf8::{encode_utf8, valid_utf8};
use crate::error::{failure, ParseError, Violation};
use crate::error::{syntax, ErrorKind};
use crate::scan::{
    byte_at, digits1, is_byte_at, is_digit, lemma_run_end_props, lit, run_end, until_quote,
    ByteClass,
};

verus! {

/// The bytes of `s` from `start` to `end`, if they are valid UTF-8.
pub open spec fn spec_capture(s: Seq<u8>, start: int, end: int) -> Result<Seq<u8>, ParseError> {
    if valid_utf8(s.subrange(start, end)) {
        Ok(s.subrange(start, end))
    } else {
        Err(failure(Violation::InvalidUtf8, start))
    }
}

/// `String::from_utf8`: gives the string whose UTF-8 encoding the bytes
/// are, and fails if they are no valid encoding.
#[verifier::external_body]
fn string_from_utf8(bytes: Vec<u8>) -> (r: Option<String>)
    ensures
        r is Some <==> valid_utf8(bytes@),
        r is Some ==> encode_utf8(r->0@) == bytes@,
{
    match String::from_utf8(bytes) {
        Ok(s) => Some(s),
        Err(_) => None,
    }
}

/// The text that stands in `buf` from `start` to `end`.
pub fn capture(buf: &[u8], start: usize, end: usize) -> (r: Result<String, ParseError>)
    requires
        start <= end <= buf.len(),
    ensures
        match spec_capture(buf@, start as int, end as int) {
            Ok(t) => r is Ok && encode_utf8(r->Ok_0@) == t,
            Err(e) => r is Err && r->Err_0 == e,
        },
{
    let bytes = slice_to_vec(slice_subrange(buf, start, end));
    match string_from_utf8(bytes) {
        Some(s) => Ok(s),
        None => Err(ParseError::Failure { violation: Violation::InvalidUtf8, position: start }),
    }
}

/// The encoding of a concatenation is the concatenation of the encodings.
pub proof fn lemma_encode_concat(a: Seq<char>, b: Seq<char>)
    ensures
        encode_utf8(a + b) == encode_utf8(a) + encode_utf8(b),
    decreases a.len(),
{
    if a.len() == 0 {
        assert(a + b =~= b);
        assert(encode_utf8(a) + encode_utf8(b) =~= encode_utf8(b));
    } else {
        assert((a + b).drop_first() =~= a.drop_first() + b);
        lemma_encode_concat(a.drop_first(), b);
        assert(encode_utf8(a + b) =~= encode_utf8(a) + encode_utf8(b));
    }
}

/// A text has no bytes exactly if it has no characters.
pub proof fn lemma_encode_empty(chars: Seq<char>)
    ensures
        encode_utf8(chars).len() == 0 <==> chars.len() == 0,
{
    if chars.len() > 0 {
        assert(vstd::utf8::encode_scalar(chars[0] as u32).len() > 0);
    }
}

/// The first byte of the encoding of a scalar with one byte is the
/// scalar, and that of a scalar with more bytes is 0xC0 or more; the last
/// byte of the latter is 0x80 or more.
proof fn lemma_scalar_bytes(u: u32)
    by (bit_vector)
    requires
        u <= 0x10FFFF,
    ensures
        u <= 0x7F ==> (u & 0x7F) as u8 == u,
        0xC0 | ((u >> 6) & 0x1F) as u8 >= 0xC0,
        0xE0 | ((u >> 12) & 0x0F) as u8 >= 0xC0,
        0xF0 | ((u >> 18) & 0x7) as u8 >= 0xC0,
        0x80 | (u & 0x3F) as u8 >= 0x80,
{
}

/// A text whose first byte is below 0x80 begins with the character of that
/// number.
pub proof fn lemma_first_char(text: Seq<char>)
    requires
        encode_utf8(text).len() > 0,
        encode_utf8(text)[0] < 0x80,
    ensures
        text.len() > 0,
        text[0] as u32 == encode_utf8(text)[0],
{
    lemma_encode_empty(text);
    let u = text[0] as u32;
    vstd::utf8::char_is_scalar(text[0]);
    lemma_scalar_bytes(u);
    assert(encode_utf8(text)[0] == vstd::utf8::encode_scalar(u)[0]);
}

/// A text whose last byte is below 0x80 ends with the character of that
/// number.
pub proof fn lemma_last_char(text: Seq<char>)
    requires
        encode_utf8(text).len() > 0,
        encode_utf8(text).last() < 0x80,
    ensures
        text.len() > 0,
        text.last() as u32 == encode_utf8(text).last(),
{
    lemma_encode_empty(text);
    let u = text.last() as u32;
    let one = seq![text.last()];
    vstd::utf8::char_is_scalar(text.last());
    lemma_scalar_bytes(u);
    assert(text =~= text.drop_last() + one);
    lemma_encode_concat(text.drop_last(), one);
    assert(one.drop_first() =~= Seq::<char>::empty());
    assert(encode_utf8(one.drop_first()) =~= Seq::<u8>::empty());
    assert(one[0] == text.last());
    assert(encode_utf8(one) =~= vstd::utf8::encode_scalar(u));
    assert(encode_utf8(text).last() == vstd::utf8::encode_scalar(u).last());
}

/// Appending to what was appended is appending the whole.
pub proof fn lemma_appended(base: Seq<u8>, acc: Seq<u8>, part: Seq<u8>)
    ensures
        base + acc + part == base + (acc + part),
{
    assert(base + acc + part =~= base + (acc + part));
}

/// Appends `s` to `out`.
pub fn push_str(out: &mut String, s: &str)
    ensures
        encode_utf8(final(out)@) == encode_utf8(old(out)@) + lit(s),
{
    proof {
        lemma_encode_concat(old(out)@, s@);
    }
    out.append(s);
}

/// The decimal digits of `n`, without leading zeros.
pub open spec fn decimal(n: nat) -> Seq<u8>
    decreases n,
{
    if n < 10 {
        seq![('0' as u8 + n) as u8]
    } else {
        decimal(n / 10).push(('0' as u8 + n % 10) as u8)
    }
}

/// The number that the digits of `s` from `start` to `end` spell.
pub open spec fn decimal_value(s: Seq<u8>, start: int, end: int) -> nat
    decreases end - start,
{
    if start >= end {
        0
    } else {
        (decimal_value(s, start, end - 1) * 10 + (s[end - 1] - '0' as u8)) as nat
    }
}

/// Whether all bytes of `s` from `start` to `end` are digits.
pub open spec fn all_digits(s: Seq<u8>, start: int, end: int) -> bool {
    forall|i: int| start <= i < end ==> is_digit(#[trigger] s[i])
}

/// The one-digit word for `d`.
fn digit_str(d: u64) -> (r: &'static str)
    requires
        d < 10,
    ensures
        lit(r) == seq![('0' as u8 + d) as u8],
{
    proof {
        reveal_strlit("0");
        reveal_strlit("1");
        reveal_strlit("2");
        reveal_strlit("3");
        reveal_strlit("4");
        reveal_strlit("5");
        reveal_strlit("6");
        reveal_strlit("7");
        reveal_strlit("8");
        reveal_strlit("9");
    }
    let r = if d == 0 {
        "0"
    } else if d == 1 {
        "1"
    } else if d == 2 {
        "2"
    } else if d == 3 {
        "3"
    } else if d == 4 {
        "4"
    } else if d == 5 {
        "5"
    } else if d == 6 {
        "6"
    } else if d == 7 {
        "7"
    } else if d == 8 {
        "8"
    } else {
        "9"
    };
    proof {
        vstd::utf8::is_ascii_chars_encode_utf8(r@);
        assert(lit(r) =~= seq![('0' as u8 + d) as u8]);
    }
    r
}

/// Appends the decimal digits of `n` to `out`.
pub fn push_decimal(out: &mut String, n: u64)
    ensures
        encode_utf8(final(out)@) == encode_utf8(old(out)@) + decimal(n as nat),
    decreases n,
{
    if n >= 10 {
        push_decimal(out, n / 10);
    }
    push_str(out, digit_str(n % 10));
    proof {
        if n >= 10 {
            assert(encode_utf8(old(out)@) + decimal((n / 10) as nat) + seq![('0' as u8 + n % 10) as u8]
                =~= encode_utf8(old(out)@) + decimal(n as nat));
        }
    }
}

/// A longer run of digits spells no smaller number.
pub proof fn lemma_decimal_value_grows(s: Seq<u8>, start: int, mid: int, end: int)
    requires
        start <= mid <= end <= s.len(),
        0 <= start,
        all_digits(s, start, end),
    ensures
        decimal_value(s, start, mid) <= decimal_value(s, start, end),
    decreases end - mid,
{
    if mid < end {
        lemma_decimal_value_grows(s, start, mid, end - 1);
        assert(is_digit(s[end - 1]));
    }
}

/// The number that the digits from `start` to `end` spell, if it fits in 64 bits.
pub fn parse_decimal(buf: &[u8], start: usize, end: usize) -> (r: Option<u64>)
    requires
        start <= end <= buf.len(),
        all_digits(buf@, start as int, end as int),
    ensures
        r is Some <==> decimal_value(buf@, start as int, end as int) <= u64::MAX,
        r is Some ==> r->0 == decimal_value(buf@, start as int, end as int),
{
    let mut acc: u64 = 0;
    let mut i: usize = start;
    while i < end
        invariant
            start <= i <= end <= buf.len(),
            all_digits(buf@, start as int, end as int),
            acc == decimal_value(buf@, start as int, i as int),
        decreases end - i,
    {
        let b = buf[i];
        assert(is_digit(buf@[i as int]));
        let d: u64 = (b - 48) as u64;
        proof {
            lemma_decimal_value_grows(buf@, start as int, i as int + 1, end as int);
        }
        if acc > (u64::MAX - d) / 10 {
            assert(acc * 10 + d > u64::MAX) by (nonlinear_arith)
                requires
                    acc > (u64::MAX - d) / 10,
                    d < 10,
            ;
            return None;
        }
        assert(acc * 10 + d <= u64::MAX) by (nonlinear_arith)
            requires
                acc <= (u64::MAX - d) / 10,
                d < 10,
        ;
        acc = acc * 10 + d;
        i = i + 1;
    }
    Some(acc)
}

/// The number that the digits from `start` to `end` spell, if it fits in 64
/// bits.
pub open spec fn spec_number(s: Seq<u8>, start: int, end: int) -> Result<u64, ParseError> {
    if decimal_value(s, start, end) <= u64::MAX {
        Ok(decimal_value(s, start, end) as u64)
    } else {
        Err(failure(Violation::NumberTooLarge, start))
    }
}

/// The run of digits at `pos`: the number it spells, and its end.
pub open spec fn spec_digits(s: Seq<u8>, pos: int) -> Result<(u64, int), ParseError> {
    let end = run_end(s, pos, ByteClass::Digit);
    if end <= pos {
        Err(syntax(ErrorKind::Digit, pos))
    } else {
        match spec_number(s, pos, end) {
            Ok(v) => Ok((v, end)),
            Err(e) => Err(e),
        }
    }
}

/// The run of digits at `pos`.
pub fn digits_at(buf: &[u8], pos: usize) -> (r: Result<(u64, usize), ParseError>)
    requires
        pos <= buf.len(),
    ensures
        r == match spec_digits(buf@, pos as int) {
            Ok((v, end)) => Ok::<(u64, usize), ParseError>((v, end as usize)),
            Err(e) => Err(e),
        },
        r is Ok ==> pos < r->Ok_0.1 <= buf.len() && r->Ok_0.1 == run_end(
            buf@,
            pos as int,
            ByteClass::Digit,
        ),
{
    match digits1(buf, pos) {
        None => Err(ParseError::Syntax { kind: ErrorKind::Digit, position: pos }),
        Some(end) => {
            proof {
                lemma_run_end_props(buf@, pos as int, ByteClass::Digit);
            }
            match parse_decimal(buf, pos, end) {
                Some(v) => Ok((v, end)),
                None => Err(
                    ParseError::Failure { violation: Violation::NumberTooLarge, position: pos },
                ),
            }
        },
    }
}

/// The end of the content of the run between single quotes at `pos`, which
/// may be empty. No byte is escaped.
pub open spec fn single_quoted_end(s: Seq<u8>, pos: int) -> Option<int> {
    let end = run_end(s, pos + 1, ByteClass::Except('\'' as u8));
    if byte_at(s, pos, '\'' as u8) && end < s.len() {
        Some(end)
    } else {
        None
    }
}

/// The text between single quotes at `pos`, and the position behind the
/// closing quote.
pub open spec fn spec_single_quoted(s: Seq<u8>, pos: int) -> Result<(Seq<u8>, int), ParseError> {
    match single_quoted_end(s, pos) {
        None => Err(syntax(ErrorKind::Tag, pos)),
        Some(end) => match spec_capture(s, pos + 1, end) {
            Ok(t) => Ok((t, end + 1)),
            Err(e) => Err(e),
        },
    }
}

/// The end of the content of the run between single quotes at `pos`.
pub fn single_quoted_end_at(buf: &[u8], pos: usize) -> (r: Option<usize>)
    requires
        pos <= buf.len(),
    ensures
        r is Some <==> single_quoted_end(buf@, pos as int) is Some,
        r is Some ==> r->0 == single_quoted_end(buf@, pos as int)->0 && pos < r->0 < buf.len(),
{
    if is_byte_at(buf, pos, 39) {
        until_quote(buf, pos + 1)
    } else {
        None
    }
}

/// The text between single quotes at `pos`.
pub fn single_quoted_at(buf: &[u8], pos: usize) -> (r: Result<(String, usize), ParseError>)
    requires
        pos <= buf.len(),
    ensures
        match spec_single_quoted(buf@, pos as int) {
            Ok((t, end)) => r is Ok && encode_utf8(r->Ok_0.0@) == t && r->Ok_0.1 == end,
            Err(e) => r is Err && r->Err_0 == e,
        },
        r is Ok ==> pos + 2 <= r->Ok_0.1 <= buf.len(),
{
    match single_quoted_end_at(buf, pos) {
        None => Err(ParseError::Syntax { kind: ErrorKind::Tag, position: pos }),
        Some(end) => {
            let t = capture(buf, pos + 1, end)?;
            Ok((t, end + 1))
        },
    }
}

} // verus!
