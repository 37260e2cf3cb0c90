//! The lexical layer: classes of bytes, runs of one class, fixed words.
//!
//! The recognisers are those of the `nom` crate. Each is called on the rest
//! of the buffer behind a position, and what it is trusted to do is stated
//! over [`run_end`], [`has_tag`] and [`has_tag_no_case`].

use vstd::prelude::*;
use vstd::slice::slice_subrange;
use vstd::string::StringSliceAdditionalSpecFns;
use crate::error::{syntax, ErrorKind, ParseError};

verus! {

/// The deepest nesting of types in types and of expressions in expressions
/// that the grammar follows.
pub const MAX_NESTING: usize = 64;

/// The bytes of a word of the grammar.
pub open spec fn lit(t: &str) -> Seq<u8> {
    t.spec_bytes()
}

/// White space, as the grammar skips it: space, tab, carriage return, line feed.
pub open spec fn is_space(b: u8) -> bool {
    b == ' ' as u8 || b == '\t' as u8 || b == '\r' as u8 || b == '\n' as u8
}

/// A decimal digit.
pub open spec fn is_digit(b: u8) -> bool {
    '0' as u8 <= b <= '9' as u8
}

/// An ASCII letter or a decimal digit.
pub open spec fn is_alphanumeric(b: u8) -> bool {
    ('A' as u8 <= b <= 'Z' as u8) || ('a' as u8 <= b <= 'z' as u8) || is_digit(b)
}

/// A byte of a bare identifier: a letter, a digit, `_` or `@`.
pub open spec fn spec_is_sql_identifier(chr: u8) -> bool {
    is_alphanumeric(chr) || chr == '_' as u8 || chr == '@' as u8
}

/// `nom::character::is_alphanumeric`: whether the byte is an ASCII letter or
/// a decimal digit.
pub assume_specification[ nom::character::is_alphanumeric ](chr: u8) -> (r: bool)
    ensures
        r == is_alphanumeric(chr),
;

/// Whether `chr` may stand in a bare identifier.
#[verifier::when_used_as_spec(spec_is_sql_identifier)]
pub fn is_sql_identifier(chr: u8) -> (r: bool)
    ensures
        r == spec_is_sql_identifier(chr),
{
    nom::character::is_alphanumeric(chr) || chr == 95 || chr == 64
}

/// The lower-case form of an ASCII letter, and any other byte unchanged.
pub open spec fn lower(b: u8) -> u8 {
    if 'A' as u8 <= b <= 'Z' as u8 {
        (b + 32) as u8
    } else {
        b
    }
}

/// A class of bytes.
#[derive(Clone, Copy, Debug, PartialEq, Eq, Structural)]
pub enum ByteClass {
    /// White space.
    Space,
    /// Decimal digits.
    Digit,
    /// The bytes of a bare identifier.
    Identifier,
    /// Every byte but the given one.
    Except(u8),
    /// Every byte but the backslash and the given one.
    Plain(u8),
}

impl ByteClass {
    pub open spec fn spec_has(self, b: u8) -> bool {
        match self {
            ByteClass::Space => is_space(b),
            ByteClass::Digit => is_digit(b),
            ByteClass::Identifier => spec_is_sql_identifier(b),
            ByteClass::Except(q) => b != q,
            ByteClass::Plain(q) => b != q && b != '\\' as u8,
        }
    }

    /// Whether `b` belongs to the class.
    #[verifier::when_used_as_spec(spec_has)]
    pub fn has(self, b: u8) -> (r: bool)
        ensures
            r == self.spec_has(b),
    {
        match self {
            ByteClass::Space => b == 32 || b == 9 || b == 13 || b == 10,
            ByteClass::Digit => 48 <= b && b <= 57,
            ByteClass::Identifier => is_sql_identifier(b),
            ByteClass::Except(q) => b != q,
            ByteClass::Plain(q) => b != q && b != 92,
        }
    }
}

/// The end of the longest run of bytes of `class` that starts at `pos`.
pub open spec fn run_end(s: Seq<u8>, pos: int, class: ByteClass) -> int
    decreases s.len() - pos,
{
    if 0 <= pos < s.len() && class.has(s[pos]) {
        run_end(s, pos + 1, class)
    } else {
        pos
    }
}

/// The end of the white space that starts at `pos`.
pub open spec fn ws_end(s: Seq<u8>, pos: int) -> int {
    run_end(s, pos, ByteClass::Space)
}

/// Whether the bytes `t` stand in `s` at `pos`.
#[verifier::opaque]
pub open spec fn has_tag(s: Seq<u8>, pos: int, t: Seq<u8>) -> bool {
    &&& 0 <= pos
    &&& pos + t.len() <= s.len()
    &&& forall|j: int| pos <= j < pos + t.len() ==> #[trigger] s[j] == t[j - pos]
}

/// Whether the bytes `t` stand in `s` at `pos`, ASCII letters compared
/// without regard to case.
#[verifier::opaque]
pub open spec fn has_tag_no_case(s: Seq<u8>, pos: int, t: Seq<u8>) -> bool {
    &&& 0 <= pos
    &&& pos + t.len() <= s.len()
    &&& forall|j: int| pos <= j < pos + t.len() ==> lower(#[trigger] s[j]) == lower(t[j - pos])
}

/// The end of the word `t` at `pos`, if it stands there.
pub open spec fn tag_end(s: Seq<u8>, pos: int, t: Seq<u8>) -> Option<int> {
    if has_tag(s, pos, t) {
        Some(pos + t.len())
    } else {
        None
    }
}

/// The end of the word `t` at `pos`, if it stands there in any case.
pub open spec fn word_end(s: Seq<u8>, pos: int, t: Seq<u8>) -> Option<int> {
    if has_tag_no_case(s, pos, t) {
        Some(pos + t.len())
    } else {
        None
    }
}

/// Whether a line break stands in `s` at `pos`, and its length.
pub open spec fn line_ending_len(s: Seq<u8>, pos: int) -> Option<int> {
    if 0 <= pos < s.len() && s[pos] == '\n' as u8 {
        Some(1)
    } else if 0 <= pos && pos + 1 < s.len() && s[pos] == '\r' as u8 && s[pos + 1] == '\n' as u8 {
        Some(2)
    } else {
        None
    }
}

/// A run ends behind its start and inside the input.
pub proof fn lemma_run_end_bounds(s: Seq<u8>, pos: int, class: ByteClass)
    requires
        0 <= pos <= s.len(),
    ensures
        pos <= run_end(s, pos, class) <= s.len(),
    decreases s.len() - pos,
{
    if pos < s.len() && class.has(s[pos]) {
        lemma_run_end_bounds(s, pos + 1, class);
    }
}

/// A run is made of bytes of the class, and ends before a byte that is not,
/// or with the input: this determines its end.
pub proof fn lemma_run_end_is(s: Seq<u8>, pos: int, end: int, class: ByteClass)
    requires
        0 <= pos <= end <= s.len(),
        forall|i: int| pos <= i < end ==> class.has(#[trigger] s[i]),
        end == s.len() || !class.has(s[end]),
    ensures
        run_end(s, pos, class) == end,
    decreases end - pos,
{
    if pos < end {
        lemma_run_end_is(s, pos + 1, end, class);
    }
}

/// The converse of [`lemma_run_end_is`].
pub proof fn lemma_run_end_props(s: Seq<u8>, pos: int, class: ByteClass)
    requires
        0 <= pos <= s.len(),
    ensures
        forall|i: int| pos <= i < run_end(s, pos, class) ==> class.has(#[trigger] s[i]),
        run_end(s, pos, class) == s.len() || !class.has(s[run_end(s, pos, class)]),
        pos <= run_end(s, pos, class) <= s.len(),
    decreases s.len() - pos,
{
    if pos < s.len() && class.has(s[pos]) {
        lemma_run_end_props(s, pos + 1, class);
    }
}

/// A run in the rest of the input behind `pos` is the run in the input,
/// counted from `pos`.
proof fn lemma_run_end_suffix(s: Seq<u8>, pos: int, k: int, class: ByteClass)
    requires
        0 <= pos <= k <= s.len(),
    ensures
        run_end(s.skip(pos), k - pos, class) == run_end(s, k, class) - pos,
    decreases s.len() - k,
{
    if k < s.len() && class.has(s[k]) {
        assert(s.skip(pos)[k - pos] == s[k]);
        lemma_run_end_suffix(s, pos, k + 1, class);
    }
}

/// A text stands at the beginning of the rest of the input behind `pos`
/// exactly if it stands in the input at `pos`.
proof fn lemma_tag_suffix(s: Seq<u8>, pos: int, t: Seq<u8>)
    requires
        0 <= pos <= s.len(),
    ensures
        has_tag(s.skip(pos), 0, t) == has_tag(s, pos, t),
        has_tag_no_case(s.skip(pos), 0, t) == has_tag_no_case(s, pos, t),
{
    reveal(has_tag);
    reveal(has_tag_no_case);
    let u = s.skip(pos);
    if has_tag(u, 0, t) {
        assert forall|j: int| pos <= j < pos + t.len() implies #[trigger] s[j] == t[j - pos] by {
            assert(u[j - pos] == t[j - pos - 0]);
        }
    }
    if has_tag(s, pos, t) {
        assert forall|j: int| 0 <= j < 0 + t.len() implies #[trigger] u[j] == t[j - 0] by {
            assert(s[j + pos] == t[j + pos - pos]);
        }
    }
    if has_tag_no_case(u, 0, t) {
        assert forall|j: int| pos <= j < pos + t.len() implies lower(#[trigger] s[j]) == lower(
            t[j - pos],
        ) by {
            assert(lower(u[j - pos]) == lower(t[j - pos - 0]));
        }
    }
    if has_tag_no_case(s, pos, t) {
        assert forall|j: int| 0 <= j < 0 + t.len() implies lower(#[trigger] u[j]) == lower(
            t[j - 0],
        ) by {
            assert(lower(s[j + pos]) == lower(t[j + pos - pos]));
        }
    }
}

/// `nom::character::complete::multispace0`: never fails, and leaves what
/// follows the longest leading run of space, tab, CR and LF.
#[verifier::external_body]
fn nom_multispace0<'a>(i: &'a [u8]) -> (rest: &'a [u8])
    ensures
        rest@ == i@.skip(ws_end(i@, 0)),
{
    let r: nom::IResult<&[u8], &[u8]> = nom::character::complete::multispace0(i);
    match r {
        Ok((rest, _)) => rest,
        Err(_) => i,
    }
}

/// `nom::character::complete::multispace1`: as `multispace0`, but fails on
/// an empty run.
#[verifier::external_body]
fn nom_multispace1<'a>(i: &'a [u8]) -> (r: Option<&'a [u8]>)
    ensures
        r is Some <==> ws_end(i@, 0) > 0,
        r is Some ==> r->0@ == i@.skip(ws_end(i@, 0)),
{
    let r: nom::IResult<&[u8], &[u8]> = nom::character::complete::multispace1(i);
    match r {
        Ok((rest, _)) => Some(rest),
        Err(_) => None,
    }
}

/// `nom::character::complete::digit1`: leaves what follows the longest
/// leading run of the digits `0` to `9`, and fails on an empty run.
#[verifier::external_body]
fn nom_digit1<'a>(i: &'a [u8]) -> (r: Option<&'a [u8]>)
    ensures
        r is Some <==> run_end(i@, 0, ByteClass::Digit) > 0,
        r is Some ==> r->0@ == i@.skip(run_end(i@, 0, ByteClass::Digit)),
{
    let r: nom::IResult<&[u8], &[u8]> = nom::character::complete::digit1(i);
    match r {
        Ok((rest, _)) => Some(rest),
        Err(_) => None,
    }
}

/// `nom::bytes::complete::take_while1`: leaves what follows the longest
/// leading run of bytes for which the condition holds, and fails on an empty
/// run.
#[verifier::external_body]
fn nom_take_while1<'a>(class: ByteClass, i: &'a [u8]) -> (r: Option<&'a [u8]>)
    ensures
        r is Some <==> run_end(i@, 0, class) > 0,
        r is Some ==> r->0@ == i@.skip(run_end(i@, 0, class)),
{
    let r: nom::IResult<&[u8], &[u8]> = nom::bytes::complete::take_while1(|b| class.has(b))(i);
    match r {
        Ok((rest, _)) => Some(rest),
        Err(_) => None,
    }
}

/// `nom::bytes::complete::is_not`: leaves what follows the longest leading
/// run of bytes that do not occur in `set`, and fails on an empty run. It is
/// called with a backslash and one more byte as the set.
#[verifier::external_body]
fn nom_is_not<'a>(set: &str, i: &'a [u8]) -> (r: Option<&'a [u8]>)
    requires
        lit(set).len() == 2,
        lit(set)[0] == '\\' as u8,
    ensures
        r is Some <==> run_end(i@, 0, ByteClass::Plain(lit(set)[1])) > 0,
        r is Some ==> r->0@ == i@.skip(run_end(i@, 0, ByteClass::Plain(lit(set)[1]))),
{
    let r: nom::IResult<&[u8], &[u8]> = nom::bytes::complete::is_not(set)(i);
    match r {
        Ok((rest, _)) => Some(rest),
        Err(_) => None,
    }
}

/// `nom::bytes::complete::take_until`: leaves the input from the first
/// occurrence of `t` on, and fails if there is none. It is called with a
/// single byte as `t`.
#[verifier::external_body]
fn nom_take_until<'a>(t: &str, i: &'a [u8]) -> (r: Option<&'a [u8]>)
    requires
        lit(t).len() == 1,
    ensures
        r is Some <==> run_end(i@, 0, ByteClass::Except(lit(t)[0])) < i@.len(),
        r is Some ==> r->0@ == i@.skip(run_end(i@, 0, ByteClass::Except(lit(t)[0]))),
{
    let r: nom::IResult<&[u8], &[u8]> = nom::bytes::complete::take_until(t)(i);
    match r {
        Ok((rest, _)) => Some(rest),
        Err(_) => None,
    }
}

/// `nom::bytes::complete::tag`: succeeds if the input starts with the bytes
/// of `t`, and leaves what follows them.
#[verifier::external_body]
fn nom_tag<'a>(t: &str, i: &'a [u8]) -> (r: Option<&'a [u8]>)
    ensures
        r is Some <==> has_tag(i@, 0, lit(t)),
        r is Some ==> r->0@ == i@.skip(lit(t).len() as int),
{
    let r: nom::IResult<&[u8], &[u8]> = nom::bytes::complete::tag(t)(i);
    match r {
        Ok((rest, _)) => Some(rest),
        Err(_) => None,
    }
}

/// `nom::bytes::complete::tag_no_case`: as `tag`, but an ASCII letter of the
/// input matches the same letter of `t` in either case.
#[verifier::external_body]
fn nom_tag_no_case<'a>(t: &str, i: &'a [u8]) -> (r: Option<&'a [u8]>)
    ensures
        r is Some <==> has_tag_no_case(i@, 0, lit(t)),
        r is Some ==> r->0@ == i@.skip(lit(t).len() as int),
{
    let r: nom::IResult<&[u8], &[u8]> = nom::bytes::complete::tag_no_case(t)(i);
    match r {
        Ok((rest, _)) => Some(rest),
        Err(_) => None,
    }
}

/// `nom::character::complete::one_of`: succeeds if the first byte of the
/// input is one of the bytes of `list`, and leaves what follows it.
#[verifier::external_body]
fn nom_one_of<'a>(list: &str, i: &'a [u8]) -> (r: Option<&'a [u8]>)
    ensures
        r is Some <==> (i@.len() > 0 && lit(list).contains(i@[0])),
        r is Some ==> r->0@ == i@.skip(1),
{
    let r: nom::IResult<&[u8], char> = nom::character::complete::one_of(list)(i);
    match r {
        Ok((rest, _)) => Some(rest),
        Err(_) => None,
    }
}

/// `nom::character::complete::line_ending`: succeeds on a leading `\n` or
/// `\r\n`, and leaves what follows it.
#[verifier::external_body]
fn nom_line_ending<'a>(i: &'a [u8]) -> (r: Option<&'a [u8]>)
    ensures
        r is Some <==> line_ending_len(i@, 0) is Some,
        r is Some ==> r->0@ == i@.skip(line_ending_len(i@, 0)->0),
{
    let r: nom::IResult<&[u8], &[u8]> = nom::character::complete::line_ending(i);
    match r {
        Ok((rest, _)) => Some(rest),
        Err(_) => None,
    }
}

/// The position behind the white space at `pos`.
pub fn skip_ws(buf: &[u8], pos: usize) -> (end: usize)
    requires
        pos <= buf.len(),
    ensures
        end == ws_end(buf@, pos as int),
        pos <= end <= buf.len(),
{
    let tail = slice_subrange(buf, pos, buf.len());
    let rest = nom_multispace0(tail);
    proof {
        lemma_run_end_suffix(buf@, pos as int, pos as int, ByteClass::Space);
        lemma_run_end_bounds(buf@, pos as int, ByteClass::Space);
    }
    buf.len() - rest.len()
}

/// The position behind the white space at `pos`, if there is any.
pub fn space1(buf: &[u8], pos: usize) -> (r: Option<usize>)
    requires
        pos <= buf.len(),
    ensures
        r is Some <==> ws_end(buf@, pos as int) > pos,
        r is Some ==> r->0 == ws_end(buf@, pos as int) && pos < r->0 <= buf.len(),
{
    let tail = slice_subrange(buf, pos, buf.len());
    proof {
        lemma_run_end_suffix(buf@, pos as int, pos as int, ByteClass::Space);
        lemma_run_end_bounds(buf@, pos as int, ByteClass::Space);
    }
    match nom_multispace1(tail) {
        Some(rest) => Some(buf.len() - rest.len()),
        None => None,
    }
}

/// The position behind the digits at `pos`, if there is any.
pub fn digits1(buf: &[u8], pos: usize) -> (r: Option<usize>)
    requires
        pos <= buf.len(),
    ensures
        r is Some <==> run_end(buf@, pos as int, ByteClass::Digit) > pos,
        r is Some ==> r->0 == run_end(buf@, pos as int, ByteClass::Digit) && pos < r->0
            <= buf.len(),
{
    let tail = slice_subrange(buf, pos, buf.len());
    proof {
        lemma_run_end_suffix(buf@, pos as int, pos as int, ByteClass::Digit);
        lemma_run_end_bounds(buf@, pos as int, ByteClass::Digit);
    }
    match nom_digit1(tail) {
        Some(rest) => Some(buf.len() - rest.len()),
        None => None,
    }
}

/// The position behind the run of `class` at `pos`, if the run is not empty.
pub fn run1(buf: &[u8], pos: usize, class: ByteClass) -> (r: Option<usize>)
    requires
        pos <= buf.len(),
    ensures
        r is Some <==> run_end(buf@, pos as int, class) > pos,
        r is Some ==> r->0 == run_end(buf@, pos as int, class) && pos < r->0 <= buf.len(),
{
    let tail = slice_subrange(buf, pos, buf.len());
    proof {
        lemma_run_end_suffix(buf@, pos as int, pos as int, class);
        lemma_run_end_bounds(buf@, pos as int, class);
    }
    match nom_take_while1(class, tail) {
        Some(rest) => Some(buf.len() - rest.len()),
        None => None,
    }
}

/// The position of the first `'` at or behind `pos`, if there is one.
pub fn until_quote(buf: &[u8], pos: usize) -> (r: Option<usize>)
    requires
        pos <= buf.len(),
    ensures
        r is Some <==> run_end(buf@, pos as int, ByteClass::Except('\'' as u8)) < buf.len(),
        r is Some ==> r->0 == run_end(buf@, pos as int, ByteClass::Except('\'' as u8)) && pos
            <= r->0 < buf.len(),
{
    let tail = slice_subrange(buf, pos, buf.len());
    proof {
        reveal_strlit("'");
        vstd::utf8::is_ascii_chars_encode_utf8("'"@);
        lemma_run_end_suffix(buf@, pos as int, pos as int, ByteClass::Except('\'' as u8));
        lemma_run_end_bounds(buf@, pos as int, ByteClass::Except('\'' as u8));
    }
    match nom_take_until("'", tail) {
        Some(rest) => Some(buf.len() - rest.len()),
        None => None,
    }
}

/// Whether the word `t` stands at `pos`, and the position behind it.
pub fn tag(buf: &[u8], pos: usize, t: &str) -> (r: Option<usize>)
    requires
        pos <= buf.len(),
    ensures
        r is Some <==> has_tag(buf@, pos as int, lit(t)),
        r is Some ==> r->0 == pos + lit(t).len() && r->0 <= buf.len(),
{
    let tail = slice_subrange(buf, pos, buf.len());
    proof {
        reveal(has_tag);
        lemma_tag_suffix(buf@, pos as int, lit(t));
    }
    match nom_tag(t, tail) {
        Some(rest) => Some(buf.len() - rest.len()),
        None => None,
    }
}

/// Whether the word `t` stands at `pos` in any mix of upper and lower case,
/// and the position behind it.
pub fn tag_no_case(buf: &[u8], pos: usize, t: &str) -> (r: Option<usize>)
    requires
        pos <= buf.len(),
    ensures
        r is Some <==> has_tag_no_case(buf@, pos as int, lit(t)),
        r is Some ==> r->0 == pos + lit(t).len() && r->0 <= buf.len(),
{
    let tail = slice_subrange(buf, pos, buf.len());
    proof {
        reveal(has_tag_no_case);
        lemma_tag_suffix(buf@, pos as int, lit(t));
    }
    match nom_tag_no_case(t, tail) {
        Some(rest) => Some(buf.len() - rest.len()),
        None => None,
    }
}

/// Whether the byte at `pos` is one of the bytes of `list`.
pub fn one_of(buf: &[u8], pos: usize, list: &str) -> (r: bool)
    requires
        pos <= buf.len(),
    ensures
        r <==> pos < buf.len() && lit(list).contains(buf@[pos as int]),
{
    let tail = slice_subrange(buf, pos, buf.len());
    nom_one_of(list, tail).is_some()
}

/// The length of the line break at `pos`, if one stands there.
pub fn line_ending(buf: &[u8], pos: usize) -> (r: Option<usize>)
    requires
        pos <= buf.len(),
    ensures
        r is Some <==> line_ending_len(buf@, pos as int) is Some,
        r is Some ==> r->0 == pos + line_ending_len(buf@, pos as int)->0 && r->0 <= buf.len(),
{
    let tail = slice_subrange(buf, pos, buf.len());
    match nom_line_ending(tail) {
        Some(rest) => Some(buf.len() - rest.len()),
        None => None,
    }
}

/// The position behind the run at `pos` of bytes that are neither a backslash
/// nor `q`, if the run is not empty. `q` is `'` or `"`.
pub fn plain_run(buf: &[u8], pos: usize, q: u8) -> (r: Option<usize>)
    requires
        pos <= buf.len(),
        q == '\'' as u8 || q == '"' as u8,
    ensures
        r is Some <==> run_end(buf@, pos as int, ByteClass::Plain(q)) > pos,
        r is Some ==> r->0 == run_end(buf@, pos as int, ByteClass::Plain(q)) && pos < r->0
            <= buf.len(),
{
    let tail = slice_subrange(buf, pos, buf.len());
    proof {
        reveal_strlit("\\'");
        reveal_strlit("\\\"");
        vstd::utf8::is_ascii_chars_encode_utf8("\\'"@);
        vstd::utf8::is_ascii_chars_encode_utf8("\\\""@);
        lemma_run_end_suffix(buf@, pos as int, pos as int, ByteClass::Plain(q));
        lemma_run_end_bounds(buf@, pos as int, ByteClass::Plain(q));
    }
    let set = if q == 39 {
        "\\'"
    } else {
        "\\\""
    };
    match nom_is_not(set, tail) {
        Some(rest) => Some(buf.len() - rest.len()),
        None => None,
    }
}

/// One of the infix operators `+ - * / < >`.
pub open spec fn is_operator(b: u8) -> bool {
    b == '+' as u8 || b == '-' as u8 || b == '*' as u8 || b == '/' as u8 || b == '<' as u8 || b
        == '>' as u8
}

/// Whether an infix operator stands at `pos`.
pub fn operator_at(buf: &[u8], pos: usize) -> (r: bool)
    requires
        pos <= buf.len(),
    ensures
        r <==> pos < buf.len() && is_operator(buf@[pos as int]),
{
    proof {
        reveal_strlit("+-*/<>");
        vstd::utf8::is_ascii_chars_encode_utf8("+-*/<>"@);
        let l = lit("+-*/<>");
        assert(l.len() == 6);
        if pos < buf.len() {
            let b = buf@[pos as int];
            if is_operator(b) {
                assert(l[0] == b || l[1] == b || l[2] == b || l[3] == b || l[4] == b || l[5] == b);
            }
        }
    }
    one_of(buf, pos, "+-*/<>")
}

/// Whether the byte `b` stands at `pos`.
pub open spec fn byte_at(s: Seq<u8>, pos: int, b: u8) -> bool {
    0 <= pos < s.len() && s[pos] == b
}

/// Whether the byte `b` stands at `pos`.
pub fn is_byte_at(buf: &[u8], pos: usize, b: u8) -> (r: bool)
    requires
        pos <= buf.len(),
    ensures
        r == byte_at(buf@, pos as int, b),
{
    pos < buf.len() && buf[pos] == b
}

/// The end of a comma with the white space around it, if one stands at `pos`.
pub open spec fn sep_comma_end(s: Seq<u8>, pos: int) -> Option<int> {
    if byte_at(s, ws_end(s, pos), ',' as u8) {
        Some(ws_end(s, ws_end(s, pos) + 1))
    } else {
        None
    }
}

/// The end of a comma with the white space around it.
pub fn sep_comma_at(buf: &[u8], pos: usize) -> (r: Option<usize>)
    requires
        pos <= buf.len(),
    ensures
        r == match sep_comma_end(buf@, pos as int) {
            Some(e) => Some(e as usize),
            None => None,
        },
        r is Some ==> pos < r->0 <= buf.len() && r->0 == sep_comma_end(buf@, pos as int)->0,
{
    let a = skip_ws(buf, pos);
    if is_byte_at(buf, a, 44) {
        Some(skip_ws(buf, a + 1))
    } else {
        None
    }
}

/// Reads a comma with the white space around it, and gives the rest of the
/// input and the comma.
pub fn ws_sep_comma<'a>(i: &'a [u8]) -> (r: Result<(&'a [u8], &'a [u8]), ParseError>)
    ensures
        match sep_comma_end(i@, 0) {
            Some(end) => r is Ok && r->Ok_0.0@ == i@.skip(end) && r->Ok_0.1@ == seq![',' as u8],
            None => r is Err && r->Err_0 == syntax(ErrorKind::Tag, ws_end(i@, 0)),
        },
{
    let a = skip_ws(i, 0);
    if is_byte_at(i, a, 44) {
        let end = skip_ws(i, a + 1);
        let comma = slice_subrange(i, a, a + 1);
        assert(comma@ =~= seq![',' as u8]);
        Ok((slice_subrange(i, end, i.len()), comma))
    } else {
        Err(ParseError::Syntax { kind: ErrorKind::Tag, position: a })
    }
}

} // verus!
