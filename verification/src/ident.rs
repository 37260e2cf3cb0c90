//! Identifiers: bare, or between backticks or double quotes.

use vstd::prelude::*;
use vstd::slice::slice_subrange;
use vstd::utf8::encode_utf8;
use crate::error::{agrees_end, syntax, ErrorKind, ParseError};
use crate::keywords::{
    first_keyword, is_bare_identifier, is_reserved, keyword_at, keyword_bytes, keyword_matches,
    spec_escape, KEYWORDS,
};
use crate::scan::{
    has_tag_no_case, lemma_run_end_is, lemma_run_end_props, lit, run1, run_end, ByteClass,
};
use crate::text::push_str;

verus! {

/// The end of the bare identifier at `pos`: a run of letters, digits, `_`
/// and `@` that is not empty and does not begin with a reserved word.
pub open spec fn spec_correct_identifier(s: Seq<u8>, pos: int) -> Result<int, ParseError> {
    if first_keyword(s, pos, 0) is None && run_end(s, pos, ByteClass::Identifier) > pos {
        Ok(run_end(s, pos, ByteClass::Identifier))
    } else {
        Err(syntax(ErrorKind::Identifier, pos))
    }
}

/// The end of the content of the quoted run at `pos`: the byte `q`, then one
/// byte or more that are not `q`, then `q`. No byte is escaped.
pub open spec fn quoted_run(s: Seq<u8>, pos: int, q: u8) -> Option<int> {
    let end = run_end(s, pos + 1, ByteClass::Except(q));
    if 0 <= pos < s.len() && s[pos] == q && pos + 1 < end < s.len() {
        Some(end)
    } else {
        None
    }
}

/// The name that the identifier at `pos` gives, as the positions of its
/// first byte and behind its last, and the position behind the identifier.
/// The bare form is tried first, then backticks, then double quotes.
pub open spec fn spec_sql_identifier(s: Seq<u8>, pos: int) -> Result<((int, int), int), ParseError> {
    if let Ok(end) = spec_correct_identifier(s, pos) {
        Ok(((pos, end), end))
    } else if let Some(end) = quoted_run(s, pos, '`' as u8) {
        Ok(((pos + 1, end), end + 1))
    } else if let Some(end) = quoted_run(s, pos, '"' as u8) {
        Ok(((pos + 1, end), end + 1))
    } else {
        Err(syntax(ErrorKind::Identifier, pos))
    }
}

/// Whether an identifier rule returned what its specification gives.
pub open spec fn agrees_span(
    r: Result<((usize, usize), usize), ParseError>,
    p: Result<((int, int), int), ParseError>,
) -> bool {
    match p {
        Ok(((a, b), end)) => r is Ok && r->Ok_0.0.0 == a && r->Ok_0.0.1 == b && r->Ok_0.1 == end,
        Err(e) => r is Err && r->Err_0 == e,
    }
}

/// The end of the bare identifier at `pos`.
pub fn correct_identifier_at(buf: &[u8], pos: usize) -> (r: Result<usize, ParseError>)
    requires
        pos <= buf.len(),
    ensures
        agrees_end(r, spec_correct_identifier(buf@, pos as int)),
        r is Ok ==> pos < r->Ok_0 <= buf.len(),
{
    if keyword_at(buf, pos).is_ok() {
        return Err(ParseError::Syntax { kind: ErrorKind::Identifier, position: pos });
    }
    match run1(buf, pos, ByteClass::Identifier) {
        Some(end) => Ok(end),
        None => Err(ParseError::Syntax { kind: ErrorKind::Identifier, position: pos }),
    }
}

/// The end of the content of the run between two bytes `q` at `pos`.
pub fn quoted_run_at(buf: &[u8], pos: usize, q: u8) -> (r: Option<usize>)
    requires
        pos <= buf.len(),
    ensures
        r is Some <==> quoted_run(buf@, pos as int, q) is Some,
        r is Some ==> r->0 == quoted_run(buf@, pos as int, q)->0 && pos + 1 < r->0 < buf.len(),
{
    if pos < buf.len() && buf[pos] == q {
        match run1(buf, pos + 1, ByteClass::Except(q)) {
            Some(end) => {
                if end < buf.len() {
                    Some(end)
                } else {
                    None
                }
            },
            None => None,
        }
    } else {
        None
    }
}

/// The identifier at `pos`: its name as a range of `buf`, and its end.
pub fn identifier_at(buf: &[u8], pos: usize) -> (r: Result<((usize, usize), usize), ParseError>)
    requires
        pos <= buf.len(),
    ensures
        agrees_span(r, spec_sql_identifier(buf@, pos as int)),
        r is Ok ==> pos <= r->Ok_0.0.0 < r->Ok_0.0.1 <= r->Ok_0.1 <= buf.len() && pos < r->Ok_0.1,
{
    if let Ok(end) = correct_identifier_at(buf, pos) {
        return Ok(((pos, end), end));
    }
    if let Some(end) = quoted_run_at(buf, pos, 96) {
        return Ok(((pos + 1, end), end + 1));
    }
    if let Some(end) = quoted_run_at(buf, pos, 34) {
        return Ok(((pos + 1, end), end + 1));
    }
    Err(ParseError::Syntax { kind: ErrorKind::Identifier, position: pos })
}

/// Reads a bare identifier, and gives the rest of the input and the
/// identifier.
pub fn correct_identifier<'a>(i: &'a [u8]) -> (r: Result<(&'a [u8], &'a [u8]), ParseError>)
    ensures
        match spec_correct_identifier(i@, 0) {
            Ok(end) => r is Ok && r->Ok_0.0@ == i@.skip(end) && r->Ok_0.1@ == i@.take(end),
            Err(e) => r is Err && r->Err_0 == e,
        },
{
    match correct_identifier_at(i, 0) {
        Ok(end) => Ok((slice_subrange(i, end, i.len()), slice_subrange(i, 0, end))),
        Err(e) => Err(e),
    }
}

/// Reads an identifier, bare or quoted, and gives the rest of the input and
/// the name without its quotes.
pub fn sql_identifier<'a>(i: &'a [u8]) -> (r: Result<(&'a [u8], &'a [u8]), ParseError>)
    ensures
        match spec_sql_identifier(i@, 0) {
            Ok(((a, b), end)) => r is Ok && r->Ok_0.0@ == i@.skip(end) && r->Ok_0.1@
                == i@.subrange(a, b),
            Err(e) => r is Err && r->Err_0 == e,
        },
{
    match identifier_at(i, 0) {
        Ok(((a, b), end)) => Ok((slice_subrange(i, end, i.len()), slice_subrange(i, a, b))),
        Err(e) => Err(e),
    }
}

/// What [`first_keyword`] finds is a word that matches, and it finds none
/// only where none matches.
pub proof fn lemma_first_keyword(s: Seq<u8>, pos: int, j: int)
    requires
        0 <= j,
    ensures
        match first_keyword(s, pos, j) {
            Some(k) => j <= k < KEYWORDS && keyword_matches(s, pos, k),
            None => forall|k: int| j <= k < KEYWORDS ==> !keyword_matches(s, pos, k),
        },
    decreases KEYWORDS - j,
{
    if j < KEYWORDS && !keyword_matches(s, pos, j) {
        lemma_first_keyword(s, pos, j + 1);
    }
}

/// A text can stand bare exactly if the rule for bare identifiers reads all
/// of it.
pub proof fn lemma_bare_identifier(t: Seq<u8>)
    ensures
        is_bare_identifier(t) <==> spec_correct_identifier(t, 0) == Ok::<int, ParseError>(
            t.len() as int,
        ),
{
    reveal(has_tag_no_case);
    lemma_first_keyword(t, 0, 0);
    lemma_run_end_props(t, 0, ByteClass::Identifier);
    if is_bare_identifier(t) {
        lemma_run_end_is(t, 0, t.len() as int, ByteClass::Identifier);
        assert forall|k: int| 0 <= k < KEYWORDS implies !keyword_matches(t, 0, k) by {
            if keyword_matches(t, 0, k) {
                let n = keyword_bytes(k).len() as int;
                if n < t.len() {
                    assert(ByteClass::Identifier.has(t[n]));
                }
            }
        }
    }
    if spec_correct_identifier(t, 0) == Ok::<int, ParseError>(t.len() as int) {
        if is_reserved(t) {
            let k = choose|k: int|
                0 <= k < KEYWORDS && #[trigger] keyword_bytes(k).len() == t.len()
                    && has_tag_no_case(t, 0, keyword_bytes(k));
            assert(keyword_matches(t, 0, k));
        }
    }
}

/// Whether `t` can stand in the input as a bare identifier.
pub fn can_stand_bare(t: &[u8]) -> (r: bool)
    ensures
        r == is_bare_identifier(t@),
{
    proof {
        lemma_bare_identifier(t@);
    }
    match correct_identifier_at(t, 0) {
        Ok(end) => end == t.len(),
        Err(_) => false,
    }
}

/// Appends `identifier` to `out`, between backticks unless it can stand bare.
pub fn push_escaped(out: &mut String, identifier: &str)
    ensures
        encode_utf8(final(out)@) == encode_utf8(old(out)@) + spec_escape(encode_utf8(identifier@)),
{
    if can_stand_bare(identifier.as_bytes()) {
        push_str(out, identifier);
    } else {
        push_str(out, "`");
        push_str(out, identifier);
        push_str(out, "`");
        assert(encode_utf8(old(out)@) + lit("`") + encode_utf8(identifier@) + lit("`")
            =~= encode_utf8(old(out)@) + (lit("`") + encode_utf8(identifier@) + lit("`")));
    }
}

/// The identifier as it is written in a statement: unchanged if it is a bare
/// identifier and no reserved word, else between backticks.
pub fn escape_identifier(identifier: &str) -> (r: String)
    ensures
        encode_utf8(r@) == spec_escape(encode_utf8(identifier@)),
{
    let mut out = String::new();
    push_escaped(&mut out, identifier);
    assert(encode_utf8(Seq::<char>::empty()) + spec_escape(encode_utf8(identifier@))
        =~= spec_escape(encode_utf8(identifier@)));
    out
}

/// As [`escape_identifier`]: a reserved word, and any other text that is no
/// bare identifier, comes back between backticks.
pub fn escape_if_keyword(s: &str) -> (r: String)
    ensures
        encode_utf8(r@) == spec_escape(encode_utf8(s@)),
{
    escape_identifier(s)
}

} // verus!
