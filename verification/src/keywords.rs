//! The reserved words of the dialect.

use vstd::prelude::*;
use vstd::slice::slice_subrange;
use crate::error::{syntax, ErrorKind, ParseError};
use crate::scan::{has_tag_no_case, lit, tag_no_case, ByteClass};

verus! {

/// The number of reserved words.
pub const KEYWORDS: usize = 42;

/// The `k`-th reserved word, in the order in which the grammar tries them.
pub open spec fn keyword_bytes(k: int) -> Seq<u8> {
    if k == 0 {
        lit("AND")
    } else if k == 1 {
        lit("AS")
    } else if k == 2 {
        lit("ASC")
    } else if k == 3 {
        lit("BETWEEN")
    } else if k == 4 {
        lit("BY")
    } else if k == 5 {
        lit("COLUMN")
    } else if k == 6 {
        lit("CREATE")
    } else if k == 7 {
        lit("DATABASE")
    } else if k == 8 {
        lit("DEFAULT")
    } else if k == 9 {
        lit("DESC")
    } else if k == 10 {
        lit("DETACH")
    } else if k == 11 {
        lit("DISTINCT")
    } else if k == 12 {
        lit("DROP")
    } else if k == 13 {
        lit("EXISTS")
    } else if k == 14 {
        lit("FROM")
    } else if k == 15 {
        lit("GROUP")
    } else if k == 16 {
        lit("HAVING")
    } else if k == 17 {
        lit("IGNORE")
    } else if k == 18 {
        lit("IN")
    } else if k == 19 {
        lit("INDEX")
    } else if k == 20 {
        lit("INSERT")
    } else if k == 21 {
        lit("INTO")
    } else if k == 22 {
        lit("ORDER")
    } else if k == 23 {
        lit("JOIN")
    } else if k == 24 {
        lit("LEFT")
    } else if k == 25 {
        lit("LIKE")
    } else if k == 26 {
        lit("LIMIT")
    } else if k == 27 {
        lit("NOT")
    } else if k == 28 {
        lit("NULL")
    } else if k == 29 {
        lit("OFFSET")
    } else if k == 30 {
        lit("ON")
    } else if k == 31 {
        lit("OR")
    } else if k == 32 {
        lit("PRIMARY")
    } else if k == 33 {
        lit("SELECT")
    } else if k == 34 {
        lit("SET")
    } else if k == 35 {
        lit("TABLE")
    } else if k == 36 {
        lit("TEMPORARY")
    } else if k == 37 {
        lit("TO")
    } else if k == 38 {
        lit("UNIQUE")
    } else if k == 39 {
        lit("VALUES")
    } else if k == 40 {
        lit("VIEW")
    } else {
        lit("WHERE")
    }
}

/// The `k`-th reserved word.
pub fn keyword(k: usize) -> (r: &'static str)
    requires
        k < KEYWORDS,
    ensures
        lit(r) == keyword_bytes(k as int),
{
    match k {
        0 => "AND",
        1 => "AS",
        2 => "ASC",
        3 => "BETWEEN",
        4 => "BY",
        5 => "COLUMN",
        6 => "CREATE",
        7 => "DATABASE",
        8 => "DEFAULT",
        9 => "DESC",
        10 => "DETACH",
        11 => "DISTINCT",
        12 => "DROP",
        13 => "EXISTS",
        14 => "FROM",
        15 => "GROUP",
        16 => "HAVING",
        17 => "IGNORE",
        18 => "IN",
        19 => "INDEX",
        20 => "INSERT",
        21 => "INTO",
        22 => "ORDER",
        23 => "JOIN",
        24 => "LEFT",
        25 => "LIKE",
        26 => "LIMIT",
        27 => "NOT",
        28 => "NULL",
        29 => "OFFSET",
        30 => "ON",
        31 => "OR",
        32 => "PRIMARY",
        33 => "SELECT",
        34 => "SET",
        35 => "TABLE",
        36 => "TEMPORARY",
        37 => "TO",
        38 => "UNIQUE",
        39 => "VALUES",
        40 => "VIEW",
        _ => "WHERE",
    }
}

/// Whether a reserved word may end before `pos`: there the input ends, or a
/// space, a line feed, a tab or one of `; ( ) , =` stands.
pub open spec fn keyword_follows(s: Seq<u8>, pos: int) -> bool {
    pos == s.len() || (0 <= pos < s.len() && (s[pos] == ' ' as u8 || s[pos] == '\n' as u8 || s[pos]
        == ';' as u8 || s[pos] == '(' as u8 || s[pos] == ')' as u8 || s[pos] == '\t' as u8 || s[pos]
        == ',' as u8 || s[pos] == '=' as u8))
}

/// Whether the `k`-th reserved word stands at `pos`, in any case, and ends there.
pub open spec fn keyword_matches(s: Seq<u8>, pos: int, k: int) -> bool {
    has_tag_no_case(s, pos, keyword_bytes(k)) && keyword_follows(s, pos + keyword_bytes(k).len())
}

/// The first reserved word from the `k`-th on that matches at `pos`.
pub open spec fn first_keyword(s: Seq<u8>, pos: int, k: int) -> Option<int>
    decreases KEYWORDS - k,
{
    if k >= KEYWORDS {
        None
    } else if keyword_matches(s, pos, k) {
        Some(k)
    } else {
        first_keyword(s, pos, k + 1)
    }
}

/// The end of the reserved word at `pos`.
pub open spec fn spec_sql_keyword(s: Seq<u8>, pos: int) -> Result<int, ParseError> {
    match first_keyword(s, pos, 0) {
        Some(k) => Ok(pos + keyword_bytes(k).len()),
        None => Err(syntax(ErrorKind::Keyword, pos)),
    }
}

/// Whether a reserved word may end before `pos`.
pub fn follows_keyword(buf: &[u8], pos: usize) -> (r: bool)
    requires
        pos <= buf.len(),
    ensures
        r == keyword_follows(buf@, pos as int),
{
    if pos == buf.len() {
        true
    } else {
        let b = buf[pos];
        b == 32 || b == 10 || b == 59 || b == 40 || b == 41 || b == 9 || b == 44 || b == 61
    }
}

/// The end of the reserved word that stands at `pos`.
pub fn keyword_at(buf: &[u8], pos: usize) -> (r: Result<usize, ParseError>)
    requires
        pos <= buf.len(),
    ensures
        crate::error::agrees_end(r, spec_sql_keyword(buf@, pos as int)),
        r is Ok ==> pos <= r->Ok_0 <= buf.len(),
{
    let mut k: usize = 0;
    while k < KEYWORDS
        invariant
            k <= KEYWORDS,
            pos <= buf.len(),
            first_keyword(buf@, pos as int, 0) == first_keyword(buf@, pos as int, k as int),
        decreases KEYWORDS - k,
    {
        match tag_no_case(buf, pos, keyword(k)) {
            Some(end) => {
                if follows_keyword(buf, end) {
                    return Ok(end);
                }
            },
            None => {},
        }
        k = k + 1;
    }
    Err(ParseError::Syntax { kind: ErrorKind::Keyword, position: pos })
}

/// Reads a reserved word: one of the words of the table, in any case, before
/// the end of the input or one of the bytes that [`keyword_follows`] names.
/// Gives the rest of the input and the word as it stands there.
pub fn sql_keyword<'a>(i: &'a [u8]) -> (r: Result<(&'a [u8], &'a [u8]), ParseError>)
    ensures
        match spec_sql_keyword(i@, 0) {
            Ok(end) => r is Ok && r->Ok_0.0@ == i@.skip(end) && r->Ok_0.1@ == i@.take(end),
            Err(e) => r is Err && r->Err_0 == e,
        },
{
    match keyword_at(i, 0) {
        Ok(end) => Ok((slice_subrange(i, end, i.len()), slice_subrange(i, 0, end))),
        Err(e) => Err(e),
    }
}

/// Whether `t` is a reserved word, in any case.
pub open spec fn is_reserved(t: Seq<u8>) -> bool {
    exists|k: int|
        0 <= k < KEYWORDS && #[trigger] keyword_bytes(k).len() == t.len() && has_tag_no_case(
            t,
            0,
            keyword_bytes(k),
        )
}

/// Whether `t` can stand in the input as a bare identifier: it is not empty,
/// made of letters, digits, `_` and `@`, and no reserved word.
pub open spec fn is_bare_identifier(t: Seq<u8>) -> bool {
    &&& t.len() > 0
    &&& forall|i: int| 0 <= i < t.len() ==> ByteClass::Identifier.has(#[trigger] t[i])
    &&& !is_reserved(t)
}

/// The bytes of an identifier as the printers write it: as it is where it
/// can stand bare, else between backticks.
pub open spec fn spec_escape(t: Seq<u8>) -> Seq<u8> {
    if is_bare_identifier(t) {
        t
    } else {
        lit("`") + t + lit("`")
    }
}

} // verus!
