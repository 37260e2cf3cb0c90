//! Value expressions and string literals.
//!
//! An expression is read, not taken apart: the rules give the position
//! behind it, and the statement keeps its text.

use vstd::prelude::*;
use vstd::slice::slice_subrange;
use crate::error::{
    agrees, agrees_end, failure, gives_up, syntax, ErrorKind, ParseError, Violation,
};
use crate::ident::{identifier_at, spec_sql_identifier};
use crate::scan::{
    byte_at, has_tag_no_case, is_byte_at, is_operator, lit, operator_at, plain_run, sep_comma_at,
    sep_comma_end, skip_ws, tag_no_case, ws_end, ByteClass, MAX_NESTING,
};

verus! {

/// The byte that a backslash and `x` stand for in a string literal.
pub open spec fn spec_unescape(x: u8) -> u8 {
    if x == 'b' as u8 {
        0x7f
    } else if x == 'r' as u8 {
        '\r' as u8
    } else if x == 'n' as u8 {
        '\n' as u8
    } else if x == 't' as u8 {
        '\t' as u8
    } else if x == '0' as u8 {
        0
    } else if x == 'Z' as u8 {
        0x1a
    } else {
        x
    }
}

/// The end of the body of a string literal between quotes `q`, from `pos`
/// on: it runs up to the first `q` that is not doubled and that no
/// backslash precedes, to a backslash that ends the input, or to the end of
/// the input.
pub open spec fn string_body_end(s: Seq<u8>, pos: int, q: u8) -> int
    decreases s.len() - pos,
{
    if pos < 0 || pos >= s.len() {
        pos
    } else if s[pos] == '\\' as u8 {
        if pos + 1 < s.len() {
            string_body_end(s, pos + 2, q)
        } else {
            pos
        }
    } else if s[pos] == q {
        if pos + 1 < s.len() && s[pos + 1] == q {
            string_body_end(s, pos + 2, q)
        } else {
            pos
        }
    } else {
        string_body_end(s, pos + 1, q)
    }
}

/// The bytes that the body of a string literal stands for: a doubled quote
/// for one quote, a backslash and a byte for what [`spec_unescape`] gives,
/// any other byte for itself.
pub open spec fn string_body_value(s: Seq<u8>, pos: int, q: u8) -> Seq<u8>
    decreases s.len() - pos,
{
    if pos < 0 || pos >= s.len() {
        seq![]
    } else if s[pos] == '\\' as u8 {
        if pos + 1 < s.len() {
            seq![spec_unescape(s[pos + 1])] + string_body_value(s, pos + 2, q)
        } else {
            seq![]
        }
    } else if s[pos] == q {
        if pos + 1 < s.len() && s[pos + 1] == q {
            seq![q] + string_body_value(s, pos + 2, q)
        } else {
            seq![]
        }
    } else {
        seq![s[pos]] + string_body_value(s, pos + 1, q)
    }
}

/// The string literal between quotes `q` at `pos`: the bytes it stands for,
/// and its end.
pub open spec fn spec_raw_string_quoted(s: Seq<u8>, pos: int, q: u8) -> Result<
    (Seq<u8>, int),
    ParseError,
> {
    let end = string_body_end(s, pos + 1, q);
    if byte_at(s, pos, q) && byte_at(s, end, q) {
        Ok((string_body_value(s, pos + 1, q), end + 1))
    } else {
        Err(syntax(ErrorKind::StringLiteral, pos))
    }
}

/// An expression: a simple expression, or two of them with an infix
/// operator between them. `depth` is how many more levels of brackets may
/// be entered.
pub open spec fn spec_sql_expression(s: Seq<u8>, pos: int, depth: nat) -> Result<int, ParseError>
    decreases depth, 4int,
{
    match spec_sql_simple_expression(s, pos, depth) {
        Err(e) => Err(e),
        Ok(first) => {
            let op = ws_end(s, first);
            if 0 <= op < s.len() && is_operator(s[op]) {
                match spec_sql_simple_expression(s, ws_end(s, op + 1), depth) {
                    Ok(second) => Ok(second),
                    Err(e) => if e is Failure {
                        Err(e)
                    } else {
                        Ok(first)
                    },
                }
            } else {
                Ok(first)
            }
        },
    }
}

/// A simple expression: the first that matches of a function call, a
/// `CAST`, a tuple, a string literal in single or in double quotes, and an
/// identifier.
pub open spec fn spec_sql_simple_expression(s: Seq<u8>, pos: int, depth: nat) -> Result<
    int,
    ParseError,
>
    decreases depth, 3int,
{
    let function = spec_sql_function(s, pos, depth);
    let cast = spec_sql_cast_function(s, pos, depth);
    let tuple = spec_sql_tuple(s, pos, depth);
    if !gives_up(function) {
        function
    } else if !gives_up(cast) {
        cast
    } else if !gives_up(tuple) {
        tuple
    } else if let Ok((_, end)) = spec_raw_string_quoted(s, pos, '\'' as u8) {
        Ok(end)
    } else if let Ok((_, end)) = spec_raw_string_quoted(s, pos, '"' as u8) {
        Ok(end)
    } else if let Ok((_, end)) = spec_sql_identifier(s, pos) {
        Ok(end)
    } else {
        Err(syntax(ErrorKind::Expression, pos))
    }
}

/// A function call: an identifier, white space, a tuple.
pub open spec fn spec_sql_function(s: Seq<u8>, pos: int, depth: nat) -> Result<int, ParseError>
    decreases depth, 2int,
{
    match spec_sql_identifier(s, pos) {
        Err(e) => Err(e),
        Ok((_, end)) => spec_sql_tuple(s, ws_end(s, end), depth),
    }
}

/// A tuple: `(`, expressions with commas between them, `)`.
pub open spec fn spec_sql_tuple(s: Seq<u8>, pos: int, depth: nat) -> Result<int, ParseError>
    decreases depth, 1int,
{
    if !byte_at(s, pos, '(' as u8) {
        Err(syntax(ErrorKind::Tag, pos))
    } else if depth == 0 {
        Err(failure(Violation::NestingTooDeep, pos))
    } else {
        match spec_expression_list(s, pos + 1, (depth - 1) as nat) {
            Err(e) => Err(e),
            Ok(end) => if byte_at(s, end, ')' as u8) {
                Ok(end + 1)
            } else {
                Err(syntax(ErrorKind::Tag, end))
            },
        }
    }
}

/// Expressions with commas between them, none at all included: the end of
/// the last one.
pub open spec fn spec_expression_list(s: Seq<u8>, pos: int, depth: nat) -> Result<int, ParseError>
    decreases depth, 6int, s.len() - pos,
{
    match spec_sql_expression(s, pos, depth) {
        Err(e) => if e is Failure {
            Err(e)
        } else {
            Ok(pos)
        },
        Ok(end) => if pos < end <= s.len() {
            spec_expression_list_tail(s, end, depth)
        } else {
            Ok(pos)
        },
    }
}

/// The end of the list of which an expression ends at `pos`: behind each
/// further comma that an expression follows.
pub open spec fn spec_expression_list_tail(s: Seq<u8>, pos: int, depth: nat) -> Result<
    int,
    ParseError,
>
    decreases depth, 5int, s.len() - pos,
{
    match sep_comma_end(s, pos) {
        None => Ok(pos),
        Some(next) => match spec_sql_expression(s, next, depth) {
            Err(e) => if e is Failure {
                Err(e)
            } else {
                Ok(pos)
            },
            Ok(end) => if pos < end <= s.len() {
                spec_expression_list_tail(s, end, depth)
            } else {
                Ok(pos)
            },
        },
    }
}

/// A cast: `CAST (` expression, then `,` or `AS`, expression `)`, with
/// white space between them as one likes.
pub open spec fn spec_sql_cast_function(s: Seq<u8>, pos: int, depth: nat) -> Result<
    int,
    ParseError,
>
    decreases depth, 1int,
{
    let open = ws_end(s, pos + 4);
    if !has_tag_no_case(s, pos, lit("CAST")) {
        Err(syntax(ErrorKind::Tag, pos))
    } else if !byte_at(s, open, '(' as u8) {
        Err(syntax(ErrorKind::Tag, open))
    } else if depth == 0 {
        Err(failure(Violation::NestingTooDeep, open))
    } else {
        match spec_sql_expression(s, open + 1, (depth - 1) as nat) {
            Err(e) => Err(e),
            Ok(value_end) => {
                let word = ws_end(s, value_end);
                let word_end = if byte_at(s, word, ',' as u8) {
                    Some(word + 1)
                } else if has_tag_no_case(s, word, lit("AS")) {
                    Some(word + 2)
                } else {
                    None
                };
                match word_end {
                    None => Err(syntax(ErrorKind::Tag, word)),
                    Some(w) => match spec_sql_expression(s, ws_end(s, w), (depth - 1) as nat) {
                        Err(e) => Err(e),
                        Ok(type_end) => {
                            let close = ws_end(s, type_end);
                            if byte_at(s, close, ')' as u8) {
                                Ok(close + 1)
                            } else {
                                Err(syntax(ErrorKind::Tag, close))
                            }
                        },
                    },
                }
            },
        }
    }
}

/// The byte that a backslash and `x` stand for in a string literal.
#[verifier::when_used_as_spec(spec_unescape)]
pub fn unescape(x: u8) -> (r: u8)
    ensures
        r == spec_unescape(x),
{
    if x == 98 {
        0x7f
    } else if x == 114 {
        13
    } else if x == 110 {
        10
    } else if x == 116 {
        9
    } else if x == 48 {
        0
    } else if x == 90 {
        0x1a
    } else {
        x
    }
}

/// A run of bytes that are neither `q` nor a backslash belongs to the body
/// as it stands.
proof fn lemma_string_body_run(s: Seq<u8>, pos: int, end: int, q: u8)
    requires
        0 <= pos <= end <= s.len(),
        forall|i: int| pos <= i < end ==> ByteClass::Plain(q).has(#[trigger] s[i]),
    ensures
        string_body_end(s, pos, q) == string_body_end(s, end, q),
        string_body_value(s, pos, q) == s.subrange(pos, end) + string_body_value(s, end, q),
    decreases end - pos,
{
    if pos < end {
        lemma_string_body_run(s, pos + 1, end, q);
        assert(ByteClass::Plain(q).has(s[pos]));
        assert(seq![s[pos]] + (s.subrange(pos + 1, end) + string_body_value(s, end, q))
            =~= s.subrange(pos, end) + string_body_value(s, end, q));
    } else {
        assert(s.subrange(pos, end) + string_body_value(s, end, q) =~= string_body_value(
            s,
            end,
            q,
        ));
    }
}

/// The string literal between quotes `q` at `pos`.
pub fn raw_string_at(buf: &[u8], pos: usize, q: u8) -> (r: Result<(Vec<u8>, usize), ParseError>)
    requires
        pos <= buf.len(),
        q == '\'' as u8 || q == '"' as u8,
    ensures
        agrees(r, spec_raw_string_quoted(buf@, pos as int, q)),
        r is Ok ==> pos + 2 <= r->Ok_0.1 <= buf.len(),
{
    if !is_byte_at(buf, pos, q) {
        return Err(ParseError::Syntax { kind: ErrorKind::StringLiteral, position: pos });
    }
    let mut acc: Vec<u8> = Vec::new();
    let mut p: usize = pos + 1;
    loop
        invariant
            pos < p <= buf.len(),
            q == '\'' as u8 || q == '"' as u8,
            byte_at(buf@, pos as int, q),
            string_body_end(buf@, p as int, q) == string_body_end(buf@, pos + 1, q),
            acc@ + string_body_value(buf@, p as int, q) == string_body_value(buf@, pos + 1, q),
        decreases buf.len() - p,
    {
        let ghost before = acc@;
        if let Some(end) = plain_run(buf, p, q) {
            proof {
                crate::scan::lemma_run_end_props(buf@, p as int, ByteClass::Plain(q));
                lemma_string_body_run(buf@, p as int, end as int, q);
                assert(before + buf@.subrange(p as int, end as int) + string_body_value(
                    buf@,
                    end as int,
                    q,
                ) =~= before + string_body_value(buf@, p as int, q));
            }
            acc.extend_from_slice(slice_subrange(buf, p, end));
            p = end;
        } else if p < buf.len() && p + 1 < buf.len() && buf[p] == q && buf[p + 1] == q {
            proof {
                assert(before.push(q) + string_body_value(buf@, p + 2, q) =~= before
                    + string_body_value(buf@, p as int, q));
            }
            acc.push(q);
            p = p + 2;
        } else if p < buf.len() && p + 1 < buf.len() && buf[p] == 92 {
            proof {
                assert(before.push(spec_unescape(buf@[p + 1])) + string_body_value(buf@, p + 2, q)
                    =~= before + string_body_value(buf@, p as int, q));
            }
            acc.push(unescape(buf[p + 1]));
            p = p + 2;
        } else {
            proof {
                crate::scan::lemma_run_end_props(buf@, p as int, ByteClass::Plain(q));
                assert(string_body_end(buf@, p as int, q) == p);
                assert(string_body_value(buf@, p as int, q) =~= seq![]);
                assert(acc@ =~= string_body_value(buf@, pos + 1, q));
            }
            if is_byte_at(buf, p, q) {
                return Ok((acc, p + 1));
            } else {
                return Err(ParseError::Syntax { kind: ErrorKind::StringLiteral, position: pos });
            }
        }
    }
}

/// The end of the expression at `pos`.
pub fn expression_at(buf: &[u8], pos: usize, depth: usize) -> (r: Result<usize, ParseError>)
    requires
        pos <= buf.len(),
    ensures
        agrees_end(r, spec_sql_expression(buf@, pos as int, depth as nat)),
        r is Ok ==> pos < r->Ok_0 <= buf.len(),
    decreases depth, 4int,
{
    let first = simple_expression_at(buf, pos, depth)?;
    let op = skip_ws(buf, first);
    if operator_at(buf, op) {
        match simple_expression_at(buf, skip_ws(buf, op + 1), depth) {
            Ok(second) => Ok(second),
            Err(e) => if e.is_failure() {
                Err(e)
            } else {
                Ok(first)
            },
        }
    } else {
        Ok(first)
    }
}

/// The end of the simple expression at `pos`.
pub fn simple_expression_at(buf: &[u8], pos: usize, depth: usize) -> (r: Result<usize, ParseError>)
    requires
        pos <= buf.len(),
    ensures
        agrees_end(r, spec_sql_simple_expression(buf@, pos as int, depth as nat)),
        r is Ok ==> pos < r->Ok_0 <= buf.len(),
    decreases depth, 3int,
{
    match function_at(buf, pos, depth) {
        Ok(end) => {
            return Ok(end);
        },
        Err(e) => if e.is_failure() {
            return Err(e);
        },
    }
    match cast_function_at(buf, pos, depth) {
        Ok(end) => {
            return Ok(end);
        },
        Err(e) => if e.is_failure() {
            return Err(e);
        },
    }
    match tuple_at(buf, pos, depth) {
        Ok(end) => {
            return Ok(end);
        },
        Err(e) => if e.is_failure() {
            return Err(e);
        },
    }
    if let Ok((_, end)) = raw_string_at(buf, pos, 39) {
        return Ok(end);
    }
    if let Ok((_, end)) = raw_string_at(buf, pos, 34) {
        return Ok(end);
    }
    if let Ok((_, end)) = identifier_at(buf, pos) {
        return Ok(end);
    }
    Err(ParseError::Syntax { kind: ErrorKind::Expression, position: pos })
}

/// The end of the function call at `pos`.
pub fn function_at(buf: &[u8], pos: usize, depth: usize) -> (r: Result<usize, ParseError>)
    requires
        pos <= buf.len(),
    ensures
        agrees_end(r, spec_sql_function(buf@, pos as int, depth as nat)),
        r is Ok ==> pos < r->Ok_0 <= buf.len(),
    decreases depth, 2int,
{
    let (_, end) = identifier_at(buf, pos)?;
    tuple_at(buf, skip_ws(buf, end), depth)
}

/// The end of the tuple at `pos`.
pub fn tuple_at(buf: &[u8], pos: usize, depth: usize) -> (r: Result<usize, ParseError>)
    requires
        pos <= buf.len(),
    ensures
        agrees_end(r, spec_sql_tuple(buf@, pos as int, depth as nat)),
        r is Ok ==> pos < r->Ok_0 <= buf.len(),
    decreases depth, 1int,
{
    if !is_byte_at(buf, pos, 40) {
        return Err(ParseError::Syntax { kind: ErrorKind::Tag, position: pos });
    }
    if depth == 0 {
        return Err(ParseError::Failure { violation: Violation::NestingTooDeep, position: pos });
    }
    let end = expression_list_at(buf, pos + 1, depth - 1)?;
    if is_byte_at(buf, end, 41) {
        Ok(end + 1)
    } else {
        Err(ParseError::Syntax { kind: ErrorKind::Tag, position: end })
    }
}

/// The end of the list of expressions at `pos`.
pub fn expression_list_at(buf: &[u8], pos: usize, depth: usize) -> (r: Result<usize, ParseError>)
    requires
        pos <= buf.len(),
    ensures
        agrees_end(r, spec_expression_list(buf@, pos as int, depth as nat)),
        r is Ok ==> pos <= r->Ok_0 <= buf.len(),
    decreases depth, 6int,
{
    let mut p: usize = match expression_at(buf, pos, depth) {
        Ok(end) => end,
        Err(e) => {
            if e.is_failure() {
                return Err(e);
            } else {
                return Ok(pos);
            }
        },
    };
    loop
        invariant
            pos < p <= buf.len(),
            spec_expression_list(buf@, pos as int, depth as nat) == spec_expression_list_tail(
                buf@,
                p as int,
                depth as nat,
            ),
        decreases buf.len() - p,
    {
        match sep_comma_at(buf, p) {
            None => {
                return Ok(p);
            },
            Some(next) => match expression_at(buf, next, depth) {
                Ok(end) => {
                    p = end;
                },
                Err(e) => {
                    if e.is_failure() {
                        return Err(e);
                    } else {
                        return Ok(p);
                    }
                },
            },
        }
    }
}

/// The end of the cast at `pos`.
pub fn cast_function_at(buf: &[u8], pos: usize, depth: usize) -> (r: Result<usize, ParseError>)
    requires
        pos <= buf.len(),
    ensures
        agrees_end(r, spec_sql_cast_function(buf@, pos as int, depth as nat)),
        r is Ok ==> pos < r->Ok_0 <= buf.len(),
    decreases depth, 1int,
{
    proof {
        reveal_strlit("CAST");
        reveal_strlit("AS");
        vstd::utf8::is_ascii_chars_encode_utf8("CAST"@);
        vstd::utf8::is_ascii_chars_encode_utf8("AS"@);
    }
    let open = match tag_no_case(buf, pos, "CAST") {
        Some(end) => skip_ws(buf, end),
        None => {
            return Err(ParseError::Syntax { kind: ErrorKind::Tag, position: pos });
        },
    };
    if !is_byte_at(buf, open, 40) {
        return Err(ParseError::Syntax { kind: ErrorKind::Tag, position: open });
    }
    if depth == 0 {
        return Err(ParseError::Failure { violation: Violation::NestingTooDeep, position: open });
    }
    let value_end = expression_at(buf, open + 1, depth - 1)?;
    let word = skip_ws(buf, value_end);
    let word_end = if is_byte_at(buf, word, 44) {
        word + 1
    } else {
        match tag_no_case(buf, word, "AS") {
            Some(end) => end,
            None => {
                return Err(ParseError::Syntax { kind: ErrorKind::Tag, position: word });
            },
        }
    };
    let type_end = expression_at(buf, skip_ws(buf, word_end), depth - 1)?;
    let close = skip_ws(buf, type_end);
    if is_byte_at(buf, close, 41) {
        Ok(close + 1)
    } else {
        Err(ParseError::Syntax { kind: ErrorKind::Tag, position: close })
    }
}

/// The end of the expression at `pos` that is not part of another
/// expression: [`MAX_NESTING`] levels of brackets may be entered.
#[verifier::opaque]
pub open spec fn spec_expression(s: Seq<u8>, pos: int) -> Result<int, ParseError> {
    spec_sql_expression(s, pos, MAX_NESTING as nat)
}

/// The end of the expression at `pos` that is not part of another
/// expression.
pub fn top_expression_at(buf: &[u8], pos: usize) -> (r: Result<usize, ParseError>)
    requires
        pos <= buf.len(),
    ensures
        agrees_end(r, spec_expression(buf@, pos as int)),
        r is Ok ==> pos < r->Ok_0 <= buf.len(),
{
    proof {
        reveal(spec_expression);
    }
    expression_at(buf, pos, MAX_NESTING)
}

/// Reads an expression, and gives the rest of the input and the text of the
/// expression.
pub fn sql_expression<'a>(i: &'a [u8]) -> (r: Result<(&'a [u8], &'a [u8]), ParseError>)
    ensures
        match spec_expression(i@, 0) {
            Ok(end) => r is Ok && r->Ok_0.0@ == i@.skip(end) && r->Ok_0.1@ == i@.take(end),
            Err(e) => r is Err && r->Err_0 == e,
        },
{
    match top_expression_at(i, 0) {
        Ok(end) => Ok((slice_subrange(i, end, i.len()), slice_subrange(i, 0, end))),
        Err(e) => Err(e),
    }
}

/// Reads a string literal, in single quotes if `is_single_quote` and in
/// double quotes if not, and gives the rest of the input and the bytes that
/// the literal stands for.
pub fn raw_string_quoted<'a>(input: &'a [u8], is_single_quote: bool) -> (r: Result<
    (&'a [u8], Vec<u8>),
    ParseError,
>)
    ensures
        match spec_raw_string_quoted(
            input@,
            0,
            if is_single_quote {
                '\'' as u8
            } else {
                '"' as u8
            },
        ) {
            Ok((v, end)) => r is Ok && r->Ok_0.0@ == input@.skip(end) && r->Ok_0.1@ == v,
            Err(e) => r is Err && r->Err_0 == e,
        },
{
    let q: u8 = if is_single_quote {
        39
    } else {
        34
    };
    match raw_string_at(input, 0, q) {
        Ok((v, end)) => Ok((slice_subrange(input, end, input.len()), v)),
        Err(e) => Err(e),
    }
}

} // verus!
