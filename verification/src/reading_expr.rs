//! Expressions that are self-delimiting.

use vstd::prelude::*;
use vstd::utf8::valid_utf8;
use crate::error::{gives_up, ParseError};
use crate::expr::{
    spec_expression, spec_expression_list, spec_expression_list_tail, spec_raw_string_quoted,
    spec_sql_cast_function, spec_sql_expression, spec_sql_function, spec_sql_simple_expression,
    spec_sql_tuple, string_body_end,
};
use crate::ident::spec_sql_identifier;
use crate::keywords::is_bare_identifier;
use crate::reading::{
    lemma_bare_identifier_read, lemma_lit, lemma_not_word, lemma_tag_bounds, lemma_tag_byte,
    lemma_tag_split, lemma_ws_stop,
};
use crate::reading_column::{behind_column, behind_expression, self_delimiting};
use crate::scan::{
    byte_at, has_tag, is_space, lemma_run_end_bounds, lit, run_end, spec_is_sql_identifier,
    word_end, ws_end, ByteClass, MAX_NESTING,
};

verus! {

/// What the first byte is behind an expression, and behind the white space
/// behind it: no byte of an identifier, no quote, no operator and no
/// opening bracket.
pub proof fn lemma_behind_expression(s: Seq<u8>, q: int)
    requires
        0 <= q <= s.len(),
        behind_expression(s, q),
    ensures
        q == s.len() || s[q] == ' ' as u8 || s[q] == ',' as u8 || s[q] == ')' as u8 || s[q]
            == '\n' as u8,
        q <= ws_end(s, q) <= s.len(),
        ws_end(s, q) == s.len() || s[ws_end(s, q)] == ',' as u8 || s[ws_end(s, q)] == ')' as u8
            || s[ws_end(s, q)] == 'C' as u8 || s[ws_end(s, q)] == 'T' as u8,
{
    lemma_run_end_bounds(s, q, ByteClass::Space);
    if behind_column(s, q) {
        crate::reading_column::lemma_behind_column(s, q);
    } else if has_tag(s, q, lit(" COMMENT '")) {
        crate::words::lemma_bytes_space_comment_space_quote_cased();
        crate::reading_column::lemma_clause_lead(s, q, lit(" COMMENT '"));
    } else if has_tag(s, q, lit(" CODEC(")) {
        crate::words::lemma_bytes_space_codec_open_cased();
        crate::reading_column::lemma_clause_lead(s, q, lit(" CODEC("));
    } else if has_tag(s, q, lit(" TTL ")) {
        crate::words::lemma_bytes_space_ttl_space_cased();
        crate::reading_column::lemma_clause_lead(s, q, lit(" TTL "));
    } else if has_tag(s, q, lit(", ")) {
        crate::words::lemma_bytes_comma_space();
        lemma_tag_byte(s, q, lit(", "), 0);
        lemma_ws_stop(s, q);
    } else {
        crate::words::lemma_bytes_close();
        lemma_tag_byte(s, q, lit(")"), 0);
        lemma_ws_stop(s, q);
    }
}

/// No cast is read where a bare identifier stands before the end of an
/// expression.
pub proof fn lemma_no_cast(s: Seq<u8>, pos: int, end: int, depth: nat)
    requires
        0 <= pos < end <= s.len(),
        forall|j: int| pos <= j < end ==> spec_is_sql_identifier(#[trigger] s[j]),
        end == s.len() || !spec_is_sql_identifier(s[end]),
        !byte_at(s, ws_end(s, end), '(' as u8),
    ensures
        gives_up(spec_sql_cast_function(s, pos, depth)),
{
    reveal_strlit("CAST");
    lemma_lit("CAST");
    if word_end(s, pos, lit("CAST")) is Some {
        reveal(crate::scan::has_tag_no_case);
        if pos + 4 < end {
            assert(!is_space(s[pos + 4]));
            lemma_ws_stop(s, pos + 4);
        } else if pos + 4 == end {
        } else {
            assert(crate::scan::lower(s[end]) == crate::scan::lower(lit("CAST")[end - pos]));
        }
    }
}

/// Whether the grammar of expressions, with `depth` levels of brackets to
/// enter, reads all of the text and no more wherever the text stands before
/// one of the texts that the printers put behind an expression; and the
/// text does not begin with white space.
#[verifier::opaque]
pub open spec fn reads_whole(e: Seq<u8>, depth: nat) -> bool {
    &&& e.len() > 0
    &&& !is_space(e[0])
    &&& forall|s: Seq<u8>, pos: int|
        #[trigger] has_tag(s, pos, e) && behind_expression(s, pos + e.len())
            ==> spec_sql_expression(s, pos, depth) == Ok::<int, ParseError>(pos + e.len())
}

/// A text that is read as a whole is not empty and does not begin with
/// white space.
pub proof fn lemma_reads_whole_text(e: Seq<u8>, depth: nat)
    requires
        reads_whole(e, depth),
    ensures
        e.len() > 0,
        !is_space(e[0]),
{
    reveal(reads_whole);
}

/// A text that is read as a whole is read where it stands before what the
/// printers put behind an expression.
pub proof fn lemma_reads_whole_read(s: Seq<u8>, pos: int, e: Seq<u8>, depth: nat)
    requires
        reads_whole(e, depth),
        has_tag(s, pos, e),
        behind_expression(s, pos + e.len()),
    ensures
        spec_sql_expression(s, pos, depth) == Ok::<int, ParseError>(pos + e.len()),
{
    reveal(reads_whole);
}

/// A text of valid UTF-8 that is read as a whole with all the levels of
/// brackets that the grammar follows is a self-delimiting expression.
pub proof fn lemma_reads_whole_is_self_delimiting(e: Seq<u8>)
    requires
        valid_utf8(e),
        reads_whole(e, MAX_NESTING as nat),
    ensures
        self_delimiting(e),
{
    reveal(self_delimiting);
    reveal(reads_whole);
    reveal(spec_expression);
}

/// A bare identifier that is no reserved word is read as a whole.
pub proof fn lemma_identifier_reads_whole(e: Seq<u8>, depth: nat)
    requires
        is_bare_identifier(e),
    ensures
        reads_whole(e, depth),
{
    reveal(reads_whole);
    assert(ByteClass::Identifier.has(e[0]));
    assert forall|s: Seq<u8>, pos: int|
        #[trigger] has_tag(s, pos, e) && behind_expression(
            s,
            pos + e.len(),
        ) implies spec_sql_expression(s, pos, depth) == Ok::<int, ParseError>(pos + e.len()) by {
        lemma_identifier_read_as_expression(s, pos, e, depth);
    }
}

/// A bare identifier is read as an expression where it stands before the
/// end of an expression.
pub proof fn lemma_identifier_read_as_expression(s: Seq<u8>, pos: int, e: Seq<u8>, depth: nat)
    requires
        is_bare_identifier(e),
        has_tag(s, pos, e),
        behind_expression(s, pos + e.len()),
    ensures
        spec_sql_expression(s, pos, depth) == Ok::<int, ParseError>(pos + e.len()),
{
    let end = pos + e.len();
    lemma_tag_bounds(s, pos, e);
    lemma_behind_expression(s, end);
    lemma_bare_identifier_read(s, pos, e);
    crate::reading::lemma_tag_class(s, pos, e, ByteClass::Identifier);
    lemma_no_cast(s, pos, end, depth);
    assert(ByteClass::Identifier.has(s[pos]));
    assert(gives_up(spec_sql_tuple(s, ws_end(s, end), depth)));
    assert(gives_up(spec_sql_function(s, pos, depth)));
    assert(gives_up(spec_sql_tuple(s, pos, depth)));
    assert(spec_raw_string_quoted(s, pos, '\'' as u8) is Err);
    assert(spec_raw_string_quoted(s, pos, '"' as u8) is Err);
    assert(spec_sql_simple_expression(s, pos, depth) == Ok::<int, ParseError>(end));
}

/// Whether the text can stand between single quotes in an expression as it
/// is: it holds no single quote and no backslash.
pub open spec fn plain_string(t: Seq<u8>) -> bool {
    forall|i: int| 0 <= i < t.len() ==> ByteClass::Plain('\'' as u8).has(#[trigger] t[i])
}

/// The body of a string literal without quotes and backslashes ends where
/// the quote behind it stands.
pub proof fn lemma_plain_body(s: Seq<u8>, pos: int, end: int)
    requires
        0 <= pos <= end < s.len(),
        forall|j: int| pos <= j < end ==> ByteClass::Plain('\'' as u8).has(#[trigger] s[j]),
        s[end] == '\'' as u8,
        end + 1 == s.len() || s[end + 1] != '\'' as u8,
    ensures
        string_body_end(s, pos, '\'' as u8) == end,
    decreases end - pos,
{
    if pos < end {
        assert(ByteClass::Plain('\'' as u8).has(s[pos]));
        lemma_plain_body(s, pos + 1, end);
    }
}

/// A string literal in single quotes without quotes and backslashes in it
/// is read as an expression where it stands before the end of an
/// expression.
pub proof fn lemma_string_read_as_expression(s: Seq<u8>, pos: int, t: Seq<u8>, depth: nat)
    requires
        plain_string(t),
        has_tag(s, pos, lit("'") + t + lit("'")),
        behind_expression(s, pos + t.len() + 2),
    ensures
        spec_sql_expression(s, pos, depth) == Ok::<int, ParseError>(pos + t.len() + 2),
{
    crate::words::lemma_bytes_quote();
    let close = pos + 1 + t.len();
    lemma_tag_split(s, pos, lit("'") + t, lit("'"));
    lemma_tag_split(s, pos, lit("'"), t);
    lemma_tag_byte(s, pos, lit("'"), 0);
    lemma_tag_byte(s, close, lit("'"), 0);
    lemma_tag_bounds(s, close, lit("'"));
    lemma_behind_expression(s, close + 1);
    crate::reading::lemma_tag_class(s, pos + 1, t, ByteClass::Plain('\'' as u8));
    lemma_plain_body(s, pos + 1, close);
    assert(run_end(s, pos, ByteClass::Identifier) == pos);
    assert(spec_sql_identifier(s, pos) is Err);
    reveal_strlit("CAST");
    lemma_lit("CAST");
    lemma_not_word(s, pos, lit("CAST"), 0);
    assert(gives_up(spec_sql_function(s, pos, depth)));
    assert(gives_up(spec_sql_cast_function(s, pos, depth)));
    assert(gives_up(spec_sql_tuple(s, pos, depth)));
    assert(spec_raw_string_quoted(s, pos, '\'' as u8) is Ok);
    assert(spec_sql_simple_expression(s, pos, depth) == Ok::<int, ParseError>(close + 1));
}

/// A string literal in single quotes without quotes and backslashes in it
/// is read as a whole.
pub proof fn lemma_string_reads_whole(t: Seq<u8>, depth: nat)
    requires
        plain_string(t),
    ensures
        reads_whole(lit("'") + t + lit("'"), depth),
{
    reveal(reads_whole);
    crate::words::lemma_bytes_quote();
    let e = lit("'") + t + lit("'");
    assert(e[0] == lit("'")[0]);
    assert(e.len() == t.len() + 2);
    assert forall|s: Seq<u8>, pos: int|
        #[trigger] has_tag(s, pos, e) && behind_expression(
            s,
            pos + e.len(),
        ) implies spec_sql_expression(s, pos, depth) == Ok::<int, ParseError>(pos + e.len()) by {
        lemma_string_read_as_expression(s, pos, t, depth);
    }
}

/// The texts of the first `n` arguments of a call, with `, ` between them.
pub open spec fn arguments_text(args: Seq<Seq<u8>>, n: int) -> Seq<u8>
    decreases n,
{
    if n <= 0 {
        seq![]
    } else if n == 1 {
        args[0]
    } else {
        arguments_text(args, n - 1) + lit(", ") + args[n - 1]
    }
}

/// The text of a call: the name of the function, and the arguments in
/// brackets.
pub open spec fn call_text(name: Seq<u8>, args: Seq<Seq<u8>>) -> Seq<u8> {
    name + lit("(") + arguments_text(args, args.len() as int) + lit(")")
}

/// Whether each of the arguments is read as a whole.
pub open spec fn arguments_read_whole(args: Seq<Seq<u8>>, depth: nat) -> bool {
    forall|i: int| 0 <= i < args.len() ==> reads_whole(#[trigger] args[i], depth)
}

/// No expression is read where a closing bracket stands.
pub proof fn lemma_no_expression(s: Seq<u8>, pos: int, depth: nat)
    requires
        byte_at(s, pos, ')' as u8),
    ensures
        gives_up(spec_sql_expression(s, pos, depth)),
{
    reveal_strlit("CAST");
    lemma_lit("CAST");
    lemma_not_word(s, pos, lit("CAST"), 0);
    assert(run_end(s, pos, ByteClass::Identifier) == pos);
    assert(spec_sql_identifier(s, pos) is Err);
    assert(gives_up(spec_sql_function(s, pos, depth)));
    assert(gives_up(spec_sql_cast_function(s, pos, depth)));
    assert(gives_up(spec_sql_tuple(s, pos, depth)));
    assert(spec_raw_string_quoted(s, pos, '\'' as u8) is Err);
    assert(spec_raw_string_quoted(s, pos, '"' as u8) is Err);
    assert(gives_up(spec_sql_simple_expression(s, pos, depth)));
}

/// The text of the first `k` arguments stands where the text of all
/// stands, and behind it a comma, a space and the next argument.
pub proof fn lemma_arguments_prefix(s: Seq<u8>, pos: int, args: Seq<Seq<u8>>, k: int)
    requires
        1 <= k <= args.len(),
        has_tag(s, pos, arguments_text(args, args.len() as int)),
    ensures
        has_tag(s, pos, arguments_text(args, k)),
        k < args.len() ==> has_tag(s, pos + arguments_text(args, k).len(), lit(", ")) && has_tag(
            s,
            pos + arguments_text(args, k).len() + 2,
            args[k],
        ) && arguments_text(args, k + 1).len() == arguments_text(args, k).len() + 2
            + args[k].len(),
    decreases args.len() - k,
{
    crate::words::lemma_bytes_comma_space();
    if k < args.len() {
        lemma_arguments_prefix(s, pos, args, k + 1);
        lemma_tag_split(s, pos, arguments_text(args, k) + lit(", "), args[k]);
        lemma_tag_split(s, pos, arguments_text(args, k), lit(", "));
    }
}

/// Behind the first `k` arguments of a call stands what the printers put
/// behind an expression: a comma and a space, or the closing bracket.
pub proof fn lemma_behind_argument(s: Seq<u8>, pos: int, args: Seq<Seq<u8>>, k: int)
    requires
        1 <= k <= args.len(),
        has_tag(s, pos, arguments_text(args, args.len() as int)),
        has_tag(s, pos + arguments_text(args, args.len() as int).len(), lit(")")),
    ensures
        behind_expression(s, pos + arguments_text(args, k).len()),
        0 <= pos + arguments_text(args, k).len() <= s.len(),
{
    lemma_arguments_prefix(s, pos, args, k);
    lemma_tag_bounds(s, pos, arguments_text(args, k));
}

/// The arguments of a call from the `k`-th on are read where they are
/// written before the closing bracket.
pub proof fn lemma_arguments_tail_read(
    s: Seq<u8>,
    pos: int,
    args: Seq<Seq<u8>>,
    k: int,
    depth: nat,
)
    requires
        arguments_read_whole(args, depth),
        1 <= k <= args.len(),
        has_tag(s, pos, arguments_text(args, args.len() as int)),
        has_tag(s, pos + arguments_text(args, args.len() as int).len(), lit(")")),
    ensures
        spec_expression_list_tail(s, pos + arguments_text(args, k).len(), depth) == Ok::<
            int,
            ParseError,
        >(pos + arguments_text(args, args.len() as int).len()),
    decreases args.len() - k,
{
    let here = pos + arguments_text(args, k).len();
    lemma_arguments_prefix(s, pos, args, k);
    lemma_behind_argument(s, pos, args, k);
    if k == args.len() {
        crate::words::lemma_bytes_close();
        lemma_tag_byte(s, here, lit(")"), 0);
        lemma_ws_stop(s, here);
    } else {
        let arg = args[k];
        lemma_reads_whole_text(arg, depth);
        crate::reading_statement::lemma_separator_read(s, here, arg);
        lemma_behind_argument(s, pos, args, k + 1);
        lemma_reads_whole_read(s, here + 2, arg, depth);
        lemma_arguments_tail_read(s, pos, args, k + 1, depth);
    }
}

/// The arguments of a call are read where they are written before the
/// closing bracket, be there none.
pub proof fn lemma_arguments_read(s: Seq<u8>, pos: int, args: Seq<Seq<u8>>, depth: nat)
    requires
        arguments_read_whole(args, depth),
        has_tag(s, pos, arguments_text(args, args.len() as int)),
        has_tag(s, pos + arguments_text(args, args.len() as int).len(), lit(")")),
    ensures
        spec_expression_list(s, pos, depth) == Ok::<int, ParseError>(
            pos + arguments_text(args, args.len() as int).len(),
        ),
{
    if args.len() == 0 {
        crate::words::lemma_bytes_close();
        lemma_tag_byte(s, pos, lit(")"), 0);
        lemma_no_expression(s, pos, depth);
    } else {
        lemma_arguments_prefix(s, pos, args, 1);
        lemma_behind_argument(s, pos, args, 1);
        lemma_reads_whole_text(args[0], depth);
        lemma_reads_whole_read(s, pos, args[0], depth);
        lemma_arguments_tail_read(s, pos, args, 1, depth);
    }
}

/// The places of the name, the arguments and the brackets of a call in its
/// text.
pub proof fn lemma_call_parts(s: Seq<u8>, pos: int, name: Seq<u8>, args: Seq<Seq<u8>>)
    requires
        has_tag(s, pos, call_text(name, args)),
    ensures
        has_tag(s, pos, name),
        byte_at(s, pos + name.len(), '(' as u8),
        has_tag(s, pos + name.len() + 1, arguments_text(args, args.len() as int)),
        has_tag(
            s,
            pos + name.len() + 1 + arguments_text(args, args.len() as int).len(),
            lit(")"),
        ),
        byte_at(
            s,
            pos + name.len() + 1 + arguments_text(args, args.len() as int).len(),
            ')' as u8,
        ),
        call_text(name, args).len() == name.len() + 2 + arguments_text(
            args,
            args.len() as int,
        ).len(),
{
    crate::words::lemma_bytes_open();
    crate::words::lemma_bytes_close();
    let a = arguments_text(args, args.len() as int);
    lemma_tag_split(s, pos, name + lit("(") + a, lit(")"));
    lemma_tag_split(s, pos, name + lit("("), a);
    lemma_tag_split(s, pos, name, lit("("));
    lemma_tag_byte(s, pos + name.len(), lit("("), 0);
    lemma_tag_byte(s, pos + name.len() + 1 + a.len(), lit(")"), 0);
}

/// A call is read as a function call where it stands: the name, and the
/// arguments in brackets.
pub proof fn lemma_call_read_as_function(
    s: Seq<u8>,
    pos: int,
    name: Seq<u8>,
    args: Seq<Seq<u8>>,
    depth: nat,
)
    requires
        is_bare_identifier(name),
        arguments_read_whole(args, depth),
        has_tag(s, pos, call_text(name, args)),
    ensures
        spec_sql_function(s, pos, depth + 1) == Ok::<int, ParseError>(
            pos + call_text(name, args).len(),
        ),
{
    lemma_call_parts(s, pos, name, args);
    let open = pos + name.len();
    lemma_bare_identifier_read(s, pos, name);
    lemma_ws_stop(s, open);
    lemma_arguments_read(s, open + 1, args, depth);
    assert(spec_sql_tuple(s, open, depth + 1) == Ok::<int, ParseError>(
        pos + call_text(name, args).len(),
    ));
}

/// A call is read as an expression where it stands before the end of an
/// expression.
pub proof fn lemma_call_read_as_expression(
    s: Seq<u8>,
    pos: int,
    name: Seq<u8>,
    args: Seq<Seq<u8>>,
    depth: nat,
)
    requires
        is_bare_identifier(name),
        arguments_read_whole(args, depth),
        has_tag(s, pos, call_text(name, args)),
        behind_expression(s, pos + call_text(name, args).len()),
    ensures
        spec_sql_expression(s, pos, depth + 1) == Ok::<int, ParseError>(
            pos + call_text(name, args).len(),
        ),
{
    let end = pos + call_text(name, args).len();
    lemma_tag_bounds(s, pos, call_text(name, args));
    lemma_call_read_as_function(s, pos, name, args, depth);
    lemma_behind_expression(s, end);
    assert(spec_sql_simple_expression(s, pos, depth + 1) == Ok::<int, ParseError>(end));
}

/// A call of a function whose name is a bare identifier and no reserved
/// word, with arguments that are read as a whole, is read as a whole with
/// one level of brackets more.
pub proof fn lemma_call_reads_whole(name: Seq<u8>, args: Seq<Seq<u8>>, depth: nat)
    requires
        is_bare_identifier(name),
        arguments_read_whole(args, depth),
    ensures
        reads_whole(call_text(name, args), depth + 1),
{
    reveal(reads_whole);
    let e = call_text(name, args);
    assert(e[0] == name[0]);
    assert(ByteClass::Identifier.has(name[0]));
    assert forall|s: Seq<u8>, pos: int|
        #[trigger] has_tag(s, pos, e) && behind_expression(
            s,
            pos + e.len(),
        ) implies spec_sql_expression(s, pos, depth + 1) == Ok::<int, ParseError>(
        pos + e.len(),
    ) by {
        lemma_call_read_as_expression(s, pos, name, args, depth);
    }
}

} // verus!
