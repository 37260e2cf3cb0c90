//! What the grammar of columns reads where the canonical text of a column
//! stands.

use vstd::prelude::*;
use vstd::utf8::valid_utf8;
use crate::codec::{print_codec_list, spec_column_codec_list, valid_codecs, Codec};
use crate::column::{
    print_codec_clause, print_column_clauses, print_column_specification, print_comment_clause,
    print_option_clause, print_ttl, print_ttl_clause, spec_column_comment,
    spec_column_identifier_no_alias, spec_column_option, spec_column_ttl, spec_expression_clause,
    spec_field_clauses, spec_field_specification, ColumnOptionView, ColumnSpecificationView,
    ColumnTTLView, ColumnView,
};
use crate::error::{optional, ParseError};
use crate::expr::spec_expression;
use crate::keywords::spec_escape;
use crate::reading::{
    lemma_backticked_read, lemma_escaped_read, lemma_lit, lemma_not_word, lemma_tag_bounds,
    lemma_tag_byte, lemma_tag_is_subrange, lemma_tag_not_word, lemma_tag_split, lemma_word,
    lemma_ws_inside, lemma_ws_stop,
};
use crate::reading_codec::lemma_codecs_read;
use crate::reading_types::{
    lemma_opts_read, lemma_single_quoted_read, lemma_type_first_byte, opts_end, type_ends,
};
use crate::scan::{
    byte_at, has_tag, is_space, lemma_run_end_bounds, lemma_run_end_is, lit, lower, ws_end,
    ByteClass, MAX_NESTING,
};
use crate::types::{
    print_type, print_wrapped, spec_field_specification_opts, valid_quoted, valid_type,
    SqlTypeOptsView,
};
use crate::words::{
    lemma_bytes_close, lemma_bytes_codec, lemma_bytes_comma_nl_space_space_tick,
    lemma_bytes_comment_cased, lemma_bytes_default, lemma_bytes_materialized,
    lemma_bytes_nl_close_space_engine_space_eq_space_cased, lemma_bytes_quote, lemma_bytes_space,
    lemma_bytes_space_codec_open_cased, lemma_bytes_space_comment_space_quote_cased,
    lemma_bytes_space_default_space_cased, lemma_bytes_space_materialized_space_cased,
    lemma_bytes_space_ttl_space_cased, lemma_bytes_tick, lemma_bytes_tick_space,
    lemma_bytes_ttl_cased,
};

verus! {

/// What the printers put behind a column: nothing, the separator of
/// columns before the next column, or the closing bracket before the engine.
pub open spec fn behind_column(s: Seq<u8>, q: int) -> bool {
    q == s.len() || has_tag(s, q, lit(",\n  `")) || has_tag(s, q, lit("\n) ENGINE = "))
}

/// What the printers put behind an expression: what they put behind a
/// column, a clause of a column, or a comma or a closing bracket of the
/// parameters of an engine.
pub open spec fn behind_expression(s: Seq<u8>, q: int) -> bool {
    behind_column(s, q) || has_tag(s, q, lit(" COMMENT '")) || has_tag(s, q, lit(" CODEC("))
        || has_tag(s, q, lit(" TTL ")) || has_tag(s, q, lit(", ")) || has_tag(s, q, lit(")"))
}

/// Whether the text of an expression is read back as a whole wherever the
/// printers put it: it is valid UTF-8, does not begin with white space, and
/// the grammar of expressions reads all of it, and no more, before each of
/// the texts that the printers put behind an expression.
#[verifier::opaque]
pub open spec fn self_delimiting(e: Seq<u8>) -> bool {
    &&& valid_utf8(e)
    &&& e.len() > 0
    &&& !is_space(e[0])
    &&& forall|s: Seq<u8>, pos: int|
        #[trigger] has_tag(s, pos, e) && behind_expression(s, pos + e.len())
            ==> spec_expression(s, pos) == Ok::<int, ParseError>(
            pos + e.len(),
        )
}

/// A self-delimiting expression is not empty, does not begin with white
/// space, and is valid UTF-8.
pub proof fn lemma_self_delimiting_text(e: Seq<u8>)
    requires
        self_delimiting(e),
    ensures
        valid_utf8(e),
        e.len() > 0,
        !is_space(e[0]),
{
    reveal(self_delimiting);
}

/// A self-delimiting expression is read where it stands before what the
/// printers put behind an expression.
pub proof fn lemma_self_delimiting_read(s: Seq<u8>, pos: int, e: Seq<u8>)
    requires
        self_delimiting(e),
        has_tag(s, pos, e),
        behind_expression(s, pos + e.len()),
    ensures
        spec_expression(s, pos) == Ok::<int, ParseError>(pos + e.len()),
{
    reveal(self_delimiting);
}

/// What stands where the clauses of a column are over, or go on with the
/// TTL.
pub open spec fn from_ttl(s: Seq<u8>, q: int) -> bool {
    behind_column(s, q) || has_tag(s, q, lit(" TTL "))
}

/// What stands where the clauses of a column are over, or go on with the
/// codecs or the TTL.
pub open spec fn from_codec(s: Seq<u8>, q: int) -> bool {
    from_ttl(s, q) || has_tag(s, q, lit(" CODEC("))
}

/// What stands where the clauses of a column are over, or go on with the
/// comment, the codecs or the TTL.
pub open spec fn from_comment(s: Seq<u8>, q: int) -> bool {
    from_codec(s, q) || has_tag(s, q, lit(" COMMENT '"))
}

/// Behind a column, the first byte behind white space is a comma or a
/// closing bracket, if there is one.
pub proof fn lemma_behind_column(s: Seq<u8>, q: int)
    requires
        0 <= q <= s.len(),
        behind_column(s, q),
    ensures
        ws_end(s, q) == s.len() || s[ws_end(s, q)] == ',' as u8 || s[ws_end(s, q)] == ')' as u8,
        q <= ws_end(s, q) <= s.len(),
        q == s.len() || s[q] == ',' as u8 || s[q] == '\n' as u8,
{
    lemma_run_end_bounds(s, q, ByteClass::Space);
    if q == s.len() {
    } else if has_tag(s, q, lit(",\n  `")) {
        lemma_bytes_comma_nl_space_space_tick();
        lemma_tag_byte(s, q, lit(",\n  `"), 0);
        lemma_ws_stop(s, q);
    } else {
        lemma_bytes_nl_close_space_engine_space_eq_space_cased();
        lemma_tag_byte(s, q, lit("\n) ENGINE = "), 0);
        lemma_tag_byte(s, q, lit("\n) ENGINE = "), 1);
        lemma_run_end_is(s, q, q + 1, ByteClass::Space);
    }
}

/// Where a clause begins, one space stands before its word.
pub proof fn lemma_clause_lead(s: Seq<u8>, q: int, t: Seq<u8>)
    requires
        has_tag(s, q, t),
        t.len() >= 2,
        t[0] == ' ' as u8,
        !is_space(t[1]),
    ensures
        ws_end(s, q) == q + 1,
        s[q] == ' ' as u8,
        s[q + 1] == t[1],
        q + 1 < s.len(),
{
    lemma_tag_byte(s, q, t, 0);
    lemma_tag_byte(s, q, t, 1);
    lemma_run_end_is(s, q, q + 1, ByteClass::Space);
}

/// What the first byte behind white space is where the clauses of a column
/// go on with the TTL or are over.
pub proof fn lemma_from_ttl(s: Seq<u8>, q: int)
    requires
        0 <= q <= s.len(),
        from_ttl(s, q),
    ensures
        q <= ws_end(s, q) <= s.len(),
        ws_end(s, q) == s.len() || s[ws_end(s, q)] == ',' as u8 || s[ws_end(s, q)] == ')' as u8
            || s[ws_end(s, q)] == 'T' as u8,
        q == s.len() || s[q] == ',' as u8 || s[q] == '\n' as u8 || s[q] == ' ' as u8,
        !byte_at(s, ws_end(s, q), '(' as u8),
{
    if behind_column(s, q) {
        lemma_behind_column(s, q);
    } else {
        lemma_bytes_space_ttl_space_cased();
        lemma_clause_lead(s, q, lit(" TTL "));
    }
}

/// What the first byte behind white space is where the clauses of a column
/// go on with the codecs or the TTL, or are over.
pub proof fn lemma_from_codec(s: Seq<u8>, q: int)
    requires
        0 <= q <= s.len(),
        from_codec(s, q),
    ensures
        q <= ws_end(s, q) <= s.len(),
        ws_end(s, q) == s.len() || s[ws_end(s, q)] == ',' as u8 || s[ws_end(s, q)] == ')' as u8
            || s[ws_end(s, q)] == 'T' as u8 || has_tag(s, ws_end(s, q), lit("CODEC(")),
        q == s.len() || s[q] == ',' as u8 || s[q] == '\n' as u8 || s[q] == ' ' as u8,
        !byte_at(s, ws_end(s, q), '(' as u8),
{
    if from_ttl(s, q) {
        lemma_from_ttl(s, q);
    } else {
        lemma_bytes_space_codec_open_cased();
        reveal_strlit("CODEC(");
        lemma_lit("CODEC(");
        lemma_clause_lead(s, q, lit(" CODEC("));
        crate::reading::lemma_tag_part(s, q, lit(" CODEC("), 1, lit("CODEC("));
    }
}

/// What the first byte behind white space is where the clauses of a column
/// go on with the comment, the codecs or the TTL, or are over.
pub proof fn lemma_from_comment(s: Seq<u8>, q: int)
    requires
        0 <= q <= s.len(),
        from_comment(s, q),
    ensures
        q <= ws_end(s, q) <= s.len(),
        ws_end(s, q) == s.len() || s[ws_end(s, q)] == ',' as u8 || s[ws_end(s, q)] == ')' as u8
            || s[ws_end(s, q)] == 'T' as u8 || s[ws_end(s, q)] == 'C' as u8,
        q == s.len() || s[q] == ',' as u8 || s[q] == '\n' as u8 || s[q] == ' ' as u8,
        !byte_at(s, ws_end(s, q), '(' as u8),
{
    if from_codec(s, q) {
        lemma_from_codec(s, q);
        if has_tag(s, ws_end(s, q), lit("CODEC(")) {
            reveal_strlit("CODEC(");
            lemma_lit("CODEC(");
            lemma_tag_byte(s, ws_end(s, q), lit("CODEC("), 0);
        }
    } else {
        lemma_bytes_space_comment_space_quote_cased();
        lemma_clause_lead(s, q, lit(" COMMENT '"));
    }
}

/// What may stand behind a column may stand behind a type.
pub proof fn lemma_clauses_end_type(s: Seq<u8>, q: int)
    requires
        0 <= q <= s.len(),
        from_comment(s, q) || has_tag(s, q, lit(" DEFAULT ")) || has_tag(s, q, lit(" MATERIALIZED ")),
    ensures
        type_ends(s, q),
{
    if from_comment(s, q) {
        lemma_from_comment(s, q);
    } else if has_tag(s, q, lit(" DEFAULT ")) {
        lemma_bytes_space_default_space_cased();
        lemma_clause_lead(s, q, lit(" DEFAULT "));
    } else {
        lemma_bytes_space_materialized_space_cased();
        lemma_clause_lead(s, q, lit(" MATERIALIZED "));
    }
}

/// Whether the name can stand between backticks: it is not empty, valid
/// UTF-8, and holds no backtick.
pub open spec fn plain_name(t: Seq<u8>) -> bool {
    &&& t.len() > 0
    &&& valid_utf8(t)
    &&& forall|i: int| 0 <= i < t.len() ==> #[trigger] t[i] != '`' as u8
}

/// Whether the TTL is one that the grammar reads and the printers write so
/// that it is read again: it has no interval, and its column is a plain name.
pub open spec fn plain_ttl(t: ColumnTTLView) -> bool {
    t.interval is None && plain_name(t.column)
}

/// The text of an option.
pub open spec fn option_text(o: ColumnOptionView) -> Seq<u8> {
    match o {
        ColumnOptionView::DefaultValue(e) => e,
        ColumnOptionView::Materialized(e) => e,
    }
}

/// An escaped name does not begin with white space.
pub proof fn lemma_escape_first_byte(name: Seq<u8>)
    requires
        name.len() > 0,
    ensures
        spec_escape(name).len() > 0,
        !is_space(spec_escape(name)[0]),
{
    lemma_bytes_tick();
    if crate::keywords::is_bare_identifier(name) {
        assert(ByteClass::Identifier.has(name[0]));
    } else {
        assert(spec_escape(name)[0] == lit("`")[0]);
    }
}

/// The parts of the text of a TTL clause stand where the text stands.
pub proof fn lemma_ttl_parts(s: Seq<u8>, q: int, t: ColumnTTLView)
    requires
        t.interval is None,
        has_tag(s, q, print_ttl_clause(Some(t))),
    ensures
        has_tag(s, q, lit(" TTL ")),
        has_tag(s, q + 5, spec_escape(t.column)),
        print_ttl_clause(Some(t)).len() == 5 + spec_escape(t.column).len(),
{
    lemma_bytes_space_ttl_space_cased();
    lemma_bytes_space();
    reveal_strlit("TTL ");
    lemma_lit("TTL ");
    let name = spec_escape(t.column);
    assert(print_ttl_clause(Some(t)) =~= lit(" TTL ") + name) by {
        assert(print_ttl(t) =~= lit("TTL ") + name);
        assert(lit(" ") + lit("TTL ") =~= lit(" TTL "));
        assert(lit(" ") + (lit("TTL ") + name) =~= lit(" ") + lit("TTL ") + name);
    }
    lemma_tag_split(s, q, lit(" TTL "), name);
}

/// The TTL of a column is read where it is written, and none where none is
/// written.
pub proof fn lemma_ttl_stage(s: Seq<u8>, q: int, p: int, ttl: Option<ColumnTTLView>)
    requires
        0 <= q <= p <= ws_end(s, q),
        q <= s.len(),
        ttl is Some ==> plain_ttl(ttl->0),
        has_tag(s, q, print_ttl_clause(ttl)),
        behind_column(s, q + print_ttl_clause(ttl).len()),
    ensures
        optional(spec_column_ttl(s, ws_end(s, p)), p) is Ok,
        optional(spec_column_ttl(s, ws_end(s, p)), p)->Ok_0.0 == ttl,
        q + print_ttl_clause(ttl).len() <= optional(spec_column_ttl(s, ws_end(s, p)), p)->Ok_0.1
            <= ws_end(s, q + print_ttl_clause(ttl).len()),
{
    lemma_ws_inside(s, q, p);
    lemma_ws_inside(s, q, ws_end(s, q));
    lemma_run_end_bounds(s, q, ByteClass::Space);
    match ttl {
        Some(t) => {
            lemma_ttl_parts(s, q, t);
            lemma_bytes_space_ttl_space_cased();
            lemma_bytes_ttl_cased();
            lemma_clause_lead(s, q, lit(" TTL "));
            crate::reading::lemma_tag_part(s, q, lit(" TTL "), 1, lit("TTL"));
            lemma_word(s, q + 1, lit("TTL"), lit("TTL"));
            lemma_tag_byte(s, q, lit(" TTL "), 4);
            let name = spec_escape(t.column);
            lemma_escape_first_byte(t.column);
            lemma_tag_byte(s, q + 5, name, 0);
            lemma_run_end_is(s, q + 4, q + 5, ByteClass::Space);
            let end = q + 5 + name.len();
            lemma_tag_bounds(s, q + 5, name);
            lemma_behind_column(s, end);
            lemma_escaped_read(s, q + 5, t.column);
            lemma_run_end_bounds(s, end, ByteClass::Space);
        },
        None => {
            lemma_behind_column(s, q);
            lemma_bytes_ttl_cased();
            lemma_not_word(s, ws_end(s, q), lit("TTL"), 0);
        },
    }
}

/// The parts of the text of a codec clause stand where the text stands.
pub proof fn lemma_codec_parts(s: Seq<u8>, q: int, list: Seq<Codec>)
    requires
        has_tag(s, q, print_codec_clause(Some(list))),
    ensures
        has_tag(s, q, lit(" CODEC(")),
        has_tag(s, q + 7, print_codec_list(list)),
        byte_at(s, q + 7 + print_codec_list(list).len(), ')' as u8),
        print_codec_clause(Some(list)).len() == 8 + print_codec_list(list).len(),
{
    lemma_bytes_space_codec_open_cased();
    lemma_bytes_close();
    lemma_tag_split(s, q, lit(" CODEC(") + print_codec_list(list), lit(")"));
    lemma_tag_split(s, q, lit(" CODEC("), print_codec_list(list));
    lemma_tag_byte(s, q + 7 + print_codec_list(list).len(), lit(")"), 0);
}

/// The first byte of the text of a list of codecs in brackets, or the
/// closing bracket behind it, is no white space.
pub proof fn lemma_codec_list_lead(s: Seq<u8>, pos: int, list: Seq<Codec>)
    requires
        has_tag(s, pos, print_codec_list(list)),
        byte_at(s, pos + print_codec_list(list).len(), ')' as u8),
    ensures
        ws_end(s, pos) == pos,
    decreases list.len(),
{
    if list.len() == 0 {
        lemma_ws_stop(s, pos);
    } else {
        crate::reading_codec::lemma_codecs_prefix(s, pos, list, 1);
        crate::reading_codec::lemma_codec_first_byte(list[0]);
        lemma_tag_byte(s, pos, crate::codec::print_codec(list[0]), 0);
        lemma_ws_stop(s, pos);
    }
}

/// The codecs of a column are read where they are written, and none where
/// none are written.
#[verifier::rlimit(30)]
pub proof fn lemma_codec_stage(s: Seq<u8>, q: int, p: int, codec: Option<Seq<Codec>>)
    requires
        0 <= q <= p <= ws_end(s, q),
        q <= s.len(),
        codec is Some ==> valid_codecs(codec->0),
        has_tag(s, q, print_codec_clause(codec)),
        from_ttl(s, q + print_codec_clause(codec).len()),
    ensures
        optional(spec_column_codec_list(s, ws_end(s, p)), p) is Ok,
        optional(spec_column_codec_list(s, ws_end(s, p)), p)->Ok_0.0 == codec,
        q + print_codec_clause(codec).len() <= optional(
            spec_column_codec_list(s, ws_end(s, p)),
            p,
        )->Ok_0.1 <= ws_end(s, q + print_codec_clause(codec).len()),
{
    lemma_ws_inside(s, q, p);
    lemma_run_end_bounds(s, q, ByteClass::Space);
    match codec {
        Some(list) => {
            lemma_codec_parts(s, q, list);
            lemma_bytes_space_codec_open_cased();
            lemma_bytes_codec();
            lemma_clause_lead(s, q, lit(" CODEC("));
            reveal_strlit("CODEC(");
            lemma_lit("CODEC(");
            crate::reading::lemma_tag_part(s, q, lit(" CODEC("), 1, lit("CODEC("));
            lemma_word(s, q + 1, lit("CODEC("), lit("codec"));
            lemma_tag_byte(s, q, lit(" CODEC("), 6);
            lemma_ws_stop(s, q + 6);
            lemma_codec_list_lead(s, q + 7, list);
            lemma_codecs_read(s, q + 7, list);
            let close = q + 7 + print_codec_list(list).len();
            lemma_ws_stop(s, close);
            lemma_run_end_bounds(s, close + 1, ByteClass::Space);
        },
        None => {
            lemma_from_ttl(s, q);
            lemma_bytes_codec();
            lemma_not_word(s, ws_end(s, q), lit("codec"), 0);
        },
    }
}

/// The parts of the text of a comment clause stand where the text stands.
pub proof fn lemma_comment_parts(s: Seq<u8>, q: int, comment: Seq<u8>)
    requires
        has_tag(s, q, print_comment_clause(Some(comment))),
    ensures
        has_tag(s, q, lit(" COMMENT '")),
        has_tag(s, q + 10, comment),
        byte_at(s, q + 10 + comment.len(), '\'' as u8),
        print_comment_clause(Some(comment)).len() == 11 + comment.len(),
{
    lemma_bytes_space_comment_space_quote_cased();
    lemma_bytes_quote();
    lemma_tag_split(s, q, lit(" COMMENT '") + comment, lit("'"));
    lemma_tag_split(s, q, lit(" COMMENT '"), comment);
    lemma_tag_byte(s, q + 10 + comment.len(), lit("'"), 0);
}

/// The comment of a column is read where it is written, and none where
/// none is written.
pub proof fn lemma_comment_stage(s: Seq<u8>, q: int, p: int, comment: Option<Seq<u8>>)
    requires
        0 <= q <= p <= ws_end(s, q),
        q <= s.len(),
        comment is Some ==> valid_quoted(comment->0),
        has_tag(s, q, print_comment_clause(comment)),
        from_codec(s, q + print_comment_clause(comment).len()),
    ensures
        optional(spec_column_comment(s, ws_end(s, p)), p) is Ok,
        optional(spec_column_comment(s, ws_end(s, p)), p)->Ok_0.0 == comment,
        q + print_comment_clause(comment).len() <= optional(
            spec_column_comment(s, ws_end(s, p)),
            p,
        )->Ok_0.1 <= ws_end(s, q + print_comment_clause(comment).len()),
{
    lemma_ws_inside(s, q, p);
    lemma_run_end_bounds(s, q, ByteClass::Space);
    match comment {
        Some(c) => {
            lemma_comment_parts(s, q, c);
            lemma_bytes_space_comment_space_quote_cased();
            lemma_bytes_comment_cased();
            lemma_clause_lead(s, q, lit(" COMMENT '"));
            crate::reading::lemma_tag_part(s, q, lit(" COMMENT '"), 1, lit("COMMENT"));
            lemma_word(s, q + 1, lit("COMMENT"), lit("COMMENT"));
            lemma_tag_byte(s, q, lit(" COMMENT '"), 8);
            lemma_tag_byte(s, q, lit(" COMMENT '"), 9);
            lemma_run_end_is(s, q + 8, q + 9, ByteClass::Space);
            lemma_single_quoted_read(s, q + 9, c);
            lemma_run_end_bounds(s, q + 11 + c.len(), ByteClass::Space);
        },
        None => {
            lemma_from_codec(s, q);
            lemma_bytes_comment_cased();
            if ws_end(s, q) < s.len() && has_tag(s, ws_end(s, q), lit("CODEC(")) {
                reveal_strlit("CODEC(");
                lemma_lit("CODEC(");
                lemma_tag_not_word(s, ws_end(s, q), lit("CODEC("), lit("COMMENT"), 2);
            } else {
                lemma_not_word(s, ws_end(s, q), lit("COMMENT"), 0);
            }
        },
    }
}

/// The parts of the text of an option clause stand where the text stands.
pub proof fn lemma_option_parts(s: Seq<u8>, q: int, o: ColumnOptionView)
    requires
        has_tag(s, q, print_option_clause(Some(o))),
    ensures
        match o {
            ColumnOptionView::DefaultValue(e) => has_tag(s, q, lit(" DEFAULT ")) && has_tag(
                s,
                q + 9,
                e,
            ) && print_option_clause(Some(o)).len() == 9 + e.len(),
            ColumnOptionView::Materialized(e) => has_tag(s, q, lit(" MATERIALIZED ")) && has_tag(
                s,
                q + 14,
                e,
            ) && print_option_clause(Some(o)).len() == 14 + e.len(),
        },
{
    lemma_bytes_space();
    match o {
        ColumnOptionView::DefaultValue(e) => {
            lemma_bytes_space_default_space_cased();
            reveal_strlit("DEFAULT ");
            lemma_lit("DEFAULT ");
            assert(lit(" ") + lit("DEFAULT ") =~= lit(" DEFAULT "));
            assert(print_option_clause(Some(o)) =~= lit(" DEFAULT ") + e) by {
                assert(lit(" ") + (lit("DEFAULT ") + e) =~= lit(" ") + lit("DEFAULT ") + e);
            }
            lemma_tag_split(s, q, lit(" DEFAULT "), e);
        },
        ColumnOptionView::Materialized(e) => {
            lemma_bytes_space_materialized_space_cased();
            reveal_strlit("MATERIALIZED ");
            lemma_lit("MATERIALIZED ");
            assert(lit(" ") + lit("MATERIALIZED ") =~= lit(" MATERIALIZED "));
            assert(print_option_clause(Some(o)) =~= lit(" MATERIALIZED ") + e) by {
                assert(lit(" ") + (lit("MATERIALIZED ") + e) =~= lit(" ") + lit("MATERIALIZED ")
                    + e);
            }
            lemma_tag_split(s, q, lit(" MATERIALIZED "), e);
        },
    }
}

/// The expression behind the word of an option is read where it is
/// written.
pub proof fn lemma_expression_clause_read(
    s: Seq<u8>,
    q: int,
    p: int,
    written: Seq<u8>,
    word: Seq<u8>,
    e: Seq<u8>,
)
    requires
        0 <= q <= p <= q + 1,
        written.len() == word.len() + 2,
        word.len() > 0,
        written[0] == ' ' as u8,
        written[word.len() as int + 1] == ' ' as u8,
        forall|i: int| 0 <= i < word.len() ==> lower(#[trigger] written[i + 1]) == lower(word[i]),
        !is_space(written[1]),
        has_tag(s, q, written),
        has_tag(s, q + written.len(), e),
        self_delimiting(e),
        from_comment(s, q + written.len() + e.len()),
    ensures
        spec_expression_clause(s, p, word) == Ok::<(Seq<u8>, int), ParseError>(
            (e, ws_end(s, q + written.len() + e.len())),
        ),
{
    let n = word.len() as int;
    lemma_self_delimiting_text(e);
    lemma_clause_lead(s, q, written);
    lemma_ws_inside(s, q, p);
    let part = written.subrange(1, n + 1);
    crate::reading::lemma_tag_part(s, q, written, 1, part);
    lemma_word(s, q + 1, part, word);
    lemma_tag_byte(s, q, written, n + 1);
    lemma_tag_byte(s, q + n + 2, e, 0);
    lemma_run_end_is(s, q + n + 1, q + n + 2, ByteClass::Space);
    lemma_tag_is_subrange(s, q + n + 2, e);
    assert(behind_expression(s, q + n + 2 + e.len()));
    lemma_self_delimiting_read(s, q + n + 2, e);
}

/// The option of a column is read where it is written, and none where none
/// is written.
pub proof fn lemma_option_stage(s: Seq<u8>, q: int, p: int, option: Option<ColumnOptionView>)
    requires
        0 <= q <= p <= ws_end(s, q),
        q <= s.len(),
        option is Some ==> self_delimiting(option_text(option->0)),
        has_tag(s, q, print_option_clause(option)),
        from_comment(s, q + print_option_clause(option).len()),
    ensures
        optional(spec_column_option(s, p), p) is Ok,
        optional(spec_column_option(s, p), p)->Ok_0.0 == option,
        q + print_option_clause(option).len() <= optional(spec_column_option(s, p), p)->Ok_0.1
            <= ws_end(s, q + print_option_clause(option).len()),
{
    lemma_ws_inside(s, q, p);
    lemma_run_end_bounds(s, q, ByteClass::Space);
    lemma_bytes_default();
    lemma_bytes_materialized();
    match option {
        Some(o) => {
            lemma_option_parts(s, q, o);
            match o {
                ColumnOptionView::DefaultValue(e) => {
                    lemma_bytes_space_default_space_cased();
                    lemma_clause_lead(s, q, lit(" DEFAULT "));
                    lemma_expression_clause_read(s, q, p, lit(" DEFAULT "), lit("default"), e);
                    lemma_tag_bounds(s, q + 9, e);
                    lemma_run_end_bounds(s, q + 9 + e.len(), ByteClass::Space);
                },
                ColumnOptionView::Materialized(e) => {
                    lemma_bytes_space_materialized_space_cased();
                    lemma_clause_lead(s, q, lit(" MATERIALIZED "));
                    lemma_not_word(s, ws_end(s, p), lit("default"), 0);
                    lemma_expression_clause_read(
                        s,
                        q,
                        p,
                        lit(" MATERIALIZED "),
                        lit("materialized"),
                        e,
                    );
                    lemma_tag_bounds(s, q + 14, e);
                    lemma_run_end_bounds(s, q + 14 + e.len(), ByteClass::Space);
                },
            }
        },
        None => {
            lemma_from_comment(s, q);
            lemma_not_word(s, ws_end(s, q), lit("default"), 0);
            lemma_not_word(s, ws_end(s, q), lit("materialized"), 0);
        },
    }
}

/// Whether the column is one that the grammar reads and the printers write
/// so that it is read again. The grammar gives columns with a name that is
/// not empty, a valid type, a comment without single quote, valid codecs
/// and a TTL without interval. Of these, those are read again whose names
/// hold no backtick and whose option is a self-delimiting expression.
pub open spec fn plain_column(c: ColumnSpecificationView) -> bool {
    &&& plain_name(c.column.name)
    &&& c.column.alias is None
    &&& valid_type(c.sql_type, MAX_NESTING as nat)
    &&& (c.option is Some ==> self_delimiting(option_text(c.option->0)))
    &&& (c.comment is Some ==> valid_quoted(c.comment->0))
    &&& (c.codec is Some ==> valid_codecs(c.codec->0))
    &&& (c.ttl is Some ==> plain_ttl(c.ttl->0))
}

/// The column as the grammar reads it from its text alone: with no table.
pub open spec fn without_table(c: ColumnSpecificationView) -> ColumnSpecificationView {
    ColumnSpecificationView {
        column: ColumnView { name: c.column.name, alias: c.column.alias, table: None },
        sql_type: c.sql_type,
        codec: c.codec,
        ttl: c.ttl,
        nullable: c.nullable,
        option: c.option,
        comment: c.comment,
        lowcardinality: c.lowcardinality,
    }
}

/// Where a TTL clause or none stands before what stands behind a column,
/// the clauses go on with the TTL or are over.
pub proof fn lemma_ttl_starts(s: Seq<u8>, q: int, ttl: Option<ColumnTTLView>)
    requires
        ttl is Some ==> (ttl->0).interval is None,
        has_tag(s, q, print_ttl_clause(ttl)),
        behind_column(s, q + print_ttl_clause(ttl).len()),
    ensures
        from_ttl(s, q),
{
    match ttl {
        Some(t) => {
            lemma_ttl_parts(s, q, t);
        },
        None => {},
    }
}

/// Where a codec clause or none stands before the TTL or the end of the
/// clauses, the clauses go on with the codecs or the TTL, or are over.
pub proof fn lemma_codec_starts(s: Seq<u8>, q: int, codec: Option<Seq<Codec>>)
    requires
        has_tag(s, q, print_codec_clause(codec)),
        from_ttl(s, q + print_codec_clause(codec).len()),
    ensures
        from_codec(s, q),
{
    match codec {
        Some(list) => {
            lemma_codec_parts(s, q, list);
        },
        None => {},
    }
}

/// Where a comment clause or none stands before the codecs, the TTL or the
/// end of the clauses, the clauses go on with one of the three, or are over.
pub proof fn lemma_comment_starts(s: Seq<u8>, q: int, comment: Option<Seq<u8>>)
    requires
        has_tag(s, q, print_comment_clause(comment)),
        from_codec(s, q + print_comment_clause(comment).len()),
    ensures
        from_comment(s, q),
{
    match comment {
        Some(c) => {
            lemma_comment_parts(s, q, c);
        },
        None => {},
    }
}

/// Where the clauses of a column stand, a type may end.
pub proof fn lemma_option_starts(s: Seq<u8>, q: int, option: Option<ColumnOptionView>)
    requires
        0 <= q <= s.len(),
        has_tag(s, q, print_option_clause(option)),
        from_comment(s, q + print_option_clause(option).len()),
    ensures
        type_ends(s, q),
{
    match option {
        Some(o) => {
            lemma_option_parts(s, q, o);
        },
        None => {},
    }
    lemma_clauses_end_type(s, q);
}

/// The places of the four clauses of a column in its text.
pub proof fn lemma_clauses_parts(s: Seq<u8>, q: int, c: ColumnSpecificationView)
    requires
        has_tag(s, q, print_column_clauses(c)),
    ensures
        has_tag(s, q, print_option_clause(c.option)),
        has_tag(s, q + print_option_clause(c.option).len(), print_comment_clause(c.comment)),
        has_tag(
            s,
            q + print_option_clause(c.option).len() + print_comment_clause(c.comment).len(),
            print_codec_clause(c.codec),
        ),
        has_tag(
            s,
            q + print_option_clause(c.option).len() + print_comment_clause(c.comment).len()
                + print_codec_clause(c.codec).len(),
            print_ttl_clause(c.ttl),
        ),
        print_column_clauses(c).len() == print_option_clause(c.option).len()
            + print_comment_clause(c.comment).len() + print_codec_clause(c.codec).len()
            + print_ttl_clause(c.ttl).len(),
{
    let a = print_option_clause(c.option);
    let b = print_comment_clause(c.comment);
    let d = print_codec_clause(c.codec);
    let e = print_ttl_clause(c.ttl);
    lemma_tag_split(s, q, a + b + d, e);
    lemma_tag_split(s, q, a + b, d);
    lemma_tag_split(s, q, a, b);
}

/// The clauses of a column are read where they are written.
#[verifier::rlimit(30)]
pub proof fn lemma_clauses_read(
    s: Seq<u8>,
    q: int,
    p: int,
    c: ColumnSpecificationView,
    t: SqlTypeOptsView,
)
    requires
        0 <= q <= p <= ws_end(s, q),
        q <= s.len(),
        plain_column(c),
        t.ftype == c.sql_type,
        t.nullable == c.nullable,
        t.lowcardinality == c.lowcardinality,
        has_tag(s, q, print_column_clauses(c)),
        behind_column(s, q + print_column_clauses(c).len()),
    ensures
        spec_field_clauses(s, p, without_table(c).column, t) is Ok,
        spec_field_clauses(s, p, without_table(c).column, t)->Ok_0.0 == without_table(c),
        q + print_column_clauses(c).len() <= spec_field_clauses(
            s,
            p,
            without_table(c).column,
            t,
        )->Ok_0.1 <= ws_end(s, q + print_column_clauses(c).len()),
        type_ends(s, q),
{
    reveal(spec_field_clauses);
    lemma_clauses_parts(s, q, c);
    let q1 = q + print_option_clause(c.option).len();
    let q2 = q1 + print_comment_clause(c.comment).len();
    let q3 = q2 + print_codec_clause(c.codec).len();
    lemma_tag_bounds(s, q, print_column_clauses(c));
    lemma_ttl_starts(s, q3, c.ttl);
    lemma_codec_starts(s, q2, c.codec);
    lemma_comment_starts(s, q1, c.comment);
    lemma_option_starts(s, q, c.option);
    lemma_option_stage(s, q, p, c.option);
    let option_end = optional(spec_column_option(s, p), p)->Ok_0.1;
    lemma_comment_stage(s, q1, option_end, c.comment);
    let comment_end = optional(spec_column_comment(s, ws_end(s, option_end)), option_end)->Ok_0.1;
    lemma_codec_stage(s, q2, comment_end, c.codec);
    let codec_end = optional(spec_column_codec_list(s, ws_end(s, comment_end)), comment_end)->Ok_0.1;
    lemma_ttl_stage(s, q3, codec_end, c.ttl);
}

/// The first byte of the text of a type in its wrappers is a letter.
pub proof fn lemma_wrapped_first_byte(t: SqlTypeOptsView)
    ensures
        crate::types::print_type_opts(t).len() > 0,
        !is_space(crate::types::print_type_opts(t)[0]),
{
    lemma_type_first_byte(t.ftype);
    crate::words::lemma_bytes_nullable_open_cased();
    crate::words::lemma_bytes_lowcardinality_open_cased();
    crate::words::lemma_bytes_lowcardinality_open_nullable_open_cased();
    let text = print_type(t.ftype);
    if t.lowcardinality && t.nullable {
        assert((lit("LowCardinality(Nullable(") + text + lit("))"))[0] == lit(
            "LowCardinality(Nullable(",
        )[0]);
    } else if t.lowcardinality {
        assert((lit("LowCardinality(") + text + lit(")"))[0] == lit("LowCardinality(")[0]);
    } else if t.nullable {
        assert((lit("Nullable(") + text + lit(")"))[0] == lit("Nullable(")[0]);
    }
}

/// The places of the name, the type and the clauses of a column in its
/// text.
pub proof fn lemma_column_parts(s: Seq<u8>, pos: int, c: ColumnSpecificationView)
    requires
        has_tag(s, pos, print_column_specification(c)),
    ensures
        has_tag(s, pos, lit("`") + c.column.name + lit("`")),
        byte_at(s, pos + 2 + c.column.name.len(), ' ' as u8),
        has_tag(
            s,
            pos + 3 + c.column.name.len(),
            print_wrapped(print_type(c.sql_type), c.nullable, c.lowcardinality),
        ),
        has_tag(
            s,
            pos + 3 + c.column.name.len() + print_wrapped(
                print_type(c.sql_type),
                c.nullable,
                c.lowcardinality,
            ).len(),
            print_column_clauses(c),
        ),
        print_column_specification(c).len() == 3 + c.column.name.len() + print_wrapped(
            print_type(c.sql_type),
            c.nullable,
            c.lowcardinality,
        ).len() + print_column_clauses(c).len(),
        has_tag(s, pos + 1, c.column.name),
{
    lemma_bytes_tick();
    lemma_bytes_tick_space();
    let name = c.column.name;
    let t = print_wrapped(print_type(c.sql_type), c.nullable, c.lowcardinality);
    lemma_tag_split(s, pos, lit("`") + name + lit("` ") + t, print_column_clauses(c));
    lemma_tag_split(s, pos, lit("`") + name + lit("` "), t);
    lemma_tag_split(s, pos, lit("`") + name, lit("` "));
    lemma_tag_split(s, pos, lit("`"), name);
    let q = pos + 1 + name.len();
    crate::reading::lemma_tag_part(s, q, lit("` "), 0, lit("`"));
    lemma_tag_byte(s, q, lit("` "), 1);
    lemma_tag_split(s, pos, lit("`") + name, lit("`"));
}

/// The name of a column is read where it is written between backticks
/// before a space.
pub proof fn lemma_column_name_read(s: Seq<u8>, pos: int, name: Seq<u8>)
    requires
        plain_name(name),
        has_tag(s, pos, lit("`") + name + lit("`")),
        has_tag(s, pos + 1, name),
        byte_at(s, pos + 2 + name.len(), ' ' as u8),
    ensures
        spec_column_identifier_no_alias(s, pos) == Ok::<(ColumnView, int), ParseError>(
            (ColumnView { name, alias: None, table: None }, pos + 2 + name.len()),
        ),
{
    lemma_backticked_read(s, pos, name);
    lemma_tag_is_subrange(s, pos + 1, name);
}

/// The name and the type of a column are read where they are written.
#[verifier::rlimit(30)]
pub proof fn lemma_field_head(s: Seq<u8>, pos: int, c: ColumnSpecificationView)
    requires
        plain_name(c.column.name),
        valid_type(c.sql_type, MAX_NESTING as nat),
        has_tag(s, pos, print_column_specification(c)),
        type_ends(
            s,
            pos + 3 + c.column.name.len() + print_wrapped(
                print_type(c.sql_type),
                c.nullable,
                c.lowcardinality,
            ).len(),
        ),
    ensures
        spec_column_identifier_no_alias(s, pos) == Ok::<(ColumnView, int), ParseError>(
            (
                ColumnView { name: c.column.name, alias: None, table: None },
                pos + 2 + c.column.name.len(),
            ),
        ),
        ws_end(s, pos + 2 + c.column.name.len()) == pos + 3 + c.column.name.len(),
        spec_field_specification_opts(s, pos + 3 + c.column.name.len(), MAX_NESTING as nat) is Ok,
        spec_field_specification_opts(
            s,
            pos + 3 + c.column.name.len(),
            MAX_NESTING as nat,
        )->Ok_0.0 == (SqlTypeOptsView {
            ftype: c.sql_type,
            nullable: c.nullable,
            lowcardinality: c.lowcardinality,
        }),
        ws_end(
            s,
            spec_field_specification_opts(
                s,
                pos + 3 + c.column.name.len(),
                MAX_NESTING as nat,
            )->Ok_0.1,
        ) == ws_end(
            s,
            pos + 3 + c.column.name.len() + print_wrapped(
                print_type(c.sql_type),
                c.nullable,
                c.lowcardinality,
            ).len(),
        ),
{
    let name = c.column.name;
    let t = SqlTypeOptsView {
        ftype: c.sql_type,
        nullable: c.nullable,
        lowcardinality: c.lowcardinality,
    };
    lemma_column_parts(s, pos, c);
    lemma_column_name_read(s, pos, name);
    let name_end = pos + 2 + name.len();
    let type_at = name_end + 1;
    lemma_wrapped_first_byte(t);
    lemma_tag_byte(s, type_at, crate::types::print_type_opts(t), 0);
    lemma_run_end_is(s, name_end, type_at, ByteClass::Space);
    let q = type_at + crate::types::print_type_opts(t).len();
    lemma_tag_bounds(s, type_at, crate::types::print_type_opts(t));
    lemma_run_end_bounds(s, q, ByteClass::Space);
    lemma_opts_read(s, type_at, t, MAX_NESTING as nat);
    let type_end = opts_end(t, s, q);
    lemma_ws_inside(s, q, type_end);
}

/// What the rules for the parts of a column read is what the rule for a
/// column reads.
pub proof fn lemma_field_assemble(
    s: Seq<u8>,
    pos: int,
    column: ColumnView,
    name_end: int,
    t: SqlTypeOptsView,
    type_end: int,
)
    requires
        spec_column_identifier_no_alias(s, pos) == Ok::<(ColumnView, int), ParseError>(
            (column, name_end),
        ),
        ws_end(s, name_end) > name_end,
        spec_field_specification_opts(s, ws_end(s, name_end), MAX_NESTING as nat) == Ok::<
            (SqlTypeOptsView, int),
            ParseError,
        >((t, type_end)),
    ensures
        spec_field_specification(s, pos) == spec_field_clauses(s, ws_end(s, type_end), column, t),
{
    reveal(spec_field_specification);
}

/// A column is read where its canonical text stands before what the
/// printers put behind a column. It ends behind its text, or behind white
/// space that follows its text.
#[verifier::rlimit(30)]
pub proof fn lemma_field_read(s: Seq<u8>, pos: int, c: ColumnSpecificationView)
    requires
        plain_column(c),
        has_tag(s, pos, print_column_specification(c)),
        behind_column(s, pos + print_column_specification(c).len()),
    ensures
        spec_field_specification(s, pos) is Ok,
        spec_field_specification(s, pos)->Ok_0.0 == without_table(c),
        pos + print_column_specification(c).len() <= spec_field_specification(s, pos)->Ok_0.1
            <= ws_end(s, pos + print_column_specification(c).len()),
{
    let t = SqlTypeOptsView {
        ftype: c.sql_type,
        nullable: c.nullable,
        lowcardinality: c.lowcardinality,
    };
    lemma_column_parts(s, pos, c);
    lemma_tag_bounds(s, pos, print_column_specification(c));
    let name_end = pos + 2 + c.column.name.len();
    let q = name_end + 1 + crate::types::print_type_opts(t).len();
    lemma_tag_bounds(s, name_end + 1, crate::types::print_type_opts(t));
    lemma_run_end_bounds(s, q, ByteClass::Space);
    lemma_clauses_read(s, q, ws_end(s, q), c, t);
    lemma_field_head(s, pos, c);
    let type_end = spec_field_specification_opts(s, name_end + 1, MAX_NESTING as nat)->Ok_0.1;
    lemma_field_assemble(s, pos, without_table(c).column, name_end, t, type_end);
}

} // verus!
