//! The laws of the library: what holds of the grammar and the printers
//! together.

use vstd::prelude::*;
use vstd::utf8::{encode_utf8, valid_utf8};
use crate::codec::{print_codec, spec_column_codec, valid_codec, Codec, CodecDeltaLevel};
use crate::column::{print_column_specification, spec_field_specification, ColumnSpecificationView};
use crate::create::{print_fields, print_statement, CreateTableStatementView};
use crate::engine::{print_engine, spec_engine, EngineView};
use crate::error::{failure, ParseError, Violation};
use crate::keywords::{is_bare_identifier, is_reserved, keyword_bytes, spec_escape, KEYWORDS};
use crate::reading_codec::{
    codec_ends, lemma_chain_delta, lemma_chain_lz4hc, lemma_chain_zstd, lemma_level_read,
    lemma_level_too_large,
};
use crate::reading_column::{
    lemma_field_read, option_text, plain_column, self_delimiting, without_table,
};
use crate::reading_expr::{
    arguments_read_whole, call_text, lemma_call_reads_whole, lemma_identifier_reads_whole,
    lemma_reads_whole_is_self_delimiting, lemma_string_reads_whole, plain_string,
};
use crate::reading_statement::{lemma_statement_read, plain_statement};
use crate::reading_types::lemma_opts_read;
use crate::scan::{has_tag, has_tag_no_case, lit, spec_is_sql_identifier, MAX_NESTING};
use crate::table::print_table;
use crate::text::{decimal, lemma_first_char, lemma_last_char};
use crate::types::{print_type_opts, spec_field_specification_opts, valid_type, SqlTypeOptsView};
use crate::valid::{lemma_creation_valid, valid_column, valid_statement};
use crate::words::{
    lemma_bytes_create_space_table_space_cased, lemma_bytes_semi,
    lemma_delta_cased_reads_as_delta, lemma_lz4hc_cased_is_read,
    lemma_zstd_cased_reads_as_zstd,
};
use crate::{
    is_whitespace, leading_space_end, print_query, spec_parse, spec_sql_query, spec_trim,
    trailing_space_start, SqlQueryView,
};

verus! {

/// A reserved word, in any case, is written between backticks.
pub proof fn lemma_keyword_is_escaped(t: Seq<u8>)
    requires
        is_reserved(t),
    ensures
        spec_escape(t) == lit("`") + t + lit("`"),
{
}

/// A bare identifier that is no reserved word is written as it is.
pub proof fn lemma_identifier_is_kept(t: Seq<u8>)
    requires
        t.len() > 0,
        forall|i: int| 0 <= i < t.len() ==> spec_is_sql_identifier(#[trigger] t[i]),
        !is_reserved(t),
    ensures
        spec_escape(t) == t,
{
}

/// Each word of the table is a reserved word.
pub proof fn lemma_table_words_are_reserved(k: int)
    requires
        0 <= k < KEYWORDS,
    ensures
        is_reserved(keyword_bytes(k)),
{
    reveal(has_tag_no_case);
    assert(has_tag_no_case(keyword_bytes(k), 0, keyword_bytes(k)));
}

/// What the grammar makes of `ZSTD(n)` where it stands before a comma, a
/// closing bracket or the end of the input: the codec with the level `n` if
/// `n` is from 1 to 22, and else a failure that names `n`, or that the
/// number is too large where it does not fit in 64 bits. There is no third
/// outcome: no level is changed, and none is passed over.
pub proof fn lemma_zstd_level_bounds(s: Seq<u8>, pos: int, n: nat)
    requires
        has_tag(s, pos, lit("ZSTD") + (lit("(") + decimal(n) + lit(")"))),
        codec_ends(s, pos + (lit("ZSTD") + (lit("(") + decimal(n) + lit(")"))).len()),
    ensures
        spec_column_codec(s, pos) == (if 1 <= n <= 22 {
            Ok::<(Codec, int), ParseError>(
                (
                    Codec::ZSTD(Some(n as u8)),
                    pos + (lit("ZSTD") + (lit("(") + decimal(n) + lit(")"))).len(),
                ),
            )
        } else if n <= u64::MAX {
            Err(failure(Violation::ZstdLevel(n as u64), pos + 5))
        } else {
            Err(failure(Violation::NumberTooLarge, pos + 5))
        }),
{
    crate::reading::lemma_tag_split(s, pos, lit("ZSTD"), lit("(") + decimal(n) + lit(")"));
    lemma_zstd_cased_reads_as_zstd(s, pos);
    crate::words::lemma_bytes_open();
    crate::reading::lemma_tag_split(s, pos + 4, lit("(") + decimal(n), lit(")"));
    crate::reading::lemma_tag_split(s, pos + 4, lit("("), decimal(n));
    crate::reading::lemma_tag_byte(s, pos + 4, lit("("), 0);
    if n <= u64::MAX {
        lemma_level_read(s, pos + 4, n as u64);
    } else {
        lemma_level_too_large(s, pos + 4, n);
    }
    lemma_chain_zstd(s, pos);
}

/// What the grammar makes of `LZ4HC(n)` where it stands before a comma, a
/// closing bracket or the end of the input: the codec with the level `n` if
/// `n` is from 0 to 12, and else a failure.
pub proof fn lemma_lz4hc_level_bounds(s: Seq<u8>, pos: int, n: nat)
    requires
        has_tag(s, pos, lit("LZ4HC") + (lit("(") + decimal(n) + lit(")"))),
        codec_ends(s, pos + (lit("LZ4HC") + (lit("(") + decimal(n) + lit(")"))).len()),
    ensures
        spec_column_codec(s, pos) == (if n <= 12 {
            Ok::<(Codec, int), ParseError>(
                (
                    Codec::LZ4HC(Some(n as u8)),
                    pos + (lit("LZ4HC") + (lit("(") + decimal(n) + lit(")"))).len(),
                ),
            )
        } else if n <= u64::MAX {
            Err(failure(Violation::Lz4hcLevel(n as u64), pos + 6))
        } else {
            Err(failure(Violation::NumberTooLarge, pos + 6))
        }),
{
    crate::reading::lemma_tag_split(s, pos, lit("LZ4HC"), lit("(") + decimal(n) + lit(")"));
    lemma_lz4hc_cased_is_read(s, pos);
    crate::words::lemma_bytes_open();
    crate::reading::lemma_tag_split(s, pos + 5, lit("(") + decimal(n), lit(")"));
    crate::reading::lemma_tag_split(s, pos + 5, lit("("), decimal(n));
    crate::reading::lemma_tag_byte(s, pos + 5, lit("("), 0);
    if n <= u64::MAX {
        lemma_level_read(s, pos + 5, n as u64);
    } else {
        lemma_level_too_large(s, pos + 5, n);
    }
    lemma_chain_lz4hc(s, pos);
}

/// What the grammar makes of `Delta(n)` where it stands before a comma, a
/// closing bracket or the end of the input: the codec with the width `n` if
/// `n` is 1, 2, 4 or 8, and else a failure.
pub proof fn lemma_delta_level_bounds(s: Seq<u8>, pos: int, n: nat)
    requires
        has_tag(s, pos, lit("Delta") + (lit("(") + decimal(n) + lit(")"))),
        codec_ends(s, pos + (lit("Delta") + (lit("(") + decimal(n) + lit(")"))).len()),
    ensures
        spec_column_codec(s, pos) == (if n == 1 || n == 2 || n == 4 || n == 8 {
            Ok::<(Codec, int), ParseError>(
                (
                    Codec::Delta(CodecDeltaLevel::spec_from_width(n as u64)),
                    pos + (lit("Delta") + (lit("(") + decimal(n) + lit(")"))).len(),
                ),
            )
        } else if n <= u64::MAX {
            Err(failure(Violation::DeltaLevel(n as u64), pos + 6))
        } else {
            Err(failure(Violation::NumberTooLarge, pos + 6))
        }),
{
    crate::reading::lemma_tag_split(s, pos, lit("Delta"), lit("(") + decimal(n) + lit(")"));
    lemma_delta_cased_reads_as_delta(s, pos);
    crate::words::lemma_bytes_open();
    crate::reading::lemma_tag_split(s, pos + 5, lit("(") + decimal(n), lit(")"));
    crate::reading::lemma_tag_split(s, pos + 5, lit("("), decimal(n));
    crate::reading::lemma_tag_byte(s, pos + 5, lit("("), 0);
    if n <= u64::MAX {
        lemma_level_read(s, pos + 5, n as u64);
    } else {
        lemma_level_too_large(s, pos + 5, n);
    }
    lemma_chain_delta(s, pos);
}

/// What the grammar makes of the text `ZSTD(n)`, `LZ4HC(n)` or `Delta(n)`
/// alone: the codec with the level `n` where `n` is a level of the codec,
/// which is from 1 to 22 for `ZSTD`, from 0 to 12 for `LZ4HC`, and 1, 2, 4 or
/// 8 for `Delta`; and else a failure that names `n`, or that the number is
/// too large where it does not fit in 64 bits.
pub proof fn lemma_level_bounds_alone(n: nat)
    ensures
        spec_column_codec(lit("ZSTD") + (lit("(") + decimal(n) + lit(")")), 0) == (if 1 <= n
            <= 22 {
            Ok::<(Codec, int), ParseError>(
                (
                    Codec::ZSTD(Some(n as u8)),
                    (lit("ZSTD") + (lit("(") + decimal(n) + lit(")"))).len() as int,
                ),
            )
        } else if n <= u64::MAX {
            Err(failure(Violation::ZstdLevel(n as u64), 5))
        } else {
            Err(failure(Violation::NumberTooLarge, 5))
        }),
        spec_column_codec(lit("LZ4HC") + (lit("(") + decimal(n) + lit(")")), 0) == (if n <= 12 {
            Ok::<(Codec, int), ParseError>(
                (
                    Codec::LZ4HC(Some(n as u8)),
                    (lit("LZ4HC") + (lit("(") + decimal(n) + lit(")"))).len() as int,
                ),
            )
        } else if n <= u64::MAX {
            Err(failure(Violation::Lz4hcLevel(n as u64), 6))
        } else {
            Err(failure(Violation::NumberTooLarge, 6))
        }),
        spec_column_codec(lit("Delta") + (lit("(") + decimal(n) + lit(")")), 0) == (if n == 1
            || n == 2 || n == 4 || n == 8 {
            Ok::<(Codec, int), ParseError>(
                (
                    Codec::Delta(CodecDeltaLevel::spec_from_width(n as u64)),
                    (lit("Delta") + (lit("(") + decimal(n) + lit(")"))).len() as int,
                ),
            )
        } else if n <= u64::MAX {
            Err(failure(Violation::DeltaLevel(n as u64), 6))
        } else {
            Err(failure(Violation::NumberTooLarge, 6))
        }),
{
    let level = lit("(") + decimal(n) + lit(")");
    lemma_tag_self(lit("ZSTD") + level);
    lemma_zstd_level_bounds(lit("ZSTD") + level, 0, n);
    lemma_tag_self(lit("LZ4HC") + level);
    lemma_lz4hc_level_bounds(lit("LZ4HC") + level, 0, n);
    lemma_tag_self(lit("Delta") + level);
    lemma_delta_level_bounds(lit("Delta") + level, 0, n);
}

/// The round trip of a codec: a valid codec is read from its canonical text
/// alone as the same codec, and all of the text is read.
pub proof fn lemma_codec_round_trip(c: Codec)
    requires
        valid_codec(c),
    ensures
        spec_column_codec(print_codec(c), 0) == Ok::<(Codec, int), ParseError>(
            (c, print_codec(c).len() as int),
        ),
{
    lemma_tag_self(print_codec(c));
    crate::reading_codec::lemma_codec_read(print_codec(c), 0, c);
}

/// A text stands at the beginning of itself.
pub proof fn lemma_tag_self(s: Seq<u8>)
    ensures
        has_tag(s, 0, s),
{
    reveal(has_tag);
}

/// Whether the text holds no backtick.
pub open spec fn no_backtick(t: Seq<u8>) -> bool {
    forall|i: int| 0 <= i < t.len() ==> #[trigger] t[i] != '`' as u8
}

/// Whether no name of the statement holds a backtick: not the name and the
/// schema of its table, not the names of its columns, and not the columns
/// of their TTL clauses.
pub open spec fn free_of_backticks(c: CreateTableStatementView) -> bool {
    &&& no_backtick(c.table.name)
    &&& (c.table.schema is Some ==> no_backtick(c.table.schema->0))
    &&& forall|i: int|
        0 <= i < c.fields.len() ==> no_backtick((#[trigger] c.fields[i]).column.name) && (
        c.fields[i].ttl is Some ==> no_backtick((c.fields[i].ttl->0).column))
}

/// Whether every expression of the statement is self-delimiting: the
/// options of its columns, and the cluster, the schema and the table of a
/// `Distributed` engine.
pub open spec fn with_self_delimiting_expressions(c: CreateTableStatementView) -> bool {
    &&& forall|i: int|
        0 <= i < c.fields.len() && (#[trigger] c.fields[i]).option is Some ==> self_delimiting(
            option_text(c.fields[i].option->0),
        )
    &&& match c.engine {
        EngineView::Distributed(d) => self_delimiting(d.cluster_name) && self_delimiting(d.schema)
            && self_delimiting(d.table),
        _ => true,
    }
}

/// Whether the engine of the statement is `Memory` or `Distributed`.
pub open spec fn in_memory_or_distributed(c: CreateTableStatementView) -> bool {
    c.engine is Memory || c.engine is Distributed
}

/// A valid statement with one of the two engines, without backticks in its
/// names and with self-delimiting expressions, is plain.
pub proof fn lemma_plain_statement(c: CreateTableStatementView)
    requires
        valid_statement(c),
        in_memory_or_distributed(c),
        free_of_backticks(c),
        with_self_delimiting_expressions(c),
    ensures
        plain_statement(c),
{
    assert forall|i: int| 0 <= i < c.fields.len() implies plain_column(#[trigger] c.fields[i]) by {
        let f = c.fields[i];
        assert(valid_column(f));
        assert(no_backtick(f.column.name));
    }
}

/// The round trip of a valid statement: the grammar reads from the
/// canonical text of the statement the statement that was written, and
/// reads all of the text.
///
/// This holds of the statements with the engine `Memory` or `Distributed`
/// whose names hold no backtick and whose expressions are self-delimiting.
/// A name with a backtick cannot stand between backticks, and an
/// expression that is not self-delimiting is read otherwise behind the
/// white space that the printers write than where it was found. Of a
/// `MergeTree` engine the statement keeps the text, not its parts, and the
/// canonical text of the statement repeats that text byte for byte.
pub proof fn lemma_round_trip_of_valid(c: CreateTableStatementView)
    requires
        valid_statement(c),
        in_memory_or_distributed(c),
        free_of_backticks(c),
        with_self_delimiting_expressions(c),
    ensures
        spec_parse(print_statement(c)) == Ok::<SqlQueryView, ParseError>(
            SqlQueryView::CreateTable(c),
        ),
        spec_sql_query(print_statement(c), 0) == Ok::<(SqlQueryView, int), ParseError>(
            (SqlQueryView::CreateTable(c), print_statement(c).len() as int),
        ),
{
    let s = print_statement(c);
    lemma_plain_statement(c);
    lemma_tag_self(s);
    lemma_statement_read(s, 0, c);
}

/// What the grammar reads is a valid statement.
pub proof fn lemma_parsed_is_valid(x: Seq<u8>)
    requires
        spec_parse(x) is Ok,
    ensures
        valid_statement(spec_parse(x)->Ok_0->CreateTable_0),
{
    lemma_creation_valid(x, 0);
}

/// The round trip: what the grammar reads from the canonical text of a
/// statement that it has read is that statement again.
///
/// This holds of the statements with the engine `Memory` or `Distributed`
/// whose names hold no backtick and whose expressions are self-delimiting.
pub proof fn lemma_round_trip(x: Seq<u8>, q: SqlQueryView)
    requires
        spec_parse(x) == Ok::<SqlQueryView, ParseError>(q),
        in_memory_or_distributed(q->CreateTable_0),
        free_of_backticks(q->CreateTable_0),
        with_self_delimiting_expressions(q->CreateTable_0),
    ensures
        spec_parse(print_query(q)) == Ok::<SqlQueryView, ParseError>(q),
{
    lemma_parsed_is_valid(x);
    lemma_round_trip_of_valid(q->CreateTable_0);
}

/// The canonical text of a statement has no white space at its start or at
/// its end: it begins with `C` and ends with `;`, so trimming the text
/// changes nothing.
pub proof fn lemma_canonical_text_is_trimmed(text: Seq<char>, q: SqlQueryView)
    requires
        encode_utf8(text) == print_query(q),
    ensures
        spec_trim(text) == text,
{
    let c = q->CreateTable_0;
    let head = lit("CREATE TABLE ");
    let middle = print_table(c.table) + lit(" (\n") + lit("  ") + print_fields(
        c.fields,
        c.fields.len() as int,
    ) + lit("\n) ") + print_engine(c.engine);
    let s = print_statement(c);
    lemma_bytes_create_space_table_space_cased();
    lemma_bytes_semi();
    assert(s =~= head + middle + lit(";"));
    assert(s[0] == head[0]);
    assert(s.last() == lit(";")[0]);
    lemma_first_char(text);
    lemma_last_char(text);
    assert(!is_whitespace(text[0]));
    assert(!is_whitespace(text[text.len() - 1]));
    assert(leading_space_end(text, 0) == 0);
    assert(trailing_space_start(text, text.len() as int) == text.len());
    assert(text.subrange(0, text.len() as int) =~= text);
}

/// The round trip of a text: where a statement that the grammar has read
/// is written as text, parsing that text, with the white space at its ends
/// set aside, gives the statement again.
///
/// This holds of the statements with the engine `Memory` or `Distributed`
/// whose names hold no backtick and whose expressions are self-delimiting.
pub proof fn lemma_round_trip_of_text(x: Seq<u8>, q: SqlQueryView, text: Seq<char>)
    requires
        spec_parse(x) == Ok::<SqlQueryView, ParseError>(q),
        in_memory_or_distributed(q->CreateTable_0),
        free_of_backticks(q->CreateTable_0),
        with_self_delimiting_expressions(q->CreateTable_0),
        encode_utf8(text) == print_query(q),
    ensures
        spec_parse(encode_utf8(spec_trim(text))) == Ok::<SqlQueryView, ParseError>(q),
{
    lemma_canonical_text_is_trimmed(text, q);
    lemma_round_trip(x, q);
}

/// A bare identifier that is no reserved word is a self-delimiting
/// expression.
pub proof fn lemma_identifier_is_self_delimiting(e: Seq<u8>)
    requires
        is_bare_identifier(e),
        valid_utf8(e),
    ensures
        self_delimiting(e),
{
    lemma_identifier_reads_whole(e, MAX_NESTING as nat);
    lemma_reads_whole_is_self_delimiting(e);
}

/// A string literal in single quotes without quotes and backslashes in it
/// is a self-delimiting expression.
pub proof fn lemma_string_is_self_delimiting(t: Seq<u8>)
    requires
        plain_string(t),
        valid_utf8(lit("'") + t + lit("'")),
    ensures
        self_delimiting(lit("'") + t + lit("'")),
{
    lemma_string_reads_whole(t, MAX_NESTING as nat);
    lemma_reads_whole_is_self_delimiting(lit("'") + t + lit("'"));
}

/// A call of a function whose name is a bare identifier and no reserved
/// word is a self-delimiting expression, if its arguments are read as a
/// whole with one level of brackets less than the grammar follows.
pub proof fn lemma_call_is_self_delimiting(name: Seq<u8>, args: Seq<Seq<u8>>)
    requires
        is_bare_identifier(name),
        arguments_read_whole(args, (MAX_NESTING - 1) as nat),
        valid_utf8(call_text(name, args)),
    ensures
        self_delimiting(call_text(name, args)),
{
    lemma_call_reads_whole(name, args, (MAX_NESTING - 1) as nat);
    lemma_reads_whole_is_self_delimiting(call_text(name, args));
}

/// The engines of the `MergeTree` family keep their text: what the
/// statement holds of such an engine is the part of the input in which the
/// engine stood, byte for byte, and the canonical text of the engine clause
/// is `ENGINE = ` and that part.
pub proof fn lemma_merge_tree_keeps_its_text(s: Seq<u8>, pos: int)
    requires
        spec_engine(s, pos) is Ok,
    ensures
        match spec_engine(s, pos)->Ok_0.0 {
            EngineView::MergeTree(text) => text == s.subrange(
                pos,
                spec_engine(s, pos)->Ok_0.1,
            ) && print_engine(EngineView::MergeTree(text)) == lit("ENGINE = ") + text,
            EngineView::ReplicatedMergeTree(text) => text == s.subrange(
                pos,
                spec_engine(s, pos)->Ok_0.1,
            ) && print_engine(EngineView::ReplicatedMergeTree(text)) == lit("ENGINE = ") + text,
            _ => true,
        },
{
    reveal(spec_engine);
}

/// The symmetry of the wrappers: a type in its wrappers, whichever of the
/// four combinations of `Nullable` and `LowCardinality` they are, is read
/// from its canonical text as the same type with the same two flags.
///
/// This holds of the valid types, which are those that have a text that the
/// grammar reads: an `Enum` has an entry at least, a name of an entry and a
/// time zone hold no single quote, a precision is one digit, and `Array`
/// stands in `Array` no deeper than the grammar follows it. The values of
/// an `Enum` are any of 16 bits, below zero too.
pub proof fn lemma_wrapper_symmetry(t: SqlTypeOptsView)
    requires
        valid_type(t.ftype, MAX_NESTING as nat),
    ensures
        spec_field_specification_opts(print_type_opts(t), 0, MAX_NESTING as nat) == Ok::<
            (SqlTypeOptsView, int),
            ParseError,
        >((t, print_type_opts(t).len() as int)),
{
    let s = print_type_opts(t);
    lemma_tag_self(s);
    crate::reading::lemma_ws_stop(s, s.len() as int);
    lemma_opts_read(s, 0, t, MAX_NESTING as nat);
}

/// The symmetry of the wrappers in a column: a plain column is read from
/// its canonical text as the same column, with the same type and the same
/// two flags. Its table is not written, and so not read.
pub proof fn lemma_column_round_trip(c: ColumnSpecificationView)
    requires
        plain_column(c),
    ensures
        spec_field_specification(print_column_specification(c), 0) is Ok,
        spec_field_specification(print_column_specification(c), 0)->Ok_0.0 == without_table(c),
        spec_field_specification(print_column_specification(c), 0)->Ok_0.0.sql_type == c.sql_type,
        spec_field_specification(print_column_specification(c), 0)->Ok_0.0.nullable == c.nullable,
        spec_field_specification(print_column_specification(c), 0)->Ok_0.0.lowcardinality
            == c.lowcardinality,
        spec_field_specification(print_column_specification(c), 0)->Ok_0.1
            == print_column_specification(c).len(),
{
    let s = print_column_specification(c);
    lemma_tag_self(s);
    crate::reading::lemma_ws_stop(s, s.len() as int);
    lemma_field_read(s, 0, c);
}

} // verus!
