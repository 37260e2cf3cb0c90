//! What holds of every value that the grammar gives.

use vstd::prelude::*;
use vstd::utf8::valid_utf8;
use crate::codec::{spec_codecs_tail, spec_column_codec, spec_column_codec_list, Codec};
use crate::codec::{valid_codec, valid_codecs};
use crate::column::{
    spec_column_comment, spec_column_identifier_no_alias, spec_column_option, spec_column_ttl,
    spec_field_clauses, spec_field_list_tail, spec_field_specification,
    spec_field_specification_list, ColumnSpecificationView, ColumnView,
};
use crate::create::{
    all_with_table, spec_creation, spec_statement_body, spec_statement_parts,
    CreateTableStatementView,
};
use crate::engine::{spec_engine, EngineView};
use crate::error::{gives_up, optional};
use crate::ident::spec_sql_identifier;
use crate::scan::{lemma_run_end_bounds, lemma_run_end_props, ByteClass, MAX_NESTING};
use crate::table::{spec_as_alias, spec_schema_table_reference, spec_table_spans, TableView};
use crate::text::{single_quoted_end, spec_single_quoted};
use crate::types::{
    spec_array_type, spec_date_time64_type, spec_date_time_type, spec_enum_type, spec_enum_value,
    spec_enum_values_tail, spec_field_specification_opts, spec_fixed_string_type, spec_int_type,
    spec_type_identifier, spec_uint_type, spec_word_type, spec_wrapped_type, spec_zone_after_comma,
    spec_zone_in_brackets, valid_enum_entries, valid_quoted, valid_type, SqlTypeOptsView,
    SqlTypeView,
};

verus! {

/// Whether the text is a name: it is not empty, and valid UTF-8.
pub open spec fn valid_name(t: Seq<u8>) -> bool {
    t.len() > 0 && valid_utf8(t)
}

/// Whether the column is one that the grammar gives: its name and its
/// table, if it has one, are names; it has no alias; its type is valid; its
/// comment holds no single quote; its codecs are valid; its TTL has a name
/// for its column, and no interval; and the text of its option is valid
/// UTF-8.
pub open spec fn valid_column(c: ColumnSpecificationView) -> bool {
    &&& valid_name(c.column.name)
    &&& c.column.alias is None
    &&& (c.column.table is Some ==> valid_name(c.column.table->0))
    &&& valid_type(c.sql_type, MAX_NESTING as nat)
    &&& (c.option is Some ==> valid_utf8(crate::reading_column::option_text(c.option->0)))
    &&& (c.comment is Some ==> valid_quoted(c.comment->0))
    &&& (c.codec is Some ==> valid_codecs(c.codec->0))
    &&& (c.ttl is Some ==> (c.ttl->0).interval is None && valid_name((c.ttl->0).column))
}

/// Whether all columns are valid.
pub open spec fn valid_columns(fields: Seq<ColumnSpecificationView>) -> bool {
    forall|i: int| 0 <= i < fields.len() ==> valid_column(#[trigger] fields[i])
}

/// Whether the table reference is one that the grammar gives: its name, its
/// schema and its alias, as far as it has them, are names.
pub open spec fn valid_table(t: TableView) -> bool {
    &&& valid_name(t.name)
    &&& (t.schema is Some ==> valid_name(t.schema->0))
    &&& (t.alias is Some ==> valid_name(t.alias->0))
}

/// Whether the engine is one that the grammar gives: its texts are valid
/// UTF-8, and a `Distributed` engine has neither sharding key nor policy
/// name.
pub open spec fn valid_engine(e: EngineView) -> bool {
    match e {
        EngineView::Distributed(d) => {
            &&& valid_utf8(d.cluster_name)
            &&& valid_utf8(d.schema)
            &&& valid_utf8(d.table)
            &&& d.sharding_key is None
            &&& d.policy_name is None
        },
        EngineView::Memory => true,
        EngineView::MergeTree(text) => valid_utf8(text),
        EngineView::ReplicatedMergeTree(text) => valid_utf8(text),
    }
}

/// Whether the statement is one that the grammar gives: its table is valid
/// and has no alias, its columns are valid and belong to its table, and its
/// engine is valid.
pub open spec fn valid_statement(c: CreateTableStatementView) -> bool {
    &&& valid_table(c.table)
    &&& c.table.alias is None
    &&& valid_columns(c.fields)
    &&& forall|i: int|
        0 <= i < c.fields.len() ==> (#[trigger] c.fields[i]).column.table == Some(c.table.name)
    &&& valid_engine(c.engine)
}

/// The name of an identifier is not empty, and lies in the input.
pub proof fn lemma_identifier_span(s: Seq<u8>, pos: int)
    requires
        spec_sql_identifier(s, pos) is Ok,
    ensures
        0 <= pos <= spec_sql_identifier(s, pos)->Ok_0.0.0 < spec_sql_identifier(s, pos)->Ok_0.0.1
            <= spec_sql_identifier(s, pos)->Ok_0.1 <= s.len(),
{
    if 0 <= pos <= s.len() {
        lemma_run_end_bounds(s, pos, ByteClass::Identifier);
    }
    if 0 <= pos + 1 <= s.len() {
        lemma_run_end_bounds(s, pos + 1, ByteClass::Except('`' as u8));
        lemma_run_end_bounds(s, pos + 1, ByteClass::Except('"' as u8));
    }
}

/// A text that is read between single quotes can stand between them.
pub proof fn lemma_single_quoted_valid(s: Seq<u8>, pos: int)
    requires
        spec_single_quoted(s, pos) is Ok,
    ensures
        valid_quoted(spec_single_quoted(s, pos)->Ok_0.0),
{
    let end = single_quoted_end(s, pos)->0;
    lemma_run_end_props(s, pos + 1, ByteClass::Except('\'' as u8));
    let t = s.subrange(pos + 1, end);
    assert forall|i: int| 0 <= i < t.len() implies #[trigger] t[i] != '\'' as u8 by {
        assert(ByteClass::Except('\'' as u8).has(s[pos + 1 + i]));
    }
}

/// An entry of an `Enum` that the grammar reads is valid.
pub proof fn lemma_enum_value_valid(s: Seq<u8>, pos: int)
    requires
        spec_enum_value(s, pos) is Ok,
    ensures
        valid_quoted(spec_enum_value(s, pos)->Ok_0.0.0),
{
    lemma_single_quoted_valid(s, crate::scan::ws_end(s, pos));
}

/// The entries of an `Enum` that the grammar reads behind valid entries are
/// valid.
pub proof fn lemma_enum_tail_valid(s: Seq<u8>, pos: int, acc: Seq<(Seq<u8>, i16)>)
    requires
        valid_enum_entries(acc),
        spec_enum_values_tail(s, pos, acc) is Ok,
    ensures
        valid_enum_entries(spec_enum_values_tail(s, pos, acc)->Ok_0.0),
    decreases s.len() - pos,
{
    match crate::scan::sep_comma_end(s, pos) {
        None => {},
        Some(next) => {
            match spec_enum_value(s, next) {
                Err(_) => {},
                Ok((v, end)) => {
                    if pos < end <= s.len() {
                        lemma_enum_value_valid(s, next);
                        let more = acc.push(v);
                        assert forall|i: int| 0 <= i < more.len() implies valid_quoted(
                            (#[trigger] more[i]).0,
                        ) by {
                            if i < acc.len() {
                                assert(more[i] == acc[i]);
                            }
                        }
                        lemma_enum_tail_valid(s, end, more);
                    }
                },
            }
        },
    }
}

/// An `Enum` that the grammar reads is valid.
pub proof fn lemma_enum_type_valid(s: Seq<u8>, pos: int, depth: nat)
    requires
        spec_enum_type(s, pos) is Ok,
    ensures
        valid_type(spec_enum_type(s, pos)->Ok_0.0, depth),
{
    let p = crate::scan::word_end(s, pos, crate::scan::lit("enum"))->0;
    let open = match crate::types::spec_type_size_suffix16(s, p) {
        Ok((size, end)) => end,
        Err(_) => p,
    };
    let first = spec_enum_value(s, open + 1);
    lemma_enum_value_valid(s, open + 1);
    let acc = seq![first->Ok_0.0];
    assert(valid_enum_entries(acc));
    lemma_enum_tail_valid(s, first->Ok_0.1, acc);
}

/// A `DateTime` that the grammar reads is valid.
pub proof fn lemma_date_time_type_valid(s: Seq<u8>, pos: int, depth: nat)
    requires
        spec_date_time_type(s, pos) is Ok,
    ensures
        valid_type(spec_date_time_type(s, pos)->Ok_0.0, depth),
{
    let p = crate::scan::word_end(s, pos, crate::scan::lit("datetime"))->0;
    let at = crate::scan::ws_end(s, p);
    if spec_zone_in_brackets(s, at)->Ok_0.0 is Some {
        lemma_single_quoted_valid(s, crate::scan::ws_end(s, at + 1));
    }
}

/// A `DateTime64` that the grammar reads is valid.
pub proof fn lemma_date_time64_type_valid(s: Seq<u8>, pos: int, depth: nat)
    requires
        spec_date_time64_type(s, pos) is Ok,
    ensures
        valid_type(spec_date_time64_type(s, pos)->Ok_0.0, depth),
{
    let p = crate::scan::word_end(s, pos, crate::scan::lit("datetime64"))->0;
    let open = crate::scan::ws_end(s, p);
    let digit = crate::scan::ws_end(s, open + 1);
    let at = crate::scan::ws_end(s, digit + 1);
    if spec_zone_after_comma(s, at)->Ok_0.0 is Some {
        lemma_single_quoted_valid(s, crate::scan::ws_end(s, at + 1));
    }
}

/// A type that the grammar reads is valid.
pub proof fn lemma_type_valid(s: Seq<u8>, pos: int, depth: nat)
    requires
        spec_type_identifier(s, pos, depth) is Ok,
    ensures
        valid_type(spec_type_identifier(s, pos, depth)->Ok_0.0, depth),
    decreases depth, 1int,
{
    let r = spec_type_identifier(s, pos, depth);
    if !gives_up(spec_int_type(s, pos)) {
    } else if !gives_up(spec_uint_type(s, pos)) {
    } else if !gives_up(spec_enum_type(s, pos)) {
        lemma_enum_type_valid(s, pos, depth);
    } else if !gives_up(
        spec_word_type(s, pos, crate::scan::lit("string"), SqlTypeView::String),
    ) {
    } else if !gives_up(
        spec_word_type(s, pos, crate::scan::lit("float32"), SqlTypeView::Float32),
    ) {
    } else if !gives_up(
        spec_word_type(s, pos, crate::scan::lit("float64"), SqlTypeView::Float64),
    ) {
    } else if !gives_up(spec_date_time64_type(s, pos)) {
        lemma_date_time64_type_valid(s, pos, depth);
    } else if !gives_up(spec_date_time_type(s, pos)) {
        lemma_date_time_type_valid(s, pos, depth);
    } else if !gives_up(spec_word_type(s, pos, crate::scan::lit("date"), SqlTypeView::Date)) {
    } else if !gives_up(spec_fixed_string_type(s, pos)) {
    } else if !gives_up(spec_word_type(s, pos, crate::scan::lit("ipv4"), SqlTypeView::IPv4)) {
    } else if !gives_up(spec_word_type(s, pos, crate::scan::lit("ipv6"), SqlTypeView::IPv6)) {
    } else if !gives_up(spec_word_type(s, pos, crate::scan::lit("uuid"), SqlTypeView::UUID)) {
    } else if !gives_up(spec_array_type(s, pos, depth)) {
        let p = crate::scan::word_end(s, pos, crate::scan::lit("array"))->0;
        lemma_opts_valid(s, p + 1, (depth - 1) as nat);
    }
}

/// A type that the grammar reads between the words of a wrapper is valid.
pub proof fn lemma_wrapped_valid(
    s: Seq<u8>,
    pos: int,
    depth: nat,
    open: Seq<u8>,
    close: Seq<u8>,
    nullable: bool,
    lowcardinality: bool,
)
    requires
        spec_wrapped_type(s, pos, depth, open, close, nullable, lowcardinality) is Ok,
    ensures
        valid_type(
            spec_wrapped_type(s, pos, depth, open, close, nullable, lowcardinality)->Ok_0.0.ftype,
            depth,
        ),
    decreases depth, 2int,
{
    let p = crate::scan::word_end(s, pos, open)->0;
    lemma_type_valid(s, p, depth);
}

/// A type in its wrappers that the grammar reads is valid.
pub proof fn lemma_opts_valid(s: Seq<u8>, pos: int, depth: nat)
    requires
        spec_field_specification_opts(s, pos, depth) is Ok,
    ensures
        valid_type(spec_field_specification_opts(s, pos, depth)->Ok_0.0.ftype, depth),
    decreases depth, 3int,
{
    let nullable = spec_wrapped_type(
        s,
        pos,
        depth,
        crate::scan::lit("Nullable("),
        crate::scan::lit(")"),
        true,
        false,
    );
    let low = spec_wrapped_type(
        s,
        pos,
        depth,
        crate::scan::lit("LowCardinality("),
        crate::scan::lit(")"),
        false,
        true,
    );
    let both = spec_wrapped_type(
        s,
        pos,
        depth,
        crate::scan::lit("LowCardinality(Nullable("),
        crate::scan::lit("))"),
        true,
        true,
    );
    if !gives_up(nullable) {
        lemma_wrapped_valid(
            s,
            pos,
            depth,
            crate::scan::lit("Nullable("),
            crate::scan::lit(")"),
            true,
            false,
        );
    } else if !gives_up(low) {
        lemma_wrapped_valid(
            s,
            pos,
            depth,
            crate::scan::lit("LowCardinality("),
            crate::scan::lit(")"),
            false,
            true,
        );
    } else if !gives_up(both) {
        lemma_wrapped_valid(
            s,
            pos,
            depth,
            crate::scan::lit("LowCardinality(Nullable("),
            crate::scan::lit("))"),
            true,
            true,
        );
    } else {
        lemma_type_valid(s, pos, depth);
    }
}

/// A codec that the grammar reads is valid.
pub proof fn lemma_codec_valid(s: Seq<u8>, pos: int)
    requires
        spec_column_codec(s, pos) is Ok,
    ensures
        valid_codec(spec_column_codec(s, pos)->Ok_0.0),
{
}

/// The codecs that the grammar reads behind valid codecs are valid.
pub proof fn lemma_codecs_tail_valid(s: Seq<u8>, pos: int, acc: Seq<Codec>)
    requires
        valid_codecs(acc),
        spec_codecs_tail(s, pos, acc) is Ok,
    ensures
        valid_codecs(spec_codecs_tail(s, pos, acc)->Ok_0.0),
    decreases s.len() - pos,
{
    match crate::scan::sep_comma_end(s, pos) {
        None => {},
        Some(next) => {
            match spec_column_codec(s, next) {
                Err(_) => {},
                Ok((c, end)) => {
                    if pos < end <= s.len() {
                        lemma_codec_valid(s, next);
                        let more = acc.push(c);
                        assert forall|i: int| 0 <= i < more.len() implies valid_codec(
                            #[trigger] more[i],
                        ) by {
                            if i < acc.len() {
                                assert(more[i] == acc[i]);
                            }
                        }
                        lemma_codecs_tail_valid(s, end, more);
                    }
                },
            }
        },
    }
}

/// The codecs of a clause that the grammar reads are valid.
pub proof fn lemma_codec_list_valid(s: Seq<u8>, pos: int)
    requires
        spec_column_codec_list(s, pos) is Ok,
    ensures
        valid_codecs(spec_column_codec_list(s, pos)->Ok_0.0),
{
    let p = crate::scan::word_end(s, pos, crate::scan::lit("codec"))->0;
    let open = crate::scan::ws_end(s, p);
    let at = crate::scan::ws_end(s, open + 1);
    match spec_column_codec(s, at) {
        Err(_) => {},
        Ok((c, end)) => {
            lemma_codec_valid(s, at);
            lemma_codecs_tail_valid(s, end, seq![c]);
        },
    }
}

/// The column reference that the grammar reads has names for its name and
/// its table, and no alias.
pub proof fn lemma_column_identifier_valid(s: Seq<u8>, pos: int)
    requires
        spec_column_identifier_no_alias(s, pos) is Ok,
    ensures
        valid_name(spec_column_identifier_no_alias(s, pos)->Ok_0.0.name),
        spec_column_identifier_no_alias(s, pos)->Ok_0.0.alias is None,
        spec_column_identifier_no_alias(s, pos)->Ok_0.0.table is Some ==> valid_name(
            spec_column_identifier_no_alias(s, pos)->Ok_0.0.table->0,
        ),
{
    lemma_identifier_span(s, pos);
    let first_end = spec_sql_identifier(s, pos)->Ok_0.1;
    if crate::scan::byte_at(s, first_end, '.' as u8) {
        lemma_identifier_span(s, first_end + 1);
    }
}

/// The text of an option that the grammar reads is valid UTF-8.
pub proof fn lemma_option_valid(s: Seq<u8>, pos: int)
    requires
        spec_column_option(s, pos) is Ok,
    ensures
        valid_utf8(crate::reading_column::option_text(spec_column_option(s, pos)->Ok_0.0)),
{
}

/// The TTL that the grammar reads has a name for its column, and no
/// interval.
pub proof fn lemma_ttl_valid(s: Seq<u8>, pos: int)
    requires
        spec_column_ttl(s, pos) is Ok,
    ensures
        spec_column_ttl(s, pos)->Ok_0.0.interval is None,
        valid_name(spec_column_ttl(s, pos)->Ok_0.0.column),
{
    let start = crate::scan::ws_end(s, pos);
    let w = crate::scan::word_end(s, start, crate::scan::lit("TTL"))->0;
    lemma_identifier_span(s, crate::scan::ws_end(s, w));
}

/// The clauses of a column that the grammar reads are valid, and the column
/// has the name and the type that were read before them.
pub proof fn lemma_clauses_valid(s: Seq<u8>, pos: int, column: ColumnView, t: SqlTypeOptsView)
    requires
        spec_field_clauses(s, pos, column, t) is Ok,
    ensures
        spec_field_clauses(s, pos, column, t)->Ok_0.0.column == column,
        spec_field_clauses(s, pos, column, t)->Ok_0.0.sql_type == t.ftype,
        ({
            let c = spec_field_clauses(s, pos, column, t)->Ok_0.0;
            &&& (c.option is Some ==> valid_utf8(crate::reading_column::option_text(c.option->0)))
            &&& (c.comment is Some ==> valid_quoted(c.comment->0))
            &&& (c.codec is Some ==> valid_codecs(c.codec->0))
            &&& (c.ttl is Some ==> (c.ttl->0).interval is None && valid_name((c.ttl->0).column))
        }),
{
    reveal(spec_field_clauses);
    let o = optional(spec_column_option(s, pos), pos);
    if spec_column_option(s, pos) is Ok {
        lemma_option_valid(s, pos);
    }
    let option_end = o->Ok_0.1;
    let at1 = crate::scan::ws_end(s, option_end);
    if spec_column_comment(s, at1) is Ok {
        let w = crate::scan::word_end(s, at1, crate::scan::lit("COMMENT"))->0;
        lemma_single_quoted_valid(s, crate::scan::ws_end(s, w));
    }
    let comment_end = optional(spec_column_comment(s, at1), option_end)->Ok_0.1;
    let at2 = crate::scan::ws_end(s, comment_end);
    if spec_column_codec_list(s, at2) is Ok {
        lemma_codec_list_valid(s, at2);
    }
    let codec_end = optional(spec_column_codec_list(s, at2), comment_end)->Ok_0.1;
    let at3 = crate::scan::ws_end(s, codec_end);
    if spec_column_ttl(s, at3) is Ok {
        lemma_ttl_valid(s, at3);
    }
}

/// A column that the grammar reads is valid.
pub proof fn lemma_field_valid(s: Seq<u8>, pos: int)
    requires
        spec_field_specification(s, pos) is Ok,
    ensures
        valid_column(spec_field_specification(s, pos)->Ok_0.0),
{
    reveal(spec_field_specification);
    lemma_column_identifier_valid(s, pos);
    let head = spec_column_identifier_no_alias(s, pos)->Ok_0;
    let at = crate::scan::ws_end(s, head.1);
    lemma_opts_valid(s, at, MAX_NESTING as nat);
    let t = spec_field_specification_opts(s, at, MAX_NESTING as nat)->Ok_0;
    lemma_clauses_valid(s, crate::scan::ws_end(s, t.1), head.0, t.0);
}

/// The columns that the grammar reads behind valid columns are valid.
pub proof fn lemma_field_list_tail_valid(
    s: Seq<u8>,
    pos: int,
    acc: Seq<ColumnSpecificationView>,
)
    requires
        valid_columns(acc),
        spec_field_list_tail(s, pos, acc) is Ok,
    ensures
        valid_columns(spec_field_list_tail(s, pos, acc)->Ok_0.0),
    decreases s.len() - pos,
{
    match crate::scan::sep_comma_end(s, pos) {
        None => {},
        Some(next) => {
            match spec_field_specification(s, next) {
                Err(_) => {},
                Ok((c, end)) => {
                    if pos < end <= s.len() {
                        lemma_field_valid(s, next);
                        let more = acc.push(c);
                        assert forall|i: int| 0 <= i < more.len() implies valid_column(
                            #[trigger] more[i],
                        ) by {
                            if i < acc.len() {
                                assert(more[i] == acc[i]);
                            }
                        }
                        lemma_field_list_tail_valid(s, end, more);
                    }
                },
            }
        },
    }
}

/// The columns of a list that the grammar reads are valid.
pub proof fn lemma_field_list_valid(s: Seq<u8>, pos: int)
    requires
        spec_field_specification_list(s, pos) is Ok,
    ensures
        valid_columns(spec_field_specification_list(s, pos)->Ok_0.0),
{
    match spec_field_specification(s, pos) {
        Err(_) => {},
        Ok((c, end)) => {
            lemma_field_valid(s, pos);
            lemma_field_list_tail_valid(s, end, seq![c]);
        },
    }
}

/// The name of an alias that the grammar reads is not empty, and lies in
/// the input.
pub proof fn lemma_alias_span(s: Seq<u8>, pos: int)
    requires
        spec_as_alias(s, pos) is Ok,
    ensures
        0 <= spec_as_alias(s, pos)->Ok_0.0.0 < spec_as_alias(s, pos)->Ok_0.0.1 <= s.len(),
{
    let start = crate::scan::ws_end(s, pos);
    match crate::scan::word_end(s, start, crate::scan::lit("as")) {
        Some(w) => {
            if crate::scan::ws_end(s, w) > w {
                lemma_identifier_span(s, crate::scan::ws_end(s, w));
            } else {
                lemma_identifier_span(s, start);
            }
        },
        None => {
            lemma_identifier_span(s, start);
        },
    }
}

/// A table reference that the grammar reads is valid.
pub proof fn lemma_table_valid(s: Seq<u8>, pos: int)
    requires
        spec_schema_table_reference(s, pos) is Ok,
    ensures
        valid_table(spec_schema_table_reference(s, pos)->Ok_0.0),
{
    reveal(spec_schema_table_reference);
    lemma_identifier_span(s, pos);
    let first_end = spec_sql_identifier(s, pos)->Ok_0.1;
    if crate::scan::byte_at(s, first_end, '.' as u8) {
        lemma_identifier_span(s, first_end + 1);
    }
    let spans = spec_table_spans(s, pos)->Ok_0;
    if spans.0.2 is Some {
        let end = if crate::scan::byte_at(s, first_end, '.' as u8) {
            spec_sql_identifier(s, first_end + 1)->Ok_0.1
        } else {
            first_end
        };
        lemma_alias_span(s, end);
    }
}

/// An engine that the grammar reads is valid.
pub proof fn lemma_engine_valid(s: Seq<u8>, pos: int)
    requires
        spec_engine(s, pos) is Ok,
    ensures
        valid_engine(spec_engine(s, pos)->Ok_0.0),
{
    reveal(spec_engine);
}

/// A statement that the grammar reads is valid.
pub proof fn lemma_creation_valid(s: Seq<u8>, pos: int)
    requires
        spec_creation(s, pos) is Ok,
    ensures
        valid_statement(spec_creation(s, pos)->Ok_0.0),
{
    let parts = spec_statement_parts(s, pos)->Ok_0.0;
    let w1 = crate::scan::word_end(s, pos, crate::scan::lit("create"))->0;
    let w2 = crate::scan::word_end(s, crate::scan::ws_end(s, w1), crate::scan::lit("table"))->0;
    let at = crate::scan::ws_end(s, w2);
    lemma_table_valid(s, at);
    let table_end = spec_schema_table_reference(s, at)->Ok_0.1;
    lemma_body_valid(s, table_end);
    let fields = all_with_table(parts.1, parts.0.name);
    assert forall|i: int| 0 <= i < fields.len() implies valid_column(#[trigger] fields[i]) by {
        assert(valid_column(parts.1[i]));
    }
}

/// The columns and the engine of a statement that the grammar reads are
/// valid.
pub proof fn lemma_body_valid(s: Seq<u8>, pos: int)
    requires
        spec_statement_body(s, pos) is Ok,
    ensures
        valid_columns(spec_statement_body(s, pos)->Ok_0.0.0),
        valid_engine(spec_statement_body(s, pos)->Ok_0.0.1),
{
    let open = crate::scan::ws_end(s, pos);
    let at = crate::scan::ws_end(s, open + 1);
    lemma_field_list_valid(s, at);
    let fields_end = spec_field_specification_list(s, at)->Ok_0.1;
    let close = crate::scan::ws_end(s, fields_end);
    let engine_at = crate::scan::ws_end(s, close + 1);
    let w = crate::scan::word_end(s, engine_at, crate::scan::lit("engine"))->0;
    lemma_engine_valid(s, crate::scan::ws_end(s, crate::scan::ws_end(s, w) + 1));
}

} // verus!
