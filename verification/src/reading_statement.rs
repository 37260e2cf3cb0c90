//! What the grammar of statements reads where the canonical text of a
//! statement stands.

use vstd::prelude::*;
use vstd::utf8::valid_utf8;
use crate::column::{
    print_column_specification, spec_field_list_tail, spec_field_specification,
    spec_field_specification_list, ColumnSpecificationView,
};
use crate::create::{
    all_with_table, print_fields, print_statement, spec_creation, spec_statement_body,
    spec_statement_parts, spec_statement_terminator, CreateTableStatementView,
};
use crate::engine::{
    print_distributed, print_distributed_tail, print_engine, spec_distributed_sharding,
    spec_distributed_table, spec_engine, spec_engine_distributed, spec_engine_spec,
    EngineDistributedView, EngineView,
};
use crate::error::{gives_up, syntax, ErrorKind, ParseError};
use crate::expr::spec_expression;
use crate::ident::spec_sql_identifier;
use crate::keywords::spec_escape;
use crate::reading::{
    lemma_escaped_read, lemma_lit, lemma_not_word, lemma_tag_bounds, lemma_tag_byte,
    lemma_tag_is_subrange, lemma_tag_not_word, lemma_tag_part, lemma_tag_split, lemma_word,
    lemma_ws_inside, lemma_ws_stop,
};
use crate::reading_column::{
    behind_column, behind_expression, lemma_escape_first_byte, lemma_field_read, plain_column,
    plain_name, self_delimiting, without_table,
};
use crate::scan::{
    byte_at, has_tag, is_space, lemma_run_end_bounds, lemma_run_end_is, lit, sep_comma_end,
    word_end, ws_end, ByteClass,
};
use crate::table::{
    print_table, spec_as_alias, spec_capture_opt, spec_schema_table_reference, spec_table_spans,
    TableView,
};
use crate::text::spec_capture;
use crate::words::{
    lemma_bytes_as, lemma_bytes_close, lemma_bytes_comma_nl_space_space,
    lemma_bytes_comma_nl_space_space_tick, lemma_bytes_comma_space,
    lemma_bytes_create_space_table_space_cased, lemma_bytes_distributed_cased,
    lemma_bytes_distributed_open_space_cased, lemma_bytes_dot,
    lemma_bytes_engine_space_eq_space_cased, lemma_bytes_engine_space_eq_space_memory_cased,
    lemma_bytes_memory_cased, lemma_bytes_nl_close_space,
    lemma_bytes_nl_close_space_engine_space_eq_space_cased, lemma_bytes_semi,
    lemma_bytes_space_open_nl, lemma_bytes_space_space, lemma_bytes_table, lemma_bytes_tick,
    lemma_create_space_table_space_cased_reads_as_create,
    lemma_distributed_open_space_cased_reads_as_distributed_cased,
    lemma_engine_space_eq_space_cased_reads_as_engine, lemma_memory_cased_reads_as_memory,
};

verus! {

/// Whether the engine is one that the printers write so that the grammar
/// reads it again: `Memory`, or `Distributed` with three self-delimiting
/// expressions and, as the grammar gives it, without sharding key and
/// policy name.
pub open spec fn plain_engine(e: EngineView) -> bool {
    match e {
        EngineView::Memory => true,
        EngineView::Distributed(d) => {
            &&& self_delimiting(d.cluster_name)
            &&& self_delimiting(d.schema)
            &&& self_delimiting(d.table)
            &&& d.sharding_key is None
            &&& d.policy_name is None
        },
        _ => false,
    }
}

/// The engine clause is read where `ENGINE = ` stands, if the engine is
/// read behind it.
pub proof fn lemma_engine_spec_read(s: Seq<u8>, pos: int)
    requires
        has_tag(s, pos, lit("ENGINE = ")),
        pos + 9 < s.len(),
        !is_space(s[pos + 9]),
    ensures
        spec_engine_spec(s, pos) == spec_engine(s, pos + 9),
{
    lemma_bytes_engine_space_eq_space_cased();
    lemma_engine_space_eq_space_cased_reads_as_engine(s, pos);
    lemma_tag_byte(s, pos, lit("ENGINE = "), 6);
    lemma_tag_byte(s, pos, lit("ENGINE = "), 7);
    lemma_tag_byte(s, pos, lit("ENGINE = "), 8);
    lemma_run_end_is(s, pos + 6, pos + 7, ByteClass::Space);
    lemma_run_end_is(s, pos + 8, pos + 9, ByteClass::Space);
    assert(word_end(s, pos, lit("engine")) == Some(pos + 6));
    assert(ws_end(s, pos + 6) == pos + 7);
    assert(byte_at(s, pos + 7, '=' as u8));
    assert(ws_end(s, pos + 8) == pos + 9);
}

/// The texts of a plain `Distributed` engine are not empty, do not begin
/// with white space, and are valid UTF-8.
pub proof fn lemma_distributed_texts(d: EngineDistributedView)
    requires
        plain_engine(EngineView::Distributed(d)),
    ensures
        valid_utf8(d.cluster_name) && d.cluster_name.len() > 0 && !is_space(d.cluster_name[0]),
        valid_utf8(d.schema) && d.schema.len() > 0 && !is_space(d.schema[0]),
        valid_utf8(d.table) && d.table.len() > 0 && !is_space(d.table[0]),
{
    crate::reading_column::lemma_self_delimiting_text(d.cluster_name);
    crate::reading_column::lemma_self_delimiting_text(d.schema);
    crate::reading_column::lemma_self_delimiting_text(d.table);
}

/// The engine `Memory` is read where it is written.
pub proof fn lemma_memory_read(s: Seq<u8>, pos: int)
    requires
        has_tag(s, pos, lit("Memory")),
    ensures
        spec_engine(s, pos) == Ok::<(EngineView, int), ParseError>((EngineView::Memory, pos + 6)),
{
    reveal(spec_engine);
    lemma_bytes_memory_cased();
    lemma_bytes_distributed_cased();
    lemma_memory_cased_reads_as_memory(s, pos);
    lemma_tag_not_word(s, pos, lit("Memory"), lit("Distributed"), 0);
    assert(gives_up(spec_engine_distributed(s, pos)));
}

/// The places of the parameters of a `Distributed` engine in its text.
pub proof fn lemma_distributed_parts(s: Seq<u8>, pos: int, d: EngineDistributedView)
    requires
        d.schema.len() > 0,
        d.sharding_key is None,
        has_tag(s, pos, print_distributed(d)),
    ensures
        has_tag(s, pos, lit("DISTRIBUTED( ")),
        has_tag(s, pos + 13, d.cluster_name),
        has_tag(s, pos + 13 + d.cluster_name.len(), lit(", ")),
        has_tag(s, pos + 15 + d.cluster_name.len(), d.schema),
        has_tag(s, pos + 15 + d.cluster_name.len() + d.schema.len(), lit(", ")),
        has_tag(s, pos + 17 + d.cluster_name.len() + d.schema.len(), d.table),
        has_tag(s, pos + 17 + d.cluster_name.len() + d.schema.len() + d.table.len(), lit(")")),
        print_distributed(d).len() == 18 + d.cluster_name.len() + d.schema.len() + d.table.len(),
{
    lemma_bytes_distributed_open_space_cased();
    lemma_bytes_comma_space();
    lemma_bytes_close();
    let a = lit("DISTRIBUTED( ");
    let c = lit(", ");
    assert(print_distributed_tail(d) =~= Seq::<u8>::empty());
    assert(print_distributed(d) =~= a + d.cluster_name + c + d.schema + c + d.table + lit(")"));
    lemma_tag_split(s, pos, a + d.cluster_name + c + d.schema + c + d.table, lit(")"));
    lemma_tag_split(s, pos, a + d.cluster_name + c + d.schema + c, d.table);
    lemma_tag_split(s, pos, a + d.cluster_name + c + d.schema, c);
    lemma_tag_split(s, pos, a + d.cluster_name + c, d.schema);
    lemma_tag_split(s, pos, a + d.cluster_name, c);
    lemma_tag_split(s, pos, a, d.cluster_name);
}

/// A comma and a space are read as a separator before a text that does not
/// begin with white space.
pub proof fn lemma_separator_read(s: Seq<u8>, pos: int, next: Seq<u8>)
    requires
        has_tag(s, pos, lit(", ")),
        has_tag(s, pos + 2, next),
        next.len() > 0,
        !is_space(next[0]),
    ensures
        sep_comma_end(s, pos) == Some(pos + 2),
{
    lemma_bytes_comma_space();
    lemma_tag_byte(s, pos, lit(", "), 0);
    lemma_tag_byte(s, pos, lit(", "), 1);
    lemma_tag_byte(s, pos + 2, next, 0);
    lemma_ws_stop(s, pos);
    lemma_run_end_is(s, pos + 1, pos + 2, ByteClass::Space);
}

/// The table of a `Distributed` engine and the closing bracket behind it
/// are read where they are written.
pub proof fn lemma_distributed_table_read(
    s: Seq<u8>,
    d: EngineDistributedView,
    cluster: int,
    schema: int,
    pos: int,
)
    requires
        plain_engine(EngineView::Distributed(d)),
        has_tag(s, cluster, d.cluster_name),
        has_tag(s, schema, d.schema),
        has_tag(s, pos, d.table),
        has_tag(s, pos + d.table.len(), lit(")")),
    ensures
        spec_distributed_table(
            s,
            (cluster, cluster + d.cluster_name.len()),
            (schema, schema + d.schema.len()),
            pos,
        ) == Ok::<(EngineView, int), ParseError>(
            (EngineView::Distributed(d), pos + d.table.len() + 1),
        ),
{
    lemma_distributed_texts(d);
    lemma_bytes_close();
    let end = pos + d.table.len();
    lemma_tag_byte(s, end, lit(")"), 0);
    lemma_parameter_read(s, pos, d.table);
    lemma_ws_stop(s, end);
    assert(spec_distributed_sharding(s, end) == Ok::<int, ParseError>(end));
    lemma_tag_is_subrange(s, cluster, d.cluster_name);
    lemma_tag_is_subrange(s, schema, d.schema);
    lemma_tag_is_subrange(s, pos, d.table);
}

/// What the rules for the parts of a `Distributed` engine read is what the
/// rule for the engine reads.
pub proof fn lemma_distributed_assemble(
    s: Seq<u8>,
    pos: int,
    w: int,
    cluster: int,
    cluster_end: int,
    schema: int,
    schema_end: int,
    table: int,
)
    requires
        word_end(s, pos, lit("Distributed")) == Some(w),
        byte_at(s, ws_end(s, w), '(' as u8),
        ws_end(s, ws_end(s, w) + 1) == cluster,
        crate::expr::spec_expression(s, cluster) == Ok::<int, ParseError>(cluster_end),
        sep_comma_end(s, cluster_end) == Some(schema),
        crate::expr::spec_expression(s, schema) == Ok::<int, ParseError>(schema_end),
        sep_comma_end(s, schema_end) == Some(table),
    ensures
        spec_engine_distributed(s, pos) == spec_distributed_table(
            s,
            (cluster, cluster_end),
            (schema, schema_end),
            table,
        ),
{
}

/// The opening of a `Distributed` engine is read where it is written.
pub proof fn lemma_distributed_open(s: Seq<u8>, pos: int, cluster: Seq<u8>)
    requires
        has_tag(s, pos, lit("DISTRIBUTED( ")),
        has_tag(s, pos + 13, cluster),
        cluster.len() > 0,
        !is_space(cluster[0]),
    ensures
        word_end(s, pos, lit("Distributed")) == Some(pos + 11),
        byte_at(s, ws_end(s, pos + 11), '(' as u8),
        ws_end(s, ws_end(s, pos + 11) + 1) == pos + 13,
{
    lemma_bytes_distributed_open_space_cased();
    lemma_distributed_open_space_cased_reads_as_distributed_cased(s, pos);
    lemma_tag_byte(s, pos, lit("DISTRIBUTED( "), 11);
    lemma_tag_byte(s, pos, lit("DISTRIBUTED( "), 12);
    lemma_ws_stop(s, pos + 11);
    lemma_tag_byte(s, pos + 13, cluster, 0);
    lemma_run_end_is(s, pos + 12, pos + 13, ByteClass::Space);
}

/// A self-delimiting expression is read where it is written before a comma
/// and a space, or before a closing bracket.
pub proof fn lemma_parameter_read(s: Seq<u8>, pos: int, e: Seq<u8>)
    requires
        self_delimiting(e),
        has_tag(s, pos, e),
        has_tag(s, pos + e.len(), lit(", ")) || has_tag(s, pos + e.len(), lit(")")),
    ensures
        crate::expr::spec_expression(s, pos) == Ok::<int, ParseError>(pos + e.len()),
{
    assert(behind_expression(s, pos + e.len()));
    crate::reading_column::lemma_self_delimiting_read(s, pos, e);
}

/// The engine `Distributed` is read where it is written.
#[verifier::rlimit(30)]
pub proof fn lemma_distributed_read(s: Seq<u8>, pos: int, d: EngineDistributedView)
    requires
        plain_engine(EngineView::Distributed(d)),
        has_tag(s, pos, print_distributed(d)),
    ensures
        spec_engine(s, pos) == Ok::<(EngineView, int), ParseError>(
            (EngineView::Distributed(d), pos + print_distributed(d).len()),
        ),
{
    lemma_distributed_texts(d);
    lemma_distributed_parts(s, pos, d);
    lemma_distributed_open(s, pos, d.cluster_name);
    let cluster = pos + 13;
    let cluster_end = cluster + d.cluster_name.len();
    lemma_parameter_read(s, cluster, d.cluster_name);
    lemma_separator_read(s, cluster_end, d.schema);
    let schema = cluster_end + 2;
    let schema_end = schema + d.schema.len();
    lemma_parameter_read(s, schema, d.schema);
    lemma_separator_read(s, schema_end, d.table);
    reveal(spec_engine);
    lemma_distributed_table_read(s, d, cluster, schema, schema_end + 2);
    lemma_distributed_assemble(
        s,
        pos,
        pos + 11,
        cluster,
        cluster_end,
        schema,
        schema_end,
        schema_end + 2,
    );
}

/// The first byte of the text of an engine is a letter.
pub proof fn lemma_engine_first_byte(s: Seq<u8>, pos: int, e: EngineView)
    requires
        plain_engine(e),
        has_tag(s, pos, print_engine(e)),
    ensures
        has_tag(s, pos, lit("ENGINE = ")),
        pos + 9 < s.len(),
        !is_space(s[pos + 9]),
{
    lemma_bytes_engine_space_eq_space_cased();
    match e {
        EngineView::Memory => {
            lemma_bytes_engine_space_eq_space_memory_cased();
            lemma_tag_part(s, pos, lit("ENGINE = Memory"), 0, lit("ENGINE = "));
            lemma_tag_byte(s, pos, lit("ENGINE = Memory"), 9);
        },
        EngineView::Distributed(d) => {
            lemma_distributed_texts(d);
            lemma_bytes_distributed_open_space_cased();
            lemma_tag_split(s, pos, lit("ENGINE = "), print_distributed(d));
            lemma_distributed_parts(s, pos + 9, d);
            lemma_tag_byte(s, pos + 9, lit("DISTRIBUTED( "), 0);
        },
        _ => {},
    }
}

/// An engine clause is read where it is written.
pub proof fn lemma_engine_read(s: Seq<u8>, pos: int, e: EngineView)
    requires
        plain_engine(e),
        has_tag(s, pos, print_engine(e)),
    ensures
        spec_engine_spec(s, pos) == Ok::<(EngineView, int), ParseError>(
            (e, pos + print_engine(e).len()),
        ),
{
    lemma_engine_first_byte(s, pos, e);
    lemma_engine_spec_read(s, pos);
    lemma_bytes_engine_space_eq_space_cased();
    match e {
        EngineView::Memory => {
            lemma_bytes_engine_space_eq_space_memory_cased();
            lemma_bytes_memory_cased();
            lemma_tag_part(s, pos, lit("ENGINE = Memory"), 9, lit("Memory"));
            lemma_memory_read(s, pos + 9);
        },
        EngineView::Distributed(d) => {
            lemma_tag_split(s, pos, lit("ENGINE = "), print_distributed(d));
            lemma_distributed_read(s, pos + 9, d);
        },
        _ => {},
    }
}

/// Whether the table reference is one that the printers write so that the
/// grammar of statements reads it again: its name and its schema, if it has
/// one, are plain names, and it has no alias.
pub open spec fn plain_table(t: TableView) -> bool {
    &&& plain_name(t.name)
    &&& (t.schema is Some ==> plain_name(t.schema->0))
    &&& t.alias is None
}

/// No identifier is read where an opening or a closing bracket stands.
pub proof fn lemma_no_identifier(s: Seq<u8>, pos: int)
    requires
        byte_at(s, pos, '(' as u8) || byte_at(s, pos, ')' as u8),
    ensures
        spec_sql_identifier(s, pos) == Err::<((int, int), int), ParseError>(
            syntax(ErrorKind::Identifier, pos),
        ),
{
    assert(crate::scan::run_end(s, pos, ByteClass::Identifier) == pos);
}

/// No alias is read where a space and an opening bracket stand.
pub proof fn lemma_no_alias(s: Seq<u8>, pos: int)
    requires
        has_tag(s, pos, lit(" (\n")),
    ensures
        spec_as_alias(s, pos) is Err,
        !byte_at(s, pos, '.' as u8),
        pos < s.len(),
        !ByteClass::Identifier.has(s[pos]),
{
    lemma_bytes_space_open_nl();
    lemma_bytes_as();
    lemma_tag_byte(s, pos, lit(" (\n"), 0);
    lemma_tag_byte(s, pos, lit(" (\n"), 1);
    lemma_run_end_is(s, pos, pos + 1, ByteClass::Space);
    lemma_not_word(s, pos + 1, lit("as"), 0);
    lemma_no_identifier(s, pos + 1);
}

/// The places of the schema and the name of a table in its text.
pub proof fn lemma_table_parts(s: Seq<u8>, pos: int, t: TableView)
    requires
        t.alias is None,
        has_tag(s, pos, print_table(t)),
    ensures
        match t.schema {
            Some(schema) => has_tag(s, pos, spec_escape(schema)) && byte_at(
                s,
                pos + spec_escape(schema).len(),
                '.' as u8,
            ) && has_tag(s, pos + spec_escape(schema).len() + 1, spec_escape(t.name))
                && print_table(t).len() == spec_escape(schema).len() + 1 + spec_escape(
                t.name,
            ).len(),
            None => has_tag(s, pos, spec_escape(t.name)) && print_table(t).len() == spec_escape(
                t.name,
            ).len(),
        },
{
    lemma_bytes_dot();
    let name = spec_escape(t.name);
    match t.schema {
        Some(schema) => {
            let sc = spec_escape(schema);
            assert(print_table(t) =~= sc + lit(".") + name);
            lemma_tag_split(s, pos, sc + lit("."), name);
            lemma_tag_split(s, pos, sc, lit("."));
            lemma_tag_byte(s, pos + sc.len(), lit("."), 0);
        },
        None => {
            assert(print_table(t) =~= name);
        },
    }
}

/// The schema and the name of a table are read where they are written
/// before a space and an opening bracket.
pub proof fn lemma_table_spans_read(s: Seq<u8>, pos: int, t: TableView)
    requires
        plain_table(t),
        has_tag(s, pos, print_table(t)),
        has_tag(s, pos + print_table(t).len(), lit(" (\n")),
    ensures
        spec_table_spans(s, pos) is Ok,
        spec_table_spans(s, pos)->Ok_0.1 == pos + print_table(t).len(),
        spec_table_spans(s, pos)->Ok_0.0.2 is None,
        spec_capture(s, spec_table_spans(s, pos)->Ok_0.0.1.0, spec_table_spans(s, pos)->Ok_0.0.1.1)
            == Ok::<Seq<u8>, ParseError>(t.name),
        spec_capture_opt(s, spec_table_spans(s, pos)->Ok_0.0.0) == Ok::<
            Option<Seq<u8>>,
            ParseError,
        >(t.schema),
{
    lemma_table_parts(s, pos, t);
    let end = pos + print_table(t).len();
    lemma_no_alias(s, end);
    match t.schema {
        Some(schema) => {
            let dot = pos + spec_escape(schema).len();
            lemma_escaped_read(s, pos, schema);
            lemma_escaped_read(s, dot + 1, t.name);
        },
        None => {
            lemma_escaped_read(s, pos, t.name);
        },
    }
}

/// A table reference is read where it is written before a space and an
/// opening bracket.
pub proof fn lemma_table_read(s: Seq<u8>, pos: int, t: TableView)
    requires
        plain_table(t),
        has_tag(s, pos, print_table(t)),
        has_tag(s, pos + print_table(t).len(), lit(" (\n")),
    ensures
        spec_schema_table_reference(s, pos) == Ok::<(TableView, int), ParseError>(
            (t, pos + print_table(t).len()),
        ),
{
    reveal(spec_schema_table_reference);
    lemma_table_spans_read(s, pos, t);
}

/// The columns as the grammar reads them from their text alone.
pub open spec fn all_without_table(
    fields: Seq<ColumnSpecificationView>,
) -> Seq<ColumnSpecificationView> {
    Seq::new(fields.len(), |i: int| without_table(fields[i]))
}

/// Whether all columns are plain.
pub open spec fn plain_columns(fields: Seq<ColumnSpecificationView>) -> bool {
    forall|i: int| 0 <= i < fields.len() ==> plain_column(#[trigger] fields[i])
}

/// The text of the first `k` columns stands where the text of all stands,
/// and behind it the separator and the next column.
pub proof fn lemma_fields_prefix(
    s: Seq<u8>,
    pos: int,
    fields: Seq<ColumnSpecificationView>,
    k: int,
)
    requires
        1 <= k <= fields.len(),
        has_tag(s, pos, print_fields(fields, fields.len() as int)),
    ensures
        has_tag(s, pos, print_fields(fields, k)),
        k < fields.len() ==> has_tag(s, pos + print_fields(fields, k).len(), lit(",\n  "))
            && has_tag(
            s,
            pos + print_fields(fields, k).len() + 4,
            print_column_specification(fields[k]),
        ) && print_fields(fields, k + 1).len() == print_fields(fields, k).len() + 4
            + print_column_specification(fields[k]).len(),
    decreases fields.len() - k,
{
    lemma_bytes_comma_nl_space_space();
    if k < fields.len() {
        lemma_fields_prefix(s, pos, fields, k + 1);
        lemma_tag_split(
            s,
            pos,
            print_fields(fields, k) + lit(",\n  "),
            print_column_specification(fields[k]),
        );
        lemma_tag_split(s, pos, print_fields(fields, k), lit(",\n  "));
    }
}

/// The text of a column begins with a backtick.
pub proof fn lemma_column_first_byte(s: Seq<u8>, pos: int, c: ColumnSpecificationView)
    requires
        has_tag(s, pos, print_column_specification(c)),
    ensures
        byte_at(s, pos, '`' as u8),
{
    lemma_bytes_tick();
    crate::reading_column::lemma_column_parts(s, pos, c);
    lemma_tag_split(s, pos, lit("`") + c.column.name, lit("`"));
    lemma_tag_split(s, pos, lit("`"), c.column.name);
    lemma_tag_byte(s, pos, lit("`"), 0);
}

/// Behind the first `k` columns of a statement stands what the printers
/// put behind a column.
pub proof fn lemma_behind_field(
    s: Seq<u8>,
    pos: int,
    fields: Seq<ColumnSpecificationView>,
    k: int,
)
    requires
        1 <= k <= fields.len(),
        has_tag(s, pos, print_fields(fields, fields.len() as int)),
        has_tag(s, pos + print_fields(fields, fields.len() as int).len(), lit("\n) ENGINE = ")),
    ensures
        behind_column(s, pos + print_fields(fields, k).len()),
        k < fields.len() ==> byte_at(s, pos + print_fields(fields, k).len(), ',' as u8)
            && sep_comma_end(s, pos + print_fields(fields, k).len()) == Some(
            pos + print_fields(fields, k).len() + 4,
        ),
{
    if k < fields.len() {
        lemma_fields_prefix(s, pos, fields, k);
        let q = pos + print_fields(fields, k).len();
        lemma_column_first_byte(s, q + 4, fields[k]);
        lemma_bytes_comma_nl_space_space();
        lemma_bytes_comma_nl_space_space_tick();
        lemma_bytes_tick();
        lemma_tag_byte(s, q, lit(",\n  "), 0);
        lemma_tag_byte(s, q, lit(",\n  "), 1);
        lemma_tag_byte(s, q, lit(",\n  "), 2);
        lemma_tag_byte(s, q, lit(",\n  "), 3);
        assert(has_tag(s, q, lit(",\n  `"))) by {
            reveal(has_tag);
        }
        lemma_ws_stop(s, q);
        lemma_run_end_is(s, q + 1, q + 4, ByteClass::Space);
    }
}

/// Behind a separator and a column that is read, the list of columns goes
/// on with one column more.
pub proof fn lemma_fields_step(
    s: Seq<u8>,
    e: int,
    acc: Seq<ColumnSpecificationView>,
    at: int,
    c: ColumnSpecificationView,
    next: int,
)
    requires
        sep_comma_end(s, e) == Some(at),
        spec_field_specification(s, at) == Ok::<(ColumnSpecificationView, int), ParseError>(
            (c, next),
        ),
        e < next <= s.len(),
    ensures
        spec_field_list_tail(s, e, acc) == spec_field_list_tail(s, next, acc.push(c)),
{
}

/// Where no separator stands, the list of columns is over.
pub proof fn lemma_fields_stop(s: Seq<u8>, e: int, acc: Seq<ColumnSpecificationView>)
    requires
        sep_comma_end(s, e) is None,
    ensures
        spec_field_list_tail(s, e, acc) == Ok::<(Seq<ColumnSpecificationView>, int), ParseError>(
            (acc, e),
        ),
{
}

/// Behind the last column of a statement no separator stands.
pub proof fn lemma_fields_end(s: Seq<u8>, q: int, e: int)
    requires
        has_tag(s, q, lit("\n) ENGINE = ")),
        q <= e <= ws_end(s, q),
    ensures
        sep_comma_end(s, e) is None,
        ws_end(s, q) == q + 1,
        byte_at(s, q + 1, ')' as u8),
{
    lemma_tag_bounds(s, q, lit("\n) ENGINE = "));
    lemma_ws_inside(s, q, e);
    lemma_bytes_nl_close_space_engine_space_eq_space_cased();
    lemma_tag_byte(s, q, lit("\n) ENGINE = "), 0);
    lemma_tag_byte(s, q, lit("\n) ENGINE = "), 1);
    lemma_run_end_is(s, q, q + 1, ByteClass::Space);
}

/// The column behind the first `k` columns of a statement is read where it
/// is written.
pub proof fn lemma_next_field_read(
    s: Seq<u8>,
    pos: int,
    fields: Seq<ColumnSpecificationView>,
    k: int,
    e: int,
)
    requires
        plain_column(fields[k]),
        1 <= k < fields.len(),
        has_tag(s, pos, print_fields(fields, fields.len() as int)),
        has_tag(s, pos + print_fields(fields, fields.len() as int).len(), lit("\n) ENGINE = ")),
        pos + print_fields(fields, k).len() <= e <= ws_end(s, pos + print_fields(fields, k).len()),
    ensures
        e == pos + print_fields(fields, k).len(),
        sep_comma_end(s, e) == Some(e + 4),
        spec_field_specification(s, e + 4) is Ok,
        spec_field_specification(s, e + 4)->Ok_0.0 == without_table(fields[k]),
        pos + print_fields(fields, k + 1).len() <= spec_field_specification(s, e + 4)->Ok_0.1
            <= ws_end(s, pos + print_fields(fields, k + 1).len()),
        ws_end(s, pos + print_fields(fields, k + 1).len()) <= s.len(),
{
    let q = pos + print_fields(fields, k).len();
    lemma_fields_prefix(s, pos, fields, k);
    lemma_tag_bounds(s, pos, print_fields(fields, k));
    lemma_behind_field(s, pos, fields, k);
    lemma_ws_stop(s, q);
    lemma_behind_field(s, pos, fields, k + 1);
    lemma_field_read(s, q + 4, fields[k]);
    lemma_tag_bounds(s, q + 4, print_column_specification(fields[k]));
    lemma_run_end_bounds(s, q + 4 + print_column_specification(fields[k]).len(), ByteClass::Space);
}

/// The columns of a statement from the `k`-th on are read where they are
/// written.
pub proof fn lemma_fields_tail_read(
    s: Seq<u8>,
    pos: int,
    fields: Seq<ColumnSpecificationView>,
    k: int,
    e: int,
)
    requires
        plain_columns(fields),
        1 <= k <= fields.len(),
        has_tag(s, pos, print_fields(fields, fields.len() as int)),
        has_tag(s, pos + print_fields(fields, fields.len() as int).len(), lit("\n) ENGINE = ")),
        pos + print_fields(fields, k).len() <= e <= ws_end(s, pos + print_fields(fields, k).len()),
    ensures
        spec_field_list_tail(s, e, all_without_table(fields).take(k)) is Ok,
        spec_field_list_tail(s, e, all_without_table(fields).take(k))->Ok_0.0 == all_without_table(
            fields,
        ),
        pos + print_fields(fields, fields.len() as int).len() <= spec_field_list_tail(
            s,
            e,
            all_without_table(fields).take(k),
        )->Ok_0.1 <= ws_end(s, pos + print_fields(fields, fields.len() as int).len()),
    decreases fields.len() - k,
{
    let n = fields.len() as int;
    let parsed = all_without_table(fields);
    let acc = parsed.take(k);
    if k == n {
        assert(acc =~= parsed);
        lemma_fields_end(s, pos + print_fields(fields, n).len(), e);
        lemma_fields_stop(s, e, acc);
    } else {
        assert(plain_column(fields[k]));
        lemma_next_field_read(s, pos, fields, k, e);
        let c = without_table(fields[k]);
        let next = spec_field_specification(s, e + 4)->Ok_0.1;
        assert(acc.push(c) =~= parsed.take(k + 1));
        lemma_fields_step(s, e, acc, e + 4, c, next);
        lemma_fields_tail_read(s, pos, fields, k + 1, next);
    }
}

/// No column is read where a closing bracket stands.
pub proof fn lemma_no_field(s: Seq<u8>, pos: int)
    requires
        byte_at(s, pos, ')' as u8),
    ensures
        spec_field_specification_list(s, pos) == Ok::<
            (Seq<ColumnSpecificationView>, int),
            ParseError,
        >((seq![], pos)),
{
    reveal(spec_field_specification);
    lemma_no_identifier(s, pos);
}

/// The columns of a statement are read where they are written before the
/// closing bracket and the engine.
pub proof fn lemma_fields_read(s: Seq<u8>, pos: int, fields: Seq<ColumnSpecificationView>)
    requires
        plain_columns(fields),
        fields.len() > 0,
        has_tag(s, pos, print_fields(fields, fields.len() as int)),
        has_tag(s, pos + print_fields(fields, fields.len() as int).len(), lit("\n) ENGINE = ")),
    ensures
        spec_field_specification_list(s, pos) is Ok,
        spec_field_specification_list(s, pos)->Ok_0.0 == all_without_table(fields),
        pos + print_fields(fields, fields.len() as int).len() <= spec_field_specification_list(
            s,
            pos,
        )->Ok_0.1 <= ws_end(s, pos + print_fields(fields, fields.len() as int).len()),
{
    lemma_fields_prefix(s, pos, fields, 1);
    lemma_behind_field(s, pos, fields, 1);
    lemma_field_read(s, pos, fields[0]);
    let next = spec_field_specification(s, pos)->Ok_0.1;
    assert(all_without_table(fields).take(1) =~= seq![without_table(fields[0])]);
    lemma_fields_tail_read(s, pos, fields, 1, next);
}

/// Whether the statement is one that the printers write so that the
/// grammar reads it again. The grammar gives statements whose table has no
/// alias, whose columns belong to the table, and whose parts are valid. Of
/// these, those are read again whose engine is `Memory` or `Distributed`,
/// whose names hold no backtick, and whose expressions are self-delimiting.
pub open spec fn plain_statement(c: CreateTableStatementView) -> bool {
    &&& plain_table(c.table)
    &&& plain_columns(c.fields)
    &&& forall|i: int|
        0 <= i < c.fields.len() ==> (#[trigger] c.fields[i]).column.table == Some(c.table.name)
    &&& plain_engine(c.engine)
}

/// The places of the parts of a statement in its text.
pub proof fn lemma_statement_places(s: Seq<u8>, pos: int, c: CreateTableStatementView)
    requires
        has_tag(s, pos, print_statement(c)),
    ensures
        has_tag(s, pos, lit("CREATE TABLE ")),
        has_tag(s, pos + 13, print_table(c.table)),
        has_tag(s, pos + 13 + print_table(c.table).len(), lit(" (\n")),
        has_tag(s, pos + 16 + print_table(c.table).len(), lit("  ")),
        has_tag(
            s,
            pos + 18 + print_table(c.table).len(),
            print_fields(c.fields, c.fields.len() as int),
        ),
        has_tag(
            s,
            pos + 18 + print_table(c.table).len() + print_fields(
                c.fields,
                c.fields.len() as int,
            ).len(),
            lit("\n) "),
        ),
        has_tag(
            s,
            pos + 21 + print_table(c.table).len() + print_fields(
                c.fields,
                c.fields.len() as int,
            ).len(),
            print_engine(c.engine),
        ),
        has_tag(
            s,
            pos + 21 + print_table(c.table).len() + print_fields(
                c.fields,
                c.fields.len() as int,
            ).len() + print_engine(c.engine).len(),
            lit(";"),
        ),
        print_statement(c).len() == 22 + print_table(c.table).len() + print_fields(
            c.fields,
            c.fields.len() as int,
        ).len() + print_engine(c.engine).len(),
{
    lemma_bytes_create_space_table_space_cased();
    lemma_bytes_space_open_nl();
    lemma_bytes_space_space();
    lemma_bytes_nl_close_space();
    lemma_bytes_semi();
    let a = lit("CREATE TABLE ");
    let t = print_table(c.table);
    let o = lit(" (\n");
    let i = lit("  ");
    let f = print_fields(c.fields, c.fields.len() as int);
    let z = lit("\n) ");
    let e = print_engine(c.engine);
    lemma_tag_split(s, pos, a + t + o + i + f + z + e, lit(";"));
    lemma_tag_split(s, pos, a + t + o + i + f + z, e);
    lemma_tag_split(s, pos, a + t + o + i + f, z);
    lemma_tag_split(s, pos, a + t + o + i, f);
    lemma_tag_split(s, pos, a + t + o, i);
    lemma_tag_split(s, pos, a + t, o);
    lemma_tag_split(s, pos, a, t);
}

/// Behind the columns of a statement stand the closing bracket and the
/// engine clause.
pub proof fn lemma_statement_close(s: Seq<u8>, q: int, e: EngineView)
    requires
        plain_engine(e),
        has_tag(s, q, lit("\n) ")),
        has_tag(s, q + 3, print_engine(e)),
    ensures
        has_tag(s, q, lit("\n) ENGINE = ")),
        byte_at(s, q + 1, ')' as u8),
        ws_end(s, q) == q + 1,
        ws_end(s, q + 2) == q + 3,
{
    lemma_bytes_nl_close_space();
    lemma_bytes_engine_space_eq_space_cased();
    lemma_bytes_nl_close_space_engine_space_eq_space_cased();
    lemma_engine_first_byte(s, q + 3, e);
    lemma_tag_split(s, q, lit("\n) "), lit("ENGINE = "));
    assert(lit("\n) ") + lit("ENGINE = ") =~= lit("\n) ENGINE = "));
    lemma_tag_byte(s, q, lit("\n) "), 0);
    lemma_tag_byte(s, q, lit("\n) "), 1);
    lemma_tag_byte(s, q, lit("\n) "), 2);
    lemma_tag_byte(s, q + 3, lit("ENGINE = "), 0);
    lemma_run_end_is(s, q, q + 1, ByteClass::Space);
    lemma_run_end_is(s, q + 2, q + 3, ByteClass::Space);
}

/// The opening bracket of the columns is read where it is written, and
/// the white space behind it ends where the indent ends.
pub proof fn lemma_fields_open(s: Seq<u8>, open: int)
    requires
        has_tag(s, open, lit(" (\n")),
        has_tag(s, open + 3, lit("  ")),
    ensures
        byte_at(s, ws_end(s, open), '(' as u8),
        ws_end(s, open) == open + 1,
        forall|j: int| open + 2 <= j < open + 5 ==> is_space(#[trigger] s[j]),
        open + 5 <= s.len(),
{
    lemma_bytes_space_open_nl();
    lemma_bytes_space_space();
    lemma_tag_byte(s, open, lit(" (\n"), 0);
    lemma_tag_byte(s, open, lit(" (\n"), 1);
    lemma_tag_byte(s, open, lit(" (\n"), 2);
    lemma_tag_byte(s, open + 3, lit("  "), 0);
    lemma_tag_byte(s, open + 3, lit("  "), 1);
    lemma_run_end_is(s, open, open + 1, ByteClass::Space);
}

/// The columns of a statement are read where they are written between the
/// brackets, be there none.
pub proof fn lemma_fields_in_brackets_read(
    s: Seq<u8>,
    open: int,
    fields: Seq<ColumnSpecificationView>,
)
    requires
        plain_columns(fields),
        has_tag(s, open, lit(" (\n")),
        has_tag(s, open + 3, lit("  ")),
        has_tag(s, open + 5, print_fields(fields, fields.len() as int)),
        has_tag(s, open + 5 + print_fields(fields, fields.len() as int).len(), lit("\n) ENGINE = ")),
    ensures
        byte_at(s, ws_end(s, open), '(' as u8),
        ws_end(s, open) == open + 1,
        spec_field_specification_list(s, ws_end(s, open + 2)) is Ok,
        spec_field_specification_list(s, ws_end(s, open + 2))->Ok_0.0 == all_without_table(fields),
        ws_end(s, spec_field_specification_list(s, ws_end(s, open + 2))->Ok_0.1) == open + 6
            + print_fields(fields, fields.len() as int).len(),
{
    lemma_fields_open(s, open);
    lemma_tag_bounds(s, open, lit(" (\n"));
    let f = open + 5;
    let q = f + print_fields(fields, fields.len() as int).len();
    lemma_tag_bounds(s, q, lit("\n) ENGINE = "));
    lemma_run_end_bounds(s, q, ByteClass::Space);
    lemma_fields_end(s, q, q);
    if fields.len() == 0 {
        lemma_no_fields_read(s, open, q);
        assert(all_without_table(fields) =~= seq![]);
    } else {
        lemma_column_first_byte_of_fields(s, f, fields);
        lemma_run_end_is(s, open + 2, f, ByteClass::Space);
        lemma_fields_read(s, f, fields);
        lemma_ws_inside(s, q, spec_field_specification_list(s, f)->Ok_0.1);
    }
}

/// Where no column stands between the brackets, none is read.
pub proof fn lemma_no_fields_read(s: Seq<u8>, open: int, q: int)
    requires
        0 <= open,
        q == open + 5,
        q < s.len(),
        forall|j: int| open + 2 <= j < open + 5 ==> is_space(#[trigger] s[j]),
        is_space(s[q]),
        byte_at(s, q + 1, ')' as u8),
    ensures
        spec_field_specification_list(s, ws_end(s, open + 2)) == Ok::<
            (Seq<ColumnSpecificationView>, int),
            ParseError,
        >((seq![], q + 1)),
        ws_end(s, q + 1) == q + 1,
{
    lemma_run_end_is(s, open + 2, q + 1, ByteClass::Space);
    lemma_no_field(s, q + 1);
    lemma_ws_stop(s, q + 1);
}

/// The text of the columns of a statement begins with a backtick.
pub proof fn lemma_column_first_byte_of_fields(
    s: Seq<u8>,
    pos: int,
    fields: Seq<ColumnSpecificationView>,
)
    requires
        fields.len() > 0,
        has_tag(s, pos, print_fields(fields, fields.len() as int)),
    ensures
        byte_at(s, pos, '`' as u8),
{
    lemma_fields_prefix(s, pos, fields, 1);
    lemma_column_first_byte(s, pos, fields[0]);
}

/// The terminator is read where a semicolon ends the input.
pub proof fn lemma_terminator_read(s: Seq<u8>, pos: int)
    requires
        has_tag(s, pos, lit(";")),
        pos + 1 == s.len(),
    ensures
        spec_statement_terminator(s, pos) == Ok::<int, ParseError>(pos + 1),
{
    lemma_bytes_semi();
    lemma_tag_byte(s, pos, lit(";"), 0);
    lemma_ws_stop(s, pos);
    lemma_ws_stop(s, pos + 1);
}

/// The columns and the engine of a statement are read where they are
/// written.
pub proof fn lemma_body_read(
    s: Seq<u8>,
    open: int,
    fields: Seq<ColumnSpecificationView>,
    e: EngineView,
)
    requires
        plain_columns(fields),
        plain_engine(e),
        has_tag(s, open, lit(" (\n")),
        has_tag(s, open + 3, lit("  ")),
        has_tag(s, open + 5, print_fields(fields, fields.len() as int)),
        has_tag(s, open + 5 + print_fields(fields, fields.len() as int).len(), lit("\n) ")),
        has_tag(s, open + 8 + print_fields(fields, fields.len() as int).len(), print_engine(e)),
        has_tag(
            s,
            open + 8 + print_fields(fields, fields.len() as int).len() + print_engine(e).len(),
            lit(";"),
        ),
        open + 9 + print_fields(fields, fields.len() as int).len() + print_engine(e).len()
            == s.len(),
    ensures
        spec_statement_body(s, open) == Ok::<
            ((Seq<ColumnSpecificationView>, EngineView), int),
            ParseError,
        >(((all_without_table(fields), e), s.len() as int)),
{
    let q = open + 5 + print_fields(fields, fields.len() as int).len();
    lemma_statement_close(s, q, e);
    lemma_fields_in_brackets_read(s, open, fields);
    lemma_engine_read(s, q + 3, e);
    lemma_terminator_read(s, q + 3 + print_engine(e).len());
}

/// The first words of a statement are read where they are written.
pub proof fn lemma_create_table_read(s: Seq<u8>, pos: int, t: TableView)
    requires
        plain_table(t),
        has_tag(s, pos, lit("CREATE TABLE ")),
        has_tag(s, pos + 13, print_table(t)),
    ensures
        word_end(s, pos, lit("create")) == Some(pos + 6),
        ws_end(s, pos + 6) == pos + 7,
        word_end(s, pos + 7, lit("table")) == Some(pos + 12),
        ws_end(s, pos + 12) == pos + 13,
        lit("create").len() == 6,
        lit("table").len() == 5,
{
    lemma_bytes_create_space_table_space_cased();
    lemma_bytes_table();
    lemma_create_space_table_space_cased_reads_as_create(s, pos);
    reveal_strlit("TABLE");
    lemma_lit("TABLE");
    lemma_tag_part(s, pos, lit("CREATE TABLE "), 7, lit("TABLE"));
    lemma_word(s, pos + 7, lit("TABLE"), lit("table"));
    lemma_tag_byte(s, pos, lit("CREATE TABLE "), 6);
    lemma_tag_byte(s, pos, lit("CREATE TABLE "), 7);
    lemma_tag_byte(s, pos, lit("CREATE TABLE "), 12);
    lemma_run_end_is(s, pos + 6, pos + 7, ByteClass::Space);
    crate::reading_statement::lemma_table_first_byte(s, pos + 13, t);
    lemma_run_end_is(s, pos + 12, pos + 13, ByteClass::Space);
}

/// The text of a table reference does not begin with white space.
pub proof fn lemma_table_first_byte(s: Seq<u8>, pos: int, t: TableView)
    requires
        plain_table(t),
        has_tag(s, pos, print_table(t)),
    ensures
        pos < s.len(),
        !is_space(s[pos]),
{
    lemma_table_parts(s, pos, t);
    match t.schema {
        Some(schema) => {
            lemma_escape_first_byte(schema);
            lemma_tag_byte(s, pos, spec_escape(schema), 0);
        },
        None => {
            lemma_escape_first_byte(t.name);
            lemma_tag_byte(s, pos, spec_escape(t.name), 0);
        },
    }
}

/// With the table of the statement, the columns are what they were.
pub proof fn lemma_with_table(fields: Seq<ColumnSpecificationView>, name: Seq<u8>)
    requires
        forall|i: int|
            0 <= i < fields.len() ==> (#[trigger] fields[i]).column.table == Some(name),
    ensures
        all_with_table(all_without_table(fields), name) == fields,
{
    assert(all_with_table(all_without_table(fields), name) =~= fields);
}

/// A statement is read where its canonical text stands at the end of the
/// input.
pub proof fn lemma_statement_read(s: Seq<u8>, pos: int, c: CreateTableStatementView)
    requires
        plain_statement(c),
        has_tag(s, pos, print_statement(c)),
        pos + print_statement(c).len() == s.len(),
    ensures
        spec_creation(s, pos) == Ok::<(CreateTableStatementView, int), ParseError>(
            (c, s.len() as int),
        ),
{
    lemma_statement_places(s, pos, c);
    lemma_create_table_read(s, pos, c.table);
    lemma_table_read(s, pos + 13, c.table);
    let open = pos + 13 + print_table(c.table).len();
    lemma_body_read(s, open, c.fields, c.engine);
    lemma_with_table(c.fields, c.table.name);
    assert(spec_statement_parts(s, pos) == Ok::<
        ((TableView, Seq<ColumnSpecificationView>, EngineView), int),
        ParseError,
    >(((c.table, all_without_table(c.fields), c.engine), s.len() as int)));
}

} // verus!
