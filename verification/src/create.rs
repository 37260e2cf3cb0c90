//! The `CREATE TABLE` statement: the data, its canonical text, and the
//! grammar.

use vstd::prelude::*;
use vstd::slice::slice_subrange;
use vstd::utf8::encode_utf8;
use crate::column::{
    columns_view, field_specification_list_at, print_column_specification,
    push_column_specification, spec_field_specification_list, Column, ColumnSpecification,
    ColumnSpecificationView, ColumnView,
};
use crate::engine::{
    engine_spec_at, print_engine, push_engine, spec_engine_spec, Engine, EngineView,
};
use crate::error::{agrees, agrees_end, failure, syntax, ErrorKind, ParseError, Violation};
use crate::scan::{
    byte_at, is_byte_at, line_ending, line_ending_len, lit, skip_ws, space1, tag_no_case, word_end,
    ws_end,
};
use crate::table::{
    print_table, push_table, schema_table_reference_at, spec_schema_table_reference, Table,
    TableView,
};
use crate::text::{lemma_appended, push_str};

verus! {

/// A `CREATE TABLE` statement.
#[derive(Clone, Debug, Eq, PartialEq, Hash)]
pub struct CreateTableStatement {
    pub table: Table,
    pub fields: Vec<ColumnSpecification>,
    pub engine: Engine,
}

/// The model of a [`CreateTableStatement`].
pub struct CreateTableStatementView {
    pub table: TableView,
    pub fields: Seq<ColumnSpecificationView>,
    pub engine: EngineView,
}

impl View for CreateTableStatement {
    type V = CreateTableStatementView;

    open spec fn view(&self) -> CreateTableStatementView {
        CreateTableStatementView {
            table: self.table@,
            fields: columns_view(self.fields@),
            engine: self.engine@,
        }
    }
}

/// The canonical text of the first `n` columns of a statement, with a
/// comma, a line break and two spaces between them.
pub open spec fn print_fields(fields: Seq<ColumnSpecificationView>, n: int) -> Seq<u8>
    decreases n,
{
    if n <= 0 {
        seq![]
    } else if n == 1 {
        print_column_specification(fields[0])
    } else {
        print_fields(fields, n - 1) + lit(",\n  ") + print_column_specification(fields[n - 1])
    }
}

/// The canonical text of a statement:
/// `CREATE TABLE table (`, the columns each on a line of its own, `) ENGINE = engine;`.
pub open spec fn print_statement(c: CreateTableStatementView) -> Seq<u8> {
    lit("CREATE TABLE ") + print_table(c.table) + lit(" (\n") + lit("  ") + print_fields(
        c.fields,
        c.fields.len() as int,
    ) + lit("\n) ") + print_engine(c.engine) + lit(";")
}

/// Appends the canonical text of the columns of a statement.
pub fn push_fields(out: &mut String, fields: &Vec<ColumnSpecification>)
    ensures
        encode_utf8(final(out)@) == encode_utf8(old(out)@) + print_fields(
            columns_view(fields@),
            fields.len() as int,
        ),
{
    let ghost base = encode_utf8(out@);
    let ghost views = columns_view(fields@);
    let mut i: usize = 0;
    assert(encode_utf8(out@) =~= base + print_fields(views, 0));
    while i < fields.len()
        invariant
            i <= fields.len(),
            views == columns_view(fields@),
            encode_utf8(out@) == base + print_fields(views, i as int),
        decreases fields.len() - i,
    {
        let ghost acc = print_fields(views, i as int);
        if i > 0 {
            push_str(out, ",\n  ");
            proof {
                lemma_appended(base, acc, lit(",\n  "));
            }
            push_column_specification(out, &fields[i]);
            proof {
                lemma_appended(
                    base,
                    acc + lit(",\n  "),
                    print_column_specification(views[i as int]),
                );
            }
        } else {
            push_column_specification(out, &fields[i]);
        }
        i = i + 1;
    }
}

/// Appends the canonical text of a statement.
pub fn push_statement(out: &mut String, c: &CreateTableStatement)
    ensures
        encode_utf8(final(out)@) == encode_utf8(old(out)@) + print_statement(c@),
{
    let ghost base = encode_utf8(out@);
    push_str(out, "CREATE TABLE ");
    let ghost a1 = lit("CREATE TABLE ");
    push_table(out, &c.table);
    let ghost a2 = a1 + print_table(c@.table);
    proof {
        lemma_appended(base, a1, print_table(c@.table));
    }
    push_str(out, " (\n");
    let ghost a3 = a2 + lit(" (\n");
    proof {
        lemma_appended(base, a2, lit(" (\n"));
    }
    push_str(out, "  ");
    let ghost a4 = a3 + lit("  ");
    proof {
        lemma_appended(base, a3, lit("  "));
    }
    push_fields(out, &c.fields);
    let ghost a5 = a4 + print_fields(c@.fields, c@.fields.len() as int);
    proof {
        lemma_appended(base, a4, print_fields(c@.fields, c@.fields.len() as int));
    }
    push_str(out, "\n) ");
    let ghost a6 = a5 + lit("\n) ");
    proof {
        lemma_appended(base, a5, lit("\n) "));
    }
    push_engine(out, &c.engine);
    let ghost a7 = a6 + print_engine(c@.engine);
    proof {
        lemma_appended(base, a6, print_engine(c@.engine));
    }
    push_str(out, ";");
    proof {
        lemma_appended(base, a7, lit(";"));
    }
}

impl CreateTableStatement {
    /// The canonical text of the statement.
    pub fn to_string(&self) -> (r: String)
        ensures
            encode_utf8(r@) == print_statement(self@),
    {
        let mut out = String::new();
        push_statement(&mut out, self);
        assert(encode_utf8(Seq::<char>::empty()) + print_statement(self@) =~= print_statement(
            self@,
        ));
        out
    }
}

/// The end of the terminator of a statement at `pos`: white space, then
/// `;`, a line break or the end of the input, then white space.
pub open spec fn spec_statement_terminator(s: Seq<u8>, pos: int) -> Result<int, ParseError> {
    let at = ws_end(s, pos);
    if byte_at(s, at, ';' as u8) {
        Ok(ws_end(s, at + 1))
    } else if let Some(n) = line_ending_len(s, at) {
        Ok(ws_end(s, at + n))
    } else if at == s.len() {
        Ok(at)
    } else {
        Err(syntax(ErrorKind::Terminator, at))
    }
}

/// The end of the terminator of a statement at `pos`.
pub fn statement_terminator_at(buf: &[u8], pos: usize) -> (r: Result<usize, ParseError>)
    requires
        pos <= buf.len(),
    ensures
        agrees_end(r, spec_statement_terminator(buf@, pos as int)),
        r is Ok ==> pos <= r->Ok_0 <= buf.len(),
{
    let at = skip_ws(buf, pos);
    if is_byte_at(buf, at, 59) {
        Ok(skip_ws(buf, at + 1))
    } else if let Some(end) = line_ending(buf, at) {
        Ok(skip_ws(buf, end))
    } else if at == buf.len() {
        Ok(at)
    } else {
        Err(ParseError::Syntax { kind: ErrorKind::Terminator, position: at })
    }
}

/// Reads the terminator of a statement, and gives the rest of the input.
pub fn statement_terminator<'a>(i: &'a [u8]) -> (r: Result<(&'a [u8], ()), ParseError>)
    ensures
        match spec_statement_terminator(i@, 0) {
            Ok(end) => r is Ok && r->Ok_0.0@ == i@.skip(end),
            Err(e) => r is Err && r->Err_0 == e,
        },
{
    match statement_terminator_at(i, 0) {
        Ok(end) => Ok((slice_subrange(i, end, i.len()), ())),
        Err(e) => Err(e),
    }
}

/// The column `c` as a column of the table `name`.
pub open spec fn with_table(c: ColumnSpecificationView, name: Seq<u8>) -> ColumnSpecificationView {
    ColumnSpecificationView {
        column: ColumnView { name: c.column.name, alias: c.column.alias, table: Some(name) },
        sql_type: c.sql_type,
        codec: c.codec,
        ttl: c.ttl,
        nullable: c.nullable,
        option: c.option,
        comment: c.comment,
        lowcardinality: c.lowcardinality,
    }
}

/// The columns `fields` as columns of the table `name`.
pub open spec fn all_with_table(
    fields: Seq<ColumnSpecificationView>,
    name: Seq<u8>,
) -> Seq<ColumnSpecificationView> {
    Seq::new(fields.len(), |i: int| with_table(fields[i], name))
}

/// The parts of a statement at `pos`, as they are written: `CREATE TABLE`,
/// a table reference, the columns in brackets, and an engine clause, with
/// white space between them, and a terminator or none.
pub open spec fn spec_statement_parts(s: Seq<u8>, pos: int) -> Result<
    ((TableView, Seq<ColumnSpecificationView>, EngineView), int),
    ParseError,
> {
    match word_end(s, pos, lit("create")) {
        None => Err(syntax(ErrorKind::Tag, pos)),
        Some(w1) => if ws_end(s, w1) <= w1 {
            Err(syntax(ErrorKind::Space, w1))
        } else {
            match word_end(s, ws_end(s, w1), lit("table")) {
                None => Err(syntax(ErrorKind::Tag, ws_end(s, w1))),
                Some(w2) => if ws_end(s, w2) <= w2 {
                    Err(syntax(ErrorKind::Space, w2))
                } else {
                    match spec_schema_table_reference(s, ws_end(s, w2)) {
                        Err(e) => Err(e),
                        Ok((table, table_end)) => match spec_statement_body(s, table_end) {
                            Err(e) => Err(e),
                            Ok(((fields, engine), end)) => Ok(((table, fields, engine), end)),
                        },
                    }
                },
            }
        },
    }
}

/// The columns and the engine of a statement, from behind its table
/// reference on.
pub open spec fn spec_statement_body(s: Seq<u8>, pos: int) -> Result<
    ((Seq<ColumnSpecificationView>, EngineView), int),
    ParseError,
> {
    if !byte_at(s, ws_end(s, pos), '(' as u8) {
        Err(syntax(ErrorKind::Tag, ws_end(s, pos)))
    } else {
        match spec_field_specification_list(s, ws_end(s, ws_end(s, pos) + 1)) {
            Err(e) => Err(e),
            Ok((fields, fields_end)) => if !byte_at(s, ws_end(s, fields_end), ')' as u8) {
                Err(syntax(ErrorKind::Tag, ws_end(s, fields_end)))
            } else {
                match spec_engine_spec(s, ws_end(s, ws_end(s, fields_end) + 1)) {
                    Err(e) => Err(e),
                    Ok((engine, engine_end)) => match spec_statement_terminator(s, engine_end) {
                        Ok(end) => Ok(((fields, engine), end)),
                        Err(_) => Ok(((fields, engine), engine_end)),
                    },
                }
            },
        }
    }
}

/// The position of the table reference of the statement at `pos`.
pub open spec fn table_position(s: Seq<u8>, pos: int) -> int {
    ws_end(s, ws_end(s, pos + lit("create").len()) + lit("table").len())
}

/// The statement at `pos`. A table reference with an alias is a failure.
/// Each column of the statement belongs to the table of the statement,
/// whatever table was written before its name.
pub open spec fn spec_creation(s: Seq<u8>, pos: int) -> Result<
    (CreateTableStatementView, int),
    ParseError,
> {
    match spec_statement_parts(s, pos) {
        Err(e) => Err(e),
        Ok(((table, fields, engine), end)) => if table.alias is Some {
            Err(failure(Violation::TableAlias, table_position(s, pos)))
        } else {
            Ok(
                (
                    CreateTableStatementView {
                        table,
                        fields: all_with_table(fields, table.name),
                        engine,
                    },
                    end,
                ),
            )
        },
    }
}

/// The column `c` as a column of the table `name`.
pub fn attach_table(c: ColumnSpecification, name: &String) -> (r: ColumnSpecification)
    ensures
        r@ == with_table(c@, encode_utf8(name@)),
{
    ColumnSpecification {
        column: Column { name: c.column.name, alias: c.column.alias, table: Some(name.clone()) },
        sql_type: c.sql_type,
        codec: c.codec,
        ttl: c.ttl,
        nullable: c.nullable,
        option: c.option,
        comment: c.comment,
        lowcardinality: c.lowcardinality,
    }
}

/// The columns `fields` as columns of the table `name`, in the same order.
pub fn attach_table_to_all(fields: Vec<ColumnSpecification>, name: &String) -> (r: Vec<
    ColumnSpecification,
>)
    ensures
        columns_view(r@) == all_with_table(columns_view(fields@), encode_utf8(name@)),
{
    let ghost n = fields.len() as int;
    let ghost views = columns_view(fields@);
    let ghost table = encode_utf8(name@);
    let mut rest = fields;
    let mut reversed: Vec<ColumnSpecification> = Vec::new();
    while rest.len() > 0
        invariant
            rest.len() + reversed.len() == n,
            views.len() == n,
            forall|j: int| 0 <= j < rest.len() ==> (#[trigger] rest@[j])@ == views[j],
            forall|j: int|
                0 <= j < reversed.len() ==> (#[trigger] reversed@[j])@ == with_table(
                    views[n - 1 - j],
                    table,
                ),
            table == encode_utf8(name@),
        decreases rest.len(),
    {
        let c = rest.pop().unwrap();
        reversed.push(attach_table(c, name));
    }
    let mut out: Vec<ColumnSpecification> = Vec::new();
    while reversed.len() > 0
        invariant
            reversed.len() + out.len() == n,
            views.len() == n,
            forall|j: int|
                0 <= j < reversed.len() ==> (#[trigger] reversed@[j])@ == with_table(
                    views[n - 1 - j],
                    table,
                ),
            forall|j: int| 0 <= j < out.len() ==> (#[trigger] out@[j])@ == with_table(views[j], table),
        decreases reversed.len(),
    {
        let c = reversed.pop().unwrap();
        out.push(c);
    }
    assert(columns_view(out@) =~= all_with_table(views, table));
    out
}

/// The statement at `pos`.
pub fn creation_at(buf: &[u8], pos: usize) -> (r: Result<(CreateTableStatement, usize), ParseError>)
    requires
        pos <= buf.len(),
    ensures
        agrees(r, spec_creation(buf@, pos as int)),
        r is Ok ==> pos < r->Ok_0.1 <= buf.len(),
        r is Ok ==> crate::valid::valid_statement(r->Ok_0.0@),
{
    proof {
        if spec_creation(buf@, pos as int) is Ok {
            crate::valid::lemma_creation_valid(buf@, pos as int);
        }
    }
    let w1 = match tag_no_case(buf, pos, "create") {
        Some(w) => w,
        None => {
            return Err(ParseError::Syntax { kind: ErrorKind::Tag, position: pos });
        },
    };
    let a = match space1(buf, w1) {
        Some(a) => a,
        None => {
            return Err(ParseError::Syntax { kind: ErrorKind::Space, position: w1 });
        },
    };
    let w2 = match tag_no_case(buf, a, "table") {
        Some(w) => w,
        None => {
            return Err(ParseError::Syntax { kind: ErrorKind::Tag, position: a });
        },
    };
    let at = match space1(buf, w2) {
        Some(b) => b,
        None => {
            return Err(ParseError::Syntax { kind: ErrorKind::Space, position: w2 });
        },
    };
    let (table, table_end) = schema_table_reference_at(buf, at)?;
    let open = skip_ws(buf, table_end);
    if !is_byte_at(buf, open, 40) {
        return Err(ParseError::Syntax { kind: ErrorKind::Tag, position: open });
    }
    let (fields, fields_end) = field_specification_list_at(buf, skip_ws(buf, open + 1))?;
    let close = skip_ws(buf, fields_end);
    if !is_byte_at(buf, close, 41) {
        return Err(ParseError::Syntax { kind: ErrorKind::Tag, position: close });
    }
    let (engine, engine_end) = engine_spec_at(buf, skip_ws(buf, close + 1))?;
    let end = match statement_terminator_at(buf, engine_end) {
        Ok(end) => end,
        Err(_) => engine_end,
    };
    if table.alias.is_some() {
        return Err(ParseError::Failure { violation: Violation::TableAlias, position: at });
    }
    let fields = attach_table_to_all(fields, &table.name);
    Ok((CreateTableStatement { table, fields, engine }, end))
}

/// Reads a `CREATE TABLE` statement, and gives the rest of the input and
/// the statement, which is valid.
pub fn creation<'a>(i: &'a [u8]) -> (r: Result<(&'a [u8], CreateTableStatement), ParseError>)
    ensures
        match spec_creation(i@, 0) {
            Ok((c, end)) => r is Ok && r->Ok_0.0@ == i@.skip(end) && r->Ok_0.1@ == c,
            Err(e) => r is Err && r->Err_0 == e,
        },
        r is Ok ==> crate::valid::valid_statement(r->Ok_0.1@),
{
    match creation_at(i, 0) {
        Ok((c, end)) => Ok((slice_subrange(i, end, i.len()), c)),
        Err(e) => Err(e),
    }
}

} // verus!
