//! Columns: the data, their canonical text, and the grammar of one column
//! of a table definition.

use vstd::prelude::*;
use vstd::slice::slice_subrange;
use vstd::string::StringExecFns;
use vstd::string::StringSliceAdditionalSpecFns;
use vstd::utf8::encode_utf8;
use crate::codec::{
    column_codec_list_at, print_codec_list, push_codec_list, spec_column_codec_list, Codec,
    CodecList,
};
use crate::error::{agrees, optional, optional_at, syntax, ErrorKind, ParseError};
use crate::expr::{spec_expression, top_expression_at};
use crate::ident::{identifier_at, push_escaped, spec_sql_identifier};
use crate::keywords::spec_escape;
use crate::scan::{
    byte_at, is_byte_at, lit, run_end, sep_comma_at, sep_comma_end, skip_ws, space1, tag_no_case,
    word_end, ws_end, ByteClass, MAX_NESTING,
};
use crate::text::{capture, push_str, single_quoted_at, spec_capture, spec_single_quoted};
use crate::types::{
    field_specification_opts_at, opt_text, print_type, print_wrapped, push_type_opts,
    spec_field_specification_opts, SqlType, SqlTypeView,
};

verus! {

/// A column, with the table it belongs to and the alias it goes by, if any.
#[derive(Clone, Debug, Eq, Hash, PartialEq)]
pub struct Column {
    pub name: String,
    pub alias: Option<String>,
    pub table: Option<String>,
}

/// The model of a [`Column`].
pub struct ColumnView {
    pub name: Seq<u8>,
    pub alias: Option<Seq<u8>>,
    pub table: Option<Seq<u8>>,
}

impl View for Column {
    type V = ColumnView;

    open spec fn view(&self) -> ColumnView {
        ColumnView {
            name: encode_utf8(self.name@),
            alias: opt_text(self.alias),
            table: opt_text(self.table),
        }
    }
}

/// What a column holds where no value is given.
#[derive(Clone, Debug, Eq, Hash, PartialEq)]
pub enum ColumnOption {
    /// `DEFAULT`, with the text of the expression.
    DefaultValue(String),
    /// `MATERIALIZED`, with the text of the expression.
    Materialized(String),
}

/// The model of a [`ColumnOption`].
pub enum ColumnOptionView {
    DefaultValue(Seq<u8>),
    Materialized(Seq<u8>),
}

impl View for ColumnOption {
    type V = ColumnOptionView;

    open spec fn view(&self) -> ColumnOptionView {
        match self {
            ColumnOption::DefaultValue(e) => ColumnOptionView::DefaultValue(encode_utf8(e@)),
            ColumnOption::Materialized(e) => ColumnOptionView::Materialized(encode_utf8(e@)),
        }
    }
}

/// When the values of a column expire: the column that holds the time, and
/// an interval to add to it. The grammar reads no interval.
#[derive(Clone, Debug, Eq, PartialEq, Hash)]
pub struct ColumnTTL {
    pub column: String,
    pub interval: Option<String>,
}

/// The model of a [`ColumnTTL`].
pub struct ColumnTTLView {
    pub column: Seq<u8>,
    pub interval: Option<Seq<u8>>,
}

impl View for ColumnTTL {
    type V = ColumnTTLView;

    open spec fn view(&self) -> ColumnTTLView {
        ColumnTTLView { column: encode_utf8(self.column@), interval: opt_text(self.interval) }
    }
}

/// One column of a table definition. The two flags say which wrappers
/// stand around `sql_type`.
#[derive(Clone, Debug, Eq, Hash, PartialEq)]
pub struct ColumnSpecification {
    pub column: Column,
    pub sql_type: SqlType,
    pub codec: Option<CodecList>,
    pub ttl: Option<ColumnTTL>,
    pub nullable: bool,
    pub option: Option<ColumnOption>,
    pub comment: Option<String>,
    pub lowcardinality: bool,
}

/// The model of a [`ColumnSpecification`].
pub struct ColumnSpecificationView {
    pub column: ColumnView,
    pub sql_type: SqlTypeView,
    pub codec: Option<Seq<Codec>>,
    pub ttl: Option<ColumnTTLView>,
    pub nullable: bool,
    pub option: Option<ColumnOptionView>,
    pub comment: Option<Seq<u8>>,
    pub lowcardinality: bool,
}

impl View for ColumnSpecification {
    type V = ColumnSpecificationView;

    open spec fn view(&self) -> ColumnSpecificationView {
        ColumnSpecificationView {
            column: self.column@,
            sql_type: self.sql_type@,
            codec: match self.codec {
                Some(list) => Some(list@),
                None => None,
            },
            ttl: match self.ttl {
                Some(ttl) => Some(ttl@),
                None => None,
            },
            nullable: self.nullable,
            option: match self.option {
                Some(option) => Some(option@),
                None => None,
            },
            comment: opt_text(self.comment),
            lowcardinality: self.lowcardinality,
        }
    }
}

/// The models of the columns of a list.
pub open spec fn columns_view(list: Seq<ColumnSpecification>) -> Seq<ColumnSpecificationView> {
    Seq::new(list.len(), |i: int| list[i]@)
}

/// The canonical text of a column reference: `table.name AS alias`, each
/// identifier escaped, the table and the alias only where there is one.
pub open spec fn print_column(c: ColumnView) -> Seq<u8> {
    (match c.table {
        Some(table) => spec_escape(table) + lit("."),
        None => seq![],
    }) + spec_escape(c.name) + (match c.alias {
        Some(alias) => lit(" AS ") + spec_escape(alias),
        None => seq![],
    })
}

/// The canonical text of a column option.
pub open spec fn print_option(o: ColumnOptionView) -> Seq<u8> {
    match o {
        ColumnOptionView::DefaultValue(e) => lit("DEFAULT ") + e,
        ColumnOptionView::Materialized(e) => lit("MATERIALIZED ") + e,
    }
}

/// The canonical text of a TTL clause: `TTL column`, the column escaped,
/// and ` + interval` where there is one.
pub open spec fn print_ttl(t: ColumnTTLView) -> Seq<u8> {
    lit("TTL ") + spec_escape(t.column) + (match t.interval {
        Some(interval) => lit(" + ") + interval,
        None => seq![],
    })
}

/// The text of the option of a column behind a space, or nothing.
pub open spec fn print_option_clause(o: Option<ColumnOptionView>) -> Seq<u8> {
    match o {
        Some(o) => lit(" ") + print_option(o),
        None => seq![],
    }
}

/// The text of the comment of a column: ` COMMENT '...'`, or nothing.
pub open spec fn print_comment_clause(comment: Option<Seq<u8>>) -> Seq<u8> {
    match comment {
        Some(comment) => lit(" COMMENT '") + comment + lit("'"),
        None => seq![],
    }
}

/// The text of the codecs of a column: ` CODEC(...)`, or nothing.
pub open spec fn print_codec_clause(codec: Option<Seq<Codec>>) -> Seq<u8> {
    match codec {
        Some(list) => lit(" CODEC(") + print_codec_list(list) + lit(")"),
        None => seq![],
    }
}

/// The text of the TTL of a column behind a space, or nothing.
pub open spec fn print_ttl_clause(ttl: Option<ColumnTTLView>) -> Seq<u8> {
    match ttl {
        Some(ttl) => lit(" ") + print_ttl(ttl),
        None => seq![],
    }
}

/// The text of the clauses of a column behind its type: the option, the
/// comment, the codecs and the TTL, each only where there is one.
pub open spec fn print_column_clauses(c: ColumnSpecificationView) -> Seq<u8> {
    print_option_clause(c.option) + print_comment_clause(c.comment) + print_codec_clause(c.codec)
        + print_ttl_clause(c.ttl)
}

/// The canonical text of a column of a table definition: the name between
/// backticks, the type in its wrappers, and the clauses.
pub open spec fn print_column_specification(c: ColumnSpecificationView) -> Seq<u8> {
    lit("`") + c.column.name + lit("` ") + print_wrapped(
        print_type(c.sql_type),
        c.nullable,
        c.lowcardinality,
    ) + print_column_clauses(c)
}

/// Appends the canonical text of a column reference.
pub fn push_column(out: &mut String, c: &Column)
    ensures
        encode_utf8(final(out)@) == encode_utf8(old(out)@) + print_column(c@),
{
    let ghost before = encode_utf8(out@);
    match &c.table {
        Some(table) => {
            push_escaped(out, table.as_str());
            push_str(out, ".");
        },
        None => {},
    }
    let ghost middle = encode_utf8(out@);
    assert(middle =~= before + (match c@.table {
        Some(table) => spec_escape(table) + lit("."),
        None => seq![],
    }));
    push_escaped(out, c.name.as_str());
    match &c.alias {
        Some(alias) => {
            push_str(out, " AS ");
            push_escaped(out, alias.as_str());
            assert(encode_utf8(out@) =~= middle + spec_escape(c@.name) + (lit(" AS ") + spec_escape(
                encode_utf8(alias@),
            )));
        },
        None => {
            assert(encode_utf8(out@) =~= middle + spec_escape(c@.name) + Seq::<u8>::empty());
        },
    }
    assert(encode_utf8(out@) =~= before + print_column(c@));
}

/// Appends the canonical text of a column option.
pub fn push_option(out: &mut String, o: &ColumnOption)
    ensures
        encode_utf8(final(out)@) == encode_utf8(old(out)@) + print_option(o@),
{
    match o {
        ColumnOption::DefaultValue(e) => {
            push_str(out, "DEFAULT ");
            push_str(out, e.as_str());
            assert(encode_utf8(out@) =~= encode_utf8(old(out)@) + (lit("DEFAULT ") + encode_utf8(
                e@,
            )));
        },
        ColumnOption::Materialized(e) => {
            push_str(out, "MATERIALIZED ");
            push_str(out, e.as_str());
            assert(encode_utf8(out@) =~= encode_utf8(old(out)@) + (lit("MATERIALIZED ")
                + encode_utf8(e@)));
        },
    }
}

/// Appends the canonical text of a TTL clause.
pub fn push_ttl(out: &mut String, t: &ColumnTTL)
    ensures
        encode_utf8(final(out)@) == encode_utf8(old(out)@) + print_ttl(t@),
{
    push_str(out, "TTL ");
    push_escaped(out, t.column.as_str());
    match &t.interval {
        Some(interval) => {
            push_str(out, " + ");
            push_str(out, interval.as_str());
            assert(encode_utf8(out@) =~= encode_utf8(old(out)@) + (lit("TTL ") + spec_escape(
                t@.column,
            ) + (lit(" + ") + encode_utf8(interval@))));
        },
        None => {
            assert(encode_utf8(out@) =~= encode_utf8(old(out)@) + (lit("TTL ") + spec_escape(
                t@.column,
            ) + Seq::<u8>::empty()));
        },
    }
}

/// Appends the option of a column, if there is one.
pub fn push_option_clause(out: &mut String, c: &ColumnSpecification)
    ensures
        encode_utf8(final(out)@) == encode_utf8(old(out)@) + print_option_clause(c@.option),
{
    match &c.option {
        Some(o) => {
            push_str(out, " ");
            push_option(out, o);
            assert(encode_utf8(out@) =~= encode_utf8(old(out)@) + (lit(" ") + print_option(o@)));
        },
        None => {
            assert(encode_utf8(out@) =~= encode_utf8(old(out)@) + Seq::<u8>::empty());
        },
    }
}

/// Appends the comment of a column, if there is one.
pub fn push_comment_clause(out: &mut String, c: &ColumnSpecification)
    ensures
        encode_utf8(final(out)@) == encode_utf8(old(out)@) + print_comment_clause(c@.comment),
{
    match &c.comment {
        Some(comment) => {
            push_str(out, " COMMENT '");
            push_str(out, comment.as_str());
            push_str(out, "'");
            assert(encode_utf8(out@) =~= encode_utf8(old(out)@) + (lit(" COMMENT '") + encode_utf8(
                comment@,
            ) + lit("'")));
        },
        None => {
            assert(encode_utf8(out@) =~= encode_utf8(old(out)@) + Seq::<u8>::empty());
        },
    }
}

/// Appends the codecs of a column, if there are any.
pub fn push_codec_clause(out: &mut String, c: &ColumnSpecification)
    ensures
        encode_utf8(final(out)@) == encode_utf8(old(out)@) + print_codec_clause(c@.codec),
{
    match &c.codec {
        Some(list) => {
            push_str(out, " CODEC(");
            push_codec_list(out, &list.0);
            push_str(out, ")");
            assert(encode_utf8(out@) =~= encode_utf8(old(out)@) + (lit(" CODEC(")
                + print_codec_list(list@) + lit(")")));
        },
        None => {
            assert(encode_utf8(out@) =~= encode_utf8(old(out)@) + Seq::<u8>::empty());
        },
    }
}

/// Appends the TTL of a column, if there is one.
pub fn push_ttl_clause(out: &mut String, c: &ColumnSpecification)
    ensures
        encode_utf8(final(out)@) == encode_utf8(old(out)@) + print_ttl_clause(c@.ttl),
{
    match &c.ttl {
        Some(ttl) => {
            push_str(out, " ");
            push_ttl(out, ttl);
            assert(encode_utf8(out@) =~= encode_utf8(old(out)@) + (lit(" ") + print_ttl(ttl@)));
        },
        None => {
            assert(encode_utf8(out@) =~= encode_utf8(old(out)@) + Seq::<u8>::empty());
        },
    }
}

/// Appends the clauses of a column behind its type.
pub fn push_column_clauses(out: &mut String, c: &ColumnSpecification)
    ensures
        encode_utf8(final(out)@) == encode_utf8(old(out)@) + print_column_clauses(c@),
{
    push_option_clause(out, c);
    push_comment_clause(out, c);
    push_codec_clause(out, c);
    push_ttl_clause(out, c);
    assert(encode_utf8(out@) =~= encode_utf8(old(out)@) + (print_option_clause(c@.option)
        + print_comment_clause(c@.comment) + print_codec_clause(c@.codec) + print_ttl_clause(
        c@.ttl,
    )));
}

/// Appends the canonical text of a column of a table definition.
pub fn push_column_specification(out: &mut String, c: &ColumnSpecification)
    ensures
        encode_utf8(final(out)@) == encode_utf8(old(out)@) + print_column_specification(c@),
{
    let ghost base = encode_utf8(out@);
    let ghost name = lit("`") + c@.column.name;
    let ghost quoted = name + lit("` ");
    let ghost typed = quoted + print_wrapped(print_type(c@.sql_type), c.nullable, c.lowcardinality);
    push_str(out, "`");
    push_str(out, c.column.name.as_str());
    proof {
        crate::text::lemma_appended(base, lit("`"), c@.column.name);
    }
    push_str(out, "` ");
    proof {
        crate::text::lemma_appended(base, name, lit("` "));
    }
    push_type_opts(out, &c.sql_type, c.nullable, c.lowcardinality);
    proof {
        crate::text::lemma_appended(
            base,
            quoted,
            print_wrapped(print_type(c@.sql_type), c.nullable, c.lowcardinality),
        );
    }
    push_column_clauses(out, c);
    proof {
        crate::text::lemma_appended(base, typed, print_column_clauses(c@));
    }
}

impl Column {
    /// The canonical text of the column reference.
    pub fn to_string(&self) -> (r: String)
        ensures
            encode_utf8(r@) == print_column(self@),
    {
        let mut out = String::new();
        push_column(&mut out, self);
        assert(encode_utf8(Seq::<char>::empty()) + print_column(self@) =~= print_column(self@));
        out
    }
}

impl ColumnOption {
    /// The canonical text of the option.
    pub fn to_string(&self) -> (r: String)
        ensures
            encode_utf8(r@) == print_option(self@),
    {
        let mut out = String::new();
        push_option(&mut out, self);
        assert(encode_utf8(Seq::<char>::empty()) + print_option(self@) =~= print_option(self@));
        out
    }
}

impl ColumnTTL {
    /// The canonical text of the clause.
    pub fn to_string(&self) -> (r: String)
        ensures
            encode_utf8(r@) == print_ttl(self@),
    {
        let mut out = String::new();
        push_ttl(&mut out, self);
        assert(encode_utf8(Seq::<char>::empty()) + print_ttl(self@) =~= print_ttl(self@));
        out
    }
}

impl ColumnSpecification {
    /// A column of the given type, with no wrapper and no clause.
    pub fn new(column: Column, sql_type: SqlType) -> (r: ColumnSpecification)
        ensures
            r@ == (ColumnSpecificationView {
                column: column@,
                sql_type: sql_type@,
                codec: None,
                ttl: None,
                nullable: false,
                option: None,
                comment: None,
                lowcardinality: false,
            }),
    {
        ColumnSpecification {
            column,
            sql_type,
            codec: None,
            ttl: None,
            nullable: false,
            option: None,
            comment: None,
            lowcardinality: false,
        }
    }

    /// The canonical text of the column.
    pub fn to_string(&self) -> (r: String)
        ensures
            encode_utf8(r@) == print_column_specification(self@),
    {
        let mut out = String::new();
        push_column_specification(&mut out, self);
        assert(encode_utf8(Seq::<char>::empty()) + print_column_specification(self@)
            =~= print_column_specification(self@));
        out
    }
}

/// The column that the text `c` names: the part before the first dot is the
/// table, the part behind it the name; without a dot all of it is the name.
pub open spec fn spec_column_from(c: Seq<u8>) -> ColumnView {
    let dot = run_end(c, 0, ByteClass::Except('.' as u8));
    if dot < c.len() {
        ColumnView {
            name: c.subrange(dot + 1, c.len() as int),
            alias: None,
            table: Some(c.subrange(0, dot)),
        }
    } else {
        ColumnView { name: c, alias: None, table: None }
    }
}

/// The position behind a dot that begins a text is a boundary of characters.
proof fn lemma_boundary_behind_dot(b: Seq<u8>)
    requires
        vstd::utf8::valid_utf8(b),
        b.len() > 0,
        b[0] == '.' as u8,
    ensures
        vstd::utf8::is_char_boundary(b, 1),
{
    reveal_with_fuel(vstd::utf8::is_char_boundary, 2);
    reveal_with_fuel(vstd::utf8::valid_utf8, 2);
    assert(vstd::utf8::length_of_first_scalar(b) == 1);
}

impl<'a> vstd::std_specs::convert::FromSpecImpl<&'a str> for Column {
    open spec fn obeys_from_spec() -> bool {
        false
    }

    open spec fn from_spec(c: &'a str) -> Column {
        arbitrary()
    }
}

impl<'a> From<&'a str> for Column {
    /// The column that `c` names, `table.name` or `name`, with no alias.
    fn from(c: &'a str) -> (r: Column)
        ensures
            r@ == spec_column_from(encode_utf8(c@)),
    {
        let bytes = c.as_bytes();
        let dot = match crate::scan::run1(bytes, 0, ByteClass::Except(46)) {
            Some(end) => end,
            None => 0,
        };
        if dot < bytes.len() {
            proof {
                crate::scan::lemma_run_end_props(bytes@, 0, ByteClass::Except('.' as u8));
                vstd::utf8::encode_utf8_valid_utf8(c@);
                vstd::utf8::is_char_boundary_iff_not_is_continuation_byte(bytes@, dot as int);
            }
            let (table, rest) = c.split_at(dot);
            proof {
                vstd::utf8::encode_utf8_valid_utf8(rest@);
                lemma_boundary_behind_dot(rest.spec_bytes());
            }
            let (_, name) = rest.split_at(1);
            assert(name.spec_bytes() =~= bytes@.subrange(dot + 1, bytes@.len() as int));
            Column {
                name: String::from_str(name),
                alias: None,
                table: Some(String::from_str(table)),
            }
        } else {
            Column { name: String::from_str(c), alias: None, table: None }
        }
    }
}

impl<'a> vstd::std_specs::convert::FromSpecImpl<&'a str> for ColumnTTL {
    open spec fn obeys_from_spec() -> bool {
        false
    }

    open spec fn from_spec(t: &'a str) -> ColumnTTL {
        arbitrary()
    }
}

impl<'a> From<&'a str> for ColumnTTL {
    /// The clause for the given column, with no interval.
    fn from(t: &'a str) -> (r: ColumnTTL)
        ensures
            r@ == (ColumnTTLView { column: encode_utf8(t@), interval: None }),
    {
        ColumnTTL { column: String::from_str(t), interval: None }
    }
}

impl<'a> vstd::std_specs::convert::FromSpecImpl<(&'a str, &'a str)> for ColumnTTL {
    open spec fn obeys_from_spec() -> bool {
        false
    }

    open spec fn from_spec(t: (&'a str, &'a str)) -> ColumnTTL {
        arbitrary()
    }
}

impl<'a> From<(&'a str, &'a str)> for ColumnTTL {
    /// The clause for the given column and interval, in this order.
    fn from(t: (&'a str, &'a str)) -> (r: ColumnTTL)
        ensures
            r@ == (ColumnTTLView {
                column: encode_utf8(t.0@),
                interval: Some(encode_utf8(t.1@)),
            }),
    {
        ColumnTTL { column: String::from_str(t.0), interval: Some(String::from_str(t.1)) }
    }
}

/// The column reference at `pos`, without alias: `table.name`, the table
/// only where an identifier and a dot come first.
pub open spec fn spec_column_identifier_no_alias(s: Seq<u8>, pos: int) -> Result<
    (ColumnView, int),
    ParseError,
> {
    match spec_sql_identifier(s, pos) {
        Err(e) => Err(e),
        Ok((first, first_end)) => if byte_at(s, first_end, '.' as u8) {
            match spec_sql_identifier(s, first_end + 1) {
                Err(e) => Err(e),
                Ok((name, end)) => match spec_capture(s, name.0, name.1) {
                    Err(e) => Err(e),
                    Ok(name) => match spec_capture(s, first.0, first.1) {
                        Err(e) => Err(e),
                        Ok(table) => Ok(
                            (ColumnView { name, alias: None, table: Some(table) }, end),
                        ),
                    },
                },
            }
        } else {
            match spec_capture(s, first.0, first.1) {
                Err(e) => Err(e),
                Ok(name) => Ok((ColumnView { name, alias: None, table: None }, first_end)),
            }
        },
    }
}

/// The text of the expression behind the word `word` at `pos`: white
/// space, the word in any case, white space that is not empty, the
/// expression, white space. Gives the text of the expression.
pub open spec fn spec_expression_clause(s: Seq<u8>, pos: int, word: Seq<u8>) -> Result<
    (Seq<u8>, int),
    ParseError,
> {
    let start = ws_end(s, pos);
    match word_end(s, start, word) {
        None => Err(syntax(ErrorKind::Tag, start)),
        Some(w) => {
            let e = ws_end(s, w);
            if e <= w {
                Err(syntax(ErrorKind::Space, w))
            } else {
                match spec_expression(s, e) {
                    Err(err) => Err(err),
                    Ok(end) => match spec_capture(s, e, end) {
                        Err(err) => Err(err),
                        Ok(text) => Ok((text, ws_end(s, end))),
                    },
                }
            }
        },
    }
}

/// The option of a column at `pos`: `DEFAULT` or `MATERIALIZED` and an
/// expression.
pub open spec fn spec_column_option(s: Seq<u8>, pos: int) -> Result<
    (ColumnOptionView, int),
    ParseError,
> {
    match spec_expression_clause(s, pos, lit("default")) {
        Ok((text, end)) => Ok((ColumnOptionView::DefaultValue(text), end)),
        Err(e) => if e is Failure {
            Err(e)
        } else {
            match spec_expression_clause(s, pos, lit("materialized")) {
                Ok((text, end)) => Ok((ColumnOptionView::Materialized(text), end)),
                Err(e) => Err(e),
            }
        },
    }
}

/// The comment of a column at `pos`: `COMMENT`, white space, and the text
/// between single quotes, in which no byte is escaped.
pub open spec fn spec_column_comment(s: Seq<u8>, pos: int) -> Result<(Seq<u8>, int), ParseError> {
    match word_end(s, pos, lit("COMMENT")) {
        None => Err(syntax(ErrorKind::Tag, pos)),
        Some(w) => spec_single_quoted(s, ws_end(s, w)),
    }
}

/// The TTL of a column at `pos`: white space, `TTL`, white space, an
/// identifier, white space.
pub open spec fn spec_column_ttl(s: Seq<u8>, pos: int) -> Result<(ColumnTTLView, int), ParseError> {
    let start = ws_end(s, pos);
    match word_end(s, start, lit("TTL")) {
        None => Err(syntax(ErrorKind::Tag, start)),
        Some(w) => match spec_sql_identifier(s, ws_end(s, w)) {
            Err(e) => Err(e),
            Ok((name, end)) => match spec_capture(s, name.0, name.1) {
                Err(e) => Err(e),
                Ok(column) => Ok((ColumnTTLView { column, interval: None }, ws_end(s, end))),
            },
        },
    }
}

/// One column of a table definition at `pos`: the name, white space that is
/// not empty, the type in its wrappers, white space, and then, each only if
/// it is there and in this order, the option, the comment, the codecs and
/// the TTL.
#[verifier::opaque]
pub open spec fn spec_field_specification(s: Seq<u8>, pos: int) -> Result<
    (ColumnSpecificationView, int),
    ParseError,
> {
    match spec_column_identifier_no_alias(s, pos) {
        Err(e) => Err(e),
        Ok((column, name_end)) => if ws_end(s, name_end) <= name_end {
            Err(syntax(ErrorKind::Space, name_end))
        } else {
            match spec_field_specification_opts(s, ws_end(s, name_end), MAX_NESTING as nat) {
                Err(e) => Err(e),
                Ok((t, type_end)) => spec_field_clauses(s, ws_end(s, type_end), column, t),
            }
        },
    }
}

/// The clauses of a column from `pos` on, and the column they make with
/// the given name and type.
#[verifier::opaque]
pub open spec fn spec_field_clauses(
    s: Seq<u8>,
    pos: int,
    column: ColumnView,
    t: crate::types::SqlTypeOptsView,
) -> Result<(ColumnSpecificationView, int), ParseError> {
    match optional(spec_column_option(s, pos), pos) {
        Err(e) => Err(e),
        Ok((option, option_end)) => match optional(
            spec_column_comment(s, ws_end(s, option_end)),
            option_end,
        ) {
            Err(e) => Err(e),
            Ok((comment, comment_end)) => match optional(
                spec_column_codec_list(s, ws_end(s, comment_end)),
                comment_end,
            ) {
                Err(e) => Err(e),
                Ok((codec, codec_end)) => match optional(
                    spec_column_ttl(s, ws_end(s, codec_end)),
                    codec_end,
                ) {
                    Err(e) => Err(e),
                    Ok((ttl, end)) => Ok(
                        (
                            ColumnSpecificationView {
                                column,
                                sql_type: t.ftype,
                                codec,
                                ttl,
                                nullable: t.nullable,
                                option,
                                comment,
                                lowcardinality: t.lowcardinality,
                            },
                            end,
                        ),
                    ),
                },
            },
        },
    }
}

/// The columns that follow the columns `acc`, which end at `pos`: each
/// behind a comma.
pub open spec fn spec_field_list_tail(
    s: Seq<u8>,
    pos: int,
    acc: Seq<ColumnSpecificationView>,
) -> Result<(Seq<ColumnSpecificationView>, int), ParseError>
    decreases s.len() - pos,
{
    match sep_comma_end(s, pos) {
        None => Ok((acc, pos)),
        Some(next) => match spec_field_specification(s, next) {
            Err(e) => if e is Failure {
                Err(e)
            } else {
                Ok((acc, pos))
            },
            Ok((c, end)) => if pos < end <= s.len() {
                spec_field_list_tail(s, end, acc.push(c))
            } else {
                Ok((acc, pos))
            },
        },
    }
}

/// The columns at `pos`, with commas between them; there may be none.
pub open spec fn spec_field_specification_list(s: Seq<u8>, pos: int) -> Result<
    (Seq<ColumnSpecificationView>, int),
    ParseError,
> {
    match spec_field_specification(s, pos) {
        Err(e) => if e is Failure {
            Err(e)
        } else {
            Ok((seq![], pos))
        },
        Ok((c, end)) => spec_field_list_tail(s, end, seq![c]),
    }
}

/// The column reference at `pos`.
pub fn column_identifier_no_alias_at(buf: &[u8], pos: usize) -> (r: Result<
    (Column, usize),
    ParseError,
>)
    requires
        pos <= buf.len(),
    ensures
        agrees(r, spec_column_identifier_no_alias(buf@, pos as int)),
        r is Ok ==> pos < r->Ok_0.1 <= buf.len(),
{
    let (first, first_end) = identifier_at(buf, pos)?;
    if is_byte_at(buf, first_end, 46) {
        let (name, end) = identifier_at(buf, first_end + 1)?;
        let name = capture(buf, name.0, name.1)?;
        let table = capture(buf, first.0, first.1)?;
        Ok((Column { name, alias: None, table: Some(table) }, end))
    } else {
        let name = capture(buf, first.0, first.1)?;
        Ok((Column { name, alias: None, table: None }, first_end))
    }
}

/// Reads a column reference without alias, and gives the rest of the input
/// and the column.
pub fn column_identifier_no_alias<'a>(i: &'a [u8]) -> (r: Result<(&'a [u8], Column), ParseError>)
    ensures
        match spec_column_identifier_no_alias(i@, 0) {
            Ok((c, end)) => r is Ok && r->Ok_0.0@ == i@.skip(end) && r->Ok_0.1@ == c,
            Err(e) => r is Err && r->Err_0 == e,
        },
{
    match column_identifier_no_alias_at(i, 0) {
        Ok((c, end)) => Ok((slice_subrange(i, end, i.len()), c)),
        Err(e) => Err(e),
    }
}

/// The text of the expression behind the word `word` at `pos`.
pub fn expression_clause_at(buf: &[u8], pos: usize, word: &str) -> (r: Result<
    (String, usize),
    ParseError,
>)
    requires
        pos <= buf.len(),
    ensures
        match spec_expression_clause(buf@, pos as int, lit(word)) {
            Ok((t, end)) => r is Ok && encode_utf8(r->Ok_0.0@) == t && r->Ok_0.1 == end,
            Err(e) => r is Err && r->Err_0 == e,
        },
        r is Ok ==> pos < r->Ok_0.1 <= buf.len(),
{
    let start = skip_ws(buf, pos);
    let w = match tag_no_case(buf, start, word) {
        Some(w) => w,
        None => {
            return Err(ParseError::Syntax { kind: ErrorKind::Tag, position: start });
        },
    };
    let e = match space1(buf, w) {
        Some(e) => e,
        None => {
            return Err(ParseError::Syntax { kind: ErrorKind::Space, position: w });
        },
    };
    let end = top_expression_at(buf, e)?;
    let text = capture(buf, e, end)?;
    Ok((text, skip_ws(buf, end)))
}

/// The option of a column at `pos`.
pub fn column_option_at(buf: &[u8], pos: usize) -> (r: Result<(ColumnOption, usize), ParseError>)
    requires
        pos <= buf.len(),
    ensures
        agrees(r, spec_column_option(buf@, pos as int)),
        r is Ok ==> pos < r->Ok_0.1 <= buf.len(),
{
    match expression_clause_at(buf, pos, "default") {
        Ok((text, end)) => Ok((ColumnOption::DefaultValue(text), end)),
        Err(e) => if e.is_failure() {
            Err(e)
        } else {
            let (text, end) = expression_clause_at(buf, pos, "materialized")?;
            Ok((ColumnOption::Materialized(text), end))
        },
    }
}

/// Whether a text was read as its specification says.
pub open spec fn agrees_text(
    r: Result<(String, usize), ParseError>,
    p: Result<(Seq<u8>, int), ParseError>,
) -> bool {
    match p {
        Ok((t, end)) => r is Ok && encode_utf8(r->Ok_0.0@) == t && r->Ok_0.1 == end,
        Err(e) => r is Err && r->Err_0 == e,
    }
}

/// The comment of a column at `pos`.
pub fn column_comment_at(buf: &[u8], pos: usize) -> (r: Result<(String, usize), ParseError>)
    requires
        pos <= buf.len(),
    ensures
        agrees_text(r, spec_column_comment(buf@, pos as int)),
        r is Ok ==> pos < r->Ok_0.1 <= buf.len(),
{
    match tag_no_case(buf, pos, "COMMENT") {
        None => Err(ParseError::Syntax { kind: ErrorKind::Tag, position: pos }),
        Some(w) => single_quoted_at(buf, skip_ws(buf, w)),
    }
}

/// Reads the comment of a column, and gives the rest of the input and the
/// text of the comment.
pub fn column_comment<'a>(i: &'a [u8]) -> (r: Result<(&'a [u8], String), ParseError>)
    ensures
        match spec_column_comment(i@, 0) {
            Ok((t, end)) => r is Ok && r->Ok_0.0@ == i@.skip(end) && encode_utf8(r->Ok_0.1@) == t,
            Err(e) => r is Err && r->Err_0 == e,
        },
{
    match column_comment_at(i, 0) {
        Ok((t, end)) => Ok((slice_subrange(i, end, i.len()), t)),
        Err(e) => Err(e),
    }
}

/// The TTL of a column at `pos`.
pub fn column_ttl_at(buf: &[u8], pos: usize) -> (r: Result<(ColumnTTL, usize), ParseError>)
    requires
        pos <= buf.len(),
    ensures
        agrees(r, spec_column_ttl(buf@, pos as int)),
        r is Ok ==> pos < r->Ok_0.1 <= buf.len(),
{
    let start = skip_ws(buf, pos);
    match tag_no_case(buf, start, "TTL") {
        None => Err(ParseError::Syntax { kind: ErrorKind::Tag, position: start }),
        Some(w) => {
            let (name, end) = identifier_at(buf, skip_ws(buf, w))?;
            let column = capture(buf, name.0, name.1)?;
            Ok((ColumnTTL { column, interval: None }, skip_ws(buf, end)))
        },
    }
}

/// Reads the TTL of a column, and gives the rest of the input and the
/// clause. Only the form without interval is read.
pub fn column_ttl<'a>(i: &'a [u8]) -> (r: Result<(&'a [u8], ColumnTTL), ParseError>)
    ensures
        match spec_column_ttl(i@, 0) {
            Ok((t, end)) => r is Ok && r->Ok_0.0@ == i@.skip(end) && r->Ok_0.1@ == t,
            Err(e) => r is Err && r->Err_0 == e,
        },
{
    match column_ttl_at(i, 0) {
        Ok((t, end)) => Ok((slice_subrange(i, end, i.len()), t)),
        Err(e) => Err(e),
    }
}

/// The clauses of a column from `pos` on.
pub fn field_clauses_at(buf: &[u8], pos: usize, column: Column, t: crate::types::SqlTypeOpts) -> (r:
    Result<(ColumnSpecification, usize), ParseError>)
    requires
        pos <= buf.len(),
    ensures
        agrees(r, spec_field_clauses(buf@, pos as int, column@, t@)),
        r is Ok ==> pos <= r->Ok_0.1 <= buf.len(),
{
    proof {
        reveal(spec_field_clauses);
    }
    let (option, option_end) = optional_at(column_option_at(buf, pos), pos)?;
    let (comment, comment_end) = optional_at(
        column_comment_at(buf, skip_ws(buf, option_end)),
        option_end,
    )?;
    let (codec, codec_end) = optional_at(
        column_codec_list_at(buf, skip_ws(buf, comment_end)),
        comment_end,
    )?;
    let (ttl, end) = optional_at(column_ttl_at(buf, skip_ws(buf, codec_end)), codec_end)?;
    Ok(
        (
            ColumnSpecification {
                column,
                sql_type: t.ftype,
                codec,
                ttl,
                nullable: t.nullable,
                option,
                comment,
                lowcardinality: t.lowcardinality,
            },
            end,
        ),
    )
}

/// The column of a table definition at `pos`.
pub fn field_specification_at(buf: &[u8], pos: usize) -> (r: Result<
    (ColumnSpecification, usize),
    ParseError,
>)
    requires
        pos <= buf.len(),
    ensures
        agrees(r, spec_field_specification(buf@, pos as int)),
        r is Ok ==> pos < r->Ok_0.1 <= buf.len(),
{
    proof {
        reveal(spec_field_specification);
    }
    let (column, name_end) = column_identifier_no_alias_at(buf, pos)?;
    let type_start = match space1(buf, name_end) {
        Some(p) => p,
        None => {
            return Err(ParseError::Syntax { kind: ErrorKind::Space, position: name_end });
        },
    };
    let (t, type_end) = field_specification_opts_at(buf, type_start, MAX_NESTING)?;
    field_clauses_at(buf, skip_ws(buf, type_end), column, t)
}

/// Reads one column of a table definition, and gives the rest of the input
/// and the column.
pub fn field_specification<'a>(i: &'a [u8]) -> (r: Result<
    (&'a [u8], ColumnSpecification),
    ParseError,
>)
    ensures
        match spec_field_specification(i@, 0) {
            Ok((c, end)) => r is Ok && r->Ok_0.0@ == i@.skip(end) && r->Ok_0.1@ == c,
            Err(e) => r is Err && r->Err_0 == e,
        },
{
    match field_specification_at(i, 0) {
        Ok((c, end)) => Ok((slice_subrange(i, end, i.len()), c)),
        Err(e) => Err(e),
    }
}

/// Whether a list of columns was read as its specification says.
pub open spec fn agrees_columns(
    r: Result<(Vec<ColumnSpecification>, usize), ParseError>,
    p: Result<(Seq<ColumnSpecificationView>, int), ParseError>,
) -> bool {
    match p {
        Ok((list, end)) => r is Ok && columns_view(r->Ok_0.0@) == list && r->Ok_0.1 == end,
        Err(e) => r is Err && r->Err_0 == e,
    }
}

/// The columns at `pos`, with commas between them.
pub fn field_specification_list_at(buf: &[u8], pos: usize) -> (r: Result<
    (Vec<ColumnSpecification>, usize),
    ParseError,
>)
    requires
        pos <= buf.len(),
    ensures
        agrees_columns(r, spec_field_specification_list(buf@, pos as int)),
        r is Ok ==> pos <= r->Ok_0.1 <= buf.len(),
{
    let mut acc: Vec<ColumnSpecification> = Vec::new();
    let mut p: usize = match field_specification_at(buf, pos) {
        Ok((c, end)) => {
            acc.push(c);
            end
        },
        Err(e) => {
            if e.is_failure() {
                return Err(e);
            } else {
                assert(columns_view(acc@) =~= seq![]);
                return Ok((acc, pos));
            }
        },
    };
    assert(columns_view(acc@) =~= seq![spec_field_specification(buf@, pos as int)->Ok_0.0]);
    loop
        invariant
            pos <= p <= buf.len(),
            spec_field_specification_list(buf@, pos as int) == spec_field_list_tail(
                buf@,
                p as int,
                columns_view(acc@),
            ),
        decreases buf.len() - p,
    {
        match sep_comma_at(buf, p) {
            None => {
                return Ok((acc, p));
            },
            Some(next) => match field_specification_at(buf, next) {
                Ok((c, end)) => {
                    proof {
                        assert(columns_view(acc@.push(c)) =~= columns_view(acc@).push(c@));
                    }
                    acc.push(c);
                    p = end;
                },
                Err(e) => {
                    if e.is_failure() {
                        return Err(e);
                    } else {
                        return Ok((acc, p));
                    }
                },
            },
        }
    }
}

/// Reads the columns of a table definition, with commas between them, and
/// gives the rest of the input and the columns in order.
pub fn field_specification_list<'a>(i: &'a [u8]) -> (r: Result<
    (&'a [u8], Vec<ColumnSpecification>),
    ParseError,
>)
    ensures
        match spec_field_specification_list(i@, 0) {
            Ok((list, end)) => r is Ok && r->Ok_0.0@ == i@.skip(end) && columns_view(r->Ok_0.1@)
                == list,
            Err(e) => r is Err && r->Err_0 == e,
        },
{
    match field_specification_list_at(i, 0) {
        Ok((list, end)) => Ok((slice_subrange(i, end, i.len()), list)),
        Err(e) => Err(e),
    }
}

} // verus!
