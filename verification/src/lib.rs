//! A parser and printer for the `CREATE TABLE ... ENGINE = ...` statements of
//! the ClickHouse SQL dialect.
//!
//! Every grammar rule is a function from a byte buffer and a position to a
//! value and the position behind it, specified by a `spec` function of the
//! same shape. Beside it stands a function of the same name without `_at`,
//! which takes the input as a slice and gives the rest of it with the value.
//! The printers are specified by `spec` functions that give the bytes of the
//! canonical text. The model of a text of the syntax tree is the sequence of
//! its UTF-8 bytes.
//!
//! The lexical rules call the recognisers of the `nom` crate ([`scan`]). What
//! holds of every value that the grammar gives stands in [`valid`], and the
//! laws that relate the grammar and the printers stand in [`laws`]; the
//! modules `reading*` and [`words`] hold the lemmas that carry them.

use vstd::prelude::*;
use vstd::slice::slice_subrange;
use vstd::utf8::encode_utf8;

pub mod codec;
pub mod column;
pub mod create;
pub mod engine;
pub mod error;
pub mod expr;
pub mod ident;
pub mod keywords;
pub mod laws;
pub mod reading;
pub mod reading_codec;
pub mod reading_column;
pub mod reading_expr;
pub mod reading_statement;
pub mod reading_types;
pub mod scan;
pub mod table;
pub mod text;
pub mod types;
pub mod valid;
pub mod words;

pub use codec::{column_codec, column_codec_list, Codec, CodecDeltaLevel, CodecList};
pub use column::{
    column_comment, column_identifier_no_alias, column_ttl, field_specification,
    field_specification_list, Column, ColumnOption, ColumnSpecification, ColumnTTL,
};
pub use create::{creation, statement_terminator, CreateTableStatement};
pub use engine::{
    engine, ttl_expression, Engine, EngineDistributed, EngineMergeTree, EngineReplicatedMergeTree,
};
pub use error::{ErrorKind, ParseError, Violation};
pub use expr::{raw_string_quoted, sql_expression};
pub use ident::{correct_identifier, escape_identifier, escape_if_keyword, sql_identifier};
pub use keywords::sql_keyword;
pub use scan::{is_sql_identifier, ws_sep_comma};
pub use table::{as_alias, schema_table_reference, Table};
pub use types::{
    delim_digit, field_specification_opts, type_identifier, SqlType, SqlTypeOpts, TypeSize,
    TypeSize16,
};

verus! {

/// A statement of the dialect.
#[derive(Clone, Debug, Eq, PartialEq, Hash)]
pub enum SqlQuery {
    CreateTable(create::CreateTableStatement),
}

/// The model of a [`SqlQuery`].
pub enum SqlQueryView {
    CreateTable(create::CreateTableStatementView),
}

impl View for SqlQuery {
    type V = SqlQueryView;

    open spec fn view(&self) -> SqlQueryView {
        match self {
            SqlQuery::CreateTable(c) => SqlQueryView::CreateTable(c@),
        }
    }
}

/// The canonical text of a statement.
pub open spec fn print_query(q: SqlQueryView) -> Seq<u8> {
    match q {
        SqlQueryView::CreateTable(c) => create::print_statement(c),
    }
}

impl SqlQuery {
    /// The canonical text of the statement.
    pub fn to_string(&self) -> (r: String)
        ensures
            encode_utf8(r@) == print_query(self@),
    {
        match self {
            SqlQuery::CreateTable(c) => c.to_string(),
        }
    }
}

/// The statement at `pos`, and its end.
pub open spec fn spec_sql_query(s: Seq<u8>, pos: int) -> Result<(SqlQueryView, int), ParseError> {
    match create::spec_creation(s, pos) {
        Ok((c, end)) => Ok((SqlQueryView::CreateTable(c), end)),
        Err(e) => Err(e),
    }
}

/// The statement that the bytes `s` begin with. What follows the statement
/// is not looked at.
pub open spec fn spec_parse(s: Seq<u8>) -> Result<SqlQueryView, ParseError> {
    match spec_sql_query(s, 0) {
        Ok((q, _)) => Ok(q),
        Err(e) => Err(e),
    }
}

/// Reads a statement, and gives the rest of the input and the statement,
/// which is valid.
pub fn sql_query<'a>(i: &'a [u8]) -> (r: Result<(&'a [u8], SqlQuery), ParseError>)
    ensures
        match spec_sql_query(i@, 0) {
            Ok((q, end)) => r is Ok && r->Ok_0.0@ == i@.skip(end) && r->Ok_0.1@ == q,
            Err(e) => r is Err && r->Err_0 == e,
        },
        r is Ok ==> valid_query(r->Ok_0.1@),
{
    match create::creation_at(i, 0) {
        Ok((c, end)) => Ok((slice_subrange(i, end, i.len()), SqlQuery::CreateTable(c))),
        Err(e) => Err(e),
    }
}

/// Whether the statement is one that the grammar gives.
pub open spec fn valid_query(q: SqlQueryView) -> bool {
    match q {
        SqlQueryView::CreateTable(c) => valid::valid_statement(c),
    }
}

/// Parses the statement that `input` begins with. The statement is valid.
pub fn parse_query_bytes(input: &[u8]) -> (r: Result<SqlQuery, ParseError>)
    ensures
        match spec_parse(input@) {
            Ok(q) => r is Ok && r->Ok_0@ == q,
            Err(e) => r is Err && r->Err_0 == e,
        },
        r is Ok ==> valid_query(r->Ok_0@),
{
    match create::creation_at(input, 0) {
        Ok((c, _)) => Ok(SqlQuery::CreateTable(c)),
        Err(e) => Err(e),
    }
}

/// White space, as `char::is_whitespace` tells it: the characters with the
/// Unicode property `White_Space`.
pub open spec fn is_whitespace(c: char) -> bool {
    let u = c as u32;
    (0x9 <= u <= 0xd) || u == 0x20 || u == 0x85 || u == 0xa0 || u == 0x1680 || (0x2000 <= u
        <= 0x200a) || u == 0x2028 || u == 0x2029 || u == 0x202f || u == 0x205f || u == 0x3000
}

/// The end of the white space that `c` has from `n` on.
pub open spec fn leading_space_end(c: Seq<char>, n: int) -> int
    decreases c.len() - n,
{
    if 0 <= n < c.len() && is_whitespace(c[n]) {
        leading_space_end(c, n + 1)
    } else {
        n
    }
}

/// The start of the white space that `c` has before `n`.
pub open spec fn trailing_space_start(c: Seq<char>, n: int) -> int
    decreases n,
{
    if 0 < n <= c.len() && is_whitespace(c[n - 1]) {
        trailing_space_start(c, n - 1)
    } else {
        n
    }
}

/// The text `c` without the white space at its start and at its end.
pub open spec fn spec_trim(c: Seq<char>) -> Seq<char> {
    let start = leading_space_end(c, 0);
    let end = trailing_space_start(c, c.len() as int);
    if start < end {
        c.subrange(start, end)
    } else {
        seq![]
    }
}

/// `str::trim`: the text without its leading and trailing white space.
#[verifier::external_body]
fn trim(s: &str) -> (r: &str)
    ensures
        r@ == spec_trim(s@),
{
    s.trim()
}

/// Parses the statement that `input` begins with, white space at its start
/// and at its end set aside. The statement is valid.
pub fn parse_query(input: &str) -> (r: Result<SqlQuery, ParseError>)
    ensures
        match spec_parse(encode_utf8(spec_trim(input@))) {
            Ok(q) => r is Ok && r->Ok_0@ == q,
            Err(e) => r is Err && r->Err_0 == e,
        },
        r is Ok ==> valid_query(r->Ok_0@),
{
    parse_query_bytes(trim(input).as_bytes())
}

} // verus!
