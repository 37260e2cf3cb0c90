//! Table references.

use vstd::prelude::*;
use vstd::slice::slice_subrange;
use vstd::string::StringExecFns;
use vstd::utf8::encode_utf8;
use crate::error::{syntax, ErrorKind, ParseError};
use crate::ident::{identifier_at, push_escaped, spec_sql_identifier};
use crate::keywords::spec_escape;
use crate::scan::{byte_at, is_byte_at, lit, space1, tag_no_case, word_end, ws_end};
use crate::text::{capture, push_str, spec_capture};
use crate::types::opt_text;

verus! {

/// A table, with the schema it lies in and the alias it goes by, if any.
#[derive(Clone, Debug, Default, Eq, Hash, PartialEq)]
pub struct Table {
    pub name: String,
    pub alias: Option<String>,
    pub schema: Option<String>,
}

/// The model of a [`Table`]: texts are sequences of bytes.
pub struct TableView {
    pub name: Seq<u8>,
    pub alias: Option<Seq<u8>>,
    pub schema: Option<Seq<u8>>,
}

impl View for Table {
    type V = TableView;

    open spec fn view(&self) -> TableView {
        TableView {
            name: encode_utf8(self.name@),
            alias: opt_text(self.alias),
            schema: opt_text(self.schema),
        }
    }
}

/// The canonical text of a table reference: `schema.name AS alias`, each
/// identifier escaped, the schema and the alias only where there is one.
pub open spec fn print_table(t: TableView) -> Seq<u8> {
    (match t.schema {
        Some(schema) => spec_escape(schema) + lit("."),
        None => seq![],
    }) + spec_escape(t.name) + (match t.alias {
        Some(alias) => lit(" AS ") + spec_escape(alias),
        None => seq![],
    })
}

/// Appends the canonical text of a table reference.
pub fn push_table(out: &mut String, t: &Table)
    ensures
        encode_utf8(final(out)@) == encode_utf8(old(out)@) + print_table(t@),
{
    let ghost before = encode_utf8(out@);
    match &t.schema {
        Some(schema) => {
            push_escaped(out, schema.as_str());
            push_str(out, ".");
        },
        None => {},
    }
    let ghost middle = encode_utf8(out@);
    assert(middle =~= before + (match t@.schema {
        Some(schema) => spec_escape(schema) + lit("."),
        None => seq![],
    }));
    push_escaped(out, t.name.as_str());
    match &t.alias {
        Some(alias) => {
            push_str(out, " AS ");
            push_escaped(out, alias.as_str());
            assert(encode_utf8(out@) =~= middle + spec_escape(t@.name) + (lit(" AS ") + spec_escape(
                encode_utf8(alias@),
            )));
        },
        None => {
            assert(encode_utf8(out@) =~= middle + spec_escape(t@.name) + Seq::<u8>::empty());
        },
    }
    assert(encode_utf8(out@) =~= before + print_table(t@));
}

impl Table {
    /// The canonical text of the table reference.
    pub fn to_string(&self) -> (r: String)
        ensures
            encode_utf8(r@) == print_table(self@),
    {
        let mut out = String::new();
        push_table(&mut out, self);
        assert(encode_utf8(Seq::<char>::empty()) + print_table(self@) =~= print_table(self@));
        out
    }
}

impl<'a> vstd::std_specs::convert::FromSpecImpl<&'a str> for Table {
    open spec fn obeys_from_spec() -> bool {
        false
    }

    open spec fn from_spec(t: &'a str) -> Table {
        arbitrary()
    }
}

impl<'a> From<&'a str> for Table {
    /// The table of the given name, with no schema and no alias.
    fn from(t: &'a str) -> (r: Table)
        ensures
            r@ == (TableView { name: encode_utf8(t@), alias: None, schema: None }),
    {
        Table { name: String::from_str(t), alias: None, schema: None }
    }
}

impl<'a> vstd::std_specs::convert::FromSpecImpl<(&'a str, &'a str)> for Table {
    open spec fn obeys_from_spec() -> bool {
        false
    }

    open spec fn from_spec(t: (&'a str, &'a str)) -> Table {
        arbitrary()
    }
}

impl<'a> From<(&'a str, &'a str)> for Table {
    /// The table of the given schema and name, in this order, with no alias.
    fn from(t: (&'a str, &'a str)) -> (r: Table)
        ensures
            r@ == (TableView {
                name: encode_utf8(t.1@),
                alias: None,
                schema: Some(encode_utf8(t.0@)),
            }),
    {
        Table { name: String::from_str(t.1), alias: None, schema: Some(String::from_str(t.0)) }
    }
}

/// The alias at `pos`: white space, the word `AS` and white space or
/// neither, and an identifier. Gives the name as a range, and the end.
pub open spec fn spec_as_alias(s: Seq<u8>, pos: int) -> Result<((int, int), int), ParseError> {
    let start = ws_end(s, pos);
    if start <= pos {
        Err(syntax(ErrorKind::Space, pos))
    } else {
        match word_end(s, start, lit("as")) {
            Some(w) => if ws_end(s, w) > w {
                spec_sql_identifier(s, ws_end(s, w))
            } else {
                spec_sql_identifier(s, start)
            },
            None => spec_sql_identifier(s, start),
        }
    }
}

/// The alias at `pos`.
pub fn as_alias_at(buf: &[u8], pos: usize) -> (r: Result<((usize, usize), usize), ParseError>)
    requires
        pos <= buf.len(),
    ensures
        crate::ident::agrees_span(r, spec_as_alias(buf@, pos as int)),
        r is Ok ==> pos < r->Ok_0.0.0 < r->Ok_0.0.1 <= r->Ok_0.1 <= buf.len(),
{
    let start = match space1(buf, pos) {
        Some(start) => start,
        None => {
            return Err(ParseError::Syntax { kind: ErrorKind::Space, position: pos });
        },
    };
    let name = match tag_no_case(buf, start, "as") {
        Some(w) => match space1(buf, w) {
            Some(name) => name,
            None => start,
        },
        None => start,
    };
    identifier_at(buf, name)
}

/// Reads an alias behind white space, with or without the word `AS`, and
/// gives the rest of the input and the alias.
pub fn as_alias<'a>(i: &'a [u8]) -> (r: Result<(&'a [u8], String), ParseError>)
    ensures
        match spec_as_alias(i@, 0) {
            Ok(((a, b), end)) => match spec_capture(i@, a, b) {
                Ok(t) => r is Ok && r->Ok_0.0@ == i@.skip(end) && encode_utf8(r->Ok_0.1@) == t,
                Err(e) => r is Err && r->Err_0 == e,
            },
            Err(e) => r is Err && r->Err_0 == e,
        },
{
    let ((a, b), end) = as_alias_at(i, 0)?;
    let alias = capture(i, a, b)?;
    Ok((slice_subrange(i, end, i.len()), alias))
}

/// The text of an optional range of `s`.
pub open spec fn spec_capture_opt(s: Seq<u8>, span: Option<(int, int)>) -> Result<
    Option<Seq<u8>>,
    ParseError,
> {
    match span {
        None => Ok(None),
        Some((a, b)) => match spec_capture(s, a, b) {
            Ok(t) => Ok(Some(t)),
            Err(e) => Err(e),
        },
    }
}

/// The table reference at `pos`, as ranges of the input: the schema if an
/// identifier and a dot come first, the name, and the alias if one follows.
pub open spec fn spec_table_spans(s: Seq<u8>, pos: int) -> Result<
    ((Option<(int, int)>, (int, int), Option<(int, int)>), int),
    ParseError,
> {
    match spec_sql_identifier(s, pos) {
        Err(e) => Err(e),
        Ok((first, first_end)) => {
            let named = if byte_at(s, first_end, '.' as u8) {
                match spec_sql_identifier(s, first_end + 1) {
                    Err(e) => Err(e),
                    Ok((name, end)) => Ok((Some(first), name, end)),
                }
            } else {
                Ok((None, first, first_end))
            };
            match named {
                Err(e) => Err(e),
                Ok((schema, name, end)) => match spec_as_alias(s, end) {
                    Ok((alias, alias_end)) => Ok(((schema, name, Some(alias)), alias_end)),
                    Err(_) => Ok(((schema, name, None), end)),
                },
            }
        },
    }
}

/// The table reference at `pos`: `schema.name alias`, the schema and the
/// alias only where they are written. Its texts must be valid UTF-8.
#[verifier::opaque]
pub open spec fn spec_schema_table_reference(s: Seq<u8>, pos: int) -> Result<
    (TableView, int),
    ParseError,
> {
    match spec_table_spans(s, pos) {
        Err(e) => Err(e),
        Ok(((schema, name, alias), end)) => match spec_capture(s, name.0, name.1) {
            Err(e) => Err(e),
            Ok(name) => match spec_capture_opt(s, alias) {
                Err(e) => Err(e),
                Ok(alias) => match spec_capture_opt(s, schema) {
                    Err(e) => Err(e),
                    Ok(schema) => Ok((TableView { name, alias, schema }, end)),
                },
            },
        },
    }
}

/// The text of an optional range of `buf`.
pub fn capture_opt(buf: &[u8], span: Option<(usize, usize)>) -> (r: Result<
    Option<String>,
    ParseError,
>)
    requires
        match span {
            Some((a, b)) => a <= b <= buf.len(),
            None => true,
        },
    ensures
        match spec_capture_opt(
            buf@,
            match span {
                Some((a, b)) => Some((a as int, b as int)),
                None => None,
            },
        ) {
            Ok(t) => r is Ok && opt_text(r->Ok_0) == t,
            Err(e) => r is Err && r->Err_0 == e,
        },
{
    match span {
        None => Ok(None),
        Some((a, b)) => {
            let t = capture(buf, a, b)?;
            Ok(Some(t))
        },
    }
}

/// The table reference at `pos`.
pub fn schema_table_reference_at(buf: &[u8], pos: usize) -> (r: Result<(Table, usize), ParseError>)
    requires
        pos <= buf.len(),
    ensures
        crate::error::agrees(r, spec_schema_table_reference(buf@, pos as int)),
        r is Ok ==> pos < r->Ok_0.1 <= buf.len(),
{
    proof {
        reveal(spec_schema_table_reference);
    }
    let (first, first_end) = identifier_at(buf, pos)?;
    let (schema, name, end) = if is_byte_at(buf, first_end, 46) {
        let (name, end) = identifier_at(buf, first_end + 1)?;
        (Some(first), name, end)
    } else {
        (None, first, first_end)
    };
    let (alias, end) = match as_alias_at(buf, end) {
        Ok((alias, alias_end)) => (Some(alias), alias_end),
        Err(_) => (None, end),
    };
    let name = capture(buf, name.0, name.1)?;
    let alias = capture_opt(buf, alias)?;
    let schema = capture_opt(buf, schema)?;
    Ok((Table { name, alias, schema }, end))
}

/// Reads a table reference, and gives the rest of the input and the table.
pub fn schema_table_reference<'a>(i: &'a [u8]) -> (r: Result<(&'a [u8], Table), ParseError>)
    ensures
        match spec_schema_table_reference(i@, 0) {
            Ok((t, end)) => r is Ok && r->Ok_0.0@ == i@.skip(end) && r->Ok_0.1@ == t,
            Err(e) => r is Err && r->Err_0 == e,
        },
{
    match schema_table_reference_at(i, 0) {
        Ok((t, end)) => Ok((slice_subrange(i, end, i.len()), t)),
        Err(e) => Err(e),
    }
}

} // verus!
