//! Type specifiers: the data, their canonical text, and the grammar.

use vstd::prelude::*;
use vstd::slice::slice_subrange;
use vstd::utf8::encode_utf8;
use crate::error::{agrees, failure, gave_up, gives_up, syntax, ErrorKind, ParseError, Violation};
use crate::scan::{
    byte_at, is_byte_at, is_digit, lit, sep_comma_at, sep_comma_end, skip_ws, tag, tag_end,
    tag_no_case, word_end, ws_end, MAX_NESTING,
};
use crate::text::{
    decimal, digits_at, push_decimal, push_str, single_quoted_at, spec_digits, spec_single_quoted,
};

verus! {

/// The width in bits of an `Enum`.
#[derive(Clone, Copy, Debug, Eq, PartialEq, Hash)]
pub enum TypeSize16 {
    B8,
    B16,
}

/// The width in bits of an integer type.
#[derive(Clone, Copy, Debug, Eq, PartialEq, Hash)]
pub enum TypeSize {
    B8,
    B16,
    B32,
    B64,
}

/// A type of a column.
#[derive(Debug, Eq, Hash, PartialEq)]
pub enum SqlType {
    String,
    Int(TypeSize),
    UnsignedInt(TypeSize),
    /// The width, if it is written, and the names with their values, in order.
    Enum(Option<TypeSize16>, Vec<(String, i16)>),
    Date,
    /// The time zone, if it is written.
    DateTime(Option<String>),
    /// The precision, a digit, and the time zone, if it is written.
    DateTime64(u8, Option<String>),
    Float32,
    Float64,
    FixedString(usize),
    IPv4,
    IPv6,
    UUID,
    Array(Box<SqlTypeOpts>),
}

/// A type with its wrappers `Nullable` and `LowCardinality`.
#[derive(Debug, Eq, Hash, PartialEq)]
pub struct SqlTypeOpts {
    pub ftype: SqlType,
    pub nullable: bool,
    pub lowcardinality: bool,
}

/// The model of a [`SqlType`]: texts are sequences of bytes.
pub enum SqlTypeView {
    String,
    Int(TypeSize),
    UnsignedInt(TypeSize),
    Enum(Option<TypeSize16>, Seq<(Seq<u8>, i16)>),
    Date,
    DateTime(Option<Seq<u8>>),
    DateTime64(u8, Option<Seq<u8>>),
    Float32,
    Float64,
    FixedString(usize),
    IPv4,
    IPv6,
    UUID,
    Array(Box<SqlTypeOptsView>),
}

/// The model of a [`SqlTypeOpts`].
pub struct SqlTypeOptsView {
    pub ftype: SqlTypeView,
    pub nullable: bool,
    pub lowcardinality: bool,
}

/// The bytes of an optional text.
pub open spec fn opt_text(t: Option<String>) -> Option<Seq<u8>> {
    match t {
        Some(t) => Some(encode_utf8(t@)),
        None => None,
    }
}

/// The model of the entries of an `Enum`.
pub open spec fn enum_entries(values: Seq<(String, i16)>) -> Seq<(Seq<u8>, i16)> {
    Seq::new(values.len(), |i: int| (encode_utf8(values[i].0@), values[i].1))
}

/// The model of a type.
pub open spec fn type_view(t: SqlType) -> SqlTypeView
    decreases t,
{
    match t {
        SqlType::String => SqlTypeView::String,
        SqlType::Int(size) => SqlTypeView::Int(size),
        SqlType::UnsignedInt(size) => SqlTypeView::UnsignedInt(size),
        SqlType::Enum(size, values) => SqlTypeView::Enum(size, enum_entries(values@)),
        SqlType::Date => SqlTypeView::Date,
        SqlType::DateTime(zone) => SqlTypeView::DateTime(opt_text(zone)),
        SqlType::DateTime64(precision, zone) => SqlTypeView::DateTime64(precision, opt_text(zone)),
        SqlType::Float32 => SqlTypeView::Float32,
        SqlType::Float64 => SqlTypeView::Float64,
        SqlType::FixedString(size) => SqlTypeView::FixedString(size),
        SqlType::IPv4 => SqlTypeView::IPv4,
        SqlType::IPv6 => SqlTypeView::IPv6,
        SqlType::UUID => SqlTypeView::UUID,
        SqlType::Array(inner) => SqlTypeView::Array(
            Box::new(
                SqlTypeOptsView {
                    ftype: type_view(inner.ftype),
                    nullable: inner.nullable,
                    lowcardinality: inner.lowcardinality,
                },
            ),
        ),
    }
}

impl View for SqlType {
    type V = SqlTypeView;

    open spec fn view(&self) -> SqlTypeView {
        type_view(*self)
    }
}

impl View for SqlTypeOpts {
    type V = SqlTypeOptsView;

    open spec fn view(&self) -> SqlTypeOptsView {
        SqlTypeOptsView {
            ftype: type_view(self.ftype),
            nullable: self.nullable,
            lowcardinality: self.lowcardinality,
        }
    }
}

/// A copy of an optional text.
pub fn clone_opt_text(t: &Option<String>) -> (r: Option<String>)
    ensures
        opt_text(r) == opt_text(*t),
{
    match t {
        Some(t) => Some(t.clone()),
        None => None,
    }
}

/// A copy of the entries of an `Enum`.
pub fn clone_enum_entries(values: &Vec<(String, i16)>) -> (r: Vec<(String, i16)>)
    ensures
        enum_entries(r@) == enum_entries(values@),
{
    let mut out: Vec<(String, i16)> = Vec::new();
    let mut i: usize = 0;
    while i < values.len()
        invariant
            i <= values.len(),
            out.len() == i,
            forall|j: int| 0 <= j < i ==> out@[j].0@ == values@[j].0@ && out@[j].1 == values@[j].1,
        decreases values.len() - i,
    {
        out.push((values[i].0.clone(), values[i].1));
        i = i + 1;
    }
    assert(enum_entries(out@) =~= enum_entries(values@));
    out
}

/// A copy of a type.
pub fn clone_type(t: &SqlType) -> (r: SqlType)
    ensures
        r@ == t@,
    decreases t,
{
    match t {
        SqlType::String => SqlType::String,
        SqlType::Int(size) => SqlType::Int(*size),
        SqlType::UnsignedInt(size) => SqlType::UnsignedInt(*size),
        SqlType::Enum(size, values) => SqlType::Enum(*size, clone_enum_entries(values)),
        SqlType::Date => SqlType::Date,
        SqlType::DateTime(zone) => SqlType::DateTime(clone_opt_text(zone)),
        SqlType::DateTime64(precision, zone) => SqlType::DateTime64(
            *precision,
            clone_opt_text(zone),
        ),
        SqlType::Float32 => SqlType::Float32,
        SqlType::Float64 => SqlType::Float64,
        SqlType::FixedString(size) => SqlType::FixedString(*size),
        SqlType::IPv4 => SqlType::IPv4,
        SqlType::IPv6 => SqlType::IPv6,
        SqlType::UUID => SqlType::UUID,
        SqlType::Array(inner) => SqlType::Array(
            Box::new(
                SqlTypeOpts {
                    ftype: clone_type(&inner.ftype),
                    nullable: inner.nullable,
                    lowcardinality: inner.lowcardinality,
                },
            ),
        ),
    }
}

impl Clone for SqlType {
    fn clone(&self) -> (r: Self)
        ensures
            r@ == self@,
    {
        clone_type(self)
    }
}

impl Clone for SqlTypeOpts {
    fn clone(&self) -> (r: Self)
        ensures
            r@ == self@,
    {
        SqlTypeOpts {
            ftype: clone_type(&self.ftype),
            nullable: self.nullable,
            lowcardinality: self.lowcardinality,
        }
    }
}

/// Whether the text holds no single quote.
pub open spec fn no_quote(t: Seq<u8>) -> bool {
    forall|i: int| 0 <= i < t.len() ==> #[trigger] t[i] != '\'' as u8
}

/// Whether the text can stand between single quotes: it is valid UTF-8 and
/// holds no single quote.
pub open spec fn valid_quoted(t: Seq<u8>) -> bool {
    vstd::utf8::valid_utf8(t) && no_quote(t)
}

/// Whether the entries are those of an `Enum` that the grammar reads: there
/// is one at least, and each has a name that can stand between single
/// quotes.
pub open spec fn valid_enum_entries(values: Seq<(Seq<u8>, i16)>) -> bool {
    &&& values.len() >= 1
    &&& forall|i: int| 0 <= i < values.len() ==> valid_quoted((#[trigger] values[i]).0)
}

/// Whether the type is one that the grammar reads with `depth` levels of
/// `Array` to enter: the entries of an `Enum` are valid, a time zone can
/// stand between single quotes, a precision is one digit, and the types in
/// an `Array` are valid with one level less.
pub open spec fn valid_type(t: SqlTypeView, depth: nat) -> bool
    decreases t,
{
    match t {
        SqlTypeView::Enum(_, values) => valid_enum_entries(values),
        SqlTypeView::DateTime(Some(zone)) => valid_quoted(zone),
        SqlTypeView::DateTime64(precision, zone) => precision <= 9 && (match zone {
            Some(zone) => valid_quoted(zone),
            None => true,
        }),
        SqlTypeView::Array(inner) => depth > 0 && valid_type(inner.ftype, (depth - 1) as nat),
        _ => true,
    }
}

/// The digits of a width.
pub open spec fn print_size(size: TypeSize) -> Seq<u8> {
    match size {
        TypeSize::B8 => lit("8"),
        TypeSize::B16 => lit("16"),
        TypeSize::B32 => lit("32"),
        TypeSize::B64 => lit("64"),
    }
}

/// The digits of the width of an `Enum`.
pub open spec fn print_size16(size: TypeSize16) -> Seq<u8> {
    match size {
        TypeSize16::B8 => lit("8"),
        TypeSize16::B16 => lit("16"),
    }
}

/// The decimal text of a signed number.
pub open spec fn print_i16(v: i16) -> Seq<u8> {
    if v < 0 {
        lit("-") + decimal((-v) as nat)
    } else {
        decimal(v as nat)
    }
}

/// The text of one entry of an `Enum`: `'name' = value`.
pub open spec fn print_enum_entry(e: (Seq<u8>, i16)) -> Seq<u8> {
    lit("'") + e.0 + lit("' = ") + print_i16(e.1)
}

/// The text of the first `n` entries of an `Enum`, with `, ` between them.
pub open spec fn print_enum_entries(values: Seq<(Seq<u8>, i16)>, n: int) -> Seq<u8>
    decreases n,
{
    if n <= 0 {
        seq![]
    } else if n == 1 {
        print_enum_entry(values[0])
    } else {
        print_enum_entries(values, n - 1) + lit(", ") + print_enum_entry(values[n - 1])
    }
}

/// The text of an `Enum`: `Enum`, the width if there is one, and the entries
/// in brackets.
pub open spec fn print_enum(size: Option<TypeSize16>, values: Seq<(Seq<u8>, i16)>) -> Seq<u8> {
    lit("Enum") + print_enum_width(size) + lit("(") + print_enum_entries(
        values,
        values.len() as int,
    ) + lit(")")
}

/// The digits of the width of an `Enum`, if it has one.
pub open spec fn print_enum_width(size: Option<TypeSize16>) -> Seq<u8> {
    match size {
        Some(size) => print_size16(size),
        None => seq![],
    }
}

/// The text of a `DateTime`, with the time zone between single quotes.
pub open spec fn print_date_time(zone: Option<Seq<u8>>) -> Seq<u8> {
    match zone {
        None => lit("DateTime"),
        Some(zone) => lit("DateTime('") + zone + lit("')"),
    }
}

/// The text of a `DateTime64`, with the time zone between single quotes.
pub open spec fn print_date_time64(precision: u8, zone: Option<Seq<u8>>) -> Seq<u8> {
    match zone {
        None => lit("DateTime64(") + decimal(precision as nat) + lit(")"),
        Some(zone) => lit("DateTime64(") + decimal(precision as nat) + lit(", '") + zone + lit(
            "')",
        ),
    }
}

/// The canonical text of a type.
pub open spec fn print_type(t: SqlTypeView) -> Seq<u8>
    decreases t,
{
    match t {
        SqlTypeView::String => lit("String"),
        SqlTypeView::Int(size) => lit("Int") + print_size(size),
        SqlTypeView::UnsignedInt(size) => lit("UInt") + print_size(size),
        SqlTypeView::Enum(size, values) => print_enum(size, values),
        SqlTypeView::Date => lit("Date"),
        SqlTypeView::DateTime(zone) => print_date_time(zone),
        SqlTypeView::DateTime64(precision, zone) => print_date_time64(precision, zone),
        SqlTypeView::Float32 => lit("Float32"),
        SqlTypeView::Float64 => lit("Float64"),
        SqlTypeView::FixedString(size) => lit("FixedString(") + decimal(size as nat) + lit(")"),
        SqlTypeView::IPv4 => lit("IPv4"),
        SqlTypeView::IPv6 => lit("IPv6"),
        SqlTypeView::UUID => lit("UUID"),
        SqlTypeView::Array(inner) => lit("Array(") + print_wrapped(
            print_type(inner.ftype),
            inner.nullable,
            inner.lowcardinality,
        ) + lit(")"),
    }
}

/// The text `t` of a type inside the wrappers that the two flags ask for.
pub open spec fn print_wrapped(t: Seq<u8>, nullable: bool, lowcardinality: bool) -> Seq<u8> {
    if lowcardinality && nullable {
        lit("LowCardinality(Nullable(") + t + lit("))")
    } else if lowcardinality {
        lit("LowCardinality(") + t + lit(")")
    } else if nullable {
        lit("Nullable(") + t + lit(")")
    } else {
        t
    }
}

/// The canonical text of a type with its wrappers.
pub open spec fn print_type_opts(t: SqlTypeOptsView) -> Seq<u8> {
    print_wrapped(print_type(t.ftype), t.nullable, t.lowcardinality)
}

impl TypeSize {
    /// The width as it is written: `8`, `16`, `32` or `64`.
    pub fn to_string(&self) -> (r: String)
        ensures
            encode_utf8(r@) == print_size(*self),
    {
        let mut out = String::new();
        push_size(&mut out, self);
        assert(encode_utf8(Seq::<char>::empty()) + print_size(*self) =~= print_size(*self));
        out
    }
}

impl TypeSize16 {
    /// The width as it is written: `8` or `16`.
    pub fn to_string(&self) -> (r: String)
        ensures
            encode_utf8(r@) == print_size16(*self),
    {
        let mut out = String::new();
        push_size16(&mut out, self);
        assert(encode_utf8(Seq::<char>::empty()) + print_size16(*self) =~= print_size16(*self));
        out
    }
}

impl SqlType {
    /// The canonical text of the type.
    pub fn to_string(&self) -> (r: String)
        ensures
            encode_utf8(r@) == print_type(self@),
    {
        let mut out = String::new();
        push_type(&mut out, self);
        assert(encode_utf8(Seq::<char>::empty()) + print_type(self@) =~= print_type(self@));
        out
    }
}

impl SqlTypeOpts {
    /// The canonical text of the type in its wrappers.
    pub fn to_string(&self) -> (r: String)
        ensures
            encode_utf8(r@) == print_type_opts(self@),
    {
        let mut out = String::new();
        push_type_opts(&mut out, &self.ftype, self.nullable, self.lowcardinality);
        assert(encode_utf8(Seq::<char>::empty()) + print_type_opts(self@) =~= print_type_opts(
            self@,
        ));
        out
    }
}

/// Appends the digits of a width.
pub fn push_size(out: &mut String, size: &TypeSize)
    ensures
        encode_utf8(final(out)@) == encode_utf8(old(out)@) + print_size(*size),
{
    match size {
        TypeSize::B8 => push_str(out, "8"),
        TypeSize::B16 => push_str(out, "16"),
        TypeSize::B32 => push_str(out, "32"),
        TypeSize::B64 => push_str(out, "64"),
    }
}

/// Appends the digits of the width of an `Enum`.
pub fn push_size16(out: &mut String, size: &TypeSize16)
    ensures
        encode_utf8(final(out)@) == encode_utf8(old(out)@) + print_size16(*size),
{
    match size {
        TypeSize16::B8 => push_str(out, "8"),
        TypeSize16::B16 => push_str(out, "16"),
    }
}

/// Appends the decimal text of `v`.
pub fn push_i16(out: &mut String, v: i16)
    ensures
        encode_utf8(final(out)@) == encode_utf8(old(out)@) + print_i16(v),
{
    if v < 0 {
        push_str(out, "-");
        push_decimal(out, (-(v as i64)) as u64);
        assert(encode_utf8(old(out)@) + lit("-") + decimal((-v) as nat) =~= encode_utf8(old(out)@)
            + print_i16(v));
    } else {
        push_decimal(out, v as u64);
    }
}

/// Appends the entries of an `Enum`, with `, ` between them.
pub fn push_enum_entries(out: &mut String, values: &Vec<(String, i16)>)
    ensures
        encode_utf8(final(out)@) == encode_utf8(old(out)@) + print_enum_entries(
            enum_entries(values@),
            values.len() as int,
        ),
{
    let ghost entries = enum_entries(values@);
    let mut i: usize = 0;
    assert(encode_utf8(out@) =~= encode_utf8(old(out)@) + print_enum_entries(entries, 0));
    while i < values.len()
        invariant
            i <= values.len(),
            entries == enum_entries(values@),
            encode_utf8(out@) == encode_utf8(old(out)@) + print_enum_entries(entries, i as int),
        decreases values.len() - i,
    {
        let ghost before = encode_utf8(out@);
        if i > 0 {
            push_str(out, ", ");
        }
        push_str(out, "'");
        push_str(out, values[i].0.as_str());
        push_str(out, "' = ");
        push_i16(out, values[i].1);
        proof {
            let e = entries[i as int];
            assert(e == (encode_utf8(values@[i as int].0@), values@[i as int].1));
            if i > 0 {
                assert(encode_utf8(out@) =~= before + lit(", ") + print_enum_entry(e));
                assert(encode_utf8(out@) =~= encode_utf8(old(out)@) + (print_enum_entries(
                    entries,
                    i as int,
                ) + lit(", ") + print_enum_entry(e)));
            } else {
                assert(encode_utf8(out@) =~= before + print_enum_entry(e));
                assert(encode_utf8(out@) =~= encode_utf8(old(out)@) + print_enum_entry(e));
            }
        }
        i = i + 1;
    }
}

/// Appends the text of an `Enum`.
pub fn push_enum(out: &mut String, size: &Option<TypeSize16>, values: &Vec<(String, i16)>)
    ensures
        encode_utf8(final(out)@) == encode_utf8(old(out)@) + print_enum(
            *size,
            enum_entries(values@),
        ),
{
    let ghost before = encode_utf8(out@);
    push_str(out, "Enum");
    match size {
        Some(size) => push_size16(out, size),
        None => {
            assert(encode_utf8(out@) =~= before + lit("Enum") + print_enum_width(*size));
        },
    }
    push_str(out, "(");
    push_enum_entries(out, values);
    push_str(out, ")");
    assert(encode_utf8(out@) =~= before + print_enum(*size, enum_entries(values@)));
}

/// Appends the text of a `DateTime`.
pub fn push_date_time(out: &mut String, zone: &Option<String>)
    ensures
        encode_utf8(final(out)@) == encode_utf8(old(out)@) + print_date_time(opt_text(*zone)),
{
    let ghost before = encode_utf8(out@);
    match zone {
        None => push_str(out, "DateTime"),
        Some(zone) => {
            push_str(out, "DateTime('");
            push_str(out, zone.as_str());
            push_str(out, "')");
            assert(encode_utf8(out@) =~= before + (lit("DateTime('") + encode_utf8(zone@) + lit(
                "')",
            )));
        },
    }
}

/// Appends the text of a `DateTime64`.
pub fn push_date_time64(out: &mut String, precision: u8, zone: &Option<String>)
    ensures
        encode_utf8(final(out)@) == encode_utf8(old(out)@) + print_date_time64(
            precision,
            opt_text(*zone),
        ),
{
    let ghost before = encode_utf8(out@);
    push_str(out, "DateTime64(");
    push_decimal(out, precision as u64);
    match zone {
        None => {
            push_str(out, ")");
            assert(encode_utf8(out@) =~= before + (lit("DateTime64(") + decimal(precision as nat)
                + lit(")")));
        },
        Some(zone) => {
            push_str(out, ", '");
            push_str(out, zone.as_str());
            push_str(out, "')");
            assert(encode_utf8(out@) =~= before + (lit("DateTime64(") + decimal(precision as nat)
                + lit(", '") + encode_utf8(zone@) + lit("')")));
        },
    }
}

/// Appends the canonical text of a type.
pub fn push_type(out: &mut String, t: &SqlType)
    ensures
        encode_utf8(final(out)@) == encode_utf8(old(out)@) + print_type(t@),
    decreases t, 0int,
{
    let ghost before = encode_utf8(out@);
    match t {
        SqlType::String => push_str(out, "String"),
        SqlType::Int(size) => {
            push_str(out, "Int");
            push_size(out, size);
            assert(encode_utf8(out@) =~= before + (lit("Int") + print_size(*size)));
        },
        SqlType::UnsignedInt(size) => {
            push_str(out, "UInt");
            push_size(out, size);
            assert(encode_utf8(out@) =~= before + (lit("UInt") + print_size(*size)));
        },
        SqlType::Enum(size, values) => push_enum(out, size, values),
        SqlType::Date => push_str(out, "Date"),
        SqlType::DateTime(zone) => push_date_time(out, zone),
        SqlType::DateTime64(precision, zone) => push_date_time64(out, *precision, zone),
        SqlType::Float32 => push_str(out, "Float32"),
        SqlType::Float64 => push_str(out, "Float64"),
        SqlType::FixedString(size) => {
            push_str(out, "FixedString(");
            push_decimal(out, *size as u64);
            push_str(out, ")");
            assert(encode_utf8(out@) =~= before + (lit("FixedString(") + decimal(*size as nat)
                + lit(")")));
        },
        SqlType::IPv4 => push_str(out, "IPv4"),
        SqlType::IPv6 => push_str(out, "IPv6"),
        SqlType::UUID => push_str(out, "UUID"),
        SqlType::Array(inner) => {
            push_str(out, "Array(");
            push_type_opts(out, &inner.ftype, inner.nullable, inner.lowcardinality);
            push_str(out, ")");
            assert(encode_utf8(out@) =~= before + (lit("Array(") + print_wrapped(
                print_type(inner.ftype@),
                inner.nullable,
                inner.lowcardinality,
            ) + lit(")")));
        },
    }
}

/// Appends the canonical text of a type inside the wrappers that the two
/// flags ask for.
pub fn push_type_opts(out: &mut String, t: &SqlType, nullable: bool, lowcardinality: bool)
    ensures
        encode_utf8(final(out)@) == encode_utf8(old(out)@) + print_wrapped(
            print_type(t@),
            nullable,
            lowcardinality,
        ),
    decreases t, 1int,
{
    let ghost before = encode_utf8(out@);
    if lowcardinality && nullable {
        push_str(out, "LowCardinality(Nullable(");
        push_type(out, t);
        push_str(out, "))");
        assert(encode_utf8(out@) =~= before + (lit("LowCardinality(Nullable(") + print_type(t@)
            + lit("))")));
    } else if lowcardinality {
        push_str(out, "LowCardinality(");
        push_type(out, t);
        push_str(out, ")");
        assert(encode_utf8(out@) =~= before + (lit("LowCardinality(") + print_type(t@) + lit(")")));
    } else if nullable {
        push_str(out, "Nullable(");
        push_type(out, t);
        push_str(out, ")");
        assert(encode_utf8(out@) =~= before + (lit("Nullable(") + print_type(t@) + lit(")")));
    } else {
        push_type(out, t);
    }
}

/// The width `8`, `16`, `32` or `64` at `pos`.
pub open spec fn spec_type_size_suffix64(s: Seq<u8>, pos: int) -> Result<(TypeSize, int), ParseError> {
    if let Some(end) = tag_end(s, pos, lit("8")) {
        Ok((TypeSize::B8, end))
    } else if let Some(end) = tag_end(s, pos, lit("16")) {
        Ok((TypeSize::B16, end))
    } else if let Some(end) = tag_end(s, pos, lit("32")) {
        Ok((TypeSize::B32, end))
    } else if let Some(end) = tag_end(s, pos, lit("64")) {
        Ok((TypeSize::B64, end))
    } else {
        Err(syntax(ErrorKind::Tag, pos))
    }
}

/// The width `8` or `16` at `pos`.
pub open spec fn spec_type_size_suffix16(s: Seq<u8>, pos: int) -> Result<
    (TypeSize16, int),
    ParseError,
> {
    if let Some(end) = tag_end(s, pos, lit("8")) {
        Ok((TypeSize16::B8, end))
    } else if let Some(end) = tag_end(s, pos, lit("16")) {
        Ok((TypeSize16::B16, end))
    } else {
        Err(syntax(ErrorKind::Tag, pos))
    }
}

/// The digits between brackets at `pos`, with no white space: the number
/// they spell, and the position behind the closing bracket.
pub open spec fn spec_delim_digit(s: Seq<u8>, pos: int) -> Result<(u64, int), ParseError> {
    if !byte_at(s, pos, '(' as u8) {
        Err(syntax(ErrorKind::Tag, pos))
    } else {
        match spec_digits(s, pos + 1) {
            Err(e) => Err(e),
            Ok((v, end)) => if byte_at(s, end, ')' as u8) {
                Ok((v, end + 1))
            } else {
                Err(syntax(ErrorKind::Tag, end))
            },
        }
    }
}

/// The signed number of 16 bits at `pos`: digits, or `-` and digits. A
/// number below `i16::MIN` or above `i16::MAX` is a failure.
pub open spec fn spec_signed16(s: Seq<u8>, pos: int) -> Result<(i16, int), ParseError> {
    if byte_at(s, pos, '-' as u8) {
        match spec_digits(s, pos + 1) {
            Err(e) => Err(e),
            Ok((v, end)) => if v <= -(i16::MIN as int) {
                Ok(((0 - v) as i16, end))
            } else {
                Err(failure(Violation::EnumValueBelow(v), pos))
            },
        }
    } else {
        match spec_digits(s, pos) {
            Err(e) => Err(e),
            Ok((v, end)) => if v <= i16::MAX {
                Ok((v as i16, end))
            } else {
                Err(failure(Violation::EnumValue(v), pos))
            },
        }
    }
}

/// One entry of an `Enum` at `pos`: white space, a name between single
/// quotes, `=`, and a signed number of 16 bits, with white space around `=`.
pub open spec fn spec_enum_value(s: Seq<u8>, pos: int) -> Result<((Seq<u8>, i16), int), ParseError> {
    match spec_single_quoted(s, ws_end(s, pos)) {
        Err(e) => Err(e),
        Ok((name, name_end)) => {
            let eq = ws_end(s, name_end);
            if !byte_at(s, eq, '=' as u8) {
                Err(syntax(ErrorKind::Tag, eq))
            } else {
                match spec_signed16(s, ws_end(s, eq + 1)) {
                    Err(e) => Err(e),
                    Ok((v, end)) => Ok(((name, v), end)),
                }
            }
        },
    }
}

/// The entries that follow the entries `acc`, which end at `pos`: each
/// behind a comma.
pub open spec fn spec_enum_values_tail(
    s: Seq<u8>,
    pos: int,
    acc: Seq<(Seq<u8>, i16)>,
) -> Result<(Seq<(Seq<u8>, i16)>, int), ParseError>
    decreases s.len() - pos,
{
    match sep_comma_end(s, pos) {
        None => Ok((acc, pos)),
        Some(next) => match spec_enum_value(s, next) {
            Err(e) => if e is Failure {
                Err(e)
            } else {
                Ok((acc, pos))
            },
            Ok((v, end)) => if pos < end <= s.len() {
                spec_enum_values_tail(s, end, acc.push(v))
            } else {
                Ok((acc, pos))
            },
        },
    }
}

/// The entries of an `Enum` at `pos`: one or more, with commas between them.
pub open spec fn spec_enum_values(s: Seq<u8>, pos: int) -> Result<
    (Seq<(Seq<u8>, i16)>, int),
    ParseError,
> {
    match spec_enum_value(s, pos) {
        Err(e) => Err(e),
        Ok((v, end)) => spec_enum_values_tail(s, end, seq![v]),
    }
}

/// `Int` and a width.
pub open spec fn spec_int_type(s: Seq<u8>, pos: int) -> Result<(SqlTypeView, int), ParseError> {
    match word_end(s, pos, lit("int")) {
        None => Err(syntax(ErrorKind::Tag, pos)),
        Some(p) => match spec_type_size_suffix64(s, p) {
            Err(e) => Err(e),
            Ok((size, end)) => Ok((SqlTypeView::Int(size), end)),
        },
    }
}

/// `UInt` and a width.
pub open spec fn spec_uint_type(s: Seq<u8>, pos: int) -> Result<(SqlTypeView, int), ParseError> {
    match word_end(s, pos, lit("uint")) {
        None => Err(syntax(ErrorKind::Tag, pos)),
        Some(p) => match spec_type_size_suffix64(s, p) {
            Err(e) => Err(e),
            Ok((size, end)) => Ok((SqlTypeView::UnsignedInt(size), end)),
        },
    }
}

/// `Enum`, a width or none, and the entries between brackets.
pub open spec fn spec_enum_type(s: Seq<u8>, pos: int) -> Result<(SqlTypeView, int), ParseError> {
    match word_end(s, pos, lit("enum")) {
        None => Err(syntax(ErrorKind::Tag, pos)),
        Some(p) => {
            let (size, open) = match spec_type_size_suffix16(s, p) {
                Ok((size, end)) => (Some(size), end),
                Err(_) => (None, p),
            };
            if !byte_at(s, open, '(' as u8) {
                Err(syntax(ErrorKind::Tag, open))
            } else {
                match spec_enum_values(s, open + 1) {
                    Err(e) => Err(e),
                    Ok((values, end)) => if byte_at(s, end, ')' as u8) {
                        Ok((SqlTypeView::Enum(size, values), end + 1))
                    } else {
                        Err(syntax(ErrorKind::Tag, end))
                    },
                }
            }
        },
    }
}

/// A type that is one word, in any case.
pub open spec fn spec_word_type(s: Seq<u8>, pos: int, word: Seq<u8>, t: SqlTypeView) -> Result<
    (SqlTypeView, int),
    ParseError,
> {
    match word_end(s, pos, word) {
        None => Err(syntax(ErrorKind::Tag, pos)),
        Some(end) => Ok((t, end)),
    }
}

/// The time zone of a `DateTime64` at `pos`, if one is written there: a
/// comma, white space, the zone between single quotes.
pub open spec fn spec_zone_after_comma(s: Seq<u8>, pos: int) -> Result<
    (Option<Seq<u8>>, int),
    ParseError,
> {
    if !byte_at(s, pos, ',' as u8) {
        Ok((None, pos))
    } else {
        match spec_single_quoted(s, ws_end(s, pos + 1)) {
            Ok((zone, end)) => Ok((Some(zone), end)),
            Err(e) => if e is Failure {
                Err(e)
            } else {
                Ok((None, pos))
            },
        }
    }
}

/// `DateTime64 ( digit )` or `DateTime64 ( digit , 'zone' )`.
pub open spec fn spec_date_time64_type(s: Seq<u8>, pos: int) -> Result<
    (SqlTypeView, int),
    ParseError,
> {
    match word_end(s, pos, lit("datetime64")) {
        None => Err(syntax(ErrorKind::Tag, pos)),
        Some(p) => {
            let open = ws_end(s, p);
            let digit = ws_end(s, open + 1);
            if !byte_at(s, open, '(' as u8) {
                Err(syntax(ErrorKind::Tag, open))
            } else if !(0 <= digit < s.len() && is_digit(s[digit])) {
                Err(syntax(ErrorKind::Digit, digit))
            } else {
                match spec_zone_after_comma(s, ws_end(s, digit + 1)) {
                    Err(e) => Err(e),
                    Ok((zone, zone_end)) => {
                        let close = ws_end(s, zone_end);
                        if byte_at(s, close, ')' as u8) {
                            Ok(
                                (
                                    SqlTypeView::DateTime64((s[digit] - '0' as u8) as u8, zone),
                                    close + 1,
                                ),
                            )
                        } else {
                            Err(syntax(ErrorKind::Tag, close))
                        }
                    },
                }
            }
        },
    }
}

/// The time zone of a `DateTime` at `pos`, if one is written there: the
/// zone between single quotes, between brackets.
pub open spec fn spec_zone_in_brackets(s: Seq<u8>, pos: int) -> Result<
    (Option<Seq<u8>>, int),
    ParseError,
> {
    if !byte_at(s, pos, '(' as u8) {
        Ok((None, pos))
    } else {
        match spec_single_quoted(s, ws_end(s, pos + 1)) {
            Ok((zone, end)) => if byte_at(s, ws_end(s, end), ')' as u8) {
                Ok((Some(zone), ws_end(s, end) + 1))
            } else {
                Ok((None, pos))
            },
            Err(e) => if e is Failure {
                Err(e)
            } else {
                Ok((None, pos))
            },
        }
    }
}

/// `DateTime`, white space, and a time zone or none.
pub open spec fn spec_date_time_type(s: Seq<u8>, pos: int) -> Result<
    (SqlTypeView, int),
    ParseError,
> {
    match word_end(s, pos, lit("datetime")) {
        None => Err(syntax(ErrorKind::Tag, pos)),
        Some(p) => match spec_zone_in_brackets(s, ws_end(s, p)) {
            Err(e) => Err(e),
            Ok((zone, end)) => Ok((SqlTypeView::DateTime(zone), end)),
        },
    }
}

/// `FixedString(size)`, with no white space.
pub open spec fn spec_fixed_string_type(s: Seq<u8>, pos: int) -> Result<
    (SqlTypeView, int),
    ParseError,
> {
    match word_end(s, pos, lit("FixedString")) {
        None => Err(syntax(ErrorKind::Tag, pos)),
        Some(p) => match spec_delim_digit(s, p) {
            Err(e) => Err(e),
            Ok((v, end)) => if v <= usize::MAX {
                Ok((SqlTypeView::FixedString(v as usize), end))
            } else {
                Err(failure(Violation::FixedStringSize(v), p + 1))
            },
        },
    }
}

/// A type without wrappers at `pos`: the first that matches of `Int`,
/// `UInt`, `Enum`, `String`, `Float32`, `Float64`, `DateTime64`,
/// `DateTime`, `Date`, `FixedString`, `IPv4`, `IPv6`, `UUID` and `Array`,
/// each in any case. `depth` is how many more levels of `Array` may be
/// entered.
pub open spec fn spec_type_identifier(s: Seq<u8>, pos: int, depth: nat) -> Result<
    (SqlTypeView, int),
    ParseError,
>
    decreases depth, 1int,
{
    if !gives_up(spec_int_type(s, pos)) {
        spec_int_type(s, pos)
    } else if !gives_up(spec_uint_type(s, pos)) {
        spec_uint_type(s, pos)
    } else if !gives_up(spec_enum_type(s, pos)) {
        spec_enum_type(s, pos)
    } else if !gives_up(spec_word_type(s, pos, lit("string"), SqlTypeView::String)) {
        spec_word_type(s, pos, lit("string"), SqlTypeView::String)
    } else if !gives_up(spec_word_type(s, pos, lit("float32"), SqlTypeView::Float32)) {
        spec_word_type(s, pos, lit("float32"), SqlTypeView::Float32)
    } else if !gives_up(spec_word_type(s, pos, lit("float64"), SqlTypeView::Float64)) {
        spec_word_type(s, pos, lit("float64"), SqlTypeView::Float64)
    } else if !gives_up(spec_date_time64_type(s, pos)) {
        spec_date_time64_type(s, pos)
    } else if !gives_up(spec_date_time_type(s, pos)) {
        spec_date_time_type(s, pos)
    } else if !gives_up(spec_word_type(s, pos, lit("date"), SqlTypeView::Date)) {
        spec_word_type(s, pos, lit("date"), SqlTypeView::Date)
    } else if !gives_up(spec_fixed_string_type(s, pos)) {
        spec_fixed_string_type(s, pos)
    } else if !gives_up(spec_word_type(s, pos, lit("ipv4"), SqlTypeView::IPv4)) {
        spec_word_type(s, pos, lit("ipv4"), SqlTypeView::IPv4)
    } else if !gives_up(spec_word_type(s, pos, lit("ipv6"), SqlTypeView::IPv6)) {
        spec_word_type(s, pos, lit("ipv6"), SqlTypeView::IPv6)
    } else if !gives_up(spec_word_type(s, pos, lit("uuid"), SqlTypeView::UUID)) {
        spec_word_type(s, pos, lit("uuid"), SqlTypeView::UUID)
    } else if !gives_up(spec_array_type(s, pos, depth)) {
        spec_array_type(s, pos, depth)
    } else {
        Err(syntax(ErrorKind::Type, pos))
    }
}

/// `Array(` a type with its wrappers `)`, with no white space.
pub open spec fn spec_array_type(s: Seq<u8>, pos: int, depth: nat) -> Result<
    (SqlTypeView, int),
    ParseError,
>
    decreases depth, 0int,
{
    match word_end(s, pos, lit("array")) {
        None => Err(syntax(ErrorKind::Tag, pos)),
        Some(p) => if !byte_at(s, p, '(' as u8) {
            Err(syntax(ErrorKind::Tag, p))
        } else if depth == 0 {
            Err(failure(Violation::NestingTooDeep, p))
        } else {
            match spec_field_specification_opts(s, p + 1, (depth - 1) as nat) {
                Err(e) => Err(e),
                Ok((inner, end)) => if byte_at(s, end, ')' as u8) {
                    Ok((SqlTypeView::Array(Box::new(inner)), end + 1))
                } else {
                    Err(syntax(ErrorKind::Tag, end))
                },
            }
        },
    }
}

/// A type between the word `open` and the word `close`, with the two flags
/// as given.
pub open spec fn spec_wrapped_type(
    s: Seq<u8>,
    pos: int,
    depth: nat,
    open: Seq<u8>,
    close: Seq<u8>,
    nullable: bool,
    lowcardinality: bool,
) -> Result<(SqlTypeOptsView, int), ParseError>
    decreases depth, 2int,
{
    match word_end(s, pos, open) {
        None => Err(syntax(ErrorKind::Tag, pos)),
        Some(p) => match spec_type_identifier(s, p, depth) {
            Err(e) => Err(e),
            Ok((ftype, end)) => match tag_end(s, end, close) {
                None => Err(syntax(ErrorKind::Tag, end)),
                Some(end) => Ok((SqlTypeOptsView { ftype, nullable, lowcardinality }, end)),
            },
        },
    }
}

/// A type with its wrappers at `pos`: the first that matches of
/// `Nullable(T)`, `LowCardinality(T)`, `LowCardinality(Nullable(T))` and `T`.
pub open spec fn spec_field_specification_opts(s: Seq<u8>, pos: int, depth: nat) -> Result<
    (SqlTypeOptsView, int),
    ParseError,
>
    decreases depth, 3int,
{
    let nullable = spec_wrapped_type(s, pos, depth, lit("Nullable("), lit(")"), true, false);
    let low = spec_wrapped_type(s, pos, depth, lit("LowCardinality("), lit(")"), false, true);
    let both = spec_wrapped_type(
        s,
        pos,
        depth,
        lit("LowCardinality(Nullable("),
        lit("))"),
        true,
        true,
    );
    if !gives_up(nullable) {
        nullable
    } else if !gives_up(low) {
        low
    } else if !gives_up(both) {
        both
    } else {
        match spec_type_identifier(s, pos, depth) {
            Err(e) => Err(e),
            Ok((ftype, end)) => Ok(
                (SqlTypeOptsView { ftype, nullable: false, lowcardinality: false }, end),
            ),
        }
    }
}

/// The width `8`, `16`, `32` or `64` at `pos`.
pub fn type_size_suffix64_at(buf: &[u8], pos: usize) -> (r: Result<(TypeSize, usize), ParseError>)
    requires
        pos <= buf.len(),
    ensures
        r == match spec_type_size_suffix64(buf@, pos as int) {
            Ok((size, end)) => Ok::<(TypeSize, usize), ParseError>((size, end as usize)),
            Err(e) => Err(e),
        },
        r is Ok ==> pos < r->Ok_0.1 <= buf.len() && r->Ok_0.1 == spec_type_size_suffix64(
            buf@,
            pos as int,
        )->Ok_0.1,
{
    proof {
        reveal_strlit("8");
        reveal_strlit("16");
        reveal_strlit("32");
        reveal_strlit("64");
        vstd::utf8::is_ascii_chars_encode_utf8("8"@);
        vstd::utf8::is_ascii_chars_encode_utf8("16"@);
        vstd::utf8::is_ascii_chars_encode_utf8("32"@);
        vstd::utf8::is_ascii_chars_encode_utf8("64"@);
    }
    if let Some(end) = tag(buf, pos, "8") {
        Ok((TypeSize::B8, end))
    } else if let Some(end) = tag(buf, pos, "16") {
        Ok((TypeSize::B16, end))
    } else if let Some(end) = tag(buf, pos, "32") {
        Ok((TypeSize::B32, end))
    } else if let Some(end) = tag(buf, pos, "64") {
        Ok((TypeSize::B64, end))
    } else {
        Err(ParseError::Syntax { kind: ErrorKind::Tag, position: pos })
    }
}

/// The width `8` or `16` at `pos`.
pub fn type_size_suffix16_at(buf: &[u8], pos: usize) -> (r: Result<(TypeSize16, usize), ParseError>)
    requires
        pos <= buf.len(),
    ensures
        r == match spec_type_size_suffix16(buf@, pos as int) {
            Ok((size, end)) => Ok::<(TypeSize16, usize), ParseError>((size, end as usize)),
            Err(e) => Err(e),
        },
        r is Ok ==> pos <= r->Ok_0.1 <= buf.len() && r->Ok_0.1 == spec_type_size_suffix16(
            buf@,
            pos as int,
        )->Ok_0.1,
{
    if let Some(end) = tag(buf, pos, "8") {
        Ok((TypeSize16::B8, end))
    } else if let Some(end) = tag(buf, pos, "16") {
        Ok((TypeSize16::B16, end))
    } else {
        Err(ParseError::Syntax { kind: ErrorKind::Tag, position: pos })
    }
}

/// The digits between brackets at `pos`.
pub fn delim_digit_at(buf: &[u8], pos: usize) -> (r: Result<(u64, usize), ParseError>)
    requires
        pos <= buf.len(),
    ensures
        r == match spec_delim_digit(buf@, pos as int) {
            Ok((v, end)) => Ok::<(u64, usize), ParseError>((v, end as usize)),
            Err(e) => Err(e),
        },
        r is Ok ==> pos + 3 <= r->Ok_0.1 <= buf.len() && r->Ok_0.1 == spec_delim_digit(
            buf@,
            pos as int,
        )->Ok_0.1,
{
    if !is_byte_at(buf, pos, 40) {
        return Err(ParseError::Syntax { kind: ErrorKind::Tag, position: pos });
    }
    let (v, end) = digits_at(buf, pos + 1)?;
    if is_byte_at(buf, end, 41) {
        Ok((v, end + 1))
    } else {
        Err(ParseError::Syntax { kind: ErrorKind::Tag, position: end })
    }
}

/// Reads digits between brackets, with no white space, and gives the rest
/// of the input and the digits.
pub fn delim_digit<'a>(i: &'a [u8]) -> (r: Result<(&'a [u8], &'a [u8]), ParseError>)
    ensures
        match spec_delim_digit(i@, 0) {
            Ok((v, end)) => r is Ok && r->Ok_0.0@ == i@.skip(end) && r->Ok_0.1@ == i@.subrange(
                1,
                end - 1,
            ),
            Err(e) => r is Err && r->Err_0 == e,
        },
{
    match delim_digit_at(i, 0) {
        Ok((_, end)) => Ok((slice_subrange(i, end, i.len()), slice_subrange(i, 1, end - 1))),
        Err(e) => Err(e),
    }
}

/// Whether an entry of an `Enum` was read as its specification says.
pub open spec fn agrees_entry(
    r: Result<((String, i16), usize), ParseError>,
    p: Result<((Seq<u8>, i16), int), ParseError>,
) -> bool {
    match p {
        Ok(((name, v), end)) => r is Ok && encode_utf8(r->Ok_0.0.0@) == name && r->Ok_0.0.1 == v
            && r->Ok_0.1 == end,
        Err(e) => r is Err && r->Err_0 == e,
    }
}

/// The signed number of 16 bits at `pos`.
pub fn signed16_at(buf: &[u8], pos: usize) -> (r: Result<(i16, usize), ParseError>)
    requires
        pos <= buf.len(),
    ensures
        r == match spec_signed16(buf@, pos as int) {
            Ok((v, end)) => Ok::<(i16, usize), ParseError>((v, end as usize)),
            Err(e) => Err(e),
        },
        r is Ok ==> pos < r->Ok_0.1 <= buf.len() && r->Ok_0.1 == spec_signed16(
            buf@,
            pos as int,
        )->Ok_0.1,
{
    if is_byte_at(buf, pos, 45) {
        let (v, end) = digits_at(buf, pos + 1)?;
        if v <= 32768 {
            let negated: i64 = 0 - (v as i64);
            Ok((negated as i16, end))
        } else {
            Err(ParseError::Failure { violation: Violation::EnumValueBelow(v), position: pos })
        }
    } else {
        let (v, end) = digits_at(buf, pos)?;
        if v <= 32767 {
            Ok((v as i16, end))
        } else {
            Err(ParseError::Failure { violation: Violation::EnumValue(v), position: pos })
        }
    }
}

/// One entry of an `Enum` at `pos`.
pub fn enum_value_at(buf: &[u8], pos: usize) -> (r: Result<((String, i16), usize), ParseError>)
    requires
        pos <= buf.len(),
    ensures
        agrees_entry(r, spec_enum_value(buf@, pos as int)),
        r is Ok ==> pos < r->Ok_0.1 <= buf.len(),
{
    let (name, name_end) = single_quoted_at(buf, skip_ws(buf, pos))?;
    let eq = skip_ws(buf, name_end);
    if !is_byte_at(buf, eq, 61) {
        return Err(ParseError::Syntax { kind: ErrorKind::Tag, position: eq });
    }
    let (v, end) = signed16_at(buf, skip_ws(buf, eq + 1))?;
    Ok(((name, v), end))
}

/// Whether the entries of an `Enum` were read as their specification says.
pub open spec fn agrees_entries(
    r: Result<(Vec<(String, i16)>, usize), ParseError>,
    p: Result<(Seq<(Seq<u8>, i16)>, int), ParseError>,
) -> bool {
    match p {
        Ok((values, end)) => r is Ok && enum_entries(r->Ok_0.0@) == values && r->Ok_0.1 == end,
        Err(e) => r is Err && r->Err_0 == e,
    }
}

/// The entries of an `Enum` at `pos`.
pub fn enum_values_at(buf: &[u8], pos: usize) -> (r: Result<
    (Vec<(String, i16)>, usize),
    ParseError,
>)
    requires
        pos <= buf.len(),
    ensures
        agrees_entries(r, spec_enum_values(buf@, pos as int)),
        r is Ok ==> pos < r->Ok_0.1 <= buf.len(),
{
    let (first, first_end) = enum_value_at(buf, pos)?;
    let mut acc: Vec<(String, i16)> = Vec::new();
    acc.push(first);
    let mut p: usize = first_end;
    assert(enum_entries(acc@) =~= seq![spec_enum_value(buf@, pos as int)->Ok_0.0]);
    loop
        invariant
            pos < p <= buf.len(),
            spec_enum_values(buf@, pos as int) == spec_enum_values_tail(
                buf@,
                p as int,
                enum_entries(acc@),
            ),
        decreases buf.len() - p,
    {
        match sep_comma_at(buf, p) {
            None => {
                return Ok((acc, p));
            },
            Some(next) => match enum_value_at(buf, next) {
                Ok((v, end)) => {
                    proof {
                        let sv = spec_enum_value(buf@, next as int)->Ok_0.0;
                        assert(enum_entries(acc@.push(v)) =~= enum_entries(acc@).push(sv));
                    }
                    acc.push(v);
                    p = end;
                },
                Err(e) => {
                    if e.is_failure() {
                        return Err(e);
                    } else {
                        return Ok((acc, p));
                    }
                },
            },
        }
    }
}

/// `Int` and a width.
pub fn int_type_at(buf: &[u8], pos: usize) -> (r: Result<(SqlType, usize), ParseError>)
    requires
        pos <= buf.len(),
    ensures
        agrees(r, spec_int_type(buf@, pos as int)),
        r is Ok ==> pos < r->Ok_0.1 <= buf.len(),
{
    match tag_no_case(buf, pos, "int") {
        None => Err(ParseError::Syntax { kind: ErrorKind::Tag, position: pos }),
        Some(p) => {
            let (size, end) = type_size_suffix64_at(buf, p)?;
            Ok((SqlType::Int(size), end))
        },
    }
}

/// `UInt` and a width.
pub fn uint_type_at(buf: &[u8], pos: usize) -> (r: Result<(SqlType, usize), ParseError>)
    requires
        pos <= buf.len(),
    ensures
        agrees(r, spec_uint_type(buf@, pos as int)),
        r is Ok ==> pos < r->Ok_0.1 <= buf.len(),
{
    match tag_no_case(buf, pos, "uint") {
        None => Err(ParseError::Syntax { kind: ErrorKind::Tag, position: pos }),
        Some(p) => {
            let (size, end) = type_size_suffix64_at(buf, p)?;
            Ok((SqlType::UnsignedInt(size), end))
        },
    }
}

/// `Enum`, a width or none, and the entries between brackets.
pub fn enum_type_at(buf: &[u8], pos: usize) -> (r: Result<(SqlType, usize), ParseError>)
    requires
        pos <= buf.len(),
    ensures
        agrees(r, spec_enum_type(buf@, pos as int)),
        r is Ok ==> pos < r->Ok_0.1 <= buf.len(),
{
    match tag_no_case(buf, pos, "enum") {
        None => Err(ParseError::Syntax { kind: ErrorKind::Tag, position: pos }),
        Some(p) => {
            let (size, open) = match type_size_suffix16_at(buf, p) {
                Ok((size, end)) => (Some(size), end),
                Err(_) => (None, p),
            };
            if !is_byte_at(buf, open, 40) {
                return Err(ParseError::Syntax { kind: ErrorKind::Tag, position: open });
            }
            let (values, end) = enum_values_at(buf, open + 1)?;
            if is_byte_at(buf, end, 41) {
                Ok((SqlType::Enum(size, values), end + 1))
            } else {
                Err(ParseError::Syntax { kind: ErrorKind::Tag, position: end })
            }
        },
    }
}

/// A type that is one word, in any case.
pub fn word_type_at(buf: &[u8], pos: usize, word: &str, t: SqlType) -> (r: Result<
    (SqlType, usize),
    ParseError,
>)
    requires
        pos <= buf.len(),
    ensures
        agrees(r, spec_word_type(buf@, pos as int, lit(word), t@)),
        r is Ok ==> pos <= r->Ok_0.1 <= buf.len(),
{
    match tag_no_case(buf, pos, word) {
        None => Err(ParseError::Syntax { kind: ErrorKind::Tag, position: pos }),
        Some(end) => Ok((t, end)),
    }
}

/// Whether an optional time zone was read as its specification says.
pub open spec fn agrees_zone(
    r: Result<(Option<String>, usize), ParseError>,
    p: Result<(Option<Seq<u8>>, int), ParseError>,
) -> bool {
    match p {
        Ok((zone, end)) => r is Ok && opt_text(r->Ok_0.0) == zone && r->Ok_0.1 == end,
        Err(e) => r is Err && r->Err_0 == e,
    }
}

/// The time zone of a `DateTime64` at `pos`, if one is written there.
pub fn zone_after_comma_at(buf: &[u8], pos: usize) -> (r: Result<
    (Option<String>, usize),
    ParseError,
>)
    requires
        pos <= buf.len(),
    ensures
        agrees_zone(r, spec_zone_after_comma(buf@, pos as int)),
        r is Ok ==> pos <= r->Ok_0.1 <= buf.len(),
{
    if !is_byte_at(buf, pos, 44) {
        return Ok((None, pos));
    }
    match single_quoted_at(buf, skip_ws(buf, pos + 1)) {
        Ok((zone, end)) => Ok((Some(zone), end)),
        Err(e) => if e.is_failure() {
            Err(e)
        } else {
            Ok((None, pos))
        },
    }
}

/// `DateTime64 ( digit )` or `DateTime64 ( digit , 'zone' )`.
pub fn date_time64_type_at(buf: &[u8], pos: usize) -> (r: Result<(SqlType, usize), ParseError>)
    requires
        pos <= buf.len(),
    ensures
        agrees(r, spec_date_time64_type(buf@, pos as int)),
        r is Ok ==> pos < r->Ok_0.1 <= buf.len(),
{
    match tag_no_case(buf, pos, "datetime64") {
        None => Err(ParseError::Syntax { kind: ErrorKind::Tag, position: pos }),
        Some(p) => {
            let open = skip_ws(buf, p);
            if !is_byte_at(buf, open, 40) {
                return Err(ParseError::Syntax { kind: ErrorKind::Tag, position: open });
            }
            let digit = skip_ws(buf, open + 1);
            if !(digit < buf.len() && 48 <= buf[digit] && buf[digit] <= 57) {
                return Err(ParseError::Syntax { kind: ErrorKind::Digit, position: digit });
            }
            let precision: u8 = buf[digit] - 48;
            let (zone, zone_end) = zone_after_comma_at(buf, skip_ws(buf, digit + 1))?;
            let close = skip_ws(buf, zone_end);
            if is_byte_at(buf, close, 41) {
                Ok((SqlType::DateTime64(precision, zone), close + 1))
            } else {
                Err(ParseError::Syntax { kind: ErrorKind::Tag, position: close })
            }
        },
    }
}

/// The time zone of a `DateTime` at `pos`, if one is written there.
pub fn zone_in_brackets_at(buf: &[u8], pos: usize) -> (r: Result<
    (Option<String>, usize),
    ParseError,
>)
    requires
        pos <= buf.len(),
    ensures
        agrees_zone(r, spec_zone_in_brackets(buf@, pos as int)),
        r is Ok ==> pos <= r->Ok_0.1 <= buf.len(),
{
    if !is_byte_at(buf, pos, 40) {
        return Ok((None, pos));
    }
    match single_quoted_at(buf, skip_ws(buf, pos + 1)) {
        Ok((zone, end)) => {
            let close = skip_ws(buf, end);
            if is_byte_at(buf, close, 41) {
                Ok((Some(zone), close + 1))
            } else {
                Ok((None, pos))
            }
        },
        Err(e) => if e.is_failure() {
            Err(e)
        } else {
            Ok((None, pos))
        },
    }
}

/// `DateTime`, white space, and a time zone or none.
pub fn date_time_type_at(buf: &[u8], pos: usize) -> (r: Result<(SqlType, usize), ParseError>)
    requires
        pos <= buf.len(),
    ensures
        agrees(r, spec_date_time_type(buf@, pos as int)),
        r is Ok ==> pos <= r->Ok_0.1 <= buf.len(),
{
    match tag_no_case(buf, pos, "datetime") {
        None => Err(ParseError::Syntax { kind: ErrorKind::Tag, position: pos }),
        Some(p) => {
            let (zone, end) = zone_in_brackets_at(buf, skip_ws(buf, p))?;
            Ok((SqlType::DateTime(zone), end))
        },
    }
}

/// `FixedString(size)`.
pub fn fixed_string_type_at(buf: &[u8], pos: usize) -> (r: Result<(SqlType, usize), ParseError>)
    requires
        pos <= buf.len(),
    ensures
        agrees(r, spec_fixed_string_type(buf@, pos as int)),
        r is Ok ==> pos < r->Ok_0.1 <= buf.len(),
{
    match tag_no_case(buf, pos, "FixedString") {
        None => Err(ParseError::Syntax { kind: ErrorKind::Tag, position: pos }),
        Some(p) => {
            let (v, end) = delim_digit_at(buf, p)?;
            if v <= usize::MAX as u64 {
                Ok((SqlType::FixedString(v as usize), end))
            } else {
                Err(
                    ParseError::Failure {
                        violation: Violation::FixedStringSize(v),
                        position: p + 1,
                    },
                )
            }
        },
    }
}

/// The type without wrappers at `pos`.
pub fn type_identifier_at(buf: &[u8], pos: usize, depth: usize) -> (r: Result<
    (SqlType, usize),
    ParseError,
>)
    requires
        pos <= buf.len(),
    ensures
        agrees(r, spec_type_identifier(buf@, pos as int, depth as nat)),
        r is Ok ==> pos <= r->Ok_0.1 <= buf.len(),
    decreases depth, 1int,
{
    let r = int_type_at(buf, pos);
    if !gave_up(&r) {
        return r;
    }
    let r = uint_type_at(buf, pos);
    if !gave_up(&r) {
        return r;
    }
    let r = enum_type_at(buf, pos);
    if !gave_up(&r) {
        return r;
    }
    let r = word_type_at(buf, pos, "string", SqlType::String);
    if !gave_up(&r) {
        return r;
    }
    let r = word_type_at(buf, pos, "float32", SqlType::Float32);
    if !gave_up(&r) {
        return r;
    }
    let r = word_type_at(buf, pos, "float64", SqlType::Float64);
    if !gave_up(&r) {
        return r;
    }
    let r = date_time64_type_at(buf, pos);
    if !gave_up(&r) {
        return r;
    }
    let r = date_time_type_at(buf, pos);
    if !gave_up(&r) {
        return r;
    }
    let r = word_type_at(buf, pos, "date", SqlType::Date);
    if !gave_up(&r) {
        return r;
    }
    let r = fixed_string_type_at(buf, pos);
    if !gave_up(&r) {
        return r;
    }
    let r = word_type_at(buf, pos, "ipv4", SqlType::IPv4);
    if !gave_up(&r) {
        return r;
    }
    let r = word_type_at(buf, pos, "ipv6", SqlType::IPv6);
    if !gave_up(&r) {
        return r;
    }
    let r = word_type_at(buf, pos, "uuid", SqlType::UUID);
    if !gave_up(&r) {
        return r;
    }
    let r = array_type_at(buf, pos, depth);
    if !gave_up(&r) {
        return r;
    }
    Err(ParseError::Syntax { kind: ErrorKind::Type, position: pos })
}

/// `Array(` a type with its wrappers `)`.
pub fn array_type_at(buf: &[u8], pos: usize, depth: usize) -> (r: Result<
    (SqlType, usize),
    ParseError,
>)
    requires
        pos <= buf.len(),
    ensures
        agrees(r, spec_array_type(buf@, pos as int, depth as nat)),
        r is Ok ==> pos < r->Ok_0.1 <= buf.len(),
    decreases depth, 0int,
{
    match tag_no_case(buf, pos, "array") {
        None => Err(ParseError::Syntax { kind: ErrorKind::Tag, position: pos }),
        Some(p) => {
            if !is_byte_at(buf, p, 40) {
                return Err(ParseError::Syntax { kind: ErrorKind::Tag, position: p });
            }
            if depth == 0 {
                return Err(
                    ParseError::Failure { violation: Violation::NestingTooDeep, position: p },
                );
            }
            let (inner, end) = field_specification_opts_at(buf, p + 1, depth - 1)?;
            if is_byte_at(buf, end, 41) {
                Ok((SqlType::Array(Box::new(inner)), end + 1))
            } else {
                Err(ParseError::Syntax { kind: ErrorKind::Tag, position: end })
            }
        },
    }
}

/// A type between the word `open` and the word `close`.
pub fn wrapped_type_at(
    buf: &[u8],
    pos: usize,
    depth: usize,
    open: &str,
    close: &str,
    nullable: bool,
    lowcardinality: bool,
) -> (r: Result<(SqlTypeOpts, usize), ParseError>)
    requires
        pos <= buf.len(),
    ensures
        agrees(
            r,
            spec_wrapped_type(
                buf@,
                pos as int,
                depth as nat,
                lit(open),
                lit(close),
                nullable,
                lowcardinality,
            ),
        ),
        r is Ok ==> pos <= r->Ok_0.1 <= buf.len(),
    decreases depth, 2int,
{
    match tag_no_case(buf, pos, open) {
        None => Err(ParseError::Syntax { kind: ErrorKind::Tag, position: pos }),
        Some(p) => {
            let (ftype, end) = type_identifier_at(buf, p, depth)?;
            match tag(buf, end, close) {
                None => Err(ParseError::Syntax { kind: ErrorKind::Tag, position: end }),
                Some(end) => Ok((SqlTypeOpts { ftype, nullable, lowcardinality }, end)),
            }
        },
    }
}

/// The type with its wrappers at `pos`.
pub fn field_specification_opts_at(buf: &[u8], pos: usize, depth: usize) -> (r: Result<
    (SqlTypeOpts, usize),
    ParseError,
>)
    requires
        pos <= buf.len(),
    ensures
        agrees(r, spec_field_specification_opts(buf@, pos as int, depth as nat)),
        r is Ok ==> pos <= r->Ok_0.1 <= buf.len(),
    decreases depth, 3int,
{
    let r = wrapped_type_at(buf, pos, depth, "Nullable(", ")", true, false);
    if !gave_up(&r) {
        return r;
    }
    let r = wrapped_type_at(buf, pos, depth, "LowCardinality(", ")", false, true);
    if !gave_up(&r) {
        return r;
    }
    let r = wrapped_type_at(buf, pos, depth, "LowCardinality(Nullable(", "))", true, true);
    if !gave_up(&r) {
        return r;
    }
    let (ftype, end) = type_identifier_at(buf, pos, depth)?;
    Ok((SqlTypeOpts { ftype, nullable: false, lowcardinality: false }, end))
}

/// Reads a type without wrappers, and gives the rest of the input and the
/// type.
pub fn type_identifier<'a>(i: &'a [u8]) -> (r: Result<(&'a [u8], SqlType), ParseError>)
    ensures
        match spec_type_identifier(i@, 0, MAX_NESTING as nat) {
            Ok((t, end)) => r is Ok && r->Ok_0.0@ == i@.skip(end) && r->Ok_0.1@ == t,
            Err(e) => r is Err && r->Err_0 == e,
        },
{
    match type_identifier_at(i, 0, MAX_NESTING) {
        Ok((t, end)) => Ok((slice_subrange(i, end, i.len()), t)),
        Err(e) => Err(e),
    }
}

/// Reads a type with its wrappers `Nullable` and `LowCardinality`, and
/// gives the rest of the input and the type.
pub fn field_specification_opts<'a>(i: &'a [u8]) -> (r: Result<(&'a [u8], SqlTypeOpts), ParseError>)
    ensures
        match spec_field_specification_opts(i@, 0, MAX_NESTING as nat) {
            Ok((t, end)) => r is Ok && r->Ok_0.0@ == i@.skip(end) && r->Ok_0.1@ == t,
            Err(e) => r is Err && r->Err_0 == e,
        },
{
    match field_specification_opts_at(i, 0, MAX_NESTING) {
        Ok((t, end)) => Ok((slice_subrange(i, end, i.len()), t)),
        Err(e) => Err(e),
    }
}

} // verus!
