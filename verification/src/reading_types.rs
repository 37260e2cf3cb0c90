//! What the grammar of types reads where the canonical text of a type
//! stands.

use vstd::prelude::*;
use crate::error::{gives_up, syntax, ErrorKind, ParseError};
use crate::reading::{
    lemma_decimal_digits, lemma_digits_read, lemma_lit, lemma_not_tag, lemma_not_word,
    lemma_tag_bounds, lemma_tag_byte, lemma_tag_class, lemma_tag_is_subrange, lemma_tag_not_tag,
    lemma_tag_not_word, lemma_tag_part, lemma_tag_split, lemma_ws_stop,
};
use crate::scan::{
    byte_at, has_tag, is_digit, lemma_run_end_is, lit, lower, sep_comma_end, tag_end, word_end,
    ws_end, ByteClass,
};
use crate::text::{decimal, single_quoted_end, spec_single_quoted};
use crate::types::{
    print_date_time, print_date_time64, print_enum, print_enum_entries, print_enum_entry,
    print_enum_width, print_i16, print_size, print_size16, print_type, print_type_opts,
    print_wrapped, spec_array_type, spec_date_time64_type, spec_date_time_type, spec_delim_digit,
    spec_enum_type, spec_enum_value, spec_enum_values, spec_enum_values_tail,
    spec_field_specification_opts, spec_fixed_string_type, spec_int_type, spec_signed16,
    spec_type_identifier, spec_type_size_suffix16, spec_type_size_suffix64, spec_uint_type,
    spec_word_type, spec_wrapped_type, spec_zone_after_comma, spec_zone_in_brackets,
    valid_enum_entries, valid_quoted, valid_type, SqlTypeOptsView, SqlTypeView, TypeSize,
    TypeSize16,
};
use crate::words::{
    lemma_array_open_cased_reads_as_array, lemma_bytes_16, lemma_bytes_32, lemma_bytes_64,
    lemma_bytes_8, lemma_bytes_array_open_cased, lemma_bytes_close, lemma_bytes_close_close,
    lemma_bytes_comma_space, lemma_bytes_comma_space_quote, lemma_bytes_date_cased,
    lemma_bytes_datetime64_open_cased, lemma_bytes_datetime_cased,
    lemma_bytes_datetime_open_quote_cased, lemma_bytes_enum_cased,
    lemma_bytes_fixedstring_open_cased, lemma_bytes_float32_cased, lemma_bytes_float64_cased,
    lemma_bytes_int_cased, lemma_bytes_ipv4_cased, lemma_bytes_ipv6_cased,
    lemma_bytes_lowcardinality_open_cased, lemma_bytes_lowcardinality_open_nullable_open_cased,
    lemma_bytes_minus, lemma_bytes_nullable_open_cased, lemma_bytes_open, lemma_bytes_quote,
    lemma_bytes_quote_close, lemma_bytes_quote_space_eq_space, lemma_bytes_string_cased,
    lemma_bytes_uint_cased, lemma_bytes_uuid_cased, lemma_date_cased_is_not_datetime,
    lemma_date_cased_is_not_datetime64, lemma_date_cased_reads_as_date,
    lemma_datetime64_open_cased_reads_as_datetime64, lemma_datetime_cased_is_not_datetime64,
    lemma_datetime_cased_reads_as_datetime, lemma_datetime_open_quote_cased_is_not_datetime64,
    lemma_datetime_open_quote_cased_reads_as_datetime, lemma_enum_cased_reads_as_enum,
    lemma_fixedstring_open_cased_is_not_float32, lemma_fixedstring_open_cased_is_not_float64,
    lemma_fixedstring_open_cased_reads_as_fixedstring_cased, lemma_float32_cased_reads_as_float32,
    lemma_float64_cased_is_not_float32, lemma_float64_cased_reads_as_float64,
    lemma_int_cased_reads_as_int, lemma_ipv4_cased_is_not_int, lemma_ipv4_cased_reads_as_ipv4,
    lemma_ipv6_cased_is_not_int, lemma_ipv6_cased_is_not_ipv4, lemma_ipv6_cased_reads_as_ipv6,
    lemma_lowcardinality_open_cased_is_read, lemma_lowcardinality_open_nullable_open_cased_is_read,
    lemma_nullable_open_cased_is_read, lemma_other_than_array, lemma_other_than_date,
    lemma_other_than_datetime, lemma_other_than_datetime64, lemma_other_than_enum,
    lemma_other_than_fixedstring_cased, lemma_other_than_float32, lemma_other_than_float64,
    lemma_other_than_int, lemma_other_than_ipv4, lemma_other_than_ipv6, lemma_other_than_string,
    lemma_other_than_uint, lemma_other_than_uuid, lemma_string_cased_reads_as_string,
    lemma_uint_cased_reads_as_uint, lemma_uuid_cased_is_not_uint, lemma_uuid_cased_reads_as_uuid,
};

verus! {

/// What may stand behind a type: the end of the input, a space, a comma, a
/// closing bracket or a line feed; and no opening bracket behind white space.
pub open spec fn type_ends(s: Seq<u8>, q: int) -> bool {
    &&& 0 <= q <= s.len()
    &&& (q == s.len() || s[q] == ' ' as u8 || s[q] == ',' as u8 || s[q] == ')' as u8 || s[q]
        == '\n' as u8)
    &&& !byte_at(s, ws_end(s, q), '(' as u8)
}

/// Where the grammar ends a type whose text ends at `q`: there, but behind
/// the white space that follows a `DateTime` without time zone.
pub open spec fn type_end(t: SqlTypeView, s: Seq<u8>, q: int) -> int {
    if t == SqlTypeView::DateTime(None) {
        ws_end(s, q)
    } else {
        q
    }
}

/// Where `DateTime` stands, what the rule of its type reads is what the
/// grammar of types reads.
pub proof fn lemma_chain_date_time(s: Seq<u8>, pos: int, depth: nat, r: (SqlTypeView, int))
    requires
        has_tag(s, pos, lit("DateTime")),
        type_ends(s, pos + lit("DateTime").len()),
        spec_date_time_type(s, pos) == Ok::<(SqlTypeView, int), ParseError>(r),
    ensures
        spec_type_identifier(s, pos, depth) == Ok::<(SqlTypeView, int), ParseError>(r),
{
    lemma_bytes_datetime_cased();
    lemma_tag_byte(s, pos, lit("DateTime"), 0);
    lemma_tag_bounds(s, pos, lit("DateTime"));
    lemma_other_than_int(s, pos);
    assert(gives_up(spec_int_type(s, pos)));
    lemma_other_than_uint(s, pos);
    assert(gives_up(spec_uint_type(s, pos)));
    lemma_other_than_enum(s, pos);
    assert(gives_up(spec_enum_type(s, pos)));
    lemma_other_than_string(s, pos);
    assert(gives_up(spec_word_type(s, pos, lit("string"), SqlTypeView::String)));
    lemma_other_than_float32(s, pos);
    assert(gives_up(spec_word_type(s, pos, lit("float32"), SqlTypeView::Float32)));
    lemma_other_than_float64(s, pos);
    assert(gives_up(spec_word_type(s, pos, lit("float64"), SqlTypeView::Float64)));
    lemma_datetime_cased_is_not_datetime64(s, pos);
    assert(gives_up(spec_date_time64_type(s, pos)));
}

/// Where `DateTime('` stands, what the rule of its type reads is what the
/// grammar of types reads.
pub proof fn lemma_chain_date_time_zone(s: Seq<u8>, pos: int, depth: nat, r: (SqlTypeView, int))
    requires
        has_tag(s, pos, lit("DateTime('")),
        spec_date_time_type(s, pos) == Ok::<(SqlTypeView, int), ParseError>(r),
    ensures
        spec_type_identifier(s, pos, depth) == Ok::<(SqlTypeView, int), ParseError>(r),
{
    lemma_bytes_datetime_open_quote_cased();
    lemma_tag_byte(s, pos, lit("DateTime('"), 0);
    lemma_tag_bounds(s, pos, lit("DateTime('"));
    lemma_other_than_int(s, pos);
    assert(gives_up(spec_int_type(s, pos)));
    lemma_other_than_uint(s, pos);
    assert(gives_up(spec_uint_type(s, pos)));
    lemma_other_than_enum(s, pos);
    assert(gives_up(spec_enum_type(s, pos)));
    lemma_other_than_string(s, pos);
    assert(gives_up(spec_word_type(s, pos, lit("string"), SqlTypeView::String)));
    lemma_other_than_float32(s, pos);
    assert(gives_up(spec_word_type(s, pos, lit("float32"), SqlTypeView::Float32)));
    lemma_other_than_float64(s, pos);
    assert(gives_up(spec_word_type(s, pos, lit("float64"), SqlTypeView::Float64)));
    lemma_datetime_open_quote_cased_is_not_datetime64(s, pos);
    assert(gives_up(spec_date_time64_type(s, pos)));
}

/// Where `DateTime64(` stands, what the rule of its type reads is what the
/// grammar of types reads.
pub proof fn lemma_chain_date_time64(s: Seq<u8>, pos: int, depth: nat, r: (SqlTypeView, int))
    requires
        has_tag(s, pos, lit("DateTime64(")),
        spec_date_time64_type(s, pos) == Ok::<(SqlTypeView, int), ParseError>(r),
    ensures
        spec_type_identifier(s, pos, depth) == Ok::<(SqlTypeView, int), ParseError>(r),
{
    lemma_bytes_datetime64_open_cased();
    lemma_tag_byte(s, pos, lit("DateTime64("), 0);
    lemma_tag_bounds(s, pos, lit("DateTime64("));
    lemma_other_than_int(s, pos);
    assert(gives_up(spec_int_type(s, pos)));
    lemma_other_than_uint(s, pos);
    assert(gives_up(spec_uint_type(s, pos)));
    lemma_other_than_enum(s, pos);
    assert(gives_up(spec_enum_type(s, pos)));
    lemma_other_than_string(s, pos);
    assert(gives_up(spec_word_type(s, pos, lit("string"), SqlTypeView::String)));
    lemma_other_than_float32(s, pos);
    assert(gives_up(spec_word_type(s, pos, lit("float32"), SqlTypeView::Float32)));
    lemma_other_than_float64(s, pos);
    assert(gives_up(spec_word_type(s, pos, lit("float64"), SqlTypeView::Float64)));
}

/// Where `FixedString(` stands, what the rule of its type reads is what the
/// grammar of types reads.
pub proof fn lemma_chain_fixed_string(s: Seq<u8>, pos: int, depth: nat, r: (SqlTypeView, int))
    requires
        has_tag(s, pos, lit("FixedString(")),
        spec_fixed_string_type(s, pos) == Ok::<(SqlTypeView, int), ParseError>(r),
    ensures
        spec_type_identifier(s, pos, depth) == Ok::<(SqlTypeView, int), ParseError>(r),
{
    lemma_bytes_fixedstring_open_cased();
    lemma_tag_byte(s, pos, lit("FixedString("), 0);
    lemma_tag_bounds(s, pos, lit("FixedString("));
    lemma_other_than_int(s, pos);
    assert(gives_up(spec_int_type(s, pos)));
    lemma_other_than_uint(s, pos);
    assert(gives_up(spec_uint_type(s, pos)));
    lemma_other_than_enum(s, pos);
    assert(gives_up(spec_enum_type(s, pos)));
    lemma_other_than_string(s, pos);
    assert(gives_up(spec_word_type(s, pos, lit("string"), SqlTypeView::String)));
    lemma_fixedstring_open_cased_is_not_float32(s, pos);
    assert(gives_up(spec_word_type(s, pos, lit("float32"), SqlTypeView::Float32)));
    lemma_fixedstring_open_cased_is_not_float64(s, pos);
    assert(gives_up(spec_word_type(s, pos, lit("float64"), SqlTypeView::Float64)));
    lemma_other_than_datetime64(s, pos);
    assert(gives_up(spec_date_time64_type(s, pos)));
    lemma_other_than_datetime(s, pos);
    assert(gives_up(spec_date_time_type(s, pos)));
    lemma_other_than_date(s, pos);
    assert(gives_up(spec_word_type(s, pos, lit("date"), SqlTypeView::Date)));
}

/// Where `Enum` stands, what the rule of its type reads is what the
/// grammar of types reads.
pub proof fn lemma_chain_enum(s: Seq<u8>, pos: int, depth: nat, r: (SqlTypeView, int))
    requires
        has_tag(s, pos, lit("Enum")),
        spec_enum_type(s, pos) == Ok::<(SqlTypeView, int), ParseError>(r),
    ensures
        spec_type_identifier(s, pos, depth) == Ok::<(SqlTypeView, int), ParseError>(r),
{
    lemma_bytes_enum_cased();
    lemma_tag_byte(s, pos, lit("Enum"), 0);
    lemma_tag_bounds(s, pos, lit("Enum"));
    lemma_other_than_int(s, pos);
    assert(gives_up(spec_int_type(s, pos)));
    lemma_other_than_uint(s, pos);
    assert(gives_up(spec_uint_type(s, pos)));
}

/// Where `Array(` stands, what the rule of its type reads is what the
/// grammar of types reads.
pub proof fn lemma_chain_array(s: Seq<u8>, pos: int, depth: nat, r: (SqlTypeView, int))
    requires
        has_tag(s, pos, lit("Array(")),
        spec_array_type(s, pos, depth) == Ok::<(SqlTypeView, int), ParseError>(r),
    ensures
        spec_type_identifier(s, pos, depth) == Ok::<(SqlTypeView, int), ParseError>(r),
{
    lemma_bytes_array_open_cased();
    lemma_tag_byte(s, pos, lit("Array("), 0);
    lemma_tag_bounds(s, pos, lit("Array("));
    lemma_other_than_int(s, pos);
    assert(gives_up(spec_int_type(s, pos)));
    lemma_other_than_uint(s, pos);
    assert(gives_up(spec_uint_type(s, pos)));
    lemma_other_than_enum(s, pos);
    assert(gives_up(spec_enum_type(s, pos)));
    lemma_other_than_string(s, pos);
    assert(gives_up(spec_word_type(s, pos, lit("string"), SqlTypeView::String)));
    lemma_other_than_float32(s, pos);
    assert(gives_up(spec_word_type(s, pos, lit("float32"), SqlTypeView::Float32)));
    lemma_other_than_float64(s, pos);
    assert(gives_up(spec_word_type(s, pos, lit("float64"), SqlTypeView::Float64)));
    lemma_other_than_datetime64(s, pos);
    assert(gives_up(spec_date_time64_type(s, pos)));
    lemma_other_than_datetime(s, pos);
    assert(gives_up(spec_date_time_type(s, pos)));
    lemma_other_than_date(s, pos);
    assert(gives_up(spec_word_type(s, pos, lit("date"), SqlTypeView::Date)));
    lemma_other_than_fixedstring_cased(s, pos);
    assert(gives_up(spec_fixed_string_type(s, pos)));
    lemma_other_than_ipv4(s, pos);
    assert(gives_up(spec_word_type(s, pos, lit("ipv4"), SqlTypeView::IPv4)));
    lemma_other_than_ipv6(s, pos);
    assert(gives_up(spec_word_type(s, pos, lit("ipv6"), SqlTypeView::IPv6)));
    lemma_other_than_uuid(s, pos);
    assert(gives_up(spec_word_type(s, pos, lit("uuid"), SqlTypeView::UUID)));
}

/// A closing bracket may stand behind a type.
pub proof fn lemma_bracket_ends_type(s: Seq<u8>, q: int)
    requires
        byte_at(s, q, ')' as u8),
    ensures
        type_ends(s, q),
        ws_end(s, q) == q,
{
    lemma_ws_stop(s, q);
}

/// A width of an integer type is read where it is written.
pub proof fn lemma_size64_read(s: Seq<u8>, pos: int, size: TypeSize)
    requires
        has_tag(s, pos, print_size(size)),
    ensures
        spec_type_size_suffix64(s, pos) == Ok::<(TypeSize, int), ParseError>(
            (size, pos + print_size(size).len()),
        ),
{
    lemma_bytes_8();
    lemma_bytes_16();
    lemma_bytes_32();
    lemma_bytes_64();
    match size {
        TypeSize::B8 => {},
        TypeSize::B16 => {
            lemma_tag_not_tag(s, pos, lit("16"), lit("8"), 0);
        },
        TypeSize::B32 => {
            lemma_tag_not_tag(s, pos, lit("32"), lit("8"), 0);
            lemma_tag_not_tag(s, pos, lit("32"), lit("16"), 0);
        },
        TypeSize::B64 => {
            lemma_tag_not_tag(s, pos, lit("64"), lit("8"), 0);
            lemma_tag_not_tag(s, pos, lit("64"), lit("16"), 0);
            lemma_tag_not_tag(s, pos, lit("64"), lit("32"), 0);
        },
    }
}

/// A width of an `Enum` is read where it is written.
pub proof fn lemma_size16_read(s: Seq<u8>, pos: int, size: TypeSize16)
    requires
        has_tag(s, pos, print_size16(size)),
    ensures
        spec_type_size_suffix16(s, pos) == Ok::<(TypeSize16, int), ParseError>(
            (size, pos + print_size16(size).len()),
        ),
{
    lemma_bytes_8();
    lemma_bytes_16();
    match size {
        TypeSize16::B8 => {},
        TypeSize16::B16 => {
            lemma_tag_not_tag(s, pos, lit("16"), lit("8"), 0);
        },
    }
}

/// A text between single quotes is read where it is written.
pub proof fn lemma_single_quoted_read(s: Seq<u8>, pos: int, t: Seq<u8>)
    requires
        valid_quoted(t),
        byte_at(s, pos, '\'' as u8),
        has_tag(s, pos + 1, t),
        byte_at(s, pos + 1 + t.len(), '\'' as u8),
    ensures
        single_quoted_end(s, pos) == Some(pos + 1 + t.len()),
        spec_single_quoted(s, pos) == Ok::<(Seq<u8>, int), ParseError>((t, pos + 2 + t.len())),
{
    let end = pos + 1 + t.len();
    lemma_tag_class(s, pos + 1, t, ByteClass::Except('\'' as u8));
    lemma_run_end_is(s, pos + 1, end, ByteClass::Except('\'' as u8));
    lemma_tag_is_subrange(s, pos + 1, t);
}

/// The parts of the text of an entry of an `Enum` stand where the text
/// stands: the quotes, the name, the sign of equality and the digits.
pub proof fn lemma_enum_entry_parts(s: Seq<u8>, pos: int, e: (Seq<u8>, i16))
    requires
        has_tag(s, pos, print_enum_entry(e)),
    ensures
        byte_at(s, pos, '\'' as u8),
        has_tag(s, pos + 1, e.0),
        byte_at(s, pos + 1 + e.0.len(), '\'' as u8),
        byte_at(s, pos + 2 + e.0.len(), ' ' as u8),
        byte_at(s, pos + 3 + e.0.len(), '=' as u8),
        byte_at(s, pos + 4 + e.0.len(), ' ' as u8),
        has_tag(s, pos + 5 + e.0.len(), print_i16(e.1)),
        print_enum_entry(e).len() == 5 + e.0.len() + print_i16(e.1).len(),
{
    lemma_bytes_quote();
    lemma_bytes_quote_space_eq_space();
    let q = pos + 1 + e.0.len();
    lemma_tag_split(s, pos, lit("'") + e.0 + lit("' = "), print_i16(e.1));
    lemma_tag_split(s, pos, lit("'") + e.0, lit("' = "));
    lemma_tag_split(s, pos, lit("'"), e.0);
    lemma_tag_byte(s, pos, lit("'"), 0);
    lemma_tag_byte(s, q, lit("' = "), 0);
    lemma_tag_byte(s, q, lit("' = "), 1);
    lemma_tag_byte(s, q, lit("' = "), 2);
    lemma_tag_byte(s, q, lit("' = "), 3);
}

/// An entry of an `Enum` is read where it is written.
pub proof fn lemma_enum_entry_read(s: Seq<u8>, pos: int, e: (Seq<u8>, i16))
    requires
        valid_quoted(e.0),
        has_tag(s, pos, print_enum_entry(e)),
        pos + print_enum_entry(e).len() == s.len() || !is_digit(s[pos + print_enum_entry(e).len()]),
    ensures
        spec_enum_value(s, pos) == Ok::<((Seq<u8>, i16), int), ParseError>(
            (e, pos + print_enum_entry(e).len()),
        ),
{
    let q = pos + 1 + e.0.len();
    lemma_enum_entry_parts(s, pos, e);
    lemma_ws_stop(s, pos);
    lemma_single_quoted_read(s, pos, e.0);
    lemma_signed16_read(s, q + 4, e.1);
    lemma_run_end_is(s, q + 1, q + 2, ByteClass::Space);
    lemma_run_end_is(s, q + 3, q + 4, ByteClass::Space);
}

/// A signed number of 16 bits is read where its decimal text stands before
/// a byte that is no digit. The text does not begin with white space.
pub proof fn lemma_signed16_read(s: Seq<u8>, pos: int, v: i16)
    requires
        has_tag(s, pos, print_i16(v)),
        pos + print_i16(v).len() == s.len() || !is_digit(s[pos + print_i16(v).len()]),
    ensures
        spec_signed16(s, pos) == Ok::<(i16, int), ParseError>((v, pos + print_i16(v).len())),
        pos < s.len(),
        !crate::scan::is_space(s[pos]),
{
    if v < 0 {
        let m = (-v) as nat;
        lemma_bytes_minus();
        lemma_tag_split(s, pos, lit("-"), decimal(m));
        lemma_tag_byte(s, pos, lit("-"), 0);
        lemma_digits_read(s, pos + 1, m);
    } else {
        let m = v as nat;
        lemma_decimal_digits(m);
        lemma_tag_byte(s, pos, decimal(m), 0);
        lemma_digits_read(s, pos, m);
    }
}

/// The text of the first `k` entries stands where the text of all stands.
pub proof fn lemma_enum_prefix(s: Seq<u8>, pos: int, values: Seq<(Seq<u8>, i16)>, k: int)
    requires
        1 <= k <= values.len(),
        has_tag(s, pos, print_enum_entries(values, values.len() as int)),
    ensures
        has_tag(s, pos, print_enum_entries(values, k)),
        k < values.len() ==> has_tag(s, pos + print_enum_entries(values, k).len(), lit(", "))
            && has_tag(
            s,
            pos + print_enum_entries(values, k).len() + 2,
            print_enum_entry(values[k]),
        ) && print_enum_entries(values, k + 1).len() == print_enum_entries(values, k).len() + 2
            + print_enum_entry(values[k]).len(),
    decreases values.len() - k,
{
    lemma_bytes_comma_space();
    if k < values.len() {
        lemma_enum_prefix(s, pos, values, k + 1);
        lemma_tag_split(
            s,
            pos,
            print_enum_entries(values, k) + lit(", "),
            print_enum_entry(values[k]),
        );
        lemma_tag_split(s, pos, print_enum_entries(values, k), lit(", "));
    }
}

/// Behind the first `k` entries no digit stands.
pub proof fn lemma_enum_follow(s: Seq<u8>, pos: int, values: Seq<(Seq<u8>, i16)>, k: int)
    requires
        1 <= k <= values.len(),
        has_tag(s, pos, print_enum_entries(values, values.len() as int)),
        byte_at(s, pos + print_enum_entries(values, values.len() as int).len(), ')' as u8),
    ensures
        pos + print_enum_entries(values, k).len() < s.len(),
        !is_digit(s[pos + print_enum_entries(values, k).len()]),
        k < values.len() ==> s[pos + print_enum_entries(values, k).len()] == ',' as u8,
{
    lemma_bytes_comma_space();
    if k < values.len() {
        lemma_enum_prefix(s, pos, values, k);
        lemma_tag_byte(s, pos + print_enum_entries(values, k).len(), lit(", "), 0);
    }
}

/// The entries of an `Enum` from the `k`-th on are read where they are
/// written.
pub proof fn lemma_enum_tail_read(s: Seq<u8>, pos: int, values: Seq<(Seq<u8>, i16)>, k: int)
    requires
        valid_enum_entries(values),
        1 <= k <= values.len(),
        has_tag(s, pos, print_enum_entries(values, values.len() as int)),
        byte_at(s, pos + print_enum_entries(values, values.len() as int).len(), ')' as u8),
    ensures
        spec_enum_values_tail(s, pos + print_enum_entries(values, k).len(), values.take(k))
            == Ok::<(Seq<(Seq<u8>, i16)>, int), ParseError>(
            (values, pos + print_enum_entries(values, values.len() as int).len()),
        ),
    decreases values.len() - k,
{
    lemma_bytes_comma_space();
    let n = values.len() as int;
    let here = pos + print_enum_entries(values, k).len();
    lemma_enum_prefix(s, pos, values, k);
    lemma_tag_bounds(s, pos, print_enum_entries(values, k));
    if k == n {
        assert(values.take(k) =~= values);
        lemma_ws_stop(s, here);
    } else {
        let e = values[k];
        lemma_tag_byte(s, here, lit(", "), 0);
        lemma_tag_byte(s, here, lit(", "), 1);
        lemma_ws_stop(s, here);
        let entry = here + 2;
        lemma_enum_entry_parts(s, entry, e);
        lemma_run_end_is(s, here + 1, entry, ByteClass::Space);
        assert(sep_comma_end(s, here) == Some(entry));
        lemma_enum_follow(s, pos, values, k + 1);
        lemma_enum_entry_read(s, entry, e);
        assert(values.take(k).push(e) =~= values.take(k + 1));
        lemma_enum_tail_read(s, pos, values, k + 1);
    }
}

/// The entries of an `Enum` are read where they are written before a
/// closing bracket.
pub proof fn lemma_enum_entries_read(s: Seq<u8>, pos: int, values: Seq<(Seq<u8>, i16)>)
    requires
        valid_enum_entries(values),
        has_tag(s, pos, print_enum_entries(values, values.len() as int)),
        byte_at(s, pos + print_enum_entries(values, values.len() as int).len(), ')' as u8),
    ensures
        spec_enum_values(s, pos) == Ok::<(Seq<(Seq<u8>, i16)>, int), ParseError>(
            (values, pos + print_enum_entries(values, values.len() as int).len()),
        ),
{
    lemma_enum_prefix(s, pos, values, 1);
    lemma_enum_follow(s, pos, values, 1);
    lemma_enum_entry_read(s, pos, values[0]);
    assert(values.take(1) =~= seq![values[0]]);
    lemma_enum_tail_read(s, pos, values, 1);
}

/// `Int` with a width is read where it is written.
pub proof fn lemma_int_read(s: Seq<u8>, pos: int, size: TypeSize, depth: nat)
    requires
        has_tag(s, pos, lit("Int") + print_size(size)),
    ensures
        spec_type_identifier(s, pos, depth) == Ok::<(SqlTypeView, int), ParseError>(
            (SqlTypeView::Int(size), pos + (lit("Int") + print_size(size)).len()),
        ),
{
    lemma_tag_split(s, pos, lit("Int"), print_size(size));
    lemma_int_cased_reads_as_int(s, pos);
    lemma_size64_read(s, pos + 3, size);
}

/// `UInt` with a width is read where it is written.
pub proof fn lemma_uint_read(s: Seq<u8>, pos: int, size: TypeSize, depth: nat)
    requires
        has_tag(s, pos, lit("UInt") + print_size(size)),
    ensures
        spec_type_identifier(s, pos, depth) == Ok::<(SqlTypeView, int), ParseError>(
            (SqlTypeView::UnsignedInt(size), pos + (lit("UInt") + print_size(size)).len()),
        ),
{
    lemma_tag_split(s, pos, lit("UInt"), print_size(size));
    lemma_uint_cased_reads_as_uint(s, pos);
    lemma_size64_read(s, pos + 4, size);
    assert(spec_uint_type(s, pos) == Ok::<(SqlTypeView, int), ParseError>(
        (SqlTypeView::UnsignedInt(size), pos + 4 + print_size(size).len()),
    ));
    lemma_chain_uint(
        s,
        pos,
        depth,
        (SqlTypeView::UnsignedInt(size), pos + 4 + print_size(size).len()),
    );
}

/// Where `UInt` stands, what the rule of its type reads is what the grammar
/// of types reads.
pub proof fn lemma_chain_uint(s: Seq<u8>, pos: int, depth: nat, r: (SqlTypeView, int))
    requires
        has_tag(s, pos, lit("UInt")),
        spec_uint_type(s, pos) == Ok::<(SqlTypeView, int), ParseError>(r),
    ensures
        spec_type_identifier(s, pos, depth) == Ok::<(SqlTypeView, int), ParseError>(r),
{
    lemma_bytes_uint_cased();
    lemma_tag_byte(s, pos, lit("UInt"), 0);
    lemma_other_than_int(s, pos);
    assert(gives_up(spec_int_type(s, pos)));
}

/// The parts of the text of an `Enum` stand where the text stands.
pub proof fn lemma_enum_parts(
    s: Seq<u8>,
    pos: int,
    size: Option<TypeSize16>,
    values: Seq<(Seq<u8>, i16)>,
)
    requires
        has_tag(s, pos, print_enum(size, values)),
    ensures
        has_tag(s, pos, lit("Enum")),
        has_tag(s, pos + 4, print_enum_width(size)),
        byte_at(s, pos + 4 + print_enum_width(size).len(), '(' as u8),
        has_tag(
            s,
            pos + 5 + print_enum_width(size).len(),
            print_enum_entries(values, values.len() as int),
        ),
        byte_at(
            s,
            pos + 5 + print_enum_width(size).len() + print_enum_entries(
                values,
                values.len() as int,
            ).len(),
            ')' as u8,
        ),
        print_enum(size, values).len() == 6 + print_enum_width(size).len() + print_enum_entries(
            values,
            values.len() as int,
        ).len(),
{
    lemma_bytes_open();
    lemma_bytes_close();
    reveal_strlit("Enum");
    lemma_lit("Enum");
    let width = print_enum_width(size);
    let entries = print_enum_entries(values, values.len() as int);
    lemma_tag_split(s, pos, lit("Enum") + width + lit("(") + entries, lit(")"));
    lemma_tag_split(s, pos, lit("Enum") + width + lit("("), entries);
    lemma_tag_split(s, pos, lit("Enum") + width, lit("("));
    lemma_tag_split(s, pos, lit("Enum"), width);
    lemma_tag_byte(s, pos + 4 + width.len(), lit("("), 0);
    lemma_tag_byte(s, pos + 5 + width.len() + entries.len(), lit(")"), 0);
}

/// The width of an `Enum` is read where it is written before an opening
/// bracket, and none where none is written.
pub proof fn lemma_enum_width_read(s: Seq<u8>, pos: int, size: Option<TypeSize16>)
    requires
        has_tag(s, pos, print_enum_width(size)),
        byte_at(s, pos + print_enum_width(size).len(), '(' as u8),
    ensures
        match size {
            Some(size) => spec_type_size_suffix16(s, pos) == Ok::<(TypeSize16, int), ParseError>(
                (size, pos + print_enum_width(Some(size)).len()),
            ),
            None => spec_type_size_suffix16(s, pos) is Err,
        },
{
    lemma_bytes_8();
    lemma_bytes_16();
    match size {
        Some(size) => {
            lemma_size16_read(s, pos, size);
        },
        None => {
            lemma_not_tag(s, pos, lit("8"), 0);
            lemma_not_tag(s, pos, lit("16"), 0);
        },
    }
}

/// The rule for `Enum` reads it where it is written.
pub proof fn lemma_enum_rule(
    s: Seq<u8>,
    pos: int,
    size: Option<TypeSize16>,
    values: Seq<(Seq<u8>, i16)>,
)
    requires
        valid_enum_entries(values),
        has_tag(s, pos, print_enum(size, values)),
    ensures
        spec_enum_type(s, pos) == Ok::<(SqlTypeView, int), ParseError>(
            (SqlTypeView::Enum(size, values), pos + print_enum(size, values).len()),
        ),
        has_tag(s, pos, lit("Enum")),
{
    lemma_enum_parts(s, pos, size, values);
    lemma_enum_cased_reads_as_enum(s, pos);
    lemma_enum_width_read(s, pos + 4, size);
    lemma_enum_entries_read(s, pos + 5 + print_enum_width(size).len(), values);
}

/// An `Enum` is read where it is written.
pub proof fn lemma_enum_read(
    s: Seq<u8>,
    pos: int,
    size: Option<TypeSize16>,
    values: Seq<(Seq<u8>, i16)>,
    depth: nat,
)
    requires
        valid_enum_entries(values),
        has_tag(s, pos, print_enum(size, values)),
    ensures
        spec_type_identifier(s, pos, depth) == Ok::<(SqlTypeView, int), ParseError>(
            (SqlTypeView::Enum(size, values), pos + print_enum(size, values).len()),
        ),
{
    lemma_enum_rule(s, pos, size, values);
    lemma_chain_enum(
        s,
        pos,
        depth,
        (SqlTypeView::Enum(size, values), pos + print_enum(size, values).len()),
    );
}

/// `String` is read where it is written.
pub proof fn lemma_string_read(s: Seq<u8>, pos: int, depth: nat)
    requires
        has_tag(s, pos, lit("String")),
        type_ends(s, pos + lit("String").len()),
    ensures
        spec_type_identifier(s, pos, depth) == Ok::<(SqlTypeView, int), ParseError>(
            (SqlTypeView::String, pos + lit("String").len()),
        ),
{
    lemma_bytes_string_cased();
    lemma_tag_byte(s, pos, lit("String"), 0);
    lemma_tag_bounds(s, pos, lit("String"));
    lemma_other_than_int(s, pos);
    assert(gives_up(spec_int_type(s, pos)));
    lemma_other_than_uint(s, pos);
    assert(gives_up(spec_uint_type(s, pos)));
    lemma_other_than_enum(s, pos);
    assert(gives_up(spec_enum_type(s, pos)));
    lemma_string_cased_reads_as_string(s, pos);
}

/// `Float32` is read where it is written.
pub proof fn lemma_float32_read(s: Seq<u8>, pos: int, depth: nat)
    requires
        has_tag(s, pos, lit("Float32")),
        type_ends(s, pos + lit("Float32").len()),
    ensures
        spec_type_identifier(s, pos, depth) == Ok::<(SqlTypeView, int), ParseError>(
            (SqlTypeView::Float32, pos + lit("Float32").len()),
        ),
{
    lemma_bytes_float32_cased();
    lemma_tag_byte(s, pos, lit("Float32"), 0);
    lemma_tag_bounds(s, pos, lit("Float32"));
    lemma_other_than_int(s, pos);
    assert(gives_up(spec_int_type(s, pos)));
    lemma_other_than_uint(s, pos);
    assert(gives_up(spec_uint_type(s, pos)));
    lemma_other_than_enum(s, pos);
    assert(gives_up(spec_enum_type(s, pos)));
    lemma_other_than_string(s, pos);
    assert(gives_up(spec_word_type(s, pos, lit("string"), SqlTypeView::String)));
    lemma_float32_cased_reads_as_float32(s, pos);
}

/// `Float64` is read where it is written.
pub proof fn lemma_float64_read(s: Seq<u8>, pos: int, depth: nat)
    requires
        has_tag(s, pos, lit("Float64")),
        type_ends(s, pos + lit("Float64").len()),
    ensures
        spec_type_identifier(s, pos, depth) == Ok::<(SqlTypeView, int), ParseError>(
            (SqlTypeView::Float64, pos + lit("Float64").len()),
        ),
{
    lemma_bytes_float64_cased();
    lemma_tag_byte(s, pos, lit("Float64"), 0);
    lemma_tag_bounds(s, pos, lit("Float64"));
    lemma_other_than_int(s, pos);
    assert(gives_up(spec_int_type(s, pos)));
    lemma_other_than_uint(s, pos);
    assert(gives_up(spec_uint_type(s, pos)));
    lemma_other_than_enum(s, pos);
    assert(gives_up(spec_enum_type(s, pos)));
    lemma_other_than_string(s, pos);
    assert(gives_up(spec_word_type(s, pos, lit("string"), SqlTypeView::String)));
    lemma_float64_cased_is_not_float32(s, pos);
    assert(gives_up(spec_word_type(s, pos, lit("float32"), SqlTypeView::Float32)));
    lemma_float64_cased_reads_as_float64(s, pos);
}

/// `Date` is read where it is written.
pub proof fn lemma_date_read(s: Seq<u8>, pos: int, depth: nat)
    requires
        has_tag(s, pos, lit("Date")),
        type_ends(s, pos + lit("Date").len()),
    ensures
        spec_type_identifier(s, pos, depth) == Ok::<(SqlTypeView, int), ParseError>(
            (SqlTypeView::Date, pos + lit("Date").len()),
        ),
{
    lemma_bytes_date_cased();
    lemma_tag_byte(s, pos, lit("Date"), 0);
    lemma_tag_bounds(s, pos, lit("Date"));
    lemma_other_than_int(s, pos);
    assert(gives_up(spec_int_type(s, pos)));
    lemma_other_than_uint(s, pos);
    assert(gives_up(spec_uint_type(s, pos)));
    lemma_other_than_enum(s, pos);
    assert(gives_up(spec_enum_type(s, pos)));
    lemma_other_than_string(s, pos);
    assert(gives_up(spec_word_type(s, pos, lit("string"), SqlTypeView::String)));
    lemma_other_than_float32(s, pos);
    assert(gives_up(spec_word_type(s, pos, lit("float32"), SqlTypeView::Float32)));
    lemma_other_than_float64(s, pos);
    assert(gives_up(spec_word_type(s, pos, lit("float64"), SqlTypeView::Float64)));
    lemma_date_cased_is_not_datetime64(s, pos);
    assert(gives_up(spec_date_time64_type(s, pos)));
    lemma_date_cased_is_not_datetime(s, pos);
    assert(gives_up(spec_date_time_type(s, pos)));
    lemma_date_cased_reads_as_date(s, pos);
}

/// `IPv4` is read where it is written.
pub proof fn lemma_ipv4_read(s: Seq<u8>, pos: int, depth: nat)
    requires
        has_tag(s, pos, lit("IPv4")),
        type_ends(s, pos + lit("IPv4").len()),
    ensures
        spec_type_identifier(s, pos, depth) == Ok::<(SqlTypeView, int), ParseError>(
            (SqlTypeView::IPv4, pos + lit("IPv4").len()),
        ),
{
    lemma_bytes_ipv4_cased();
    lemma_tag_byte(s, pos, lit("IPv4"), 0);
    lemma_tag_bounds(s, pos, lit("IPv4"));
    lemma_ipv4_cased_is_not_int(s, pos);
    assert(gives_up(spec_int_type(s, pos)));
    lemma_other_than_uint(s, pos);
    assert(gives_up(spec_uint_type(s, pos)));
    lemma_other_than_enum(s, pos);
    assert(gives_up(spec_enum_type(s, pos)));
    lemma_other_than_string(s, pos);
    assert(gives_up(spec_word_type(s, pos, lit("string"), SqlTypeView::String)));
    lemma_other_than_float32(s, pos);
    assert(gives_up(spec_word_type(s, pos, lit("float32"), SqlTypeView::Float32)));
    lemma_other_than_float64(s, pos);
    assert(gives_up(spec_word_type(s, pos, lit("float64"), SqlTypeView::Float64)));
    lemma_other_than_datetime64(s, pos);
    assert(gives_up(spec_date_time64_type(s, pos)));
    lemma_other_than_datetime(s, pos);
    assert(gives_up(spec_date_time_type(s, pos)));
    lemma_other_than_date(s, pos);
    assert(gives_up(spec_word_type(s, pos, lit("date"), SqlTypeView::Date)));
    lemma_other_than_fixedstring_cased(s, pos);
    assert(gives_up(spec_fixed_string_type(s, pos)));
    lemma_ipv4_cased_reads_as_ipv4(s, pos);
}

/// `IPv6` is read where it is written.
pub proof fn lemma_ipv6_read(s: Seq<u8>, pos: int, depth: nat)
    requires
        has_tag(s, pos, lit("IPv6")),
        type_ends(s, pos + lit("IPv6").len()),
    ensures
        spec_type_identifier(s, pos, depth) == Ok::<(SqlTypeView, int), ParseError>(
            (SqlTypeView::IPv6, pos + lit("IPv6").len()),
        ),
{
    lemma_bytes_ipv6_cased();
    lemma_tag_byte(s, pos, lit("IPv6"), 0);
    lemma_tag_bounds(s, pos, lit("IPv6"));
    lemma_ipv6_cased_is_not_int(s, pos);
    assert(gives_up(spec_int_type(s, pos)));
    lemma_other_than_uint(s, pos);
    assert(gives_up(spec_uint_type(s, pos)));
    lemma_other_than_enum(s, pos);
    assert(gives_up(spec_enum_type(s, pos)));
    lemma_other_than_string(s, pos);
    assert(gives_up(spec_word_type(s, pos, lit("string"), SqlTypeView::String)));
    lemma_other_than_float32(s, pos);
    assert(gives_up(spec_word_type(s, pos, lit("float32"), SqlTypeView::Float32)));
    lemma_other_than_float64(s, pos);
    assert(gives_up(spec_word_type(s, pos, lit("float64"), SqlTypeView::Float64)));
    lemma_other_than_datetime64(s, pos);
    assert(gives_up(spec_date_time64_type(s, pos)));
    lemma_other_than_datetime(s, pos);
    assert(gives_up(spec_date_time_type(s, pos)));
    lemma_other_than_date(s, pos);
    assert(gives_up(spec_word_type(s, pos, lit("date"), SqlTypeView::Date)));
    lemma_other_than_fixedstring_cased(s, pos);
    assert(gives_up(spec_fixed_string_type(s, pos)));
    lemma_ipv6_cased_is_not_ipv4(s, pos);
    assert(gives_up(spec_word_type(s, pos, lit("ipv4"), SqlTypeView::IPv4)));
    lemma_ipv6_cased_reads_as_ipv6(s, pos);
}

/// `UUID` is read where it is written.
pub proof fn lemma_uuid_read(s: Seq<u8>, pos: int, depth: nat)
    requires
        has_tag(s, pos, lit("UUID")),
        type_ends(s, pos + lit("UUID").len()),
    ensures
        spec_type_identifier(s, pos, depth) == Ok::<(SqlTypeView, int), ParseError>(
            (SqlTypeView::UUID, pos + lit("UUID").len()),
        ),
{
    lemma_bytes_uuid_cased();
    lemma_tag_byte(s, pos, lit("UUID"), 0);
    lemma_tag_bounds(s, pos, lit("UUID"));
    lemma_other_than_int(s, pos);
    assert(gives_up(spec_int_type(s, pos)));
    lemma_uuid_cased_is_not_uint(s, pos);
    assert(gives_up(spec_uint_type(s, pos)));
    lemma_other_than_enum(s, pos);
    assert(gives_up(spec_enum_type(s, pos)));
    lemma_other_than_string(s, pos);
    assert(gives_up(spec_word_type(s, pos, lit("string"), SqlTypeView::String)));
    lemma_other_than_float32(s, pos);
    assert(gives_up(spec_word_type(s, pos, lit("float32"), SqlTypeView::Float32)));
    lemma_other_than_float64(s, pos);
    assert(gives_up(spec_word_type(s, pos, lit("float64"), SqlTypeView::Float64)));
    lemma_other_than_datetime64(s, pos);
    assert(gives_up(spec_date_time64_type(s, pos)));
    lemma_other_than_datetime(s, pos);
    assert(gives_up(spec_date_time_type(s, pos)));
    lemma_other_than_date(s, pos);
    assert(gives_up(spec_word_type(s, pos, lit("date"), SqlTypeView::Date)));
    lemma_other_than_fixedstring_cased(s, pos);
    assert(gives_up(spec_fixed_string_type(s, pos)));
    lemma_other_than_ipv4(s, pos);
    assert(gives_up(spec_word_type(s, pos, lit("ipv4"), SqlTypeView::IPv4)));
    lemma_other_than_ipv6(s, pos);
    assert(gives_up(spec_word_type(s, pos, lit("ipv6"), SqlTypeView::IPv6)));
    lemma_uuid_cased_reads_as_uuid(s, pos);
}

/// A type that is one word is read where it is written.
pub proof fn lemma_plain_read(s: Seq<u8>, pos: int, t: SqlTypeView, depth: nat)
    requires
        t == SqlTypeView::String || t == SqlTypeView::Float32 || t == SqlTypeView::Float64 || t
            == SqlTypeView::Date || t == SqlTypeView::IPv4 || t == SqlTypeView::IPv6 || t
            == SqlTypeView::UUID,
        has_tag(s, pos, print_type(t)),
        type_ends(s, pos + print_type(t).len()),
    ensures
        spec_type_identifier(s, pos, depth) == Ok::<(SqlTypeView, int), ParseError>(
            (t, pos + print_type(t).len()),
        ),
{
    match t {
        SqlTypeView::String => {
            lemma_string_read(s, pos, depth);
        },
        SqlTypeView::Float32 => {
            lemma_float32_read(s, pos, depth);
        },
        SqlTypeView::Float64 => {
            lemma_float64_read(s, pos, depth);
        },
        SqlTypeView::Date => {
            lemma_date_read(s, pos, depth);
        },
        SqlTypeView::IPv4 => {
            lemma_ipv4_read(s, pos, depth);
        },
        SqlTypeView::IPv6 => {
            lemma_ipv6_read(s, pos, depth);
        },
        SqlTypeView::UUID => {
            lemma_uuid_read(s, pos, depth);
        },
        _ => {},
    }
}

/// A `DateTime` without time zone is read where it is written.
pub proof fn lemma_date_time_plain_read(s: Seq<u8>, pos: int, depth: nat)
    requires
        has_tag(s, pos, lit("DateTime")),
        type_ends(s, pos + lit("DateTime").len()),
    ensures
        spec_type_identifier(s, pos, depth) == Ok::<(SqlTypeView, int), ParseError>(
            (SqlTypeView::DateTime(None), ws_end(s, pos + lit("DateTime").len())),
        ),
{
    lemma_datetime_cased_reads_as_datetime(s, pos);
    assert(spec_zone_in_brackets(s, ws_end(s, pos + 8)) == Ok::<(Option<Seq<u8>>, int), ParseError>(
        (None, ws_end(s, pos + 8)),
    ));
    lemma_chain_date_time(s, pos, depth, (SqlTypeView::DateTime(None), ws_end(s, pos + 8)));
}

/// The brackets with the time zone of a `DateTime` are read where they are
/// written.
pub proof fn lemma_zone_in_brackets_read(s: Seq<u8>, pos: int, z: Seq<u8>)
    requires
        valid_quoted(z),
        byte_at(s, pos, '(' as u8),
        byte_at(s, pos + 1, '\'' as u8),
        has_tag(s, pos + 2, z),
        byte_at(s, pos + 2 + z.len(), '\'' as u8),
        byte_at(s, pos + 3 + z.len(), ')' as u8),
    ensures
        spec_zone_in_brackets(s, pos) == Ok::<(Option<Seq<u8>>, int), ParseError>(
            (Some(z), pos + 4 + z.len()),
        ),
{
    lemma_ws_stop(s, pos + 1);
    lemma_single_quoted_read(s, pos + 1, z);
    lemma_ws_stop(s, pos + 3 + z.len());
}

/// The parts of the text of a `DateTime` with a time zone stand where the
/// text stands.
pub proof fn lemma_date_time_zone_parts(s: Seq<u8>, pos: int, z: Seq<u8>)
    requires
        has_tag(s, pos, lit("DateTime('") + z + lit("')")),
    ensures
        has_tag(s, pos, lit("DateTime('")),
        byte_at(s, pos + 8, '(' as u8),
        byte_at(s, pos + 9, '\'' as u8),
        has_tag(s, pos + 10, z),
        byte_at(s, pos + 10 + z.len(), '\'' as u8),
        byte_at(s, pos + 11 + z.len(), ')' as u8),
        (lit("DateTime('") + z + lit("')")).len() == 12 + z.len(),
{
    lemma_bytes_datetime_open_quote_cased();
    reveal_strlit("')");
    lemma_lit("')");
    lemma_tag_split(s, pos, lit("DateTime('") + z, lit("')"));
    lemma_tag_split(s, pos, lit("DateTime('"), z);
    lemma_tag_byte(s, pos, lit("DateTime('"), 8);
    lemma_tag_byte(s, pos, lit("DateTime('"), 9);
    lemma_tag_byte(s, pos + 10 + z.len(), lit("')"), 0);
    lemma_tag_byte(s, pos + 10 + z.len(), lit("')"), 1);
}

/// A `DateTime` with a time zone is read where it is written.
pub proof fn lemma_date_time_zone_read(s: Seq<u8>, pos: int, z: Seq<u8>, depth: nat)
    requires
        valid_quoted(z),
        has_tag(s, pos, lit("DateTime('") + z + lit("')")),
    ensures
        spec_type_identifier(s, pos, depth) == Ok::<(SqlTypeView, int), ParseError>(
            (SqlTypeView::DateTime(Some(z)), pos + (lit("DateTime('") + z + lit("')")).len()),
        ),
{
    lemma_date_time_zone_parts(s, pos, z);
    lemma_datetime_open_quote_cased_reads_as_datetime(s, pos);
    lemma_ws_stop(s, pos + 8);
    lemma_zone_in_brackets_read(s, pos + 8, z);
    lemma_chain_date_time_zone(
        s,
        pos,
        depth,
        (SqlTypeView::DateTime(Some(z)), pos + 12 + z.len()),
    );
}

/// A `DateTime` is read where it is written.
pub proof fn lemma_date_time_read(s: Seq<u8>, pos: int, zone: Option<Seq<u8>>, depth: nat)
    requires
        zone is Some ==> valid_quoted(zone->0),
        has_tag(s, pos, print_date_time(zone)),
        type_ends(s, pos + print_date_time(zone).len()),
    ensures
        spec_type_identifier(s, pos, depth) == Ok::<(SqlTypeView, int), ParseError>(
            (
                SqlTypeView::DateTime(zone),
                type_end(SqlTypeView::DateTime(zone), s, pos + print_date_time(zone).len()),
            ),
        ),
{
    match zone {
        None => {
            lemma_date_time_plain_read(s, pos, depth);
        },
        Some(z) => {
            lemma_date_time_zone_read(s, pos, z, depth);
        },
    }
}

/// The time zone of a `DateTime64` is read where it is written.
pub proof fn lemma_zone_after_comma_read(s: Seq<u8>, pos: int, z: Seq<u8>)
    requires
        valid_quoted(z),
        has_tag(s, pos, lit(", '")),
        has_tag(s, pos + 3, z),
        byte_at(s, pos + 3 + z.len(), '\'' as u8),
    ensures
        spec_zone_after_comma(s, pos) == Ok::<(Option<Seq<u8>>, int), ParseError>(
            (Some(z), pos + 4 + z.len()),
        ),
{
    lemma_bytes_comma_space_quote();
    lemma_tag_byte(s, pos, lit(", '"), 0);
    lemma_tag_byte(s, pos, lit(", '"), 1);
    lemma_tag_byte(s, pos, lit(", '"), 2);
    lemma_run_end_is(s, pos + 1, pos + 2, ByteClass::Space);
    lemma_single_quoted_read(s, pos + 2, z);
}

/// The rule for `DateTime64` reads it where it is written.
pub proof fn lemma_date_time64_rule(s: Seq<u8>, pos: int, precision: u8, zone: Option<Seq<u8>>)
    requires
        precision <= 9,
        zone is Some ==> valid_quoted(zone->0),
        has_tag(s, pos, print_date_time64(precision, zone)),
    ensures
        spec_date_time64_type(s, pos) == Ok::<(SqlTypeView, int), ParseError>(
            (
                SqlTypeView::DateTime64(precision, zone),
                pos + print_date_time64(precision, zone).len(),
            ),
        ),
        has_tag(s, pos, lit("DateTime64(")),
{
    lemma_bytes_datetime64_open_cased();
    lemma_bytes_close();
    lemma_bytes_comma_space_quote();
    lemma_bytes_quote_close();
    let digit = decimal(precision as nat);
    assert(digit.len() == 1 && digit[0] == ('0' as u8 + precision) as u8);
    match zone {
        None => {
            lemma_tag_split(s, pos, lit("DateTime64(") + digit, lit(")"));
        },
        Some(z) => {
            lemma_tag_split(s, pos, lit("DateTime64(") + digit + lit(", '") + z, lit("')"));
            lemma_tag_split(s, pos, lit("DateTime64(") + digit + lit(", '"), z);
            lemma_tag_split(s, pos, lit("DateTime64(") + digit, lit(", '"));
        },
    }
    lemma_tag_split(s, pos, lit("DateTime64("), digit);
    lemma_tag_byte(s, pos, lit("DateTime64("), 10);
    lemma_tag_byte(s, pos + 11, digit, 0);
    lemma_datetime64_open_cased_reads_as_datetime64(s, pos);
    lemma_ws_stop(s, pos + 10);
    lemma_ws_stop(s, pos + 11);
    match zone {
        None => {
            lemma_tag_byte(s, pos + 12, lit(")"), 0);
            lemma_ws_stop(s, pos + 12);
        },
        Some(z) => {
            let c = pos + 12;
            lemma_tag_byte(s, c, lit(", '"), 0);
            lemma_tag_byte(s, c + 3 + z.len(), lit("')"), 0);
            lemma_tag_byte(s, c + 3 + z.len(), lit("')"), 1);
            lemma_ws_stop(s, c);
            lemma_zone_after_comma_read(s, c, z);
            lemma_ws_stop(s, c + 4 + z.len());
        },
    }
}

/// A `DateTime64` is read where it is written.
pub proof fn lemma_date_time64_read(
    s: Seq<u8>,
    pos: int,
    precision: u8,
    zone: Option<Seq<u8>>,
    depth: nat,
)
    requires
        precision <= 9,
        zone is Some ==> valid_quoted(zone->0),
        has_tag(s, pos, print_date_time64(precision, zone)),
    ensures
        spec_type_identifier(s, pos, depth) == Ok::<(SqlTypeView, int), ParseError>(
            (
                SqlTypeView::DateTime64(precision, zone),
                pos + print_date_time64(precision, zone).len(),
            ),
        ),
{
    lemma_date_time64_rule(s, pos, precision, zone);
    lemma_chain_date_time64(
        s,
        pos,
        depth,
        (SqlTypeView::DateTime64(precision, zone), pos + print_date_time64(precision, zone).len()),
    );
}

/// The rule for `FixedString` reads it where it is written.
pub proof fn lemma_fixed_string_rule(s: Seq<u8>, pos: int, size: usize)
    requires
        has_tag(s, pos, lit("FixedString(") + decimal(size as nat) + lit(")")),
    ensures
        spec_fixed_string_type(s, pos) == Ok::<(SqlTypeView, int), ParseError>(
            (
                SqlTypeView::FixedString(size),
                pos + (lit("FixedString(") + decimal(size as nat) + lit(")")).len(),
            ),
        ),
        has_tag(s, pos, lit("FixedString(")),
{
    lemma_bytes_fixedstring_open_cased();
    lemma_bytes_close();
    let digits = decimal(size as nat);
    lemma_tag_split(s, pos, lit("FixedString(") + digits, lit(")"));
    lemma_tag_split(s, pos, lit("FixedString("), digits);
    lemma_tag_byte(s, pos, lit("FixedString("), 11);
    lemma_fixedstring_open_cased_reads_as_fixedstring_cased(s, pos);
    let close = pos + 12 + digits.len();
    lemma_tag_byte(s, close, lit(")"), 0);
    lemma_digits_read(s, pos + 12, size as nat);
    assert(spec_delim_digit(s, pos + 11) == Ok::<(u64, int), ParseError>(
        (size as u64, close + 1),
    ));
}

/// A `FixedString` is read where it is written.
pub proof fn lemma_fixed_string_read(s: Seq<u8>, pos: int, size: usize, depth: nat)
    requires
        has_tag(s, pos, lit("FixedString(") + decimal(size as nat) + lit(")")),
    ensures
        spec_type_identifier(s, pos, depth) == Ok::<(SqlTypeView, int), ParseError>(
            (
                SqlTypeView::FixedString(size),
                pos + (lit("FixedString(") + decimal(size as nat) + lit(")")).len(),
            ),
        ),
{
    lemma_fixed_string_rule(s, pos, size);
    lemma_chain_fixed_string(
        s,
        pos,
        depth,
        (
            SqlTypeView::FixedString(size),
            pos + (lit("FixedString(") + decimal(size as nat) + lit(")")).len(),
        ),
    );
}

/// No type is read where none of the first letters of the types stands.
pub proof fn lemma_no_type(s: Seq<u8>, pos: int, depth: nat)
    requires
        0 <= pos,
        pos >= s.len() || !(lower(s[pos]) == 'i' as u8 || lower(s[pos]) == 'u' as u8 || lower(
            s[pos],
        ) == 'e' as u8 || lower(s[pos]) == 's' as u8 || lower(s[pos]) == 'f' as u8 || lower(
            s[pos],
        ) == 'd' as u8 || lower(s[pos]) == 'a' as u8),
    ensures
        spec_type_identifier(s, pos, depth) == Err::<(SqlTypeView, int), ParseError>(
            syntax(ErrorKind::Type, pos),
        ),
{
    lemma_other_than_int(s, pos);
    assert(gives_up(spec_int_type(s, pos)));
    lemma_other_than_uint(s, pos);
    assert(gives_up(spec_uint_type(s, pos)));
    lemma_other_than_enum(s, pos);
    assert(gives_up(spec_enum_type(s, pos)));
    lemma_other_than_string(s, pos);
    assert(gives_up(spec_word_type(s, pos, lit("string"), SqlTypeView::String)));
    lemma_other_than_float32(s, pos);
    assert(gives_up(spec_word_type(s, pos, lit("float32"), SqlTypeView::Float32)));
    lemma_other_than_float64(s, pos);
    assert(gives_up(spec_word_type(s, pos, lit("float64"), SqlTypeView::Float64)));
    lemma_other_than_datetime64(s, pos);
    assert(gives_up(spec_date_time64_type(s, pos)));
    lemma_other_than_datetime(s, pos);
    assert(gives_up(spec_date_time_type(s, pos)));
    lemma_other_than_date(s, pos);
    assert(gives_up(spec_word_type(s, pos, lit("date"), SqlTypeView::Date)));
    lemma_other_than_fixedstring_cased(s, pos);
    assert(gives_up(spec_fixed_string_type(s, pos)));
    lemma_other_than_ipv4(s, pos);
    assert(gives_up(spec_word_type(s, pos, lit("ipv4"), SqlTypeView::IPv4)));
    lemma_other_than_ipv6(s, pos);
    assert(gives_up(spec_word_type(s, pos, lit("ipv6"), SqlTypeView::IPv6)));
    lemma_other_than_uuid(s, pos);
    assert(gives_up(spec_word_type(s, pos, lit("uuid"), SqlTypeView::UUID)));
    lemma_other_than_array(s, pos);
    assert(gives_up(spec_array_type(s, pos, depth)));
}

/// The first byte of the text of a type is one of `S I U E D F A`.
pub proof fn lemma_type_first_byte(t: SqlTypeView)
    ensures
        print_type(t).len() > 0,
        print_type(t)[0] == 'S' as u8 || print_type(t)[0] == 'I' as u8 || print_type(t)[0]
            == 'U' as u8 || print_type(t)[0] == 'E' as u8 || print_type(t)[0] == 'D' as u8
            || print_type(t)[0] == 'F' as u8 || print_type(t)[0] == 'A' as u8,
{
    lemma_bytes_string_cased();
    lemma_bytes_int_cased();
    lemma_bytes_uint_cased();
    lemma_bytes_enum_cased();
    lemma_bytes_date_cased();
    lemma_bytes_datetime_cased();
    lemma_bytes_datetime_open_quote_cased();
    lemma_bytes_datetime64_open_cased();
    lemma_bytes_float32_cased();
    lemma_bytes_float64_cased();
    lemma_bytes_fixedstring_open_cased();
    lemma_bytes_ipv4_cased();
    lemma_bytes_ipv6_cased();
    lemma_bytes_uuid_cased();
    lemma_bytes_array_open_cased();
    match t {
        SqlTypeView::Enum(size, values) => {
            assert(print_enum(size, values)[0] == lit("Enum")[0]);
        },
        SqlTypeView::DateTime(zone) => {
            match zone {
                Some(z) => {
                    assert(print_date_time(zone)[0] == lit("DateTime('")[0]);
                },
                None => {},
            }
        },
        SqlTypeView::DateTime64(precision, zone) => {
            assert(print_date_time64(precision, zone)[0] == lit("DateTime64(")[0]);
        },
        SqlTypeView::Int(size) => {
            assert(print_type(t)[0] == lit("Int")[0]);
        },
        SqlTypeView::UnsignedInt(size) => {
            assert(print_type(t)[0] == lit("UInt")[0]);
        },
        SqlTypeView::FixedString(size) => {
            assert(print_type(t)[0] == lit("FixedString(")[0]);
        },
        SqlTypeView::Array(inner) => {
            assert(print_type(t)[0] == lit("Array(")[0]);
        },
        _ => {},
    }
}

/// Where the grammar ends a type with wrappers whose text ends at `q`.
pub open spec fn opts_end(t: SqlTypeOptsView, s: Seq<u8>, q: int) -> int {
    if !t.nullable && !t.lowcardinality {
        type_end(t.ftype, s, q)
    } else {
        q
    }
}

/// The parts of the text of an `Array` stand where the text stands.
pub proof fn lemma_array_parts(s: Seq<u8>, pos: int, inner: SqlTypeOptsView)
    requires
        has_tag(s, pos, lit("Array(") + print_type_opts(inner) + lit(")")),
    ensures
        has_tag(s, pos, lit("Array(")),
        byte_at(s, pos + 5, '(' as u8),
        has_tag(s, pos + 6, print_type_opts(inner)),
        byte_at(s, pos + 6 + print_type_opts(inner).len(), ')' as u8),
        (lit("Array(") + print_type_opts(inner) + lit(")")).len() == 7 + print_type_opts(
            inner,
        ).len(),
{
    lemma_bytes_array_open_cased();
    lemma_bytes_close();
    lemma_tag_split(s, pos, lit("Array(") + print_type_opts(inner), lit(")"));
    lemma_tag_split(s, pos, lit("Array("), print_type_opts(inner));
    lemma_tag_byte(s, pos, lit("Array("), 5);
    lemma_tag_byte(s, pos + 6 + print_type_opts(inner).len(), lit(")"), 0);
}

/// The parts of the text of a type in a wrapper stand where the text
/// stands.
pub proof fn lemma_wrapper_parts(s: Seq<u8>, pos: int, open: Seq<u8>, t: Seq<u8>, close: Seq<u8>)
    requires
        has_tag(s, pos, open + t + close),
    ensures
        has_tag(s, pos, open),
        has_tag(s, pos + open.len(), t),
        has_tag(s, pos + open.len() + t.len(), close),
        (open + t + close).len() == open.len() + t.len() + close.len(),
{
    lemma_tag_split(s, pos, open + t, close);
    lemma_tag_split(s, pos, open, t);
}

/// No wrapper is read where a type stands.
pub proof fn lemma_no_wrapper(s: Seq<u8>, pos: int, t: SqlTypeView, depth: nat)
    requires
        has_tag(s, pos, print_type(t)),
    ensures
        gives_up(spec_wrapped_type(s, pos, depth, lit("Nullable("), lit(")"), true, false)),
        gives_up(spec_wrapped_type(s, pos, depth, lit("LowCardinality("), lit(")"), false, true)),
        gives_up(
            spec_wrapped_type(
                s,
                pos,
                depth,
                lit("LowCardinality(Nullable("),
                lit("))"),
                true,
                true,
            ),
        ),
{
    lemma_type_first_byte(t);
    lemma_tag_byte(s, pos, print_type(t), 0);
    lemma_bytes_nullable_open_cased();
    lemma_bytes_lowcardinality_open_cased();
    lemma_bytes_lowcardinality_open_nullable_open_cased();
    lemma_not_word(s, pos, lit("Nullable("), 0);
    lemma_not_word(s, pos, lit("LowCardinality("), 0);
    lemma_not_word(s, pos, lit("LowCardinality(Nullable("), 0);
}

/// A type is read where its canonical text stands before what may stand
/// behind a type.
#[verifier::rlimit(30)]
pub proof fn lemma_type_read(s: Seq<u8>, pos: int, t: SqlTypeView, depth: nat)
    requires
        valid_type(t, depth),
        has_tag(s, pos, print_type(t)),
        type_ends(s, pos + print_type(t).len()),
    ensures
        spec_type_identifier(s, pos, depth) == Ok::<(SqlTypeView, int), ParseError>(
            (t, type_end(t, s, pos + print_type(t).len())),
        ),
    decreases t, 0int,
{
    match t {
        SqlTypeView::Int(size) => {
            lemma_int_read(s, pos, size, depth);
        },
        SqlTypeView::UnsignedInt(size) => {
            lemma_uint_read(s, pos, size, depth);
        },
        SqlTypeView::Enum(size, values) => {
            lemma_enum_read(s, pos, size, values, depth);
        },
        SqlTypeView::DateTime(zone) => {
            lemma_date_time_read(s, pos, zone, depth);
        },
        SqlTypeView::DateTime64(precision, zone) => {
            lemma_date_time64_read(s, pos, precision, zone, depth);
        },
        SqlTypeView::FixedString(size) => {
            lemma_fixed_string_read(s, pos, size, depth);
        },
        SqlTypeView::Array(inner) => {
            lemma_array_parts(s, pos, *inner);
            let q = pos + 6 + print_type_opts(*inner).len();
            lemma_bracket_ends_type(s, q);
            lemma_opts_read(s, pos + 6, *inner, (depth - 1) as nat);
            lemma_array_open_cased_reads_as_array(s, pos);
            assert(spec_array_type(s, pos, depth) == Ok::<(SqlTypeView, int), ParseError>(
                (t, q + 1),
            ));
            lemma_chain_array(s, pos, depth, (t, q + 1));
        },
        _ => {
            lemma_plain_read(s, pos, t, depth);
        },
    }
}

/// What stands where a type in a wrapper stands: the opening word, the
/// text of the type, and the closing brackets, before which a type may end.
pub proof fn lemma_wrapped_places(s: Seq<u8>, pos: int, open: Seq<u8>, text: Seq<u8>, close: Seq<u8>)
    requires
        has_tag(s, pos, open + text + close),
        close.len() > 0,
        close[0] == ')' as u8,
    ensures
        has_tag(s, pos, open),
        has_tag(s, pos + open.len(), text),
        has_tag(s, pos + open.len() + text.len(), close),
        tag_end(s, pos + open.len() + text.len(), close) == Some(
            pos + open.len() + text.len() + close.len(),
        ),
        type_ends(s, pos + open.len() + text.len()),
        ws_end(s, pos + open.len() + text.len()) == pos + open.len() + text.len(),
        (open + text + close).len() == open.len() + text.len() + close.len(),
{
    lemma_wrapper_parts(s, pos, open, text, close);
    lemma_tag_byte(s, pos + open.len() + text.len(), close, 0);
    lemma_bracket_ends_type(s, pos + open.len() + text.len());
}

/// What the rule for a wrapper reads where its opening word, a type and
/// its closing brackets are read.
pub proof fn lemma_wrapped_rule(
    s: Seq<u8>,
    pos: int,
    depth: nat,
    open: Seq<u8>,
    close: Seq<u8>,
    t: SqlTypeOptsView,
    q: int,
)
    requires
        word_end(s, pos, open) == Some(pos + open.len()),
        spec_type_identifier(s, pos + open.len(), depth) == Ok::<(SqlTypeView, int), ParseError>(
            (t.ftype, q),
        ),
        tag_end(s, q, close) == Some(q + close.len()),
    ensures
        spec_wrapped_type(s, pos, depth, open, close, t.nullable, t.lowcardinality) == Ok::<
            (SqlTypeOptsView, int),
            ParseError,
        >((t, q + close.len())),
{
}

/// The wrapper `Nullable` is not read where `LowCardinality(` stands, and
/// the wrapper `LowCardinality` alone is not read where `Nullable(` stands
/// in it.
pub proof fn lemma_other_wrappers(s: Seq<u8>, pos: int, depth: nat, both: bool)
    requires
        has_tag(s, pos, lit("LowCardinality(")),
        both ==> has_tag(s, pos, lit("LowCardinality(Nullable(")),
    ensures
        gives_up(spec_wrapped_type(s, pos, depth, lit("Nullable("), lit(")"), true, false)),
        both ==> gives_up(
            spec_wrapped_type(s, pos, depth, lit("LowCardinality("), lit(")"), false, true),
        ),
{
    lemma_bytes_nullable_open_cased();
    lemma_bytes_lowcardinality_open_cased();
    lemma_tag_not_word(s, pos, lit("LowCardinality("), lit("Nullable("), 0);
    if both {
        lemma_bytes_lowcardinality_open_nullable_open_cased();
        lemma_lowcardinality_open_cased_is_read(s, pos);
        lemma_tag_byte(s, pos, lit("LowCardinality(Nullable("), 15);
        lemma_no_type(s, pos + 15, depth);
    }
}

/// What the rule for a type in its wrappers reads is what the first of its
/// alternatives reads that does not give up.
pub proof fn lemma_opts_rule(s: Seq<u8>, pos: int, depth: nat, t: SqlTypeOptsView, end: int)
    requires
        t.nullable || t.lowcardinality,
        spec_wrapped_type(
            s,
            pos,
            depth,
            if !t.lowcardinality {
                lit("Nullable(")
            } else if !t.nullable {
                lit("LowCardinality(")
            } else {
                lit("LowCardinality(Nullable(")
            },
            if t.lowcardinality && t.nullable {
                lit("))")
            } else {
                lit(")")
            },
            t.nullable,
            t.lowcardinality,
        ) == Ok::<(SqlTypeOptsView, int), ParseError>((t, end)),
        t.lowcardinality ==> gives_up(
            spec_wrapped_type(s, pos, depth, lit("Nullable("), lit(")"), true, false),
        ),
        t.lowcardinality && t.nullable ==> gives_up(
            spec_wrapped_type(s, pos, depth, lit("LowCardinality("), lit(")"), false, true),
        ),
    ensures
        spec_field_specification_opts(s, pos, depth) == Ok::<(SqlTypeOptsView, int), ParseError>(
            (t, end),
        ),
{
}

/// The word that opens the wrappers that the two flags ask for.
pub open spec fn wrapper_open(nullable: bool, lowcardinality: bool) -> Seq<u8> {
    if lowcardinality && nullable {
        lit("LowCardinality(Nullable(")
    } else if lowcardinality {
        lit("LowCardinality(")
    } else {
        lit("Nullable(")
    }
}

/// The brackets that close the wrappers that the two flags ask for.
pub open spec fn wrapper_close(nullable: bool, lowcardinality: bool) -> Seq<u8> {
    if lowcardinality && nullable {
        lit("))")
    } else {
        lit(")")
    }
}

/// A text in wrappers is the opening word, the text and the closing
/// brackets, which begin with a bracket.
pub proof fn lemma_wrapped_text(text: Seq<u8>, nullable: bool, lowcardinality: bool)
    requires
        nullable || lowcardinality,
    ensures
        print_wrapped(text, nullable, lowcardinality) == wrapper_open(nullable, lowcardinality)
            + text + wrapper_close(nullable, lowcardinality),
        wrapper_close(nullable, lowcardinality).len() > 0,
        wrapper_close(nullable, lowcardinality)[0] == ')' as u8,
{
    lemma_bytes_close();
    lemma_bytes_close_close();
}

/// A type in a wrapper is read where the opening word of the wrapper, the
/// type and the closing brackets are read.
pub proof fn lemma_wrapped_assemble(s: Seq<u8>, pos: int, depth: nat, t: SqlTypeOptsView, q: int)
    requires
        t.nullable || t.lowcardinality,
        has_tag(s, pos, wrapper_open(t.nullable, t.lowcardinality)),
        spec_type_identifier(
            s,
            pos + wrapper_open(t.nullable, t.lowcardinality).len(),
            depth,
        ) == Ok::<(SqlTypeView, int), ParseError>((t.ftype, q)),
        tag_end(s, q, wrapper_close(t.nullable, t.lowcardinality)) == Some(
            q + wrapper_close(t.nullable, t.lowcardinality).len(),
        ),
    ensures
        spec_field_specification_opts(s, pos, depth) == Ok::<(SqlTypeOptsView, int), ParseError>(
            (t, q + wrapper_close(t.nullable, t.lowcardinality).len()),
        ),
{
    if t.lowcardinality && t.nullable {
        let open = lit("LowCardinality(Nullable(");
        lemma_lowcardinality_open_nullable_open_cased_is_read(s, pos);
        lemma_bytes_lowcardinality_open_nullable_open_cased();
        lemma_bytes_lowcardinality_open_cased();
        lemma_tag_part(s, pos, open, 0, lit("LowCardinality("));
        lemma_other_wrappers(s, pos, depth, true);
        lemma_wrapped_rule(s, pos, depth, open, lit("))"), t, q);
        lemma_opts_rule(s, pos, depth, t, q + lit("))").len());
    } else if t.lowcardinality {
        let open = lit("LowCardinality(");
        lemma_lowcardinality_open_cased_is_read(s, pos);
        lemma_other_wrappers(s, pos, depth, false);
        lemma_wrapped_rule(s, pos, depth, open, lit(")"), t, q);
        lemma_opts_rule(s, pos, depth, t, q + lit(")").len());
    } else {
        let open = lit("Nullable(");
        lemma_nullable_open_cased_is_read(s, pos);
        lemma_wrapped_rule(s, pos, depth, open, lit(")"), t, q);
        lemma_opts_rule(s, pos, depth, t, q + lit(")").len());
    }
}

/// A type without wrappers is read by the rule for types in wrappers as the
/// rule for types reads it.
pub proof fn lemma_bare_assemble(s: Seq<u8>, pos: int, depth: nat, t: SqlTypeOptsView, end: int)
    requires
        !t.nullable && !t.lowcardinality,
        has_tag(s, pos, print_type(t.ftype)),
        spec_type_identifier(s, pos, depth) == Ok::<(SqlTypeView, int), ParseError>(
            (t.ftype, end),
        ),
    ensures
        spec_field_specification_opts(s, pos, depth) == Ok::<(SqlTypeOptsView, int), ParseError>(
            (t, end),
        ),
{
    lemma_no_wrapper(s, pos, t.ftype, depth);
}

/// A type in its wrappers is read where its canonical text stands before
/// what may stand behind a type.
pub proof fn lemma_opts_read(s: Seq<u8>, pos: int, t: SqlTypeOptsView, depth: nat)
    requires
        valid_type(t.ftype, depth),
        has_tag(s, pos, print_type_opts(t)),
        type_ends(s, pos + print_type_opts(t).len()),
    ensures
        spec_field_specification_opts(s, pos, depth) == Ok::<(SqlTypeOptsView, int), ParseError>(
            (t, opts_end(t, s, pos + print_type_opts(t).len())),
        ),
    decreases t.ftype, 1int,
{
    let text = print_type(t.ftype);
    if t.nullable || t.lowcardinality {
        let open = wrapper_open(t.nullable, t.lowcardinality);
        let close = wrapper_close(t.nullable, t.lowcardinality);
        lemma_wrapped_text(text, t.nullable, t.lowcardinality);
        lemma_wrapped_places(s, pos, open, text, close);
        lemma_type_read(s, pos + open.len(), t.ftype, depth);
        lemma_wrapped_assemble(s, pos, depth, t, pos + open.len() + text.len());
    } else {
        lemma_type_read(s, pos, t.ftype, depth);
        lemma_bare_assemble(s, pos, depth, t, type_end(t.ftype, s, pos + text.len()));
    }
}

} // verus!
