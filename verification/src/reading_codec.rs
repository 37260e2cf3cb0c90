//! What the grammar of codecs reads where the canonical text of a codec
//! stands.

use vstd::prelude::*;
use crate::codec::{
    print_codec, print_codec_list, print_codecs, print_with_level, spec_codec_level, spec_codecs,
    spec_codecs_tail, spec_column_codec, spec_delta, spec_lz4hc, spec_word_codec, spec_zstd,
    valid_codec, valid_codecs, Codec,
};
use crate::error::{gives_up, syntax, ErrorKind, ParseError};
use crate::reading::{
    lemma_decimal_digits, lemma_digits_read, lemma_tag_bounds, lemma_tag_byte, lemma_tag_split,
    lemma_ws_stop,
};
use crate::scan::{byte_at, has_tag, lemma_run_end_is, lit, run_end, sep_comma_end, ByteClass};
use crate::text::decimal;
use crate::words::{
    lemma_bytes_close,
    lemma_bytes_comma_space,
    lemma_bytes_delta_cased,
    lemma_bytes_doubledelta_cased,
    lemma_bytes_gorilla_cased,
    lemma_bytes_lz4_cased,
    lemma_bytes_lz4hc_cased,
    lemma_bytes_none_cased,
    lemma_bytes_open,
    lemma_bytes_t64_cased,
    lemma_bytes_zstd_cased,
    lemma_delta_cased_reads_as_delta,
    lemma_doubledelta_cased_is_not_delta,
    lemma_doubledelta_cased_is_read,
    lemma_gorilla_cased_reads_as_gorilla,
    lemma_lz4_cased_is_not_lz4hc_cased,
    lemma_lz4_cased_reads_as_lz4,
    lemma_lz4hc_cased_is_read,
    lemma_none_cased_reads_as_none,
    lemma_other_than_delta,
    lemma_other_than_doubledelta_cased,
    lemma_other_than_gorilla,
    lemma_other_than_lz4,
    lemma_other_than_lz4hc_cased,
    lemma_other_than_none,
    lemma_other_than_t64,
    lemma_other_than_zstd,
    lemma_t64_cased_reads_as_t64,
    lemma_zstd_cased_reads_as_zstd,
};

verus! {

/// What stands behind a codec: a comma or a closing bracket, as in a list
/// of codecs, or the end of the input.
pub open spec fn codec_ends(s: Seq<u8>, q: int) -> bool {
    q == s.len() || byte_at(s, q, ',' as u8) || byte_at(s, q, ')' as u8)
}

/// Where `NONE` stands, what the rule of its codec reads is what the
/// grammar of codecs reads.
pub proof fn lemma_chain_none(s: Seq<u8>, pos: int)
    requires
        has_tag(s, pos, lit("NONE")),
        codec_ends(s, pos + lit("NONE").len()) || byte_at(s, pos + lit("NONE").len(), '(' as u8),
        !gives_up(spec_word_codec(s, pos, lit("none"), Codec::Uncompressed)),
    ensures
        spec_column_codec(s, pos) == spec_word_codec(s, pos, lit("none"), Codec::Uncompressed),
{
    lemma_bytes_none_cased();

    lemma_tag_bounds(s, pos, lit("NONE"));

}

/// Where `ZSTD` stands, what the rule of its codec reads is what the
/// grammar of codecs reads.
pub proof fn lemma_chain_zstd(s: Seq<u8>, pos: int)
    requires
        has_tag(s, pos, lit("ZSTD")),
        codec_ends(s, pos + lit("ZSTD").len()) || byte_at(s, pos + lit("ZSTD").len(), '(' as u8),
        !gives_up(spec_zstd(s, pos)),
    ensures
        spec_column_codec(s, pos) == spec_zstd(s, pos),
{
    lemma_bytes_zstd_cased();
    lemma_tag_byte(s, pos, lit("ZSTD"), 0);
    lemma_tag_bounds(s, pos, lit("ZSTD"));
    lemma_other_than_none(s, pos);
    assert(gives_up(spec_word_codec(s, pos, lit("none"), Codec::Uncompressed)));
}

/// Where `LZ4HC` stands, what the rule of its codec reads is what the
/// grammar of codecs reads.
pub proof fn lemma_chain_lz4hc(s: Seq<u8>, pos: int)
    requires
        has_tag(s, pos, lit("LZ4HC")),
        codec_ends(s, pos + lit("LZ4HC").len()) || byte_at(s, pos + lit("LZ4HC").len(), '(' as u8),
        !gives_up(spec_lz4hc(s, pos)),
    ensures
        spec_column_codec(s, pos) == spec_lz4hc(s, pos),
{
    lemma_bytes_lz4hc_cased();
    lemma_tag_byte(s, pos, lit("LZ4HC"), 0);
    lemma_tag_bounds(s, pos, lit("LZ4HC"));
    lemma_other_than_none(s, pos);
    assert(gives_up(spec_word_codec(s, pos, lit("none"), Codec::Uncompressed)));
    lemma_other_than_zstd(s, pos);
    assert(gives_up(spec_zstd(s, pos)));
}

/// Where `LZ4` stands, what the rule of its codec reads is what the
/// grammar of codecs reads.
pub proof fn lemma_chain_lz4(s: Seq<u8>, pos: int)
    requires
        has_tag(s, pos, lit("LZ4")),
        codec_ends(s, pos + lit("LZ4").len()) || byte_at(s, pos + lit("LZ4").len(), '(' as u8),
        !gives_up(spec_word_codec(s, pos, lit("lz4"), Codec::LZ4)),
    ensures
        spec_column_codec(s, pos) == spec_word_codec(s, pos, lit("lz4"), Codec::LZ4),
{
    lemma_bytes_lz4_cased();
    lemma_tag_byte(s, pos, lit("LZ4"), 0);
    lemma_tag_bounds(s, pos, lit("LZ4"));
    lemma_other_than_none(s, pos);
    assert(gives_up(spec_word_codec(s, pos, lit("none"), Codec::Uncompressed)));
    lemma_other_than_zstd(s, pos);
    assert(gives_up(spec_zstd(s, pos)));
    lemma_lz4_cased_is_not_lz4hc_cased(s, pos);
    assert(gives_up(spec_lz4hc(s, pos)));
}

/// Where `Delta` stands, what the rule of its codec reads is what the
/// grammar of codecs reads.
pub proof fn lemma_chain_delta(s: Seq<u8>, pos: int)
    requires
        has_tag(s, pos, lit("Delta")),
        codec_ends(s, pos + lit("Delta").len()) || byte_at(s, pos + lit("Delta").len(), '(' as u8),
        !gives_up(spec_delta(s, pos)),
    ensures
        spec_column_codec(s, pos) == spec_delta(s, pos),
{
    lemma_bytes_delta_cased();
    lemma_tag_byte(s, pos, lit("Delta"), 0);
    lemma_tag_bounds(s, pos, lit("Delta"));
    lemma_other_than_none(s, pos);
    assert(gives_up(spec_word_codec(s, pos, lit("none"), Codec::Uncompressed)));
    lemma_other_than_zstd(s, pos);
    assert(gives_up(spec_zstd(s, pos)));
    lemma_other_than_lz4hc_cased(s, pos);
    assert(gives_up(spec_lz4hc(s, pos)));
    lemma_other_than_lz4(s, pos);
    assert(gives_up(spec_word_codec(s, pos, lit("lz4"), Codec::LZ4)));
}

/// Where `DoubleDelta` stands, what the rule of its codec reads is what the
/// grammar of codecs reads.
pub proof fn lemma_chain_doubledelta(s: Seq<u8>, pos: int)
    requires
        has_tag(s, pos, lit("DoubleDelta")),
        codec_ends(s, pos + lit("DoubleDelta").len()) || byte_at(s, pos + lit("DoubleDelta").len(), '(' as u8),
        !gives_up(spec_word_codec(s, pos, lit("DoubleDelta"), Codec::DoubleDelta)),
    ensures
        spec_column_codec(s, pos) == spec_word_codec(s, pos, lit("DoubleDelta"), Codec::DoubleDelta),
{
    lemma_bytes_doubledelta_cased();
    lemma_tag_byte(s, pos, lit("DoubleDelta"), 0);
    lemma_tag_bounds(s, pos, lit("DoubleDelta"));
    lemma_other_than_none(s, pos);
    assert(gives_up(spec_word_codec(s, pos, lit("none"), Codec::Uncompressed)));
    lemma_other_than_zstd(s, pos);
    assert(gives_up(spec_zstd(s, pos)));
    lemma_other_than_lz4hc_cased(s, pos);
    assert(gives_up(spec_lz4hc(s, pos)));
    lemma_other_than_lz4(s, pos);
    assert(gives_up(spec_word_codec(s, pos, lit("lz4"), Codec::LZ4)));
    lemma_doubledelta_cased_is_not_delta(s, pos);
    assert(gives_up(spec_delta(s, pos)));
}

/// Where `Gorilla` stands, what the rule of its codec reads is what the
/// grammar of codecs reads.
pub proof fn lemma_chain_gorilla(s: Seq<u8>, pos: int)
    requires
        has_tag(s, pos, lit("Gorilla")),
        codec_ends(s, pos + lit("Gorilla").len()) || byte_at(s, pos + lit("Gorilla").len(), '(' as u8),
        !gives_up(spec_word_codec(s, pos, lit("gorilla"), Codec::Gorilla)),
    ensures
        spec_column_codec(s, pos) == spec_word_codec(s, pos, lit("gorilla"), Codec::Gorilla),
{
    lemma_bytes_gorilla_cased();
    lemma_tag_byte(s, pos, lit("Gorilla"), 0);
    lemma_tag_bounds(s, pos, lit("Gorilla"));
    lemma_other_than_none(s, pos);
    assert(gives_up(spec_word_codec(s, pos, lit("none"), Codec::Uncompressed)));
    lemma_other_than_zstd(s, pos);
    assert(gives_up(spec_zstd(s, pos)));
    lemma_other_than_lz4hc_cased(s, pos);
    assert(gives_up(spec_lz4hc(s, pos)));
    lemma_other_than_lz4(s, pos);
    assert(gives_up(spec_word_codec(s, pos, lit("lz4"), Codec::LZ4)));
    lemma_other_than_delta(s, pos);
    assert(gives_up(spec_delta(s, pos)));
    lemma_other_than_doubledelta_cased(s, pos);
    assert(gives_up(spec_word_codec(s, pos, lit("DoubleDelta"), Codec::DoubleDelta)));
}

/// Where `T64` stands, what the rule of its codec reads is what the
/// grammar of codecs reads.
pub proof fn lemma_chain_t64(s: Seq<u8>, pos: int)
    requires
        has_tag(s, pos, lit("T64")),
        codec_ends(s, pos + lit("T64").len()) || byte_at(s, pos + lit("T64").len(), '(' as u8),
        !gives_up(spec_word_codec(s, pos, lit("t64"), Codec::T64)),
    ensures
        spec_column_codec(s, pos) == spec_word_codec(s, pos, lit("t64"), Codec::T64),
{
    lemma_bytes_t64_cased();
    lemma_tag_byte(s, pos, lit("T64"), 0);
    lemma_tag_bounds(s, pos, lit("T64"));
    lemma_other_than_none(s, pos);
    assert(gives_up(spec_word_codec(s, pos, lit("none"), Codec::Uncompressed)));
    lemma_other_than_zstd(s, pos);
    assert(gives_up(spec_zstd(s, pos)));
    lemma_other_than_lz4hc_cased(s, pos);
    assert(gives_up(spec_lz4hc(s, pos)));
    lemma_other_than_lz4(s, pos);
    assert(gives_up(spec_word_codec(s, pos, lit("lz4"), Codec::LZ4)));
    lemma_other_than_delta(s, pos);
    assert(gives_up(spec_delta(s, pos)));
    lemma_other_than_doubledelta_cased(s, pos);
    assert(gives_up(spec_word_codec(s, pos, lit("DoubleDelta"), Codec::DoubleDelta)));
    lemma_other_than_gorilla(s, pos);
    assert(gives_up(spec_word_codec(s, pos, lit("gorilla"), Codec::Gorilla)));
}

/// No level is read where a codec ends.
pub proof fn lemma_no_level(s: Seq<u8>, pos: int)
    requires
        codec_ends(s, pos),
    ensures
        spec_codec_level(s, pos) == Ok::<(Option<(u64, int)>, int), ParseError>((None, pos)),
{
    lemma_ws_stop(s, pos);
}

/// A level is read where it is written in brackets behind the name of a
/// codec.
pub proof fn lemma_level_read(s: Seq<u8>, pos: int, level: u64)
    requires
        has_tag(s, pos, lit("(") + decimal(level as nat) + lit(")")),
        codec_ends(s, pos + (lit("(") + decimal(level as nat) + lit(")")).len()),
    ensures
        spec_codec_level(s, pos) == Ok::<(Option<(u64, int)>, int), ParseError>(
            (
                Some((level, pos + 1)),
                pos + (lit("(") + decimal(level as nat) + lit(")")).len(),
            ),
        ),
        (lit("(") + decimal(level as nat) + lit(")")).len() == 2 + decimal(level as nat).len(),
        run_end(s, pos + 1, ByteClass::Digit) == pos + 1 + decimal(level as nat).len(),
{
    lemma_bytes_open();
    lemma_bytes_close();
    let digits = decimal(level as nat);
    lemma_tag_split(s, pos, lit("(") + digits, lit(")"));
    lemma_tag_split(s, pos, lit("("), digits);
    lemma_tag_byte(s, pos, lit("("), 0);
    let close = pos + 1 + digits.len();
    lemma_tag_byte(s, close, lit(")"), 0);
    lemma_decimal_digits(level as nat);
    lemma_tag_byte(s, pos + 1, digits, 0);
    lemma_ws_stop(s, pos);
    lemma_ws_stop(s, pos + 1);
    lemma_digits_read(s, pos + 1, level as nat);
    lemma_ws_stop(s, close);
    lemma_ws_stop(s, close + 1);
    crate::reading::lemma_tag_class(s, pos + 1, digits, ByteClass::Digit);
    lemma_run_end_is(s, pos + 1, close, ByteClass::Digit);
}

/// A number in brackets that does not fit in 64 bits is a failure.
pub proof fn lemma_level_too_large(s: Seq<u8>, pos: int, n: nat)
    requires
        n > u64::MAX,
        has_tag(s, pos, lit("(") + decimal(n) + lit(")")),
    ensures
        spec_codec_level(s, pos) == Err::<(Option<(u64, int)>, int), ParseError>(
            crate::error::failure(crate::error::Violation::NumberTooLarge, pos + 1),
        ),
{
    lemma_bytes_open();
    lemma_bytes_close();
    let digits = decimal(n);
    lemma_tag_split(s, pos, lit("(") + digits, lit(")"));
    lemma_tag_split(s, pos, lit("("), digits);
    lemma_tag_byte(s, pos, lit("("), 0);
    let close = pos + 1 + digits.len();
    lemma_tag_byte(s, close, lit(")"), 0);
    lemma_decimal_digits(n);
    lemma_tag_byte(s, pos + 1, digits, 0);
    lemma_ws_stop(s, pos);
    lemma_ws_stop(s, pos + 1);
    crate::reading::lemma_decimal_value(s, pos + 1, n);
    crate::reading::lemma_tag_class(s, pos + 1, digits, ByteClass::Digit);
    lemma_run_end_is(s, pos + 1, close, ByteClass::Digit);
    lemma_ws_stop(s, close);
}

/// The parts of the text of a codec with a level or without stand where
/// the text stands.
pub proof fn lemma_with_level_parts(s: Seq<u8>, pos: int, name: Seq<u8>, level: Option<u64>)
    requires
        has_tag(s, pos, print_with_level(name, level)),
    ensures
        has_tag(s, pos, name),
        match level {
            Some(l) => has_tag(s, pos + name.len(), lit("(") + decimal(l as nat) + lit(")"))
                && print_with_level(name, level).len() == name.len() + (lit("(") + decimal(
                l as nat,
            ) + lit(")")).len() && byte_at(s, pos + name.len(), '(' as u8),
            None => print_with_level(name, level).len() == name.len(),
        },
{
    match level {
        Some(l) => {
            lemma_bytes_open();
            let digits = decimal(l as nat);
            assert(name + lit("(") + digits + lit(")") =~= name + (lit("(") + digits + lit(")")));
            lemma_tag_split(s, pos, name, lit("(") + digits + lit(")"));
            lemma_tag_split(s, pos + name.len(), lit("(") + digits, lit(")"));
            lemma_tag_split(s, pos + name.len(), lit("("), digits);
            lemma_tag_byte(s, pos + name.len(), lit("("), 0);
        },
        None => {},
    }
}

/// The level behind the name of a codec is read where it is written, and
/// none where none is written.
pub proof fn lemma_level_or_none_read(s: Seq<u8>, pos: int, name: Seq<u8>, level: Option<u64>)
    requires
        has_tag(s, pos, print_with_level(name, level)),
        codec_ends(s, pos + print_with_level(name, level).len()),
    ensures
        has_tag(s, pos, name),
        spec_codec_level(s, pos + name.len()) == Ok::<(Option<(u64, int)>, int), ParseError>(
            (
                match level {
                    Some(l) => Some((l, pos + name.len() + 1)),
                    None => None,
                },
                pos + print_with_level(name, level).len(),
            ),
        ),
        codec_ends(s, pos + name.len()) || byte_at(s, pos + name.len(), '(' as u8),
        level is Some ==> run_end(s, pos + name.len() + 1, ByteClass::Digit) == pos + name.len()
            + 1 + decimal(level->Some_0 as nat).len(),
{
    lemma_with_level_parts(s, pos, name, level);
    match level {
        Some(l) => {
            lemma_level_read(s, pos + name.len(), l);
        },
        None => {
            lemma_no_level(s, pos + name.len());
        },
    }
}

/// The level of a codec as a number.
pub open spec fn level_of(c: Codec) -> Option<u64> {
    match c {
        Codec::ZSTD(Some(l)) => Some(l as u64),
        Codec::LZ4HC(Some(l)) => Some(l as u64),
        Codec::Delta(Some(l)) => Some(l.spec_width()),
        _ => None,
    }
}

/// A codec is read where its canonical text stands before a comma or a
/// closing bracket.
pub proof fn lemma_codec_read(s: Seq<u8>, pos: int, c: Codec)
    requires
        valid_codec(c),
        has_tag(s, pos, print_codec(c)),
        codec_ends(s, pos + print_codec(c).len()),
    ensures
        spec_column_codec(s, pos) == Ok::<(Codec, int), ParseError>((c, pos + print_codec(c).len())),
{
    let end = pos + print_codec(c).len();
    match c {
        Codec::Uncompressed => {
            lemma_none_cased_reads_as_none(s, pos);
            lemma_chain_none(s, pos);
        },
        Codec::LZ4 => {
            lemma_lz4_cased_reads_as_lz4(s, pos);
            lemma_chain_lz4(s, pos);
        },
        Codec::DoubleDelta => {
            lemma_doubledelta_cased_is_read(s, pos);
            lemma_chain_doubledelta(s, pos);
        },
        Codec::Gorilla => {
            lemma_gorilla_cased_reads_as_gorilla(s, pos);
            lemma_chain_gorilla(s, pos);
        },
        Codec::T64 => {
            lemma_t64_cased_reads_as_t64(s, pos);
            lemma_chain_t64(s, pos);
        },
        Codec::ZSTD(level) => {
            assert(print_codec(c) == print_with_level(lit("ZSTD"), level_of(c)));
            lemma_level_or_none_read(s, pos, lit("ZSTD"), level_of(c));
            lemma_zstd_cased_reads_as_zstd(s, pos);
            lemma_chain_zstd(s, pos);
        },
        Codec::LZ4HC(level) => {
            assert(print_codec(c) == print_with_level(lit("LZ4HC"), level_of(c)));
            lemma_level_or_none_read(s, pos, lit("LZ4HC"), level_of(c));
            lemma_lz4hc_cased_is_read(s, pos);
            lemma_chain_lz4hc(s, pos);
        },
        Codec::Delta(level) => {
            assert(print_codec(c) == print_with_level(lit("Delta"), level_of(c)));
            lemma_level_or_none_read(s, pos, lit("Delta"), level_of(c));
            lemma_delta_cased_reads_as_delta(s, pos);
            lemma_chain_delta(s, pos);
        },
    }
}

/// No codec is read where a closing bracket stands.
pub proof fn lemma_no_codec(s: Seq<u8>, pos: int)
    requires
        byte_at(s, pos, ')' as u8),
    ensures
        spec_column_codec(s, pos) == Err::<(Codec, int), ParseError>(syntax(ErrorKind::Codec, pos)),
{
    lemma_other_than_none(s, pos);
    assert(gives_up(spec_word_codec(s, pos, lit("none"), Codec::Uncompressed)));
    lemma_other_than_zstd(s, pos);
    assert(gives_up(spec_zstd(s, pos)));
    lemma_other_than_lz4hc_cased(s, pos);
    assert(gives_up(spec_lz4hc(s, pos)));
    lemma_other_than_lz4(s, pos);
    assert(gives_up(spec_word_codec(s, pos, lit("lz4"), Codec::LZ4)));
    lemma_other_than_delta(s, pos);
    assert(gives_up(spec_delta(s, pos)));
    lemma_other_than_doubledelta_cased(s, pos);
    assert(gives_up(spec_word_codec(s, pos, lit("DoubleDelta"), Codec::DoubleDelta)));
    lemma_other_than_gorilla(s, pos);
    assert(gives_up(spec_word_codec(s, pos, lit("gorilla"), Codec::Gorilla)));
    lemma_other_than_t64(s, pos);
    assert(gives_up(spec_word_codec(s, pos, lit("t64"), Codec::T64)));
}

/// The text of the first `k` codecs stands where the text of all stands,
/// and behind it a comma, a space and the next codec.
pub proof fn lemma_codecs_prefix(s: Seq<u8>, pos: int, list: Seq<Codec>, k: int)
    requires
        1 <= k <= list.len(),
        has_tag(s, pos, print_codecs(list, list.len() as int)),
    ensures
        has_tag(s, pos, print_codecs(list, k)),
        k < list.len() ==> has_tag(s, pos + print_codecs(list, k).len(), lit(", ")) && has_tag(
            s,
            pos + print_codecs(list, k).len() + 2,
            print_codec(list[k]),
        ) && print_codecs(list, k + 1).len() == print_codecs(list, k).len() + 2 + print_codec(
            list[k],
        ).len(),
    decreases list.len() - k,
{
    lemma_bytes_comma_space();
    if k < list.len() {
        lemma_codecs_prefix(s, pos, list, k + 1);
        lemma_tag_split(s, pos, print_codecs(list, k) + lit(", "), print_codec(list[k]));
        lemma_tag_split(s, pos, print_codecs(list, k), lit(", "));
    }
}

/// Behind the first `k` codecs of a list in brackets a comma or the closing
/// bracket stands.
pub proof fn lemma_codecs_follow(s: Seq<u8>, pos: int, list: Seq<Codec>, k: int)
    requires
        1 <= k <= list.len(),
        has_tag(s, pos, print_codecs(list, list.len() as int)),
        byte_at(s, pos + print_codecs(list, list.len() as int).len(), ')' as u8),
    ensures
        codec_ends(s, pos + print_codecs(list, k).len()),
        k < list.len() ==> byte_at(s, pos + print_codecs(list, k).len(), ',' as u8) && byte_at(
            s,
            pos + print_codecs(list, k).len() + 1,
            ' ' as u8,
        ),
{
    lemma_bytes_comma_space();
    if k < list.len() {
        lemma_codecs_prefix(s, pos, list, k);
        lemma_tag_byte(s, pos + print_codecs(list, k).len(), lit(", "), 0);
        lemma_tag_byte(s, pos + print_codecs(list, k).len(), lit(", "), 1);
    }
}

/// The first byte of the text of a codec is a letter.
pub proof fn lemma_codec_first_byte(c: Codec)
    ensures
        print_codec(c).len() > 0,
        !crate::scan::is_space(print_codec(c)[0]),
{
    lemma_bytes_none_cased();
    lemma_bytes_zstd_cased();
    lemma_bytes_lz4hc_cased();
    lemma_bytes_lz4_cased();
    lemma_bytes_delta_cased();
    lemma_bytes_doubledelta_cased();
    lemma_bytes_gorilla_cased();
    lemma_bytes_t64_cased();
    match c {
        Codec::ZSTD(level) => {
            assert(print_codec(c) == print_with_level(lit("ZSTD"), level_of(c)));
            assert(print_with_level(lit("ZSTD"), level_of(c))[0] == lit("ZSTD")[0]);
        },
        Codec::LZ4HC(level) => {
            assert(print_codec(c) == print_with_level(lit("LZ4HC"), level_of(c)));
            assert(print_with_level(lit("LZ4HC"), level_of(c))[0] == lit("LZ4HC")[0]);
        },
        Codec::Delta(level) => {
            assert(print_codec(c) == print_with_level(lit("Delta"), level_of(c)));
            assert(print_with_level(lit("Delta"), level_of(c))[0] == lit("Delta")[0]);
        },
        _ => {},
    }
}

/// The codecs of a list from the `k`-th on are read where they are written.
pub proof fn lemma_codecs_tail_read(s: Seq<u8>, pos: int, list: Seq<Codec>, k: int)
    requires
        valid_codecs(list),
        1 <= k <= list.len(),
        has_tag(s, pos, print_codecs(list, list.len() as int)),
        byte_at(s, pos + print_codecs(list, list.len() as int).len(), ')' as u8),
    ensures
        spec_codecs_tail(s, pos + print_codecs(list, k).len(), list.take(k)) == Ok::<
            (Seq<Codec>, int),
            ParseError,
        >((list, pos + print_codecs(list, list.len() as int).len())),
    decreases list.len() - k,
{
    let n = list.len() as int;
    let here = pos + print_codecs(list, k).len();
    lemma_codecs_prefix(s, pos, list, k);
    lemma_tag_bounds(s, pos, print_codecs(list, k));
    lemma_codecs_follow(s, pos, list, k);
    lemma_ws_stop(s, here);
    if k == n {
        assert(list.take(k) =~= list);
    } else {
        let c = list[k];
        let next = here + 2;
        lemma_codec_first_byte(c);
        lemma_tag_byte(s, next, print_codec(c), 0);
        lemma_run_end_is(s, here + 1, next, ByteClass::Space);
        assert(sep_comma_end(s, here) == Some(next));
        lemma_codecs_follow(s, pos, list, k + 1);
        lemma_codec_read(s, next, c);
        assert(list.take(k).push(c) =~= list.take(k + 1));
        lemma_codecs_tail_read(s, pos, list, k + 1);
    }
}

/// The codecs of a list are read where they are written before a closing
/// bracket.
pub proof fn lemma_codecs_read(s: Seq<u8>, pos: int, list: Seq<Codec>)
    requires
        valid_codecs(list),
        has_tag(s, pos, print_codec_list(list)),
        byte_at(s, pos + print_codec_list(list).len(), ')' as u8),
    ensures
        spec_codecs(s, pos) == Ok::<(Seq<Codec>, int), ParseError>(
            (list, pos + print_codec_list(list).len()),
        ),
{
    if list.len() == 0 {
        lemma_no_codec(s, pos);
        assert(list =~= seq![]);
    } else {
        lemma_codecs_prefix(s, pos, list, 1);
        lemma_codecs_follow(s, pos, list, 1);
        lemma_codec_read(s, pos, list[0]);
        assert(list.take(1) =~= seq![list[0]]);
        lemma_codecs_tail_read(s, pos, list, 1);
    }
}

} // verus!
