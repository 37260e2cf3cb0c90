//! Compression codecs of a column.

use vstd::prelude::*;
use vstd::slice::slice_subrange;
use vstd::utf8::encode_utf8;
use crate::error::{agrees, failure, gave_up, gives_up, syntax, ErrorKind, ParseError, Violation};
use crate::scan::{
    byte_at, is_byte_at, lit, run_end, sep_comma_at, sep_comma_end, skip_ws, tag_no_case, word_end,
    ws_end, ByteClass,
};
use crate::text::{decimal, digits_at, push_decimal, push_str, spec_number};

verus! {

/// The width in bytes of the values that `Delta` takes differences of.
#[derive(Clone, Copy, Debug, Eq, PartialEq, Hash)]
pub enum CodecDeltaLevel {
    L1,
    L2,
    L4,
    L8,
}

/// A codec.
#[derive(Clone, Copy, Debug, Eq, PartialEq, Hash)]
pub enum Codec {
    /// `NONE`: the values are stored as they are.
    Uncompressed,
    /// With a level from 1 to 22, if one is written.
    ZSTD(Option<u8>),
    LZ4,
    /// With a level from 0 to 12, if one is written.
    LZ4HC(Option<u8>),
    /// With a width of 1, 2, 4 or 8, if one is written.
    Delta(Option<CodecDeltaLevel>),
    DoubleDelta,
    Gorilla,
    T64,
}

/// The codecs of a column, in the order in which they are applied.
#[derive(Clone, Debug, Eq, PartialEq, Hash)]
pub struct CodecList(pub Vec<Codec>);

impl View for CodecList {
    type V = Seq<Codec>;

    open spec fn view(&self) -> Seq<Codec> {
        self.0@
    }
}

impl View for Codec {
    type V = Codec;

    open spec fn view(&self) -> Codec {
        *self
    }
}

impl CodecDeltaLevel {
    /// The width as a number.
    pub open spec fn spec_width(self) -> u64 {
        match self {
            CodecDeltaLevel::L1 => 1,
            CodecDeltaLevel::L2 => 2,
            CodecDeltaLevel::L4 => 4,
            CodecDeltaLevel::L8 => 8,
        }
    }

    /// The width as a number.
    #[verifier::when_used_as_spec(spec_width)]
    pub fn width(self) -> (r: u64)
        ensures
            r == self.spec_width(),
    {
        match self {
            CodecDeltaLevel::L1 => 1,
            CodecDeltaLevel::L2 => 2,
            CodecDeltaLevel::L4 => 4,
            CodecDeltaLevel::L8 => 8,
        }
    }

    /// The level of the given width, which is 1, 2, 4 or 8.
    pub open spec fn spec_from_width(n: u64) -> Option<CodecDeltaLevel> {
        if n == 1 {
            Some(CodecDeltaLevel::L1)
        } else if n == 2 {
            Some(CodecDeltaLevel::L2)
        } else if n == 4 {
            Some(CodecDeltaLevel::L4)
        } else if n == 8 {
            Some(CodecDeltaLevel::L8)
        } else {
            None
        }
    }

    /// The level of the given width, if the width is 1, 2, 4 or 8.
    #[verifier::when_used_as_spec(spec_from_width)]
    pub fn from_width(n: u64) -> (r: Option<CodecDeltaLevel>)
        ensures
            r == Self::spec_from_width(n),
            r is Some <==> (n == 1 || n == 2 || n == 4 || n == 8),
            r is Some ==> r->0.spec_width() == n,
    {
        if n == 1 {
            Some(CodecDeltaLevel::L1)
        } else if n == 2 {
            Some(CodecDeltaLevel::L2)
        } else if n == 4 {
            Some(CodecDeltaLevel::L4)
        } else if n == 8 {
            Some(CodecDeltaLevel::L8)
        } else {
            None
        }
    }

    /// The level that the digit stands for, which is `1`, `2`, `4` or `8`.
    pub open spec fn spec_from_digit(t: char) -> Option<CodecDeltaLevel> {
        if t == '1' {
            Some(CodecDeltaLevel::L1)
        } else if t == '2' {
            Some(CodecDeltaLevel::L2)
        } else if t == '4' {
            Some(CodecDeltaLevel::L4)
        } else if t == '8' {
            Some(CodecDeltaLevel::L8)
        } else {
            None
        }
    }

    /// The level that the digit stands for, if the digit is `1`, `2`, `4` or
    /// `8`.
    #[verifier::when_used_as_spec(spec_from_digit)]
    pub fn from_digit(t: char) -> (r: Option<CodecDeltaLevel>)
        ensures
            r == Self::spec_from_digit(t),
            r is Some <==> (t == '1' || t == '2' || t == '4' || t == '8'),
    {
        if t == '1' {
            Some(CodecDeltaLevel::L1)
        } else if t == '2' {
            Some(CodecDeltaLevel::L2)
        } else if t == '4' {
            Some(CodecDeltaLevel::L4)
        } else if t == '8' {
            Some(CodecDeltaLevel::L8)
        } else {
            None
        }
    }

    /// The width as it is written.
    pub fn to_string(&self) -> (r: String)
        ensures
            encode_utf8(r@) == decimal(self.spec_width() as nat),
    {
        let mut out = String::new();
        push_decimal(&mut out, self.width());
        assert(encode_utf8(Seq::<char>::empty()) + decimal(self.spec_width() as nat) =~= decimal(
            self.spec_width() as nat,
        ));
        out
    }
}

/// Whether the codec is one that the grammar reads: a level of `ZSTD` is
/// from 1 to 22, one of `LZ4HC` from 0 to 12.
pub open spec fn valid_codec(c: Codec) -> bool {
    match c {
        Codec::ZSTD(Some(l)) => 1 <= l <= 22,
        Codec::LZ4HC(Some(l)) => l <= 12,
        _ => true,
    }
}

/// Whether all codecs of the list are valid.
pub open spec fn valid_codecs(list: Seq<Codec>) -> bool {
    forall|i: int| 0 <= i < list.len() ==> valid_codec(#[trigger] list[i])
}

/// A name with a number in brackets behind it, or the name alone.
pub open spec fn print_with_level(name: Seq<u8>, level: Option<u64>) -> Seq<u8> {
    match level {
        Some(l) => name + lit("(") + decimal(l as nat) + lit(")"),
        None => name,
    }
}

/// The canonical text of a codec.
pub open spec fn print_codec(c: Codec) -> Seq<u8> {
    match c {
        Codec::Uncompressed => lit("NONE"),
        Codec::LZ4 => lit("LZ4"),
        Codec::DoubleDelta => lit("DoubleDelta"),
        Codec::Gorilla => lit("Gorilla"),
        Codec::T64 => lit("T64"),
        Codec::ZSTD(None) => print_with_level(lit("ZSTD"), None),
        Codec::ZSTD(Some(l)) => print_with_level(lit("ZSTD"), Some(l as u64)),
        Codec::LZ4HC(None) => print_with_level(lit("LZ4HC"), None),
        Codec::LZ4HC(Some(l)) => print_with_level(lit("LZ4HC"), Some(l as u64)),
        Codec::Delta(None) => print_with_level(lit("Delta"), None),
        Codec::Delta(Some(l)) => print_with_level(lit("Delta"), Some(l.spec_width())),
    }
}

/// The canonical text of the first `n` codecs of a list, with `, ` between
/// them.
pub open spec fn print_codecs(list: Seq<Codec>, n: int) -> Seq<u8>
    decreases n,
{
    if n <= 0 {
        seq![]
    } else if n == 1 {
        print_codec(list[0])
    } else {
        print_codecs(list, n - 1) + lit(", ") + print_codec(list[n - 1])
    }
}

/// The canonical text of a list of codecs.
pub open spec fn print_codec_list(list: Seq<Codec>) -> Seq<u8> {
    print_codecs(list, list.len() as int)
}

/// Appends a name, and a number in brackets if there is one.
pub fn push_with_level(out: &mut String, name: &str, level: Option<u64>)
    ensures
        encode_utf8(final(out)@) == encode_utf8(old(out)@) + print_with_level(lit(name), level),
{
    push_str(out, name);
    match level {
        Some(l) => {
            push_str(out, "(");
            push_decimal(out, l);
            push_str(out, ")");
            assert(encode_utf8(out@) =~= encode_utf8(old(out)@) + (lit(name) + lit("(") + decimal(
                l as nat,
            ) + lit(")")));
        },
        None => {},
    }
}

/// Appends the canonical text of a codec.
pub fn push_codec(out: &mut String, c: &Codec)
    ensures
        encode_utf8(final(out)@) == encode_utf8(old(out)@) + print_codec(*c),
{
    match c {
        Codec::Uncompressed => push_str(out, "NONE"),
        Codec::LZ4 => push_str(out, "LZ4"),
        Codec::DoubleDelta => push_str(out, "DoubleDelta"),
        Codec::Gorilla => push_str(out, "Gorilla"),
        Codec::T64 => push_str(out, "T64"),
        Codec::ZSTD(None) => push_with_level(out, "ZSTD", None),
        Codec::ZSTD(Some(l)) => push_with_level(out, "ZSTD", Some(*l as u64)),
        Codec::LZ4HC(None) => push_with_level(out, "LZ4HC", None),
        Codec::LZ4HC(Some(l)) => push_with_level(out, "LZ4HC", Some(*l as u64)),
        Codec::Delta(None) => push_with_level(out, "Delta", None),
        Codec::Delta(Some(l)) => push_with_level(out, "Delta", Some(l.width())),
    }
}

/// Appends the canonical text of a list of codecs.
pub fn push_codec_list(out: &mut String, list: &Vec<Codec>)
    ensures
        encode_utf8(final(out)@) == encode_utf8(old(out)@) + print_codec_list(list@),
{
    let mut i: usize = 0;
    assert(encode_utf8(out@) =~= encode_utf8(old(out)@) + print_codecs(list@, 0));
    while i < list.len()
        invariant
            i <= list.len(),
            encode_utf8(out@) == encode_utf8(old(out)@) + print_codecs(list@, i as int),
        decreases list.len() - i,
    {
        let ghost before = encode_utf8(out@);
        if i > 0 {
            push_str(out, ", ");
        }
        push_codec(out, &list[i]);
        proof {
            if i > 0 {
                assert(encode_utf8(out@) =~= encode_utf8(old(out)@) + (print_codecs(list@, i as int)
                    + lit(", ") + print_codec(list@[i as int])));
            } else {
                assert(encode_utf8(out@) =~= encode_utf8(old(out)@) + print_codec(list@[0]));
            }
        }
        i = i + 1;
    }
}

impl Codec {
    /// The canonical text of the codec.
    pub fn to_string(&self) -> (r: String)
        ensures
            encode_utf8(r@) == print_codec(*self),
    {
        let mut out = String::new();
        push_codec(&mut out, self);
        assert(encode_utf8(Seq::<char>::empty()) + print_codec(*self) =~= print_codec(*self));
        out
    }
}

impl CodecList {
    /// The canonical text of the codecs, with `, ` between them.
    pub fn to_string(&self) -> (r: String)
        ensures
            encode_utf8(r@) == print_codec_list(self@),
    {
        let mut out = String::new();
        push_codec_list(&mut out, &self.0);
        assert(encode_utf8(Seq::<char>::empty()) + print_codec_list(self@) =~= print_codec_list(
            self@,
        ));
        out
    }
}

/// The number in brackets at `pos`, if one is written there: white space,
/// `(`, white space, digits, white space, `)`, white space. Gives the
/// number with the position of its digits, and the end; or nothing and `pos`.
pub open spec fn spec_codec_level(s: Seq<u8>, pos: int) -> Result<
    (Option<(u64, int)>, int),
    ParseError,
> {
    let open = ws_end(s, pos);
    let digits = ws_end(s, open + 1);
    let digits_end = run_end(s, digits, ByteClass::Digit);
    let close = ws_end(s, digits_end);
    if byte_at(s, open, '(' as u8) && digits_end > digits && byte_at(s, close, ')' as u8) {
        match spec_number(s, digits, digits_end) {
            Ok(v) => Ok((Some((v, digits)), ws_end(s, close + 1))),
            Err(e) => Err(e),
        }
    } else {
        Ok((None, pos))
    }
}

/// `ZSTD`, alone or with a level from 1 to 22 in brackets. Any other
/// level is a failure.
pub open spec fn spec_zstd(s: Seq<u8>, pos: int) -> Result<(Codec, int), ParseError> {
    match word_end(s, pos, lit("zstd")) {
        None => Err(syntax(ErrorKind::Tag, pos)),
        Some(p) => match spec_codec_level(s, p) {
            Err(e) => Err(e),
            Ok((None, end)) => Ok((Codec::ZSTD(None), end)),
            Ok((Some((v, at)), end)) => if 1 <= v <= 22 {
                Ok((Codec::ZSTD(Some(v as u8)), end))
            } else {
                Err(failure(Violation::ZstdLevel(v), at))
            },
        },
    }
}

/// `LZ4HC`, alone or with a level from 0 to 12 in brackets. Any other
/// level is a failure.
pub open spec fn spec_lz4hc(s: Seq<u8>, pos: int) -> Result<(Codec, int), ParseError> {
    match word_end(s, pos, lit("LZ4HC")) {
        None => Err(syntax(ErrorKind::Tag, pos)),
        Some(p) => match spec_codec_level(s, p) {
            Err(e) => Err(e),
            Ok((None, end)) => Ok((Codec::LZ4HC(None), end)),
            Ok((Some((v, at)), end)) => if v <= 12 {
                Ok((Codec::LZ4HC(Some(v as u8)), end))
            } else {
                Err(failure(Violation::Lz4hcLevel(v), at))
            },
        },
    }
}

/// `Delta`, alone or with a width in brackets, which is one digit: 1, 2, 4
/// or 8. Any other number is a failure, and so is a width that is written
/// with more than one digit.
pub open spec fn spec_delta(s: Seq<u8>, pos: int) -> Result<(Codec, int), ParseError> {
    match word_end(s, pos, lit("delta")) {
        None => Err(syntax(ErrorKind::Tag, pos)),
        Some(p) => match spec_codec_level(s, p) {
            Err(e) => Err(e),
            Ok((None, end)) => Ok((Codec::Delta(None), end)),
            Ok((Some((v, at)), end)) => match CodecDeltaLevel::spec_from_width(v) {
                Some(level) => if run_end(s, at, ByteClass::Digit) == at + 1 {
                    Ok((Codec::Delta(Some(level)), end))
                } else {
                    Err(failure(Violation::DeltaLevel(v), at))
                },
                None => Err(failure(Violation::DeltaLevel(v), at)),
            },
        },
    }
}

/// A codec that is one word, in any case.
pub open spec fn spec_word_codec(s: Seq<u8>, pos: int, word: Seq<u8>, c: Codec) -> Result<
    (Codec, int),
    ParseError,
> {
    match word_end(s, pos, word) {
        None => Err(syntax(ErrorKind::Tag, pos)),
        Some(end) => Ok((c, end)),
    }
}

/// The codec at `pos`: the first that matches of `NONE`, `ZSTD`, `LZ4HC`,
/// `LZ4`, `Delta`, `DoubleDelta`, `Gorilla` and `T64`, each in any case.
pub open spec fn spec_column_codec(s: Seq<u8>, pos: int) -> Result<(Codec, int), ParseError> {
    if !gives_up(spec_word_codec(s, pos, lit("none"), Codec::Uncompressed)) {
        spec_word_codec(s, pos, lit("none"), Codec::Uncompressed)
    } else if !gives_up(spec_zstd(s, pos)) {
        spec_zstd(s, pos)
    } else if !gives_up(spec_lz4hc(s, pos)) {
        spec_lz4hc(s, pos)
    } else if !gives_up(spec_word_codec(s, pos, lit("lz4"), Codec::LZ4)) {
        spec_word_codec(s, pos, lit("lz4"), Codec::LZ4)
    } else if !gives_up(spec_delta(s, pos)) {
        spec_delta(s, pos)
    } else if !gives_up(spec_word_codec(s, pos, lit("DoubleDelta"), Codec::DoubleDelta)) {
        spec_word_codec(s, pos, lit("DoubleDelta"), Codec::DoubleDelta)
    } else if !gives_up(spec_word_codec(s, pos, lit("gorilla"), Codec::Gorilla)) {
        spec_word_codec(s, pos, lit("gorilla"), Codec::Gorilla)
    } else if !gives_up(spec_word_codec(s, pos, lit("t64"), Codec::T64)) {
        spec_word_codec(s, pos, lit("t64"), Codec::T64)
    } else {
        Err(syntax(ErrorKind::Codec, pos))
    }
}

/// The codecs that follow the codecs `acc`, which end at `pos`: each behind
/// a comma.
pub open spec fn spec_codecs_tail(s: Seq<u8>, pos: int, acc: Seq<Codec>) -> Result<
    (Seq<Codec>, int),
    ParseError,
>
    decreases s.len() - pos,
{
    match sep_comma_end(s, pos) {
        None => Ok((acc, pos)),
        Some(next) => match spec_column_codec(s, next) {
            Err(e) => if e is Failure {
                Err(e)
            } else {
                Ok((acc, pos))
            },
            Ok((c, end)) => if pos < end <= s.len() {
                spec_codecs_tail(s, end, acc.push(c))
            } else {
                Ok((acc, pos))
            },
        },
    }
}

/// The codecs at `pos`, with commas between them; there may be none.
pub open spec fn spec_codecs(s: Seq<u8>, pos: int) -> Result<(Seq<Codec>, int), ParseError> {
    match spec_column_codec(s, pos) {
        Err(e) => if e is Failure {
            Err(e)
        } else {
            Ok((seq![], pos))
        },
        Ok((c, end)) => spec_codecs_tail(s, end, seq![c]),
    }
}

/// The codec clause at `pos`: `CODEC ( codecs )`, with white space as one
/// likes, the white space behind the closing bracket included.
pub open spec fn spec_column_codec_list(s: Seq<u8>, pos: int) -> Result<
    (Seq<Codec>, int),
    ParseError,
> {
    match word_end(s, pos, lit("codec")) {
        None => Err(syntax(ErrorKind::Tag, pos)),
        Some(p) => {
            let open = ws_end(s, p);
            if !byte_at(s, open, '(' as u8) {
                Err(syntax(ErrorKind::Tag, open))
            } else {
                match spec_codecs(s, ws_end(s, open + 1)) {
                    Err(e) => Err(e),
                    Ok((list, end)) => {
                        let close = ws_end(s, end);
                        if byte_at(s, close, ')' as u8) {
                            Ok((list, ws_end(s, close + 1)))
                        } else {
                            Err(syntax(ErrorKind::Tag, close))
                        }
                    },
                }
            }
        },
    }
}

/// The number in brackets at `pos`, if one is written there.
pub fn codec_level_at(buf: &[u8], pos: usize) -> (r: Result<
    (Option<(u64, usize)>, usize),
    ParseError,
>)
    requires
        pos <= buf.len(),
    ensures
        match spec_codec_level(buf@, pos as int) {
            Ok((None, end)) => r is Ok && r->Ok_0.0 is None && r->Ok_0.1 == end,
            Ok((Some((v, at)), end)) => r is Ok && r->Ok_0.0 == Some((v, at as usize))
                && r->Ok_0.1 == end && at <= buf.len(),
            Err(e) => r is Err && r->Err_0 == e,
        },
        r is Ok ==> pos <= r->Ok_0.1 <= buf.len(),
{
    let open = skip_ws(buf, pos);
    if !is_byte_at(buf, open, 40) {
        return Ok((None, pos));
    }
    let digits = skip_ws(buf, open + 1);
    let digits_end = match crate::scan::digits1(buf, digits) {
        Some(end) => end,
        None => {
            return Ok((None, pos));
        },
    };
    let close = skip_ws(buf, digits_end);
    if !is_byte_at(buf, close, 41) {
        return Ok((None, pos));
    }
    let (v, _) = digits_at(buf, digits)?;
    Ok((Some((v, digits)), skip_ws(buf, close + 1)))
}

/// `ZSTD`, alone or with a level.
pub fn zstd_at(buf: &[u8], pos: usize) -> (r: Result<(Codec, usize), ParseError>)
    requires
        pos <= buf.len(),
    ensures
        agrees(r, spec_zstd(buf@, pos as int)),
        r is Ok ==> pos <= r->Ok_0.1 <= buf.len(),
{
    match tag_no_case(buf, pos, "zstd") {
        None => Err(ParseError::Syntax { kind: ErrorKind::Tag, position: pos }),
        Some(p) => match codec_level_at(buf, p)? {
            (None, end) => Ok((Codec::ZSTD(None), end)),
            (Some((v, at)), end) => if 1 <= v && v <= 22 {
                Ok((Codec::ZSTD(Some(v as u8)), end))
            } else {
                Err(ParseError::Failure { violation: Violation::ZstdLevel(v), position: at })
            },
        },
    }
}

/// `LZ4HC`, alone or with a level.
pub fn lz4hc_at(buf: &[u8], pos: usize) -> (r: Result<(Codec, usize), ParseError>)
    requires
        pos <= buf.len(),
    ensures
        agrees(r, spec_lz4hc(buf@, pos as int)),
        r is Ok ==> pos <= r->Ok_0.1 <= buf.len(),
{
    match tag_no_case(buf, pos, "LZ4HC") {
        None => Err(ParseError::Syntax { kind: ErrorKind::Tag, position: pos }),
        Some(p) => match codec_level_at(buf, p)? {
            (None, end) => Ok((Codec::LZ4HC(None), end)),
            (Some((v, at)), end) => if v <= 12 {
                Ok((Codec::LZ4HC(Some(v as u8)), end))
            } else {
                Err(ParseError::Failure { violation: Violation::Lz4hcLevel(v), position: at })
            },
        },
    }
}

/// Whether the digits at `pos` are one digit.
fn is_one_digit(buf: &[u8], pos: usize) -> (r: bool)
    requires
        pos <= buf.len(),
    ensures
        r == (run_end(buf@, pos as int, ByteClass::Digit) == pos + 1),
{
    match crate::scan::digits1(buf, pos) {
        Some(end) => end == pos + 1,
        None => false,
    }
}

/// `Delta`, alone or with a width.
pub fn delta_at(buf: &[u8], pos: usize) -> (r: Result<(Codec, usize), ParseError>)
    requires
        pos <= buf.len(),
    ensures
        agrees(r, spec_delta(buf@, pos as int)),
        r is Ok ==> pos <= r->Ok_0.1 <= buf.len(),
{
    match tag_no_case(buf, pos, "delta") {
        None => Err(ParseError::Syntax { kind: ErrorKind::Tag, position: pos }),
        Some(p) => match codec_level_at(buf, p)? {
            (None, end) => Ok((Codec::Delta(None), end)),
            (Some((v, at)), end) => match CodecDeltaLevel::from_width(v) {
                Some(level) => if is_one_digit(buf, at) {
                    Ok((Codec::Delta(Some(level)), end))
                } else {
                    Err(ParseError::Failure { violation: Violation::DeltaLevel(v), position: at })
                },
                None => Err(
                    ParseError::Failure { violation: Violation::DeltaLevel(v), position: at },
                ),
            },
        },
    }
}

/// A codec that is one word, in any case.
pub fn word_codec_at(buf: &[u8], pos: usize, word: &str, c: Codec) -> (r: Result<
    (Codec, usize),
    ParseError,
>)
    requires
        pos <= buf.len(),
    ensures
        agrees(r, spec_word_codec(buf@, pos as int, lit(word), c)),
        r is Ok ==> pos <= r->Ok_0.1 <= buf.len(),
{
    match tag_no_case(buf, pos, word) {
        None => Err(ParseError::Syntax { kind: ErrorKind::Tag, position: pos }),
        Some(end) => Ok((c, end)),
    }
}

/// The codec at `pos`.
pub fn column_codec_at(buf: &[u8], pos: usize) -> (r: Result<(Codec, usize), ParseError>)
    requires
        pos <= buf.len(),
    ensures
        agrees(r, spec_column_codec(buf@, pos as int)),
        r is Ok ==> pos <= r->Ok_0.1 <= buf.len(),
{
    let r = word_codec_at(buf, pos, "none", Codec::Uncompressed);
    if !gave_up(&r) {
        return r;
    }
    let r = zstd_at(buf, pos);
    if !gave_up(&r) {
        return r;
    }
    let r = lz4hc_at(buf, pos);
    if !gave_up(&r) {
        return r;
    }
    let r = word_codec_at(buf, pos, "lz4", Codec::LZ4);
    if !gave_up(&r) {
        return r;
    }
    let r = delta_at(buf, pos);
    if !gave_up(&r) {
        return r;
    }
    let r = word_codec_at(buf, pos, "DoubleDelta", Codec::DoubleDelta);
    if !gave_up(&r) {
        return r;
    }
    let r = word_codec_at(buf, pos, "gorilla", Codec::Gorilla);
    if !gave_up(&r) {
        return r;
    }
    let r = word_codec_at(buf, pos, "t64", Codec::T64);
    if !gave_up(&r) {
        return r;
    }
    Err(ParseError::Syntax { kind: ErrorKind::Codec, position: pos })
}

/// The codecs at `pos`, with commas between them.
pub fn codecs_at(buf: &[u8], pos: usize) -> (r: Result<(Vec<Codec>, usize), ParseError>)
    requires
        pos <= buf.len(),
    ensures
        agrees(r, spec_codecs(buf@, pos as int)),
        r is Ok ==> pos <= r->Ok_0.1 <= buf.len(),
{
    let mut acc: Vec<Codec> = Vec::new();
    let mut p: usize = match column_codec_at(buf, pos) {
        Ok((c, end)) => {
            acc.push(c);
            end
        },
        Err(e) => {
            if e.is_failure() {
                return Err(e);
            } else {
                return Ok((acc, pos));
            }
        },
    };
    assert(acc@ =~= seq![spec_column_codec(buf@, pos as int)->Ok_0.0]);
    loop
        invariant
            pos <= p <= buf.len(),
            spec_codecs(buf@, pos as int) == spec_codecs_tail(buf@, p as int, acc@),
        decreases buf.len() - p,
    {
        match sep_comma_at(buf, p) {
            None => {
                return Ok((acc, p));
            },
            Some(next) => match column_codec_at(buf, next) {
                Ok((c, end)) => {
                    acc.push(c);
                    p = end;
                },
                Err(e) => {
                    if e.is_failure() {
                        return Err(e);
                    } else {
                        return Ok((acc, p));
                    }
                },
            },
        }
    }
}

/// The codec clause at `pos`.
pub fn column_codec_list_at(buf: &[u8], pos: usize) -> (r: Result<(CodecList, usize), ParseError>)
    requires
        pos <= buf.len(),
    ensures
        agrees(r, spec_column_codec_list(buf@, pos as int)),
        r is Ok ==> pos < r->Ok_0.1 <= buf.len(),
{
    match tag_no_case(buf, pos, "codec") {
        None => Err(ParseError::Syntax { kind: ErrorKind::Tag, position: pos }),
        Some(p) => {
            let open = skip_ws(buf, p);
            if !is_byte_at(buf, open, 40) {
                return Err(ParseError::Syntax { kind: ErrorKind::Tag, position: open });
            }
            let (list, end) = codecs_at(buf, skip_ws(buf, open + 1))?;
            let close = skip_ws(buf, end);
            if is_byte_at(buf, close, 41) {
                Ok((CodecList(list), skip_ws(buf, close + 1)))
            } else {
                Err(ParseError::Syntax { kind: ErrorKind::Tag, position: close })
            }
        },
    }
}

/// Reads one codec, and gives the rest of the input and the codec. A level
/// outside the range of its codec is a failure, not a syntax error.
pub fn column_codec<'a>(i: &'a [u8]) -> (r: Result<(&'a [u8], Codec), ParseError>)
    ensures
        match spec_column_codec(i@, 0) {
            Ok((c, end)) => r is Ok && r->Ok_0.0@ == i@.skip(end) && r->Ok_0.1 == c,
            Err(e) => r is Err && r->Err_0 == e,
        },
{
    match column_codec_at(i, 0) {
        Ok((c, end)) => Ok((slice_subrange(i, end, i.len()), c)),
        Err(e) => Err(e),
    }
}

/// Reads a codec clause, and gives the rest of the input and the codecs in
/// the order in which they are written.
pub fn column_codec_list<'a>(i: &'a [u8]) -> (r: Result<(&'a [u8], CodecList), ParseError>)
    ensures
        match spec_column_codec_list(i@, 0) {
            Ok((list, end)) => r is Ok && r->Ok_0.0@ == i@.skip(end) && r->Ok_0.1@ == list,
            Err(e) => r is Err && r->Err_0 == e,
        },
{
    match column_codec_list_at(i, 0) {
        Ok((list, end)) => Ok((slice_subrange(i, end, i.len()), list)),
        Err(e) => Err(e),
    }
}

} // verus!
