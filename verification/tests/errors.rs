use clickhouse_sql_parser::{
    as_alias, column_codec, column_codec_list, column_comment, correct_identifier, creation,
    delim_digit, engine, field_specification, parse_query, parse_query_bytes, raw_string_quoted,
    sql_expression, sql_identifier, sql_keyword, statement_terminator, type_identifier,
    ws_sep_comma, Codec, CodecDeltaLevel, ErrorKind, ParseError, SqlType, Violation,
};

fn syntax(kind: ErrorKind, position: usize) -> ParseError {
    ParseError::Syntax { kind, position }
}

fn failure(violation: Violation, position: usize) -> ParseError {
    ParseError::Failure { violation, position }
}

#[test]
fn zstd_levels() {
    for n in 1..=22u8 {
        let text = format!("ZSTD({})", n);
        assert_eq!(column_codec(text.as_bytes()).unwrap().1, Codec::ZSTD(Some(n)));
    }
    assert_eq!(column_codec(b"ZSTD(0)"), Err(failure(Violation::ZstdLevel(0), 5)));
    assert_eq!(column_codec(b"ZSTD(23)"), Err(failure(Violation::ZstdLevel(23), 5)));
    assert_eq!(column_codec(b"zstd( 256 )"), Err(failure(Violation::ZstdLevel(256), 6)));
    assert_eq!(
        column_codec(b"ZSTD(99999999999999999999)"),
        Err(failure(Violation::NumberTooLarge, 5))
    );
}

#[test]
fn lz4hc_levels() {
    for n in 0..=12u8 {
        let text = format!("LZ4HC({})", n);
        assert_eq!(column_codec(text.as_bytes()).unwrap().1, Codec::LZ4HC(Some(n)));
    }
    assert_eq!(column_codec(b"LZ4HC(13)"), Err(failure(Violation::Lz4hcLevel(13), 6)));
}

#[test]
fn delta_levels_from_digits() {
    assert_eq!(CodecDeltaLevel::from_digit('1'), Some(CodecDeltaLevel::L1));
    assert_eq!(CodecDeltaLevel::from_digit('2'), Some(CodecDeltaLevel::L2));
    assert_eq!(CodecDeltaLevel::from_digit('4'), Some(CodecDeltaLevel::L4));
    assert_eq!(CodecDeltaLevel::from_digit('8'), Some(CodecDeltaLevel::L8));
    for c in ['0', '3', '5', '6', '7', '9', 'a', ' '] {
        assert_eq!(CodecDeltaLevel::from_digit(c), None);
    }
    for n in 0..20u64 {
        let level = CodecDeltaLevel::from_width(n);
        assert_eq!(level.is_some(), [1, 2, 4, 8].contains(&n));
        if let Some(l) = level {
            assert_eq!(l.width(), n);
            assert_eq!(l.to_string(), n.to_string());
        }
    }
}

#[test]
fn delta_widths() {
    assert_eq!(column_codec(b"Delta(1)").unwrap().1, Codec::Delta(Some(CodecDeltaLevel::L1)));
    assert_eq!(column_codec(b"Delta(2)").unwrap().1, Codec::Delta(Some(CodecDeltaLevel::L2)));
    assert_eq!(column_codec(b"Delta(4)").unwrap().1, Codec::Delta(Some(CodecDeltaLevel::L4)));
    assert_eq!(column_codec(b"Delta(8)").unwrap().1, Codec::Delta(Some(CodecDeltaLevel::L8)));
    for n in [0u64, 3, 5, 6, 7, 9, 12, 16] {
        let text = format!("Delta({})", n);
        assert_eq!(column_codec(text.as_bytes()), Err(failure(Violation::DeltaLevel(n), 6)));
    }
}

#[test]
fn delta_width_is_one_digit() {
    assert_eq!(column_codec(b"Delta(08)"), Err(failure(Violation::DeltaLevel(8), 6)));
    assert_eq!(column_codec(b"Delta(004)"), Err(failure(Violation::DeltaLevel(4), 6)));
    assert_eq!(column_codec(b"delta ( 01 )"), Err(failure(Violation::DeltaLevel(1), 8)));
    assert_eq!(column_codec(b"Delta(88)"), Err(failure(Violation::DeltaLevel(88), 6)));
    assert_eq!(
        column_codec(b"delta ( 8 ) ,"),
        Ok((&b","[..], Codec::Delta(Some(CodecDeltaLevel::L8))))
    );
    assert_eq!(column_codec(b"ZSTD(08)"), Ok((&b""[..], Codec::ZSTD(Some(8)))));
    assert_eq!(column_codec(b"LZ4HC(012)"), Ok((&b""[..], Codec::LZ4HC(Some(12)))));
}

#[test]
fn a_codec_alone_or_in_a_list() {
    for text in ["ZSTD(5)", "LZ4HC(0)", "Delta(2)", "ZSTD", "NONE", "T64"] {
        let alone = column_codec(text.as_bytes()).unwrap();
        assert!(alone.0.is_empty());
        assert_eq!(alone.1.to_string(), text);
        let listed = format!("{},", text);
        let (rest, codec) = column_codec(listed.as_bytes()).unwrap();
        assert_eq!(rest, b",");
        assert_eq!(codec, alone.1);
    }
    assert_eq!(column_codec(b"ZSTD(23)"), Err(failure(Violation::ZstdLevel(23), 5)));
    assert_eq!(column_codec(b"LZ4HC(13)"), Err(failure(Violation::Lz4hcLevel(13), 6)));
}

#[test]
fn a_failure_ends_the_whole_parse() {
    let r = parse_query("CREATE TABLE t (x Int8 CODEC(LZ4, ZSTD(23))) ENGINE = Memory");
    assert_eq!(r, Err(failure(Violation::ZstdLevel(23), 39)));
    assert!(column_codec_list(b"CODEC(Delta(3))").unwrap_err().is_failure());
}

#[test]
fn table_alias_is_a_failure() {
    let r = parse_query("CREATE TABLE a b (i Int8) ENGINE = Memory");
    assert_eq!(r, Err(failure(Violation::TableAlias, 13)));
    let r = parse_query("CREATE TABLE s.a AS b (i Int8) ENGINE = Memory");
    assert_eq!(r, Err(failure(Violation::TableAlias, 13)));
    assert_eq!(as_alias(b" AS b").unwrap().1, "b");
    assert_eq!(as_alias(b"  b ").unwrap().1, "b");
    assert_eq!(as_alias(b"b"), Err(syntax(ErrorKind::Space, 0)));
}

#[test]
fn enum_values() {
    assert_eq!(
        type_identifier(b"Enum16('a' = 32767)").unwrap().1,
        SqlType::Enum(
            Some(clickhouse_sql_parser::TypeSize16::B16),
            vec![("a".to_string(), 32767)]
        )
    );
    assert_eq!(
        type_identifier(b"Enum16('a' = 32768)"),
        Err(failure(Violation::EnumValue(32768), 13))
    );
    assert_eq!(
        type_identifier(b"Enum8('a' = -1)").unwrap(),
        (
            &b""[..],
            SqlType::Enum(
                Some(clickhouse_sql_parser::TypeSize16::B8),
                vec![("a".to_string(), -1)]
            )
        )
    );
    assert_eq!(
        type_identifier(b"Enum('lo' = -32768, 'z' = -0, 'hi' = 32767)").unwrap().1,
        SqlType::Enum(
            None,
            vec![("lo".to_string(), i16::MIN), ("z".to_string(), 0), ("hi".to_string(), i16::MAX)]
        )
    );
    assert_eq!(
        type_identifier(b"Enum16('a' = -32769)"),
        Err(failure(Violation::EnumValueBelow(32769), 13))
    );
    assert_eq!(
        type_identifier(b"Enum16('a' = -99999999999999999999)"),
        Err(failure(Violation::NumberTooLarge, 14))
    );
    assert_eq!(type_identifier(b"Enum16('a' = - 1)"), Err(syntax(ErrorKind::Type, 0)));
    assert_eq!(type_identifier(b"Enum16('a' = +1)"), Err(syntax(ErrorKind::Type, 0)));
    assert_eq!(type_identifier(b"Enum16('a' = --1)"), Err(syntax(ErrorKind::Type, 0)));
    assert!(type_identifier(b"Enum8()").is_err());
    assert!(type_identifier(b"Enum8('a' = 1,)").is_err());
    assert!(type_identifier(b"Enum8('a' = 1 'b' = 2)").is_err());
}

#[test]
fn invalid_utf8_is_a_failure() {
    let r = column_comment(b"COMMENT '\xff'");
    assert_eq!(r, Err(failure(Violation::InvalidUtf8, 9)));
    let r = parse_query_bytes(b"CREATE TABLE `\xc3` (i Int8) ENGINE = Memory");
    assert_eq!(r, Err(failure(Violation::InvalidUtf8, 14)));
}

#[test]
fn nesting_has_a_limit() {
    let deep = |n: usize| format!("{}Int8{}", "Array(".repeat(n), ")".repeat(n));
    assert!(type_identifier(deep(64).as_bytes()).is_ok());
    assert_eq!(
        type_identifier(deep(65).as_bytes()),
        Err(failure(Violation::NestingTooDeep, 64 * 6 + 5))
    );
    let nested = |n: usize| format!("{}x{}", "(".repeat(n), ")".repeat(n));
    assert!(sql_expression(nested(64).as_bytes()).is_ok());
    assert_eq!(
        sql_expression(nested(65).as_bytes()),
        Err(failure(Violation::NestingTooDeep, 64))
    );
}

#[test]
fn fixed_string_sizes() {
    assert_eq!(type_identifier(b"FixedString(007)").unwrap().1, SqlType::FixedString(7));
    assert_eq!(
        type_identifier(b"FixedString(99999999999999999999)"),
        Err(failure(Violation::NumberTooLarge, 12))
    );
    assert!(type_identifier(b"FixedString( 3)").is_err());
    assert_eq!(delim_digit(b"(42)x").unwrap(), (&b"x"[..], &b"42"[..]));
    assert_eq!(delim_digit(b"(x)"), Err(syntax(ErrorKind::Digit, 1)));
    assert_eq!(delim_digit(b"(1"), Err(syntax(ErrorKind::Tag, 2)));
}

#[test]
fn syntax_errors_name_the_place() {
    assert_eq!(parse_query("DROP TABLE a"), Err(syntax(ErrorKind::Tag, 0)));
    assert_eq!(parse_query("CREATE  a"), Err(syntax(ErrorKind::Tag, 8)));
    assert_eq!(parse_query("CREATE TABLE"), Err(syntax(ErrorKind::Space, 12)));
    assert_eq!(parse_query("CREATE TABLE (x Int8)"), Err(syntax(ErrorKind::Identifier, 13)));
    assert_eq!(
        creation(b"CREATE TABLE t (x Blob) ENGINE = Memory").unwrap_err(),
        syntax(ErrorKind::Tag, 16)
    );
    assert_eq!(type_identifier(b"Blob"), Err(syntax(ErrorKind::Type, 0)));
    assert_eq!(column_codec(b"Brotli"), Err(syntax(ErrorKind::Codec, 0)));
    assert_eq!(engine(b"Log"), Err(syntax(ErrorKind::Engine, 0)));
    assert_eq!(sql_expression(b"+"), Err(syntax(ErrorKind::Expression, 0)));
    assert_eq!(sql_keyword(b"selected"), Err(syntax(ErrorKind::Keyword, 0)));
    assert_eq!(statement_terminator(b"  x"), Err(syntax(ErrorKind::Terminator, 2)));
    assert_eq!(raw_string_quoted(b"'abc", true), Err(syntax(ErrorKind::StringLiteral, 0)));
    assert_eq!(ws_sep_comma(b"  ;"), Err(syntax(ErrorKind::Tag, 2)));
    assert_eq!(field_specification(b"x"), Err(syntax(ErrorKind::Space, 1)));
    assert_eq!(
        engine(b"MergeTree SETTINGS x = 1").unwrap().0,
        &b"x = 1"[..]
    );
}

#[test]
fn keywords_are_no_identifiers() {
    assert!(sql_keyword(b"select ").is_ok());
    assert_eq!(sql_keyword(b"SeLeCt(").unwrap(), (&b"("[..], &b"SeLeCt"[..]));
    assert_eq!(sql_keyword(b"ASC").unwrap().1, b"ASC");
    assert_eq!(sql_keyword(b"AS,").unwrap().1, b"AS");
    assert_eq!(correct_identifier(b"select"), Err(syntax(ErrorKind::Identifier, 0)));
    assert_eq!(correct_identifier(b"select.x").unwrap().1, b"select");
    assert_eq!(correct_identifier(b"a@b_1-").unwrap(), (&b"-"[..], &b"a@b_1"[..]));
    assert_eq!(sql_identifier(b"`select`").unwrap().1, b"select");
    assert_eq!(sql_identifier(b"``"), Err(syntax(ErrorKind::Identifier, 0)));
    assert_eq!(sql_identifier(b"`a"), Err(syntax(ErrorKind::Identifier, 0)));
}

#[test]
fn string_literals_are_unescaped() {
    let (rest, v) = raw_string_quoted(br"'a''b\'c\\d\n\t\r\0\Z\b\x' tail", true).unwrap();
    assert_eq!(rest, b" tail");
    assert_eq!(v, b"a'b'c\\d\n\t\r\0\x1a\x7fx".to_vec());
    let (rest, v) = raw_string_quoted(br#""a""b'c\"d""#, false).unwrap();
    assert!(rest.is_empty());
    assert_eq!(v, b"a\"b'c\"d".to_vec());
    assert_eq!(raw_string_quoted(b"''", true).unwrap().1, Vec::<u8>::new());
    assert!(raw_string_quoted(br"'a\", true).is_err());
    assert!(raw_string_quoted(b"'a''", true).is_err());
    assert!(raw_string_quoted(b"\"a\"", true).is_err());
}
