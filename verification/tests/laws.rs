use clickhouse_sql_parser::{
    escape_identifier, escape_if_keyword, field_specification, field_specification_opts,
    is_sql_identifier, parse_query, Column, ColumnSpecification, SqlQuery, SqlType, SqlTypeOpts,
    Table, TypeSize, TypeSize16,
};

const KEYWORDS: [&str; 42] = [
    "AND", "AS", "ASC", "BETWEEN", "BY", "COLUMN", "CREATE", "DATABASE", "DEFAULT", "DESC",
    "DETACH", "DISTINCT", "DROP", "EXISTS", "FROM", "GROUP", "HAVING", "IGNORE", "IN", "INDEX",
    "INSERT", "INTO", "ORDER", "JOIN", "LEFT", "LIKE", "LIMIT", "NOT", "NULL", "OFFSET", "ON",
    "OR", "PRIMARY", "SELECT", "SET", "TABLE", "TEMPORARY", "TO", "UNIQUE", "VALUES", "VIEW",
    "WHERE",
];

#[test]
fn keywords_are_escaped() {
    for k in KEYWORDS {
        assert_eq!(escape_if_keyword(k), format!("`{}`", k));
        assert_eq!(escape_identifier(k), format!("`{}`", k));
        let lower = k.to_lowercase();
        assert_eq!(escape_if_keyword(&lower), format!("`{}`", lower));
    }
}

#[test]
fn identifiers_are_kept() {
    for s in ["a", "time_local", "x1", "@v", "selected", "_", "1", "ASCII"] {
        assert_eq!(escape_if_keyword(s), s);
        assert_eq!(escape_identifier(s), s);
    }
    for s in ["", "a b", "a.b", ".inner", "a-b", "é"] {
        assert_eq!(escape_if_keyword(s), format!("`{}`", s));
        assert_eq!(escape_identifier(s), format!("`{}`", s));
    }
}

#[test]
fn bytes_of_identifiers() {
    for b in 0..=255u8 {
        let expected = b.is_ascii_alphanumeric() || b == b'_' || b == b'@';
        assert_eq!(is_sql_identifier(b), expected);
    }
}

fn base_types() -> Vec<SqlType> {
    vec![
        SqlType::String,
        SqlType::Int(TypeSize::B8),
        SqlType::Int(TypeSize::B16),
        SqlType::UnsignedInt(TypeSize::B32),
        SqlType::UnsignedInt(TypeSize::B64),
        SqlType::Enum(None, vec![("".to_string(), 0)]),
        SqlType::Enum(Some(TypeSize16::B16), vec![("a b".to_string(), 1), ("ß".to_string(), 300)]),
        SqlType::Enum(Some(TypeSize16::B8), vec![("a".to_string(), -1)]),
        SqlType::Enum(
            None,
            vec![("lo".to_string(), i16::MIN), ("x".to_string(), -7), ("hi".to_string(), i16::MAX)],
        ),
        SqlType::Date,
        SqlType::DateTime(None),
        SqlType::DateTime(Some("Europe/Berlin".to_string())),
        SqlType::DateTime64(0, None),
        SqlType::DateTime64(9, Some("UTC".to_string())),
        SqlType::Float32,
        SqlType::Float64,
        SqlType::FixedString(0),
        SqlType::FixedString(1234567890),
        SqlType::IPv4,
        SqlType::IPv6,
        SqlType::UUID,
        SqlType::Array(Box::new(SqlTypeOpts {
            ftype: SqlType::DateTime(None),
            nullable: true,
            lowcardinality: true,
        })),
    ]
}

#[test]
fn wrappers_are_symmetric() {
    for t in base_types() {
        for (nullable, lowcardinality) in [(false, false), (false, true), (true, false), (true, true)]
        {
            let opts = SqlTypeOpts { ftype: t.clone(), nullable, lowcardinality };
            let text = opts.to_string();
            let (rest, read) = field_specification_opts(text.as_bytes()).unwrap();
            assert!(rest.is_empty());
            assert_eq!(read, opts);

            let mut column = ColumnSpecification::new(Column::from("c"), t.clone());
            column.nullable = nullable;
            column.lowcardinality = lowcardinality;
            let text = column.to_string();
            let (rest, read) = field_specification(text.as_bytes()).unwrap();
            assert!(rest.is_empty());
            assert_eq!(read, column);
        }
    }
}

fn round_trip(sql: &str) -> String {
    let first = parse_query(sql).unwrap();
    let text = first.to_string();
    assert_eq!(text.trim(), text);
    assert_eq!(parse_query(&format!(" \t\n{}\u{3000}\r\n", text)), Ok(first.clone()));
    let second = parse_query(&text).unwrap();
    assert_eq!(first, second);
    assert_eq!(second.to_string(), text);
    text
}

#[test]
fn statements_round_trip() {
    assert_eq!(
        round_trip("create table a ( i uint8 ) engine=memory"),
        "CREATE TABLE a (\n  `i` UInt8\n) ENGINE = Memory;"
    );
    round_trip("CREATE TABLE \"my db\".`select` (`from` Nullable(Date), t.x Array(Nullable(Enum8('a' = 1))) DEFAULT cast('a'as String) COMMENT 'k' TTL \"from\") ENGINE = Memory;");
    round_trip("CREATE TABLE t (x DateTime('UTC') CODEC(), y DateTime64(3, 'Asia/Tokyo') default now(), z DateTime TTL z) ENGINE = Distributed(c, db, `t`, rand(), p)");
    round_trip("CREATE TABLE t (x String DEFAULT 'a''b' CODEC ( ZSTD ( 3 ) , LZ4 ) ) ENGINE = Distributed('c', '', 't')\n");
    assert_eq!(
        round_trip("create table t (e Enum8( 'n'=-128 ,'p' = 127)) engine = memory"),
        "CREATE TABLE t (\n  `e` Enum8('n' = -128, 'p' = 127)\n) ENGINE = Memory;"
    );
}

#[test]
fn round_trip_needs_names_without_backtick() {
    let first = parse_query("CREATE TABLE \"a`b\" (i Int8) ENGINE = Memory").unwrap();
    let SqlQuery::CreateTable(c) = &first;
    assert_eq!(c.table, Table::from("a`b"));
    assert!(parse_query(&first.to_string()).is_err());
}

#[test]
fn round_trip_needs_self_delimiting_expressions() {
    let first = parse_query("CREATE TABLE t (i Int8 DEFAULT in\r\n) ENGINE = Memory").unwrap();
    assert_eq!(first.to_string(), "CREATE TABLE t (\n  `i` Int8 DEFAULT in\n) ENGINE = Memory;");
    assert!(parse_query(&first.to_string()).is_err());
}

#[test]
fn columns_and_tables_from_text() {
    assert_eq!(Column::from("a"), Column { name: "a".into(), alias: None, table: None });
    assert_eq!(
        Column::from("t.a.b"),
        Column { name: "a.b".into(), alias: None, table: Some("t".into()) }
    );
    assert_eq!(
        Column::from(".é"),
        Column { name: "é".into(), alias: None, table: Some("".into()) }
    );
    assert_eq!(Column::from("é.x").to_string(), "`é`.x");
    let c = Column { name: "select".into(), alias: Some("a b".into()), table: Some("t".into()) };
    assert_eq!(c.to_string(), "t.`select` AS `a b`");
    assert_eq!(Table::from(("s", "t")).to_string(), "s.t");
    let t = Table { name: "t".into(), alias: Some("x".into()), schema: None };
    assert_eq!(t.to_string(), "t AS x");
}
