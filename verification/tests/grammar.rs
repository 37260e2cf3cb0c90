use clickhouse_sql_parser::{
    column_codec, column_codec_list, column_ttl, engine, field_specification,
    field_specification_opts, schema_table_reference, sql_expression, sql_identifier,
    ttl_expression, type_identifier, Codec, CodecDeltaLevel, CodecList, ColumnTTL, Engine,
    EngineDistributed, ParseError, SqlType, SqlTypeOpts, TypeSize, TypeSize16,
};

fn parse_set_for_test<T, F>(f: F, patterns: Vec<(&str, T)>)
where
    T: std::fmt::Debug + PartialEq,
    F: Fn(&[u8]) -> Result<T, ParseError>,
{
    let mut success = true;
    for (pattern, res) in patterns {
        match f(pattern.as_bytes()) {
            Ok(r) if r == res => println!("* {}: OK", pattern),
            Ok(r) => {
                success = false;
                println!("* {}: WARN", pattern);
                println!("   expected: {:?}", res);
                println!("      found: {:?}", r);
            }
            Err(e) => {
                success = false;
                println!("* {}: FAIL ({:?})", pattern, e);
            }
        }
    }
    assert!(success);
}

fn text(bytes: &[u8]) -> String {
    std::str::from_utf8(bytes).unwrap().to_string()
}

#[test]
fn t_column_ttl() {
    let string = "TTL time_column";
    let res = column_ttl(string.as_bytes());
    assert_eq!(res.unwrap().1, ColumnTTL::from("time_column"));
}

#[test]
fn t_column_codec() {
    let patterns = vec![
        ("none", Codec::Uncompressed),
        ("lz4", Codec::LZ4),
        ("delta", Codec::Delta(None)),
        ("delta(4)", Codec::Delta(Some(CodecDeltaLevel::L4))),
        ("zstd", Codec::ZSTD(None)),
        ("zstd(3)", Codec::ZSTD(Some(3))),
        ("lz4hc", Codec::LZ4HC(None)),
        ("lz4hc(11)", Codec::LZ4HC(Some(11))),
        ("lz4hc(0)", Codec::LZ4HC(Some(0))),
    ];
    parse_set_for_test(|i| column_codec(i).map(|(_, o)| o), patterns);
}

#[test]
fn t_column_codec_list() {
    let patterns = vec![
        (
            "codec(delta(4),lz4)",
            CodecList(vec![Codec::Delta(Some(CodecDeltaLevel::L4)), Codec::LZ4]),
        ),
        (
            "codec( delta ( 4 ) , lz4)",
            CodecList(vec![Codec::Delta(Some(CodecDeltaLevel::L4)), Codec::LZ4]),
        ),
        ("codec(delta(4))", CodecList(vec![Codec::Delta(Some(CodecDeltaLevel::L4))])),
    ];
    parse_set_for_test(|i| column_codec_list(i).map(|(_, o)| o), patterns);
}

#[test]
fn t_field_spec() {
    let patterns = vec![
        (
            "LowCardinality(Nullable(String))",
            SqlTypeOpts { ftype: SqlType::String, nullable: true, lowcardinality: true },
        ),
        (
            "Nullable(String)",
            SqlTypeOpts { ftype: SqlType::String, nullable: true, lowcardinality: false },
        ),
        (
            "Int8",
            SqlTypeOpts { ftype: SqlType::Int(TypeSize::B8), nullable: false, lowcardinality: false },
        ),
    ];
    parse_set_for_test(|i| field_specification_opts(i).map(|(_, o)| o), patterns);
}

#[test]
fn t_field_opts_display() {
    let patterns = vec![
        ("String", "String".to_string()),
        ("Nullable(String)", "Nullable(String)".to_string()),
        ("LowCardinality(String)", "LowCardinality(String)".to_string()),
        ("LowCardinality(Nullable(String))", "LowCardinality(Nullable(String))".to_string()),
    ];
    parse_set_for_test(|i| field_specification_opts(i).map(|(_, o)| o.to_string()), patterns);
}

#[test]
fn t_engine() {
    let patterns = vec![
        ("Memory", Engine::Memory),
        (
            "Distributed('cluster1', 'schema1', 'table1', rand() )",
            Engine::Distributed(EngineDistributed {
                cluster_name: "'cluster1'".into(),
                schema: "'schema1'".into(),
                table: "'table1'".into(),
                sharding_key: None,
                policy_name: None,
            }),
        ),
        (
            "Distributed('cluster1', '', 'table1', rand() )",
            Engine::Distributed(EngineDistributed {
                cluster_name: "'cluster1'".into(),
                schema: "''".into(),
                table: "'table1'".into(),
                sharding_key: None,
                policy_name: None,
            }),
        ),
    ];
    parse_set_for_test(|i| engine(i).map(|(_, o)| o), patterns);
}

#[test]
fn create_t_column_display() {
    let patterns = vec![
        (
            "`reg` UInt32 DEFAULT CAST(0, 'UInt32') COMMENT 'комментарий' CODEC(Delta(4))",
            "`reg` UInt32 DEFAULT CAST(0, 'UInt32') COMMENT 'комментарий' CODEC(Delta(4))"
                .to_string(),
        ),
        ("`reg` UInt32 CODEC(Delta(4))", "`reg` UInt32 CODEC(Delta(4))".to_string()),
        ("`reg` UInt32 CODEC(Delta(4))", "`reg` UInt32 CODEC(Delta(4))".to_string()),
    ];
    parse_set_for_test(|i| field_specification(i).map(|(_, o)| o.to_string()), patterns);
}

#[test]
fn t_type_identifier() {
    fn t(nullable: bool, lowcardinality: bool, t: SqlType) -> Box<SqlTypeOpts> {
        Box::new(SqlTypeOpts { ftype: t, nullable: nullable, lowcardinality: lowcardinality })
    }
    let patterns = vec![
        ("Int32", SqlType::Int(TypeSize::B32)),
        ("UInt32", SqlType::UnsignedInt(TypeSize::B32)),
        (
            "Enum8('a' = 1, 'b' = 2)",
            SqlType::Enum(Some(TypeSize16::B8), vec![("a".into(), 1), ("b".into(), 2)]),
        ),
        ("String", SqlType::String),
        ("Float32", SqlType::Float32),
        ("Float64", SqlType::Float64),
        ("DateTime64(9)", SqlType::DateTime64(9, None)),
        ("DateTime64( 3 ,'Etc/UTC'  )", SqlType::DateTime64(3, Some("Etc/UTC".into()))),
        ("DateTime", SqlType::DateTime(None)),
        ("DateTime('Cont/City')", SqlType::DateTime(Some("Cont/City".into()))),
        ("DateTime ( 'Cont/City')", SqlType::DateTime(Some("Cont/City".into()))),
        ("FixedString(3)", SqlType::FixedString(3)),
        ("UUID", SqlType::UUID),
        ("Array(FixedString(2))", SqlType::Array(t(false, false, SqlType::FixedString(2)))),
        ("Array(Nullable(Int32))", SqlType::Array(t(true, false, SqlType::Int(TypeSize::B32)))),
        ("Array(LowCardinality(String))", SqlType::Array(t(false, true, SqlType::String))),
        (
            "Array(Array(Array(Int64)))",
            SqlType::Array(t(
                false,
                false,
                SqlType::Array(t(
                    false,
                    false,
                    SqlType::Array(t(false, false, SqlType::Int(TypeSize::B64))),
                )),
            )),
        ),
    ];
    parse_set_for_test(|i| type_identifier(i).map(|(_, o)| o), patterns);
}

#[test]
fn t_sql_expression() {
    let patterns = vec![
        ("rand()", "rand()".to_string()),
        ("toDate(requestedAt)", "toDate(requestedAt)".to_string()),
        ("(col1, coln2, rand())", "(col1, coln2, rand())".to_string()),
        ("func(col)", "func(col)".to_string()),
        ("func('col')", "func('col')".to_string()),
        ("func('col','df')", "func('col','df')".to_string()),
        ("cast('val' as Date)", "cast('val' as Date)".to_string()),
        (
            r#"CAST('captcha', 'Enum8(\'captcha\' = 1, \'ban\' = 2)')"#,
            r#"CAST('captcha', 'Enum8(\'captcha\' = 1, \'ban\' = 2)')"#.to_string(),
        ),
        ("z>1", "z>1".to_string()),
        (
            "assumeNotNull(if(1>1, murmurHash3_64(d), rand()))",
            "assumeNotNull(if(1>1, murmurHash3_64(d), rand()))".to_string(),
        ),
        (
            "assumeNotNull(if(length(deviceId) > 1, murmurHash3_64(deviceId), rand()))",
            "assumeNotNull(if(length(deviceId) > 1, murmurHash3_64(deviceId), rand()))"
                .to_string(),
        ),
    ];
    parse_set_for_test(|i| sql_expression(i).map(|(_, o)| text(o)), patterns);
}

#[test]
fn t_ttl_expression() {
    let patterns = vec![
        ("col", "col".to_string()),
        ("col INTERVAL + 1 day", "col INTERVAL + 1 day".to_string()),
        ("col INTERVAL - 15 year", "col INTERVAL - 15 year".to_string()),
    ];
    parse_set_for_test(|i| ttl_expression(i).map(|(_, o)| text(o)), patterns);
}

#[test]
fn t_schema_table_reference() {
    let patterns = vec![
        (
            r#"cluster_shard1.`.inner.api_path_time_view`"#,
            r#"cluster_shard1.`.inner.api_path_time_view`"#.to_string(),
        ),
        (
            r#"cluster_shard1.".inner.api_path_time_view""#,
            r#"cluster_shard1.`.inner.api_path_time_view`"#.to_string(),
        ),
    ];
    parse_set_for_test(|i| schema_table_reference(i).map(|(_, o)| o.to_string()), patterns);
}

#[test]
fn t_sql_identifier() {
    let patterns = vec![
        (r#"`.inner.api_path_time_view`"#, ".inner.api_path_time_view".to_string()),
        (r#"".inner.api_path_time_view""#, ".inner.api_path_time_view".to_string()),
    ];
    parse_set_for_test(|i| sql_identifier(i).map(|(_, o)| text(o)), patterns);
}

#[test]
fn t_sql_identifier_incorrect() {
    match sql_identifier(r#"'.inner.api_path_time_view'"#.as_bytes()) {
        Ok(_) => assert!(false),
        Err(_) => assert!(true),
    }
}
