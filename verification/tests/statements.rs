use clickhouse_sql_parser::{
    parse_query, parse_query_bytes, schema_table_reference, sql_query, type_identifier, Codec,
    CodecList, Column, ColumnOption, ColumnSpecification, CreateTableStatement, Engine,
    EngineDistributed, EngineMergeTree, EngineReplicatedMergeTree, SqlQuery, SqlType,
    SqlTypeOpts, Table, TypeSize, TypeSize16,
};

fn statement(q: SqlQuery) -> CreateTableStatement {
    match q {
        SqlQuery::CreateTable(c) => c,
    }
}

#[test]
fn one_column_in_memory() {
    let c = statement(parse_query("CREATE TABLE a ( i uint8 ) ENGINE=memory").unwrap());
    assert_eq!(c.table, Table { name: "a".into(), alias: None, schema: None });
    assert_eq!(c.fields.len(), 1);
    assert_eq!(
        c.fields[0],
        ColumnSpecification {
            column: Column { name: "i".into(), alias: None, table: Some("a".into()) },
            sql_type: SqlType::UnsignedInt(TypeSize::B8),
            codec: None,
            ttl: None,
            nullable: false,
            option: None,
            comment: None,
            lowcardinality: false,
        }
    );
    assert_eq!(c.engine, Engine::Memory);
}

#[test]
fn distributed_access_table() {
    let sql = r#"
CREATE TABLE `default`.`access` (
    `remote_addr` String CODEC(ZSTD(1)),
    `remote_addr_long` Int32
) ENGINE = Distributed('cluster', '', 'access', rand());
    "#;
    let c = statement(parse_query(sql).unwrap());
    assert_eq!(c.table.schema, Some("default".to_string()));
    assert_eq!(c.table.name, "access");
    assert_eq!(c.fields.len(), 2);
    assert_eq!(c.fields[0].column.name, "remote_addr");
    assert_eq!(c.fields[0].column.table, Some("access".to_string()));
    assert_eq!(c.fields[0].sql_type, SqlType::String);
    assert_eq!(c.fields[0].codec, Some(CodecList(vec![Codec::ZSTD(Some(1))])));
    assert_eq!(c.fields[1].column.name, "remote_addr_long");
    assert_eq!(c.fields[1].sql_type, SqlType::Int(TypeSize::B32));
    assert_eq!(c.fields[1].codec, None);
    assert_eq!(
        c.engine,
        Engine::Distributed(EngineDistributed {
            cluster_name: "'cluster'".into(),
            schema: "''".into(),
            table: "'access'".into(),
            sharding_key: None,
            policy_name: None,
        })
    );
    assert_eq!(
        c.to_string(),
        "CREATE TABLE `default`.access (\n  `remote_addr` String CODEC(ZSTD(1)),\n  `remote_addr_long` Int32\n) ENGINE = DISTRIBUTED( 'cluster', '', 'access');"
    );
}

#[test]
fn nested_arrays() {
    let text = "Array(Array(Array(Int64)))";
    let (rest, t) = type_identifier(text.as_bytes()).unwrap();
    assert!(rest.is_empty());
    let inner = |t: SqlType| {
        SqlType::Array(Box::new(SqlTypeOpts { ftype: t, nullable: false, lowcardinality: false }))
    };
    assert_eq!(t, inner(inner(inner(SqlType::Int(TypeSize::B64)))));
    assert_eq!(t.to_string(), text);
}

#[test]
fn enum_keeps_its_order() {
    let text = "Enum8('a' = 1, 'b' = 2)";
    let (_, t) = type_identifier(text.as_bytes()).unwrap();
    assert_eq!(
        t,
        SqlType::Enum(Some(TypeSize16::B8), vec![("a".to_string(), 1), ("b".to_string(), 2)])
    );
    assert_eq!(t.to_string(), text);
    let (_, t) = type_identifier(b"Enum('b' = 2, 'a' = 1)").unwrap();
    assert_eq!(t, SqlType::Enum(None, vec![("b".to_string(), 2), ("a".to_string(), 1)]));
    assert_eq!(t.to_string(), "Enum('b' = 2, 'a' = 1)");
}

#[test]
fn double_quotes_read_as_backticks() {
    let (_, a) = schema_table_reference(br#"s."x.y""#).unwrap();
    let (_, b) = schema_table_reference(b"s.`x.y`").unwrap();
    assert_eq!(a, b);
    assert_eq!(a, Table { name: "x.y".into(), alias: None, schema: Some("s".into()) });
    assert_eq!(a.to_string(), "s.`x.y`");
}

#[test]
fn query_is_trimmed() {
    let plain = parse_query("CREATE TABLE a ( i uint8 ) ENGINE=memory").unwrap();
    let padded = parse_query(" \n\t CREATE TABLE a ( i uint8 ) ENGINE=memory \u{a0}\n").unwrap();
    assert_eq!(plain, padded);
    assert!(parse_query_bytes(b" CREATE TABLE a ( i uint8 ) ENGINE=memory").is_err());
}

#[test]
fn rest_behind_the_statement_is_left() {
    let (rest, _) = sql_query(b"CREATE TABLE a (i Int8) ENGINE = Memory; \n SELECT 1").unwrap();
    assert_eq!(rest, b"SELECT 1");
    let (rest, _) = sql_query(b"CREATE TABLE a (i Int8) ENGINE = Memory SELECT 1").unwrap();
    assert_eq!(rest, b" SELECT 1");
    assert!(parse_query_bytes(b"CREATE TABLE a (i Int8) ENGINE = Memory;garbage").is_ok());
}

#[test]
fn no_columns() {
    let c = statement(parse_query("create table t () engine = memory").unwrap());
    assert!(c.fields.is_empty());
    assert_eq!(c.to_string(), "CREATE TABLE t (\n  \n) ENGINE = Memory;");
    assert_eq!(statement(parse_query(&c.to_string()).unwrap()), c);
}

#[test]
fn column_clauses_in_order() {
    let sql = "CREATE TABLE t (a.`x` LowCardinality(Nullable(String)) DEFAULT 'v' COMMENT 'c d' CODEC(NONE, Delta, DoubleDelta, Gorilla, T64, LZ4HC(12), ZSTD(22)) TTL d, y Date MATERIALIZED toDate(x)) ENGINE = Memory";
    let c = statement(parse_query(sql).unwrap());
    assert_eq!(
        c.fields[0],
        ColumnSpecification {
            column: Column { name: "x".into(), alias: None, table: Some("t".into()) },
            sql_type: SqlType::String,
            codec: Some(CodecList(vec![
                Codec::Uncompressed,
                Codec::Delta(None),
                Codec::DoubleDelta,
                Codec::Gorilla,
                Codec::T64,
                Codec::LZ4HC(Some(12)),
                Codec::ZSTD(Some(22)),
            ])),
            ttl: Some("d".into()),
            nullable: true,
            option: Some(ColumnOption::DefaultValue("'v'".into())),
            comment: Some("c d".into()),
            lowcardinality: true,
        }
    );
    assert_eq!(c.fields[1].option, Some(ColumnOption::Materialized("toDate(x)".into())));
    assert_eq!(
        c.to_string(),
        "CREATE TABLE t (\n  `x` LowCardinality(Nullable(String)) DEFAULT 'v' COMMENT 'c d' CODEC(NONE, Delta, DoubleDelta, Gorilla, T64, LZ4HC(12), ZSTD(22)) TTL d,\n  `y` Date MATERIALIZED toDate(x)\n) ENGINE = Memory;"
    );
}

#[test]
fn merge_tree_keeps_its_text() {
    let sql = "CREATE TABLE t (d Date, x UInt64) ENGINE = MergeTree PARTITION BY toYYYYMM(d) PRIMARY KEY x ORDER BY (d, x) SAMPLE BY x TTL d INTERVAL + 1 day DELETE, d TO DISK 'cold', d TO VOLUME 'v' SETTINGS index_granularity = 8192, index_granularity_bytes = 10, storage_policy = 'p';";
    let c = statement(parse_query(sql).unwrap());
    let text = "MergeTree PARTITION BY toYYYYMM(d) PRIMARY KEY x ORDER BY (d, x) SAMPLE BY x TTL d INTERVAL + 1 day DELETE, d TO DISK 'cold', d TO VOLUME 'v' SETTINGS index_granularity = 8192, index_granularity_bytes = 10, storage_policy = 'p'";
    assert_eq!(c.engine, Engine::MergeTree(EngineMergeTree(text.into())));
    assert_eq!(c.engine.to_string(), format!("ENGINE = {}", text));
    assert_eq!(statement(parse_query(&c.to_string()).unwrap()), c);
}

#[test]
fn replicated_merge_tree_keeps_its_text() {
    let sql = "CREATE TABLE t (d Date) ENGINE = ReplicatedMergeTree('/clickhouse/tables/{shard}/t', '{replica}', ver) PARTITION BY d ORDER BY d";
    let c = statement(parse_query(sql).unwrap());
    let text = "ReplicatedMergeTree('/clickhouse/tables/{shard}/t', '{replica}', ver) PARTITION BY d ORDER BY d";
    assert_eq!(c.engine, Engine::ReplicatedMergeTree(EngineReplicatedMergeTree(text.into())));
    assert!(parse_query("CREATE TABLE t (d Date) ENGINE = ReplicatedMergeTree('/p')").is_err());
}

#[test]
fn clauses_of_merge_tree_need_their_words() {
    let rest = |sql: &str| String::from_utf8(sql_query(sql.as_bytes()).unwrap().0.to_vec()).unwrap();
    assert_eq!(rest("CREATE TABLE t (d Date) ENGINE = MergeTree PRIMARY BY d;"), " PRIMARY BY d;");
    assert_eq!(rest("CREATE TABLE t (d Date) ENGINE = MergeTree PRIMARY KEY d;"), "");
    assert_eq!(rest("CREATE TABLE t (d Date) ENGINE = MergeTree TTL;"), " TTL;");
    assert_eq!(rest("CREATE TABLE t (d Date) ENGINE = MergeTree TTL d;"), "");
    assert_eq!(rest("CREATE TABLE t (d Date) ENGINE = MergeTree SETTINGS;"), "");
    assert_eq!(
        rest("CREATE TABLE t (d Date) ENGINE = MergeTree SETTINGS unknown = 1;"),
        "unknown = 1;"
    );
    assert_eq!(
        rest("CREATE TABLE t (d Date) ENGINE = MergeTree ORDER BY d ORDER BY d PARTITION BY d"),
        ""
    );
}
