use clickhouse_sql_parser::{
    Codec, CodecDeltaLevel, CodecList, ColumnSpecification, ColumnTTL, SqlType, TypeSize16,
};

#[test]
fn column_t_column_display() {
    let cs = ColumnSpecification::new("time_local".into(), SqlType::DateTime(None));

    let exp = "`time_local` DateTime";
    assert_eq!(exp, cs.to_string().as_str());
}

#[test]
fn t_column_display_enum() {
    let cs = ColumnSpecification::new(
        "device".into(),
        SqlType::Enum(Some(TypeSize16::B8), vec![("desktop".into(), 1), ("mobile".into(), 2)]),
    );

    let exp = "`device` Enum8('desktop' = 1, 'mobile' = 2)";
    assert_eq!(exp, cs.to_string().as_str());
}

#[test]
fn t_column_display_codec_ttl_nullable() {
    let cs = ColumnSpecification {
        column: "time_local".into(),
        sql_type: SqlType::DateTime(None),
        codec: Some(CodecList(vec![
            Codec::Delta(Some(CodecDeltaLevel::L1)),
            Codec::LZ4,
            Codec::ZSTD(None),
        ])),
        ttl: Some(ColumnTTL::from(("1", "2"))),
        nullable: true,
        option: None,
        comment: None,
        lowcardinality: false,
    };

    let exp = "`time_local` Nullable(DateTime) CODEC(Delta(1), LZ4, ZSTD) TTL 1 + 2";
    assert_eq!(exp, cs.to_string().as_str());
}

#[test]
fn t_column_display_codec_ttl() {
    let cs = ColumnSpecification {
        column: "time_local".into(),
        sql_type: SqlType::DateTime(None),
        codec: Some(CodecList(vec![
            Codec::Delta(Some(CodecDeltaLevel::L1)),
            Codec::LZ4,
            Codec::ZSTD(None),
        ])),
        ttl: Some(ColumnTTL::from(("1", "2"))),
        nullable: false,
        option: None,
        comment: None,
        lowcardinality: false,
    };

    let exp = "`time_local` DateTime CODEC(Delta(1), LZ4, ZSTD) TTL 1 + 2";
    assert_eq!(exp, cs.to_string().as_str());
}
