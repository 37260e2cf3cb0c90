//! The bytes of the words of the grammar and of the printers.

use vstd::prelude::*;
use crate::reading::{lemma_lit, lemma_not_word, lemma_tag_bounds, lemma_tag_not_word, lemma_word};
use crate::scan::{has_tag, lit, lower, word_end};

verus! {

/// Where `Array(` stands, the word `array` is read.
pub proof fn lemma_array_open_cased_reads_as_array(s: Seq<u8>, pos: int)
    requires
        has_tag(s, pos, lit("Array(")),
    ensures
        word_end(s, pos, lit("array")) == Some(pos + 5),
        lit("array").len() == 5,
        lit("Array(").len() == 6,
{
    reveal_strlit("Array(");
    lemma_lit("Array(");
    reveal_strlit("array");
    lemma_lit("array");
    lemma_word(s, pos, lit("Array("), lit("array"));
}

/// The bytes of `-`.
pub proof fn lemma_bytes_minus()
    ensures
        lit("-").len() == 1,
        lit("-")[0] == 45,
{
    reveal_strlit("-");
    lemma_lit("-");
}

/// The bytes of `16`.
pub proof fn lemma_bytes_16()
    ensures
        lit("16").len() == 2,
        lit("16")[0] == 49,
        lit("16")[1] == 54,
{
    reveal_strlit("16");
    lemma_lit("16");
}

/// The bytes of `8`.
pub proof fn lemma_bytes_8()
    ensures
        lit("8").len() == 1,
        lit("8")[0] == 56,
{
    reveal_strlit("8");
    lemma_lit("8");
}

/// The bytes of `Array(`.
pub proof fn lemma_bytes_array_open_cased()
    ensures
        lit("Array(").len() == 6,
        lit("Array(")[0] == 65,
        lit("Array(")[1] == 114,
        lit("Array(")[2] == 114,
        lit("Array(")[3] == 97,
        lit("Array(")[4] == 121,
        lit("Array(")[5] == 40,
{
    reveal_strlit("Array(");
    lemma_lit("Array(");
}

/// The bytes of `as`.
pub proof fn lemma_bytes_as()
    ensures
        lit("as").len() == 2,
        lit("as")[0] == 97,
        lit("as")[1] == 115,
{
    reveal_strlit("as");
    lemma_lit("as");
}

/// The bytes of `)`.
pub proof fn lemma_bytes_close()
    ensures
        lit(")").len() == 1,
        lit(")")[0] == 41,
{
    reveal_strlit(")");
    lemma_lit(")");
}

/// The bytes of `))`.
pub proof fn lemma_bytes_close_close()
    ensures
        lit("))").len() == 2,
        lit("))")[0] == 41,
        lit("))")[1] == 41,
{
    reveal_strlit("))");
    lemma_lit("))");
}

/// The bytes of `codec`.
pub proof fn lemma_bytes_codec()
    ensures
        lit("codec").len() == 5,
        lit("codec")[0] == 99,
        lit("codec")[1] == 111,
        lit("codec")[2] == 100,
        lit("codec")[3] == 101,
        lit("codec")[4] == 99,
{
    reveal_strlit("codec");
    lemma_lit("codec");
}

/// The bytes of `,\n  `.
pub proof fn lemma_bytes_comma_nl_space_space()
    ensures
        lit(",\n  ").len() == 4,
        lit(",\n  ")[0] == 44,
        lit(",\n  ")[1] == 10,
        lit(",\n  ")[2] == 32,
        lit(",\n  ")[3] == 32,
{
    reveal_strlit(",\n  ");
    lemma_lit(",\n  ");
}

/// The bytes of `,\n  ``.
pub proof fn lemma_bytes_comma_nl_space_space_tick()
    ensures
        lit(",\n  `").len() == 5,
        lit(",\n  `")[0] == 44,
        lit(",\n  `")[1] == 10,
        lit(",\n  `")[2] == 32,
        lit(",\n  `")[3] == 32,
        lit(",\n  `")[4] == 96,
{
    reveal_strlit(",\n  `");
    lemma_lit(",\n  `");
}

/// The bytes of `, `.
pub proof fn lemma_bytes_comma_space()
    ensures
        lit(", ").len() == 2,
        lit(", ")[0] == 44,
        lit(", ")[1] == 32,
{
    reveal_strlit(", ");
    lemma_lit(", ");
}

/// The bytes of `COMMENT`.
pub proof fn lemma_bytes_comment_cased()
    ensures
        lit("COMMENT").len() == 7,
        lit("COMMENT")[0] == 67,
        lit("COMMENT")[1] == 79,
        lit("COMMENT")[2] == 77,
        lit("COMMENT")[3] == 77,
        lit("COMMENT")[4] == 69,
        lit("COMMENT")[5] == 78,
        lit("COMMENT")[6] == 84,
{
    reveal_strlit("COMMENT");
    lemma_lit("COMMENT");
}

/// The bytes of `CREATE TABLE `.
pub proof fn lemma_bytes_create_space_table_space_cased()
    ensures
        lit("CREATE TABLE ").len() == 13,
        lit("CREATE TABLE ")[0] == 67,
        lit("CREATE TABLE ")[1] == 82,
        lit("CREATE TABLE ")[2] == 69,
        lit("CREATE TABLE ")[3] == 65,
        lit("CREATE TABLE ")[4] == 84,
        lit("CREATE TABLE ")[5] == 69,
        lit("CREATE TABLE ")[6] == 32,
        lit("CREATE TABLE ")[7] == 84,
        lit("CREATE TABLE ")[8] == 65,
        lit("CREATE TABLE ")[9] == 66,
        lit("CREATE TABLE ")[10] == 76,
        lit("CREATE TABLE ")[11] == 69,
        lit("CREATE TABLE ")[12] == 32,
{
    reveal_strlit("CREATE TABLE ");
    lemma_lit("CREATE TABLE ");
}

/// The bytes of `DateTime64(`.
pub proof fn lemma_bytes_datetime64_open_cased()
    ensures
        lit("DateTime64(").len() == 11,
        lit("DateTime64(")[0] == 68,
        lit("DateTime64(")[1] == 97,
        lit("DateTime64(")[2] == 116,
        lit("DateTime64(")[3] == 101,
        lit("DateTime64(")[4] == 84,
        lit("DateTime64(")[5] == 105,
        lit("DateTime64(")[6] == 109,
        lit("DateTime64(")[7] == 101,
        lit("DateTime64(")[8] == 54,
        lit("DateTime64(")[9] == 52,
        lit("DateTime64(")[10] == 40,
{
    reveal_strlit("DateTime64(");
    lemma_lit("DateTime64(");
}

/// The bytes of `DateTime`.
pub proof fn lemma_bytes_datetime_cased()
    ensures
        lit("DateTime").len() == 8,
        lit("DateTime")[0] == 68,
        lit("DateTime")[1] == 97,
        lit("DateTime")[2] == 116,
        lit("DateTime")[3] == 101,
        lit("DateTime")[4] == 84,
        lit("DateTime")[5] == 105,
        lit("DateTime")[6] == 109,
        lit("DateTime")[7] == 101,
{
    reveal_strlit("DateTime");
    lemma_lit("DateTime");
}

/// The bytes of `DateTime('`.
pub proof fn lemma_bytes_datetime_open_quote_cased()
    ensures
        lit("DateTime('").len() == 10,
        lit("DateTime('")[0] == 68,
        lit("DateTime('")[1] == 97,
        lit("DateTime('")[2] == 116,
        lit("DateTime('")[3] == 101,
        lit("DateTime('")[4] == 84,
        lit("DateTime('")[5] == 105,
        lit("DateTime('")[6] == 109,
        lit("DateTime('")[7] == 101,
        lit("DateTime('")[8] == 40,
        lit("DateTime('")[9] == 39,
{
    reveal_strlit("DateTime('");
    lemma_lit("DateTime('");
}

/// The bytes of `default`.
pub proof fn lemma_bytes_default()
    ensures
        lit("default").len() == 7,
        lit("default")[0] == 100,
        lit("default")[1] == 101,
        lit("default")[2] == 102,
        lit("default")[3] == 97,
        lit("default")[4] == 117,
        lit("default")[5] == 108,
        lit("default")[6] == 116,
{
    reveal_strlit("default");
    lemma_lit("default");
}

/// The bytes of `Delta`.
pub proof fn lemma_bytes_delta_cased()
    ensures
        lit("Delta").len() == 5,
        lit("Delta")[0] == 68,
        lit("Delta")[1] == 101,
        lit("Delta")[2] == 108,
        lit("Delta")[3] == 116,
        lit("Delta")[4] == 97,
{
    reveal_strlit("Delta");
    lemma_lit("Delta");
}

/// The bytes of `Distributed`.
pub proof fn lemma_bytes_distributed_cased()
    ensures
        lit("Distributed").len() == 11,
        lit("Distributed")[0] == 68,
        lit("Distributed")[1] == 105,
        lit("Distributed")[2] == 115,
        lit("Distributed")[3] == 116,
        lit("Distributed")[4] == 114,
        lit("Distributed")[5] == 105,
        lit("Distributed")[6] == 98,
        lit("Distributed")[7] == 117,
        lit("Distributed")[8] == 116,
        lit("Distributed")[9] == 101,
        lit("Distributed")[10] == 100,
{
    reveal_strlit("Distributed");
    lemma_lit("Distributed");
}

/// The bytes of `DISTRIBUTED( `.
pub proof fn lemma_bytes_distributed_open_space_cased()
    ensures
        lit("DISTRIBUTED( ").len() == 13,
        lit("DISTRIBUTED( ")[0] == 68,
        lit("DISTRIBUTED( ")[1] == 73,
        lit("DISTRIBUTED( ")[2] == 83,
        lit("DISTRIBUTED( ")[3] == 84,
        lit("DISTRIBUTED( ")[4] == 82,
        lit("DISTRIBUTED( ")[5] == 73,
        lit("DISTRIBUTED( ")[6] == 66,
        lit("DISTRIBUTED( ")[7] == 85,
        lit("DISTRIBUTED( ")[8] == 84,
        lit("DISTRIBUTED( ")[9] == 69,
        lit("DISTRIBUTED( ")[10] == 68,
        lit("DISTRIBUTED( ")[11] == 40,
        lit("DISTRIBUTED( ")[12] == 32,
{
    reveal_strlit("DISTRIBUTED( ");
    lemma_lit("DISTRIBUTED( ");
}

/// The bytes of `.`.
pub proof fn lemma_bytes_dot()
    ensures
        lit(".").len() == 1,
        lit(".")[0] == 46,
{
    reveal_strlit(".");
    lemma_lit(".");
}

/// The bytes of `DoubleDelta`.
pub proof fn lemma_bytes_doubledelta_cased()
    ensures
        lit("DoubleDelta").len() == 11,
        lit("DoubleDelta")[0] == 68,
        lit("DoubleDelta")[1] == 111,
        lit("DoubleDelta")[2] == 117,
        lit("DoubleDelta")[3] == 98,
        lit("DoubleDelta")[4] == 108,
        lit("DoubleDelta")[5] == 101,
        lit("DoubleDelta")[6] == 68,
        lit("DoubleDelta")[7] == 101,
        lit("DoubleDelta")[8] == 108,
        lit("DoubleDelta")[9] == 116,
        lit("DoubleDelta")[10] == 97,
{
    reveal_strlit("DoubleDelta");
    lemma_lit("DoubleDelta");
}

/// The bytes of `ENGINE = `.
pub proof fn lemma_bytes_engine_space_eq_space_cased()
    ensures
        lit("ENGINE = ").len() == 9,
        lit("ENGINE = ")[0] == 69,
        lit("ENGINE = ")[1] == 78,
        lit("ENGINE = ")[2] == 71,
        lit("ENGINE = ")[3] == 73,
        lit("ENGINE = ")[4] == 78,
        lit("ENGINE = ")[5] == 69,
        lit("ENGINE = ")[6] == 32,
        lit("ENGINE = ")[7] == 61,
        lit("ENGINE = ")[8] == 32,
{
    reveal_strlit("ENGINE = ");
    lemma_lit("ENGINE = ");
}

/// The bytes of `ENGINE = Memory`.
pub proof fn lemma_bytes_engine_space_eq_space_memory_cased()
    ensures
        lit("ENGINE = Memory").len() == 15,
        lit("ENGINE = Memory")[0] == 69,
        lit("ENGINE = Memory")[1] == 78,
        lit("ENGINE = Memory")[2] == 71,
        lit("ENGINE = Memory")[3] == 73,
        lit("ENGINE = Memory")[4] == 78,
        lit("ENGINE = Memory")[5] == 69,
        lit("ENGINE = Memory")[6] == 32,
        lit("ENGINE = Memory")[7] == 61,
        lit("ENGINE = Memory")[8] == 32,
        lit("ENGINE = Memory")[9] == 77,
        lit("ENGINE = Memory")[10] == 101,
        lit("ENGINE = Memory")[11] == 109,
        lit("ENGINE = Memory")[12] == 111,
        lit("ENGINE = Memory")[13] == 114,
        lit("ENGINE = Memory")[14] == 121,
{
    reveal_strlit("ENGINE = Memory");
    lemma_lit("ENGINE = Memory");
}

/// The bytes of `Enum`.
pub proof fn lemma_bytes_enum_cased()
    ensures
        lit("Enum").len() == 4,
        lit("Enum")[0] == 69,
        lit("Enum")[1] == 110,
        lit("Enum")[2] == 117,
        lit("Enum")[3] == 109,
{
    reveal_strlit("Enum");
    lemma_lit("Enum");
}

/// The bytes of `FixedString(`.
pub proof fn lemma_bytes_fixedstring_open_cased()
    ensures
        lit("FixedString(").len() == 12,
        lit("FixedString(")[0] == 70,
        lit("FixedString(")[1] == 105,
        lit("FixedString(")[2] == 120,
        lit("FixedString(")[3] == 101,
        lit("FixedString(")[4] == 100,
        lit("FixedString(")[5] == 83,
        lit("FixedString(")[6] == 116,
        lit("FixedString(")[7] == 114,
        lit("FixedString(")[8] == 105,
        lit("FixedString(")[9] == 110,
        lit("FixedString(")[10] == 103,
        lit("FixedString(")[11] == 40,
{
    reveal_strlit("FixedString(");
    lemma_lit("FixedString(");
}

/// The bytes of `Gorilla`.
pub proof fn lemma_bytes_gorilla_cased()
    ensures
        lit("Gorilla").len() == 7,
        lit("Gorilla")[0] == 71,
        lit("Gorilla")[1] == 111,
        lit("Gorilla")[2] == 114,
        lit("Gorilla")[3] == 105,
        lit("Gorilla")[4] == 108,
        lit("Gorilla")[5] == 108,
        lit("Gorilla")[6] == 97,
{
    reveal_strlit("Gorilla");
    lemma_lit("Gorilla");
}

/// The bytes of `LowCardinality(`.
pub proof fn lemma_bytes_lowcardinality_open_cased()
    ensures
        lit("LowCardinality(").len() == 15,
        lit("LowCardinality(")[0] == 76,
        lit("LowCardinality(")[1] == 111,
        lit("LowCardinality(")[2] == 119,
        lit("LowCardinality(")[3] == 67,
        lit("LowCardinality(")[4] == 97,
        lit("LowCardinality(")[5] == 114,
        lit("LowCardinality(")[6] == 100,
        lit("LowCardinality(")[7] == 105,
        lit("LowCardinality(")[8] == 110,
        lit("LowCardinality(")[9] == 97,
        lit("LowCardinality(")[10] == 108,
        lit("LowCardinality(")[11] == 105,
        lit("LowCardinality(")[12] == 116,
        lit("LowCardinality(")[13] == 121,
        lit("LowCardinality(")[14] == 40,
{
    reveal_strlit("LowCardinality(");
    lemma_lit("LowCardinality(");
}

/// The bytes of `LowCardinality(Nullable(`.
pub proof fn lemma_bytes_lowcardinality_open_nullable_open_cased()
    ensures
        lit("LowCardinality(Nullable(").len() == 24,
        lit("LowCardinality(Nullable(")[0] == 76,
        lit("LowCardinality(Nullable(")[1] == 111,
        lit("LowCardinality(Nullable(")[2] == 119,
        lit("LowCardinality(Nullable(")[3] == 67,
        lit("LowCardinality(Nullable(")[4] == 97,
        lit("LowCardinality(Nullable(")[5] == 114,
        lit("LowCardinality(Nullable(")[6] == 100,
        lit("LowCardinality(Nullable(")[7] == 105,
        lit("LowCardinality(Nullable(")[8] == 110,
        lit("LowCardinality(Nullable(")[9] == 97,
        lit("LowCardinality(Nullable(")[10] == 108,
        lit("LowCardinality(Nullable(")[11] == 105,
        lit("LowCardinality(Nullable(")[12] == 116,
        lit("LowCardinality(Nullable(")[13] == 121,
        lit("LowCardinality(Nullable(")[14] == 40,
        lit("LowCardinality(Nullable(")[15] == 78,
        lit("LowCardinality(Nullable(")[16] == 117,
        lit("LowCardinality(Nullable(")[17] == 108,
        lit("LowCardinality(Nullable(")[18] == 108,
        lit("LowCardinality(Nullable(")[19] == 97,
        lit("LowCardinality(Nullable(")[20] == 98,
        lit("LowCardinality(Nullable(")[21] == 108,
        lit("LowCardinality(Nullable(")[22] == 101,
        lit("LowCardinality(Nullable(")[23] == 40,
{
    reveal_strlit("LowCardinality(Nullable(");
    lemma_lit("LowCardinality(Nullable(");
}

/// The bytes of `LZ4`.
pub proof fn lemma_bytes_lz4_cased()
    ensures
        lit("LZ4").len() == 3,
        lit("LZ4")[0] == 76,
        lit("LZ4")[1] == 90,
        lit("LZ4")[2] == 52,
{
    reveal_strlit("LZ4");
    lemma_lit("LZ4");
}

/// The bytes of `LZ4HC`.
pub proof fn lemma_bytes_lz4hc_cased()
    ensures
        lit("LZ4HC").len() == 5,
        lit("LZ4HC")[0] == 76,
        lit("LZ4HC")[1] == 90,
        lit("LZ4HC")[2] == 52,
        lit("LZ4HC")[3] == 72,
        lit("LZ4HC")[4] == 67,
{
    reveal_strlit("LZ4HC");
    lemma_lit("LZ4HC");
}

/// The bytes of `materialized`.
pub proof fn lemma_bytes_materialized()
    ensures
        lit("materialized").len() == 12,
        lit("materialized")[0] == 109,
        lit("materialized")[1] == 97,
        lit("materialized")[2] == 116,
        lit("materialized")[3] == 101,
        lit("materialized")[4] == 114,
        lit("materialized")[5] == 105,
        lit("materialized")[6] == 97,
        lit("materialized")[7] == 108,
        lit("materialized")[8] == 105,
        lit("materialized")[9] == 122,
        lit("materialized")[10] == 101,
        lit("materialized")[11] == 100,
{
    reveal_strlit("materialized");
    lemma_lit("materialized");
}

/// The bytes of `Memory`.
pub proof fn lemma_bytes_memory_cased()
    ensures
        lit("Memory").len() == 6,
        lit("Memory")[0] == 77,
        lit("Memory")[1] == 101,
        lit("Memory")[2] == 109,
        lit("Memory")[3] == 111,
        lit("Memory")[4] == 114,
        lit("Memory")[5] == 121,
{
    reveal_strlit("Memory");
    lemma_lit("Memory");
}

/// The bytes of `\n) `.
pub proof fn lemma_bytes_nl_close_space()
    ensures
        lit("\n) ").len() == 3,
        lit("\n) ")[0] == 10,
        lit("\n) ")[1] == 41,
        lit("\n) ")[2] == 32,
{
    reveal_strlit("\n) ");
    lemma_lit("\n) ");
}

/// The bytes of `\n) ENGINE = `.
pub proof fn lemma_bytes_nl_close_space_engine_space_eq_space_cased()
    ensures
        lit("\n) ENGINE = ").len() == 12,
        lit("\n) ENGINE = ")[0] == 10,
        lit("\n) ENGINE = ")[1] == 41,
        lit("\n) ENGINE = ")[2] == 32,
        lit("\n) ENGINE = ")[3] == 69,
        lit("\n) ENGINE = ")[4] == 78,
        lit("\n) ENGINE = ")[5] == 71,
        lit("\n) ENGINE = ")[6] == 73,
        lit("\n) ENGINE = ")[7] == 78,
        lit("\n) ENGINE = ")[8] == 69,
        lit("\n) ENGINE = ")[9] == 32,
        lit("\n) ENGINE = ")[10] == 61,
        lit("\n) ENGINE = ")[11] == 32,
{
    reveal_strlit("\n) ENGINE = ");
    lemma_lit("\n) ENGINE = ");
}

/// The bytes of `NONE`.
pub proof fn lemma_bytes_none_cased()
    ensures
        lit("NONE").len() == 4,
        lit("NONE")[0] == 78,
        lit("NONE")[1] == 79,
        lit("NONE")[2] == 78,
        lit("NONE")[3] == 69,
{
    reveal_strlit("NONE");
    lemma_lit("NONE");
}

/// The bytes of `Nullable(`.
pub proof fn lemma_bytes_nullable_open_cased()
    ensures
        lit("Nullable(").len() == 9,
        lit("Nullable(")[0] == 78,
        lit("Nullable(")[1] == 117,
        lit("Nullable(")[2] == 108,
        lit("Nullable(")[3] == 108,
        lit("Nullable(")[4] == 97,
        lit("Nullable(")[5] == 98,
        lit("Nullable(")[6] == 108,
        lit("Nullable(")[7] == 101,
        lit("Nullable(")[8] == 40,
{
    reveal_strlit("Nullable(");
    lemma_lit("Nullable(");
}

/// The bytes of `(`.
pub proof fn lemma_bytes_open()
    ensures
        lit("(").len() == 1,
        lit("(")[0] == 40,
{
    reveal_strlit("(");
    lemma_lit("(");
}

/// The bytes of `'`.
pub proof fn lemma_bytes_quote()
    ensures
        lit("'").len() == 1,
        lit("'")[0] == 39,
{
    reveal_strlit("'");
    lemma_lit("'");
}

/// The bytes of `;`.
pub proof fn lemma_bytes_semi()
    ensures
        lit(";").len() == 1,
        lit(";")[0] == 59,
{
    reveal_strlit(";");
    lemma_lit(";");
}

/// The bytes of ` `.
pub proof fn lemma_bytes_space()
    ensures
        lit(" ").len() == 1,
        lit(" ")[0] == 32,
{
    reveal_strlit(" ");
    lemma_lit(" ");
}

/// The bytes of ` CODEC(`.
pub proof fn lemma_bytes_space_codec_open_cased()
    ensures
        lit(" CODEC(").len() == 7,
        lit(" CODEC(")[0] == 32,
        lit(" CODEC(")[1] == 67,
        lit(" CODEC(")[2] == 79,
        lit(" CODEC(")[3] == 68,
        lit(" CODEC(")[4] == 69,
        lit(" CODEC(")[5] == 67,
        lit(" CODEC(")[6] == 40,
{
    reveal_strlit(" CODEC(");
    lemma_lit(" CODEC(");
}

/// The bytes of ` COMMENT '`.
pub proof fn lemma_bytes_space_comment_space_quote_cased()
    ensures
        lit(" COMMENT '").len() == 10,
        lit(" COMMENT '")[0] == 32,
        lit(" COMMENT '")[1] == 67,
        lit(" COMMENT '")[2] == 79,
        lit(" COMMENT '")[3] == 77,
        lit(" COMMENT '")[4] == 77,
        lit(" COMMENT '")[5] == 69,
        lit(" COMMENT '")[6] == 78,
        lit(" COMMENT '")[7] == 84,
        lit(" COMMENT '")[8] == 32,
        lit(" COMMENT '")[9] == 39,
{
    reveal_strlit(" COMMENT '");
    lemma_lit(" COMMENT '");
}

/// The bytes of ` DEFAULT `.
pub proof fn lemma_bytes_space_default_space_cased()
    ensures
        lit(" DEFAULT ").len() == 9,
        lit(" DEFAULT ")[0] == 32,
        lit(" DEFAULT ")[1] == 68,
        lit(" DEFAULT ")[2] == 69,
        lit(" DEFAULT ")[3] == 70,
        lit(" DEFAULT ")[4] == 65,
        lit(" DEFAULT ")[5] == 85,
        lit(" DEFAULT ")[6] == 76,
        lit(" DEFAULT ")[7] == 84,
        lit(" DEFAULT ")[8] == 32,
{
    reveal_strlit(" DEFAULT ");
    lemma_lit(" DEFAULT ");
}

/// The bytes of ` MATERIALIZED `.
pub proof fn lemma_bytes_space_materialized_space_cased()
    ensures
        lit(" MATERIALIZED ").len() == 14,
        lit(" MATERIALIZED ")[0] == 32,
        lit(" MATERIALIZED ")[1] == 77,
        lit(" MATERIALIZED ")[2] == 65,
        lit(" MATERIALIZED ")[3] == 84,
        lit(" MATERIALIZED ")[4] == 69,
        lit(" MATERIALIZED ")[5] == 82,
        lit(" MATERIALIZED ")[6] == 73,
        lit(" MATERIALIZED ")[7] == 65,
        lit(" MATERIALIZED ")[8] == 76,
        lit(" MATERIALIZED ")[9] == 73,
        lit(" MATERIALIZED ")[10] == 90,
        lit(" MATERIALIZED ")[11] == 69,
        lit(" MATERIALIZED ")[12] == 68,
        lit(" MATERIALIZED ")[13] == 32,
{
    reveal_strlit(" MATERIALIZED ");
    lemma_lit(" MATERIALIZED ");
}

/// The bytes of ` (\n`.
pub proof fn lemma_bytes_space_open_nl()
    ensures
        lit(" (\n").len() == 3,
        lit(" (\n")[0] == 32,
        lit(" (\n")[1] == 40,
        lit(" (\n")[2] == 10,
{
    reveal_strlit(" (\n");
    lemma_lit(" (\n");
}

/// The bytes of `  `.
pub proof fn lemma_bytes_space_space()
    ensures
        lit("  ").len() == 2,
        lit("  ")[0] == 32,
        lit("  ")[1] == 32,
{
    reveal_strlit("  ");
    lemma_lit("  ");
}

/// The bytes of ` TTL `.
pub proof fn lemma_bytes_space_ttl_space_cased()
    ensures
        lit(" TTL ").len() == 5,
        lit(" TTL ")[0] == 32,
        lit(" TTL ")[1] == 84,
        lit(" TTL ")[2] == 84,
        lit(" TTL ")[3] == 76,
        lit(" TTL ")[4] == 32,
{
    reveal_strlit(" TTL ");
    lemma_lit(" TTL ");
}

/// The bytes of `T64`.
pub proof fn lemma_bytes_t64_cased()
    ensures
        lit("T64").len() == 3,
        lit("T64")[0] == 84,
        lit("T64")[1] == 54,
        lit("T64")[2] == 52,
{
    reveal_strlit("T64");
    lemma_lit("T64");
}

/// The bytes of `table`.
pub proof fn lemma_bytes_table()
    ensures
        lit("table").len() == 5,
        lit("table")[0] == 116,
        lit("table")[1] == 97,
        lit("table")[2] == 98,
        lit("table")[3] == 108,
        lit("table")[4] == 101,
{
    reveal_strlit("table");
    lemma_lit("table");
}

/// The bytes of ```.
pub proof fn lemma_bytes_tick()
    ensures
        lit("`").len() == 1,
        lit("`")[0] == 96,
{
    reveal_strlit("`");
    lemma_lit("`");
}

/// The bytes of `` `.
pub proof fn lemma_bytes_tick_space()
    ensures
        lit("` ").len() == 2,
        lit("` ")[0] == 96,
        lit("` ")[1] == 32,
{
    reveal_strlit("` ");
    lemma_lit("` ");
}

/// The bytes of `TTL`.
pub proof fn lemma_bytes_ttl_cased()
    ensures
        lit("TTL").len() == 3,
        lit("TTL")[0] == 84,
        lit("TTL")[1] == 84,
        lit("TTL")[2] == 76,
{
    reveal_strlit("TTL");
    lemma_lit("TTL");
}

/// The bytes of `ZSTD`.
pub proof fn lemma_bytes_zstd_cased()
    ensures
        lit("ZSTD").len() == 4,
        lit("ZSTD")[0] == 90,
        lit("ZSTD")[1] == 83,
        lit("ZSTD")[2] == 84,
        lit("ZSTD")[3] == 68,
{
    reveal_strlit("ZSTD");
    lemma_lit("ZSTD");
}

/// Where `CREATE TABLE ` stands, the word `create` is read.
pub proof fn lemma_create_space_table_space_cased_reads_as_create(s: Seq<u8>, pos: int)
    requires
        has_tag(s, pos, lit("CREATE TABLE ")),
    ensures
        word_end(s, pos, lit("create")) == Some(pos + 6),
        lit("create").len() == 6,
        lit("CREATE TABLE ").len() == 13,
{
    reveal_strlit("CREATE TABLE ");
    lemma_lit("CREATE TABLE ");
    reveal_strlit("create");
    lemma_lit("create");
    lemma_word(s, pos, lit("CREATE TABLE "), lit("create"));
}

/// Where `DateTime64(` stands, the word `datetime64` is read.
pub proof fn lemma_datetime64_open_cased_reads_as_datetime64(s: Seq<u8>, pos: int)
    requires
        has_tag(s, pos, lit("DateTime64(")),
    ensures
        word_end(s, pos, lit("datetime64")) == Some(pos + 10),
        lit("datetime64").len() == 10,
        lit("DateTime64(").len() == 11,
{
    reveal_strlit("DateTime64(");
    lemma_lit("DateTime64(");
    reveal_strlit("datetime64");
    lemma_lit("datetime64");
    lemma_word(s, pos, lit("DateTime64("), lit("datetime64"));
}

/// Where `DateTime` stands, the word `datetime` is read.
pub proof fn lemma_datetime_cased_reads_as_datetime(s: Seq<u8>, pos: int)
    requires
        has_tag(s, pos, lit("DateTime")),
    ensures
        word_end(s, pos, lit("datetime")) == Some(pos + 8),
        lit("datetime").len() == 8,
        lit("DateTime").len() == 8,
{
    reveal_strlit("DateTime");
    lemma_lit("DateTime");
    reveal_strlit("datetime");
    lemma_lit("datetime");
    lemma_word(s, pos, lit("DateTime"), lit("datetime"));
}

/// Where `DateTime('` stands, the word `datetime` is read.
pub proof fn lemma_datetime_open_quote_cased_reads_as_datetime(s: Seq<u8>, pos: int)
    requires
        has_tag(s, pos, lit("DateTime('")),
    ensures
        word_end(s, pos, lit("datetime")) == Some(pos + 8),
        lit("datetime").len() == 8,
        lit("DateTime('").len() == 10,
{
    reveal_strlit("DateTime('");
    lemma_lit("DateTime('");
    reveal_strlit("datetime");
    lemma_lit("datetime");
    lemma_word(s, pos, lit("DateTime('"), lit("datetime"));
}

/// Where `Delta` stands, the word `delta` is read.
pub proof fn lemma_delta_cased_reads_as_delta(s: Seq<u8>, pos: int)
    requires
        has_tag(s, pos, lit("Delta")),
    ensures
        word_end(s, pos, lit("delta")) == Some(pos + 5),
        lit("delta").len() == 5,
        lit("Delta").len() == 5,
{
    reveal_strlit("Delta");
    lemma_lit("Delta");
    reveal_strlit("delta");
    lemma_lit("delta");
    lemma_word(s, pos, lit("Delta"), lit("delta"));
}

/// Where `DISTRIBUTED( ` stands, the word `Distributed` is read.
pub proof fn lemma_distributed_open_space_cased_reads_as_distributed_cased(s: Seq<u8>, pos: int)
    requires
        has_tag(s, pos, lit("DISTRIBUTED( ")),
    ensures
        word_end(s, pos, lit("Distributed")) == Some(pos + 11),
        lit("Distributed").len() == 11,
        lit("DISTRIBUTED( ").len() == 13,
{
    reveal_strlit("DISTRIBUTED( ");
    lemma_lit("DISTRIBUTED( ");
    reveal_strlit("Distributed");
    lemma_lit("Distributed");
    lemma_word(s, pos, lit("DISTRIBUTED( "), lit("Distributed"));
}

/// Where `DoubleDelta` stands, the word `DoubleDelta` is read.
pub proof fn lemma_doubledelta_cased_is_read(s: Seq<u8>, pos: int)
    requires
        has_tag(s, pos, lit("DoubleDelta")),
    ensures
        word_end(s, pos, lit("DoubleDelta")) == Some(pos + 11),
        lit("DoubleDelta").len() == 11,
        lit("DoubleDelta").len() == 11,
{
    reveal_strlit("DoubleDelta");
    lemma_lit("DoubleDelta");
    reveal_strlit("DoubleDelta");
    lemma_lit("DoubleDelta");
    lemma_word(s, pos, lit("DoubleDelta"), lit("DoubleDelta"));
}

/// Where `ENGINE = ` stands, the word `engine` is read.
pub proof fn lemma_engine_space_eq_space_cased_reads_as_engine(s: Seq<u8>, pos: int)
    requires
        has_tag(s, pos, lit("ENGINE = ")),
    ensures
        word_end(s, pos, lit("engine")) == Some(pos + 6),
        lit("engine").len() == 6,
        lit("ENGINE = ").len() == 9,
{
    reveal_strlit("ENGINE = ");
    lemma_lit("ENGINE = ");
    reveal_strlit("engine");
    lemma_lit("engine");
    lemma_word(s, pos, lit("ENGINE = "), lit("engine"));
}

/// Where `Enum` stands, the word `enum` is read.
pub proof fn lemma_enum_cased_reads_as_enum(s: Seq<u8>, pos: int)
    requires
        has_tag(s, pos, lit("Enum")),
    ensures
        word_end(s, pos, lit("enum")) == Some(pos + 4),
        lit("enum").len() == 4,
        lit("Enum").len() == 4,
{
    reveal_strlit("Enum");
    lemma_lit("Enum");
    reveal_strlit("enum");
    lemma_lit("enum");
    lemma_word(s, pos, lit("Enum"), lit("enum"));
}

/// Where `FixedString(` stands, the word `FixedString` is read.
pub proof fn lemma_fixedstring_open_cased_reads_as_fixedstring_cased(s: Seq<u8>, pos: int)
    requires
        has_tag(s, pos, lit("FixedString(")),
    ensures
        word_end(s, pos, lit("FixedString")) == Some(pos + 11),
        lit("FixedString").len() == 11,
        lit("FixedString(").len() == 12,
{
    reveal_strlit("FixedString(");
    lemma_lit("FixedString(");
    reveal_strlit("FixedString");
    lemma_lit("FixedString");
    lemma_word(s, pos, lit("FixedString("), lit("FixedString"));
}

/// Where `Gorilla` stands, the word `gorilla` is read.
pub proof fn lemma_gorilla_cased_reads_as_gorilla(s: Seq<u8>, pos: int)
    requires
        has_tag(s, pos, lit("Gorilla")),
    ensures
        word_end(s, pos, lit("gorilla")) == Some(pos + 7),
        lit("gorilla").len() == 7,
        lit("Gorilla").len() == 7,
{
    reveal_strlit("Gorilla");
    lemma_lit("Gorilla");
    reveal_strlit("gorilla");
    lemma_lit("gorilla");
    lemma_word(s, pos, lit("Gorilla"), lit("gorilla"));
}

/// Where `LowCardinality(` stands, the word `LowCardinality(` is read.
pub proof fn lemma_lowcardinality_open_cased_is_read(s: Seq<u8>, pos: int)
    requires
        has_tag(s, pos, lit("LowCardinality(")),
    ensures
        word_end(s, pos, lit("LowCardinality(")) == Some(pos + 15),
        lit("LowCardinality(").len() == 15,
        lit("LowCardinality(").len() == 15,
{
    reveal_strlit("LowCardinality(");
    lemma_lit("LowCardinality(");
    reveal_strlit("LowCardinality(");
    lemma_lit("LowCardinality(");
    lemma_word(s, pos, lit("LowCardinality("), lit("LowCardinality("));
}

/// Where `LowCardinality(Nullable(` stands, the word `LowCardinality(Nullable(` is read.
pub proof fn lemma_lowcardinality_open_nullable_open_cased_is_read(s: Seq<u8>, pos: int)
    requires
        has_tag(s, pos, lit("LowCardinality(Nullable(")),
    ensures
        word_end(s, pos, lit("LowCardinality(Nullable(")) == Some(pos + 24),
        lit("LowCardinality(Nullable(").len() == 24,
        lit("LowCardinality(Nullable(").len() == 24,
{
    reveal_strlit("LowCardinality(Nullable(");
    lemma_lit("LowCardinality(Nullable(");
    reveal_strlit("LowCardinality(Nullable(");
    lemma_lit("LowCardinality(Nullable(");
    lemma_word(s, pos, lit("LowCardinality(Nullable("), lit("LowCardinality(Nullable("));
}

/// Where `LZ4` stands, the word `lz4` is read.
pub proof fn lemma_lz4_cased_reads_as_lz4(s: Seq<u8>, pos: int)
    requires
        has_tag(s, pos, lit("LZ4")),
    ensures
        word_end(s, pos, lit("lz4")) == Some(pos + 3),
        lit("lz4").len() == 3,
        lit("LZ4").len() == 3,
{
    reveal_strlit("LZ4");
    lemma_lit("LZ4");
    reveal_strlit("lz4");
    lemma_lit("lz4");
    lemma_word(s, pos, lit("LZ4"), lit("lz4"));
}

/// Where `LZ4HC` stands, the word `LZ4HC` is read.
pub proof fn lemma_lz4hc_cased_is_read(s: Seq<u8>, pos: int)
    requires
        has_tag(s, pos, lit("LZ4HC")),
    ensures
        word_end(s, pos, lit("LZ4HC")) == Some(pos + 5),
        lit("LZ4HC").len() == 5,
        lit("LZ4HC").len() == 5,
{
    reveal_strlit("LZ4HC");
    lemma_lit("LZ4HC");
    reveal_strlit("LZ4HC");
    lemma_lit("LZ4HC");
    lemma_word(s, pos, lit("LZ4HC"), lit("LZ4HC"));
}

/// Where `Memory` stands, the word `memory` is read.
pub proof fn lemma_memory_cased_reads_as_memory(s: Seq<u8>, pos: int)
    requires
        has_tag(s, pos, lit("Memory")),
    ensures
        word_end(s, pos, lit("memory")) == Some(pos + 6),
        lit("memory").len() == 6,
        lit("Memory").len() == 6,
{
    reveal_strlit("Memory");
    lemma_lit("Memory");
    reveal_strlit("memory");
    lemma_lit("memory");
    lemma_word(s, pos, lit("Memory"), lit("memory"));
}

/// Where `NONE` stands, the word `none` is read.
pub proof fn lemma_none_cased_reads_as_none(s: Seq<u8>, pos: int)
    requires
        has_tag(s, pos, lit("NONE")),
    ensures
        word_end(s, pos, lit("none")) == Some(pos + 4),
        lit("none").len() == 4,
        lit("NONE").len() == 4,
{
    reveal_strlit("NONE");
    lemma_lit("NONE");
    reveal_strlit("none");
    lemma_lit("none");
    lemma_word(s, pos, lit("NONE"), lit("none"));
}

/// Where `Nullable(` stands, the word `Nullable(` is read.
pub proof fn lemma_nullable_open_cased_is_read(s: Seq<u8>, pos: int)
    requires
        has_tag(s, pos, lit("Nullable(")),
    ensures
        word_end(s, pos, lit("Nullable(")) == Some(pos + 9),
        lit("Nullable(").len() == 9,
        lit("Nullable(").len() == 9,
{
    reveal_strlit("Nullable(");
    lemma_lit("Nullable(");
    reveal_strlit("Nullable(");
    lemma_lit("Nullable(");
    lemma_word(s, pos, lit("Nullable("), lit("Nullable("));
}

/// Where `T64` stands, the word `t64` is read.
pub proof fn lemma_t64_cased_reads_as_t64(s: Seq<u8>, pos: int)
    requires
        has_tag(s, pos, lit("T64")),
    ensures
        word_end(s, pos, lit("t64")) == Some(pos + 3),
        lit("t64").len() == 3,
        lit("T64").len() == 3,
{
    reveal_strlit("T64");
    lemma_lit("T64");
    reveal_strlit("t64");
    lemma_lit("t64");
    lemma_word(s, pos, lit("T64"), lit("t64"));
}

/// Where `ZSTD` stands, the word `zstd` is read.
pub proof fn lemma_zstd_cased_reads_as_zstd(s: Seq<u8>, pos: int)
    requires
        has_tag(s, pos, lit("ZSTD")),
    ensures
        word_end(s, pos, lit("zstd")) == Some(pos + 4),
        lit("zstd").len() == 4,
        lit("ZSTD").len() == 4,
{
    reveal_strlit("ZSTD");
    lemma_lit("ZSTD");
    reveal_strlit("zstd");
    lemma_lit("zstd");
    lemma_word(s, pos, lit("ZSTD"), lit("zstd"));
}

/// The bytes of `32`.
pub proof fn lemma_bytes_32()
    ensures
        lit("32").len() == 2,
        lit("32")[0] == 51,
        lit("32")[1] == 50,
{
    reveal_strlit("32");
    lemma_lit("32");
}

/// The bytes of `64`.
pub proof fn lemma_bytes_64()
    ensures
        lit("64").len() == 2,
        lit("64")[0] == 54,
        lit("64")[1] == 52,
{
    reveal_strlit("64");
    lemma_lit("64");
}

/// The bytes of `, '`.
pub proof fn lemma_bytes_comma_space_quote()
    ensures
        lit(", '").len() == 3,
        lit(", '")[0] == 44,
        lit(", '")[1] == 32,
        lit(", '")[2] == 39,
{
    reveal_strlit(", '");
    lemma_lit(", '");
}

/// The bytes of `Date`.
pub proof fn lemma_bytes_date_cased()
    ensures
        lit("Date").len() == 4,
        lit("Date")[0] == 68,
        lit("Date")[1] == 97,
        lit("Date")[2] == 116,
        lit("Date")[3] == 101,
{
    reveal_strlit("Date");
    lemma_lit("Date");
}

/// The bytes of `Float32`.
pub proof fn lemma_bytes_float32_cased()
    ensures
        lit("Float32").len() == 7,
        lit("Float32")[0] == 70,
        lit("Float32")[1] == 108,
        lit("Float32")[2] == 111,
        lit("Float32")[3] == 97,
        lit("Float32")[4] == 116,
        lit("Float32")[5] == 51,
        lit("Float32")[6] == 50,
{
    reveal_strlit("Float32");
    lemma_lit("Float32");
}

/// The bytes of `Float64`.
pub proof fn lemma_bytes_float64_cased()
    ensures
        lit("Float64").len() == 7,
        lit("Float64")[0] == 70,
        lit("Float64")[1] == 108,
        lit("Float64")[2] == 111,
        lit("Float64")[3] == 97,
        lit("Float64")[4] == 116,
        lit("Float64")[5] == 54,
        lit("Float64")[6] == 52,
{
    reveal_strlit("Float64");
    lemma_lit("Float64");
}

/// The bytes of `Int`.
pub proof fn lemma_bytes_int_cased()
    ensures
        lit("Int").len() == 3,
        lit("Int")[0] == 73,
        lit("Int")[1] == 110,
        lit("Int")[2] == 116,
{
    reveal_strlit("Int");
    lemma_lit("Int");
}

/// The bytes of `IPv4`.
pub proof fn lemma_bytes_ipv4_cased()
    ensures
        lit("IPv4").len() == 4,
        lit("IPv4")[0] == 73,
        lit("IPv4")[1] == 80,
        lit("IPv4")[2] == 118,
        lit("IPv4")[3] == 52,
{
    reveal_strlit("IPv4");
    lemma_lit("IPv4");
}

/// The bytes of `IPv6`.
pub proof fn lemma_bytes_ipv6_cased()
    ensures
        lit("IPv6").len() == 4,
        lit("IPv6")[0] == 73,
        lit("IPv6")[1] == 80,
        lit("IPv6")[2] == 118,
        lit("IPv6")[3] == 54,
{
    reveal_strlit("IPv6");
    lemma_lit("IPv6");
}

/// The bytes of `')`.
pub proof fn lemma_bytes_quote_close()
    ensures
        lit("')").len() == 2,
        lit("')")[0] == 39,
        lit("')")[1] == 41,
{
    reveal_strlit("')");
    lemma_lit("')");
}

/// The bytes of `' = `.
pub proof fn lemma_bytes_quote_space_eq_space()
    ensures
        lit("' = ").len() == 4,
        lit("' = ")[0] == 39,
        lit("' = ")[1] == 32,
        lit("' = ")[2] == 61,
        lit("' = ")[3] == 32,
{
    reveal_strlit("' = ");
    lemma_lit("' = ");
}

/// The bytes of `String`.
pub proof fn lemma_bytes_string_cased()
    ensures
        lit("String").len() == 6,
        lit("String")[0] == 83,
        lit("String")[1] == 116,
        lit("String")[2] == 114,
        lit("String")[3] == 105,
        lit("String")[4] == 110,
        lit("String")[5] == 103,
{
    reveal_strlit("String");
    lemma_lit("String");
}

/// The bytes of `UInt`.
pub proof fn lemma_bytes_uint_cased()
    ensures
        lit("UInt").len() == 4,
        lit("UInt")[0] == 85,
        lit("UInt")[1] == 73,
        lit("UInt")[2] == 110,
        lit("UInt")[3] == 116,
{
    reveal_strlit("UInt");
    lemma_lit("UInt");
}

/// The bytes of `UUID`.
pub proof fn lemma_bytes_uuid_cased()
    ensures
        lit("UUID").len() == 4,
        lit("UUID")[0] == 85,
        lit("UUID")[1] == 85,
        lit("UUID")[2] == 73,
        lit("UUID")[3] == 68,
{
    reveal_strlit("UUID");
    lemma_lit("UUID");
}

/// The word `datetime` is not read where `Date` stands before another
/// byte than `t`.
pub proof fn lemma_date_cased_is_not_datetime(s: Seq<u8>, pos: int)
    requires
        has_tag(s, pos, lit("Date")),
        pos + 4 >= s.len() || lower(s[pos + 4]) != 't' as u8,
    ensures
        word_end(s, pos, lit("datetime")) is None,
{
    reveal_strlit("datetime");
    lemma_lit("datetime");
    lemma_tag_bounds(s, pos, lit("Date"));
    lemma_not_word(s, pos, lit("datetime"), 4);
}

/// The word `datetime64` is not read where `Date` stands before another
/// byte than `t`.
pub proof fn lemma_date_cased_is_not_datetime64(s: Seq<u8>, pos: int)
    requires
        has_tag(s, pos, lit("Date")),
        pos + 4 >= s.len() || lower(s[pos + 4]) != 't' as u8,
    ensures
        word_end(s, pos, lit("datetime64")) is None,
{
    reveal_strlit("datetime64");
    lemma_lit("datetime64");
    lemma_tag_bounds(s, pos, lit("Date"));
    lemma_not_word(s, pos, lit("datetime64"), 4);
}

/// Where `Date` stands, the word `date` is read.
pub proof fn lemma_date_cased_reads_as_date(s: Seq<u8>, pos: int)
    requires
        has_tag(s, pos, lit("Date")),
    ensures
        word_end(s, pos, lit("date")) == Some(pos + 4),
        lit("date").len() == 4,
        lit("Date").len() == 4,
{
    reveal_strlit("Date");
    lemma_lit("Date");
    reveal_strlit("date");
    lemma_lit("date");
    lemma_word(s, pos, lit("Date"), lit("date"));
}

/// The word `datetime64` is not read where `DateTime` stands before another
/// byte than `6`.
pub proof fn lemma_datetime_cased_is_not_datetime64(s: Seq<u8>, pos: int)
    requires
        has_tag(s, pos, lit("DateTime")),
        pos + 8 >= s.len() || lower(s[pos + 8]) != '6' as u8,
    ensures
        word_end(s, pos, lit("datetime64")) is None,
{
    reveal_strlit("datetime64");
    lemma_lit("datetime64");
    lemma_tag_bounds(s, pos, lit("DateTime"));
    lemma_not_word(s, pos, lit("datetime64"), 8);
}

/// The word `datetime64` is not read where `DateTime('` stands.
pub proof fn lemma_datetime_open_quote_cased_is_not_datetime64(s: Seq<u8>, pos: int)
    requires
        has_tag(s, pos, lit("DateTime('")),
    ensures
        word_end(s, pos, lit("datetime64")) is None,
{
    reveal_strlit("DateTime('");
    lemma_lit("DateTime('");
    reveal_strlit("datetime64");
    lemma_lit("datetime64");
    lemma_tag_not_word(s, pos, lit("DateTime('"), lit("datetime64"), 8);
}

/// The word `delta` is not read where `DoubleDelta` stands.
pub proof fn lemma_doubledelta_cased_is_not_delta(s: Seq<u8>, pos: int)
    requires
        has_tag(s, pos, lit("DoubleDelta")),
    ensures
        word_end(s, pos, lit("delta")) is None,
{
    reveal_strlit("DoubleDelta");
    lemma_lit("DoubleDelta");
    reveal_strlit("delta");
    lemma_lit("delta");
    lemma_tag_not_word(s, pos, lit("DoubleDelta"), lit("delta"), 1);
}

/// The word `float32` is not read where `FixedString(` stands.
pub proof fn lemma_fixedstring_open_cased_is_not_float32(s: Seq<u8>, pos: int)
    requires
        has_tag(s, pos, lit("FixedString(")),
    ensures
        word_end(s, pos, lit("float32")) is None,
{
    reveal_strlit("FixedString(");
    lemma_lit("FixedString(");
    reveal_strlit("float32");
    lemma_lit("float32");
    lemma_tag_not_word(s, pos, lit("FixedString("), lit("float32"), 1);
}

/// The word `float64` is not read where `FixedString(` stands.
pub proof fn lemma_fixedstring_open_cased_is_not_float64(s: Seq<u8>, pos: int)
    requires
        has_tag(s, pos, lit("FixedString(")),
    ensures
        word_end(s, pos, lit("float64")) is None,
{
    reveal_strlit("FixedString(");
    lemma_lit("FixedString(");
    reveal_strlit("float64");
    lemma_lit("float64");
    lemma_tag_not_word(s, pos, lit("FixedString("), lit("float64"), 1);
}

/// Where `Float32` stands, the word `float32` is read.
pub proof fn lemma_float32_cased_reads_as_float32(s: Seq<u8>, pos: int)
    requires
        has_tag(s, pos, lit("Float32")),
    ensures
        word_end(s, pos, lit("float32")) == Some(pos + 7),
        lit("float32").len() == 7,
        lit("Float32").len() == 7,
{
    reveal_strlit("Float32");
    lemma_lit("Float32");
    reveal_strlit("float32");
    lemma_lit("float32");
    lemma_word(s, pos, lit("Float32"), lit("float32"));
}

/// The word `float32` is not read where `Float64` stands.
pub proof fn lemma_float64_cased_is_not_float32(s: Seq<u8>, pos: int)
    requires
        has_tag(s, pos, lit("Float64")),
    ensures
        word_end(s, pos, lit("float32")) is None,
{
    reveal_strlit("Float64");
    lemma_lit("Float64");
    reveal_strlit("float32");
    lemma_lit("float32");
    lemma_tag_not_word(s, pos, lit("Float64"), lit("float32"), 5);
}

/// Where `Float64` stands, the word `float64` is read.
pub proof fn lemma_float64_cased_reads_as_float64(s: Seq<u8>, pos: int)
    requires
        has_tag(s, pos, lit("Float64")),
    ensures
        word_end(s, pos, lit("float64")) == Some(pos + 7),
        lit("float64").len() == 7,
        lit("Float64").len() == 7,
{
    reveal_strlit("Float64");
    lemma_lit("Float64");
    reveal_strlit("float64");
    lemma_lit("float64");
    lemma_word(s, pos, lit("Float64"), lit("float64"));
}

/// Where `Int` stands, the word `int` is read.
pub proof fn lemma_int_cased_reads_as_int(s: Seq<u8>, pos: int)
    requires
        has_tag(s, pos, lit("Int")),
    ensures
        word_end(s, pos, lit("int")) == Some(pos + 3),
        lit("int").len() == 3,
        lit("Int").len() == 3,
{
    reveal_strlit("Int");
    lemma_lit("Int");
    reveal_strlit("int");
    lemma_lit("int");
    lemma_word(s, pos, lit("Int"), lit("int"));
}

/// The word `int` is not read where `IPv4` stands.
pub proof fn lemma_ipv4_cased_is_not_int(s: Seq<u8>, pos: int)
    requires
        has_tag(s, pos, lit("IPv4")),
    ensures
        word_end(s, pos, lit("int")) is None,
{
    reveal_strlit("IPv4");
    lemma_lit("IPv4");
    reveal_strlit("int");
    lemma_lit("int");
    lemma_tag_not_word(s, pos, lit("IPv4"), lit("int"), 1);
}

/// Where `IPv4` stands, the word `ipv4` is read.
pub proof fn lemma_ipv4_cased_reads_as_ipv4(s: Seq<u8>, pos: int)
    requires
        has_tag(s, pos, lit("IPv4")),
    ensures
        word_end(s, pos, lit("ipv4")) == Some(pos + 4),
        lit("ipv4").len() == 4,
        lit("IPv4").len() == 4,
{
    reveal_strlit("IPv4");
    lemma_lit("IPv4");
    reveal_strlit("ipv4");
    lemma_lit("ipv4");
    lemma_word(s, pos, lit("IPv4"), lit("ipv4"));
}

/// The word `int` is not read where `IPv6` stands.
pub proof fn lemma_ipv6_cased_is_not_int(s: Seq<u8>, pos: int)
    requires
        has_tag(s, pos, lit("IPv6")),
    ensures
        word_end(s, pos, lit("int")) is None,
{
    reveal_strlit("IPv6");
    lemma_lit("IPv6");
    reveal_strlit("int");
    lemma_lit("int");
    lemma_tag_not_word(s, pos, lit("IPv6"), lit("int"), 1);
}

/// The word `ipv4` is not read where `IPv6` stands.
pub proof fn lemma_ipv6_cased_is_not_ipv4(s: Seq<u8>, pos: int)
    requires
        has_tag(s, pos, lit("IPv6")),
    ensures
        word_end(s, pos, lit("ipv4")) is None,
{
    reveal_strlit("IPv6");
    lemma_lit("IPv6");
    reveal_strlit("ipv4");
    lemma_lit("ipv4");
    lemma_tag_not_word(s, pos, lit("IPv6"), lit("ipv4"), 3);
}

/// Where `IPv6` stands, the word `ipv6` is read.
pub proof fn lemma_ipv6_cased_reads_as_ipv6(s: Seq<u8>, pos: int)
    requires
        has_tag(s, pos, lit("IPv6")),
    ensures
        word_end(s, pos, lit("ipv6")) == Some(pos + 4),
        lit("ipv6").len() == 4,
        lit("IPv6").len() == 4,
{
    reveal_strlit("IPv6");
    lemma_lit("IPv6");
    reveal_strlit("ipv6");
    lemma_lit("ipv6");
    lemma_word(s, pos, lit("IPv6"), lit("ipv6"));
}

/// The word `LZ4HC` is not read where `LZ4` stands before another
/// byte than `h`.
pub proof fn lemma_lz4_cased_is_not_lz4hc_cased(s: Seq<u8>, pos: int)
    requires
        has_tag(s, pos, lit("LZ4")),
        pos + 3 >= s.len() || lower(s[pos + 3]) != 'h' as u8,
    ensures
        word_end(s, pos, lit("LZ4HC")) is None,
{
    reveal_strlit("LZ4HC");
    lemma_lit("LZ4HC");
    lemma_tag_bounds(s, pos, lit("LZ4"));
    lemma_not_word(s, pos, lit("LZ4HC"), 3);
}

/// The word `array` is not read where its first letter does not stand.
pub proof fn lemma_other_than_array(s: Seq<u8>, pos: int)
    requires
        0 <= pos,
        pos >= s.len() || lower(s[pos]) != 'a' as u8,
    ensures
        word_end(s, pos, lit("array")) is None,
{
    reveal_strlit("array");
    lemma_lit("array");
    lemma_not_word(s, pos, lit("array"), 0);
}

/// The word `date` is not read where its first letter does not stand.
pub proof fn lemma_other_than_date(s: Seq<u8>, pos: int)
    requires
        0 <= pos,
        pos >= s.len() || lower(s[pos]) != 'd' as u8,
    ensures
        word_end(s, pos, lit("date")) is None,
{
    reveal_strlit("date");
    lemma_lit("date");
    lemma_not_word(s, pos, lit("date"), 0);
}

/// The word `datetime` is not read where its first letter does not stand.
pub proof fn lemma_other_than_datetime(s: Seq<u8>, pos: int)
    requires
        0 <= pos,
        pos >= s.len() || lower(s[pos]) != 'd' as u8,
    ensures
        word_end(s, pos, lit("datetime")) is None,
{
    reveal_strlit("datetime");
    lemma_lit("datetime");
    lemma_not_word(s, pos, lit("datetime"), 0);
}

/// The word `datetime64` is not read where its first letter does not stand.
pub proof fn lemma_other_than_datetime64(s: Seq<u8>, pos: int)
    requires
        0 <= pos,
        pos >= s.len() || lower(s[pos]) != 'd' as u8,
    ensures
        word_end(s, pos, lit("datetime64")) is None,
{
    reveal_strlit("datetime64");
    lemma_lit("datetime64");
    lemma_not_word(s, pos, lit("datetime64"), 0);
}

/// The word `delta` is not read where its first letter does not stand.
pub proof fn lemma_other_than_delta(s: Seq<u8>, pos: int)
    requires
        0 <= pos,
        pos >= s.len() || lower(s[pos]) != 'd' as u8,
    ensures
        word_end(s, pos, lit("delta")) is None,
{
    reveal_strlit("delta");
    lemma_lit("delta");
    lemma_not_word(s, pos, lit("delta"), 0);
}

/// The word `DoubleDelta` is not read where its first letter does not stand.
pub proof fn lemma_other_than_doubledelta_cased(s: Seq<u8>, pos: int)
    requires
        0 <= pos,
        pos >= s.len() || lower(s[pos]) != 'd' as u8,
    ensures
        word_end(s, pos, lit("DoubleDelta")) is None,
{
    reveal_strlit("DoubleDelta");
    lemma_lit("DoubleDelta");
    lemma_not_word(s, pos, lit("DoubleDelta"), 0);
}

/// The word `enum` is not read where its first letter does not stand.
pub proof fn lemma_other_than_enum(s: Seq<u8>, pos: int)
    requires
        0 <= pos,
        pos >= s.len() || lower(s[pos]) != 'e' as u8,
    ensures
        word_end(s, pos, lit("enum")) is None,
{
    reveal_strlit("enum");
    lemma_lit("enum");
    lemma_not_word(s, pos, lit("enum"), 0);
}

/// The word `FixedString` is not read where its first letter does not stand.
pub proof fn lemma_other_than_fixedstring_cased(s: Seq<u8>, pos: int)
    requires
        0 <= pos,
        pos >= s.len() || lower(s[pos]) != 'f' as u8,
    ensures
        word_end(s, pos, lit("FixedString")) is None,
{
    reveal_strlit("FixedString");
    lemma_lit("FixedString");
    lemma_not_word(s, pos, lit("FixedString"), 0);
}

/// The word `float32` is not read where its first letter does not stand.
pub proof fn lemma_other_than_float32(s: Seq<u8>, pos: int)
    requires
        0 <= pos,
        pos >= s.len() || lower(s[pos]) != 'f' as u8,
    ensures
        word_end(s, pos, lit("float32")) is None,
{
    reveal_strlit("float32");
    lemma_lit("float32");
    lemma_not_word(s, pos, lit("float32"), 0);
}

/// The word `float64` is not read where its first letter does not stand.
pub proof fn lemma_other_than_float64(s: Seq<u8>, pos: int)
    requires
        0 <= pos,
        pos >= s.len() || lower(s[pos]) != 'f' as u8,
    ensures
        word_end(s, pos, lit("float64")) is None,
{
    reveal_strlit("float64");
    lemma_lit("float64");
    lemma_not_word(s, pos, lit("float64"), 0);
}

/// The word `gorilla` is not read where its first letter does not stand.
pub proof fn lemma_other_than_gorilla(s: Seq<u8>, pos: int)
    requires
        0 <= pos,
        pos >= s.len() || lower(s[pos]) != 'g' as u8,
    ensures
        word_end(s, pos, lit("gorilla")) is None,
{
    reveal_strlit("gorilla");
    lemma_lit("gorilla");
    lemma_not_word(s, pos, lit("gorilla"), 0);
}

/// The word `int` is not read where its first letter does not stand.
pub proof fn lemma_other_than_int(s: Seq<u8>, pos: int)
    requires
        0 <= pos,
        pos >= s.len() || lower(s[pos]) != 'i' as u8,
    ensures
        word_end(s, pos, lit("int")) is None,
{
    reveal_strlit("int");
    lemma_lit("int");
    lemma_not_word(s, pos, lit("int"), 0);
}

/// The word `ipv4` is not read where its first letter does not stand.
pub proof fn lemma_other_than_ipv4(s: Seq<u8>, pos: int)
    requires
        0 <= pos,
        pos >= s.len() || lower(s[pos]) != 'i' as u8,
    ensures
        word_end(s, pos, lit("ipv4")) is None,
{
    reveal_strlit("ipv4");
    lemma_lit("ipv4");
    lemma_not_word(s, pos, lit("ipv4"), 0);
}

/// The word `ipv6` is not read where its first letter does not stand.
pub proof fn lemma_other_than_ipv6(s: Seq<u8>, pos: int)
    requires
        0 <= pos,
        pos >= s.len() || lower(s[pos]) != 'i' as u8,
    ensures
        word_end(s, pos, lit("ipv6")) is None,
{
    reveal_strlit("ipv6");
    lemma_lit("ipv6");
    lemma_not_word(s, pos, lit("ipv6"), 0);
}

/// The word `lz4` is not read where its first letter does not stand.
pub proof fn lemma_other_than_lz4(s: Seq<u8>, pos: int)
    requires
        0 <= pos,
        pos >= s.len() || lower(s[pos]) != 'l' as u8,
    ensures
        word_end(s, pos, lit("lz4")) is None,
{
    reveal_strlit("lz4");
    lemma_lit("lz4");
    lemma_not_word(s, pos, lit("lz4"), 0);
}

/// The word `LZ4HC` is not read where its first letter does not stand.
pub proof fn lemma_other_than_lz4hc_cased(s: Seq<u8>, pos: int)
    requires
        0 <= pos,
        pos >= s.len() || lower(s[pos]) != 'l' as u8,
    ensures
        word_end(s, pos, lit("LZ4HC")) is None,
{
    reveal_strlit("LZ4HC");
    lemma_lit("LZ4HC");
    lemma_not_word(s, pos, lit("LZ4HC"), 0);
}

/// The word `none` is not read where its first letter does not stand.
pub proof fn lemma_other_than_none(s: Seq<u8>, pos: int)
    requires
        0 <= pos,
        pos >= s.len() || lower(s[pos]) != 'n' as u8,
    ensures
        word_end(s, pos, lit("none")) is None,
{
    reveal_strlit("none");
    lemma_lit("none");
    lemma_not_word(s, pos, lit("none"), 0);
}

/// The word `string` is not read where its first letter does not stand.
pub proof fn lemma_other_than_string(s: Seq<u8>, pos: int)
    requires
        0 <= pos,
        pos >= s.len() || lower(s[pos]) != 's' as u8,
    ensures
        word_end(s, pos, lit("string")) is None,
{
    reveal_strlit("string");
    lemma_lit("string");
    lemma_not_word(s, pos, lit("string"), 0);
}

/// The word `t64` is not read where its first letter does not stand.
pub proof fn lemma_other_than_t64(s: Seq<u8>, pos: int)
    requires
        0 <= pos,
        pos >= s.len() || lower(s[pos]) != 't' as u8,
    ensures
        word_end(s, pos, lit("t64")) is None,
{
    reveal_strlit("t64");
    lemma_lit("t64");
    lemma_not_word(s, pos, lit("t64"), 0);
}

/// The word `uint` is not read where its first letter does not stand.
pub proof fn lemma_other_than_uint(s: Seq<u8>, pos: int)
    requires
        0 <= pos,
        pos >= s.len() || lower(s[pos]) != 'u' as u8,
    ensures
        word_end(s, pos, lit("uint")) is None,
{
    reveal_strlit("uint");
    lemma_lit("uint");
    lemma_not_word(s, pos, lit("uint"), 0);
}

/// The word `uuid` is not read where its first letter does not stand.
pub proof fn lemma_other_than_uuid(s: Seq<u8>, pos: int)
    requires
        0 <= pos,
        pos >= s.len() || lower(s[pos]) != 'u' as u8,
    ensures
        word_end(s, pos, lit("uuid")) is None,
{
    reveal_strlit("uuid");
    lemma_lit("uuid");
    lemma_not_word(s, pos, lit("uuid"), 0);
}

/// The word `zstd` is not read where its first letter does not stand.
pub proof fn lemma_other_than_zstd(s: Seq<u8>, pos: int)
    requires
        0 <= pos,
        pos >= s.len() || lower(s[pos]) != 'z' as u8,
    ensures
        word_end(s, pos, lit("zstd")) is None,
{
    reveal_strlit("zstd");
    lemma_lit("zstd");
    lemma_not_word(s, pos, lit("zstd"), 0);
}

/// Where `String` stands, the word `string` is read.
pub proof fn lemma_string_cased_reads_as_string(s: Seq<u8>, pos: int)
    requires
        has_tag(s, pos, lit("String")),
    ensures
        word_end(s, pos, lit("string")) == Some(pos + 6),
        lit("string").len() == 6,
        lit("String").len() == 6,
{
    reveal_strlit("String");
    lemma_lit("String");
    reveal_strlit("string");
    lemma_lit("string");
    lemma_word(s, pos, lit("String"), lit("string"));
}

/// Where `UInt` stands, the word `uint` is read.
pub proof fn lemma_uint_cased_reads_as_uint(s: Seq<u8>, pos: int)
    requires
        has_tag(s, pos, lit("UInt")),
    ensures
        word_end(s, pos, lit("uint")) == Some(pos + 4),
        lit("uint").len() == 4,
        lit("UInt").len() == 4,
{
    reveal_strlit("UInt");
    lemma_lit("UInt");
    reveal_strlit("uint");
    lemma_lit("uint");
    lemma_word(s, pos, lit("UInt"), lit("uint"));
}

/// The word `uint` is not read where `UUID` stands.
pub proof fn lemma_uuid_cased_is_not_uint(s: Seq<u8>, pos: int)
    requires
        has_tag(s, pos, lit("UUID")),
    ensures
        word_end(s, pos, lit("uint")) is None,
{
    reveal_strlit("UUID");
    lemma_lit("UUID");
    reveal_strlit("uint");
    lemma_lit("uint");
    lemma_tag_not_word(s, pos, lit("UUID"), lit("uint"), 1);
}

/// Where `UUID` stands, the word `uuid` is read.
pub proof fn lemma_uuid_cased_reads_as_uuid(s: Seq<u8>, pos: int)
    requires
        has_tag(s, pos, lit("UUID")),
    ensures
        word_end(s, pos, lit("uuid")) == Some(pos + 4),
        lit("uuid").len() == 4,
        lit("UUID").len() == 4,
{
    reveal_strlit("UUID");
    lemma_lit("UUID");
    reveal_strlit("uuid");
    lemma_lit("uuid");
    lemma_word(s, pos, lit("UUID"), lit("uuid"));
}

} // verus!
