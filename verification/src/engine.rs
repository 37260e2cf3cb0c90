//! Storage engines: the data, their canonical text, and the grammar.
//!
//! Of `MergeTree` and `ReplicatedMergeTree` the statement keeps the text as
//! it was read. Of `Distributed` it keeps the cluster, the schema and the
//! table; a sharding key and a policy name are read and not kept.

use vstd::prelude::*;
use vstd::slice::slice_subrange;
use vstd::utf8::encode_utf8;
use crate::error::{agrees, agrees_end, gave_up, gives_up, syntax, ErrorKind, ParseError};
use crate::expr::{spec_expression, top_expression_at};
use crate::ident::{agrees_span, identifier_at, spec_sql_identifier};
use crate::scan::{
    byte_at, digits1, has_tag, is_byte_at, lit, run_end, sep_comma_at, sep_comma_end, skip_ws,
    space1, tag, tag_no_case, word_end, ws_end, ByteClass,
};
use crate::text::{
    capture, lemma_appended, push_str, single_quoted_end, single_quoted_end_at, spec_capture,
};
use crate::types::opt_text;

verus! {

/// The engine `Distributed`. Each text is the expression as it was written,
/// quotes included.
#[derive(Clone, Debug, Eq, Hash, PartialEq)]
pub struct EngineDistributed {
    pub cluster_name: String,
    pub schema: String,
    pub table: String,
    pub sharding_key: Option<String>,
    pub policy_name: Option<String>,
}

/// The engine `MergeTree`, with its clauses, as it was written.
#[derive(Clone, Debug, Eq, Hash, PartialEq)]
pub struct EngineMergeTree(pub String);

/// The engine `ReplicatedMergeTree`, with its parameters and clauses, as it
/// was written.
#[derive(Clone, Debug, Eq, Hash, PartialEq)]
pub struct EngineReplicatedMergeTree(pub String);

/// The engine of a table.
#[derive(Clone, Debug, Eq, Hash, PartialEq)]
pub enum Engine {
    Distributed(EngineDistributed),
    Memory,
    MergeTree(EngineMergeTree),
    ReplicatedMergeTree(EngineReplicatedMergeTree),
}

/// The model of an [`EngineDistributed`].
pub struct EngineDistributedView {
    pub cluster_name: Seq<u8>,
    pub schema: Seq<u8>,
    pub table: Seq<u8>,
    pub sharding_key: Option<Seq<u8>>,
    pub policy_name: Option<Seq<u8>>,
}

/// The model of an [`Engine`].
pub enum EngineView {
    Distributed(EngineDistributedView),
    Memory,
    MergeTree(Seq<u8>),
    ReplicatedMergeTree(Seq<u8>),
}

impl View for EngineDistributed {
    type V = EngineDistributedView;

    open spec fn view(&self) -> EngineDistributedView {
        EngineDistributedView {
            cluster_name: encode_utf8(self.cluster_name@),
            schema: encode_utf8(self.schema@),
            table: encode_utf8(self.table@),
            sharding_key: opt_text(self.sharding_key),
            policy_name: opt_text(self.policy_name),
        }
    }
}

impl View for EngineMergeTree {
    type V = Seq<u8>;

    open spec fn view(&self) -> Seq<u8> {
        encode_utf8(self.0@)
    }
}

impl View for EngineReplicatedMergeTree {
    type V = Seq<u8>;

    open spec fn view(&self) -> Seq<u8> {
        encode_utf8(self.0@)
    }
}

impl View for Engine {
    type V = EngineView;

    open spec fn view(&self) -> EngineView {
        match self {
            Engine::Distributed(e) => EngineView::Distributed(e@),
            Engine::Memory => EngineView::Memory,
            Engine::MergeTree(e) => EngineView::MergeTree(e@),
            Engine::ReplicatedMergeTree(e) => EngineView::ReplicatedMergeTree(e@),
        }
    }
}

/// The text of the sharding key and the policy name of a `Distributed`
/// engine: each behind `, `, the policy name only behind a sharding key.
pub open spec fn print_distributed_tail(e: EngineDistributedView) -> Seq<u8> {
    match e.sharding_key {
        Some(key) => lit(", ") + key + (match e.policy_name {
            Some(name) => lit(", ") + name,
            None => seq![],
        }),
        None => seq![],
    }
}

/// The canonical text of a `Distributed` engine. An empty schema is
/// written `''`.
pub open spec fn print_distributed(e: EngineDistributedView) -> Seq<u8> {
    lit("DISTRIBUTED( ") + e.cluster_name + lit(", ") + (if e.schema.len() == 0 {
        lit("''")
    } else {
        e.schema
    }) + lit(", ") + e.table + print_distributed_tail(e) + lit(")")
}

/// The canonical text of an engine clause: `ENGINE = ` and the engine.
pub open spec fn print_engine(e: EngineView) -> Seq<u8> {
    match e {
        EngineView::Distributed(e) => lit("ENGINE = ") + print_distributed(e),
        EngineView::Memory => lit("ENGINE = Memory"),
        EngineView::MergeTree(text) => lit("ENGINE = ") + text,
        EngineView::ReplicatedMergeTree(text) => lit("ENGINE = ") + text,
    }
}

/// Appends the sharding key and the policy name of a `Distributed` engine.
pub fn push_distributed_tail(out: &mut String, e: &EngineDistributed)
    ensures
        encode_utf8(final(out)@) == encode_utf8(old(out)@) + print_distributed_tail(e@),
{
    match &e.sharding_key {
        Some(key) => {
            push_str(out, ", ");
            push_str(out, key.as_str());
            match &e.policy_name {
                Some(name) => {
                    push_str(out, ", ");
                    push_str(out, name.as_str());
                    assert(encode_utf8(out@) =~= encode_utf8(old(out)@) + (lit(", ") + encode_utf8(
                        key@,
                    ) + (lit(", ") + encode_utf8(name@))));
                },
                None => {
                    assert(encode_utf8(out@) =~= encode_utf8(old(out)@) + (lit(", ") + encode_utf8(
                        key@,
                    ) + Seq::<u8>::empty()));
                },
            }
        },
        None => {
            assert(encode_utf8(out@) =~= encode_utf8(old(out)@) + Seq::<u8>::empty());
        },
    }
}

/// Appends the schema of a `Distributed` engine, `''` if it is empty.
pub fn push_schema(out: &mut String, schema: &String)
    ensures
        encode_utf8(final(out)@) == encode_utf8(old(out)@) + (if encode_utf8(schema@).len() == 0 {
            lit("''")
        } else {
            encode_utf8(schema@)
        }),
{
    proof {
        crate::text::lemma_encode_empty(schema@);
    }
    if schema.as_str().is_empty() {
        push_str(out, "''");
    } else {
        push_str(out, schema.as_str());
    }
}

/// Appends the canonical text of a `Distributed` engine.
pub fn push_distributed(out: &mut String, e: &EngineDistributed)
    ensures
        encode_utf8(final(out)@) == encode_utf8(old(out)@) + print_distributed(e@),
{
    let ghost base = encode_utf8(out@);
    let ghost schema = if e@.schema.len() == 0 {
        lit("''")
    } else {
        e@.schema
    };
    push_str(out, "DISTRIBUTED( ");
    push_str(out, e.cluster_name.as_str());
    let ghost a1 = lit("DISTRIBUTED( ") + e@.cluster_name;
    proof {
        lemma_appended(base, lit("DISTRIBUTED( "), e@.cluster_name);
    }
    push_str(out, ", ");
    let ghost a2 = a1 + lit(", ");
    proof {
        lemma_appended(base, a1, lit(", "));
    }
    push_schema(out, &e.schema);
    let ghost a3 = a2 + schema;
    proof {
        lemma_appended(base, a2, schema);
    }
    push_str(out, ", ");
    let ghost a4 = a3 + lit(", ");
    proof {
        lemma_appended(base, a3, lit(", "));
    }
    push_str(out, e.table.as_str());
    let ghost a5 = a4 + e@.table;
    proof {
        lemma_appended(base, a4, e@.table);
    }
    push_distributed_tail(out, e);
    let ghost a6 = a5 + print_distributed_tail(e@);
    proof {
        lemma_appended(base, a5, print_distributed_tail(e@));
    }
    push_str(out, ")");
    proof {
        lemma_appended(base, a6, lit(")"));
    }
}

/// Appends the canonical text of an engine clause.
pub fn push_engine(out: &mut String, e: &Engine)
    ensures
        encode_utf8(final(out)@) == encode_utf8(old(out)@) + print_engine(e@),
{
    match e {
        Engine::Distributed(e) => {
            push_str(out, "ENGINE = ");
            push_distributed(out, e);
            assert(encode_utf8(out@) =~= encode_utf8(old(out)@) + (lit("ENGINE = ")
                + print_distributed(e@)));
        },
        Engine::Memory => push_str(out, "ENGINE = Memory"),
        Engine::MergeTree(e) => {
            push_str(out, "ENGINE = ");
            push_str(out, e.0.as_str());
            assert(encode_utf8(out@) =~= encode_utf8(old(out)@) + (lit("ENGINE = ") + e@));
        },
        Engine::ReplicatedMergeTree(e) => {
            push_str(out, "ENGINE = ");
            push_str(out, e.0.as_str());
            assert(encode_utf8(out@) =~= encode_utf8(old(out)@) + (lit("ENGINE = ") + e@));
        },
    }
}

impl EngineDistributed {
    /// The canonical text of the engine.
    pub fn to_string(&self) -> (r: String)
        ensures
            encode_utf8(r@) == print_distributed(self@),
    {
        let mut out = String::new();
        push_distributed(&mut out, self);
        assert(encode_utf8(Seq::<char>::empty()) + print_distributed(self@) =~= print_distributed(
            self@,
        ));
        out
    }
}

impl EngineMergeTree {
    /// The text of the engine, as it was read.
    pub fn to_string(&self) -> (r: String)
        ensures
            encode_utf8(r@) == self@,
    {
        self.0.clone()
    }
}

impl EngineReplicatedMergeTree {
    /// The text of the engine, as it was read.
    pub fn to_string(&self) -> (r: String)
        ensures
            encode_utf8(r@) == self@,
    {
        self.0.clone()
    }
}

impl Engine {
    /// The canonical text of the engine clause.
    pub fn to_string(&self) -> (r: String)
        ensures
            encode_utf8(r@) == print_engine(self@),
    {
        let mut out = String::new();
        push_engine(&mut out, self);
        assert(encode_utf8(Seq::<char>::empty()) + print_engine(self@) =~= print_engine(self@));
        out
    }
}

/// The end of the unit of time at `pos`: the first that matches of `SECOND`,
/// `MINUTE`, `HOUR`, `DAY`, `WEEK`, `MONTH`, `QUARTER` and `YEAR`, in any
/// case.
pub open spec fn spec_interval_unit(s: Seq<u8>, pos: int) -> Option<int> {
    if word_end(s, pos, lit("SECOND")) is Some {
        word_end(s, pos, lit("SECOND"))
    } else if word_end(s, pos, lit("MINUTE")) is Some {
        word_end(s, pos, lit("MINUTE"))
    } else if word_end(s, pos, lit("HOUR")) is Some {
        word_end(s, pos, lit("HOUR"))
    } else if word_end(s, pos, lit("DAY")) is Some {
        word_end(s, pos, lit("DAY"))
    } else if word_end(s, pos, lit("WEEK")) is Some {
        word_end(s, pos, lit("WEEK"))
    } else if word_end(s, pos, lit("MONTH")) is Some {
        word_end(s, pos, lit("MONTH"))
    } else if word_end(s, pos, lit("QUARTER")) is Some {
        word_end(s, pos, lit("QUARTER"))
    } else {
        word_end(s, pos, lit("YEAR"))
    }
}

/// The end of the interval form of a TTL expression at `pos`: white space,
/// an identifier, white space, `INTERVAL`, white space, `+` or `-`, white
/// space, digits, white space, a unit of time. The white space around the
/// sign is not empty.
pub open spec fn spec_ttl_interval(s: Seq<u8>, pos: int) -> Result<int, ParseError> {
    match spec_sql_identifier(s, ws_end(s, pos)) {
        Err(e) => Err(e),
        Ok((_, name_end)) => match word_end(s, ws_end(s, name_end), lit("INTERVAL")) {
            None => Err(syntax(ErrorKind::Tag, ws_end(s, name_end))),
            Some(w) => {
                let sign = ws_end(s, w);
                let digits = ws_end(s, sign + 1);
                let digits_end = run_end(s, digits, ByteClass::Digit);
                if sign <= w {
                    Err(syntax(ErrorKind::Space, w))
                } else if !(byte_at(s, sign, '+' as u8) || byte_at(s, sign, '-' as u8)) {
                    Err(syntax(ErrorKind::Tag, sign))
                } else if digits <= sign + 1 {
                    Err(syntax(ErrorKind::Space, sign + 1))
                } else if digits_end <= digits {
                    Err(syntax(ErrorKind::Digit, digits))
                } else {
                    match spec_interval_unit(s, ws_end(s, digits_end)) {
                        Some(end) => Ok(end),
                        None => Err(syntax(ErrorKind::Tag, ws_end(s, digits_end))),
                    }
                }
            },
        },
    }
}

/// The TTL expression of an engine at `pos`: the interval form, whose text
/// is all that was read, or else an identifier, whose text is its name.
pub open spec fn spec_ttl_expression(s: Seq<u8>, pos: int) -> Result<((int, int), int), ParseError> {
    match spec_ttl_interval(s, pos) {
        Ok(end) => Ok(((pos, end), end)),
        Err(_) => spec_sql_identifier(s, pos),
    }
}

/// The end of `TO`, the word `target`, and a path between single quotes,
/// with white space that is not empty between them.
pub open spec fn spec_ttl_move(s: Seq<u8>, pos: int, target: Seq<u8>) -> Option<int> {
    match word_end(s, pos, lit("to")) {
        None => None,
        Some(w) => match word_end(s, ws_end(s, w), target) {
            None => None,
            Some(t) => match single_quoted_end(s, ws_end(s, t)) {
                Some(end) => if ws_end(s, w) > w && ws_end(s, t) > t {
                    Some(end + 1)
                } else {
                    None
                },
                None => None,
            },
        },
    }
}

/// The end of what is to happen when the time of an entry has come:
/// `DELETE`, `TO DISK 'path'` or `TO VOLUME 'path'`.
pub open spec fn spec_ttl_action(s: Seq<u8>, pos: int) -> Option<int> {
    if word_end(s, pos, lit("delete")) is Some {
        word_end(s, pos, lit("delete"))
    } else if spec_ttl_move(s, pos, lit("disk")) is Some {
        spec_ttl_move(s, pos, lit("disk"))
    } else {
        spec_ttl_move(s, pos, lit("volume"))
    }
}

/// The end of one entry of a TTL clause at `pos`: a TTL expression, white
/// space, and an action with the white space behind it where there is one.
pub open spec fn spec_ttl_entry(s: Seq<u8>, pos: int) -> Result<int, ParseError> {
    match spec_ttl_expression(s, pos) {
        Err(e) => Err(e),
        Ok((_, end)) => match spec_ttl_action(s, ws_end(s, end)) {
            Some(action_end) => Ok(ws_end(s, action_end)),
            None => Ok(ws_end(s, end)),
        },
    }
}

/// The end of the entries that follow an entry that ends at `pos`: each
/// behind a comma.
pub open spec fn spec_ttl_entries_tail(s: Seq<u8>, pos: int) -> int
    decreases s.len() - pos,
{
    match sep_comma_end(s, pos) {
        None => pos,
        Some(next) => match spec_ttl_entry(s, next) {
            Err(_) => pos,
            Ok(end) => if pos < end <= s.len() {
                spec_ttl_entries_tail(s, end)
            } else {
                pos
            },
        },
    }
}

/// The end of the TTL clause of an engine at `pos`: white space, `TTL`,
/// white space, and one entry or more with commas between them.
pub open spec fn spec_engine_merge_tree_ttl(s: Seq<u8>, pos: int) -> Result<int, ParseError> {
    match word_end(s, ws_end(s, pos), lit("TTL")) {
        None => Err(syntax(ErrorKind::Tag, ws_end(s, pos))),
        Some(w) => match spec_ttl_entry(s, ws_end(s, w)) {
            Err(e) => Err(e),
            Ok(end) => Ok(spec_ttl_entries_tail(s, end)),
        },
    }
}

/// The end of a clause of two words and an expression at `pos`, such as
/// `ORDER BY expr`: white space before each of the three, none of it empty.
pub open spec fn spec_by_clause(s: Seq<u8>, pos: int, first: Seq<u8>, second: Seq<u8>) -> Result<
    int,
    ParseError,
> {
    let a = ws_end(s, pos);
    if a <= pos {
        Err(syntax(ErrorKind::Space, pos))
    } else {
        match word_end(s, a, first) {
            None => Err(syntax(ErrorKind::Tag, a)),
            Some(w1) => if ws_end(s, w1) <= w1 {
                Err(syntax(ErrorKind::Space, w1))
            } else {
                match word_end(s, ws_end(s, w1), second) {
                    None => Err(syntax(ErrorKind::Tag, ws_end(s, w1))),
                    Some(w2) => if ws_end(s, w2) <= w2 {
                        Err(syntax(ErrorKind::Space, w2))
                    } else {
                        spec_expression(s, ws_end(s, w2))
                    },
                }
            },
        }
    }
}

/// The end of `name = digits` at `pos`, with white space around `=`.
pub open spec fn spec_numeric_setting(s: Seq<u8>, pos: int, name: Seq<u8>) -> Option<int> {
    match word_end(s, pos, name) {
        None => None,
        Some(w) => {
            let digits = ws_end(s, ws_end(s, w) + 1);
            if byte_at(s, ws_end(s, w), '=' as u8) && run_end(s, digits, ByteClass::Digit)
                > digits {
                Some(run_end(s, digits, ByteClass::Digit))
            } else {
                None
            }
        },
    }
}

/// The end of `name = 'text'` at `pos`, with white space around `=`.
pub open spec fn spec_string_setting(s: Seq<u8>, pos: int, name: Seq<u8>) -> Option<int> {
    match word_end(s, pos, name) {
        None => None,
        Some(w) => if byte_at(s, ws_end(s, w), '=' as u8) {
            match single_quoted_end(s, ws_end(s, ws_end(s, w) + 1)) {
                Some(end) => Some(end + 1),
                None => None,
            }
        } else {
            None
        },
    }
}

/// The names of the settings whose value is a number.
pub open spec fn numeric_setting_name(k: int) -> Seq<u8> {
    if k == 0 {
        lit("index_granularity")
    } else if k == 1 {
        lit("index_granularity_bytes")
    } else if k == 2 {
        lit("enable_mixed_granularity_parts")
    } else if k == 3 {
        lit("use_minimalistic_part_header_in_zookeeper")
    } else if k == 4 {
        lit("min_merge_bytes_to_use_direct_io")
    } else if k == 5 {
        lit("merge_with_ttl_timeout")
    } else if k == 6 {
        lit("write_final_mark")
    } else if k == 7 {
        lit("merge_max_block_size")
    } else if k == 8 {
        lit("min_bytes_for_wide_part")
    } else {
        lit("min_rows_for_wide_part")
    }
}

/// The number of settings whose value is a number.
pub const NUMERIC_SETTINGS: usize = 10;

/// The end of the first numeric setting from the `k`-th name on that
/// stands at `pos`.
pub open spec fn spec_numeric_settings_from(s: Seq<u8>, pos: int, k: int) -> Option<int>
    decreases NUMERIC_SETTINGS - k,
{
    if k >= NUMERIC_SETTINGS {
        None
    } else if spec_numeric_setting(s, pos, numeric_setting_name(k)) is Some {
        spec_numeric_setting(s, pos, numeric_setting_name(k))
    } else {
        spec_numeric_settings_from(s, pos, k + 1)
    }
}

/// The end of one setting at `pos`: one of the numeric settings with a
/// number, or `storage_policy` with a text between single quotes.
pub open spec fn spec_engine_merge_tree_settings_kv(s: Seq<u8>, pos: int) -> Result<
    int,
    ParseError,
> {
    if let Some(end) = spec_numeric_settings_from(s, pos, 0) {
        Ok(end)
    } else if let Some(end) = spec_string_setting(s, pos, lit("storage_policy")) {
        Ok(end)
    } else {
        Err(syntax(ErrorKind::Setting, pos))
    }
}

/// The end of the settings that follow a setting that ends at `pos`: each
/// behind a comma.
pub open spec fn spec_settings_tail(s: Seq<u8>, pos: int) -> int
    decreases s.len() - pos,
{
    match sep_comma_end(s, pos) {
        None => pos,
        Some(next) => match spec_engine_merge_tree_settings_kv(s, next) {
            Err(_) => pos,
            Ok(end) => if pos < end <= s.len() {
                spec_settings_tail(s, end)
            } else {
                pos
            },
        },
    }
}

/// The end of the `SETTINGS` clause at `pos`: white space, `SETTINGS`,
/// white space, and settings with commas between them; there may be none.
pub open spec fn spec_engine_merge_tree_settings(s: Seq<u8>, pos: int) -> Result<int, ParseError> {
    match word_end(s, ws_end(s, pos), lit("SETTINGS")) {
        None => Err(syntax(ErrorKind::Tag, ws_end(s, pos))),
        Some(w) => match spec_engine_merge_tree_settings_kv(s, ws_end(s, w)) {
            Err(_) => Ok(ws_end(s, w)),
            Ok(end) => Ok(spec_settings_tail(s, end)),
        },
    }
}

/// The end of one clause of a `MergeTree` engine at `pos`: the first that
/// matches of `PARTITION BY`, `ORDER BY`, `PRIMARY KEY`, `SAMPLE BY`, `TTL`
/// and `SETTINGS`.
pub open spec fn spec_engine_clause(s: Seq<u8>, pos: int) -> Result<int, ParseError> {
    let partition = spec_by_clause(s, pos, lit("PARTITION"), lit("BY"));
    let order = spec_by_clause(s, pos, lit("ORDER"), lit("BY"));
    let primary = spec_by_clause(s, pos, lit("PRIMARY"), lit("KEY"));
    let sample = spec_by_clause(s, pos, lit("SAMPLE"), lit("BY"));
    if !gives_up(partition) {
        partition
    } else if !gives_up(order) {
        order
    } else if !gives_up(primary) {
        primary
    } else if !gives_up(sample) {
        sample
    } else if !gives_up(spec_engine_merge_tree_ttl(s, pos)) {
        spec_engine_merge_tree_ttl(s, pos)
    } else {
        spec_engine_merge_tree_settings(s, pos)
    }
}

/// The end of the clauses of a `MergeTree` engine from `pos` on: any
/// number of them, in any order.
pub open spec fn spec_engine_clauses(s: Seq<u8>, pos: int) -> Result<int, ParseError>
    decreases s.len() - pos,
{
    match spec_engine_clause(s, pos) {
        Err(e) => if e is Failure {
            Err(e)
        } else {
            Ok(pos)
        },
        Ok(end) => if pos < end <= s.len() {
            spec_engine_clauses(s, end)
        } else {
            Ok(pos)
        },
    }
}

/// The engine `MergeTree` at `pos`: the word and its clauses. Gives the
/// text of all of it.
pub open spec fn spec_engine_merge_tree(s: Seq<u8>, pos: int) -> Result<(EngineView, int), ParseError> {
    match word_end(s, pos, lit("MergeTree")) {
        None => Err(syntax(ErrorKind::Tag, pos)),
        Some(w) => match spec_engine_clauses(s, w) {
            Err(e) => Err(e),
            Ok(end) => match spec_capture(s, pos, end) {
                Err(e) => Err(e),
                Ok(text) => Ok((EngineView::MergeTree(text), end)),
            },
        },
    }
}

/// The end of the third parameter of `ReplicatedMergeTree` at `pos`, if
/// one is written there: a comma and an expression, with white space around
/// the comma; or `pos`.
pub open spec fn spec_extra_parameter(s: Seq<u8>, pos: int) -> Result<int, ParseError> {
    if !byte_at(s, ws_end(s, pos), ',' as u8) {
        Ok(pos)
    } else {
        match spec_expression(s, ws_end(s, ws_end(s, pos) + 1)) {
            Ok(end) => Ok(end),
            Err(e) => if e is Failure {
                Err(e)
            } else {
                Ok(pos)
            },
        }
    }
}

/// The end of the parameters of `ReplicatedMergeTree` at `pos`: in
/// brackets, the path and the replica name, two expressions with a comma
/// between them, and a third one or none, with white space as one likes.
pub open spec fn spec_replicated_parameters(s: Seq<u8>, pos: int) -> Result<int, ParseError> {
    let open = ws_end(s, pos);
    if !byte_at(s, open, '(' as u8) {
        Err(syntax(ErrorKind::Tag, open))
    } else {
        match spec_expression(s, ws_end(s, open + 1)) {
            Err(e) => Err(e),
            Ok(path_end) => if !byte_at(s, ws_end(s, path_end), ',' as u8) {
                Err(syntax(ErrorKind::Tag, ws_end(s, path_end)))
            } else {
                match spec_expression(s, ws_end(s, ws_end(s, path_end) + 1)) {
                    Err(e) => Err(e),
                    Ok(replica_end) => match spec_extra_parameter(s, replica_end) {
                        Err(e) => Err(e),
                        Ok(extra_end) => if byte_at(s, ws_end(s, extra_end), ')' as u8) {
                            Ok(ws_end(s, extra_end) + 1)
                        } else {
                            Err(syntax(ErrorKind::Tag, ws_end(s, extra_end)))
                        },
                    },
                }
            },
        }
    }
}

/// The engine `ReplicatedMergeTree` at `pos`: the word, its parameters, and
/// its clauses. Gives the text of all of it.
pub open spec fn spec_engine_replicated_merge_tree(s: Seq<u8>, pos: int) -> Result<
    (EngineView, int),
    ParseError,
> {
    match word_end(s, pos, lit("ReplicatedMergeTree")) {
        None => Err(syntax(ErrorKind::Tag, pos)),
        Some(w) => match spec_replicated_parameters(s, w) {
            Err(e) => Err(e),
            Ok(close) => match spec_engine_clauses(s, close) {
                Err(e) => Err(e),
                Ok(end) => match spec_capture(s, pos, end) {
                    Err(e) => Err(e),
                    Ok(text) => Ok((EngineView::ReplicatedMergeTree(text), end)),
                },
            },
        },
    }
}

/// The end of the schema of a `Distributed` engine at `pos`, and the end
/// of its text: an expression, or else `''`, which stands for no text.
pub open spec fn spec_distributed_schema(s: Seq<u8>, pos: int) -> Result<(int, int), ParseError> {
    match spec_expression(s, pos) {
        Ok(end) => Ok((end, end)),
        Err(e) => if e is Failure {
            Err(e)
        } else if has_tag(s, pos, lit("''")) {
            Ok((pos, pos + lit("''").len()))
        } else {
            Err(syntax(ErrorKind::Expression, pos))
        },
    }
}

/// The end of the policy name of a `Distributed` engine at `pos`, if one
/// is written there: a comma and an identifier; or `pos`.
pub open spec fn spec_distributed_policy(s: Seq<u8>, pos: int) -> int {
    match sep_comma_end(s, pos) {
        None => pos,
        Some(next) => match spec_sql_identifier(s, next) {
            Ok((_, end)) => end,
            Err(_) => pos,
        },
    }
}

/// The end of the sharding key and the policy name of a `Distributed`
/// engine at `pos`, if they are written there: a comma and an expression,
/// and then a policy name or none; or `pos`.
pub open spec fn spec_distributed_sharding(s: Seq<u8>, pos: int) -> Result<int, ParseError> {
    match sep_comma_end(s, pos) {
        None => Ok(pos),
        Some(next) => match spec_expression(s, next) {
            Ok(end) => Ok(spec_distributed_policy(s, end)),
            Err(e) => if e is Failure {
                Err(e)
            } else {
                Ok(pos)
            },
        },
    }
}

/// The engine `Distributed` at `pos`: the word and, in brackets, the
/// cluster, the schema and the table, three expressions with commas between
/// them, and then a sharding key and a policy name or neither. The two are
/// read and not kept.
pub open spec fn spec_engine_distributed(s: Seq<u8>, pos: int) -> Result<
    (EngineView, int),
    ParseError,
> {
    match word_end(s, pos, lit("Distributed")) {
        None => Err(syntax(ErrorKind::Tag, pos)),
        Some(w) => if !byte_at(s, ws_end(s, w), '(' as u8) {
            Err(syntax(ErrorKind::Tag, ws_end(s, w)))
        } else {
            let cluster = ws_end(s, ws_end(s, w) + 1);
            match spec_expression(s, cluster) {
                Err(e) => Err(e),
                Ok(cluster_end) => match sep_comma_end(s, cluster_end) {
                    None => Err(syntax(ErrorKind::Tag, ws_end(s, cluster_end))),
                    Some(schema) => match spec_distributed_schema(s, schema) {
                        Err(e) => Err(e),
                        Ok((schema_text_end, schema_end)) => match sep_comma_end(s, schema_end) {
                            None => Err(syntax(ErrorKind::Tag, ws_end(s, schema_end))),
                            Some(table) => spec_distributed_table(
                                s,
                                (cluster, cluster_end),
                                (schema, schema_text_end),
                                table,
                            ),
                        },
                    },
                },
            }
        },
    }
}

/// The rest of a `Distributed` engine from its table at `pos` on, and the
/// engine that the three ranges of text make.
pub open spec fn spec_distributed_table(
    s: Seq<u8>,
    cluster: (int, int),
    schema: (int, int),
    pos: int,
) -> Result<(EngineView, int), ParseError> {
    match spec_expression(s, pos) {
        Err(e) => Err(e),
        Ok(table_end) => match spec_distributed_sharding(s, table_end) {
            Err(e) => Err(e),
            Ok(tail_end) => if !byte_at(s, ws_end(s, tail_end), ')' as u8) {
                Err(syntax(ErrorKind::Tag, ws_end(s, tail_end)))
            } else {
                match spec_capture(s, cluster.0, cluster.1) {
                    Err(e) => Err(e),
                    Ok(cluster_name) => match spec_capture(s, schema.0, schema.1) {
                        Err(e) => Err(e),
                        Ok(schema) => match spec_capture(s, pos, table_end) {
                            Err(e) => Err(e),
                            Ok(table) => Ok(
                                (
                                    EngineView::Distributed(
                                        EngineDistributedView {
                                            cluster_name,
                                            schema,
                                            table,
                                            sharding_key: None,
                                            policy_name: None,
                                        },
                                    ),
                                    ws_end(s, tail_end) + 1,
                                ),
                            ),
                        },
                    },
                }
            },
        },
    }
}

/// The engine `Memory` at `pos`.
pub open spec fn spec_engine_memory(s: Seq<u8>, pos: int) -> Result<(EngineView, int), ParseError> {
    match word_end(s, pos, lit("memory")) {
        None => Err(syntax(ErrorKind::Tag, pos)),
        Some(end) => Ok((EngineView::Memory, end)),
    }
}

/// The engine at `pos`: the first that matches of `Distributed`, `Memory`,
/// `MergeTree` and `ReplicatedMergeTree`, each in any case.
#[verifier::opaque]
pub open spec fn spec_engine(s: Seq<u8>, pos: int) -> Result<(EngineView, int), ParseError> {
    if !gives_up(spec_engine_distributed(s, pos)) {
        spec_engine_distributed(s, pos)
    } else if !gives_up(spec_engine_memory(s, pos)) {
        spec_engine_memory(s, pos)
    } else if !gives_up(spec_engine_merge_tree(s, pos)) {
        spec_engine_merge_tree(s, pos)
    } else if !gives_up(spec_engine_replicated_merge_tree(s, pos)) {
        spec_engine_replicated_merge_tree(s, pos)
    } else {
        Err(syntax(ErrorKind::Engine, pos))
    }
}

/// The engine clause at `pos`: `ENGINE = ` and an engine, with white space
/// around `=` as one likes.
pub open spec fn spec_engine_spec(s: Seq<u8>, pos: int) -> Result<(EngineView, int), ParseError> {
    match word_end(s, pos, lit("engine")) {
        None => Err(syntax(ErrorKind::Tag, pos)),
        Some(w) => if byte_at(s, ws_end(s, w), '=' as u8) {
            spec_engine(s, ws_end(s, ws_end(s, w) + 1))
        } else {
            Err(syntax(ErrorKind::Tag, ws_end(s, w)))
        },
    }
}

/// Whether an optional end was found as its specification says.
pub open spec fn agrees_opt(r: Option<usize>, p: Option<int>) -> bool {
    match p {
        Some(end) => r is Some && r->0 == end,
        None => r is None,
    }
}

/// The end of the unit of time at `pos`.
pub fn interval_unit_at(buf: &[u8], pos: usize) -> (r: Option<usize>)
    requires
        pos <= buf.len(),
    ensures
        agrees_opt(r, spec_interval_unit(buf@, pos as int)),
        r is Some ==> pos <= r->0 <= buf.len(),
{
    if let Some(end) = tag_no_case(buf, pos, "SECOND") {
        Some(end)
    } else if let Some(end) = tag_no_case(buf, pos, "MINUTE") {
        Some(end)
    } else if let Some(end) = tag_no_case(buf, pos, "HOUR") {
        Some(end)
    } else if let Some(end) = tag_no_case(buf, pos, "DAY") {
        Some(end)
    } else if let Some(end) = tag_no_case(buf, pos, "WEEK") {
        Some(end)
    } else if let Some(end) = tag_no_case(buf, pos, "MONTH") {
        Some(end)
    } else if let Some(end) = tag_no_case(buf, pos, "QUARTER") {
        Some(end)
    } else {
        tag_no_case(buf, pos, "YEAR")
    }
}

/// The end of the interval form of a TTL expression at `pos`.
pub fn ttl_interval_at(buf: &[u8], pos: usize) -> (r: Result<usize, ParseError>)
    requires
        pos <= buf.len(),
    ensures
        agrees_end(r, spec_ttl_interval(buf@, pos as int)),
        r is Ok ==> pos < r->Ok_0 <= buf.len(),
{
    let (_, name_end) = identifier_at(buf, skip_ws(buf, pos))?;
    let word = skip_ws(buf, name_end);
    let w = match tag_no_case(buf, word, "INTERVAL") {
        Some(w) => w,
        None => {
            return Err(ParseError::Syntax { kind: ErrorKind::Tag, position: word });
        },
    };
    let sign = match space1(buf, w) {
        Some(sign) => sign,
        None => {
            return Err(ParseError::Syntax { kind: ErrorKind::Space, position: w });
        },
    };
    if !(is_byte_at(buf, sign, 43) || is_byte_at(buf, sign, 45)) {
        return Err(ParseError::Syntax { kind: ErrorKind::Tag, position: sign });
    }
    let digits = match space1(buf, sign + 1) {
        Some(digits) => digits,
        None => {
            return Err(ParseError::Syntax { kind: ErrorKind::Space, position: sign + 1 });
        },
    };
    let digits_end = match digits1(buf, digits) {
        Some(end) => end,
        None => {
            return Err(ParseError::Syntax { kind: ErrorKind::Digit, position: digits });
        },
    };
    let unit = skip_ws(buf, digits_end);
    match interval_unit_at(buf, unit) {
        Some(end) => Ok(end),
        None => Err(ParseError::Syntax { kind: ErrorKind::Tag, position: unit }),
    }
}

/// The TTL expression of an engine at `pos`: its text as a range, and its
/// end.
pub fn ttl_expression_at(buf: &[u8], pos: usize) -> (r: Result<((usize, usize), usize), ParseError>)
    requires
        pos <= buf.len(),
    ensures
        agrees_span(r, spec_ttl_expression(buf@, pos as int)),
        r is Ok ==> pos <= r->Ok_0.0.0 <= r->Ok_0.0.1 <= r->Ok_0.1 <= buf.len() && pos
            < r->Ok_0.1,
{
    match ttl_interval_at(buf, pos) {
        Ok(end) => Ok(((pos, end), end)),
        Err(_) => identifier_at(buf, pos),
    }
}

/// Reads the TTL expression of an engine, and gives the rest of the input
/// and the text of the expression.
pub fn ttl_expression<'a>(i: &'a [u8]) -> (r: Result<(&'a [u8], &'a [u8]), ParseError>)
    ensures
        match spec_ttl_expression(i@, 0) {
            Ok(((a, b), end)) => r is Ok && r->Ok_0.0@ == i@.skip(end) && r->Ok_0.1@
                == i@.subrange(a, b),
            Err(e) => r is Err && r->Err_0 == e,
        },
{
    match ttl_expression_at(i, 0) {
        Ok(((a, b), end)) => Ok((slice_subrange(i, end, i.len()), slice_subrange(i, a, b))),
        Err(e) => Err(e),
    }
}

/// The end of `TO`, the word `target`, and a path between single quotes.
pub fn ttl_move_at(buf: &[u8], pos: usize, target: &str) -> (r: Option<usize>)
    requires
        pos <= buf.len(),
    ensures
        agrees_opt(r, spec_ttl_move(buf@, pos as int, lit(target))),
        r is Some ==> pos <= r->0 <= buf.len(),
{
    let w = tag_no_case(buf, pos, "to")?;
    let t = tag_no_case(buf, skip_ws(buf, w), target)?;
    let end = single_quoted_end_at(buf, skip_ws(buf, t))?;
    if skip_ws(buf, w) > w && skip_ws(buf, t) > t {
        Some(end + 1)
    } else {
        None
    }
}

/// The end of the action of a TTL entry at `pos`.
pub fn ttl_action_at(buf: &[u8], pos: usize) -> (r: Option<usize>)
    requires
        pos <= buf.len(),
    ensures
        agrees_opt(r, spec_ttl_action(buf@, pos as int)),
        r is Some ==> pos <= r->0 <= buf.len(),
{
    if let Some(end) = tag_no_case(buf, pos, "delete") {
        Some(end)
    } else if let Some(end) = ttl_move_at(buf, pos, "disk") {
        Some(end)
    } else {
        ttl_move_at(buf, pos, "volume")
    }
}

/// The end of one entry of a TTL clause at `pos`.
pub fn ttl_entry_at(buf: &[u8], pos: usize) -> (r: Result<usize, ParseError>)
    requires
        pos <= buf.len(),
    ensures
        agrees_end(r, spec_ttl_entry(buf@, pos as int)),
        r is Ok ==> pos < r->Ok_0 <= buf.len(),
{
    let (_, end) = ttl_expression_at(buf, pos)?;
    let after = skip_ws(buf, end);
    match ttl_action_at(buf, after) {
        Some(action_end) => Ok(skip_ws(buf, action_end)),
        None => Ok(after),
    }
}

/// The end of the TTL clause of an engine at `pos`.
pub fn engine_merge_tree_ttl_at(buf: &[u8], pos: usize) -> (r: Result<usize, ParseError>)
    requires
        pos <= buf.len(),
    ensures
        agrees_end(r, spec_engine_merge_tree_ttl(buf@, pos as int)),
        r is Ok ==> pos < r->Ok_0 <= buf.len(),
{
    proof {
        reveal_strlit("TTL");
        vstd::utf8::is_ascii_chars_encode_utf8("TTL"@);
    }
    let start = skip_ws(buf, pos);
    let w = match tag_no_case(buf, start, "TTL") {
        Some(w) => w,
        None => {
            return Err(ParseError::Syntax { kind: ErrorKind::Tag, position: start });
        },
    };
    let mut p: usize = ttl_entry_at(buf, skip_ws(buf, w))?;
    loop
        invariant
            pos < p <= buf.len(),
            spec_engine_merge_tree_ttl(buf@, pos as int) == Ok::<int, ParseError>(
                spec_ttl_entries_tail(buf@, p as int),
            ),
        decreases buf.len() - p,
    {
        match sep_comma_at(buf, p) {
            None => {
                return Ok(p);
            },
            Some(next) => match ttl_entry_at(buf, next) {
                Ok(end) => {
                    p = end;
                },
                Err(_) => {
                    return Ok(p);
                },
            },
        }
    }
}

/// The end of a clause of two words and an expression at `pos`.
pub fn by_clause_at(buf: &[u8], pos: usize, first: &str, second: &str) -> (r: Result<
    usize,
    ParseError,
>)
    requires
        pos <= buf.len(),
    ensures
        agrees_end(r, spec_by_clause(buf@, pos as int, lit(first), lit(second))),
        r is Ok ==> pos < r->Ok_0 <= buf.len(),
{
    let a = match space1(buf, pos) {
        Some(a) => a,
        None => {
            return Err(ParseError::Syntax { kind: ErrorKind::Space, position: pos });
        },
    };
    let w1 = match tag_no_case(buf, a, first) {
        Some(w) => w,
        None => {
            return Err(ParseError::Syntax { kind: ErrorKind::Tag, position: a });
        },
    };
    let b = match space1(buf, w1) {
        Some(b) => b,
        None => {
            return Err(ParseError::Syntax { kind: ErrorKind::Space, position: w1 });
        },
    };
    let w2 = match tag_no_case(buf, b, second) {
        Some(w) => w,
        None => {
            return Err(ParseError::Syntax { kind: ErrorKind::Tag, position: b });
        },
    };
    let c = match space1(buf, w2) {
        Some(c) => c,
        None => {
            return Err(ParseError::Syntax { kind: ErrorKind::Space, position: w2 });
        },
    };
    top_expression_at(buf, c)
}

/// The end of `name = digits` at `pos`.
pub fn numeric_setting_at(buf: &[u8], pos: usize, name: &str) -> (r: Option<usize>)
    requires
        pos <= buf.len(),
    ensures
        agrees_opt(r, spec_numeric_setting(buf@, pos as int, lit(name))),
        r is Some ==> pos < r->0 <= buf.len(),
{
    let w = tag_no_case(buf, pos, name)?;
    let eq = skip_ws(buf, w);
    if !is_byte_at(buf, eq, 61) {
        return None;
    }
    digits1(buf, skip_ws(buf, eq + 1))
}

/// The end of `name = 'text'` at `pos`.
pub fn string_setting_at(buf: &[u8], pos: usize, name: &str) -> (r: Option<usize>)
    requires
        pos <= buf.len(),
    ensures
        agrees_opt(r, spec_string_setting(buf@, pos as int, lit(name))),
        r is Some ==> pos < r->0 <= buf.len(),
{
    let w = tag_no_case(buf, pos, name)?;
    let eq = skip_ws(buf, w);
    if !is_byte_at(buf, eq, 61) {
        return None;
    }
    let end = single_quoted_end_at(buf, skip_ws(buf, eq + 1))?;
    Some(end + 1)
}

/// The name of the `k`-th setting whose value is a number.
pub fn numeric_setting(k: usize) -> (r: &'static str)
    requires
        k < NUMERIC_SETTINGS,
    ensures
        lit(r) == numeric_setting_name(k as int),
{
    match k {
        0 => "index_granularity",
        1 => "index_granularity_bytes",
        2 => "enable_mixed_granularity_parts",
        3 => "use_minimalistic_part_header_in_zookeeper",
        4 => "min_merge_bytes_to_use_direct_io",
        5 => "merge_with_ttl_timeout",
        6 => "write_final_mark",
        7 => "merge_max_block_size",
        8 => "min_bytes_for_wide_part",
        _ => "min_rows_for_wide_part",
    }
}

/// The end of one setting at `pos`.
pub fn engine_merge_tree_settings_kv_at(buf: &[u8], pos: usize) -> (r: Result<usize, ParseError>)
    requires
        pos <= buf.len(),
    ensures
        agrees_end(r, spec_engine_merge_tree_settings_kv(buf@, pos as int)),
        r is Ok ==> pos < r->Ok_0 <= buf.len(),
{
    let mut k: usize = 0;
    while k < NUMERIC_SETTINGS
        invariant
            k <= NUMERIC_SETTINGS,
            pos <= buf.len(),
            spec_numeric_settings_from(buf@, pos as int, 0) == spec_numeric_settings_from(
                buf@,
                pos as int,
                k as int,
            ),
        decreases NUMERIC_SETTINGS - k,
    {
        if let Some(end) = numeric_setting_at(buf, pos, numeric_setting(k)) {
            return Ok(end);
        }
        k = k + 1;
    }
    match string_setting_at(buf, pos, "storage_policy") {
        Some(end) => Ok(end),
        None => Err(ParseError::Syntax { kind: ErrorKind::Setting, position: pos }),
    }
}

/// The end of the `SETTINGS` clause at `pos`.
pub fn engine_merge_tree_settings_at(buf: &[u8], pos: usize) -> (r: Result<usize, ParseError>)
    requires
        pos <= buf.len(),
    ensures
        agrees_end(r, spec_engine_merge_tree_settings(buf@, pos as int)),
        r is Ok ==> pos < r->Ok_0 <= buf.len(),
{
    proof {
        reveal_strlit("SETTINGS");
        vstd::utf8::is_ascii_chars_encode_utf8("SETTINGS"@);
    }
    let start = skip_ws(buf, pos);
    let w = match tag_no_case(buf, start, "SETTINGS") {
        Some(w) => w,
        None => {
            return Err(ParseError::Syntax { kind: ErrorKind::Tag, position: start });
        },
    };
    let first = skip_ws(buf, w);
    let mut p: usize = match engine_merge_tree_settings_kv_at(buf, first) {
        Ok(end) => end,
        Err(_) => {
            return Ok(first);
        },
    };
    loop
        invariant
            pos < p <= buf.len(),
            spec_engine_merge_tree_settings(buf@, pos as int) == Ok::<int, ParseError>(
                spec_settings_tail(buf@, p as int),
            ),
        decreases buf.len() - p,
    {
        match sep_comma_at(buf, p) {
            None => {
                return Ok(p);
            },
            Some(next) => match engine_merge_tree_settings_kv_at(buf, next) {
                Ok(end) => {
                    p = end;
                },
                Err(_) => {
                    return Ok(p);
                },
            },
        }
    }
}

/// The end of one clause of a `MergeTree` engine at `pos`.
pub fn engine_clause_at(buf: &[u8], pos: usize) -> (r: Result<usize, ParseError>)
    requires
        pos <= buf.len(),
    ensures
        agrees_end(r, spec_engine_clause(buf@, pos as int)),
        r is Ok ==> pos < r->Ok_0 <= buf.len(),
{
    let r = by_clause_at(buf, pos, "PARTITION", "BY");
    if !gave_up(&r) {
        return r;
    }
    let r = by_clause_at(buf, pos, "ORDER", "BY");
    if !gave_up(&r) {
        return r;
    }
    let r = by_clause_at(buf, pos, "PRIMARY", "KEY");
    if !gave_up(&r) {
        return r;
    }
    let r = by_clause_at(buf, pos, "SAMPLE", "BY");
    if !gave_up(&r) {
        return r;
    }
    let r = engine_merge_tree_ttl_at(buf, pos);
    if !gave_up(&r) {
        return r;
    }
    engine_merge_tree_settings_at(buf, pos)
}

/// The end of the clauses of a `MergeTree` engine from `pos` on.
pub fn engine_clauses_at(buf: &[u8], pos: usize) -> (r: Result<usize, ParseError>)
    requires
        pos <= buf.len(),
    ensures
        agrees_end(r, spec_engine_clauses(buf@, pos as int)),
        r is Ok ==> pos <= r->Ok_0 <= buf.len(),
{
    let mut p: usize = pos;
    loop
        invariant
            pos <= p <= buf.len(),
            spec_engine_clauses(buf@, pos as int) == spec_engine_clauses(buf@, p as int),
        decreases buf.len() - p,
    {
        match engine_clause_at(buf, p) {
            Ok(end) => {
                p = end;
            },
            Err(e) => {
                if e.is_failure() {
                    return Err(e);
                } else {
                    return Ok(p);
                }
            },
        }
    }
}

/// The engine `MergeTree` at `pos`.
pub fn engine_merge_tree_at(buf: &[u8], pos: usize) -> (r: Result<(Engine, usize), ParseError>)
    requires
        pos <= buf.len(),
    ensures
        agrees(r, spec_engine_merge_tree(buf@, pos as int)),
        r is Ok ==> pos <= r->Ok_0.1 <= buf.len(),
{
    match tag_no_case(buf, pos, "MergeTree") {
        None => Err(ParseError::Syntax { kind: ErrorKind::Tag, position: pos }),
        Some(w) => {
            let end = engine_clauses_at(buf, w)?;
            let text = capture(buf, pos, end)?;
            Ok((Engine::MergeTree(EngineMergeTree(text)), end))
        },
    }
}

/// The end of the third parameter of `ReplicatedMergeTree` at `pos`.
pub fn extra_parameter_at(buf: &[u8], pos: usize) -> (r: Result<usize, ParseError>)
    requires
        pos <= buf.len(),
    ensures
        agrees_end(r, spec_extra_parameter(buf@, pos as int)),
        r is Ok ==> pos <= r->Ok_0 <= buf.len(),
{
    let comma = skip_ws(buf, pos);
    if !is_byte_at(buf, comma, 44) {
        return Ok(pos);
    }
    match top_expression_at(buf, skip_ws(buf, comma + 1)) {
        Ok(end) => Ok(end),
        Err(e) => if e.is_failure() {
            Err(e)
        } else {
            Ok(pos)
        },
    }
}

/// The end of the parameters of `ReplicatedMergeTree` at `pos`.
pub fn replicated_parameters_at(buf: &[u8], pos: usize) -> (r: Result<usize, ParseError>)
    requires
        pos <= buf.len(),
    ensures
        agrees_end(r, spec_replicated_parameters(buf@, pos as int)),
        r is Ok ==> pos < r->Ok_0 <= buf.len(),
{
    let open = skip_ws(buf, pos);
    if !is_byte_at(buf, open, 40) {
        return Err(ParseError::Syntax { kind: ErrorKind::Tag, position: open });
    }
    let path_end = top_expression_at(buf, skip_ws(buf, open + 1))?;
    let comma = skip_ws(buf, path_end);
    if !is_byte_at(buf, comma, 44) {
        return Err(ParseError::Syntax { kind: ErrorKind::Tag, position: comma });
    }
    let replica_end = top_expression_at(buf, skip_ws(buf, comma + 1))?;
    let extra_end = extra_parameter_at(buf, replica_end)?;
    let close = skip_ws(buf, extra_end);
    if is_byte_at(buf, close, 41) {
        Ok(close + 1)
    } else {
        Err(ParseError::Syntax { kind: ErrorKind::Tag, position: close })
    }
}

/// The engine `ReplicatedMergeTree` at `pos`.
pub fn engine_replicated_merge_tree_at(buf: &[u8], pos: usize) -> (r: Result<
    (Engine, usize),
    ParseError,
>)
    requires
        pos <= buf.len(),
    ensures
        agrees(r, spec_engine_replicated_merge_tree(buf@, pos as int)),
        r is Ok ==> pos <= r->Ok_0.1 <= buf.len(),
{
    match tag_no_case(buf, pos, "ReplicatedMergeTree") {
        None => Err(ParseError::Syntax { kind: ErrorKind::Tag, position: pos }),
        Some(w) => {
            let close = replicated_parameters_at(buf, w)?;
            let end = engine_clauses_at(buf, close)?;
            let text = capture(buf, pos, end)?;
            Ok((Engine::ReplicatedMergeTree(EngineReplicatedMergeTree(text)), end))
        },
    }
}

/// The schema of a `Distributed` engine at `pos`: the end of its text, and
/// its end.
pub fn distributed_schema_at(buf: &[u8], pos: usize) -> (r: Result<(usize, usize), ParseError>)
    requires
        pos <= buf.len(),
    ensures
        match spec_distributed_schema(buf@, pos as int) {
            Ok((text_end, end)) => r is Ok && r->Ok_0.0 == text_end && r->Ok_0.1 == end,
            Err(e) => r is Err && r->Err_0 == e,
        },
        r is Ok ==> pos <= r->Ok_0.0 <= r->Ok_0.1 <= buf.len(),
{
    match top_expression_at(buf, pos) {
        Ok(end) => Ok((end, end)),
        Err(e) => if e.is_failure() {
            Err(e)
        } else {
            match tag(buf, pos, "''") {
                Some(end) => Ok((pos, end)),
                None => Err(ParseError::Syntax { kind: ErrorKind::Expression, position: pos }),
            }
        },
    }
}

/// The end of the policy name of a `Distributed` engine at `pos`.
pub fn distributed_policy_at(buf: &[u8], pos: usize) -> (r: usize)
    requires
        pos <= buf.len(),
    ensures
        r == spec_distributed_policy(buf@, pos as int),
        pos <= r <= buf.len(),
{
    match sep_comma_at(buf, pos) {
        None => pos,
        Some(next) => match identifier_at(buf, next) {
            Ok((_, end)) => end,
            Err(_) => pos,
        },
    }
}

/// The end of the sharding key and the policy name of a `Distributed`
/// engine at `pos`.
pub fn distributed_sharding_at(buf: &[u8], pos: usize) -> (r: Result<usize, ParseError>)
    requires
        pos <= buf.len(),
    ensures
        agrees_end(r, spec_distributed_sharding(buf@, pos as int)),
        r is Ok ==> pos <= r->Ok_0 <= buf.len(),
{
    match sep_comma_at(buf, pos) {
        None => Ok(pos),
        Some(next) => match top_expression_at(buf, next) {
            Ok(end) => Ok(distributed_policy_at(buf, end)),
            Err(e) => if e.is_failure() {
                Err(e)
            } else {
                Ok(pos)
            },
        },
    }
}

/// The rest of a `Distributed` engine from its table at `pos` on.
pub fn distributed_table_at(
    buf: &[u8],
    cluster: (usize, usize),
    schema: (usize, usize),
    pos: usize,
) -> (r: Result<(Engine, usize), ParseError>)
    requires
        pos <= buf.len(),
        cluster.0 <= cluster.1 <= buf.len(),
        schema.0 <= schema.1 <= buf.len(),
    ensures
        agrees(
            r,
            spec_distributed_table(
                buf@,
                (cluster.0 as int, cluster.1 as int),
                (schema.0 as int, schema.1 as int),
                pos as int,
            ),
        ),
        r is Ok ==> pos < r->Ok_0.1 <= buf.len(),
{
    let table_end = top_expression_at(buf, pos)?;
    let tail_end = distributed_sharding_at(buf, table_end)?;
    let close = skip_ws(buf, tail_end);
    if !is_byte_at(buf, close, 41) {
        return Err(ParseError::Syntax { kind: ErrorKind::Tag, position: close });
    }
    let cluster_name = capture(buf, cluster.0, cluster.1)?;
    let schema = capture(buf, schema.0, schema.1)?;
    let table = capture(buf, pos, table_end)?;
    Ok(
        (
            Engine::Distributed(
                EngineDistributed {
                    cluster_name,
                    schema,
                    table,
                    sharding_key: None,
                    policy_name: None,
                },
            ),
            close + 1,
        ),
    )
}

/// The engine `Distributed` at `pos`.
pub fn engine_distributed_at(buf: &[u8], pos: usize) -> (r: Result<(Engine, usize), ParseError>)
    requires
        pos <= buf.len(),
    ensures
        agrees(r, spec_engine_distributed(buf@, pos as int)),
        r is Ok ==> pos <= r->Ok_0.1 <= buf.len(),
{
    let w = match tag_no_case(buf, pos, "Distributed") {
        Some(w) => w,
        None => {
            return Err(ParseError::Syntax { kind: ErrorKind::Tag, position: pos });
        },
    };
    let open = skip_ws(buf, w);
    if !is_byte_at(buf, open, 40) {
        return Err(ParseError::Syntax { kind: ErrorKind::Tag, position: open });
    }
    let cluster = skip_ws(buf, open + 1);
    let cluster_end = top_expression_at(buf, cluster)?;
    let schema = match sep_comma_at(buf, cluster_end) {
        Some(schema) => schema,
        None => {
            return Err(
                ParseError::Syntax { kind: ErrorKind::Tag, position: skip_ws(buf, cluster_end) },
            );
        },
    };
    let (schema_text_end, schema_end) = distributed_schema_at(buf, schema)?;
    let table = match sep_comma_at(buf, schema_end) {
        Some(table) => table,
        None => {
            return Err(
                ParseError::Syntax { kind: ErrorKind::Tag, position: skip_ws(buf, schema_end) },
            );
        },
    };
    distributed_table_at(buf, (cluster, cluster_end), (schema, schema_text_end), table)
}

/// The engine `Memory` at `pos`.
pub fn engine_memory_at(buf: &[u8], pos: usize) -> (r: Result<(Engine, usize), ParseError>)
    requires
        pos <= buf.len(),
    ensures
        agrees(r, spec_engine_memory(buf@, pos as int)),
        r is Ok ==> pos <= r->Ok_0.1 <= buf.len(),
{
    match tag_no_case(buf, pos, "memory") {
        None => Err(ParseError::Syntax { kind: ErrorKind::Tag, position: pos }),
        Some(end) => Ok((Engine::Memory, end)),
    }
}

/// The engine at `pos`.
pub fn engine_at(buf: &[u8], pos: usize) -> (r: Result<(Engine, usize), ParseError>)
    requires
        pos <= buf.len(),
    ensures
        agrees(r, spec_engine(buf@, pos as int)),
        r is Ok ==> pos <= r->Ok_0.1 <= buf.len(),
{
    proof {
        reveal(spec_engine);
    }
    let r = engine_distributed_at(buf, pos);
    if !gave_up(&r) {
        return r;
    }
    let r = engine_memory_at(buf, pos);
    if !gave_up(&r) {
        return r;
    }
    let r = engine_merge_tree_at(buf, pos);
    if !gave_up(&r) {
        return r;
    }
    let r = engine_replicated_merge_tree_at(buf, pos);
    if !gave_up(&r) {
        return r;
    }
    Err(ParseError::Syntax { kind: ErrorKind::Engine, position: pos })
}

/// Reads an engine, and gives the rest of the input and the engine.
pub fn engine<'a>(i: &'a [u8]) -> (r: Result<(&'a [u8], Engine), ParseError>)
    ensures
        match spec_engine(i@, 0) {
            Ok((e, end)) => r is Ok && r->Ok_0.0@ == i@.skip(end) && r->Ok_0.1@ == e,
            Err(e) => r is Err && r->Err_0 == e,
        },
{
    match engine_at(i, 0) {
        Ok((e, end)) => Ok((slice_subrange(i, end, i.len()), e)),
        Err(e) => Err(e),
    }
}

/// The engine clause at `pos`.
pub fn engine_spec_at(buf: &[u8], pos: usize) -> (r: Result<(Engine, usize), ParseError>)
    requires
        pos <= buf.len(),
    ensures
        agrees(r, spec_engine_spec(buf@, pos as int)),
        r is Ok ==> pos <= r->Ok_0.1 <= buf.len(),
{
    match tag_no_case(buf, pos, "engine") {
        None => Err(ParseError::Syntax { kind: ErrorKind::Tag, position: pos }),
        Some(w) => {
            let eq = skip_ws(buf, w);
            if is_byte_at(buf, eq, 61) {
                engine_at(buf, skip_ws(buf, eq + 1))
            } else {
                Err(ParseError::Syntax { kind: ErrorKind::Tag, position: eq })
            }
        },
    }
}

} // verus!
