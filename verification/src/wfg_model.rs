//! Mathematical model of the `.wfg` syntax tree: the same shapes as
//! [`crate::wfg_ast`], with strings as `Seq<char>` and lists as `Seq`.
//! Every type of the syntax tree views as its model here.

use vstd::prelude::*;

use crate::wfg_ast::{InjectCaseMode, RateUnit, WaveShape};

verus! {

pub struct UseDecl {
    pub path: Seq<char>,
}

pub struct TimeClause {
    pub start: Seq<char>,
    /// Nanoseconds.
    pub duration: u64,
}

pub struct Rate {
    pub count: u64,
    pub unit: RateUnit,
}

pub struct StreamBlock {
    pub alias: Seq<char>,
    pub window: Seq<char>,
    pub rate: Rate,
}

pub struct ScenarioDecl {
    pub name: Seq<char>,
    pub seed: u64,
    pub time_clause: TimeClause,
    pub total: u64,
    pub streams: Seq<StreamBlock>,
}

pub enum AttrValue {
    /// A number literal, as written.
    Number(Seq<char>),
    /// Nanoseconds.
    Duration(u64),
    String(Seq<char>),
    Bool(bool),
    /// A JSON value, as written.
    Json(Seq<char>),
}

pub struct ScenarioAttr {
    pub key: Seq<char>,
    pub value: AttrValue,
}

pub struct TimelineSegment {
    pub start: u64,
    pub end: u64,
    pub rate: Rate,
}

pub enum RateExpr {
    Constant(Rate),
    Wave { base: Rate, amp: Rate, period: u64, shape: WaveShape },
    Burst { base: Rate, peak: Rate, every: u64, hold: u64 },
    Timeline(Seq<TimelineSegment>),
}

pub struct SyntaxStreamDecl {
    pub stream: Seq<char>,
    pub rate: RateExpr,
}

pub struct EntityDistStmt {
    pub window: Seq<char>,
    pub field: Seq<char>,
    pub pool: u64,
    pub exponent: Seq<char>,
    pub fresh: Seq<char>,
}

pub struct BackgroundBlock {
    pub streams: Seq<SyntaxStreamDecl>,
    pub entities: Seq<EntityDistStmt>,
}

pub struct FieldPredicate {
    pub field: Seq<char>,
    pub value: AttrValue,
}

pub enum ValueSource {
    Predicates(Seq<FieldPredicate>),
    Json(Seq<char>),
    File(Seq<char>),
}

pub struct UseGroup {
    pub count: u64,
    pub source: ValueSource,
}

pub struct WithoutStep {
    pub predicates: Seq<FieldPredicate>,
    pub within: Option<u64>,
}

pub struct JoinStmt {
    pub window: Seq<char>,
    pub key_field: Seq<char>,
    pub groups: Seq<UseGroup>,
}

pub struct InjectCase {
    pub mode: InjectCaseMode,
    pub entity_count: u64,
    pub entity_field: Option<Seq<char>>,
    pub target_rule: Seq<char>,
    pub stream: Seq<char>,
    pub groups: Seq<UseGroup>,
    pub withouts: Seq<WithoutStep>,
    pub joins: Seq<JoinStmt>,
    pub spread: Option<u64>,
}

pub struct SyntaxInjectionBlock {
    pub cases: Seq<InjectCase>,
}

pub struct ReplayStmt {
    pub window: Seq<char>,
    pub file: Seq<char>,
    pub records: Option<Seq<char>>,
}

pub struct SyntaxScenario {
    pub attrs: Seq<ScenarioAttr>,
    pub inline_annos: Seq<ScenarioAttr>,
    pub background: BackgroundBlock,
    pub injection: Option<SyntaxInjectionBlock>,
    pub replays: Seq<ReplayStmt>,
}

pub struct WfgFile {
    pub uses: Seq<UseDecl>,
    pub scenario: ScenarioDecl,
    pub syntax: Option<SyntaxScenario>,
}

} // verus!
