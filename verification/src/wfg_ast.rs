//! Syntax tree of a `.wfg` scenario file (stream-first syntax).
//!
//! Strings are kept as written; number literals are kept as their literal
//! text (see [`AttrValue::Number`]) and durations as nanoseconds.

use vstd::prelude::*;

use crate::wfg_model as m;

verus! {

/// The models of a list of syntax-tree values.
pub open spec fn views<T: View>(v: Seq<T>) -> Seq<T::V> {
    v.map_values(|x: T| x@)
}

/// The model of an optional syntax-tree value.
pub open spec fn opt_view<T: View>(o: Option<T>) -> Option<T::V> {
    match o {
        Some(x) => Some(x@),
        None => None,
    }
}

// ---------------------------------------------------------------------------
// Top-level
// ---------------------------------------------------------------------------

/// A complete `.wfg` scenario file.
#[derive(Debug, Clone, PartialEq)]
pub struct WfgFile {
    pub uses: Vec<UseDecl>,
    pub scenario: ScenarioDecl,
    /// The stream-first syntax section (always present for files the parser accepts).
    pub syntax: Option<SyntaxScenario>,
}

impl View for WfgFile {
    type V = m::WfgFile;

    open spec fn view(&self) -> m::WfgFile {
        m::WfgFile {
            uses: views(self.uses@),
            scenario: self.scenario@,
            syntax: opt_view(self.syntax),
        }
    }
}

/// `use "path.wfs"` or `use "path.wfl"`
#[derive(Debug, Clone, PartialEq)]
pub struct UseDecl {
    pub path: String,
}

impl View for UseDecl {
    type V = m::UseDecl;

    open spec fn view(&self) -> m::UseDecl {
        m::UseDecl { path: self.path@ }
    }
}

// ---------------------------------------------------------------------------
// Scenario
// ---------------------------------------------------------------------------

/// The scenario header values derived from the syntax section.
#[derive(Debug, Clone, PartialEq)]
pub struct ScenarioDecl {
    pub name: String,
    pub seed: u64,
    pub time_clause: TimeClause,
    /// Background event budget (`round(Σ eps × duration)`, at least 1).
    pub total: u64,
    pub streams: Vec<StreamBlock>,
}

impl View for ScenarioDecl {
    type V = m::ScenarioDecl;

    open spec fn view(&self) -> m::ScenarioDecl {
        m::ScenarioDecl {
            name: self.name@,
            seed: self.seed,
            time_clause: self.time_clause@,
            total: self.total,
            streams: views(self.streams@),
        }
    }
}

/// Start time and duration of a scenario.
#[derive(Debug, Clone, PartialEq)]
pub struct TimeClause {
    pub start: String,
    /// Nanoseconds.
    pub duration: u64,
}

impl View for TimeClause {
    type V = m::TimeClause;

    open spec fn view(&self) -> m::TimeClause {
        m::TimeClause { start: self.start@, duration: self.duration }
    }
}

// ---------------------------------------------------------------------------
// Stream-first syntax
// ---------------------------------------------------------------------------

/// The stream-first section of a scenario.
#[derive(Debug, Clone, PartialEq)]
pub struct SyntaxScenario {
    /// `#[key=value, ...]` attributes attached to this scenario.
    pub attrs: Vec<ScenarioAttr>,
    /// `scenario name<k=v, ...>` inline annotations.
    pub inline_annos: Vec<ScenarioAttr>,
    pub background: BackgroundBlock,
    pub injection: Option<SyntaxInjectionBlock>,
    /// `replay <window> { use from "file" }` statements, in order.
    pub replays: Vec<ReplayStmt>,
}

impl View for SyntaxScenario {
    type V = m::SyntaxScenario;

    open spec fn view(&self) -> m::SyntaxScenario {
        m::SyntaxScenario {
            attrs: views(self.attrs@),
            inline_annos: views(self.inline_annos@),
            background: self.background@,
            injection: opt_view(self.injection),
            replays: views(self.replays@),
        }
    }
}

/// `key=value` inside `#[...]` or `<...>`.
#[derive(Debug, Clone, PartialEq)]
pub struct ScenarioAttr {
    pub key: String,
    pub value: AttrValue,
}

impl View for ScenarioAttr {
    type V = m::ScenarioAttr;

    open spec fn view(&self) -> m::ScenarioAttr {
        m::ScenarioAttr { key: self.key@, value: self.value@ }
    }
}

/// A value in an annotation or a field predicate.
#[derive(Debug, Clone, PartialEq)]
pub enum AttrValue {
    /// A number literal, exactly as written (`42`, `-1.5`).
    Number(String),
    /// A duration with a unit (`10m`), in nanoseconds.
    Duration(u64),
    String(String),
    Bool(bool),
    /// A structured JSON value (object / array / `null`), exactly as written.
    Json(String),
}

impl View for AttrValue {
    type V = m::AttrValue;

    open spec fn view(&self) -> m::AttrValue {
        match self {
            AttrValue::Number(t) => m::AttrValue::Number(t@),
            AttrValue::Duration(d) => m::AttrValue::Duration(*d),
            AttrValue::String(t) => m::AttrValue::String(t@),
            AttrValue::Bool(b) => m::AttrValue::Bool(*b),
            AttrValue::Json(t) => m::AttrValue::Json(t@),
        }
    }
}

/// `background { ... }`
#[derive(Debug, Clone, PartialEq)]
pub struct BackgroundBlock {
    pub streams: Vec<SyntaxStreamDecl>,
    /// `entity <window>.<field> zipf(...)` declarations.
    pub entities: Vec<EntityDistStmt>,
}

impl View for BackgroundBlock {
    type V = m::BackgroundBlock;

    open spec fn view(&self) -> m::BackgroundBlock {
        m::BackgroundBlock { streams: views(self.streams@), entities: views(self.entities@) }
    }
}

/// `stream NAME gen RATE_EXPR`
#[derive(Debug, Clone, PartialEq)]
pub struct SyntaxStreamDecl {
    pub stream: String,
    pub rate: RateExpr,
}

impl View for SyntaxStreamDecl {
    type V = m::SyntaxStreamDecl;

    open spec fn view(&self) -> m::SyntaxStreamDecl {
        m::SyntaxStreamDecl { stream: self.stream@, rate: self.rate@ }
    }
}

/// `entity <window>.<field> zipf(pool=N, exponent=S, fresh=R)`
#[derive(Debug, Clone, PartialEq)]
pub struct EntityDistStmt {
    pub window: String,
    pub field: String,
    pub pool: u64,
    /// Number literal as written (`1` when omitted).
    pub exponent: String,
    /// Number literal as written (`0` when omitted).
    pub fresh: String,
}

impl View for EntityDistStmt {
    type V = m::EntityDistStmt;

    open spec fn view(&self) -> m::EntityDistStmt {
        m::EntityDistStmt {
            window: self.window@,
            field: self.field@,
            pool: self.pool,
            exponent: self.exponent@,
            fresh: self.fresh@,
        }
    }
}

/// Rate expression of a background stream.
#[derive(Debug, Clone, PartialEq)]
pub enum RateExpr {
    Constant(Rate),
    Wave { base: Rate, amp: Rate, period: u64, shape: WaveShape },
    Burst { base: Rate, peak: Rate, every: u64, hold: u64 },
    Timeline(Vec<TimelineSegment>),
}

impl View for RateExpr {
    type V = m::RateExpr;

    open spec fn view(&self) -> m::RateExpr {
        match self {
            RateExpr::Constant(r) => m::RateExpr::Constant(r@),
            RateExpr::Wave { base, amp, period, shape } => m::RateExpr::Wave {
                base: base@,
                amp: amp@,
                period: *period,
                shape: *shape,
            },
            RateExpr::Burst { base, peak, every, hold } => m::RateExpr::Burst {
                base: base@,
                peak: peak@,
                every: *every,
                hold: *hold,
            },
            RateExpr::Timeline(segs) => m::RateExpr::Timeline(views(segs@)),
        }
    }
}

/// Shape of a `wave(...)` rate.
#[derive(Debug, Clone, Copy, PartialEq, Eq, Structural)]
pub enum WaveShape {
    Sine,
    Triangle,
    Square,
}

impl View for WaveShape {
    type V = WaveShape;

    open spec fn view(&self) -> WaveShape {
        *self
    }
}

/// `START..END=RATE` inside `timeline { ... }` (nanoseconds).
#[derive(Debug, Clone, PartialEq)]
pub struct TimelineSegment {
    pub start: u64,
    pub end: u64,
    pub rate: Rate,
}

impl View for TimelineSegment {
    type V = m::TimelineSegment;

    open spec fn view(&self) -> m::TimelineSegment {
        m::TimelineSegment { start: self.start, end: self.end, rate: self.rate@ }
    }
}

/// `inject { ... }`
#[derive(Debug, Clone, PartialEq)]
pub struct SyntaxInjectionBlock {
    pub cases: Vec<InjectCase>,
}

impl View for SyntaxInjectionBlock {
    type V = m::SyntaxInjectionBlock;

    open spec fn view(&self) -> m::SyntaxInjectionBlock {
        m::SyntaxInjectionBlock { cases: views(self.cases@) }
    }
}

/// `MODE<[field:] N> for RULE STREAM { ... }`: the counts are written down.
#[derive(Debug, Clone, PartialEq)]
pub struct InjectCase {
    pub mode: InjectCaseMode,
    /// Number of entities.
    pub entity_count: u64,
    /// Entity field; `None` = inferred from the rule.
    pub entity_field: Option<String>,
    /// Target rule (`for RULE`).
    pub target_rule: String,
    pub stream: String,
    /// Event groups in step order.
    pub groups: Vec<UseGroup>,
    /// `without(...)` constraints; their position among the groups carries no meaning.
    pub withouts: Vec<WithoutStep>,
    /// `join <window> as <key> { ... }` blocks.
    pub joins: Vec<JoinStmt>,
    /// Time spread window (nanoseconds); `None` = the whole scenario duration.
    pub spread: Option<u64>,
}

impl View for InjectCase {
    type V = m::InjectCase;

    open spec fn view(&self) -> m::InjectCase {
        m::InjectCase {
            mode: self.mode,
            entity_count: self.entity_count,
            entity_field: opt_view(self.entity_field),
            target_rule: self.target_rule@,
            stream: self.stream@,
            groups: views(self.groups@),
            withouts: views(self.withouts@),
            joins: views(self.joins@),
            spread: self.spread,
        }
    }
}

/// `without(preds) [within D]`
#[derive(Debug, Clone, PartialEq)]
pub struct WithoutStep {
    pub predicates: Vec<FieldPredicate>,
    /// Nanoseconds; `None` = the target rule's match window.
    pub within: Option<u64>,
}

impl View for WithoutStep {
    type V = m::WithoutStep;

    open spec fn view(&self) -> m::WithoutStep {
        m::WithoutStep { predicates: views(self.predicates@), within: self.within }
    }
}

/// `join <window> as <key> { use ... x N ... }`
#[derive(Debug, Clone, PartialEq)]
pub struct JoinStmt {
    pub window: String,
    pub key_field: String,
    pub groups: Vec<UseGroup>,
}

impl View for JoinStmt {
    type V = m::JoinStmt;

    open spec fn view(&self) -> m::JoinStmt {
        m::JoinStmt { window: self.window@, key_field: self.key_field@, groups: views(self.groups@) }
    }
}

/// One event group: `use SOURCE x N`.
#[derive(Debug, Clone, PartialEq)]
pub struct UseGroup {
    /// Events per entity for this step.
    pub count: u64,
    pub source: ValueSource,
}

impl View for UseGroup {
    type V = m::UseGroup;

    open spec fn view(&self) -> m::UseGroup {
        m::UseGroup { count: self.count, source: self.source@ }
    }
}

/// Where the field values of an event group come from.
#[derive(Debug, Clone, PartialEq)]
pub enum ValueSource {
    /// `use(field=value, ...)`
    Predicates(Vec<FieldPredicate>),
    /// `use({...})`: a whole JSON object, as written.
    Json(String),
    /// `use from "path"`
    File(String),
}

impl View for ValueSource {
    type V = m::ValueSource;

    open spec fn view(&self) -> m::ValueSource {
        match self {
            ValueSource::Predicates(p) => m::ValueSource::Predicates(views(p@)),
            ValueSource::Json(t) => m::ValueSource::Json(t@),
            ValueSource::File(t) => m::ValueSource::File(t@),
        }
    }
}

/// Injection mode.
#[derive(Debug, Clone, Copy, PartialEq, Eq, Structural)]
pub enum InjectCaseMode {
    Hit,
    NearMiss,
    Miss,
}

impl View for InjectCaseMode {
    type V = InjectCaseMode;

    open spec fn view(&self) -> InjectCaseMode {
        *self
    }
}

/// `field = value`
#[derive(Debug, Clone, PartialEq)]
pub struct FieldPredicate {
    pub field: String,
    pub value: AttrValue,
}

impl View for FieldPredicate {
    type V = m::FieldPredicate;

    open spec fn view(&self) -> m::FieldPredicate {
        m::FieldPredicate { field: self.field@, value: self.value@ }
    }
}

/// `replay <window> { use from "file" }`
#[derive(Debug, Clone, PartialEq)]
pub struct ReplayStmt {
    pub window: String,
    pub file: String,
    /// The file's records once loaded (JSON text); the parser leaves it `None`.
    pub records: Option<String>,
}

impl View for ReplayStmt {
    type V = m::ReplayStmt;

    open spec fn view(&self) -> m::ReplayStmt {
        m::ReplayStmt { window: self.window@, file: self.file@, records: opt_view(self.records) }
    }
}

// ---------------------------------------------------------------------------
// Rate
// ---------------------------------------------------------------------------

/// Event rate, e.g. `100/s`, `50/m`, `10/h`.
#[derive(Debug, Clone, Copy, PartialEq, Eq, Structural)]
pub struct Rate {
    pub count: u64,
    pub unit: RateUnit,
}

impl View for Rate {
    type V = m::Rate;

    open spec fn view(&self) -> m::Rate {
        m::Rate { count: self.count, unit: self.unit }
    }
}

/// Unit of a [`Rate`].
#[derive(Debug, Clone, Copy, PartialEq, Eq, Structural)]
pub enum RateUnit {
    PerSecond,
    PerMinute,
    PerHour,
}

impl View for RateUnit {
    type V = RateUnit;

    open spec fn view(&self) -> RateUnit {
        *self
    }
}

/// Background stream of the scenario header (derived from the syntax section).
#[derive(Debug, Clone, PartialEq)]
pub struct StreamBlock {
    pub alias: String,
    pub window: String,
    pub rate: Rate,
}

impl View for StreamBlock {
    type V = m::StreamBlock;

    open spec fn view(&self) -> m::StreamBlock {
        m::StreamBlock { alias: self.alias@, window: self.window@, rate: self.rate@ }
    }
}

/// Supported fault types for temporal perturbation.
#[derive(Debug, Clone, Copy, PartialEq, Eq, Hash, Structural)]
pub enum FaultType {
    /// Swap adjacent events' arrival order.
    OutOfOrder,
    /// Delay event arrival position (across watermark boundary).
    Late,
    /// Clone event and insert a duplicate.
    Duplicate,
    /// Remove event from the output stream.
    Drop,
}

/// The name a fault type is written with.
pub open spec fn fault_type_name(f: FaultType) -> Seq<char> {
    match f {
        FaultType::OutOfOrder => "out_of_order"@,
        FaultType::Late => "late"@,
        FaultType::Duplicate => "duplicate"@,
        FaultType::Drop => "drop"@,
    }
}

impl FaultType {
    /// The name this fault type is written with.
    pub fn name(&self) -> (r: &'static str)
        ensures
            r@ == fault_type_name(*self),
    {
        match self {
            FaultType::OutOfOrder => "out_of_order",
            FaultType::Late => "late",
            FaultType::Duplicate => "duplicate",
            FaultType::Drop => "drop",
        }
    }
}

} // verus!
