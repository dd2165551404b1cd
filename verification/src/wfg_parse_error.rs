//! Failures of the `.wfg` parser: whether they commit (a "cut") and what was
//! expected at the point of failure.

use vstd::prelude::*;

verus! {

/// What the parser expected where it failed.
#[derive(Debug, Clone, Copy, PartialEq, Eq, Structural)]
pub enum Expected {
    UsePath,
    ScenarioKeyword,
    ScenarioName,
    AnnotationOpen,
    AnnotationClose,
    InlineOpen,
    InlineClose,
    AnnotationEquals,
    BodyOpen,
    LegacyTraffic,
    LegacyInjection,
    BodyItem,
    BackgroundRequired,
    BackgroundOpen,
    EntityWindow,
    EntityField,
    EntityZipf,
    ZipfUnknownParam,
    ZipfMissingPool,
    StreamKeyword,
    StreamName,
    GenKeyword,
    RateExpression,
    InjectionOpen,
    InjectionMode,
    EntityCount,
    LegacyPercent,
    ForRule,
    TargetRule,
    CaseStream,
    EventGroup,
    StepCount,
    FilePath,
    PredicateField,
    LegacySeq,
    LegacyWith,
    LegacyNot,
    JoinWindow,
    JoinAs,
    JoinKey,
    ReplayWindow,
    ReplayOpen,
    ReplayUse,
    ReplaySource,
    ReplayCount,
    ReplayClose,
}

/// A parse failure. A cut failure commits: no alternative is tried after it.
#[derive(Debug, Clone, Copy, PartialEq, Eq, Structural)]
pub struct PErr {
    pub cut: bool,
    pub expected: Option<Expected>,
}

/// A failure that lets the caller try an alternative.
pub open spec fn backtrack() -> PErr {
    PErr { cut: false, expected: None }
}

/// A committed failure that names what was expected.
pub open spec fn cut_with(e: Expected) -> PErr {
    PErr { cut: true, expected: Some(e) }
}

/// A committed failure with nothing more to say.
pub open spec fn cut_plain() -> PErr {
    PErr { cut: true, expected: None }
}

/// `cut_err(p).context(e)`: the failure commits, and keeps what it already names.
pub open spec fn commit(err: PErr, e: Option<Expected>) -> PErr {
    PErr {
        cut: true,
        expected: match err.expected {
            Some(x) => Some(x),
            None => e,
        },
    }
}

/// The description of what was expected.
pub open spec fn expected_text(e: Expected) -> Seq<char> {
    match e {
        Expected::UsePath => "quoted path after 'use'"@,
        Expected::ScenarioKeyword => "'scenario' declaration"@,
        Expected::ScenarioName => "scenario name"@,
        Expected::AnnotationOpen => "scenario annotation '#['"@,
        Expected::AnnotationClose => "closing ']' for scenario annotation"@,
        Expected::InlineOpen => "opening '<' for inline annotations"@,
        Expected::InlineClose => "closing '>' for inline annotations"@,
        Expected::AnnotationEquals => "'=' in annotation"@,
        Expected::BodyOpen => "opening brace for scenario body"@,
        Expected::LegacyTraffic => "VN20 旧注入语法已移除：块关键字 `traffic` 已改名为 `background`（只描述背景流量）。请把 `traffic { … }` 改写为 `background { … }`。"@,
        Expected::LegacyInjection => "VN20 旧注入语法已移除：块关键字 `injection` 已改名为 `inject`（`background` / `inject` 两个块名成对）。请把 `injection { … }` 改写为 `inject { … }`。"@,
        Expected::BodyItem => "background, inject, replay, or closing brace"@,
        Expected::BackgroundRequired => "background block"@,
        Expected::BackgroundOpen => "opening brace for background block"@,
        Expected::EntityWindow => "window name after `entity`"@,
        Expected::EntityField => "field name after `entity <window>.`"@,
        Expected::EntityZipf => "`zipf(...)` after `entity <window>.<field>`"@,
        Expected::ZipfUnknownParam => "zipf(...) 只认 `pool` / `exponent` / `fresh` 三个参数"@,
        Expected::ZipfMissingPool => "zipf(...) 缺少必填参数 `pool=N`"@,
        Expected::StreamKeyword => "'stream' in background block"@,
        Expected::StreamName => "stream name"@,
        Expected::GenKeyword => "'gen' keyword"@,
        Expected::RateExpression => "rate expression"@,
        Expected::InjectionOpen => "opening brace for injection block"@,
        Expected::InjectionMode => "injection mode (hit, near_miss, miss)"@,
        Expected::EntityCount => "entity count (`hit<500>`, or `hit<sip: 500>` with an explicit entity field)"@,
        Expected::LegacyPercent => "VN20 旧注入语法已移除：`hit<N%>` 里的 N 是 stream 配额的百分比，实际数量由「配额 × 比例 ÷ 每实体条数」推出，与「数量写在用例里」不能共存。请改写为显式的实体个数与每实体条数，例如 `hit<sip: 500> for RULE STREAM { use(...) x 12 }`；实体个数 ≈ round(配额 × N%) ÷ 每实体条数。"@,
        Expected::ForRule => "`for RULE` after `mode<count>` (required in the new syntax)"@,
        Expected::TargetRule => "target rule name in injection case"@,
        Expected::CaseStream => "stream name in injection case"@,
        Expected::EventGroup => "use(...) / use({...}) / use from <file> event group"@,
        Expected::StepCount => "`x N` (events per entity for this step) after the value source"@,
        Expected::FilePath => "JSON/NDJSON file path after `from`"@,
        Expected::PredicateField => "predicate field"@,
        Expected::LegacySeq => "VN20 旧注入语法已移除：`<field> seq { … }` 块已删除。实体字段写在用例头（`hit<sip: 500>`），事件组直接写在用例体里：`use(...) x N`。"@,
        Expected::LegacyWith => "VN20 旧注入语法已移除：条数写法 `with(N)` 已改为 `x N`（每实体条数），例如 `use(login=\"failed\") x 3`。"@,
        Expected::LegacyNot => "VN20 旧注入语法已移除：否定步骤 `not(...) within(...)` 已改为构造约束 `without(...) [within D]`。"@,
        Expected::JoinWindow => "target window after `join`"@,
        Expected::JoinAs => "`as <key>` after `join <window>`"@,
        Expected::JoinKey => "join key field after `as`"@,
        Expected::ReplayWindow => "target stream (window name) after `replay`"@,
        Expected::ReplayOpen => "opening brace of the replay body"@,
        Expected::ReplayUse => "use from \"<file>\""@,
        Expected::ReplaySource => "VN20 语法错误：`replay` 的值来源只能是文件（`use from \"path\"`）。内联值（`use(...)` / `use({...})`）请改用 `inject`。"@,
        Expected::ReplayCount => "VN20 语法错误：`replay` 不写条数——文件有多少条就发多少条。需要按实体定向构造（含 `x N`）请改用 `inject`。"@,
        Expected::ReplayClose => "closing brace of the replay body"@,
    }
}

/// The description of what was expected.
pub fn expected_message(e: Expected) -> (r: String)
    ensures
        r@ == expected_text(e),
{
    let t: &str = match e {
        Expected::UsePath => "quoted path after 'use'",
        Expected::ScenarioKeyword => "'scenario' declaration",
        Expected::ScenarioName => "scenario name",
        Expected::AnnotationOpen => "scenario annotation '#['",
        Expected::AnnotationClose => "closing ']' for scenario annotation",
        Expected::InlineOpen => "opening '<' for inline annotations",
        Expected::InlineClose => "closing '>' for inline annotations",
        Expected::AnnotationEquals => "'=' in annotation",
        Expected::BodyOpen => "opening brace for scenario body",
        Expected::LegacyTraffic => "VN20 旧注入语法已移除：块关键字 `traffic` 已改名为 `background`（只描述背景流量）。请把 `traffic { … }` 改写为 `background { … }`。",
        Expected::LegacyInjection => "VN20 旧注入语法已移除：块关键字 `injection` 已改名为 `inject`（`background` / `inject` 两个块名成对）。请把 `injection { … }` 改写为 `inject { … }`。",
        Expected::BodyItem => "background, inject, replay, or closing brace",
        Expected::BackgroundRequired => "background block",
        Expected::BackgroundOpen => "opening brace for background block",
        Expected::EntityWindow => "window name after `entity`",
        Expected::EntityField => "field name after `entity <window>.`",
        Expected::EntityZipf => "`zipf(...)` after `entity <window>.<field>`",
        Expected::ZipfUnknownParam => "zipf(...) 只认 `pool` / `exponent` / `fresh` 三个参数",
        Expected::ZipfMissingPool => "zipf(...) 缺少必填参数 `pool=N`",
        Expected::StreamKeyword => "'stream' in background block",
        Expected::StreamName => "stream name",
        Expected::GenKeyword => "'gen' keyword",
        Expected::RateExpression => "rate expression",
        Expected::InjectionOpen => "opening brace for injection block",
        Expected::InjectionMode => "injection mode (hit, near_miss, miss)",
        Expected::EntityCount => "entity count (`hit<500>`, or `hit<sip: 500>` with an explicit entity field)",
        Expected::LegacyPercent => "VN20 旧注入语法已移除：`hit<N%>` 里的 N 是 stream 配额的百分比，实际数量由「配额 × 比例 ÷ 每实体条数」推出，与「数量写在用例里」不能共存。请改写为显式的实体个数与每实体条数，例如 `hit<sip: 500> for RULE STREAM { use(...) x 12 }`；实体个数 ≈ round(配额 × N%) ÷ 每实体条数。",
        Expected::ForRule => "`for RULE` after `mode<count>` (required in the new syntax)",
        Expected::TargetRule => "target rule name in injection case",
        Expected::CaseStream => "stream name in injection case",
        Expected::EventGroup => "use(...) / use({...}) / use from <file> event group",
        Expected::StepCount => "`x N` (events per entity for this step) after the value source",
        Expected::FilePath => "JSON/NDJSON file path after `from`",
        Expected::PredicateField => "predicate field",
        Expected::LegacySeq => "VN20 旧注入语法已移除：`<field> seq { … }` 块已删除。实体字段写在用例头（`hit<sip: 500>`），事件组直接写在用例体里：`use(...) x N`。",
        Expected::LegacyWith => "VN20 旧注入语法已移除：条数写法 `with(N)` 已改为 `x N`（每实体条数），例如 `use(login=\"failed\") x 3`。",
        Expected::LegacyNot => "VN20 旧注入语法已移除：否定步骤 `not(...) within(...)` 已改为构造约束 `without(...) [within D]`。",
        Expected::JoinWindow => "target window after `join`",
        Expected::JoinAs => "`as <key>` after `join <window>`",
        Expected::JoinKey => "join key field after `as`",
        Expected::ReplayWindow => "target stream (window name) after `replay`",
        Expected::ReplayOpen => "opening brace of the replay body",
        Expected::ReplayUse => "use from \"<file>\"",
        Expected::ReplaySource => "VN20 语法错误：`replay` 的值来源只能是文件（`use from \"path\"`）。内联值（`use(...)` / `use({...})`）请改用 `inject`。",
        Expected::ReplayCount => "VN20 语法错误：`replay` 不写条数——文件有多少条就发多少条。需要按实体定向构造（含 `x N`）请改用 `inject`。",
        Expected::ReplayClose => "closing brace of the replay body",
    };
    String::from_str(t)
}

} // verus!
