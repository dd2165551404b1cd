//! Static checks of a parsed `.wfg` scenario against the window schemas and
//! the rules it injects for.
//!
//! Each check reports a [`ValidationError`] with its code (`VN1` ... `VN25`);
//! the list comes in a fixed order: background, then each injection case,
//! then the rules that are missing.

use vstd::prelude::*;

use crate::json_text::{JsonLayout, JsonLayoutModel, json_layout, json_layout_of, visible_entries, visible_entries_of};
use crate::text::{dec_text, decimal, duration_text, push_duration, str_is};
use crate::wfg_ast::{
    AttrValue, BackgroundBlock, FieldPredicate, InjectCase, SyntaxStreamDecl, UseGroup,
    ValueSource, WfgFile, WithoutStep, opt_view, views,
};
use crate::wfg_grammar::stream_per_hour;
use crate::wfg_model as m;

verus! {

broadcast use vstd::string::group_string_axioms;

// ---------------------------------------------------------------------------
// Inputs: what the checks read of schemas and rules
// ---------------------------------------------------------------------------

/// A window schema: its name and the names of its fields.
#[derive(Debug, Clone, PartialEq)]
pub struct SchemaInfo {
    pub name: String,
    pub fields: Vec<String>,
}

pub struct SchemaModel {
    pub name: Seq<char>,
    pub fields: Seq<Seq<char>>,
}

impl View for SchemaInfo {
    type V = SchemaModel;

    open spec fn view(&self) -> SchemaModel {
        SchemaModel { name: self.name@, fields: views(self.fields@) }
    }
}

/// A field reference of a rule (`f`, `alias.f`, `alias["f"]`, or another form).
#[derive(Debug, Clone, PartialEq)]
pub enum FieldRefInfo {
    Simple(String),
    Qualified(String, String),
    Bracketed(String, String),
    Other,
}

pub enum FieldRefModel {
    Simple(Seq<char>),
    Qualified(Seq<char>, Seq<char>),
    Bracketed(Seq<char>, Seq<char>),
    Other,
}

impl View for FieldRefInfo {
    type V = FieldRefModel;

    open spec fn view(&self) -> FieldRefModel {
        match self {
            FieldRefInfo::Simple(n) => FieldRefModel::Simple(n@),
            FieldRefInfo::Qualified(a, n) => FieldRefModel::Qualified(a@, n@),
            FieldRefInfo::Bracketed(a, n) => FieldRefModel::Bracketed(a@, n@),
            FieldRefInfo::Other => FieldRefModel::Other,
        }
    }
}

/// The shape of a rule, as far as the checks read it.
#[derive(Debug, Clone, PartialEq)]
pub struct RuleInfo {
    pub name: String,
    /// The rule has an `on each` clause.
    pub has_each: bool,
    /// The rule has a `stats` clause.
    pub has_stats: bool,
    /// The `entity(...)` id expression, when it is a single field.
    pub entity_field: Option<FieldRefInfo>,
    /// For a `match ... on event seq { ... }` chain: for each step, whether it is negated.
    pub seq_steps: Option<Vec<bool>>,
    /// The number of `on event` steps of a plain `match`.
    pub on_event_steps: u64,
    /// The source fields of an explicit key mapping.
    pub key_mapping: Option<Vec<FieldRefInfo>>,
    /// The `match<...>` keys.
    pub keys: Vec<FieldRefInfo>,
}

pub struct RuleModel {
    pub name: Seq<char>,
    pub has_each: bool,
    pub has_stats: bool,
    pub entity_field: Option<FieldRefModel>,
    pub seq_steps: Option<Seq<bool>>,
    pub on_event_steps: u64,
    pub key_mapping: Option<Seq<FieldRefModel>>,
    pub keys: Seq<FieldRefModel>,
}

impl View for RuleInfo {
    type V = RuleModel;

    open spec fn view(&self) -> RuleModel {
        RuleModel {
            name: self.name@,
            has_each: self.has_each,
            has_stats: self.has_stats,
            entity_field: opt_view(self.entity_field),
            seq_steps: match self.seq_steps {
                Some(v) => Some(v@),
                None => None,
            },
            on_event_steps: self.on_event_steps,
            key_mapping: match self.key_mapping {
                Some(v) => Some(views(v@)),
                None => None,
            },
            keys: views(self.keys@),
        }
    }
}

/// A validation error: its code and message.
#[derive(Debug, Clone, PartialEq)]
pub struct ValidationError {
    pub code: String,
    pub message: String,
}

pub struct ErrorModel {
    pub code: Seq<char>,
    pub message: Seq<char>,
}

impl View for ValidationError {
    type V = ErrorModel;

    open spec fn view(&self) -> ErrorModel {
        ErrorModel { code: self.code@, message: self.message@ }
    }
}

impl ValidationError {
    /// `[CODE] message`
    pub fn to_string(&self) -> (r: String)
        ensures
            r@ == seq!['['] + self.code@ + seq![']', ' '] + self.message@,
    {
        let mut out = String::new();
        crate::wfg_lexer::push_char(&mut out, '[');
        out.append(self.code.as_str());
        crate::wfg_lexer::push_char(&mut out, ']');
        crate::wfg_lexer::push_char(&mut out, ' ');
        out.append(self.message.as_str());
        assert(out@ =~= seq!['['] + self.code@ + seq![']', ' '] + self.message@);
        out
    }
}

// ---------------------------------------------------------------------------
// Rules
// ---------------------------------------------------------------------------

/// The field name of a field reference (empty for other forms).
pub open spec fn field_ref_name(fr: FieldRefModel) -> Seq<char> {
    match fr {
        FieldRefModel::Simple(n) => n,
        FieldRefModel::Qualified(_, n) => n,
        FieldRefModel::Bracketed(_, n) => n,
        FieldRefModel::Other => Seq::empty(),
    }
}

/// The leaf field of a reference, when it has a name.
pub open spec fn leaf_name(fr: FieldRefModel) -> Option<Seq<char>> {
    if field_ref_name(fr).len() > 0 {
        Some(field_ref_name(fr))
    } else {
        None
    }
}

/// The number of steps that are not negated.
pub open spec fn positive_steps(steps: Seq<bool>) -> nat
    decreases steps.len(),
{
    if steps.len() == 0 {
        0
    } else {
        positive_steps(steps.drop_last()) + if steps.last() {
            0nat
        } else {
            1nat
        }
    }
}

/// How many event steps of a rule can be injected: 1 for `on each`, 0 for
/// `stats`, the non-negated chain steps of `on event seq`, otherwise the
/// `on event` steps.
pub open spec fn injectable_steps(r: RuleModel) -> nat {
    if r.has_each {
        1
    } else if r.has_stats {
        0
    } else {
        match r.seq_steps {
            Some(st) => positive_steps(st),
            None => r.on_event_steps as nat,
        }
    }
}

/// The single field a rule's entity is inferred from, when there is one.
pub open spec fn inferred_field(r: RuleModel) -> Option<Seq<char>> {
    if r.has_each {
        match r.entity_field {
            Some(fr) => leaf_name(fr),
            None => None,
        }
    } else {
        match r.key_mapping {
            Some(mapping) => if mapping.len() == 1 {
                leaf_name(mapping[0])
            } else {
                None
            },
            None => if r.keys.len() == 1 {
                leaf_name(r.keys[0])
            } else {
                None
            },
        }
    }
}

/// The field name of a field reference (empty for other forms).
pub fn field_ref_field_name(fr: &FieldRefInfo) -> (r: &str)
    ensures
        r@ == field_ref_name(fr@),
{
    proof {
        reveal_strlit("");
    }
    match fr {
        FieldRefInfo::Simple(n) => n.as_str(),
        FieldRefInfo::Qualified(_, n) => n.as_str(),
        FieldRefInfo::Bracketed(_, n) => n.as_str(),
        FieldRefInfo::Other => "",
    }
}

fn leaf_name_of(fr: &FieldRefInfo) -> (r: Option<String>)
    ensures
        opt_view(r) == leaf_name(fr@),
{
    let name = field_ref_field_name(fr);
    if name.unicode_len() > 0 {
        Some(String::from_str(name))
    } else {
        proof {
            reveal_strlit("");
        }
        None
    }
}

/// How many event steps of a rule can be injected.
pub fn injectable_step_count(rule: &RuleInfo) -> (n: u64)
    ensures
        n == injectable_steps(rule@),
{
    if rule.has_each {
        return 1;
    }
    if rule.has_stats {
        return 0;
    }
    match &rule.seq_steps {
        Some(steps) => {
            let mut n: u64 = 0;
            let mut i: usize = 0;
            while i < steps.len()
                invariant
                    i <= steps.len(),
                    n == positive_steps(steps@.take(i as int)),
                    n <= i,
                decreases steps.len() - i,
            {
                assert(steps@.take(i as int + 1).drop_last() =~= steps@.take(i as int));
                if !steps[i] {
                    n = n + 1;
                }
                i = i + 1;
            }
            assert(steps@.take(i as int) =~= steps@);
            n
        },
        None => rule.on_event_steps,
    }
}

/// The single field a rule's entity is inferred from, when there is one.
pub fn inferred_entity_field(rule: &RuleInfo) -> (r: Option<String>)
    ensures
        opt_view(r) == inferred_field(rule@),
{
    if rule.has_each {
        return match &rule.entity_field {
            Some(fr) => leaf_name_of(fr),
            None => None,
        };
    }
    match &rule.key_mapping {
        Some(mapping) => {
            if mapping.len() == 1 {
                leaf_name_of(&mapping[0])
            } else {
                None
            }
        },
        None => {
            if rule.keys.len() == 1 {
                leaf_name_of(&rule.keys[0])
            } else {
                None
            }
        },
    }
}

// ---------------------------------------------------------------------------
// Messages
// ---------------------------------------------------------------------------

pub open spec fn err(code: Seq<char>, message: Seq<char>) -> ErrorModel {
    ErrorModel { code, message }
}

pub open spec fn case_prefix(stream: Seq<char>) -> Seq<char> {
    "injection case '"@ + stream
}

pub open spec fn msg_vn2(stream: Seq<char>) -> Seq<char> {
    "stream '"@ + stream + "': rate must be greater than 0"@
}

pub open spec fn msg_vn3(stream: Seq<char>) -> Seq<char> {
    "stream '"@ + stream + "' not found in loaded schemas (.wfs windows)"@
}

pub open spec fn msg_vn10(stream: Seq<char>) -> Seq<char> {
    "injection case stream '"@ + stream + "' is not declared in background"@
}

pub open spec fn msg_no_entities(stream: Seq<char>) -> Seq<char> {
    case_prefix(stream) + "' 实体个数必须大于 0（hit<0>）"@
}

pub open spec fn msg_no_groups(stream: Seq<char>) -> Seq<char> {
    case_prefix(stream) + "' 至少需要一个 `use ... x N` 事件组"@
}

pub open spec fn msg_spread(stream: Seq<char>, spread: u64, duration: u64) -> Seq<char> {
    case_prefix(stream) + "' spread "@ + duration_text(spread) + " 超过场景 duration "@ + duration_text(
        duration,
    )
}

pub open spec fn msg_within(stream: Seq<char>, idx: nat, within: u64, duration: u64) -> Seq<char> {
    case_prefix(stream) + "' 第 "@ + dec_text(idx + 1) + " 个 without 的 within "@ + duration_text(
        within,
    ) + " 超过场景 duration "@ + duration_text(duration)
}

pub open spec fn msg_vn22(stream: Seq<char>, field: Seq<char>, schema: Seq<char>) -> Seq<char> {
    case_prefix(stream) + "' 实体字段 '"@ + field + "' 不在 stream '"@ + stream + "' 的 schema '"@
        + schema + "' 里"@
}

pub open spec fn msg_vn23(stream: Seq<char>, field: Seq<char>, rule: Seq<char>, inferred: Seq<char>) -> Seq<char> {
    case_prefix(stream) + "' 显式实体字段 '"@ + field + "' 与规则 '"@ + rule + "' 推断的实体字段 '"@
        + inferred + "' 不一致（去掉显式字段即用推断值；多 key 规则才需要显式消歧）"@
}

pub open spec fn msg_vn24(stream: Seq<char>, groups: nat, rule: Seq<char>, steps: nat) -> Seq<char> {
    case_prefix(stream) + "' 的 use 事件组数 "@ + dec_text(groups) + " 超过规则 '"@ + rule
        + "' 的事件步骤数 "@ + dec_text(steps) + "（每个 `use ... x N` 对应一个步骤）"@
}

pub open spec fn msg_zero_count(stream: Seq<char>, idx: nat) -> Seq<char> {
    case_prefix(stream) + "' 第 "@ + dec_text(idx + 1) + " 个事件组 x 0：每个实体的条数必须大于 0"@
}

pub open spec fn msg_item_not_object(stream: Seq<char>, idx: nat, item: nat) -> Seq<char> {
    case_prefix(stream) + "' 第 "@ + dec_text(idx + 1) + " 个事件组 use({...}) 的记录数组第 "@
        + dec_text(item + 1) + " 个元素不是 JSON object"@
}

pub open spec fn msg_empty_records(stream: Seq<char>, idx: nat) -> Seq<char> {
    case_prefix(stream) + "' 第 "@ + dec_text(idx + 1) + " 个事件组 use({...}) 的记录数组为空"@
}

pub open spec fn msg_bad_top(stream: Seq<char>, idx: nat) -> Seq<char> {
    case_prefix(stream) + "' 第 "@ + dec_text(idx + 1)
        + " 个事件组 use({...}) 的顶层必须是 JSON object 或 object 数组"@
}

pub open spec fn msg_vn9(stream: Seq<char>, idx: nat, field: Seq<char>, kind: Seq<char>) -> Seq<char> {
    case_prefix(stream) + "' step "@ + dec_text(idx) + " has duplicate field '"@ + field + "' in "@
        + kind
}

pub open spec fn msg_vn12(stream: Seq<char>, idx: nat, field: Seq<char>, kind: Seq<char>) -> Seq<char> {
    case_prefix(stream) + "' step "@ + dec_text(idx) + " repeats entity field '"@ + field
        + "' in "@ + kind
}

pub open spec fn msg_vn11(stream: Seq<char>, idx: nat, field: Seq<char>, schema: Seq<char>) -> Seq<char> {
    case_prefix(stream) + "' step "@ + dec_text(idx) + " field '"@ + field
        + "' not found in schema '"@ + schema + "'"@
}

pub open spec fn msg_vn14(stream: Seq<char>, rule: Seq<char>) -> Seq<char> {
    case_prefix(stream) + "' targets rule '"@ + rule + "' not found in WFL files"@
}

// ---------------------------------------------------------------------------
// The checks, as functions of the models
// ---------------------------------------------------------------------------

/// The errors of each item of `s`, in order, with the item's index.
pub open spec fn flat_indexed<A>(s: Seq<A>, f: spec_fn(int, A) -> Seq<ErrorModel>) -> Seq<ErrorModel>
    decreases s.len(),
{
    if s.len() == 0 {
        Seq::empty()
    } else {
        flat_indexed(s.drop_last(), f) + f(s.len() - 1, s.last())
    }
}

pub proof fn lemma_flat_step<A>(s: Seq<A>, i: int, f: spec_fn(int, A) -> Seq<ErrorModel>)
    requires
        0 <= i < s.len(),
    ensures
        flat_indexed(s.take(i + 1), f) == flat_indexed(s.take(i), f) + f(i, s[i]),
{
    assert(s.take(i + 1).drop_last() =~= s.take(i));
}

pub open spec fn when(c: bool, e: ErrorModel) -> Seq<ErrorModel> {
    if c {
        seq![e]
    } else {
        Seq::empty()
    }
}

/// The last schema named `name`.
pub open spec fn schema_named(schemas: Seq<SchemaModel>, name: Seq<char>) -> Option<SchemaModel>
    decreases schemas.len(),
{
    if schemas.len() == 0 {
        None
    } else if schemas.last().name == name {
        Some(schemas.last())
    } else {
        schema_named(schemas.drop_last(), name)
    }
}

/// The first rule named `name`.
pub open spec fn rule_named(rules: Seq<RuleModel>, name: Seq<char>) -> Option<RuleModel>
    decreases rules.len(),
{
    if rules.len() == 0 {
        None
    } else {
        match rule_named(rules.drop_last(), name) {
            Some(r) => Some(r),
            None => if rules.last().name == name {
                Some(rules.last())
            } else {
                None
            },
        }
    }
}

pub open spec fn has_schema(schemas: Seq<SchemaModel>, name: Seq<char>) -> bool {
    exists|i: int| 0 <= i < schemas.len() && schemas[i].name == name
}

pub open spec fn declared_in(streams: Seq<m::SyntaxStreamDecl>, name: Seq<char>) -> bool {
    exists|i: int| 0 <= i < streams.len() && streams[i].stream == name
}

pub open spec fn stream_errors(schemas: Seq<SchemaModel>) -> spec_fn(int, m::SyntaxStreamDecl) -> Seq<ErrorModel> {
    |i: int, s: m::SyntaxStreamDecl|
        when(stream_per_hour(s) == 0, err("VN2"@, msg_vn2(s.stream))) + when(
            !has_schema(schemas, s.stream),
            err("VN3"@, msg_vn3(s.stream)),
        )
}

pub open spec fn background_errors(bg: m::BackgroundBlock, schemas: Seq<SchemaModel>) -> Seq<ErrorModel> {
    when(bg.streams.len() == 0, err("VN1"@, "background block must contain at least one stream"@))
        + flat_indexed(bg.streams, stream_errors(schemas))
}

/// The errors of one field override among `preds`, given the ones before it.
pub open spec fn predicate_errors(
    stream: Seq<char>,
    idx: nat,
    kind: Seq<char>,
    earlier: Seq<m::FieldPredicate>,
    p: m::FieldPredicate,
    entity: Option<Seq<char>>,
    schema: Option<SchemaModel>,
) -> Seq<ErrorModel> {
    when(
        exists|j: int| 0 <= j < earlier.len() && earlier[j].field == p.field,
        err("VN9"@, msg_vn9(stream, idx, p.field, kind)),
    ) + when(
        entity matches Some(e) && p.field == e,
        err("VN12"@, msg_vn12(stream, idx, p.field, kind)),
    ) + (match schema {
        Some(s) => when(!s.fields.contains(p.field), err("VN11"@, msg_vn11(stream, idx, p.field, s.name))),
        None => Seq::empty(),
    })
}

/// The errors of a list of field overrides.
pub open spec fn fields_errors(
    stream: Seq<char>,
    idx: nat,
    kind: Seq<char>,
    preds: Seq<m::FieldPredicate>,
    entity: Option<Seq<char>>,
    schema: Option<SchemaModel>,
) -> Seq<ErrorModel>
    decreases preds.len(),
{
    if preds.len() == 0 {
        Seq::empty()
    } else {
        fields_errors(stream, idx, kind, preds.drop_last(), entity, schema) + predicate_errors(
            stream,
            idx,
            kind,
            preds.drop_last(),
            preds.last(),
            entity,
            schema,
        )
    }
}

/// A JSON object's entries as field overrides.
pub open spec fn object_record(es: Seq<(Seq<char>, Seq<char>)>) -> Seq<m::FieldPredicate> {
    visible_entries(es).map_values(
        |e: (Seq<char>, Seq<char>)| m::FieldPredicate { field: e.0, value: m::AttrValue::Json(e.1) },
    )
}

/// The records of a `use([...])` array from item `i` on, given those before.
pub open spec fn array_records(
    stream: Seq<char>,
    idx: nat,
    items: Seq<Seq<char>>,
    i: int,
    acc: Seq<Seq<m::FieldPredicate>>,
) -> (Seq<ErrorModel>, Seq<Seq<m::FieldPredicate>>)
    decreases items.len() - i,
{
    if i < 0 || i >= items.len() {
        if acc.len() == 0 {
            (seq![err("VN17"@, msg_empty_records(stream, idx))], acc)
        } else {
            (Seq::empty(), acc)
        }
    } else {
        match json_layout_of(items[i]) {
            JsonLayoutModel::Object(es) => array_records(stream, idx, items, i + 1, acc.push(object_record(es))),
            _ => (seq![err("VN17"@, msg_item_not_object(stream, idx, i as nat))], Seq::empty()),
        }
    }
}

/// The records an event group's source stands for, and the errors found on the way.
pub open spec fn source_records(stream: Seq<char>, idx: nat, source: m::ValueSource) -> (
    Seq<ErrorModel>,
    Seq<Seq<m::FieldPredicate>>,
) {
    match source {
        m::ValueSource::Predicates(p) => (Seq::empty(), seq![p]),
        m::ValueSource::Json(t) => match json_layout_of(t) {
            JsonLayoutModel::Object(es) => (Seq::empty(), seq![object_record(es)]),
            JsonLayoutModel::Array(items) => array_records(stream, idx, items, 0, Seq::empty()),
            _ => (seq![err("VN17"@, msg_bad_top(stream, idx))], Seq::empty()),
        },
        m::ValueSource::File(_) => (Seq::empty(), Seq::empty()),
    }
}

pub open spec fn record_errors(
    stream: Seq<char>,
    idx: nat,
    entity: Option<Seq<char>>,
    schema: Option<SchemaModel>,
) -> spec_fn(int, Seq<m::FieldPredicate>) -> Seq<ErrorModel> {
    |k: int, rec: Seq<m::FieldPredicate>| fields_errors(stream, idx, "use"@, rec, entity, schema)
}

pub open spec fn group_errors(c: m::InjectCase, schema: Option<SchemaModel>) -> spec_fn(int, m::UseGroup) -> Seq<ErrorModel> {
    |i: int, g: m::UseGroup|
        {
            let src = source_records(c.stream, i as nat, g.source);
            when(g.count == 0, err("VN21"@, msg_zero_count(c.stream, i as nat))) + src.0
                + flat_indexed(src.1, record_errors(c.stream, i as nat, c.entity_field, schema))
        }
}

pub open spec fn within_errors(c: m::InjectCase, duration: u64) -> spec_fn(int, m::WithoutStep) -> Seq<ErrorModel> {
    |i: int, w: m::WithoutStep|
        match w.within {
            Some(d) => when(d > duration, err("VN25"@, msg_within(c.stream, i as nat, d, duration))),
            None => Seq::empty(),
        }
}

pub open spec fn without_field_errors(c: m::InjectCase, schema: Option<SchemaModel>) -> spec_fn(int, m::WithoutStep) -> Seq<ErrorModel> {
    |i: int, w: m::WithoutStep| fields_errors(c.stream, i as nat, "without"@, w.predicates, c.entity_field, schema)
}

/// VN22 / VN23: the explicit entity field of a case.
pub open spec fn explicit_field_errors(
    c: m::InjectCase,
    schema: Option<SchemaModel>,
    rule: Option<RuleModel>,
    skip_wfl: bool,
) -> Seq<ErrorModel> {
    match c.entity_field {
        None => Seq::empty(),
        Some(ex) => (match schema {
            Some(s) => when(!s.fields.contains(ex), err("VN22"@, msg_vn22(c.stream, ex, s.name))),
            None => Seq::empty(),
        }) + (if skip_wfl {
            Seq::empty()
        } else {
            match rule {
                Some(r) => match inferred_field(r) {
                    Some(inf) => when(inf != ex, err("VN23"@, msg_vn23(c.stream, ex, c.target_rule, inf))),
                    None => Seq::empty(),
                },
                None => Seq::empty(),
            }
        }),
    }
}

/// All errors of one injection case.
pub open spec fn case_errors(
    c: m::InjectCase,
    bg: m::BackgroundBlock,
    schemas: Seq<SchemaModel>,
    rules: Seq<RuleModel>,
    skip_wfl: bool,
    duration: u64,
) -> Seq<ErrorModel> {
    let schema = schema_named(schemas, c.stream);
    let rule = rule_named(rules, c.target_rule);
    when(!declared_in(bg.streams, c.stream), err("VN10"@, msg_vn10(c.stream)))
        + when(c.entity_count == 0, err("VN21"@, msg_no_entities(c.stream)))
        + when(c.groups.len() == 0, err("VN21"@, msg_no_groups(c.stream)))
        + (match c.spread {
            Some(s) => when(s > duration, err("VN25"@, msg_spread(c.stream, s, duration))),
            None => Seq::empty(),
        })
        + flat_indexed(c.withouts, within_errors(c, duration))
        + explicit_field_errors(c, schema, rule, skip_wfl)
        + (if skip_wfl {
            Seq::empty()
        } else {
            match rule {
                Some(r) => when(
                    c.groups.len() > injectable_steps(r),
                    err("VN24"@, msg_vn24(c.stream, c.groups.len(), c.target_rule, injectable_steps(r))),
                ),
                None => Seq::empty(),
            }
        })
        + flat_indexed(c.groups, group_errors(c, schema))
        + flat_indexed(c.withouts, without_field_errors(c, schema))
}

pub open spec fn cases_errors(
    bg: m::BackgroundBlock,
    schemas: Seq<SchemaModel>,
    rules: Seq<RuleModel>,
    skip_wfl: bool,
    duration: u64,
) -> spec_fn(int, m::InjectCase) -> Seq<ErrorModel> {
    |i: int, c: m::InjectCase| case_errors(c, bg, schemas, rules, skip_wfl, duration)
}

pub open spec fn has_rule(rules: Seq<RuleModel>, name: Seq<char>) -> bool {
    exists|i: int| 0 <= i < rules.len() && rules[i].name == name
}

pub open spec fn missing_rule_errors(rules: Seq<RuleModel>) -> spec_fn(int, m::InjectCase) -> Seq<ErrorModel> {
    |i: int, c: m::InjectCase|
        when(!has_rule(rules, c.target_rule), err("VN14"@, msg_vn14(c.stream, c.target_rule)))
}

/// Every error of a scenario, in the order the checks report them.
pub open spec fn scenario_errors(
    f: m::WfgFile,
    schemas: Seq<SchemaModel>,
    rules: Seq<RuleModel>,
    skip_wfl: bool,
) -> Seq<ErrorModel> {
    match f.syntax {
        None => Seq::empty(),
        Some(sy) => background_errors(sy.background, schemas) + (match sy.injection {
            Some(inj) => flat_indexed(
                inj.cases,
                cases_errors(sy.background, schemas, rules, skip_wfl, f.scenario.time_clause.duration),
            ) + (if skip_wfl {
                Seq::empty()
            } else {
                flat_indexed(inj.cases, missing_rule_errors(rules))
            }),
            None => Seq::empty(),
        }),
    }
}

/// With `skip_wfl` the checks do not read the rules: any two rule lists give
/// the same errors for the same scenario and schemas.
pub proof fn lemma_skip_wfl_ignores_rules(
    f: m::WfgFile,
    schemas: Seq<SchemaModel>,
    r1: Seq<RuleModel>,
    r2: Seq<RuleModel>,
)
    ensures
        scenario_errors(f, schemas, r1, true) == scenario_errors(f, schemas, r2, true),
{
    match f.syntax {
        None => {},
        Some(sy) => {
            let d = f.scenario.time_clause.duration;
            let g1 = cases_errors(sy.background, schemas, r1, true, d);
            let g2 = cases_errors(sy.background, schemas, r2, true, d);
            assert forall|i: int, c: m::InjectCase| #[trigger] g1(i, c) == g2(i, c) by {
                assert(explicit_field_errors(c, schema_named(schemas, c.stream), rule_named(r1, c.target_rule), true)
                    == explicit_field_errors(c, schema_named(schemas, c.stream), rule_named(r2, c.target_rule), true));
            }
            assert(g1 =~= g2);
        },
    }
}


// ---------------------------------------------------------------------------
// The checks
// ---------------------------------------------------------------------------

/// The models of the records of a source.
pub open spec fn records_view(v: Seq<Vec<FieldPredicate>>) -> Seq<Seq<m::FieldPredicate>> {
    v.map_values(|r: Vec<FieldPredicate>| views(r@))
}

pub open spec fn schema_view(s: Option<&SchemaInfo>) -> Option<SchemaModel> {
    match s {
        Some(x) => Some(x@),
        None => None,
    }
}

fn extend(out: &mut Vec<ValidationError>, more: Vec<ValidationError>)
    ensures
        views(final(out)@) == views(old(out)@) + views(more@),
{
    let mut more = more;
    let ghost a = out@;
    let ghost b = more@;
    out.append(&mut more);
    assert(views(a + b) =~= views(a) + views(b));
}

fn push_err(out: &mut Vec<ValidationError>, code: &str, message: String)
    ensures
        views(final(out)@) == views(old(out)@).push(err(code@, message@)),
{
    let e = ValidationError { code: String::from_str(code), message };
    let ghost a = out@;
    out.push(e);
    assert(views(a.push(e)) =~= views(a).push(e@));
}

fn cat(a: &str, b: &str) -> (r: String)
    ensures
        r@ == a@ + b@,
{
    let mut out = String::from_str(a);
    out.append(b);
    out
}

proof fn lemma_schema_named_exists(s: Seq<SchemaModel>, n: Seq<char>)
    ensures
        (schema_named(s, n) is Some) == has_schema(s, n),
        schema_named(s, n) matches Some(x) ==> x.name == n,
    decreases s.len(),
{
    if s.len() > 0 {
        lemma_schema_named_exists(s.drop_last(), n);
        if has_schema(s.drop_last(), n) {
            let i = choose|i: int| 0 <= i < s.drop_last().len() && s.drop_last()[i].name == n;
            assert(s[i].name == n);
        }
        if has_schema(s, n) && s.last().name != n {
            let i = choose|i: int| 0 <= i < s.len() && s[i].name == n;
            assert(s.drop_last()[i].name == n);
        }
    }
}

proof fn lemma_rule_named_exists(s: Seq<RuleModel>, n: Seq<char>)
    ensures
        (rule_named(s, n) is Some) == has_rule(s, n),
    decreases s.len(),
{
    if s.len() > 0 {
        lemma_rule_named_exists(s.drop_last(), n);
        if has_rule(s.drop_last(), n) {
            let i = choose|i: int| 0 <= i < s.drop_last().len() && s.drop_last()[i].name == n;
            assert(s[i].name == n);
        }
        if has_rule(s, n) && s.last().name != n {
            let i = choose|i: int| 0 <= i < s.len() && s[i].name == n;
            assert(s.drop_last()[i].name == n);
        }
    }
}

/// The last schema named `name`.
fn schema_index(schemas: &Vec<SchemaInfo>, name: &str) -> (r: Option<usize>)
    ensures
        match r {
            Some(j) => j < schemas.len() && schema_named(views(schemas@), name@) == Some(
                schemas@[j as int]@,
            ),
            None => schema_named(views(schemas@), name@) is None,
        },
{
    let mut found: Option<usize> = None;
    let mut i: usize = 0;
    while i < schemas.len()
        invariant
            i <= schemas.len(),
            match found {
                Some(j) => j < i && schema_named(views(schemas@).take(i as int), name@) == Some(
                    schemas@[j as int]@,
                ),
                None => schema_named(views(schemas@).take(i as int), name@) is None,
            },
        decreases schemas.len() - i,
    {
        proof {
            let t = views(schemas@).take(i as int + 1);
            assert(t.drop_last() =~= views(schemas@).take(i as int));
            assert(t.last() == schemas@[i as int]@);
        }
        if str_is(schemas[i].name.as_str(), name) {
            found = Some(i);
        }
        i = i + 1;
    }
    assert(views(schemas@).take(i as int) =~= views(schemas@));
    found
}

/// The first rule named `name`.
fn rule_index(rules: &Vec<RuleInfo>, name: &str) -> (r: Option<usize>)
    ensures
        match r {
            Some(j) => j < rules.len() && rule_named(views(rules@), name@) == Some(rules@[j as int]@),
            None => rule_named(views(rules@), name@) is None,
        },
{
    let mut found: Option<usize> = None;
    let mut i: usize = 0;
    while i < rules.len()
        invariant
            i <= rules.len(),
            match found {
                Some(j) => j < i && rule_named(views(rules@).take(i as int), name@) == Some(
                    rules@[j as int]@,
                ),
                None => rule_named(views(rules@).take(i as int), name@) is None,
            },
        decreases rules.len() - i,
    {
        proof {
            let t = views(rules@).take(i as int + 1);
            assert(t.drop_last() =~= views(rules@).take(i as int));
            assert(t.last() == rules@[i as int]@);
        }
        if found.is_none() && str_is(rules[i].name.as_str(), name) {
            found = Some(i);
        }
        i = i + 1;
    }
    assert(views(rules@).take(i as int) =~= views(rules@));
    found
}

fn is_declared(streams: &Vec<SyntaxStreamDecl>, name: &str) -> (r: bool)
    ensures
        r == declared_in(views(streams@), name@),
{
    let mut i: usize = 0;
    while i < streams.len()
        invariant
            i <= streams.len(),
            forall|j: int| 0 <= j < i ==> views(streams@)[j].stream != name@,
        decreases streams.len() - i,
    {
        if str_is(streams[i].stream.as_str(), name) {
            assert(views(streams@)[i as int].stream == name@);
            return true;
        }
        i = i + 1;
    }
    false
}

fn has_field(schema: &SchemaInfo, f: &str) -> (r: bool)
    ensures
        r == schema@.fields.contains(f@),
{
    let mut i: usize = 0;
    while i < schema.fields.len()
        invariant
            i <= schema.fields.len(),
            forall|j: int| 0 <= j < i ==> schema@.fields[j] != f@,
        decreases schema.fields.len() - i,
    {
        if str_is(schema.fields[i].as_str(), f) {
            assert(schema@.fields[i as int] == f@);
            return true;
        }
        i = i + 1;
    }
    false
}

/// The errors of a list of field overrides (`use` or `without`) of a case step.
#[verifier::spinoff_prover]
#[verifier::rlimit(40)]
fn fields_errors_of(
    stream: &str,
    idx: usize,
    kind: &str,
    preds: &Vec<FieldPredicate>,
    entity: &Option<String>,
    schema: Option<&SchemaInfo>,
) -> (r: Vec<ValidationError>)
    ensures
        views(r@) == fields_errors(
            stream@,
            idx as nat,
            kind@,
            views(preds@),
            opt_view(*entity),
            schema_view(schema),
        ),
{
    let mut out: Vec<ValidationError> = Vec::new();
    let mut i: usize = 0;
    assert(views(preds@).take(0) =~= Seq::<m::FieldPredicate>::empty());
    while i < preds.len()
        invariant
            i <= preds.len(),
            views(out@) == fields_errors(
                stream@,
                idx as nat,
                kind@,
                views(preds@).take(i as int),
                opt_view(*entity),
                schema_view(schema),
            ),
        decreases preds.len() - i,
    {
        let p = &preds[i];
        let ghost earlier = views(preds@).take(i as int);
        proof {
            let t = views(preds@).take(i as int + 1);
            assert(t.drop_last() =~= earlier);
            assert(t.last() == p@);
        }
        let mut seen = false;
        let mut j: usize = 0;
        while j < i
            invariant
                j <= i < preds.len(),
                earlier == views(preds@).take(i as int),
                seen == exists|k: int| 0 <= k < j && earlier[k].field == p@.field,
            decreases i - j,
        {
            if str_is(preds[j].field.as_str(), p.field.as_str()) {
                assert(earlier[j as int].field == p@.field);
                seen = true;
            }
            j = j + 1;
        }
        if seen {
            let mut msg = cat("injection case '", stream);
            msg.append("' step ");
            msg.append(decimal(idx as u64).as_str());
            msg.append(" has duplicate field '");
            msg.append(p.field.as_str());
            msg.append("' in ");
            msg.append(kind);
            assert(msg@ =~= msg_vn9(stream@, idx as nat, p@.field, kind@));
            push_err(&mut out, "VN9", msg);
        }
        match entity {
            Some(e) => {
                if str_is(p.field.as_str(), e.as_str()) {
                    let mut msg = cat("injection case '", stream);
                    msg.append("' step ");
                    msg.append(decimal(idx as u64).as_str());
                    msg.append(" repeats entity field '");
                    msg.append(p.field.as_str());
                    msg.append("' in ");
                    msg.append(kind);
                    assert(msg@ =~= msg_vn12(stream@, idx as nat, p@.field, kind@));
                    push_err(&mut out, "VN12", msg);
                }
            },
            None => {},
        }
        match schema {
            Some(sch) => {
                if !has_field(sch, p.field.as_str()) {
                    let mut msg = cat("injection case '", stream);
                    msg.append("' step ");
                    msg.append(decimal(idx as u64).as_str());
                    msg.append(" field '");
                    msg.append(p.field.as_str());
                    msg.append("' not found in schema '");
                    msg.append(sch.name.as_str());
                    msg.append("'");
                    assert(msg@ =~= msg_vn11(stream@, idx as nat, p@.field, sch@.name));
                    push_err(&mut out, "VN11", msg);
                }
            },
            None => {},
        }
        proof {
            assert(views(out@) =~= fields_errors(
                stream@,
                idx as nat,
                kind@,
                views(preds@).take(i as int),
                opt_view(*entity),
                schema_view(schema),
            ) + predicate_errors(stream@, idx as nat, kind@, earlier, p@, opt_view(*entity), schema_view(schema)));
        }
        i = i + 1;
    }
    assert(views(preds@).take(i as int) =~= views(preds@));
    out
}

/// A JSON object's entries as field overrides.
fn object_record_of(es: &Vec<(String, String)>) -> (r: Vec<FieldPredicate>)
    ensures
        views(r@) == object_record(views(es@)),
{
    let vis = visible_entries_of(es);
    let mut out: Vec<FieldPredicate> = Vec::new();
    let mut i: usize = 0;
    while i < vis.len()
        invariant
            i <= vis.len(),
            views(out@) == views(vis@).take(i as int).map_values(
                |e: (Seq<char>, Seq<char>)| m::FieldPredicate { field: e.0, value: m::AttrValue::Json(e.1) },
            ),
        decreases vis.len() - i,
    {
        let p = FieldPredicate { field: vis[i].0.clone(), value: AttrValue::Json(vis[i].1.clone()) };
        proof {
            assert(views(out@.push(p)) =~= views(out@).push(p@));
            assert(views(vis@).take(i as int + 1).map_values(
                |e: (Seq<char>, Seq<char>)| m::FieldPredicate { field: e.0, value: m::AttrValue::Json(e.1) },
            ) =~= views(vis@).take(i as int).map_values(
                |e: (Seq<char>, Seq<char>)| m::FieldPredicate { field: e.0, value: m::AttrValue::Json(e.1) },
            ).push(p@));
        }
        out.push(p);
        i = i + 1;
    }
    assert(views(vis@).take(i as int) =~= views(vis@));
    out
}

/// The records of a `use({...})` JSON source, and the errors found on the way.
fn json_records_of(stream: &str, idx: usize, text: &str) -> (r: (Vec<ValidationError>, Vec<Vec<FieldPredicate>>))
    requires
        idx < u64::MAX,
    ensures
        views(r.0@) == source_records(stream@, idx as nat, m::ValueSource::Json(text@)).0,
        records_view(r.1@) == source_records(stream@, idx as nat, m::ValueSource::Json(text@)).1,
{
    let mut errs: Vec<ValidationError> = Vec::new();
    let mut recs: Vec<Vec<FieldPredicate>> = Vec::new();
    match json_layout(text) {
        JsonLayout::Object(es) => {
            let rec = object_record_of(&es);
            recs.push(rec);
            assert(records_view(recs@) =~= seq![object_record(views(es@))]);
            (errs, recs)
        },
        JsonLayout::Array(items) => {
            let ghost its = views(items@);
            let mut i: usize = 0;
            assert(records_view(recs@) =~= Seq::<Seq<m::FieldPredicate>>::empty());
            while i < items.len()
                invariant
                    i <= items.len(),
                    its == views(items@),
                    idx < u64::MAX,
                    json_layout_of(text@) == JsonLayoutModel::Array(its),
                    errs@.len() == 0,
                    array_records(stream@, idx as nat, its, i as int, records_view(recs@))
                        == array_records(stream@, idx as nat, its, 0, Seq::empty()),
                decreases items.len() - i,
            {
                assert(its[i as int] == items@[i as int]@);
                let lay = json_layout(items[i].as_str());
                match lay {
                    JsonLayout::Object(es) => {
                        let rec = object_record_of(&es);
                        let ghost before = recs@;
                        recs.push(rec);
                        assert(records_view(recs@) =~= records_view(before).push(object_record(views(es@))));
                    },
                    _ => {
                        assert(!(json_layout_of(its[i as int]) is Object));
                        let mut msg = cat("injection case '", stream);
                        msg.append("' 第 ");
                        msg.append(decimal((idx as u64) + 1).as_str());
                        msg.append(" 个事件组 use({...}) 的记录数组第 ");
                        msg.append(decimal((i as u64) + 1).as_str());
                        msg.append(" 个元素不是 JSON object");
                        assert(msg@ =~= msg_item_not_object(stream@, idx as nat, i as nat));
                        push_err(&mut errs, "VN17", msg);
                        let none: Vec<Vec<FieldPredicate>> = Vec::new();
                        assert(records_view(none@) =~= Seq::<Seq<m::FieldPredicate>>::empty());
                        assert(views(errs@) =~= seq![err("VN17"@, msg_item_not_object(stream@, idx as nat, i as nat))]);
                        return (errs, none);
                    },
                }
                i = i + 1;
            }
            if recs.len() == 0 {
                let mut msg = cat("injection case '", stream);
                msg.append("' 第 ");
                msg.append(decimal((idx as u64) + 1).as_str());
                msg.append(" 个事件组 use({...}) 的记录数组为空");
                assert(msg@ =~= msg_empty_records(stream@, idx as nat));
                push_err(&mut errs, "VN17", msg);
                assert(records_view(recs@) =~= Seq::<Seq<m::FieldPredicate>>::empty());
                assert(views(errs@) =~= seq![err("VN17"@, msg_empty_records(stream@, idx as nat))]);
            } else {
                assert(views(errs@) =~= Seq::<ErrorModel>::empty());
            }
            (errs, recs)
        },
        _ => {
            let mut msg = cat("injection case '", stream);
            msg.append("' 第 ");
            msg.append(decimal((idx as u64) + 1).as_str());
            msg.append(" 个事件组 use({...}) 的顶层必须是 JSON object 或 object 数组");
            assert(msg@ =~= msg_bad_top(stream@, idx as nat));
            push_err(&mut errs, "VN17", msg);
            assert(views(errs@) =~= seq![err("VN17"@, msg_bad_top(stream@, idx as nat))]);
            assert(records_view(recs@) =~= Seq::<Seq<m::FieldPredicate>>::empty());
            (errs, recs)
        },
    }
}


pub open spec fn rule_view(r: Option<&RuleInfo>) -> Option<RuleModel> {
    match r {
        Some(x) => Some(x@),
        None => None,
    }
}

/// The errors of one event group of a case.
fn group_errors_of(c: &InjectCase, i: usize, g: &UseGroup, schema: Option<&SchemaInfo>) -> (r: Vec<
    ValidationError,
>)
    requires
        i < u64::MAX,
    ensures
        views(r@) == (group_errors(c@, schema_view(schema)))(i as int, g@),
{
    let ghost f = record_errors(c@.stream, i as nat, c@.entity_field, schema_view(schema));
    let mut out: Vec<ValidationError> = Vec::new();
    if g.count == 0 {
        let mut msg = cat("injection case '", c.stream.as_str());
        msg.append("' 第 ");
        msg.append(decimal((i as u64) + 1).as_str());
        msg.append(" 个事件组 x 0：每个实体的条数必须大于 0");
        assert(msg@ =~= msg_zero_count(c@.stream, i as nat));
        push_err(&mut out, "VN21", msg);
    }
    let ghost head = views(out@);
    assert(head =~= when(g.count == 0, err("VN21"@, msg_zero_count(c@.stream, i as nat))));
    match &g.source {
        ValueSource::Predicates(p) => {
            let e = fields_errors_of(c.stream.as_str(), i, "use", p, &c.entity_field, schema);
            proof {
                let one = seq![views(p@)];
                assert(one.drop_last() =~= Seq::<Seq<m::FieldPredicate>>::empty());
                assert(one.last() == views(p@));
                assert(flat_indexed(one.drop_last(), f) =~= Seq::<ErrorModel>::empty());
                assert(flat_indexed(one, f) =~= Seq::<ErrorModel>::empty() + f(0, views(p@)));
                assert(flat_indexed(one, f) =~= f(0, views(p@)));
            }
            extend(&mut out, e);
            assert(views(out@) =~= head + Seq::<ErrorModel>::empty() + flat_indexed(seq![views(p@)], f));
        },
        ValueSource::Json(t) => {
            let (errs, recs) = json_records_of(c.stream.as_str(), i, t.as_str());
            extend(&mut out, errs);
            let ghost mid = views(out@);
            let mut k: usize = 0;
            assert(records_view(recs@).take(0) =~= Seq::<Seq<m::FieldPredicate>>::empty());
            while k < recs.len()
                invariant
                    k <= recs.len(),
                    f == record_errors(c@.stream, i as nat, c@.entity_field, schema_view(schema)),
                    views(out@) == mid + flat_indexed(records_view(recs@).take(k as int), f),
                decreases recs.len() - k,
            {
                proof {
                    lemma_flat_step(records_view(recs@), k as int, f);
                }
                let e = fields_errors_of(c.stream.as_str(), i, "use", &recs[k], &c.entity_field, schema);
                extend(&mut out, e);
                k = k + 1;
            }
            assert(records_view(recs@).take(k as int) =~= records_view(recs@));
        },
        ValueSource::File(_) => {
            assert(views(out@) =~= head + Seq::<ErrorModel>::empty() + flat_indexed(
                Seq::<Seq<m::FieldPredicate>>::empty(),
                f,
            ));
        },
    }
    out
}

/// VN10, VN21 and the `spread` VN25 of a case.
fn head_errors_of(c: &InjectCase, bg: &BackgroundBlock, duration: u64) -> (r: Vec<ValidationError>)
    ensures
        views(r@) == when(!declared_in(bg@.streams, c@.stream), err("VN10"@, msg_vn10(c@.stream)))
            + when(c@.entity_count == 0, err("VN21"@, msg_no_entities(c@.stream)))
            + when(c@.groups.len() == 0, err("VN21"@, msg_no_groups(c@.stream)))
            + (match c@.spread {
                Some(s) => when(s > duration, err("VN25"@, msg_spread(c@.stream, s, duration))),
                None => Seq::empty(),
            }),
{
    let st = c.stream.as_str();
    let mut out: Vec<ValidationError> = Vec::new();
    if !is_declared(&bg.streams, st) {
        let mut msg = cat("injection case stream '", st);
        msg.append("' is not declared in background");
        push_err(&mut out, "VN10", msg);
    }
    let ghost a = views(out@);
    if c.entity_count == 0 {
        let mut msg = cat("injection case '", st);
        msg.append("' 实体个数必须大于 0（hit<0>）");
        push_err(&mut out, "VN21", msg);
    }
    let ghost b = views(out@);
    if c.groups.len() == 0 {
        let mut msg = cat("injection case '", st);
        msg.append("' 至少需要一个 `use ... x N` 事件组");
        push_err(&mut out, "VN21", msg);
    }
    let ghost d = views(out@);
    match c.spread {
        Some(spread) => {
            if spread > duration {
                let mut msg = cat("injection case '", st);
                msg.append("' spread ");
                push_duration(&mut msg, spread);
                msg.append(" 超过场景 duration ");
                push_duration(&mut msg, duration);
                assert(msg@ =~= msg_spread(c@.stream, spread, duration));
                push_err(&mut out, "VN25", msg);
            }
        },
        None => {},
    }
    assert(views(out@) =~= when(!declared_in(bg@.streams, c@.stream), err("VN10"@, msg_vn10(c@.stream)))
        + when(c@.entity_count == 0, err("VN21"@, msg_no_entities(c@.stream)))
        + when(c@.groups.len() == 0, err("VN21"@, msg_no_groups(c@.stream)))
        + (match c@.spread {
            Some(s) => when(s > duration, err("VN25"@, msg_spread(c@.stream, s, duration))),
            None => Seq::empty(),
        }));
    out
}

/// The `within` VN25 errors of a case.
fn within_errors_of(c: &InjectCase, duration: u64) -> (r: Vec<ValidationError>)
    ensures
        views(r@) == flat_indexed(c@.withouts, within_errors(c@, duration)),
{
    let ghost f = within_errors(c@, duration);
    let mut out: Vec<ValidationError> = Vec::new();
    let mut i: usize = 0;
    assert(c@.withouts.take(0) =~= Seq::<m::WithoutStep>::empty());
    while i < c.withouts.len()
        invariant
            i <= c.withouts.len(),
            f == within_errors(c@, duration),
            views(out@) == flat_indexed(c@.withouts.take(i as int), f),
        decreases c.withouts.len() - i,
    {
        proof {
            lemma_flat_step(c@.withouts, i as int, f);
        }
        let ghost before = views(out@);
        match c.withouts[i].within {
            Some(w) => {
                if w > duration {
                    let mut msg = cat("injection case '", c.stream.as_str());
                    msg.append("' 第 ");
                    msg.append(decimal((i as u64) + 1).as_str());
                    msg.append(" 个 without 的 within ");
                    push_duration(&mut msg, w);
                    msg.append(" 超过场景 duration ");
                    push_duration(&mut msg, duration);
                    assert(msg@ =~= msg_within(c@.stream, i as nat, w, duration));
                    push_err(&mut out, "VN25", msg);
                }
            },
            None => {},
        }
        assert(views(out@) =~= before + f(i as int, c@.withouts[i as int]));
        i = i + 1;
    }
    assert(c@.withouts.take(i as int) =~= c@.withouts);
    out
}

/// The field checks of the `without(...)` steps of a case.
fn without_fields_errors_of(c: &InjectCase, schema: Option<&SchemaInfo>) -> (r: Vec<ValidationError>)
    ensures
        views(r@) == flat_indexed(c@.withouts, without_field_errors(c@, schema_view(schema))),
{
    let ghost f = without_field_errors(c@, schema_view(schema));
    let mut out: Vec<ValidationError> = Vec::new();
    let mut i: usize = 0;
    assert(c@.withouts.take(0) =~= Seq::<m::WithoutStep>::empty());
    while i < c.withouts.len()
        invariant
            i <= c.withouts.len(),
            f == without_field_errors(c@, schema_view(schema)),
            views(out@) == flat_indexed(c@.withouts.take(i as int), f),
        decreases c.withouts.len() - i,
    {
        proof {
            lemma_flat_step(c@.withouts, i as int, f);
        }
        let e = fields_errors_of(
            c.stream.as_str(),
            i,
            "without",
            &c.withouts[i].predicates,
            &c.entity_field,
            schema,
        );
        extend(&mut out, e);
        i = i + 1;
    }
    assert(c@.withouts.take(i as int) =~= c@.withouts);
    out
}

/// The event group errors of a case.
fn groups_errors_of(c: &InjectCase, schema: Option<&SchemaInfo>) -> (r: Vec<ValidationError>)
    ensures
        views(r@) == flat_indexed(c@.groups, group_errors(c@, schema_view(schema))),
{
    let ghost f = group_errors(c@, schema_view(schema));
    let mut out: Vec<ValidationError> = Vec::new();
    let mut i: usize = 0;
    assert(c@.groups.take(0) =~= Seq::<m::UseGroup>::empty());
    while i < c.groups.len()
        invariant
            i <= c.groups.len(),
            f == group_errors(c@, schema_view(schema)),
            views(out@) == flat_indexed(c@.groups.take(i as int), f),
        decreases c.groups.len() - i,
    {
        proof {
            lemma_flat_step(c@.groups, i as int, f);
        }
        let e = group_errors_of(c, i, &c.groups[i], schema);
        extend(&mut out, e);
        i = i + 1;
    }
    assert(c@.groups.take(i as int) =~= c@.groups);
    out
}

/// VN22 / VN23 of a case.
fn explicit_errors_of(
    c: &InjectCase,
    schema: Option<&SchemaInfo>,
    rule: Option<&RuleInfo>,
    skip_wfl: bool,
) -> (r: Vec<ValidationError>)
    ensures
        views(r@) == explicit_field_errors(c@, schema_view(schema), rule_view(rule), skip_wfl),
{
    let mut out: Vec<ValidationError> = Vec::new();
    match &c.entity_field {
        None => {},
        Some(ex) => {
            match schema {
                Some(sch) => {
                    if !has_field(sch, ex.as_str()) {
                        let mut msg = cat("injection case '", c.stream.as_str());
                        msg.append("' 实体字段 '");
                        msg.append(ex.as_str());
                        msg.append("' 不在 stream '");
                        msg.append(c.stream.as_str());
                        msg.append("' 的 schema '");
                        msg.append(sch.name.as_str());
                        msg.append("' 里");
                        assert(msg@ =~= msg_vn22(c@.stream, ex@, sch@.name));
                        push_err(&mut out, "VN22", msg);
                    }
                },
                None => {},
            }
            let ghost a = views(out@);
            if !skip_wfl {
                match rule {
                    Some(r) => {
                        match inferred_entity_field(r) {
                            Some(inf) => {
                                if !str_is(inf.as_str(), ex.as_str()) {
                                    let mut msg = cat("injection case '", c.stream.as_str());
                                    msg.append("' 显式实体字段 '");
                                    msg.append(ex.as_str());
                                    msg.append("' 与规则 '");
                                    msg.append(c.target_rule.as_str());
                                    msg.append("' 推断的实体字段 '");
                                    msg.append(inf.as_str());
                                    msg.append(
                                        "' 不一致（去掉显式字段即用推断值；多 key 规则才需要显式消歧）",
                                    );
                                    assert(msg@ =~= msg_vn23(c@.stream, ex@, c@.target_rule, inf@));
                                    push_err(&mut out, "VN23", msg);
                                }
                            },
                            None => {},
                        }
                    },
                    None => {},
                }
            }
            assert(views(out@) =~= explicit_field_errors(c@, schema_view(schema), rule_view(rule), skip_wfl));
        },
    }
    out
}

/// VN24 of a case.
fn steps_errors_of(c: &InjectCase, rule: Option<&RuleInfo>, skip_wfl: bool) -> (r: Vec<ValidationError>)
    ensures
        views(r@) == (if skip_wfl {
            Seq::empty()
        } else {
            match rule_view(rule) {
                Some(r) => when(
                    c@.groups.len() > injectable_steps(r),
                    err("VN24"@, msg_vn24(c@.stream, c@.groups.len(), c@.target_rule, injectable_steps(r))),
                ),
                None => Seq::empty(),
            }
        }),
{
    let mut out: Vec<ValidationError> = Vec::new();
    if !skip_wfl {
        match rule {
            Some(r) => {
                let k = injectable_step_count(r);
                let n = c.groups.len() as u64;
                if n > k {
                    let mut msg = cat("injection case '", c.stream.as_str());
                    msg.append("' 的 use 事件组数 ");
                    msg.append(decimal(n).as_str());
                    msg.append(" 超过规则 '");
                    msg.append(c.target_rule.as_str());
                    msg.append("' 的事件步骤数 ");
                    msg.append(decimal(k).as_str());
                    msg.append("（每个 `use ... x N` 对应一个步骤）");
                    assert(msg@ =~= msg_vn24(c@.stream, c@.groups.len(), c@.target_rule, injectable_steps(r@)));
                    push_err(&mut out, "VN24", msg);
                }
            },
            None => {},
        }
    }
    assert(views(out@) =~= (if skip_wfl {
        Seq::empty()
    } else {
        match rule_view(rule) {
            Some(r) => when(
                c@.groups.len() > injectable_steps(r),
                err("VN24"@, msg_vn24(c@.stream, c@.groups.len(), c@.target_rule, injectable_steps(r))),
            ),
            None => Seq::empty(),
        }
    }));
    out
}

/// All errors of one injection case.
fn case_errors_of(
    c: &InjectCase,
    bg: &BackgroundBlock,
    schemas: &Vec<SchemaInfo>,
    rules: &Vec<RuleInfo>,
    skip_wfl: bool,
    duration: u64,
) -> (r: Vec<ValidationError>)
    ensures
        views(r@) == case_errors(c@, bg@, views(schemas@), views(rules@), skip_wfl, duration),
{
    let schema: Option<&SchemaInfo> = match schema_index(schemas, c.stream.as_str()) {
        Some(j) => Some(&schemas[j]),
        None => None,
    };
    let rule: Option<&RuleInfo> = match rule_index(rules, c.target_rule.as_str()) {
        Some(j) => Some(&rules[j]),
        None => None,
    };
    assert(schema_view(schema) == schema_named(views(schemas@), c@.stream));
    assert(rule_view(rule) == rule_named(views(rules@), c@.target_rule));
    let mut out = head_errors_of(c, bg, duration);
    extend(&mut out, within_errors_of(c, duration));
    extend(&mut out, explicit_errors_of(c, schema, rule, skip_wfl));
    extend(&mut out, steps_errors_of(c, rule, skip_wfl));
    extend(&mut out, groups_errors_of(c, schema));
    extend(&mut out, without_fields_errors_of(c, schema));
    out
}

/// VN1, VN2 and VN3 of the background block.
fn background_errors_of(bg: &BackgroundBlock, schemas: &Vec<SchemaInfo>) -> (r: Vec<ValidationError>)
    ensures
        views(r@) == background_errors(bg@, views(schemas@)),
{
    let ghost f = stream_errors(views(schemas@));
    let mut out: Vec<ValidationError> = Vec::new();
    if bg.streams.len() == 0 {
        push_err(&mut out, "VN1", String::from_str("background block must contain at least one stream"));
    }
    let ghost head = views(out@);
    let mut i: usize = 0;
    assert(bg@.streams.take(0) =~= Seq::<m::SyntaxStreamDecl>::empty());
    while i < bg.streams.len()
        invariant
            i <= bg.streams.len(),
            f == stream_errors(views(schemas@)),
            views(out@) == head + flat_indexed(bg@.streams.take(i as int), f),
        decreases bg.streams.len() - i,
    {
        proof {
            lemma_flat_step(bg@.streams, i as int, f);
        }
        let s = &bg.streams[i];
        let ghost before = views(out@);
        let zero = crate::wfg_file::stream_per_hour_of(s) == 0;
        if zero {
            let mut msg = cat("stream '", s.stream.as_str());
            msg.append("': rate must be greater than 0");
            push_err(&mut out, "VN2", msg);
        }
        let ghost mid = views(out@);
        let known = match schema_index(schemas, s.stream.as_str()) {
            Some(_) => true,
            None => false,
        };
        proof {
            lemma_schema_named_exists(views(schemas@), s@.stream);
        }
        if !known {
            let mut msg = cat("stream '", s.stream.as_str());
            msg.append("' not found in loaded schemas (.wfs windows)");
            push_err(&mut out, "VN3", msg);
        }
        assert(views(out@) =~= before + f(i as int, bg@.streams[i as int]));
        i = i + 1;
    }
    assert(bg@.streams.take(i as int) =~= bg@.streams);
    out
}

/// Checks a parsed scenario against the window schemas and the rules it names.
///
/// With `skip_wfl`, the checks that need rules (VN14, VN23, VN24) are left out.
/// A file without a syntax section has nothing to check.
pub fn validate_syntax(
    wfg: &WfgFile,
    schemas: &Vec<SchemaInfo>,
    rules: &Vec<RuleInfo>,
    skip_wfl: bool,
) -> (r: Vec<ValidationError>)
    ensures
        views(r@) == scenario_errors(wfg@, views(schemas@), views(rules@), skip_wfl),
{
    match &wfg.syntax {
        None => Vec::new(),
        Some(sy) => {
            let mut out = background_errors_of(&sy.background, schemas);
            match &sy.injection {
                None => {},
                Some(inj) => {
                    let ghost head = views(out@);
                    let duration = wfg.scenario.time_clause.duration;
                    let ghost f = cases_errors(sy.background@, views(schemas@), views(rules@), skip_wfl, duration);
                    let mut i: usize = 0;
                    assert(inj@.cases.take(0) =~= Seq::<m::InjectCase>::empty());
                    while i < inj.cases.len()
                        invariant
                            i <= inj.cases.len(),
                            f == cases_errors(sy.background@, views(schemas@), views(rules@), skip_wfl, duration),
                            views(out@) == head + flat_indexed(inj@.cases.take(i as int), f),
                        decreases inj.cases.len() - i,
                    {
                        proof {
                            lemma_flat_step(inj@.cases, i as int, f);
                        }
                        let e = case_errors_of(&inj.cases[i], &sy.background, schemas, rules, skip_wfl, duration);
                        extend(&mut out, e);
                        i = i + 1;
                    }
                    assert(inj@.cases.take(i as int) =~= inj@.cases);
                    let ghost mid = views(out@);
                    if !skip_wfl {
                        let ghost g = missing_rule_errors(views(rules@));
                        let mut k: usize = 0;
                        while k < inj.cases.len()
                            invariant
                                k <= inj.cases.len(),
                                g == missing_rule_errors(views(rules@)),
                                views(out@) == mid + flat_indexed(inj@.cases.take(k as int), g),
                            decreases inj.cases.len() - k,
                        {
                            proof {
                                lemma_flat_step(inj@.cases, k as int, g);
                            }
                            let c = &inj.cases[k];
                            let ghost before = views(out@);
                            let known = match rule_index(rules, c.target_rule.as_str()) {
                                Some(_) => true,
                                None => false,
                            };
                            proof {
                                lemma_rule_named_exists(views(rules@), c@.target_rule);
                            }
                            if !known {
                                let mut msg = cat("injection case '", c.stream.as_str());
                                msg.append("' targets rule '");
                                msg.append(c.target_rule.as_str());
                                msg.append("' not found in WFL files");
                                push_err(&mut out, "VN14", msg);
                            }
                            assert(views(out@) =~= before + g(k as int, inj@.cases[k as int]));
                            k = k + 1;
                        }
                        assert(inj@.cases.take(k as int) =~= inj@.cases);
                    } else {
                        assert(views(out@) =~= mid + Seq::<ErrorModel>::empty());
                    }
                },
            }
            out
        },
    }
}

/// Checks a parsed scenario against the window schemas and the rules of the
/// loaded rule files (all of them, in file order).
pub fn validate_wfg(
    wfg: &WfgFile,
    schemas: &Vec<SchemaInfo>,
    rules: &Vec<RuleInfo>,
    skip_wfl: bool,
) -> (r: Vec<ValidationError>)
    ensures
        views(r@) == scenario_errors(wfg@, views(schemas@), views(rules@), skip_wfl),
{
    validate_syntax(wfg, schemas, rules, skip_wfl)
}

} // verus!
