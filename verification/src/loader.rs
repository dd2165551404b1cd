//! What loading a scenario decides: which `use` files are schemas or rules,
//! where relative paths point, and what shape value files must have.
//! Reading the files stays with the caller.

use vstd::prelude::*;

use crate::error::{WfgenError, WfgenReason};
use crate::json_text::{JsonLayout, JsonLayoutModel, json_layout, json_layout_of};
use crate::text::{dec_text, push_decimal, trim_text, trimmed};
use crate::injection_targets::cases_of;
use crate::wfg_ast::{ValueSource, WfgFile, views};
use crate::wfg_model as m;

verus! {

broadcast use vstd::string::group_string_axioms;

// ---------------------------------------------------------------------------
// Paths
// ---------------------------------------------------------------------------

/// `path` under `base_dir` (POSIX paths): an absolute path as it is, else
/// joined with a `/` unless the base is empty or already ends with one.
pub open spec fn relative_to(base_dir: Seq<char>, path: Seq<char>) -> Seq<char> {
    if path.len() > 0 && path[0] == '/' {
        path
    } else if base_dir.len() == 0 {
        path
    } else if base_dir.last() == '/' {
        base_dir + path
    } else {
        base_dir + seq!['/'] + path
    }
}

/// `path` under `base_dir`; an absolute path as it is.
pub fn resolve_relative(base_dir: &str, path: &str) -> (r: String)
    ensures
        r@ == relative_to(base_dir@, path@),
{
    if path.unicode_len() > 0 && path.get_char(0) == '/' {
        return String::from_str(path);
    }
    let n = base_dir.unicode_len();
    if n == 0 {
        return String::from_str(path);
    }
    let mut out = String::from_str(base_dir);
    if base_dir.get_char(n - 1) != '/' {
        crate::wfg_lexer::push_char(&mut out, '/');
    }
    out.append(path);
    assert(out@ =~= relative_to(base_dir@, path@));
    out
}

/// The text after the last `c` of `s` (all of `s` when there is none).
pub open spec fn after_last(s: Seq<char>, c: char) -> Seq<char>
    decreases s.len(),
{
    if s.len() == 0 {
        s
    } else if s.last() == c {
        Seq::empty()
    } else {
        after_last(s.drop_last(), c).push(s.last())
    }
}

/// The extension of a path's last segment: the text after its last `.`,
/// empty when the segment has no `.` other than a leading one.
pub open spec fn extension_of(path: Seq<char>) -> Seq<char> {
    let name = after_last(path, '/');
    let ext = after_last(name, '.');
    if ext.len() == name.len() || ext.len() + 1 == name.len() {
        Seq::empty()
    } else {
        ext
    }
}

fn after_last_exec(s: &str, c: char) -> (r: String)
    ensures
        r@ == after_last(s@, c),
{
    let n = s.unicode_len();
    let mut k: usize = n;
    assert(s@.subrange(0, n as int) =~= s@);
    assert(s@.subrange(n as int, n as int) =~= Seq::<char>::empty());
    assert(after_last(s@, c) =~= after_last(s@.subrange(0, n as int), c) + s@.subrange(n as int, n as int));
    while k > 0 && s.get_char(k - 1) != c
        invariant
            n == s@.len(),
            k <= n,
            after_last(s@, c) == after_last(s@.subrange(0, k as int), c) + s@.subrange(k as int, n as int),
        decreases k,
    {
        proof {
            let t = s@.subrange(0, k as int);
            assert(t.drop_last() =~= s@.subrange(0, k as int - 1));
            assert(t.last() == s@[k as int - 1]);
            assert(after_last(t, c) == after_last(t.drop_last(), c).push(t.last()));
            assert(after_last(t.drop_last(), c).push(t.last()) + s@.subrange(k as int, n as int)
                =~= after_last(s@.subrange(0, k as int - 1), c) + s@.subrange(k as int - 1, n as int));
        }
        k = k - 1;
    }
    proof {
        let t = s@.subrange(0, k as int);
        if k > 0 {
            assert(t.last() == c);
        }
        assert(after_last(t, c) =~= Seq::<char>::empty());
        assert(after_last(s@, c) =~= s@.subrange(k as int, n as int));
    }
    String::from_str(s.substring_char(k, n))
}

/// What a `use` declaration names.
#[derive(Debug, Clone, Copy, PartialEq, Eq, Structural)]
pub enum UseKind {
    /// A `.wfs` window schema file.
    Schema,
    /// A `.wfl` rule file.
    Rules,
}

/// What a `use` declaration names, by its extension.
pub open spec fn use_kind_spec(path: Seq<char>) -> Result<UseKind, Seq<char>> {
    let ext = extension_of(path);
    if ext == "wfs"@ {
        Ok(UseKind::Schema)
    } else if ext == "wfl"@ {
        Ok(UseKind::Rules)
    } else {
        Err("unsupported file extension '"@ + ext + "' in use declaration: "@ + path)
    }
}

/// What a `use` declaration names: `.wfs` schemas, `.wfl` rules, anything
/// else is an error.
pub fn use_kind(path: &str) -> (r: Result<UseKind, WfgenError>)
    ensures
        match r {
            Ok(k) => use_kind_spec(path@) == Ok::<UseKind, Seq<char>>(k),
            Err(e) => e.reason == WfgenReason::Validation && use_kind_spec(path@) == Err::<UseKind, Seq<char>>(e.detail@),
        },
{
    let name = after_last_exec(path, '/');
    let ext0 = after_last_exec(name.as_str(), '.');
    let nl = name.as_str().unicode_len();
    let el = ext0.as_str().unicode_len();
    let ext = if el == nl || (nl > 0 && el == nl - 1) {
        String::new()
    } else {
        ext0
    };
    assert(ext@ == extension_of(path@));
    if crate::text::str_is(ext.as_str(), "wfs") {
        return Ok(UseKind::Schema);
    }
    if crate::text::str_is(ext.as_str(), "wfl") {
        return Ok(UseKind::Rules);
    }
    let mut m = String::from_str("unsupported file extension '");
    m.append(ext.as_str());
    m.append("' in use declaration: ");
    m.append(path);
    Err(WfgenError::new(WfgenReason::Validation, m))
}

// ---------------------------------------------------------------------------
// Value files
// ---------------------------------------------------------------------------

/// The kind name of a JSON value.
pub open spec fn kind_name(l: JsonLayoutModel) -> Seq<char> {
    match l {
        JsonLayoutModel::Null => "null"@,
        JsonLayoutModel::Bool(_) => "bool"@,
        JsonLayoutModel::Number(_) => "number"@,
        JsonLayoutModel::Str(_) => "string"@,
        JsonLayoutModel::Array(_) => "array"@,
        JsonLayoutModel::Object(_) => "object"@,
        JsonLayoutModel::Invalid(_) => "invalid"@,
    }
}

/// The kind name of a JSON value.
pub fn json_type_name(l: &JsonLayout) -> (r: &'static str)
    ensures
        r@ == kind_name(l@),
{
    match l {
        JsonLayout::Null => "null",
        JsonLayout::Bool(_) => "bool",
        JsonLayout::Number(_) => "number",
        JsonLayout::Str(_) => "string",
        JsonLayout::Array(_) => "array",
        JsonLayout::Object(_) => "object",
        JsonLayout::Invalid(_) => "invalid",
    }
}

/// The first item that is not an object.
pub open spec fn first_non_object(items: Seq<Seq<char>>, i: int) -> Option<int>
    decreases items.len() - i,
{
    if i < 0 || i >= items.len() {
        None
    } else if !(json_layout_of(items[i]) is Object) {
        Some(i)
    } else {
        first_non_object(items, i + 1)
    }
}

/// Whether a value file's JSON has the shape of records: an object, or a
/// non-empty array of objects (empty allowed with `allow_empty`).
pub open spec fn records_check(text: Seq<char>, path: Seq<char>, label: Seq<char>, allow_empty: bool) -> Option<Seq<char>> {
    match json_layout_of(text) {
        JsonLayoutModel::Object(_) => None,
        JsonLayoutModel::Array(items) => if items.len() == 0 {
            if allow_empty {
                None
            } else {
                Some(label + seq![' '] + path + " 的记录数组为空"@)
            }
        } else {
            match first_non_object(items, 0) {
                Some(k) => Some(
                    label + seq![' '] + path + " 的记录数组元素必须是 JSON object，实际有 "@ + kind_name(
                        json_layout_of(items[k]),
                    ),
                ),
                None => None,
            }
        },
        other => Some(
            label + seq![' '] + path + " 的顶层必须是 JSON object 或 object 数组，实际有 "@ + kind_name(other),
        ),
    }
}

/// Checks that a value file's JSON has the shape of records; passes it on.
pub fn validate_records(text: String, path: &str, label: &str, allow_empty: bool) -> (r: Result<String, WfgenError>)
    ensures
        match r {
            Ok(t) => t == text && records_check(text@, path@, label@, allow_empty) is None,
            Err(e) => e.reason == WfgenReason::Validation && records_check(text@, path@, label@, allow_empty) == Some(
                e.detail@,
            ),
        },
{
    let lay = json_layout(text.as_str());
    match &lay {
        JsonLayout::Object(_) => Ok(text),
        JsonLayout::Array(items) => {
            if items.len() == 0 {
                if allow_empty {
                    return Ok(text);
                }
                let mut m = String::from_str(label);
                crate::wfg_lexer::push_char(&mut m, ' ');
                m.append(path);
                m.append(" 的记录数组为空");
                assert(m@ =~= label@ + seq![' '] + path@ + " 的记录数组为空"@);
                return Err(WfgenError::new(WfgenReason::Validation, m));
            }
            let mut i: usize = 0;
            while i < items.len()
                invariant
                    i <= items.len(),
                    items.len() > 0,
                    json_layout_of(text@) == JsonLayoutModel::Array(views(items@)),
                    first_non_object(views(items@), 0) == first_non_object(views(items@), i as int),
                decreases items.len() - i,
            {
                assert(views(items@)[i as int] == items@[i as int]@);
                let il = json_layout(items[i].as_str());
                match il {
                    JsonLayout::Object(_) => {},
                    _ => {
                        let mut m = String::from_str(label);
                        crate::wfg_lexer::push_char(&mut m, ' ');
                        m.append(path);
                        m.append(" 的记录数组元素必须是 JSON object，实际有 ");
                        m.append(json_type_name(&il));
                        assert(m@ =~= label@ + seq![' '] + path@ + " 的记录数组元素必须是 JSON object，实际有 "@ + kind_name(
                            json_layout_of(views(items@)[i as int]),
                        ));
                        return Err(WfgenError::new(WfgenReason::Validation, m));
                    },
                }
                i = i + 1;
            }
            Ok(text)
        },
        other => {
            let mut m = String::from_str(label);
            crate::wfg_lexer::push_char(&mut m, ' ');
            m.append(path);
            m.append(" 的顶层必须是 JSON object 或 object 数组，实际有 ");
            m.append(json_type_name(other));
            assert(m@ =~= label@ + seq![' '] + path@ + " 的顶层必须是 JSON object 或 object 数组，实际有 "@ + kind_name(
                other@,
            ));
            Err(WfgenError::new(WfgenReason::Validation, m))
        },
    }
}

/// The index of the first `\n` at or after `i` (the length when there is none).
pub open spec fn next_newline(s: Seq<char>, i: int) -> int
    decreases s.len() - i,
{
    if i < 0 || i >= s.len() {
        s.len() as int
    } else if s[i] == '\n' {
        i
    } else {
        next_newline(s, i + 1)
    }
}

/// The lines of a text from `i` on (`str::lines`, line ends not included;
/// a final line ending adds no empty line).
pub open spec fn lines_from(s: Seq<char>, i: int) -> Seq<Seq<char>>
    decreases s.len() - i,
{
    if i < 0 || i >= s.len() {
        Seq::empty()
    } else {
        let j = next_newline(s, i);
        proof {
            lemma_next_newline(s, i);
        }
        if j >= s.len() {
            seq![s.subrange(i, j)]
        } else {
            seq![s.subrange(i, j)] + lines_from(s, j + 1)
        }
    }
}

/// A line that holds no record: blank, or a `//` comment.
pub open spec fn skipped_line(t: Seq<char>) -> bool {
    t.len() == 0 || (t.len() >= 2 && t[0] == '/' && t[1] == '/')
}

/// The records of NDJSON lines from line `k` on (trimmed texts), or the
/// first line that is not JSON.
pub open spec fn ndjson_from(lines: Seq<Seq<char>>, k: int, acc: Seq<Seq<char>>) -> Result<Seq<Seq<char>>, Seq<char>>
    decreases lines.len() - k,
{
    if k < 0 || k >= lines.len() {
        Ok(acc)
    } else {
        let t = trimmed(lines[k]);
        if skipped_line(t) {
            ndjson_from(lines, k + 1, acc)
        } else {
            match json_layout_of(t) {
                JsonLayoutModel::Invalid(e) => Err("第 "@ + dec_text((k + 1) as nat) + " 行不是合法 JSON: "@ + e),
                _ => ndjson_from(lines, k + 1, acc.push(t)),
            }
        }
    }
}

/// Texts joined by `,`.
pub open spec fn comma_joined(ts: Seq<Seq<char>>) -> Seq<char>
    decreases ts.len(),
{
    if ts.len() == 0 {
        Seq::empty()
    } else if ts.len() == 1 {
        ts[0]
    } else {
        comma_joined(ts.drop_last()) + seq![','] + ts.last()
    }
}

/// What an NDJSON text gives: the JSON array of its records, or the error.
pub open spec fn ndjson_spec(content: Seq<char>) -> Result<Seq<char>, Seq<char>> {
    match ndjson_from(lines_from(content, 0), 0, Seq::empty()) {
        Ok(recs) => Ok(seq!['['] + comma_joined(recs) + seq![']']),
        Err(e) => Err(e),
    }
}

fn line_end(s: &str, n: usize, i: usize) -> (j: usize)
    requires
        n == s@.len(),
        i <= n,
    ensures
        j as int == next_newline(s@, i as int),
        i <= j <= n,
{
    let mut j = i;
    while j < n && s.get_char(j) != '\n'
        invariant
            n == s@.len(),
            i <= j <= n,
            next_newline(s@, i as int) == next_newline(s@, j as int),
        decreases n - j,
    {
        j = j + 1;
    }
    j
}

/// NDJSON: one JSON record per line; blank lines and `//` comment lines are
/// skipped. Gives the records as one JSON array text.
pub fn parse_ndjson_records(content: &str) -> (r: Result<String, String>)
    ensures
        match r {
            Ok(t) => ndjson_spec(content@) == Ok::<Seq<char>, Seq<char>>(t@),
            Err(e) => ndjson_spec(content@) == Err::<Seq<char>, Seq<char>>(e@),
        },
{
    let n = content.unicode_len();
    let ghost lines = lines_from(content@, 0);
    let mut out = String::new();
    crate::wfg_lexer::push_char(&mut out, '[');
    let ghost mut acc: Seq<Seq<char>> = Seq::empty();
    let mut any = false;
    let mut i: usize = 0;
    let mut k: usize = 0;
    while i < n
        invariant
            n == content@.len(),
            i <= n,
            lines == lines_from(content@, 0),
            lines_from(content@, i as int) == lines.skip(k as int),
            k <= lines.len(),
            ndjson_from(lines, 0, Seq::empty()) == ndjson_from(lines, k as int, acc),
            out@ == seq!['['] + comma_joined(acc),
            any == (acc.len() > 0),
            k <= i,
        decreases n - i,
    {
        let j = line_end(content, n, i);
        let line = content.substring_char(i, j);
        proof {
            if j >= n {
                assert(lines_from(content@, j + 1) =~= Seq::<Seq<char>>::empty());
                assert(lines_from(content@, i as int) =~= seq![content@.subrange(i as int, j as int)] + lines_from(content@, j + 1));
            }
            assert(lines_from(content@, i as int) == seq![content@.subrange(i as int, j as int)] + lines_from(content@, j + 1));
            assert(lines.skip(k as int)[0] == line@);
            assert(lines[k as int] == line@);
            assert(lines.skip(k as int + 1) =~= lines.skip(k as int).drop_first());
            assert(lines_from(content@, j + 1) =~= lines.skip(k as int).drop_first());
        }
        let t = trim_text(line);
        let tl = t.as_str().unicode_len();
        let skip = tl == 0 || (tl >= 2 && t.as_str().get_char(0) == '/' && t.as_str().get_char(1) == '/');
        if !skip {
            match json_layout(t.as_str()) {
                JsonLayout::Invalid(e) => {
                    let mut m = String::from_str("第 ");
                    push_decimal(&mut m, (k as u64) + 1);
                    m.append(" 行不是合法 JSON: ");
                    m.append(e.as_str());
                    assert(m@ =~= "第 "@ + dec_text((k + 1) as nat) + " 行不是合法 JSON: "@ + e@);
                    return Err(m);
                },
                _ => {
                    if any {
                        crate::wfg_lexer::push_char(&mut out, ',');
                    }
                    out.append(t.as_str());
                    proof {
                        let na = acc.push(t@);
                        assert(na.drop_last() =~= acc);
                        assert(out@ =~= seq!['['] + comma_joined(na));
                        acc = na;
                    }
                    any = true;
                },
            }
        }
        i = if j < n {
            j + 1
        } else {
            n
        };
        k = k + 1;
    }
    proof {
        assert(lines.skip(k as int).len() == 0);
        assert(k as int == lines.len());
    }
    crate::wfg_lexer::push_char(&mut out, ']');
    assert(out@ =~= seq!['['] + comma_joined(acc) + seq![']']);
    Ok(out)
}

pub proof fn lemma_next_newline(s: Seq<char>, i: int)
    requires
        0 <= i,
    ensures
        i <= next_newline(s, i) || i > s.len(),
        next_newline(s, i) <= s.len(),
    decreases s.len() - i,
{
    if i < s.len() && s[i] != '\n' {
        lemma_next_newline(s, i + 1);
    }
}

/// What a value file's content gives: one JSON document, or else NDJSON; then
/// the records check.
pub open spec fn value_file_spec(content: Seq<char>, path: Seq<char>, label: Seq<char>, allow_empty: bool) -> Result<Seq<char>, Seq<char>> {
    let parsed: Result<Seq<char>, Seq<char>> = match json_layout_of(content) {
        JsonLayoutModel::Invalid(e1) => match ndjson_spec(content) {
            Ok(t) => Ok(t),
            Err(e2) => Err(
                label + seq![' '] + path + " 不是合法 JSON，也不是合法的 NDJSON：单份解析失败（"@ + e1 + "）；逐行解析失败（"@
                    + e2 + "）"@,
            ),
        },
        _ => Ok(content),
    };
    match parsed {
        Err(e) => Err(e),
        Ok(t) => match records_check(t, path, label, allow_empty) {
            Some(e) => Err(e),
            None => Ok(t),
        },
    }
}

/// The records of a value file (`use from "..."` of an injection or a
/// replay), as JSON text: one JSON document (object or array of objects), or
/// NDJSON lines. `label` names the file kind in messages.
pub fn parse_value_file(content: &str, path: &str, label: &str, allow_empty: bool) -> (r: Result<String, WfgenError>)
    ensures
        match r {
            Ok(t) => value_file_spec(content@, path@, label@, allow_empty) == Ok::<Seq<char>, Seq<char>>(t@),
            Err(e) => e.reason == WfgenReason::Validation && value_file_spec(content@, path@, label@, allow_empty)
                == Err::<Seq<char>, Seq<char>>(e.detail@),
        },
{
    let text = match json_layout(content) {
        JsonLayout::Invalid(e1) => match parse_ndjson_records(content) {
            Ok(t) => t,
            Err(e2) => {
                let mut m = String::from_str(label);
                crate::wfg_lexer::push_char(&mut m, ' ');
                m.append(path);
                m.append(" 不是合法 JSON，也不是合法的 NDJSON：单份解析失败（");
                m.append(e1.as_str());
                m.append("）；逐行解析失败（");
                m.append(e2.as_str());
                m.append("）");
                assert(m@ =~= label@ + seq![' '] + path@ + " 不是合法 JSON，也不是合法的 NDJSON：单份解析失败（"@ + e1@
                    + "）；逐行解析失败（"@ + e2@ + "）"@);
                return Err(WfgenError::new(WfgenReason::Validation, m));
            },
        },
        _ => String::from_str(content),
    };
    validate_records(text, path, label, allow_empty)
}

// ---------------------------------------------------------------------------
// Value files of a scenario
// ---------------------------------------------------------------------------

/// Group `g` of case `c` exists.
pub open spec fn group_in_range(cases: Seq<m::InjectCase>, c: int, g: int) -> bool {
    0 <= c < cases.len() && 0 <= g < cases[c].groups.len()
}

/// Group `g` of case `c` takes its values from a file (`use from "..."`).
pub open spec fn reads_file(cases: Seq<m::InjectCase>, c: int, g: int) -> bool {
    group_in_range(cases, c, g) && cases[c].groups[g].source is File
}

/// Group `g` of case `c` takes its values from the file at `path`, resolved under `base`.
pub open spec fn is_file_ref(cases: Seq<m::InjectCase>, base: Seq<char>, c: int, g: int, path: Seq<char>) -> bool {
    group_in_range(cases, c, g) && match cases[c].groups[g].source {
        m::ValueSource::File(f) => path == relative_to(base, f),
        _ => false,
    }
}

/// Position `(c1, g1)` comes before `(c2, g2)`: an earlier case, or an earlier group of the same case.
pub open spec fn pos_before(c1: int, g1: int, c2: int, g2: int) -> bool {
    c1 < c2 || (c1 == c2 && g1 < g2)
}

/// The value files the injection groups read, in the order the cases and
/// their groups come: (case, group, path resolved under `base_dir`).
pub fn inject_value_files(wfg: &WfgFile, base_dir: &str) -> (r: Vec<(usize, usize, String)>)
    ensures
        forall|k: int| 0 <= k < r.len() ==> is_file_ref(cases_of(wfg@), base_dir@, (#[trigger] r@[k]).0 as int, r@[k].1 as int, r@[k].2@),
        forall|k1: int, k2: int| 0 <= k1 < k2 < r.len() ==> pos_before((#[trigger] r@[k1]).0 as int, r@[k1].1 as int, (#[trigger] r@[k2]).0 as int, r@[k2].1 as int),
        forall|c: int, g: int| #[trigger] reads_file(cases_of(wfg@), c, g) ==> exists|k: int|
            0 <= k < r.len() && (#[trigger] r@[k]).0 == c && r@[k].1 == g,
{
    let mut out: Vec<(usize, usize, String)> = Vec::new();
    let cases = match &wfg.syntax {
        Some(sy) => match &sy.injection {
            Some(inj) => &inj.cases,
            None => return out,
        },
        None => return out,
    };
    let ghost cs = cases_of(wfg@);
    assert(cs == views(cases@));
    let mut c: usize = 0;
    while c < cases.len()
        invariant
            c <= cases.len(),
            cs == views(cases@),
            cs == cases_of(wfg@),
            forall|k: int| 0 <= k < out.len() ==> is_file_ref(cs, base_dir@, (#[trigger] out@[k]).0 as int, out@[k].1 as int, out@[k].2@),
            forall|k: int| 0 <= k < out.len() ==> (#[trigger] out@[k]).0 < c,
            forall|k1: int, k2: int| 0 <= k1 < k2 < out.len() ==> pos_before((#[trigger] out@[k1]).0 as int, out@[k1].1 as int, (#[trigger] out@[k2]).0 as int, out@[k2].1 as int),
            forall|cc: int, gg: int| #[trigger] reads_file(cs, cc, gg) && cc < c ==> exists|k: int|
                0 <= k < out.len() && (#[trigger] out@[k]).0 == cc && out@[k].1 == gg,
        decreases cases.len() - c,
    {
        let groups = &cases[c].groups;
        assert(cs[c as int].groups == views(groups@));
        let mut g: usize = 0;
        while g < groups.len()
            invariant
                c < cases.len(),
                g <= groups.len(),
                cs == views(cases@),
                cs[c as int].groups == views(groups@),
                forall|k: int| 0 <= k < out.len() ==> is_file_ref(cs, base_dir@, (#[trigger] out@[k]).0 as int, out@[k].1 as int, out@[k].2@),
                forall|k: int| 0 <= k < out.len() ==> pos_before((#[trigger] out@[k]).0 as int, out@[k].1 as int, c as int, g as int),
                forall|k1: int, k2: int| 0 <= k1 < k2 < out.len() ==> pos_before((#[trigger] out@[k1]).0 as int, out@[k1].1 as int, (#[trigger] out@[k2]).0 as int, out@[k2].1 as int),
                forall|cc: int, gg: int| #[trigger] reads_file(cs, cc, gg) && pos_before(cc, gg, c as int, g as int) ==> exists|k: int|
                    0 <= k < out.len() && (#[trigger] out@[k]).0 == cc && out@[k].1 == gg,
            decreases groups.len() - g,
        {
            assert(cs[c as int].groups[g as int] == groups@[g as int]@);
            let ghost before = out@;
            match &groups[g].source {
                ValueSource::File(f) => {
                    let path = resolve_relative(base_dir, f.as_str());
                    out.push((c, g, path));
                    assert(out@[before.len() as int] == (c, g, path));
                    assert(forall|k: int| 0 <= k < before.len() ==> out@[k] == before[k]);
                },
                _ => {},
            }
            assert forall|cc: int, gg: int| #[trigger] reads_file(cs, cc, gg) && pos_before(cc, gg, c as int, g as int + 1) implies exists|k: int|
                0 <= k < out.len() && (#[trigger] out@[k]).0 == cc && out@[k].1 == gg by {
                if cc == c && gg == g {
                    assert(out@[before.len() as int].0 == cc);
                } else {
                    let k = choose|k: int| 0 <= k < before.len() && (#[trigger] before[k]).0 == cc && before[k].1 == gg;
                    assert(out@[k] == before[k]);
                }
            }
            g = g + 1;
        }
        assert forall|cc: int, gg: int| #[trigger] reads_file(cs, cc, gg) && cc < c + 1 implies exists|k: int|
            0 <= k < out.len() && (#[trigger] out@[k]).0 == cc && out@[k].1 == gg by {
            if cc == c {
                assert(pos_before(cc, gg, c as int, g as int));
            }
        }
        c = c + 1;
    }
    out
}

/// The file with group `g` of case `c` taking the values `s`.
pub open spec fn with_group_source(f: m::WfgFile, c: int, g: int, s: m::ValueSource) -> m::WfgFile {
    match f.syntax {
        Some(sy) => match sy.injection {
            Some(inj) => {
                let case = inj.cases[c];
                let group = m::UseGroup { count: case.groups[g].count, source: s };
                let new_case = m::InjectCase { groups: case.groups.update(g, group), ..case };
                let new_inj = m::SyntaxInjectionBlock { cases: inj.cases.update(c, new_case) };
                m::WfgFile { syntax: Some(m::SyntaxScenario { injection: Some(new_inj), ..sy }), ..f }
            },
            None => f,
        },
        None => f,
    }
}

/// Once a group's `use from` is replaced by its records, that group reads no
/// file, and every other group reads a file exactly when it did before.
pub proof fn lemma_applied_group_reads_no_file(f: m::WfgFile, c: int, g: int, t: Seq<char>)
    requires
        group_in_range(cases_of(f), c, g),
    ensures
        !reads_file(cases_of(with_group_source(f, c, g, m::ValueSource::Json(t))), c, g),
        forall|c2: int, g2: int| !(c2 == c && g2 == g) ==> #[trigger] reads_file(
            cases_of(with_group_source(f, c, g, m::ValueSource::Json(t))),
            c2,
            g2,
        ) == reads_file(cases_of(f), c2, g2),
{
    let after = cases_of(with_group_source(f, c, g, m::ValueSource::Json(t)));
    let cs = cases_of(f);
    assert(after.len() == cs.len());
    assert forall|c2: int, g2: int| !(c2 == c && g2 == g) implies #[trigger] reads_file(after, c2, g2) == reads_file(
        cs,
        c2,
        g2,
    ) by {
        if 0 <= c2 < cs.len() && c2 != c {
            assert(after[c2] == cs[c2]);
        }
        if c2 == c {
            assert(after[c2].groups.len() == cs[c2].groups.len());
            if 0 <= g2 < cs[c2].groups.len() {
                assert(after[c2].groups[g2] == cs[c2].groups[g2]);
            }
        }
    }
}

/// Puts the records of an injection value file (read from `resolved`) in
/// place of group `g` of case `c`'s `use from`: the records as JSON text, or
/// the error of the file's shape (the scenario unchanged).
pub fn apply_inject_value_file(
    wfg: &mut WfgFile,
    case_idx: usize,
    group_idx: usize,
    resolved: &str,
    content: &str,
) -> (r: Result<(), WfgenError>)
    requires
        group_in_range(cases_of(old(wfg)@), case_idx as int, group_idx as int),
    ensures
        match r {
            Ok(()) => value_file_spec(content@, resolved@, "inject value file"@, false) matches Ok(t) && final(wfg)@
                == with_group_source(old(wfg)@, case_idx as int, group_idx as int, m::ValueSource::Json(t)),
            Err(e) => e.reason == WfgenReason::Validation && value_file_spec(
                content@,
                resolved@,
                "inject value file"@,
                false,
            ) == Err::<Seq<char>, Seq<char>>(e.detail@) && final(wfg)@ == old(wfg)@,
        },
{
    let text = match parse_value_file(content, resolved, "inject value file", false) {
        Ok(t) => t,
        Err(e) => return Err(e),
    };
    let ghost old_f = wfg@;
    let mut sy = wfg.syntax.take().unwrap();
    let mut inj = sy.injection.take().unwrap();
    let ghost old_cases = views(inj.cases@);
    let mut case = inj.cases.remove(case_idx);
    let ghost old_groups = views(case.groups@);
    let mut group = case.groups.remove(group_idx);
    let ghost count = group.count;
    group.source = ValueSource::Json(text);
    case.groups.insert(group_idx, group);
    assert(views(case.groups@) =~= old_groups.update(group_idx as int, m::UseGroup { count, source: m::ValueSource::Json(text@) }));
    inj.cases.insert(case_idx, case);
    assert(views(inj.cases@) =~= old_cases.update(case_idx as int, case@));
    sy.injection = Some(inj);
    wfg.syntax = Some(sy);
    assert(wfg@ == with_group_source(old_f, case_idx as int, group_idx as int, m::ValueSource::Json(text@)));
    Ok(())
}

/// The `replay` statements of a file.
pub open spec fn replays_of(f: m::WfgFile) -> Seq<m::ReplayStmt> {
    match f.syntax {
        Some(sy) => sy.replays,
        None => Seq::empty(),
    }
}

/// The value file each `replay` statement reads, resolved under `base_dir`, in order.
pub fn replay_value_files(wfg: &WfgFile, base_dir: &str) -> (r: Vec<String>)
    ensures
        views(r@) == replays_of(wfg@).map_values(|st: m::ReplayStmt| relative_to(base_dir@, st.file)),
{
    let mut out: Vec<String> = Vec::new();
    let replays = match &wfg.syntax {
        Some(sy) => &sy.replays,
        None => {
            assert(views(out@) =~= replays_of(wfg@).map_values(|st: m::ReplayStmt| relative_to(base_dir@, st.file)));
            return out;
        },
    };
    let ghost rs = replays_of(wfg@);
    assert(rs == views(replays@));
    let mut i: usize = 0;
    while i < replays.len()
        invariant
            i <= replays.len(),
            rs == views(replays@),
            views(out@) == rs.take(i as int).map_values(|st: m::ReplayStmt| relative_to(base_dir@, st.file)),
        decreases replays.len() - i,
    {
        assert(rs[i as int] == replays@[i as int]@);
        let p = resolve_relative(base_dir, replays[i].file.as_str());
        assert(rs.take(i as int + 1).map_values(|st: m::ReplayStmt| relative_to(base_dir@, st.file)) =~= rs.take(
            i as int,
        ).map_values(|st: m::ReplayStmt| relative_to(base_dir@, st.file)).push(p@));
        assert(views(out@.push(p)) =~= views(out@).push(p@));
        out.push(p);
        i = i + 1;
    }
    assert(rs.take(i as int) =~= rs);
    out
}

/// The file with `replay` statement `i` holding the records `t`.
pub open spec fn with_replay_records(f: m::WfgFile, i: int, t: Seq<char>) -> m::WfgFile {
    match f.syntax {
        Some(sy) => m::WfgFile {
            syntax: Some(
                m::SyntaxScenario { replays: sy.replays.update(i, m::ReplayStmt { records: Some(t), ..sy.replays[i] }), ..sy },
            ),
            ..f
        },
        None => f,
    }
}

/// Puts the records of a replay value file (read from `resolved`) into
/// `replay` statement `i`: an empty array is accepted here (the validation
/// reports it).
pub fn apply_replay_value_file(wfg: &mut WfgFile, idx: usize, resolved: &str, content: &str) -> (r: Result<(), WfgenError>)
    requires
        idx < replays_of(old(wfg)@).len(),
    ensures
        match r {
            Ok(()) => value_file_spec(content@, resolved@, "replay file"@, true) matches Ok(t) && final(wfg)@
                == with_replay_records(old(wfg)@, idx as int, t),
            Err(e) => e.reason == WfgenReason::Validation && value_file_spec(content@, resolved@, "replay file"@, true)
                == Err::<Seq<char>, Seq<char>>(e.detail@) && final(wfg)@ == old(wfg)@,
        },
{
    let text = match parse_value_file(content, resolved, "replay file", true) {
        Ok(t) => t,
        Err(e) => return Err(e),
    };
    let ghost old_f = wfg@;
    let mut sy = wfg.syntax.take().unwrap();
    let ghost old_rs = views(sy.replays@);
    let mut st = sy.replays.remove(idx);
    st.records = Some(text);
    sy.replays.insert(idx, st);
    assert(views(sy.replays@) =~= old_rs.update(idx as int, st@));
    wfg.syntax = Some(sy);
    assert(wfg@ == with_replay_records(old_f, idx as int, text@));
    Ok(())
}

} // verus!
