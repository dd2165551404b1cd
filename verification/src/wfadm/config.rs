//! `wfadm config`: what each subcommand loads, and how it filters and prints
//! what the configuration loader gave back.

use vstd::prelude::*;

use crate::wfg_ast::views;

verus! {

broadcast use vstd::string::group_string_axioms;

/// Where a configuration set is loaded from.
#[derive(Debug, Clone, PartialEq)]
pub struct LoadArgs {
    pub config: String,
    pub overlays: Vec<String>,
    pub vars: Vec<String>,
    pub work_dir: Option<String>,
}

/// The `wfadm config` subcommands.
#[derive(Debug, Clone, PartialEq)]
pub enum ConfigCommands {
    /// Render merged configuration (raw or expanded).
    Render { load: LoadArgs, raw: bool },
    /// Show the file origin of each config key.
    Origins { load: LoadArgs, path_prefix: Vec<String> },
    /// List all resolved configuration variables.
    Vars { load: LoadArgs, var_prefix: Vec<String> },
    /// Diff two configuration sets.
    Diff {
        load: LoadArgs,
        to_config: Option<String>,
        to_overlays: Vec<String>,
        to_vars: Vec<String>,
        to_work_dir: Option<String>,
        path_prefix: Vec<String>,
        expanded: bool,
    },
}

/// What the loader is asked for.
#[derive(Debug, Clone, Copy, PartialEq, Eq, Structural)]
pub enum LoadKind {
    /// The merged TOML text.
    MergedToml,
    /// The merged TOML text with variables expanded.
    ExpandedToml,
    /// The merged key table with origins.
    Raw,
    /// The key table with variables expanded.
    ExpandedRaw,
    /// The effective variables.
    Vars,
}

/// The loads a subcommand needs: the first set, and for `diff` the second one
/// (`config: None` there means the first set's config file).
#[derive(Debug, Clone, PartialEq)]
pub struct ConfigPlan {
    pub left: LoadArgs,
    pub right: Option<(Option<String>, LoadArgs)>,
    pub kind: LoadKind,
}

/// The loads a subcommand needs.
pub open spec fn plan_kind(c: ConfigCommands) -> LoadKind {
    match c {
        ConfigCommands::Render { raw, .. } => if raw {
            LoadKind::MergedToml
        } else {
            LoadKind::ExpandedToml
        },
        ConfigCommands::Origins { .. } => LoadKind::Raw,
        ConfigCommands::Vars { .. } => LoadKind::Vars,
        ConfigCommands::Diff { expanded, .. } => if expanded {
            LoadKind::ExpandedRaw
        } else {
            LoadKind::Raw
        },
    }
}

/// Runs a `wfadm config` subcommand up to the loads: says what to load.
/// The caller performs them and prints with [`origins_lines`],
/// [`vars_lines`] or [`diff_lines`].
pub fn run(command: ConfigCommands) -> (r: ConfigPlan)
    ensures
        r.kind == plan_kind(command),
        match command {
            ConfigCommands::Render { load, .. } => r.left == load && r.right is None,
            ConfigCommands::Origins { load, .. } => r.left == load && r.right is None,
            ConfigCommands::Vars { load, .. } => r.left == load && r.right is None,
            ConfigCommands::Diff { load, to_config, to_overlays, to_vars, to_work_dir, .. } => r.left == load
                && (r.right matches Some((c, la)) && c == to_config && la.config@ == Seq::<char>::empty()
                && la.overlays == to_overlays && la.vars == to_vars && la.work_dir == to_work_dir),
        },
{
    match command {
        ConfigCommands::Render { load, raw } => ConfigPlan {
            left: load,
            right: None,
            kind: if raw {
                LoadKind::MergedToml
            } else {
                LoadKind::ExpandedToml
            },
        },
        ConfigCommands::Origins { load, .. } => ConfigPlan { left: load, right: None, kind: LoadKind::Raw },
        ConfigCommands::Vars { load, .. } => ConfigPlan { left: load, right: None, kind: LoadKind::Vars },
        ConfigCommands::Diff { load, to_config, to_overlays, to_vars, to_work_dir, expanded, .. } => {
            let right = LoadArgs {
                config: String::new(),
                overlays: to_overlays,
                vars: to_vars,
                work_dir: to_work_dir,
            };
            ConfigPlan {
                left: load,
                right: Some((to_config, right)),
                kind: if expanded {
                    LoadKind::ExpandedRaw
                } else {
                    LoadKind::Raw
                },
            }
        },
    }
}

// ---------------------------------------------------------------------------
// Prefix matching
// ---------------------------------------------------------------------------

/// `path` is `prefix` itself or lies under it (`prefix.key`, `prefix[0]`).
pub open spec fn path_under(path: Seq<char>, prefix: Seq<char>) -> bool {
    path == prefix || (prefix.len() < path.len() && path.take(prefix.len() as int) == prefix && (
    path[prefix.len() as int] == '.' || path[prefix.len() as int] == '['))
}

/// No prefixes are given, or `path` lies under one of them.
pub open spec fn path_selected(path: Seq<char>, prefixes: Seq<Seq<char>>) -> bool {
    prefixes.len() == 0 || exists|i: int| 0 <= i < prefixes.len() && path_under(path, prefixes[i])
}

/// No prefixes are given, or `key` starts with one of them.
pub open spec fn key_selected(key: Seq<char>, prefixes: Seq<Seq<char>>) -> bool {
    prefixes.len() == 0 || exists|i: int|
        0 <= i < prefixes.len() && prefixes[i].len() <= key.len() && key.take(prefixes[i].len() as int)
            == prefixes[i]
}

/// Whether `s` starts with `p`.
pub fn starts_with(s: &str, p: &str) -> (r: bool)
    ensures
        r == (p@.len() <= s@.len() && s@.take(p@.len() as int) == p@),
{
    let n = s.unicode_len();
    let k = p.unicode_len();
    if k > n {
        return false;
    }
    let mut i: usize = 0;
    while i < k
        invariant
            k == p@.len(),
            n == s@.len(),
            k <= n,
            i <= k,
            forall|j: int| 0 <= j < i ==> s@[j] == p@[j],
        decreases k - i,
    {
        if s.get_char(i) != p.get_char(i) {
            return false;
        }
        i = i + 1;
    }
    assert(s@.take(k as int) =~= p@);
    true
}

/// Whether `path` is `prefix` or lies under it.
pub fn path_matches_prefix(path: &str, prefix: &str) -> (r: bool)
    ensures
        r == path_under(path@, prefix@),
{
    if crate::text::str_is(path, prefix) {
        return true;
    }
    let n = path.unicode_len();
    let k = prefix.unicode_len();
    if k < n && starts_with(path, prefix) {
        let c = path.get_char(k);
        c == '.' || c == '['
    } else {
        false
    }
}

/// Whether no prefix is given or `path` lies under one of `prefixes`.
pub fn matches_any_prefix(path: &str, prefixes: &Vec<String>) -> (r: bool)
    ensures
        r == path_selected(path@, views(prefixes@)),
{
    if prefixes.len() == 0 {
        return true;
    }
    let mut i: usize = 0;
    while i < prefixes.len()
        invariant
            i <= prefixes.len(),
            forall|j: int| 0 <= j < i ==> !path_under(path@, views(prefixes@)[j]),
        decreases prefixes.len() - i,
    {
        if path_matches_prefix(path, prefixes[i].as_str()) {
            assert(path_under(path@, views(prefixes@)[i as int]));
            return true;
        }
        i = i + 1;
    }
    false
}

/// Whether no prefix is given or `key` starts with one of `prefixes`.
pub fn var_matches(key: &str, prefixes: &Vec<String>) -> (r: bool)
    ensures
        r == key_selected(key@, views(prefixes@)),
{
    if prefixes.len() == 0 {
        return true;
    }
    let mut i: usize = 0;
    while i < prefixes.len()
        invariant
            i <= prefixes.len(),
            forall|j: int|
                0 <= j < i ==> !(views(prefixes@)[j].len() <= key@.len() && key@.take(
                    views(prefixes@)[j].len() as int,
                ) == views(prefixes@)[j]),
        decreases prefixes.len() - i,
    {
        if starts_with(key, prefixes[i].as_str()) {
            assert(views(prefixes@)[i as int] == prefixes@[i as int]@);
            return true;
        }
        i = i + 1;
    }
    false
}

// ---------------------------------------------------------------------------
// Output
// ---------------------------------------------------------------------------

/// The selected items of `items` (by `keep`), each printed with `show`; `none`
/// when nothing is selected.
pub open spec fn selected_lines<A>(
    items: Seq<A>,
    keep: spec_fn(A) -> bool,
    show: spec_fn(A) -> Seq<Seq<char>>,
    none: Seq<char>,
) -> Seq<Seq<char>> {
    let lines = shown(items, keep, show);
    if lines.len() == 0 {
        seq![none]
    } else {
        lines
    }
}

/// The lines of the selected items, in order.
pub open spec fn shown<A>(items: Seq<A>, keep: spec_fn(A) -> bool, show: spec_fn(A) -> Seq<Seq<char>>) -> Seq<Seq<char>>
    decreases items.len(),
{
    if items.len() == 0 {
        Seq::empty()
    } else {
        shown(items.drop_last(), keep, show) + if keep(items.last()) {
            show(items.last())
        } else {
            Seq::empty()
        }
    }
}

pub proof fn lemma_shown_step<A>(items: Seq<A>, i: int, keep: spec_fn(A) -> bool, show: spec_fn(A) -> Seq<Seq<char>>)
    requires
        0 <= i < items.len(),
    ensures
        shown(items.take(i + 1), keep, show) == shown(items.take(i), keep, show) + if keep(items[i]) {
            show(items[i])
        } else {
            Seq::empty()
        },
{
    assert(items.take(i + 1).drop_last() =~= items.take(i));
}

/// `path<TAB>origin`
pub open spec fn origin_line(e: (Seq<char>, Seq<char>)) -> Seq<Seq<char>> {
    seq![e.0 + seq!['\t'] + e.1]
}

/// The lines of `config origins`: each selected (path, origin) entry, or
/// `(no matching paths)`.
pub open spec fn origins_spec(entries: Seq<(Seq<char>, Seq<char>)>, prefixes: Seq<Seq<char>>) -> Seq<Seq<char>> {
    selected_lines(
        entries,
        |e: (Seq<char>, Seq<char>)| path_selected(e.0, prefixes),
        |e: (Seq<char>, Seq<char>)| origin_line(e),
        "(no matching paths)"@,
    )
}

/// The lines of `config origins` for the (path, origin) entries the loader gave.
pub fn origins_lines(entries: &Vec<(String, String)>, prefixes: &Vec<String>) -> (r: Vec<String>)
    ensures
        views(r@) == origins_spec(views(entries@), views(prefixes@)),
{
    let ghost keep = |e: (Seq<char>, Seq<char>)| path_selected(e.0, views(prefixes@));
    let ghost show = |e: (Seq<char>, Seq<char>)| origin_line(e);
    let mut out: Vec<String> = Vec::new();
    let mut i: usize = 0;
    assert(views(entries@).take(0) =~= Seq::<(Seq<char>, Seq<char>)>::empty());
    while i < entries.len()
        invariant
            i <= entries.len(),
            keep == (|e: (Seq<char>, Seq<char>)| path_selected(e.0, views(prefixes@))),
            show == (|e: (Seq<char>, Seq<char>)| origin_line(e)),
            views(out@) == shown(views(entries@).take(i as int), keep, show),
        decreases entries.len() - i,
    {
        proof {
            lemma_shown_step(views(entries@), i as int, keep, show);
        }
        let e = &entries[i];
        assert(views(entries@)[i as int] == e@);
        if matches_any_prefix(e.0.as_str(), prefixes) {
            let mut line = e.0.clone();
            crate::wfg_lexer::push_char(&mut line, '\t');
            line.append(e.1.as_str());
            assert(line@ =~= e@.0 + seq!['\t'] + e@.1);
            let ghost before = out@;
            out.push(line);
            assert(views(out@) =~= views(before).push(line@));
            assert(views(out@) =~= views(before) + origin_line(e@));
        } else {
            assert(views(out@) =~= views(out@) + Seq::<Seq<char>>::empty());
        }
        i = i + 1;
    }
    assert(views(entries@).take(i as int) =~= views(entries@));
    if out.len() == 0 {
        let mut v: Vec<String> = Vec::new();
        v.push(String::from_str("(no matching paths)"));
        assert(views(v@) =~= seq!["(no matching paths)"@]);
        v
    } else {
        out
    }
}

/// An effective configuration variable.
#[derive(Debug, Clone, PartialEq)]
pub struct VarEntry {
    pub key: String,
    pub value: String,
    pub source: String,
}

impl View for VarEntry {
    type V = (Seq<char>, Seq<char>, Seq<char>);

    open spec fn view(&self) -> (Seq<char>, Seq<char>, Seq<char>) {
        (self.key@, self.value@, self.source@)
    }
}

/// `key<TAB>value<TAB>source`
pub open spec fn var_line(e: (Seq<char>, Seq<char>, Seq<char>)) -> Seq<Seq<char>> {
    seq![e.0 + seq!['\t'] + e.1 + seq!['\t'] + e.2]
}

/// The lines of `config vars`: each selected variable, or `(no matching vars)`.
pub open spec fn vars_spec(entries: Seq<(Seq<char>, Seq<char>, Seq<char>)>, prefixes: Seq<Seq<char>>) -> Seq<Seq<char>> {
    selected_lines(
        entries,
        |e: (Seq<char>, Seq<char>, Seq<char>)| key_selected(e.0, prefixes),
        |e: (Seq<char>, Seq<char>, Seq<char>)| var_line(e),
        "(no matching vars)"@,
    )
}

/// The lines of `config vars` for the variables the loader gave.
pub fn vars_lines(entries: &Vec<VarEntry>, prefixes: &Vec<String>) -> (r: Vec<String>)
    ensures
        views(r@) == vars_spec(views(entries@), views(prefixes@)),
{
    let ghost keep = |e: (Seq<char>, Seq<char>, Seq<char>)| key_selected(e.0, views(prefixes@));
    let ghost show = |e: (Seq<char>, Seq<char>, Seq<char>)| var_line(e);
    let mut out: Vec<String> = Vec::new();
    let mut i: usize = 0;
    assert(views(entries@).take(0) =~= Seq::<(Seq<char>, Seq<char>, Seq<char>)>::empty());
    while i < entries.len()
        invariant
            i <= entries.len(),
            keep == (|e: (Seq<char>, Seq<char>, Seq<char>)| key_selected(e.0, views(prefixes@))),
            show == (|e: (Seq<char>, Seq<char>, Seq<char>)| var_line(e)),
            views(out@) == shown(views(entries@).take(i as int), keep, show),
        decreases entries.len() - i,
    {
        proof {
            lemma_shown_step(views(entries@), i as int, keep, show);
        }
        let e = &entries[i];
        assert(views(entries@)[i as int] == e@);
        if var_matches(e.key.as_str(), prefixes) {
            let mut line = e.key.clone();
            crate::wfg_lexer::push_char(&mut line, '\t');
            line.append(e.value.as_str());
            crate::wfg_lexer::push_char(&mut line, '\t');
            line.append(e.source.as_str());
            assert(line@ =~= e@.0 + seq!['\t'] + e@.1 + seq!['\t'] + e@.2);
            let ghost before = out@;
            out.push(line);
            assert(views(out@) =~= views(before).push(line@));
            assert(views(out@) =~= views(before) + var_line(e@));
        } else {
            assert(views(out@) =~= views(out@) + Seq::<Seq<char>>::empty());
        }
        i = i + 1;
    }
    assert(views(entries@).take(i as int) =~= views(entries@));
    if out.len() == 0 {
        let mut v: Vec<String> = Vec::new();
        v.push(String::from_str("(no matching vars)"));
        assert(views(v@) =~= seq!["(no matching vars)"@]);
        v
    } else {
        out
    }
}

/// One changed key between two configuration sets (values as TOML text).
#[derive(Debug, Clone, PartialEq)]
pub struct ConfigChange {
    pub path: String,
    pub old_value: Option<String>,
    pub new_value: Option<String>,
    pub old_origin: Option<String>,
    pub new_origin: Option<String>,
}

pub struct ChangeModel {
    pub path: Seq<char>,
    pub old_value: Option<Seq<char>>,
    pub new_value: Option<Seq<char>>,
    pub old_origin: Option<Seq<char>>,
    pub new_origin: Option<Seq<char>>,
}

impl View for ConfigChange {
    type V = ChangeModel;

    open spec fn view(&self) -> ChangeModel {
        ChangeModel {
            path: self.path@,
            old_value: crate::wfg_ast::opt_view(self.old_value),
            new_value: crate::wfg_ast::opt_view(self.new_value),
            old_origin: crate::wfg_ast::opt_view(self.old_origin),
            new_origin: crate::wfg_ast::opt_view(self.new_origin),
        }
    }
}

/// A value, or `<none>`.
pub open spec fn or_none(v: Option<Seq<char>>) -> Seq<char> {
    match v {
        Some(t) => t,
        None => "<none>"@,
    }
}

/// The five lines that show one change.
pub open spec fn change_lines(c: ChangeModel) -> Seq<Seq<char>> {
    seq![
        "path: "@ + c.path,
        "  old: "@ + or_none(c.old_value),
        "  new: "@ + or_none(c.new_value),
        "  old_origin: "@ + or_none(c.old_origin),
        "  new_origin: "@ + or_none(c.new_origin),
    ]
}

/// The lines of `config diff`: each selected change, or `(no changes)`.
pub open spec fn diff_spec(changes: Seq<ChangeModel>, prefixes: Seq<Seq<char>>) -> Seq<Seq<char>> {
    selected_lines(
        changes,
        |c: ChangeModel| path_selected(c.path, prefixes),
        |c: ChangeModel| change_lines(c),
        "(no changes)"@,
    )
}

proof fn lemma_shown_remove_unkept<A>(
    items: Seq<A>,
    keep: spec_fn(A) -> bool,
    show: spec_fn(A) -> Seq<Seq<char>>,
    k: int,
)
    requires
        0 <= k < items.len(),
        !keep(items[k]),
    ensures
        shown(items.remove(k), keep, show) == shown(items, keep, show),
    decreases items.len(),
{
    if k == items.len() - 1 {
        assert(items.remove(k) =~= items.drop_last());
        assert(shown(items, keep, show) =~= shown(items.drop_last(), keep, show));
    } else {
        lemma_shown_remove_unkept(items.drop_last(), keep, show, k);
        assert(items.remove(k).drop_last() =~= items.drop_last().remove(k));
        assert(items.remove(k).last() == items.last());
    }
}

proof fn lemma_shown_none_kept<A>(items: Seq<A>, keep: spec_fn(A) -> bool, show: spec_fn(A) -> Seq<Seq<char>>)
    requires
        forall|i: int| 0 <= i < items.len() ==> !keep(#[trigger] items[i]),
    ensures
        shown(items, keep, show).len() == 0,
    decreases items.len(),
{
    if items.len() > 0 {
        assert(!keep(items[items.len() - 1]));
        lemma_shown_none_kept(items.drop_last(), keep, show);
    }
}

proof fn lemma_diff_drop_one(changes: Seq<ChangeModel>, prefixes: Seq<Seq<char>>, k: int)
    requires
        prefixes.len() > 0,
        0 <= k < changes.len(),
        forall|i: int| 0 <= i < prefixes.len() ==> !path_under(changes[k].path, #[trigger] prefixes[i]),
    ensures
        diff_spec(changes.remove(k), prefixes) == diff_spec(changes, prefixes),
{
    let keep = |c: ChangeModel| path_selected(c.path, prefixes);
    let show = |c: ChangeModel| change_lines(c);
    assert(!keep(changes[k]));
    lemma_shown_remove_unkept(changes, keep, show, k);
    assert(diff_spec(changes, prefixes) == selected_lines(changes, keep, show, "(no changes)"@));
    assert(diff_spec(changes.remove(k), prefixes) == selected_lines(changes.remove(k), keep, show, "(no changes)"@));
}

/// With path prefixes given, `config diff` prints nothing of a change whose
/// path is neither a prefix nor under one: leaving such a change out gives
/// the same lines, and when no change lies under a prefix the output is
/// `(no changes)` alone.
pub proof fn lemma_diff_keeps_only_prefixed_paths(changes: Seq<ChangeModel>, prefixes: Seq<Seq<char>>)
    requires
        prefixes.len() > 0,
    ensures
        forall|k: int| 0 <= k < changes.len() && (forall|i: int| 0 <= i < prefixes.len() ==> !path_under(
            changes[k].path,
            #[trigger] prefixes[i],
        )) ==> #[trigger] diff_spec(changes.remove(k), prefixes) == diff_spec(changes, prefixes),
        (forall|k: int, i: int| 0 <= k < changes.len() && 0 <= i < prefixes.len() ==> !path_under(
            #[trigger] changes[k].path,
            #[trigger] prefixes[i],
        )) ==> diff_spec(changes, prefixes) == seq!["(no changes)"@],
{
    let keep = |c: ChangeModel| path_selected(c.path, prefixes);
    let show = |c: ChangeModel| change_lines(c);
    assert forall|k: int| 0 <= k < changes.len() && (forall|i: int| 0 <= i < prefixes.len() ==> !path_under(
        changes[k].path,
        #[trigger] prefixes[i],
    )) implies #[trigger] diff_spec(changes.remove(k), prefixes) == diff_spec(changes, prefixes) by {
        lemma_diff_drop_one(changes, prefixes, k);
    }
    if forall|k: int, i: int| 0 <= k < changes.len() && 0 <= i < prefixes.len() ==> !path_under(
        #[trigger] changes[k].path,
        #[trigger] prefixes[i],
    ) {
        assert forall|k: int| 0 <= k < changes.len() implies !keep(#[trigger] changes[k]) by {
            assert(forall|i: int| 0 <= i < prefixes.len() ==> !path_under(changes[k].path, #[trigger] prefixes[i]));
        }
        lemma_shown_none_kept(changes, keep, show);
        assert(diff_spec(changes, prefixes) == selected_lines(changes, keep, show, "(no changes)"@));
    }
}

fn labelled(label: &str, v: &Option<String>) -> (r: String)
    ensures
        r@ == label@ + or_none(crate::wfg_ast::opt_view(*v)),
{
    let mut out = String::from_str(label);
    match v {
        Some(t) => out.append(t.as_str()),
        None => out.append("<none>"),
    }
    out
}

/// The lines of `config diff` for the changes the loader found.
pub fn diff_lines(changes: &Vec<ConfigChange>, prefixes: &Vec<String>) -> (r: Vec<String>)
    ensures
        views(r@) == diff_spec(views(changes@), views(prefixes@)),
{
    let ghost keep = |c: ChangeModel| path_selected(c.path, views(prefixes@));
    let ghost show = |c: ChangeModel| change_lines(c);
    let mut out: Vec<String> = Vec::new();
    let mut i: usize = 0;
    assert(views(changes@).take(0) =~= Seq::<ChangeModel>::empty());
    while i < changes.len()
        invariant
            i <= changes.len(),
            keep == (|c: ChangeModel| path_selected(c.path, views(prefixes@))),
            show == (|c: ChangeModel| change_lines(c)),
            views(out@) == shown(views(changes@).take(i as int), keep, show),
        decreases changes.len() - i,
    {
        proof {
            lemma_shown_step(views(changes@), i as int, keep, show);
        }
        let c = &changes[i];
        assert(views(changes@)[i as int] == c@);
        if matches_any_prefix(c.path.as_str(), prefixes) {
            let ghost before = out@;
            let mut l0 = String::from_str("path: ");
            l0.append(c.path.as_str());
            out.push(l0);
            out.push(labelled("  old: ", &c.old_value));
            out.push(labelled("  new: ", &c.new_value));
            out.push(labelled("  old_origin: ", &c.old_origin));
            out.push(labelled("  new_origin: ", &c.new_origin));
            assert(views(out@) =~= views(before) + change_lines(c@));
        } else {
            assert(views(out@) =~= views(out@) + Seq::<Seq<char>>::empty());
        }
        i = i + 1;
    }
    assert(views(changes@).take(i as int) =~= views(changes@));
    if out.len() == 0 {
        let mut v: Vec<String> = Vec::new();
        v.push(String::from_str("(no changes)"));
        assert(views(v@) =~= seq!["(no changes)"@]);
        v
    } else {
        out
    }
}

} // verus!
