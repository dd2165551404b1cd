//! `wfadm check`: the integrity result for a wf-rules project, from what the
//! caller found on disk.

use vstd::prelude::*;

use crate::text::{dec_text, push_decimal};

verus! {

broadcast use vstd::string::group_string_axioms;

/// Whether `toml` parses a text as a TOML document.
pub uninterp spec fn toml_accepts(text: Seq<char>) -> bool;

/// Parses `text` with `str::parse::<toml::Value>`; the contract claims only
/// that the answer is a function of the text (named [`toml_accepts`]).
#[verifier::external_body]
pub(crate) fn toml_is_valid(text: &str) -> (ok: bool)
    ensures
        ok == toml_accepts(text@),
{
    text.parse::<toml::Value>().is_ok()
}

/// What was found at `conf/wfusion.toml`.
#[derive(Debug, Clone, PartialEq)]
pub enum ConfFile {
    Missing,
    /// It exists but could not be read; the error as text.
    Unreadable(String),
    /// Its contents.
    Text(String),
}

/// What the check reads of a project directory. A count is `None` when its
/// directory does not exist, otherwise the number of files with the extension
/// in it (subdirectories included).
#[derive(Debug, Clone, PartialEq)]
pub struct ProjectFacts {
    pub conf: ConfFile,
    /// `.wfl` files under `models/rules/`.
    pub rules_wfl: Option<u64>,
    /// `.wfs` files under `models/schemas/`.
    pub schemas_wfs: Option<u64>,
    /// `.wfg` files under `models/scenarios/`.
    pub scenarios_wfg: Option<u64>,
    /// `topology/sinks/` is a directory.
    pub sinks_dir: bool,
    /// `topology/sinks/business.d/` is a directory.
    pub sinks_business: bool,
    /// `topology/sinks/infra.d/` is a directory.
    pub sinks_infra: bool,
    /// `topology/sinks/defaults.toml` exists.
    pub sinks_defaults: bool,
    /// `topology/sources/` is a directory.
    pub sources_dir: bool,
    /// `connectors/` is a directory.
    pub connectors_dir: bool,
    /// `connectors/sink.d/` is a directory.
    pub connectors_sink_d: bool,
}

/// Where a line of the report goes.
#[derive(Debug, Clone, Copy, PartialEq, Eq, Structural)]
pub enum Channel {
    Stdout,
    Stderr,
}

/// What a finding counts as.
#[derive(Debug, Clone, Copy, PartialEq, Eq, Structural)]
pub enum Tally {
    Pass,
    Warning,
    Error,
    Uncounted,
}

/// One line of the check's report.
#[derive(Debug, Clone, PartialEq)]
pub struct Finding {
    pub channel: Channel,
    pub tally: Tally,
    pub text: String,
}

pub struct FindingModel {
    pub channel: Channel,
    pub tally: Tally,
    pub text: Seq<char>,
}

impl View for Finding {
    type V = FindingModel;

    open spec fn view(&self) -> FindingModel {
        FindingModel { channel: self.channel, tally: self.tally, text: self.text@ }
    }
}

/// What the project check found: its lines in order, and how many passed, warned and failed.
#[derive(Debug)]
pub struct CheckOutcome {
    pub lines: Vec<Finding>,
    pub ok: u32,
    pub warn: u32,
    pub err: u32,
    pub result: Result<(), String>,
}

pub open spec fn fnd(channel: Channel, tally: Tally, text: Seq<char>) -> FindingModel {
    FindingModel { channel, tally, text }
}

pub open spec fn conf_findings(conf: ConfFile) -> Seq<FindingModel> {
    match conf {
        ConfFile::Missing => seq![fnd(Channel::Stderr, Tally::Error, "  [ERR] conf/wfusion.toml: not found"@)],
        ConfFile::Unreadable(e) => seq![
            fnd(Channel::Stderr, Tally::Error, "  [ERR] conf/wfusion.toml: read error: "@ + e@),
        ],
        ConfFile::Text(t) => if toml_accepts(t@) {
            seq![fnd(Channel::Stdout, Tally::Pass, "  [OK] conf/wfusion.toml: valid TOML"@)]
        } else {
            seq![fnd(Channel::Stderr, Tally::Error, "  [ERR] conf/wfusion.toml: invalid TOML"@)]
        },
    }
}

/// A directory of model files that should hold some.
pub open spec fn models_findings(dir: Seq<char>, ext: Seq<char>, count: Option<u64>) -> Seq<FindingModel> {
    match count {
        None => seq![fnd(Channel::Stderr, Tally::Warning, "  [WARN] "@ + dir + ": directory not found"@)],
        Some(n) => if n > 0 {
            seq![fnd(Channel::Stdout, Tally::Pass, "  [OK] "@ + dir + ": "@ + dec_text(n as nat) + " ."@ + ext + " file(s)"@)]
        } else {
            seq![fnd(Channel::Stderr, Tally::Warning, "  [WARN] "@ + dir + ": no ."@ + ext + " files found"@)]
        },
    }
}

pub open spec fn scenarios_findings(count: Option<u64>) -> Seq<FindingModel> {
    match count {
        None => Seq::empty(),
        Some(n) => if n > 0 {
            seq![fnd(Channel::Stdout, Tally::Pass, "  [OK] models/scenarios/: "@ + dec_text(n as nat) + " .wfg file(s)"@)]
        } else {
            seq![fnd(Channel::Stdout, Tally::Uncounted, "  [INFO] models/scenarios/: no .wfg files"@)]
        },
    }
}

pub open spec fn sink_part(part: Seq<char>, present: bool) -> FindingModel {
    if present {
        fnd(Channel::Stdout, Tally::Uncounted, "  [OK] topology/sinks/"@ + part + "/: present"@)
    } else {
        fnd(Channel::Stderr, Tally::Warning, "  [WARN] topology/sinks/"@ + part + "/: not found"@)
    }
}

pub open spec fn sinks_findings(f: ProjectFacts) -> Seq<FindingModel> {
    if f.sinks_dir {
        seq![
            sink_part("business.d"@, f.sinks_business),
            sink_part("infra.d"@, f.sinks_infra),
            if f.sinks_defaults {
                fnd(Channel::Stdout, Tally::Uncounted, "  [OK] topology/sinks/defaults.toml: present"@)
            } else {
                fnd(Channel::Stderr, Tally::Warning, "  [WARN] topology/sinks/defaults.toml: not found"@)
            },
        ]
    } else {
        seq![fnd(Channel::Stderr, Tally::Warning, "  [WARN] topology/sinks/: directory not found"@)]
    }
}

pub open spec fn sources_findings(present: bool) -> Seq<FindingModel> {
    if present {
        seq![fnd(Channel::Stdout, Tally::Pass, "  [OK] topology/sources/: present"@)]
    } else {
        Seq::empty()
    }
}

pub open spec fn connectors_findings(dir: bool, sink_d: bool) -> Seq<FindingModel> {
    if !dir {
        seq![fnd(Channel::Stderr, Tally::Warning, "  [WARN] connectors/: directory not found"@)]
    } else if sink_d {
        seq![fnd(Channel::Stdout, Tally::Pass, "  [OK] connectors/sink.d/: present"@)]
    } else {
        seq![fnd(Channel::Stderr, Tally::Warning, "  [WARN] connectors/sink.d/: not found"@)]
    }
}

/// Every finding of the check, in order. The sinks directory itself counts as
/// one `ok` without a line of its own.
pub open spec fn findings(f: ProjectFacts) -> Seq<FindingModel> {
    conf_findings(f.conf) + models_findings("models/rules/"@, "wfl"@, f.rules_wfl) + models_findings(
        "models/schemas/"@,
        "wfs"@,
        f.schemas_wfs,
    ) + scenarios_findings(f.scenarios_wfg) + sinks_findings(f) + sources_findings(f.sources_dir)
        + connectors_findings(f.connectors_dir, f.connectors_sink_d)
}

/// How many findings count as `t`.
pub open spec fn tally_count(fs: Seq<FindingModel>, t: Tally) -> nat
    decreases fs.len(),
{
    if fs.len() == 0 {
        0
    } else {
        tally_count(fs.drop_last(), t) + if fs.last().tally == t {
            1nat
        } else {
            0nat
        }
    }
}

/// The `ok` count, with the sinks directory.
pub open spec fn ok_count(f: ProjectFacts) -> nat {
    tally_count(findings(f), Tally::Pass) + if f.sinks_dir {
        1nat
    } else {
        0nat
    }
}

/// The summary line.
pub open spec fn summary_finding(ok: nat, warn: nat, err: nat) -> FindingModel {
    if err > 0 {
        fnd(
            Channel::Stderr,
            Tally::Uncounted,
            "Result: "@ + dec_text(err) + " error(s), "@ + dec_text(warn) + " warning(s), "@ + dec_text(ok) + " ok"@,
        )
    } else if warn > 0 {
        fnd(Channel::Stdout, Tally::Uncounted, "Result: "@ + dec_text(warn) + " warning(s), "@ + dec_text(ok) + " ok (no errors)"@)
    } else {
        fnd(Channel::Stdout, Tally::Uncounted, "Result: all checks passed ("@ + dec_text(ok) + " ok)"@)
    }
}

/// With `connectors/` present, a missing `connectors/sink.d/` is reported as
/// a warning (`  [WARN] connectors/sink.d/: not found`, to stderr) as the
/// last finding, and every other finding is as it would be with `sink.d/`
/// present; so, against that project, the check counts one `ok` less and one
/// warning more, and the same errors.
pub proof fn lemma_missing_sink_d_warns(f: ProjectFacts)
    requires
        f.connectors_dir,
    ensures
        ({
            let without = ProjectFacts { connectors_sink_d: false, ..f };
            let with = ProjectFacts { connectors_sink_d: true, ..f };
            &&& findings(without).last() == fnd(
                Channel::Stderr,
                Tally::Warning,
                "  [WARN] connectors/sink.d/: not found"@,
            )
            &&& findings(with).last() == fnd(Channel::Stdout, Tally::Pass, "  [OK] connectors/sink.d/: present"@)
            &&& findings(without).drop_last() == findings(with).drop_last()
            &&& ok_count(with) == ok_count(without) + 1
            &&& tally_count(findings(without), Tally::Warning) == tally_count(findings(with), Tally::Warning) + 1
            &&& tally_count(findings(without), Tally::Error) == tally_count(findings(with), Tally::Error)
        }),
{
    let without = ProjectFacts { connectors_sink_d: false, ..f };
    let with = ProjectFacts { connectors_sink_d: true, ..f };
    let head = conf_findings(f.conf) + models_findings("models/rules/"@, "wfl"@, f.rules_wfl) + models_findings(
        "models/schemas/"@,
        "wfs"@,
        f.schemas_wfs,
    ) + scenarios_findings(f.scenarios_wfg) + sinks_findings(f) + sources_findings(f.sources_dir);
    assert(sinks_findings(without) == sinks_findings(f));
    assert(sinks_findings(with) == sinks_findings(f));
    assert(findings(without) == head + connectors_findings(true, false));
    assert(findings(with) == head + connectors_findings(true, true));
    assert(findings(without).drop_last() =~= head);
    assert(findings(with).drop_last() =~= head);
}

/// The whole outcome of checking a project.
pub open spec fn outcome_ok(r: CheckOutcome, f: ProjectFacts) -> bool {
    let fs = findings(f);
    let ok = ok_count(f);
    let warn = tally_count(fs, Tally::Warning);
    let err = tally_count(fs, Tally::Error);
    &&& r.ok == ok
    &&& r.warn == warn
    &&& r.err == err
    &&& crate::wfg_ast::views(r.lines@) == fs + seq![fnd(Channel::Stdout, Tally::Uncounted, Seq::empty()), summary_finding(ok, warn, err)]
    &&& match r.result {
        Ok(()) => err == 0,
        Err(m) => err > 0 && m@ == "validation failed with "@ + dec_text(err) + " error(s)"@,
    }
}


/// The findings so far and their counts.
struct Report {
    lines: Vec<Finding>,
    ok: u32,
    warn: u32,
    err: u32,
}

impl Report {
    spec fn inv(&self) -> bool {
        &&& self.lines@.len() <= 16
        &&& self.ok == tally_count(crate::wfg_ast::views(self.lines@), Tally::Pass)
        &&& self.warn == tally_count(crate::wfg_ast::views(self.lines@), Tally::Warning)
        &&& self.err == tally_count(crate::wfg_ast::views(self.lines@), Tally::Error)
    }

    proof fn lemma_counts_bounded(fs: Seq<FindingModel>, t: Tally)
        ensures
            tally_count(fs, t) <= fs.len(),
        decreases fs.len(),
    {
        if fs.len() > 0 {
            Self::lemma_counts_bounded(fs.drop_last(), t);
        }
    }

    fn add(&mut self, channel: Channel, tally: Tally, text: String)
        requires
            old(self).inv(),
            old(self).lines@.len() < 16,
        ensures
            final(self).inv(),
            crate::wfg_ast::views(final(self).lines@) == crate::wfg_ast::views(old(self).lines@).push(
                fnd(channel, tally, text@),
            ),
    {
        proof {
            Self::lemma_counts_bounded(crate::wfg_ast::views(self.lines@), Tally::Pass);
            Self::lemma_counts_bounded(crate::wfg_ast::views(self.lines@), Tally::Warning);
            Self::lemma_counts_bounded(crate::wfg_ast::views(self.lines@), Tally::Error);
        }
        let f = Finding { channel, tally, text };
        let ghost before = self.lines@;
        match tally {
            Tally::Pass => self.ok = self.ok + 1,
            Tally::Warning => self.warn = self.warn + 1,
            Tally::Error => self.err = self.err + 1,
            Tally::Uncounted => {},
        }
        self.lines.push(f);
        proof {
            let vs = crate::wfg_ast::views(self.lines@);
            assert(vs =~= crate::wfg_ast::views(before).push(f@));
            assert(vs.drop_last() =~= crate::wfg_ast::views(before));
        }
    }
}

fn cat(a: &str, b: &str) -> (r: String)
    ensures
        r@ == a@ + b@,
{
    let mut out = String::from_str(a);
    out.append(b);
    out
}

fn add_models(rep: &mut Report, dir: &str, ext: &str, count: Option<u64>)
    requires
        old(rep).inv(),
        old(rep).lines@.len() < 16,
    ensures
        final(rep).inv(),
        final(rep).lines@.len() <= old(rep).lines@.len() + 1,
        crate::wfg_ast::views(final(rep).lines@) == crate::wfg_ast::views(old(rep).lines@) + models_findings(
            dir@,
            ext@,
            count,
        ),
{
    let ghost before = crate::wfg_ast::views(rep.lines@);
    match count {
        None => {
            let mut t = cat("  [WARN] ", dir);
            t.append(": directory not found");
            rep.add(Channel::Stderr, Tally::Warning, t);
        },
        Some(n) => {
            if n > 0 {
                let mut t = cat("  [OK] ", dir);
                t.append(": ");
                push_decimal(&mut t, n);
                t.append(" .");
                t.append(ext);
                t.append(" file(s)");
                rep.add(Channel::Stdout, Tally::Pass, t);
            } else {
                let mut t = cat("  [WARN] ", dir);
                t.append(": no .");
                t.append(ext);
                t.append(" files found");
                rep.add(Channel::Stderr, Tally::Warning, t);
            }
        },
    }
    assert(crate::wfg_ast::views(rep.lines@) =~= before + models_findings(dir@, ext@, count));
}

fn add_sink_part(rep: &mut Report, part: &str, present: bool)
    requires
        old(rep).inv(),
        old(rep).lines@.len() < 16,
    ensures
        final(rep).inv(),
        crate::wfg_ast::views(final(rep).lines@) == crate::wfg_ast::views(old(rep).lines@).push(
            sink_part(part@, present),
        ),
{
    if present {
        let mut t = cat("  [OK] topology/sinks/", part);
        t.append("/: present");
        rep.add(Channel::Stdout, Tally::Uncounted, t);
    } else {
        let mut t = cat("  [WARN] topology/sinks/", part);
        t.append("/: not found");
        rep.add(Channel::Stderr, Tally::Warning, t);
    }
}

fn add_conf(rep: &mut Report, conf: &ConfFile)
    requires
        old(rep).inv(),
        old(rep).lines@.len() < 16,
    ensures
        final(rep).inv(),
        final(rep).lines@.len() <= old(rep).lines@.len() + 1,
        crate::wfg_ast::views(final(rep).lines@) == crate::wfg_ast::views(old(rep).lines@) + conf_findings(*conf),
{
    let ghost before = crate::wfg_ast::views(rep.lines@);
    match conf {
        ConfFile::Missing => rep.add(
            Channel::Stderr,
            Tally::Error,
            String::from_str("  [ERR] conf/wfusion.toml: not found"),
        ),
        ConfFile::Unreadable(e) => rep.add(
            Channel::Stderr,
            Tally::Error,
            cat("  [ERR] conf/wfusion.toml: read error: ", e.as_str()),
        ),
        ConfFile::Text(t) => {
            if toml_is_valid(t.as_str()) {
                rep.add(Channel::Stdout, Tally::Pass, String::from_str("  [OK] conf/wfusion.toml: valid TOML"));
            } else {
                rep.add(Channel::Stderr, Tally::Error, String::from_str("  [ERR] conf/wfusion.toml: invalid TOML"));
            }
        },
    }
    assert(crate::wfg_ast::views(rep.lines@) =~= before + conf_findings(*conf));
}

fn add_scenarios(rep: &mut Report, count: Option<u64>)
    requires
        old(rep).inv(),
        old(rep).lines@.len() < 16,
    ensures
        final(rep).inv(),
        final(rep).lines@.len() <= old(rep).lines@.len() + 1,
        crate::wfg_ast::views(final(rep).lines@) == crate::wfg_ast::views(old(rep).lines@) + scenarios_findings(count),
{
    let ghost before = crate::wfg_ast::views(rep.lines@);
    match count {
        None => {},
        Some(n) => {
            if n > 0 {
                let mut t = String::from_str("  [OK] models/scenarios/: ");
                push_decimal(&mut t, n);
                t.append(" .wfg file(s)");
                rep.add(Channel::Stdout, Tally::Pass, t);
            } else {
                rep.add(
                    Channel::Stdout,
                    Tally::Uncounted,
                    String::from_str("  [INFO] models/scenarios/: no .wfg files"),
                );
            }
        },
    }
    assert(crate::wfg_ast::views(rep.lines@) =~= before + scenarios_findings(count));
}

fn add_sinks(rep: &mut Report, facts: &ProjectFacts)
    requires
        old(rep).inv(),
        old(rep).lines@.len() < 13,
    ensures
        final(rep).inv(),
        final(rep).lines@.len() <= old(rep).lines@.len() + 3,
        crate::wfg_ast::views(final(rep).lines@) == crate::wfg_ast::views(old(rep).lines@) + sinks_findings(*facts),
{
    let ghost before = crate::wfg_ast::views(rep.lines@);
    if facts.sinks_dir {
        add_sink_part(rep, "business.d", facts.sinks_business);
        add_sink_part(rep, "infra.d", facts.sinks_infra);
        if facts.sinks_defaults {
            rep.add(
                Channel::Stdout,
                Tally::Uncounted,
                String::from_str("  [OK] topology/sinks/defaults.toml: present"),
            );
        } else {
            rep.add(
                Channel::Stderr,
                Tally::Warning,
                String::from_str("  [WARN] topology/sinks/defaults.toml: not found"),
            );
        }
    } else {
        rep.add(
            Channel::Stderr,
            Tally::Warning,
            String::from_str("  [WARN] topology/sinks/: directory not found"),
        );
    }
    assert(crate::wfg_ast::views(rep.lines@) =~= before + sinks_findings(*facts));
}

fn add_rest(rep: &mut Report, facts: &ProjectFacts)
    requires
        old(rep).inv(),
        old(rep).lines@.len() < 14,
    ensures
        final(rep).inv(),
        final(rep).lines@.len() <= old(rep).lines@.len() + 2,
        crate::wfg_ast::views(final(rep).lines@) == crate::wfg_ast::views(old(rep).lines@)
            + sources_findings(facts.sources_dir) + connectors_findings(facts.connectors_dir, facts.connectors_sink_d),
{
    let ghost before = crate::wfg_ast::views(rep.lines@);
    if facts.sources_dir {
        rep.add(Channel::Stdout, Tally::Pass, String::from_str("  [OK] topology/sources/: present"));
    }
    if !facts.connectors_dir {
        rep.add(Channel::Stderr, Tally::Warning, String::from_str("  [WARN] connectors/: directory not found"));
    } else if facts.connectors_sink_d {
        rep.add(Channel::Stdout, Tally::Pass, String::from_str("  [OK] connectors/sink.d/: present"));
    } else {
        rep.add(Channel::Stderr, Tally::Warning, String::from_str("  [WARN] connectors/sink.d/: not found"));
    }
    assert(crate::wfg_ast::views(rep.lines@) =~= before + sources_findings(facts.sources_dir)
        + connectors_findings(facts.connectors_dir, facts.connectors_sink_d));
}

fn summary_line(ok: u32, warn: u32, err: u32) -> (r: Finding)
    ensures
        r@ == summary_finding(ok as nat, warn as nat, err as nat),
{
    if err > 0 {
        let mut t = String::from_str("Result: ");
        push_decimal(&mut t, err as u64);
        t.append(" error(s), ");
        push_decimal(&mut t, warn as u64);
        t.append(" warning(s), ");
        push_decimal(&mut t, ok as u64);
        t.append(" ok");
        Finding { channel: Channel::Stderr, tally: Tally::Uncounted, text: t }
    } else if warn > 0 {
        let mut t = String::from_str("Result: ");
        push_decimal(&mut t, warn as u64);
        t.append(" warning(s), ");
        push_decimal(&mut t, ok as u64);
        t.append(" ok (no errors)");
        Finding { channel: Channel::Stdout, tally: Tally::Uncounted, text: t }
    } else {
        let mut t = String::from_str("Result: all checks passed (");
        push_decimal(&mut t, ok as u64);
        t.append(" ok)");
        Finding { channel: Channel::Stdout, tally: Tally::Uncounted, text: t }
    }
}

/// The integrity outcome of a project: its findings (conf, models, topology,
/// connectors), the counts and the summary line. Fails when any error was found.
pub fn run(facts: &ProjectFacts) -> (r: CheckOutcome)
    ensures
        outcome_ok(r, *facts),
{
    let mut rep = Report { lines: Vec::new(), ok: 0, warn: 0, err: 0 };
    assert(crate::wfg_ast::views(rep.lines@) =~= Seq::<FindingModel>::empty());
    add_conf(&mut rep, &facts.conf);
    add_models(&mut rep, "models/rules/", "wfl", facts.rules_wfl);
    add_models(&mut rep, "models/schemas/", "wfs", facts.schemas_wfs);
    add_scenarios(&mut rep, facts.scenarios_wfg);
    add_sinks(&mut rep, facts);
    add_rest(&mut rep, facts);
    assert(crate::wfg_ast::views(rep.lines@) =~= findings(*facts));
    proof {
        Report::lemma_counts_bounded(crate::wfg_ast::views(rep.lines@), Tally::Pass);
    }
    let ok = rep.ok + if facts.sinks_dir {
        1
    } else {
        0
    };
    let warn = rep.warn;
    let err = rep.err;
    let ghost fs = crate::wfg_ast::views(rep.lines@);
    let mut lines = rep.lines;
    lines.push(Finding { channel: Channel::Stdout, tally: Tally::Uncounted, text: String::new() });
    lines.push(summary_line(ok, warn, err));
    let result: Result<(), String> = if err > 0 {
        let mut m = String::from_str("validation failed with ");
        push_decimal(&mut m, err as u64);
        m.append(" error(s)");
        Err(m)
    } else {
        Ok(())
    };
    proof {
        let tail = seq![
            fnd(Channel::Stdout, Tally::Uncounted, Seq::empty()),
            summary_finding(ok as nat, warn as nat, err as nat),
        ];
        assert(crate::wfg_ast::views(lines@) =~= fs + tail);
    }
    CheckOutcome { lines, ok, warn, err, result }
}

} // verus!
