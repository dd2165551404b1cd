//! `wfadm init`: the checks before a project is laid out, and what is said
//! after.

use vstd::prelude::*;

use crate::scope::{Scope, scope_named, unknown_scope_message};

verus! {

broadcast use vstd::string::group_string_axioms;

/// The project directory must be new or empty.
pub fn check_init_target(nonempty: bool, dir_display: &str) -> (r: Result<(), String>)
    ensures
        match r {
            Ok(()) => !nonempty,
            Err(e) => nonempty && e@ == "directory '"@ + dir_display@ + "' already exists and is not empty"@,
        },
{
    if nonempty {
        let mut m = String::from_str("directory '");
        m.append(dir_display);
        m.append("' already exists and is not empty");
        return Err(m);
    }
    Ok(())
}

/// The scope named on the command line (`normal`/`full`, `rules`, `conf`).
pub fn init_scope(scope: &str) -> (r: Result<Scope, String>)
    ensures
        match r {
            Ok(s) => scope_named(scope@) == Some(s),
            Err(e) => scope_named(scope@) is None && e@ == "invalid scope: "@ + unknown_scope_message(scope@),
        },
{
    match Scope::parse_name(scope) {
        Ok(s) => Ok(s),
        Err(e) => {
            let mut m = String::from_str("invalid scope: ");
            m.append(e.as_str());
            Err(m)
        },
    }
}

/// How a scope is shown (`{:?}`).
pub open spec fn scope_debug(s: Scope) -> Seq<char> {
    match s {
        Scope::Normal => "Normal"@,
        Scope::Rules => "Rules"@,
        Scope::Conf => "Conf"@,
    }
}

/// The lines printed once a project was created.
pub fn init_summary(root_display: &str, scope: Scope, project_dir: &str) -> (r: Vec<String>)
    ensures
        crate::wfg_ast::views(r@) == seq![
            "wf-rules project created at "@ + root_display@ + " (scope: "@ + scope_debug(scope) + ")"@,
            "  cd "@ + project_dir@ + " && wfusion run"@,
        ],
{
    let mut a = String::from_str("wf-rules project created at ");
    a.append(root_display);
    a.append(" (scope: ");
    a.append(
        match scope {
            Scope::Normal => "Normal",
            Scope::Rules => "Rules",
            Scope::Conf => "Conf",
        },
    );
    a.append(")");
    let mut b = String::from_str("  cd ");
    b.append(project_dir);
    b.append(" && wfusion run");
    let mut out: Vec<String> = Vec::new();
    out.push(a);
    out.push(b);
    assert(crate::wfg_ast::views(out@) =~= seq![a@, b@]);
    out
}

/// Bootstraps a project from a remote repository: not available, it always fails.
pub fn init_from_remote(project_dir: &str, repo_url: &str, version: Option<&str>) -> (r: Result<(), String>)
    ensures
        r matches Err(e) && e@ == "remote bootstrap not yet implemented (TODO)"@,
{
    Err(String::from_str("remote bootstrap not yet implemented (TODO)"))
}

} // verus!
