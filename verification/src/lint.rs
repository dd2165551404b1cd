//! `wfgen lint`: the outcome for a scenario from its validation errors and
//! the rule files' own errors.

use vstd::prelude::*;

use crate::validate::{ValidationError, ErrorModel};
use crate::wfg_ast::views;

verus! {

broadcast use vstd::string::group_string_axioms;

/// `wfgen lint` arguments: the scenario, and schema and rule files beyond
/// those its `use` declarations name.
#[derive(Debug, Clone, PartialEq)]
pub struct Args {
    pub scenario: String,
    pub ws: Vec<String>,
    pub wfl: Vec<String>,
}

/// `[CODE] message`
pub open spec fn error_line(e: ErrorModel) -> Seq<char> {
    seq!['['] + e.code + seq![']', ' '] + e.message
}

/// The lines `lint` prints: `OK` when nothing is wrong, else every
/// validation error and then every rule error (one line each, to stderr).
pub open spec fn lint_spec(errors: Seq<ErrorModel>, rule_errors: Seq<Seq<char>>) -> (bool, Seq<Seq<char>>) {
    let all = errors.map_values(|e: ErrorModel| error_line(e)) + rule_errors;
    if all.len() == 0 {
        (true, seq!["OK"@])
    } else {
        (false, all)
    }
}

/// `lint` passes exactly when there is neither a validation error nor a rule
/// error; then it prints `OK` alone. Otherwise every validation error
/// (`[CODE] message`) and every rule error is printed, and nothing else.
pub proof fn lemma_lint_passes_only_without_errors(errors: Seq<ErrorModel>, rule_errors: Seq<Seq<char>>)
    ensures
        lint_spec(errors, rule_errors).0 <==> (errors.len() == 0 && rule_errors.len() == 0),
        lint_spec(errors, rule_errors).0 ==> lint_spec(errors, rule_errors).1 == seq!["OK"@],
        !lint_spec(errors, rule_errors).0 ==> lint_spec(errors, rule_errors).1.len() == errors.len()
            + rule_errors.len(),
        forall|k: int| 0 <= k < rule_errors.len() ==> lint_spec(errors, rule_errors).1.contains(
            #[trigger] rule_errors[k],
        ),
        forall|k: int| 0 <= k < errors.len() ==> lint_spec(errors, rule_errors).1.contains(
            seq!['['] + (#[trigger] errors[k]).code + seq![']', ' '] + errors[k].message,
        ),
{
    let all = errors.map_values(|e: ErrorModel| error_line(e)) + rule_errors;
    assert forall|k: int| 0 <= k < rule_errors.len() implies lint_spec(errors, rule_errors).1.contains(
        #[trigger] rule_errors[k],
    ) by {
        assert(all[errors.len() + k] == rule_errors[k]);
    }
    assert forall|k: int| 0 <= k < errors.len() implies lint_spec(errors, rule_errors).1.contains(
        seq!['['] + (#[trigger] errors[k]).code + seq![']', ' '] + errors[k].message,
    ) by {
        assert(all[k] == error_line(errors[k]));
    }
}

/// The outcome of `lint`: whether the scenario passes, and the lines to print.
pub fn lint_lines(errors: &Vec<ValidationError>, rule_errors: &Vec<String>) -> (r: (bool, Vec<String>))
    ensures
        (r.0, views(r.1@)) == lint_spec(views(errors@), views(rule_errors@)),
{
    let mut out: Vec<String> = Vec::new();
    let mut i: usize = 0;
    while i < errors.len()
        invariant
            i <= errors.len(),
            views(out@) == views(errors@).take(i as int).map_values(|e: ErrorModel| error_line(e)),
        decreases errors.len() - i,
    {
        let l = errors[i].to_string();
        proof {
            assert(views(errors@)[i as int] == errors@[i as int]@);
            assert(views(out@.push(l)) =~= views(out@).push(l@));
            assert(views(errors@).take(i as int + 1).map_values(|e: ErrorModel| error_line(e)) =~= views(
                errors@,
            ).take(i as int).map_values(|e: ErrorModel| error_line(e)).push(error_line(errors@[i as int]@)));
        }
        out.push(l);
        i = i + 1;
    }
    assert(views(errors@).take(i as int) =~= views(errors@));
    let mut k: usize = 0;
    let ghost head = views(out@);
    while k < rule_errors.len()
        invariant
            k <= rule_errors.len(),
            views(out@) == head + views(rule_errors@).take(k as int),
        decreases rule_errors.len() - k,
    {
        let l = rule_errors[k].clone();
        proof {
            assert(views(out@.push(l)) =~= views(out@).push(l@));
            assert(views(rule_errors@).take(k as int + 1) =~= views(rule_errors@).take(k as int).push(rule_errors@[k as int]@));
        }
        out.push(l);
        k = k + 1;
    }
    assert(views(rule_errors@).take(k as int) =~= views(rule_errors@));
    if out.len() == 0 {
        let mut v: Vec<String> = Vec::new();
        v.push(String::from_str("OK"));
        assert(views(v@) =~= seq!["OK"@]);
        (true, v)
    } else {
        (false, out)
    }
}

} // verus!
