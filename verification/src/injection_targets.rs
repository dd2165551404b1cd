//! The rules a scenario injects for: the generation-time assertions and the
//! oracle run only these.

use vstd::prelude::*;

use crate::text::str_is;
use crate::wfg_ast::{WfgFile, views};
use crate::wfg_model as m;

verus! {

broadcast use vstd::string::group_string_axioms;

/// The target rules of the cases, each once, in order of first appearance.
pub open spec fn distinct_targets(cases: Seq<m::InjectCase>) -> Seq<Seq<char>>
    decreases cases.len(),
{
    if cases.len() == 0 {
        Seq::empty()
    } else {
        let r = distinct_targets(cases.drop_last());
        if r.contains(cases.last().target_rule) {
            r
        } else {
            r.push(cases.last().target_rule)
        }
    }
}

/// The injection cases of a file (none without a syntax section or `inject` block).
pub open spec fn cases_of(f: m::WfgFile) -> Seq<m::InjectCase> {
    match f.syntax {
        Some(sy) => match sy.injection {
            Some(inj) => inj.cases,
            None => Seq::empty(),
        },
        None => Seq::empty(),
    }
}

proof fn lemma_distinct_targets(cases: Seq<m::InjectCase>)
    ensures
        distinct_targets(cases).no_duplicates(),
        forall|n: Seq<char>| #[trigger] distinct_targets(cases).contains(n) <==> exists|i: int|
            0 <= i < cases.len() && cases[i].target_rule == n,
    decreases cases.len(),
{
    if cases.len() > 0 {
        let d = cases.drop_last();
        lemma_distinct_targets(d);
        let dt = distinct_targets(d);
        let x = cases.last().target_rule;
        let res = distinct_targets(cases);
        assert forall|n: Seq<char>| #[trigger] res.contains(n) <==> exists|i: int|
            0 <= i < cases.len() && cases[i].target_rule == n by {
            if res.contains(n) {
                let k = choose|k: int| 0 <= k < res.len() && res[k] == n;
                if k < dt.len() {
                    assert(dt[k] == n);
                    assert(dt.contains(n));
                    let i = choose|i: int| 0 <= i < d.len() && d[i].target_rule == n;
                    assert(cases[i].target_rule == n);
                } else {
                    assert(n == x);
                    assert(cases[cases.len() - 1].target_rule == n);
                }
            }
            if exists|i: int| 0 <= i < cases.len() && cases[i].target_rule == n {
                let i = choose|i: int| 0 <= i < cases.len() && cases[i].target_rule == n;
                if i < cases.len() - 1 {
                    assert(d[i].target_rule == n);
                    assert(dt.contains(n));
                    let k = choose|k: int| 0 <= k < dt.len() && dt[k] == n;
                    assert(res[k] == n);
                } else if dt.contains(x) {
                    assert(n == x);
                } else {
                    assert(res[res.len() - 1] == n);
                }
            }
        }
    }
}

/// The rules the injection cases target, each once, in order of first
/// appearance: the set of target rules of the cases.
pub fn injected_rule_names(wfg: &WfgFile) -> (r: Vec<String>)
    ensures
        views(r@) == distinct_targets(cases_of(wfg@)),
        views(r@).no_duplicates(),
        forall|n: Seq<char>| #[trigger] views(r@).contains(n) <==> exists|i: int|
            0 <= i < cases_of(wfg@).len() && cases_of(wfg@)[i].target_rule == n,
{
    proof {
        lemma_distinct_targets(cases_of(wfg@));
    }
    let mut out: Vec<String> = Vec::new();
    let syntax = match &wfg.syntax {
        Some(sy) => sy,
        None => {
            assert(views(out@) =~= Seq::<Seq<char>>::empty());
            return out;
        },
    };
    let inj = match &syntax.injection {
        Some(inj) => inj,
        None => {
            assert(views(out@) =~= Seq::<Seq<char>>::empty());
            return out;
        },
    };
    let ghost cs = inj@.cases;
    let mut i: usize = 0;
    assert(cs.take(0) =~= Seq::<m::InjectCase>::empty());
    assert(views(out@) =~= Seq::<Seq<char>>::empty());
    while i < inj.cases.len()
        invariant
            i <= inj.cases.len(),
            cs == inj@.cases,
            views(out@) == distinct_targets(cs.take(i as int)),
        decreases inj.cases.len() - i,
    {
        let name = &inj.cases[i].target_rule;
        proof {
            let t = cs.take(i as int + 1);
            assert(t.drop_last() =~= cs.take(i as int));
            assert(t.last().target_rule == name@);
        }
        let mut seen = false;
        let mut j: usize = 0;
        while j < out.len()
            invariant
                j <= out.len(),
                seen == exists|k: int| 0 <= k < j && views(out@)[k] == name@,
            decreases out.len() - j,
        {
            if str_is(out[j].as_str(), name.as_str()) {
                assert(views(out@)[j as int] == name@);
                seen = true;
            }
            j = j + 1;
        }
        proof {
            if views(out@).contains(name@) {
                let k = choose|k: int| 0 <= k < views(out@).len() && views(out@)[k] == name@;
                assert(seen);
            }
        }
        if !seen {
            let ghost before = out@;
            out.push(name.clone());
            assert(views(out@) =~= views(before).push(name@));
        }
        i = i + 1;
    }
    assert(cs.take(i as int) =~= cs);
    out
}

} // verus!
