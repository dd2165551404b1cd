//! Project scope: which subset of templates `wfadm init` writes.

use vstd::prelude::*;

use crate::text::str_is;

verus! {

/// Scope controls which subset of templates is included during `wfadm init`.
#[derive(Debug, Clone, Copy, PartialEq, Eq, Structural)]
pub enum Scope {
    /// All template files (models + topology + conf + connectors)
    Normal,
    /// Rules only: models/{rules,schemas,scenarios} + conf + connectors
    Rules,
    /// Topology & conf only: topology/{sinks,sources} + conf + connectors
    Conf,
}

/// The scope a name denotes, if any: `full` and `normal` both mean [`Scope::Normal`].
pub open spec fn scope_named(s: Seq<char>) -> Option<Scope> {
    if s == "full"@ || s == "normal"@ {
        Some(Scope::Normal)
    } else if s == "rules"@ {
        Some(Scope::Rules)
    } else if s == "conf"@ {
        Some(Scope::Conf)
    } else {
        None
    }
}

/// The message given for a name that is no scope.
pub open spec fn unknown_scope_message(s: Seq<char>) -> Seq<char> {
    "unknown scope: '"@ + s + "'. Valid: normal, rules, conf"@
}

impl Scope {
    /// Parse a scope name.
    pub fn parse_name(s: &str) -> (r: Result<Scope, String>)
        ensures
            match scope_named(s@) {
                Some(scope) => r == Ok::<Scope, String>(scope),
                None => r matches Err(msg) && msg@ == unknown_scope_message(s@),
            },
    {
        if str_is(s, "full") || str_is(s, "normal") {
            Ok(Scope::Normal)
        } else if str_is(s, "rules") {
            Ok(Scope::Rules)
        } else if str_is(s, "conf") {
            Ok(Scope::Conf)
        } else {
            let mut msg = String::from_str("unknown scope: '");
            msg.append(s);
            msg.append("'. Valid: normal, rules, conf");
            Err(msg)
        }
    }
}

impl core::str::FromStr for Scope {
    type Err = String;

    fn from_str(s: &str) -> (r: Result<Scope, String>)
        ensures
            match scope_named(s@) {
                Some(scope) => r == Ok::<Scope, String>(scope),
                None => r matches Err(msg) && msg@ == unknown_scope_message(s@),
            },
    {
        Scope::parse_name(s)
    }
}

} // verus!
