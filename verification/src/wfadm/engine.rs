//! `wfadm engine`: the requests to the engine's admin API, where they go, and
//! how the answers are reported.

use vstd::prelude::*;

use crate::json_text::{JsonLayout, JsonLayoutModel, json_get, json_get_of, json_layout, json_layout_of, opt_text};
use crate::text::{trim_text, trimmed};
use crate::wfg_ast::views;

verus! {

broadcast use vstd::string::group_string_axioms;

// ---------------------------------------------------------------------------
// Commands
// ---------------------------------------------------------------------------

/// The `wfadm engine` subcommands.
#[derive(Debug, Clone, PartialEq)]
pub enum EngineCommands {
    /// Query engine runtime status.
    Status { config: String, admin_url: Option<String>, token_file: Option<String>, json: bool },
    /// Trigger model reload via the daemon admin API.
    Reload {
        config: String,
        admin_url: Option<String>,
        token_file: Option<String>,
        /// Wait for the reload result before returning.
        wait: bool,
        /// Request timeout while waiting for the reload result.
        timeout_ms: u64,
        /// Sync managed dirs from `[project_remote]` before reloading.
        update: bool,
        /// Target version for the remote sync.
        version: Option<String>,
        /// Target group for update in dual-repo mode.
        group: Option<String>,
        /// Reason string included in daemon logs.
        reason: Option<String>,
        /// Request id to send as `X-Request-Id`.
        request_id: Option<String>,
        json: bool,
    },
}

/// The body of a reload request.
#[derive(Debug, Clone, PartialEq)]
pub struct ReloadRequest {
    pub wait: bool,
    pub timeout_ms: u64,
    pub update: bool,
    pub version: Option<String>,
    pub group: Option<String>,
    pub reason: Option<String>,
}

/// The call to make to the admin API.
#[derive(Debug, Clone, PartialEq)]
pub enum EngineCall {
    Status { config: String, admin_url: Option<String>, token_file: Option<String>, json: bool },
    Reload {
        config: String,
        admin_url: Option<String>,
        token_file: Option<String>,
        body: ReloadRequest,
        request_id: Option<String>,
        json: bool,
    },
}

/// Runs a `wfadm engine` subcommand up to the request: checks its arguments
/// and says which call to make. `--version` and `--group` need `--update`.
pub fn run(command: EngineCommands) -> (r: Result<EngineCall, String>)
    ensures
        match command {
            EngineCommands::Status { config, admin_url, token_file, json } => r == Ok::<EngineCall, String>(
                EngineCall::Status { config, admin_url, token_file, json },
            ),
            EngineCommands::Reload {
                config,
                admin_url,
                token_file,
                wait,
                timeout_ms,
                update,
                version,
                group,
                reason,
                request_id,
                json,
            } => if !update && version is Some {
                r matches Err(e) && e@ == "--version requires --update"@
            } else if !update && group is Some {
                r matches Err(e) && e@ == "--group requires --update"@
            } else {
                r == Ok::<EngineCall, String>(
                    EngineCall::Reload {
                        config,
                        admin_url,
                        token_file,
                        body: ReloadRequest { wait, timeout_ms, update, version, group, reason },
                        request_id,
                        json,
                    },
                )
            },
        },
{
    match command {
        EngineCommands::Status { config, admin_url, token_file, json } => Ok(
            EngineCall::Status { config, admin_url, token_file, json },
        ),
        EngineCommands::Reload {
            config,
            admin_url,
            token_file,
            wait,
            timeout_ms,
            update,
            version,
            group,
            reason,
            request_id,
            json,
        } => {
            if !update && version.is_some() {
                return Err(String::from_str("--version requires --update"));
            }
            if !update && group.is_some() {
                return Err(String::from_str("--group requires --update"));
            }
            Ok(
                EngineCall::Reload {
                    config,
                    admin_url,
                    token_file,
                    body: ReloadRequest { wait, timeout_ms, update, version, group, reason },
                    request_id,
                    json,
                },
            )
        },
    }
}

// ---------------------------------------------------------------------------
// Text helpers
// ---------------------------------------------------------------------------

/// `s` without trailing slashes.
pub open spec fn without_trailing_slashes(s: Seq<char>) -> Seq<char>
    decreases s.len(),
{
    if s.len() > 0 && s.last() == '/' {
        without_trailing_slashes(s.drop_last())
    } else {
        s
    }
}

/// `s` without trailing slashes (`trim_end_matches('/')`).
pub fn trim_slashes(s: &str) -> (r: String)
    ensures
        r@ == without_trailing_slashes(s@),
{
    let n = s.unicode_len();
    let mut b: usize = n;
    assert(s@.subrange(0, n as int) =~= s@);
    while b > 0 && s.get_char(b - 1) == '/'
        invariant
            n == s@.len(),
            b <= n,
            without_trailing_slashes(s@) == without_trailing_slashes(s@.subrange(0, b as int)),
        decreases b,
    {
        assert(s@.subrange(0, b as int).drop_last() =~= s@.subrange(0, b as int - 1));
        b = b - 1;
    }
    String::from_str(s.substring_char(0, b))
}

/// `s` with every `pat` replaced by `rep`, left to right (`str::replace`).
pub open spec fn replaced(s: Seq<char>, pat: Seq<char>, rep: Seq<char>) -> Seq<char>
    decreases s.len(),
{
    if s.len() == 0 || pat.len() == 0 {
        s
    } else if pat.len() <= s.len() && s.take(pat.len() as int) == pat {
        rep + replaced(s.skip(pat.len() as int), pat, rep)
    } else {
        seq![s[0]] + replaced(s.drop_first(), pat, rep)
    }
}

/// The token file path with `${HOME}` replaced by the home directory.
pub fn expand_home(path: &str, home: &str) -> (r: String)
    ensures
        r@ == replaced(path@, "${HOME}"@, home@),
{
    proof {
        reveal_strlit("${HOME}");
    }
    let pat = "${HOME}";
    let n = path.unicode_len();
    let k: usize = 7;
    let mut out = String::new();
    let mut i: usize = 0;
    assert(path@.skip(0) =~= path@);
    while i < n
        invariant
            n == path@.len(),
            k == pat@.len(),
            k == 7,
            pat@ == "${HOME}"@,
            i <= n,
            replaced(path@, pat@, home@) == out@ + replaced(path@.skip(i as int), pat@, home@),
        decreases n - i,
    {
        let ghost t = path@.skip(i as int);
        if k <= n - i && crate::text::str_is(path.substring_char(i, i + k), pat) {
            assert(t.take(k as int) =~= path@.subrange(i as int, i as int + k));
            assert(t.skip(k as int) =~= path@.skip(i as int + k));
            out.append(home);
            i = i + k;
        } else {
            proof {
                if k <= n - i {
                    assert(t.take(k as int) =~= path@.subrange(i as int, i as int + k));
                }
                assert(t.drop_first() =~= path@.skip(i as int + 1));
                assert(t[0] == path@[i as int]);
            }
            crate::wfg_lexer::push_char(&mut out, path.get_char(i));
            i = i + 1;
        }
    }
    assert(path@.skip(i as int) =~= Seq::<char>::empty());
    out
}

// ---------------------------------------------------------------------------
// Where the admin API is
// ---------------------------------------------------------------------------

/// The admin API endpoint and the token to present.
#[derive(Debug, Clone, PartialEq)]
pub struct AdminApiTarget {
    pub base_url: String,
    pub token: String,
}

/// Where the target comes from: the command line (both `--admin-url` and
/// `--token-file` given) or the config file.
#[derive(Debug, Clone, PartialEq)]
pub enum TargetSource {
    Explicit { url: String, token_file: String },
    FromConfig,
}

/// Where the target comes from.
pub fn target_source(admin_url: &Option<String>, token_file: &Option<String>) -> (r: TargetSource)
    ensures
        match (admin_url, token_file) {
            (Some(u), Some(t)) => r == TargetSource::Explicit { url: *u, token_file: *t },
            _ => r == TargetSource::FromConfig,
        },
{
    match (admin_url, token_file) {
        (Some(u), Some(t)) => TargetSource::Explicit { url: u.clone(), token_file: t.clone() },
        _ => TargetSource::FromConfig,
    }
}

/// The `[admin_api]` section of the config, as far as it is read.
#[derive(Debug, Clone, PartialEq)]
pub struct AdminApiToml {
    pub enabled: Option<bool>,
    pub bind: Option<String>,
    pub token_file: Option<String>,
}

pub struct AdminApiModel {
    pub enabled: Option<bool>,
    pub bind: Option<Seq<char>>,
    pub token_file: Option<Seq<char>>,
}

impl View for AdminApiToml {
    type V = AdminApiModel;

    open spec fn view(&self) -> AdminApiModel {
        AdminApiModel { enabled: self.enabled, bind: opt_text(self.bind), token_file: opt_text(self.token_file) }
    }
}

/// What `toml` reads of a config text: the parse error's message, or the
/// `admin_api` section when there is one.
pub uninterp spec fn admin_api_of(text: Seq<char>) -> Result<Option<AdminApiModel>, Seq<char>>;

/// Parses the config text as a `toml::Value` and reads `admin_api.enabled`
/// (`as_bool`), `admin_api.bind` and `admin_api.auth.token_file` (`as_str`).
/// The contract claims only that the result is a function of the text (named
/// [`admin_api_of`]).
#[verifier::external_body]
fn admin_api_section(text: &str) -> (r: Result<Option<AdminApiToml>, String>)
    ensures
        match r {
            Ok(Some(a)) => admin_api_of(text@) == Ok::<Option<AdminApiModel>, Seq<char>>(Some(a@)),
            Ok(None) => admin_api_of(text@) == Ok::<Option<AdminApiModel>, Seq<char>>(None),
            Err(e) => admin_api_of(text@) == Err::<Option<AdminApiModel>, Seq<char>>(e@),
        },
{
    let v = text.parse::<toml::Value>().map_err(|e| e.to_string())?;
    Ok(v.get("admin_api").map(|a| AdminApiToml {
        enabled: a.get("enabled").and_then(|x| x.as_bool()),
        bind: a.get("bind").and_then(|x| x.as_str()).map(|x| x.to_string()),
        token_file: a.get("auth").and_then(|x| x.get("token_file")).and_then(|x| x.as_str()).map(|x| x.to_string()),
    }))
}

/// The endpoint and the (unexpanded) token file path the config names.
#[derive(Debug, Clone, PartialEq)]
pub struct ConfigTarget {
    pub base_url: String,
    pub token_path: String,
}

/// What a config text gives for the target (see [`config_target`]).
pub open spec fn config_target_spec(text: Seq<char>, admin_url: Option<Seq<char>>) -> Result<(Seq<char>, Seq<char>), Seq<char>> {
    match admin_api_of(text) {
        Err(e) => Err("parse config TOML: "@ + e),
        Ok(None) => Err("admin_api section not found in config (is it enabled?)"@),
        Ok(Some(a)) => if a.enabled != Some(true) {
            Err("admin_api is not enabled in config"@)
        } else {
            let bind = match a.bind {
                Some(b) => b,
                None => "127.0.0.1:19090"@,
            };
            let base = match admin_url {
                Some(u) => if u.len() == 0 {
                    "http://"@ + bind
                } else {
                    without_trailing_slashes(u)
                },
                None => "http://"@ + bind,
            };
            let token_path = match a.token_file {
                Some(t) => t,
                None => "${HOME}/.wfusion/admin_api.token"@,
            };
            Ok((base, token_path))
        },
    }
}

/// The admin API endpoint and token file path from the config text: the
/// `[admin_api]` section must be there and enabled; `bind` defaults to
/// `127.0.0.1:19090` and the token file to `${HOME}/.wfusion/admin_api.token`;
/// a non-empty `--admin-url` wins over `bind`.
pub fn config_target(config_text: &str, admin_url: &Option<String>) -> (r: Result<ConfigTarget, String>)
    ensures
        match r {
            Ok(t) => config_target_spec(config_text@, opt_text(*admin_url)) == Ok::<(Seq<char>, Seq<char>), Seq<char>>((t.base_url@, t.token_path@)),
            Err(e) => config_target_spec(config_text@, opt_text(*admin_url)) == Err::<(Seq<char>, Seq<char>), Seq<char>>(e@),
        },
{
    let a = match admin_api_section(config_text) {
        Err(e) => {
            let mut m = String::from_str("parse config TOML: ");
            m.append(e.as_str());
            return Err(m);
        },
        Ok(None) => return Err(String::from_str("admin_api section not found in config (is it enabled?)")),
        Ok(Some(a)) => a,
    };
    let enabled = match a.enabled {
        Some(b) => b,
        None => false,
    };
    if !enabled {
        return Err(String::from_str("admin_api is not enabled in config"));
    }
    let bind = match &a.bind {
        Some(b) => b.clone(),
        None => String::from_str("127.0.0.1:19090"),
    };
    let base_url = match admin_url {
        Some(u) => {
            if u.as_str().unicode_len() == 0 {
                let mut m = String::from_str("http://");
                m.append(bind.as_str());
                m
            } else {
                trim_slashes(u.as_str())
            }
        },
        None => {
            let mut m = String::from_str("http://");
            m.append(bind.as_str());
            m
        },
    };
    let token_path = match &a.token_file {
        Some(t) => t.clone(),
        None => String::from_str("${HOME}/.wfusion/admin_api.token"),
    };
    Ok(ConfigTarget { base_url, token_path })
}

/// The target once the token file was read: its contents, trimmed, must not be empty.
pub fn token_target(base_url: String, token_path: &str, token_text: &str) -> (r: Result<AdminApiTarget, String>)
    ensures
        match r {
            Ok(t) => trimmed(token_text@).len() > 0 && t.token@ == trimmed(token_text@) && t.base_url == base_url,
            Err(e) => trimmed(token_text@).len() == 0 && e@ == "token file '"@ + token_path@ + "' is empty"@,
        },
{
    let token = trim_text(token_text);
    if token.as_str().unicode_len() == 0 {
        let mut m = String::from_str("token file '");
        m.append(token_path);
        m.append("' is empty");
        return Err(m);
    }
    Ok(AdminApiTarget { base_url, token })
}

/// The target from `--admin-url` and the contents of `--token-file`.
pub fn explicit_target(url: &str, token_file: &str, token_text: &str) -> (r: Result<AdminApiTarget, String>)
    ensures
        match r {
            Ok(t) => trimmed(token_text@).len() > 0 && t.token@ == trimmed(token_text@) && t.base_url@
                == without_trailing_slashes(url@),
            Err(e) => trimmed(token_text@).len() == 0 && e@ == "token file '"@ + token_file@ + "' is empty"@,
        },
{
    token_target(trim_slashes(url), token_file, token_text)
}

// ---------------------------------------------------------------------------
// Status
// ---------------------------------------------------------------------------

/// The status endpoint.
pub fn status_url(base_url: &str) -> (r: String)
    ensures
        r@ == base_url@ + "/admin/v1/runtime/status"@,
{
    let mut m = String::from_str(base_url);
    m.append("/admin/v1/runtime/status");
    m
}

/// The reload endpoint.
pub fn reload_url(base_url: &str) -> (r: String)
    ensures
        r@ == base_url@ + "/admin/v1/reloads/model"@,
{
    let mut m = String::from_str(base_url);
    m.append("/admin/v1/reloads/model");
    m
}

pub open spec fn bool_text(b: bool) -> Seq<char> {
    if b {
        "true"@
    } else {
        "false"@
    }
}

/// A line for a string field of the status, when the field is a string.
pub open spec fn str_line(body: Seq<char>, key: Seq<char>, label: Seq<char>) -> Seq<Seq<char>> {
    match json_get(body, key) {
        Some(v) => match json_layout_of(v) {
            JsonLayoutModel::Str(s) => seq![label + s],
            _ => Seq::empty(),
        },
        None => Seq::empty(),
    }
}

/// A line for a boolean field of the status, when the field is a boolean.
pub open spec fn bool_line(body: Seq<char>, key: Seq<char>, label: Seq<char>) -> Seq<Seq<char>> {
    match json_get(body, key) {
        Some(v) => match json_layout_of(v) {
            JsonLayoutModel::Bool(b) => seq![label + bool_text(b)],
            _ => Seq::empty(),
        },
        None => Seq::empty(),
    }
}

/// What `engine status` reports for an answer of the admin API.
pub open spec fn status_spec(code: u16, status_text: Seq<char>, body: Seq<char>, base_url: Seq<char>, json: bool) -> Result<Seq<Seq<char>>, Seq<char>> {
    if code != 200 {
        Err("HTTP "@ + status_text + ": "@ + body)
    } else if json {
        Ok(seq![body])
    } else {
        match json_layout_of(body) {
            JsonLayoutModel::Invalid(e) => Err("parse response JSON: "@ + e),
            _ => Ok(
                seq!["Engine status"@, "  Endpoint  : "@ + base_url] + str_line(body, "instance_id"@, "  Instance  : "@)
                    + str_line(body, "version"@, "  Version   : "@) + bool_line(
                    body,
                    "accepting_commands"@,
                    "  Accepting : "@,
                ) + bool_line(body, "reloading"@, "  Reloading : "@) + match json_get(body, "project_version"@) {
                    Some(v) => seq!["  Project V : "@ + v],
                    None => Seq::empty(),
                },
            ),
        }
    }
}

fn push_str_line(out: &mut Vec<String>, body: &str, key: &str, label: &str)
    ensures
        views(final(out)@) == views(old(out)@) + str_line(body@, key@, label@),
{
    let ghost before = views(out@);
    match json_get_of(body, key) {
        Some(v) => match json_layout(v.as_str()) {
            JsonLayout::Str(s) => {
                let mut m = String::from_str(label);
                m.append(s.as_str());
                out.push(m);
            },
            _ => {},
        },
        None => {},
    }
    assert(views(out@) =~= before + str_line(body@, key@, label@));
}

fn push_bool_line(out: &mut Vec<String>, body: &str, key: &str, label: &str)
    ensures
        views(final(out)@) == views(old(out)@) + bool_line(body@, key@, label@),
{
    let ghost before = views(out@);
    match json_get_of(body, key) {
        Some(v) => match json_layout(v.as_str()) {
            JsonLayout::Bool(b) => {
                let mut m = String::from_str(label);
                m.append(
                    if b {
                        "true"
                    } else {
                        "false"
                    },
                );
                out.push(m);
            },
            _ => {},
        },
        None => {},
    }
    assert(views(out@) =~= before + bool_line(body@, key@, label@));
}

/// What `engine status` reports for an answer of the admin API: an error for
/// any HTTP status but 200, the body itself with `--json`, otherwise the
/// endpoint and the fields of the body that are present with the right type.
pub fn status_report(code: u16, status_text: &str, body: &str, base_url: &str, json: bool) -> (r: Result<
    Vec<String>,
    String,
>)
    ensures
        match r {
            Ok(lines) => status_spec(code, status_text@, body@, base_url@, json) == Ok::<Seq<Seq<char>>, Seq<char>>(views(lines@)),
            Err(e) => status_spec(code, status_text@, body@, base_url@, json) == Err::<Seq<Seq<char>>, Seq<char>>(e@),
        },
{
    if code != 200 {
        let mut m = String::from_str("HTTP ");
        m.append(status_text);
        m.append(": ");
        m.append(body);
        return Err(m);
    }
    if json {
        let mut v: Vec<String> = Vec::new();
        v.push(String::from_str(body));
        assert(views(v@) =~= seq![body@]);
        return Ok(v);
    }
    match json_layout(body) {
        JsonLayout::Invalid(e) => {
            let mut m = String::from_str("parse response JSON: ");
            m.append(e.as_str());
            return Err(m);
        },
        _ => {},
    }
    let mut out: Vec<String> = Vec::new();
    out.push(String::from_str("Engine status"));
    let mut ep = String::from_str("  Endpoint  : ");
    ep.append(base_url);
    out.push(ep);
    assert(views(out@) =~= seq!["Engine status"@, "  Endpoint  : "@ + base_url@]);
    push_str_line(&mut out, body, "instance_id", "  Instance  : ");
    push_str_line(&mut out, body, "version", "  Version   : ");
    push_bool_line(&mut out, body, "accepting_commands", "  Accepting : ");
    push_bool_line(&mut out, body, "reloading", "  Reloading : ");
    let ghost before = views(out@);
    match json_get_of(body, "project_version") {
        Some(v) => {
            let mut m = String::from_str("  Project V : ");
            m.append(v.as_str());
            out.push(m);
        },
        None => {},
    }
    assert(views(out@) =~= before + match json_get(body@, "project_version"@) {
        Some(v) => seq!["  Project V : "@ + v],
        None => Seq::<Seq<char>>::empty(),
    });
    Ok(out)
}

// ---------------------------------------------------------------------------
// Reload
// ---------------------------------------------------------------------------

/// The daemon's answer to a reload request.
#[derive(Debug, Clone, PartialEq)]
pub struct ReloadResponse {
    pub request_id: String,
    pub accepted: bool,
    pub result: String,
    pub update: Option<bool>,
    pub requested_version: Option<String>,
    pub current_version: Option<String>,
    pub resolved_tag: Option<String>,
    pub group: Option<String>,
    pub force_replaced: Option<bool>,
    pub warning: Option<String>,
    pub error: Option<String>,
}

pub open spec fn opt_line(label: Seq<char>, v: Option<Seq<char>>) -> Seq<Seq<char>> {
    match v {
        Some(t) => seq![label + t],
        None => Seq::empty(),
    }
}

pub open spec fn opt_bool_line(label: Seq<char>, v: Option<bool>) -> Seq<Seq<char>> {
    match v {
        Some(b) => seq![label + bool_text(b)],
        None => Seq::empty(),
    }
}

/// The lines `engine reload` prints for an answer.
pub open spec fn reload_spec(base_url: Seq<char>, r: ReloadResponse) -> Seq<Seq<char>> {
    seq![
        "Engine reload"@,
        "  Endpoint : "@ + base_url,
        "  Request  : "@ + r.request_id@,
        "  Accepted : "@ + bool_text(r.accepted),
        "  Result   : "@ + r.result@,
    ] + opt_bool_line("  Updated  : "@, r.update) + opt_line("  Request V: "@, opt_text(r.requested_version))
        + opt_line("  Current V: "@, opt_text(r.current_version)) + opt_line(
        "  Tag      : "@,
        opt_text(r.resolved_tag),
    ) + opt_line("  Group    : "@, opt_text(r.group)) + opt_bool_line("  Forced   : "@, r.force_replaced)
        + opt_line("  Warning  : "@, opt_text(r.warning)) + opt_line("  Error    : "@, opt_text(r.error))
}

fn push_opt(out: &mut Vec<String>, label: &str, v: &Option<String>)
    ensures
        views(final(out)@) == views(old(out)@) + opt_line(label@, opt_text(*v)),
{
    let ghost before = views(out@);
    match v {
        Some(t) => {
            let mut m = String::from_str(label);
            m.append(t.as_str());
            out.push(m);
        },
        None => {},
    }
    assert(views(out@) =~= before + opt_line(label@, opt_text(*v)));
}

fn push_opt_bool(out: &mut Vec<String>, label: &str, v: Option<bool>)
    ensures
        views(final(out)@) == views(old(out)@) + opt_bool_line(label@, v),
{
    let ghost before = views(out@);
    match v {
        Some(b) => {
            let mut m = String::from_str(label);
            m.append(
                if b {
                    "true"
                } else {
                    "false"
                },
            );
            out.push(m);
        },
        None => {},
    }
    assert(views(out@) =~= before + opt_bool_line(label@, v));
}

/// The lines `engine reload` prints for the daemon's answer.
pub fn reload_lines(base_url: &str, r: &ReloadResponse) -> (lines: Vec<String>)
    ensures
        views(lines@) == reload_spec(base_url@, *r),
{
    let mut out: Vec<String> = Vec::new();
    out.push(String::from_str("Engine reload"));
    let mut m = String::from_str("  Endpoint : ");
    m.append(base_url);
    out.push(m);
    let mut m = String::from_str("  Request  : ");
    m.append(r.request_id.as_str());
    out.push(m);
    let mut m = String::from_str("  Accepted : ");
    m.append(
        if r.accepted {
            "true"
        } else {
            "false"
        },
    );
    out.push(m);
    let mut m = String::from_str("  Result   : ");
    m.append(r.result.as_str());
    out.push(m);
    assert(views(out@) =~= seq![
        "Engine reload"@,
        "  Endpoint : "@ + base_url@,
        "  Request  : "@ + r.request_id@,
        "  Accepted : "@ + bool_text(r.accepted),
        "  Result   : "@ + r.result@,
    ]);
    push_opt_bool(&mut out, "  Updated  : ", r.update);
    push_opt(&mut out, "  Request V: ", &r.requested_version);
    push_opt(&mut out, "  Current V: ", &r.current_version);
    push_opt(&mut out, "  Tag      : ", &r.resolved_tag);
    push_opt(&mut out, "  Group    : ", &r.group);
    push_opt_bool(&mut out, "  Forced   : ", r.force_replaced);
    push_opt(&mut out, "  Warning  : ", &r.warning);
    push_opt(&mut out, "  Error    : ", &r.error);
    out
}

/// The outcome of a reload by its HTTP status: any 2xx succeeds, anything
/// else fails with `HTTP <status>`.
pub fn reload_outcome(code: u16, status_text: &str) -> (r: Result<(), String>)
    ensures
        match r {
            Ok(()) => 200 <= code <= 299,
            Err(e) => !(200 <= code <= 299) && e@ == "HTTP "@ + status_text@,
        },
{
    if (200 <= code && code <= 299) || code == 202 {
        Ok(())
    } else {
        let mut m = String::from_str("HTTP ");
        m.append(status_text);
        Err(m)
    }
}

} // verus!
