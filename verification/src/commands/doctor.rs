//! `doctor`: the environment diagnostic.  Each check passes or fails with
//! a detail line; the report lists them and counts the failures.

use vstd::prelude::*;
use crate::commands::ping::{ping_url, ping_url_text};
use crate::config::{missing_token_message, Config, DEFAULT_ENDPOINT};
use crate::text::{
    chars_of, decimal, push_decimal, push_range, starts_with, starts_with_str,
};

verus! {

/// Arguments of `doctor`.
#[derive(Debug)]
pub struct DoctorArgs {
    /// Print HTTP request/response details.
    pub verbose: bool,
}

/// Outcome of a single doctor check.
#[derive(Debug)]
pub struct Check {
    /// What was checked.
    pub label: String,
    /// Whether the check passed.
    pub passed: bool,
    /// What was found, or what to do about it.
    pub detail: String,
}

/// The text of a check.
pub struct CheckView {
    pub label: Seq<char>,
    pub passed: bool,
    pub detail: Seq<char>,
}

impl View for Check {
    type V = CheckView;

    open spec fn view(&self) -> CheckView {
        CheckView { label: self.label@, passed: self.passed, detail: self.detail@ }
    }
}

/// A check with the given outcome.
pub open spec fn check_of(label: Seq<char>, passed: bool, detail: Seq<char>) -> CheckView {
    CheckView { label, passed, detail }
}

impl Check {
    /// A passed check.
    pub fn pass(label: &str, detail: String) -> (c: Check)
        ensures
            c@ == check_of(label@, true, detail@),
    {
        Check { label: String::from_str(label), passed: true, detail }
    }

    /// A failed check.
    pub fn fail(label: &str, detail: String) -> (c: Check)
        ensures
            c@ == check_of(label@, false, detail@),
    {
        Check { label: String::from_str(label), passed: false, detail }
    }
}

/// `s` names an `https://` or `http://` URL.
pub open spec fn valid_url(s: Seq<char>) -> bool {
    starts_with(s, "https://"@) || starts_with(s, "http://"@)
}

/// Whether `s` starts with `https://` or `http://`.
pub fn is_valid_url(s: &str) -> (r: bool)
    ensures
        r == valid_url(s@),
{
    starts_with_str(s, "https://") || starts_with_str(s, "http://")
}

/// How many characters of `s` a redaction shows: the first `n`, but never
/// all of `s`, so that a secret is never shown whole.
pub open spec fn shown_len(s: Seq<char>, n: nat) -> nat {
    if s.len() == 0 {
        0
    } else if n < s.len() {
        n
    } else {
        (s.len() - 1) as nat
    }
}

/// The first `shown_len(s, n)` characters of `s` followed by `[REDACTED]`.
pub open spec fn redacted(s: Seq<char>, n: nat) -> Seq<char> {
    s.take(shown_len(s, n) as int) + "[REDACTED]"@
}

/// Redacts a token or secret: at most its first `n` characters, and never
/// all of it, then `[REDACTED]`.
pub fn redact(s: &str, n: usize) -> (r: String)
    ensures
        r@ == redacted(s@, n as nat),
{
    let v = chars_of(s);
    let k = if v.len() == 0 {
        0
    } else if n < v.len() {
        n
    } else {
        v.len() - 1
    };
    let mut r = String::new();
    push_range(&mut r, &v, 0, k);
    r.append("[REDACTED]");
    assert(v@.subrange(0, k as int) =~= s@.take(shown_len(s@, n as nat) as int));
    r
}

/// A redaction shows a proper prefix of a non-empty secret, never all of it.
pub proof fn lemma_redaction_hides_secret(s: Seq<char>, n: nat)
    requires
        s.len() > 0,
    ensures
        shown_len(s, n) < s.len(),
        redacted(s, n) == s.take(shown_len(s, n) as int) + "[REDACTED]"@,
{
}

/// The endpoint and token that the checks use: those of the configuration
/// file where it could be loaded, else the environment's
/// `CORELINK_ENDPOINT` (or the default endpoint) and `CORELINK_TOKEN` (or
/// none).
pub open spec fn resolved(
    loaded: Option<Config>,
    env_endpoint: Option<String>,
    env_token: Option<String>,
) -> (Seq<char>, Seq<char>) {
    match loaded {
        Some(cfg) => (cfg.endpoint@, cfg.token@),
        None => (
            match env_endpoint {
                Some(e) => e@,
                None => DEFAULT_ENDPOINT@,
            },
            match env_token {
                Some(t) => t@,
                None => Seq::empty(),
            },
        ),
    }
}

/// Resolves the effective endpoint and token without failing on a missing
/// configuration file.
pub fn resolve_endpoint_token(
    loaded: Option<Config>,
    env_endpoint: Option<String>,
    env_token: Option<String>,
) -> (r: (String, String))
    ensures
        (r.0@, r.1@) == resolved(loaded, env_endpoint, env_token),
{
    match loaded {
        Some(cfg) => (cfg.endpoint, cfg.token),
        None => {
            let ep = match env_endpoint {
                Some(e) => e,
                None => String::from_str(DEFAULT_ENDPOINT),
            };
            let tok = match env_token {
                Some(t) => t,
                None => String::new(),
            };
            (ep, tok)
        },
    }
}

/// The endpoint check, from the value of `CORELINK_ENDPOINT` (empty where
/// unset) and the resolved endpoint.
pub open spec fn endpoint_check_of(env_endpoint: Seq<char>, endpoint: Seq<char>) -> CheckView {
    if env_endpoint.len() == 0 {
        if endpoint == DEFAULT_ENDPOINT@ {
            check_of(
                "endpoint"@,
                true,
                endpoint + " (default — set CORELINK_ENDPOINT to override)"@,
            )
        } else {
            check_of("endpoint"@, true, endpoint + " (from ~/.corelink/config.toml)"@)
        }
    } else if valid_url(env_endpoint) {
        check_of("endpoint"@, true, env_endpoint + " (env)"@)
    } else {
        check_of(
            "endpoint"@,
            false,
            "CORELINK_ENDPOINT=\""@ + env_endpoint
                + "\" is not a valid URL; expected https://... scheme"@,
        )
    }
}

/// Checks that the endpoint is present and a valid URL.
pub fn endpoint_check(env_endpoint: &str, endpoint: &str) -> (c: Check)
    ensures
        c@ == endpoint_check_of(env_endpoint@, endpoint@),
{
    if env_endpoint.is_empty() {
        let ev = chars_of(endpoint);
        let dv = chars_of(DEFAULT_ENDPOINT);
        let mut d = String::from_str(endpoint);
        if crate::text::prefixes_equal(&ev, ev.len(), &dv, dv.len()) {
            assert(ev@ =~= ev@.take(ev.len() as int) && dv@ =~= dv@.take(dv.len() as int));
            d.append(" (default — set CORELINK_ENDPOINT to override)");
            Check::pass("endpoint", d)
        } else {
            assert(ev@ =~= ev@.take(ev.len() as int) && dv@ =~= dv@.take(dv.len() as int));
            d.append(" (from ~/.corelink/config.toml)");
            Check::pass("endpoint", d)
        }
    } else if is_valid_url(env_endpoint) {
        let mut d = String::from_str(env_endpoint);
        d.append(" (env)");
        Check::pass("endpoint", d)
    } else {
        let mut d = String::from_str("CORELINK_ENDPOINT=\"");
        d.append(env_endpoint);
        d.append("\" is not a valid URL; expected https://... scheme");
        Check::fail("endpoint", d)
    }
}

/// The token that the token check looks at: `CORELINK_TOKEN` where it is
/// set and non-empty, else the resolved token.
pub open spec fn effective_token(env_token: Seq<char>, token: Seq<char>) -> Seq<char> {
    if env_token.len() != 0 {
        env_token
    } else {
        token
    }
}

/// How many characters of a non-empty effective token the token check
/// shows: up to 8 of a `ct_` token, up to 6 of any other, never all of it.
pub open spec fn token_shown_len(effective: Seq<char>) -> nat {
    if starts_with(effective, "ct_"@) {
        shown_len(effective, 8)
    } else {
        shown_len(effective, 6)
    }
}

/// The token check, from the value of `CORELINK_TOKEN` (empty where unset)
/// and the resolved token.
pub open spec fn token_check_of(env_token: Seq<char>, token: Seq<char>) -> CheckView {
    let effective = effective_token(env_token, token);
    if effective.len() == 0 {
        check_of("token"@, false, missing_token_message())
    } else if !starts_with(effective, "ct_"@) {
        check_of(
            "token"@,
            false,
            "token does not start with `ct_` — CoreLink PATs are prefixed `ct_`; got: "@ + redacted(
                effective,
                6,
            ) + "... (check for stale/wrong token)"@,
        )
    } else {
        check_of(
            "token"@,
            true,
            redacted(effective, 8) + "... ("@ + (if env_token.len() != 0 {
                "env"@
            } else {
                "~/.corelink/config.toml"@
            }) + ")"@,
        )
    }
}

/// The token check never shows the token whole: its detail is some text,
/// a proper prefix of the effective token, `[REDACTED]`, and some text.
pub proof fn lemma_token_check_hides_token(env_token: Seq<char>, token: Seq<char>) -> (parts: (
    Seq<char>,
    Seq<char>,
))
    requires
        effective_token(env_token, token).len() > 0,
    ensures
        token_shown_len(effective_token(env_token, token)) < effective_token(env_token, token).len(),
        token_check_of(env_token, token).detail == parts.0 + effective_token(env_token, token).take(
            token_shown_len(effective_token(env_token, token)) as int,
        ) + "[REDACTED]"@ + parts.1,
{
    let e = effective_token(env_token, token);
    let shown = e.take(token_shown_len(e) as int);
    if !starts_with(e, "ct_"@) {
        let lead = "token does not start with `ct_` — CoreLink PATs are prefixed `ct_`; got: "@;
        let tail = "... (check for stale/wrong token)"@;
        assert(token_check_of(env_token, token).detail =~= lead + shown + "[REDACTED]"@ + tail);
        (lead, tail)
    } else {
        let src = if env_token.len() != 0 {
            "env"@
        } else {
            "~/.corelink/config.toml"@
        };
        let tail = "... ("@ + src + ")"@;
        assert(token_check_of(env_token, token).detail =~= Seq::empty() + shown + "[REDACTED]"@
            + tail);
        (Seq::empty(), tail)
    }
}

/// Checks that a token is present and carries the `ct_` prefix of CoreLink
/// personal access tokens.
pub fn token_check(env_token: &str, token: &str) -> (c: Check)
    ensures
        c@ == token_check_of(env_token@, token@),
{
    let from_env = !env_token.is_empty();
    let effective = if from_env {
        env_token
    } else {
        token
    };
    if effective.is_empty() {
        Check::fail(
            "token",
            String::from_str(
                "no token found — pass --token, set CORELINK_TOKEN, or add `token` to ~/.corelink/config.toml",
            ),
        )
    } else if !starts_with_str(effective, "ct_") {
        let mut d = String::from_str(
            "token does not start with `ct_` — CoreLink PATs are prefixed `ct_`; got: ",
        );
        let r = redact(effective, 6);
        d.append(r.as_str());
        d.append("... (check for stale/wrong token)");
        Check::fail("token", d)
    } else {
        let mut d = redact(effective, 8);
        d.append("... (");
        if from_env {
            d.append("env");
        } else {
            d.append("~/.corelink/config.toml");
        }
        d.append(")");
        Check::pass("token", d)
    }
}

/// How the probe of the endpoint went.
#[derive(Debug)]
pub enum ProbeOutcome {
    /// The HTTP client could not be built; the text says why.
    ClientFailed(String),
    /// The request timed out.
    TimedOut,
    /// The connection was refused.
    ConnectFailed,
    /// Another network error; the text says what.
    NetworkError(String),
    /// The endpoint answered with this status (its code, and its text such
    /// as `401 Unauthorized`).
    Responded { status: u16, status_text: String },
}

/// What a probe tells of the endpoint: whether it was reached and whether
/// the token was accepted, each with a detail.
#[derive(Debug)]
pub struct ProbeVerdict {
    pub reach_ok: bool,
    pub reach_detail: String,
    pub auth_ok: bool,
    pub auth_detail: String,
}

/// The text of a probe verdict.
pub struct ProbeVerdictView {
    pub reach_ok: bool,
    pub reach_detail: Seq<char>,
    pub auth_ok: bool,
    pub auth_detail: Seq<char>,
}

impl View for ProbeVerdict {
    type V = ProbeVerdictView;

    open spec fn view(&self) -> ProbeVerdictView {
        ProbeVerdictView {
            reach_ok: self.reach_ok,
            reach_detail: self.reach_detail@,
            auth_ok: self.auth_ok,
            auth_detail: self.auth_detail@,
        }
    }
}

/// A verdict.
pub open spec fn verdict_of(
    reach_ok: bool,
    reach_detail: Seq<char>,
    auth_ok: bool,
    auth_detail: Seq<char>,
) -> ProbeVerdictView {
    ProbeVerdictView { reach_ok, reach_detail, auth_ok, auth_detail }
}

/// The verdict on a probe of `url` that went as `outcome`: a 2xx answer
/// means reached and accepted, 401 or 403 means reached but the token was
/// rejected, any other answer is unexpected, and no answer means not
/// reached.
pub open spec fn probe_verdict_of(url: Seq<char>, outcome: ProbeOutcome) -> ProbeVerdictView {
    match outcome {
        ProbeOutcome::ClientFailed(e) => verdict_of(
            false,
            "failed to build HTTP client: "@ + e@,
            false,
            "skipped (client build failed)"@,
        ),
        ProbeOutcome::TimedOut => verdict_of(
            false,
            "timed out after 5 s reaching "@ + url + " — check network/firewall"@,
            false,
            "skipped (unreachable)"@,
        ),
        ProbeOutcome::ConnectFailed => verdict_of(
            false,
            "connection refused to "@ + url + " — verify endpoint or check `corelink config show`"@,
            false,
            "skipped (unreachable)"@,
        ),
        ProbeOutcome::NetworkError(e) => verdict_of(
            false,
            "network error: "@ + e@,
            false,
            "skipped (unreachable)"@,
        ),
        ProbeOutcome::Responded { status, status_text } => if 200 <= status < 300 {
            verdict_of(true, Seq::empty(), true, Seq::empty())
        } else if status == 401 || status == 403 {
            verdict_of(
                true,
                Seq::empty(),
                false,
                "HTTP "@ + status_text@
                    + " — token rejected; run `corelink config show` to verify token, or issue a new PAT at https://corelink-app.humangr.com"@,
            )
        } else {
            verdict_of(
                true,
                Seq::empty(),
                false,
                "HTTP "@ + status_text@ + " — unexpected response from "@ + url
                    + "; check endpoint configuration"@,
            )
        },
    }
}

/// Judges a probe of `url` by how it went.
pub fn probe_verdict(url: &str, outcome: ProbeOutcome) -> (v: ProbeVerdict)
    ensures
        v@ == probe_verdict_of(url@, outcome),
{
    match outcome {
        ProbeOutcome::ClientFailed(e) => {
            let mut d = String::from_str("failed to build HTTP client: ");
            d.append(e.as_str());
            ProbeVerdict {
                reach_ok: false,
                reach_detail: d,
                auth_ok: false,
                auth_detail: String::from_str("skipped (client build failed)"),
            }
        },
        ProbeOutcome::TimedOut => {
            let mut d = String::from_str("timed out after 5 s reaching ");
            d.append(url);
            d.append(" — check network/firewall");
            ProbeVerdict {
                reach_ok: false,
                reach_detail: d,
                auth_ok: false,
                auth_detail: String::from_str("skipped (unreachable)"),
            }
        },
        ProbeOutcome::ConnectFailed => {
            let mut d = String::from_str("connection refused to ");
            d.append(url);
            d.append(" — verify endpoint or check `corelink config show`");
            ProbeVerdict {
                reach_ok: false,
                reach_detail: d,
                auth_ok: false,
                auth_detail: String::from_str("skipped (unreachable)"),
            }
        },
        ProbeOutcome::NetworkError(e) => {
            let mut d = String::from_str("network error: ");
            d.append(e.as_str());
            ProbeVerdict {
                reach_ok: false,
                reach_detail: d,
                auth_ok: false,
                auth_detail: String::from_str("skipped (unreachable)"),
            }
        },
        ProbeOutcome::Responded { status, status_text } => {
            if 200 <= status && status < 300 {
                ProbeVerdict {
                    reach_ok: true,
                    reach_detail: String::new(),
                    auth_ok: true,
                    auth_detail: String::new(),
                }
            } else if status == 401 || status == 403 {
                let mut d = String::from_str("HTTP ");
                d.append(status_text.as_str());
                d.append(
                    " — token rejected; run `corelink config show` to verify token, or issue a new PAT at https://corelink-app.humangr.com",
                );
                ProbeVerdict {
                    reach_ok: true,
                    reach_detail: String::new(),
                    auth_ok: false,
                    auth_detail: d,
                }
            } else {
                let mut d = String::from_str("HTTP ");
                d.append(status_text.as_str());
                d.append(" — unexpected response from ");
                d.append(url);
                d.append("; check endpoint configuration");
                ProbeVerdict {
                    reach_ok: true,
                    reach_detail: String::new(),
                    auth_ok: false,
                    auth_detail: d,
                }
            }
        },
    }
}

/// The endpoint is probed only where both an endpoint and a token are
/// configured.
pub fn needs_probe(endpoint: &str, token: &str) -> (r: bool)
    ensures
        r == (endpoint@.len() != 0 && token@.len() != 0),
{
    !endpoint.is_empty() && !token.is_empty()
}

/// The reachability and authentication checks: from the verdict and the
/// time the probe took where a probe was made, and skipped otherwise.
pub open spec fn connectivity_checks_of(url: Seq<char>, probe: Option<(ProbeVerdictView, nat)>) -> (
    CheckView,
    CheckView,
) {
    match probe {
        Some((v, ms)) => (
            if v.reach_ok {
                check_of("endpoint reachable"@, true, "POST "@ + url + " ("@ + decimal(ms) + " ms)"@)
            } else {
                check_of("endpoint reachable"@, false, v.reach_detail)
            },
            if v.auth_ok {
                check_of("auth valid"@, true, "HTTP 200 ("@ + decimal(ms) + " ms)"@)
            } else {
                check_of("auth valid"@, false, v.auth_detail)
            },
        ),
        None => (
            check_of("endpoint reachable"@, false, "skipped — endpoint or token not configured"@),
            check_of("auth valid"@, false, "skipped — endpoint or token not configured"@),
        ),
    }
}

/// The view of a probe result.
pub open spec fn probe_view(probe: Option<(ProbeVerdict, u64)>) -> Option<(ProbeVerdictView, nat)> {
    match probe {
        Some((v, ms)) => Some((v@, ms as nat)),
        None => None,
    }
}

/// The reachability and authentication checks for the probe of `url`,
/// given as its verdict and the milliseconds it took, or `None` where no
/// probe was made.
pub fn connectivity_checks(url: &str, probe: Option<(ProbeVerdict, u64)>) -> (r: (Check, Check))
    ensures
        (r.0@, r.1@) == connectivity_checks_of(url@, probe_view(probe)),
{
    match probe {
        Some((v, ms)) => {
            let reach = if v.reach_ok {
                let mut d = String::from_str("POST ");
                d.append(url);
                d.append(" (");
                push_decimal(&mut d, ms);
                d.append(" ms)");
                Check::pass("endpoint reachable", d)
            } else {
                Check::fail("endpoint reachable", v.reach_detail)
            };
            let auth = if v.auth_ok {
                let mut d = String::from_str("HTTP 200 (");
                push_decimal(&mut d, ms);
                d.append(" ms)");
                Check::pass("auth valid", d)
            } else {
                Check::fail("auth valid", v.auth_detail)
            };
            (reach, auth)
        },
        None => (
            Check::fail(
                "endpoint reachable",
                String::from_str("skipped — endpoint or token not configured"),
            ),
            Check::fail("auth valid", String::from_str("skipped — endpoint or token not configured")),
        ),
    }
}

/// A tool whose presence `doctor` checks once its init command has been run.
#[derive(Debug, Clone, Copy, PartialEq, Eq)]
pub enum Tool {
    /// `bazel`, used once `bazel-init` has written its `.bazelrc` block.
    Bazel,
    /// `sccache`, used once `cargo-init` has written its block.
    Sccache,
    /// `turbo`, used once `npm-init` has configured `turbo.json`.
    Turbo,
    /// `docker buildx`, used once `docker-init` has written its cache file.
    DockerBuildx,
}

/// The check of `tool`: skipped (and passed) where its init command has not
/// been applied, and otherwise passed exactly when the tool is available.
pub open spec fn tool_check_of(tool: Tool, applied: bool, available: bool) -> CheckView {
    match tool {
        Tool::Bazel => if !applied {
            check_of("bazel (bazel-init not applied)"@, true, "skipped — no .bazelrc corelink block detected"@)
        } else if available {
            check_of("bazel (bazel-init applied)"@, true, "bazel found on PATH"@)
        } else {
            check_of(
                "bazel (bazel-init applied)"@,
                false,
                "bazel not found on PATH — install Bazel ≥ 7 from https://bazel.build/install"@,
            )
        },
        Tool::Sccache => if !applied {
            check_of(
                "sccache (cargo-init not applied)"@,
                true,
                "skipped — no .cargo/config.toml corelink block detected"@,
            )
        } else if available {
            check_of("sccache (cargo-init applied)"@, true, "sccache found on PATH"@)
        } else {
            check_of(
                "sccache (cargo-init applied)"@,
                false,
                "sccache not found — install via: cargo install sccache --locked\n\t  or: brew install sccache"@,
            )
        },
        Tool::Turbo => if !applied {
            check_of("turbo (npm-init not applied)"@, true, "skipped — no turbo.json remoteCache block detected"@)
        } else if available {
            check_of("turbo (npm-init applied)"@, true, "turbo found on PATH"@)
        } else {
            check_of(
                "turbo (npm-init applied)"@,
                false,
                "turbo not found — install via: npm install -g turbo\n\t  or: npx turbo (no global install)"@,
            )
        },
        Tool::DockerBuildx => if !applied {
            check_of(
                "docker buildx (docker-init not applied)"@,
                true,
                "skipped — no .docker/buildx-cache.json detected"@,
            )
        } else if available {
            check_of("docker buildx (docker-init applied)"@, true, "docker buildx available"@)
        } else {
            check_of(
                "docker buildx (docker-init applied)"@,
                false,
                "docker buildx not available — install Docker Desktop ≥ 4 or the buildx CLI plugin: https://docs.docker.com/buildx/install"@,
            )
        },
    }
}

/// A tool's check passes when its init command was not applied (there is
/// nothing to check), and otherwise exactly when the tool is available.
pub proof fn lemma_tool_check_passes_iff_available(tool: Tool, applied: bool, available: bool)
    ensures
        applied ==> tool_check_of(tool, applied, available).passed == available,
        !applied ==> tool_check_of(tool, applied, available).passed,
{
}

/// Checks `tool`, given whether its init command was applied and whether
/// the tool is available.
pub fn tool_check(tool: Tool, applied: bool, available: bool) -> (c: Check)
    ensures
        c@ == tool_check_of(tool, applied, available),
{
    match tool {
        Tool::Bazel => if !applied {
            Check::pass("bazel (bazel-init not applied)", String::from_str("skipped — no .bazelrc corelink block detected"))
        } else if available {
            Check::pass("bazel (bazel-init applied)", String::from_str("bazel found on PATH"))
        } else {
            Check::fail(
                "bazel (bazel-init applied)",
                String::from_str("bazel not found on PATH — install Bazel ≥ 7 from https://bazel.build/install"),
            )
        },
        Tool::Sccache => if !applied {
            Check::pass(
                "sccache (cargo-init not applied)",
                String::from_str("skipped — no .cargo/config.toml corelink block detected"),
            )
        } else if available {
            Check::pass("sccache (cargo-init applied)", String::from_str("sccache found on PATH"))
        } else {
            Check::fail(
                "sccache (cargo-init applied)",
                String::from_str(
                    "sccache not found — install via: cargo install sccache --locked\n\t  or: brew install sccache",
                ),
            )
        },
        Tool::Turbo => if !applied {
            Check::pass(
                "turbo (npm-init not applied)",
                String::from_str("skipped — no turbo.json remoteCache block detected"),
            )
        } else if available {
            Check::pass("turbo (npm-init applied)", String::from_str("turbo found on PATH"))
        } else {
            Check::fail(
                "turbo (npm-init applied)",
                String::from_str(
                    "turbo not found — install via: npm install -g turbo\n\t  or: npx turbo (no global install)",
                ),
            )
        },
        Tool::DockerBuildx => if !applied {
            Check::pass(
                "docker buildx (docker-init not applied)",
                String::from_str("skipped — no .docker/buildx-cache.json detected"),
            )
        } else if available {
            Check::pass("docker buildx (docker-init applied)", String::from_str("docker buildx available"))
        } else {
            Check::fail(
                "docker buildx (docker-init applied)",
                String::from_str(
                    "docker buildx not available — install Docker Desktop ≥ 4 or the buildx CLI plugin: https://docs.docker.com/buildx/install",
                ),
            )
        },
    }
}

/// The views of a list of checks.
pub open spec fn check_views(checks: Seq<Check>) -> Seq<CheckView> {
    checks.map_values(|c: Check| c@)
}

/// How many of the checks failed.
pub open spec fn failures(checks: Seq<CheckView>) -> nat
    decreases checks.len(),
{
    if checks.len() == 0 {
        0
    } else {
        failures(checks.drop_last()) + if checks.last().passed {
            0nat
        } else {
            1nat
        }
    }
}

/// The report line of the check numbered `number`.
pub open spec fn report_line(number: nat, c: CheckView) -> Seq<char> {
    "  "@ + (if c.passed {
        "✓"@
    } else {
        "✗"@
    }) + " ["@ + decimal(number) + "] "@ + c.label + ": "@ + c.detail + "\n"@
}

/// The report lines of the checks, numbered from one.
pub open spec fn report_lines(checks: Seq<CheckView>) -> Seq<char>
    decreases checks.len(),
{
    if checks.len() == 0 {
        Seq::empty()
    } else {
        report_lines(checks.drop_last()) + report_line(checks.len(), checks.last())
    }
}

/// The text that `doctor` prints: a heading, one numbered line per check,
/// and a summary of the failures.
pub open spec fn report_text(checks: Seq<CheckView>) -> Seq<char> {
    "corelink doctor — environment diagnostic\n\n"@ + report_lines(checks) + "\n"@ + if failures(
        checks,
    ) == 0 {
        "All checks passed.\n"@
    } else {
        decimal(failures(checks)) + " check(s) failed. Address the issues above and re-run `corelink doctor`.\n"@
    }
}

/// Counts the failed checks.
pub fn failed_count(checks: &Vec<Check>) -> (n: usize)
    ensures
        n == failures(check_views(checks@)),
{
    let mut n: usize = 0;
    let mut i: usize = 0;
    while i < checks.len()
        invariant
            i <= checks.len(),
            n <= i,
            n == failures(check_views(checks@.take(i as int))),
        decreases checks.len() - i,
    {
        assert(check_views(checks@.take(i + 1)).drop_last() =~= check_views(checks@.take(i as int)));
        if !checks[i].passed {
            n = n + 1;
        }
        i = i + 1;
    }
    assert(checks@.take(i as int) =~= checks@);
    n
}

/// Renders the report that `doctor` prints for `checks`.
#[verifier::rlimit(40)]
pub fn render_report(checks: &Vec<Check>) -> (s: String)
    requires
        checks.len() < u64::MAX,
    ensures
        s@ == report_text(check_views(checks@)),
{
    let mut s = String::from_str("corelink doctor — environment diagnostic\n\n");
    let mut i: usize = 0;
    while i < checks.len()
        invariant
            i <= checks.len() < u64::MAX,
            s@ == "corelink doctor — environment diagnostic\n\n"@ + report_lines(
                check_views(checks@.take(i as int)),
            ),
        decreases checks.len() - i,
    {
        let c = &checks[i];
        s.append("  ");
        if c.passed {
            s.append("✓");
        } else {
            s.append("✗");
        }
        s.append(" [");
        push_decimal(&mut s, (i + 1) as u64);
        s.append("] ");
        s.append(c.label.as_str());
        s.append(": ");
        s.append(c.detail.as_str());
        s.append("\n");
        assert(check_views(checks@.take(i + 1)).drop_last() =~= check_views(checks@.take(i as int)));
        i = i + 1;
    }
    assert(checks@.take(i as int) =~= checks@);
    s.append("\n");
    let failed = failed_count(checks);
    if failed == 0 {
        s.append("All checks passed.\n");
    } else {
        push_decimal(&mut s, failed as u64);
        s.append(" check(s) failed. Address the issues above and re-run `corelink doctor`.\n");
    }
    s
}

/// What `doctor` found about its environment, gathered by the caller.
pub struct Findings {
    /// The client's version and build target, as the first check shows them.
    pub version: String,
    /// The value of `CORELINK_ENDPOINT`, empty where unset.
    pub env_endpoint: String,
    /// The value of `CORELINK_TOKEN`, empty where unset.
    pub env_token: String,
    /// The resolved endpoint (see `resolve_endpoint_token`).
    pub endpoint: String,
    /// The resolved token.
    pub token: String,
    /// The probe of the endpoint's health-check URL, where one was made
    /// (see `needs_probe`): its verdict and the milliseconds it took.
    pub probe: Option<(ProbeVerdict, u64)>,
    /// For `bazel`, `sccache`, `turbo` and `docker buildx`, in that order:
    /// whether its init command was applied, and whether the tool is
    /// available.
    pub tools: [(bool, bool); 4],
}

/// The nine checks of `doctor`, in order: version, endpoint, token,
/// reachability, authentication, and the four tools.
pub open spec fn diagnosis(f: Findings) -> Seq<CheckView> {
    let (reach, auth) = connectivity_checks_of(
        ping_url_text(f.endpoint@),
        probe_view(f.probe),
    );
    seq![
        check_of("CLI version"@, true, f.version@),
        endpoint_check_of(f.env_endpoint@, f.endpoint@),
        token_check_of(f.env_token@, f.token@),
        reach,
        auth,
        tool_check_of(Tool::Bazel, f.tools[0].0, f.tools[0].1),
        tool_check_of(Tool::Sccache, f.tools[1].0, f.tools[1].1),
        tool_check_of(Tool::Turbo, f.tools[2].0, f.tools[2].1),
        tool_check_of(Tool::DockerBuildx, f.tools[3].0, f.tools[3].1),
    ]
}

/// Runs the nine checks of `doctor` on what was found.
pub fn run_checks(f: Findings) -> (checks: Vec<Check>)
    ensures
        check_views(checks@) == diagnosis(f),
{
    let ghost g = f;
    let url = ping_url(f.endpoint.as_str());
    let mut checks: Vec<Check> = Vec::new();
    checks.push(Check::pass("CLI version", f.version));
    checks.push(endpoint_check(f.env_endpoint.as_str(), f.endpoint.as_str()));
    checks.push(token_check(f.env_token.as_str(), f.token.as_str()));
    let (reach, auth) = connectivity_checks(url.as_str(), f.probe);
    checks.push(reach);
    checks.push(auth);
    checks.push(tool_check(Tool::Bazel, f.tools[0].0, f.tools[0].1));
    checks.push(tool_check(Tool::Sccache, f.tools[1].0, f.tools[1].1));
    checks.push(tool_check(Tool::Turbo, f.tools[2].0, f.tools[2].1));
    checks.push(tool_check(Tool::DockerBuildx, f.tools[3].0, f.tools[3].1));
    assert(check_views(checks@) =~= diagnosis(g));
    checks
}

} // verus!
