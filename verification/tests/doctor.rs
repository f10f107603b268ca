use corelink::commands::doctor::{
    connectivity_checks, endpoint_check, failed_count, is_valid_url, needs_probe, probe_verdict,
    redact, render_report, resolve_endpoint_token, run_checks, token_check, tool_check, Check,
    Findings, ProbeOutcome, Tool,
};
use corelink::config::Config;

#[test]
fn valid_url_https() {
    assert!(is_valid_url("https://corelink-api.humangr.com"));
}

#[test]
fn valid_url_http_local() {
    assert!(is_valid_url("http://localhost:8080"));
}

#[test]
fn invalid_url_bare_hostname() {
    assert!(!is_valid_url("corelink-api.humangr.com"));
}

#[test]
fn redact_shows_prefix_only() {
    let s = redact("ct_supersecrettoken", 6);
    assert!(s.starts_with("ct_sup"));
    assert!(s.contains("[REDACTED]"));
    assert!(!s.contains("secrettoken"));
}

#[test]
fn redact_never_shows_whole_secret() {
    assert_eq!(redact("ab", 6), "a[REDACTED]");
    assert_eq!(redact("abcdef", 6), "abcde[REDACTED]");
    assert_eq!(redact("", 6), "[REDACTED]");
    assert_eq!(redact("ct_ééééé", 5), "ct_éé[REDACTED]");
}

#[test]
fn endpoint_check_cases() {
    let c = endpoint_check("", "https://corelink-api.humangr.com");
    assert!(c.passed);
    assert_eq!(c.label, "endpoint");
    assert_eq!(
        c.detail,
        "https://corelink-api.humangr.com (default — set CORELINK_ENDPOINT to override)"
    );
    let c = endpoint_check("", "https://mine.example.com");
    assert!(c.passed);
    assert_eq!(c.detail, "https://mine.example.com (from ~/.corelink/config.toml)");
    let c = endpoint_check("http://localhost:1", "https://x");
    assert!(c.passed);
    assert_eq!(c.detail, "http://localhost:1 (env)");
    let c = endpoint_check("ftp://x", "https://x");
    assert!(!c.passed);
    assert_eq!(
        c.detail,
        "CORELINK_ENDPOINT=\"ftp://x\" is not a valid URL; expected https://... scheme"
    );
}

#[test]
fn token_check_cases() {
    let c = token_check("", "");
    assert!(!c.passed);
    assert_eq!(
        c.detail,
        "no token found — pass --token, set CORELINK_TOKEN, or add `token` to ~/.corelink/config.toml"
    );
    let c = token_check("", "xx_secretvalue");
    assert!(!c.passed);
    assert_eq!(
        c.detail,
        "token does not start with `ct_` — CoreLink PATs are prefixed `ct_`; got: xx_sec[REDACTED]... (check for stale/wrong token)"
    );
    let c = token_check("ct_fromenv123", "ct_fromfile");
    assert!(c.passed);
    assert_eq!(c.detail, "ct_frome[REDACTED]... (env)");
    let c = token_check("", "ct_fromfile");
    assert!(c.passed);
    assert_eq!(c.detail, "ct_fromf[REDACTED]... (~/.corelink/config.toml)");
}

#[test]
fn token_check_never_shows_short_token() {
    let c = token_check("ct_abcd", "");
    assert!(c.passed);
    assert_eq!(c.detail, "ct_abc[REDACTED]... (env)");
    assert!(!c.detail.contains("ct_abcd"));
    let c = token_check("", "abc");
    assert!(!c.passed);
    assert!(c.detail.ends_with("got: ab[REDACTED]... (check for stale/wrong token)"));
}

#[test]
fn probe_verdict_cases() {
    let url = "https://e/v1/ping";
    let v = probe_verdict(url, ProbeOutcome::Responded { status: 204, status_text: "204 No Content".to_string() });
    assert!(v.reach_ok && v.auth_ok);
    let v = probe_verdict(url, ProbeOutcome::Responded { status: 401, status_text: "401 Unauthorized".to_string() });
    assert!(v.reach_ok && !v.auth_ok);
    assert_eq!(
        v.auth_detail,
        "HTTP 401 Unauthorized — token rejected; run `corelink config show` to verify token, or issue a new PAT at https://corelink-app.humangr.com"
    );
    let v = probe_verdict(url, ProbeOutcome::Responded { status: 500, status_text: "500 Internal Server Error".to_string() });
    assert!(v.reach_ok && !v.auth_ok);
    assert_eq!(
        v.auth_detail,
        "HTTP 500 Internal Server Error — unexpected response from https://e/v1/ping; check endpoint configuration"
    );
    let v = probe_verdict(url, ProbeOutcome::TimedOut);
    assert!(!v.reach_ok && !v.auth_ok);
    assert_eq!(v.reach_detail, "timed out after 5 s reaching https://e/v1/ping — check network/firewall");
    assert_eq!(v.auth_detail, "skipped (unreachable)");
    let v = probe_verdict(url, ProbeOutcome::ConnectFailed);
    assert_eq!(
        v.reach_detail,
        "connection refused to https://e/v1/ping — verify endpoint or check `corelink config show`"
    );
    let v = probe_verdict(url, ProbeOutcome::NetworkError("boom".to_string()));
    assert_eq!(v.reach_detail, "network error: boom");
    let v = probe_verdict(url, ProbeOutcome::ClientFailed("no tls".to_string()));
    assert_eq!(v.reach_detail, "failed to build HTTP client: no tls");
    assert_eq!(v.auth_detail, "skipped (client build failed)");
}

#[test]
fn connectivity_checks_cases() {
    let url = "https://e/v1/ping";
    let v = probe_verdict(url, ProbeOutcome::Responded { status: 200, status_text: "200 OK".to_string() });
    let (reach, auth) = connectivity_checks(url, Some((v, 42)));
    assert!(reach.passed && auth.passed);
    assert_eq!(reach.detail, "POST https://e/v1/ping (42 ms)");
    assert_eq!(auth.detail, "HTTP 200 (42 ms)");
    let (reach, auth) = connectivity_checks(url, None);
    assert!(!reach.passed && !auth.passed);
    assert_eq!(reach.label, "endpoint reachable");
    assert_eq!(auth.detail, "skipped — endpoint or token not configured");
    assert!(needs_probe("https://e", "t"));
    assert!(!needs_probe("", "t"));
    assert!(!needs_probe("https://e", ""));
}

#[test]
fn tool_check_cases() {
    let c = tool_check(Tool::Bazel, false, false);
    assert!(c.passed);
    assert_eq!(c.label, "bazel (bazel-init not applied)");
    let c = tool_check(Tool::Sccache, true, false);
    assert!(!c.passed);
    assert_eq!(
        c.detail,
        "sccache not found — install via: cargo install sccache --locked\n\t  or: brew install sccache"
    );
    let c = tool_check(Tool::Turbo, true, true);
    assert!(c.passed);
    assert_eq!(c.detail, "turbo found on PATH");
    let c = tool_check(Tool::DockerBuildx, true, false);
    assert!(!c.passed);
    assert_eq!(c.label, "docker buildx (docker-init applied)");
}

#[test]
fn report_counts_failures() {
    let checks = vec![
        Check::pass("CLI version", "0.1.0 (x86_64)".to_string()),
        Check::fail("token", "missing".to_string()),
    ];
    assert_eq!(failed_count(&checks), 1);
    assert_eq!(
        render_report(&checks),
        "corelink doctor — environment diagnostic\n\n  ✓ [1] CLI version: 0.1.0 (x86_64)\n  ✗ [2] token: missing\n\n1 check(s) failed. Address the issues above and re-run `corelink doctor`.\n"
    );
    let ok = vec![Check::pass("a", "b".to_string())];
    assert_eq!(failed_count(&ok), 0);
    assert!(render_report(&ok).ends_with("\n\nAll checks passed.\n"));
}

#[test]
fn resolve_endpoint_token_cases() {
    let cfg = Config { token: "ct_f".to_string(), region: "auto".to_string(), endpoint: "https://f".to_string() };
    assert_eq!(
        resolve_endpoint_token(Some(cfg), Some("https://env".to_string()), None),
        ("https://f".to_string(), "ct_f".to_string())
    );
    assert_eq!(
        resolve_endpoint_token(None, Some("https://env".to_string()), Some("ct_e".to_string())),
        ("https://env".to_string(), "ct_e".to_string())
    );
    assert_eq!(
        resolve_endpoint_token(None, None, None),
        ("https://corelink-api.humangr.com".to_string(), String::new())
    );
}

#[test]
fn run_checks_in_order() {
    let f = Findings {
        version: "1.0 (x86_64)".to_string(),
        env_endpoint: String::new(),
        env_token: String::new(),
        endpoint: "https://e/".to_string(),
        token: "ct_abcdefgh".to_string(),
        probe: Some((
            probe_verdict("https://e/v1/ping", ProbeOutcome::Responded { status: 403, status_text: "403 Forbidden".to_string() }),
            7,
        )),
        tools: [(true, true), (false, false), (true, false), (false, true)],
    };
    let checks = run_checks(f);
    let labels: Vec<&str> = checks.iter().map(|c| c.label.as_str()).collect();
    assert_eq!(
        labels,
        vec![
            "CLI version",
            "endpoint",
            "token",
            "endpoint reachable",
            "auth valid",
            "bazel (bazel-init applied)",
            "sccache (cargo-init not applied)",
            "turbo (npm-init applied)",
            "docker buildx (docker-init not applied)",
        ]
    );
    let passed: Vec<bool> = checks.iter().map(|c| c.passed).collect();
    assert_eq!(passed, vec![true, true, true, true, false, true, true, false, true]);
    assert_eq!(checks[3].detail, "POST https://e/v1/ping (7 ms)");
    assert_eq!(checks[1].detail, "https://e/ (from ~/.corelink/config.toml)");
    assert_eq!(failed_count(&checks), 2);
}
