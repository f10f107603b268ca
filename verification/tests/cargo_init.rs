use corelink::commands::cargo_init::{render_stanza, upsert_block, CargoInitArgs};

#[test]
fn already_applied_noop() {
    let stanza = render_stanza("https://api.example.com", "tok");
    let once = upsert_block("", &stanza);
    let twice = upsert_block(&once, &stanza);
    assert_eq!(once, twice, "second upsert must be a noop");
}

#[test]
fn cargo_init_upsert_appends_when_absent() {
    let existing = "[profile.release]\nlto = \"thin\"\n";
    let stanza = render_stanza("https://ep", "t");
    let out = upsert_block(existing, &stanza);
    assert!(out.starts_with("[profile.release]"));
    assert!(out.contains("corelink-managed"));
    assert!(out.contains("sccache"));
    assert!(out.contains("https://ep/cargo"));
}

#[test]
fn cargo_init_upsert_replaces_existing_block() {
    let old_stanza = render_stanza("https://old.ep", "old-tok");
    let with_old = upsert_block("", &old_stanza);
    let new_stanza = render_stanza("https://new.ep", "new-tok");
    let with_new = upsert_block(&with_old, &new_stanza);
    assert!(with_new.contains("https://new.ep/cargo"));
    assert!(!with_new.contains("https://old.ep/cargo"));
}

#[test]
fn stanza_contains_required_keys() {
    let stanza = render_stanza("https://corelink-api.humangr.com", "ct_testtoken");
    assert!(stanza.contains("rustc-wrapper = \"sccache\""));
    assert!(stanza.contains("SCCACHE_ENDPOINT"));
    assert!(stanza.contains("SCCACHE_AUTH_TOKEN"));
    assert!(stanza.contains("ct_testtoken"));
}

#[test]
fn cargo_stanza_exact_text_trims_trailing_slashes() {
    let s = render_stanza("https://ep.example.com//", "ct_x");
    assert_eq!(
        s,
        "# corelink-managed (do not edit between markers)\n\
         [build]\n\
         rustc-wrapper = \"sccache\"\n\
         \n\
         [env]\n\
         SCCACHE_ENDPOINT = \"https://ep.example.com/cargo\"\n\
         SCCACHE_BUCKET = \"corelink\"\n\
         SCCACHE_AUTH_TYPE = \"bearer\"\n\
         SCCACHE_AUTH_TOKEN = \"ct_x\"\n\
         # /corelink-managed\n"
    );
}

#[test]
fn cargo_upsert_twice_after_other_content() {
    let existing = "[alias]\nb = \"build\"";
    let stanza = render_stanza("https://ep", "t");
    let once = upsert_block(existing, &stanza);
    assert_eq!(once, format!("[alias]\nb = \"build\"\n{stanza}"));
    assert_eq!(upsert_block(&once, &stanza), once);
}

#[test]
fn cargo_init_args_hold_overrides() {
    let args = CargoInitArgs { endpoint: Some("https://e".to_string()), token: None };
    assert_eq!(args.endpoint.as_deref(), Some("https://e"));
    assert!(args.token.is_none());
}
