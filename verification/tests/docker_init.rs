use corelink::commands::docker_init::{
    gitignore_block, gitignore_update, is_already_applied, render_cache_json, upsert_text_block,
    GITIGNORE_LINE, GITIGNORE_MARKER_BEGIN, GITIGNORE_MARKER_END,
};

#[test]
fn docker_init_already_applied_noop_same_endpoint() {
    let endpoint = "https://corelink-api.humangr.com";
    let token = "ct_testtoken";
    let json = render_cache_json(endpoint, token);
    assert!(
        is_already_applied(&json, endpoint),
        "written config should be detected as already applied"
    );
}

#[test]
fn already_applied_false_for_different_endpoint() {
    let json = render_cache_json("https://corelink-api.humangr.com", "tok");
    assert!(
        !is_already_applied(&json, "https://other.example.com"),
        "different endpoint must not be detected as already applied"
    );
}

#[test]
fn cache_json_contains_required_keys() {
    let json = render_cache_json("https://corelink-api.humangr.com", "ct_tok");
    let v: serde_json::Value = serde_json::from_str(&json).unwrap();
    assert_eq!(v["remoteCache"]["type"], "registry");
    assert_eq!(v["remoteCache"]["ref"], "https://corelink-api.humangr.com/cache");
    assert_eq!(v["remoteCache"]["auth"]["type"], "bearer");
    assert_eq!(v["remoteCache"]["auth"]["token"], "ct_tok");
    assert!(v["buildkit"]["cacheFrom"]
        .as_str()
        .unwrap()
        .starts_with("type=registry,ref="));
}

#[test]
fn gitignore_block_appended_when_absent() {
    let existing = "node_modules/\n.env\n";
    let block = format!("{GITIGNORE_MARKER_BEGIN}\n{GITIGNORE_LINE}\n{GITIGNORE_MARKER_END}\n");
    let updated = upsert_text_block(existing, &block);
    assert!(updated.contains(GITIGNORE_LINE));
    assert!(updated.starts_with("node_modules/"));
}

#[test]
fn gitignore_block_idempotent() {
    let block = format!("{GITIGNORE_MARKER_BEGIN}\n{GITIGNORE_LINE}\n{GITIGNORE_MARKER_END}\n");
    let once = upsert_text_block("", &block);
    let twice = upsert_text_block(&once, &block);
    assert_eq!(once, twice);
}

#[test]
fn cache_json_exact_text() {
    let json = render_cache_json("https://e.example.com/", "t\"k");
    assert_eq!(
        json,
        "{\n  \"buildkit\": {\n    \"cacheFrom\": \"type=registry,ref=https://e.example.com/cache\",\n    \"cacheTo\": \"type=registry,ref=https://e.example.com/cache,mode=max\"\n  },\n  \"remoteCache\": {\n    \"auth\": {\n      \"token\": \"t\\\"k\",\n      \"type\": \"bearer\"\n    },\n    \"ref\": \"https://e.example.com/cache\",\n    \"type\": \"registry\"\n  }\n}\n"
    );
}

#[test]
fn already_applied_ignores_trailing_slashes() {
    let json = r#"{"remoteCache": {"ref": "https://e.example.com//cache"}}"#;
    assert!(is_already_applied(json, "https://e.example.com///"));
    let bare = r#"{"remoteCache": {"ref": "https://e.example.com/"}}"#;
    assert!(is_already_applied(bare, "https://e.example.com"));
}

#[test]
fn already_applied_false_for_bad_documents() {
    assert!(!is_already_applied("not json", "https://e"));
    assert!(!is_already_applied("{}", "https://e"));
    assert!(!is_already_applied(r#"{"remoteCache": 3}"#, "https://e"));
    assert!(!is_already_applied(r#"{"remoteCache": {"ref": 7}}"#, "https://e"));
    assert!(!is_already_applied(r#"[{"remoteCache": {"ref": "https://e/cache"}}]"#, "https://e"));
}

#[test]
fn gitignore_update_appends_block_then_settles() {
    let first = gitignore_update("target/").unwrap();
    assert_eq!(first, format!("target/\n{}", gitignore_block()));
    assert_eq!(gitignore_update(&first), None);
}

#[test]
fn gitignore_update_skips_listed_file() {
    assert_eq!(gitignore_update("x\n.docker/buildx-cache.json\n"), None);
}

#[test]
fn gitignore_block_exact_text() {
    assert_eq!(
        gitignore_block(),
        "# corelink-managed (do not edit between markers)\n.docker/buildx-cache.json\n# /corelink-managed\n"
    );
}

#[test]
fn written_config_applied_up_to_trailing_slashes() {
    let json = render_cache_json("https://e.example.com//", "t");
    assert!(is_already_applied(&json, "https://e.example.com"));
    assert!(is_already_applied(&json, "https://e.example.com/"));
    assert!(!is_already_applied(&json, "https://e.example.co"));
}
