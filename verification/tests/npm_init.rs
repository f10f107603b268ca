use corelink::commands::npm_init::{build_remote_cache_json, upsert_remote_cache_json, UpsertResult};

#[test]
fn npm_init_already_applied_noop_same_endpoint() {
    let endpoint = "https://corelink-api.humangr.com";
    let token = "ct_testtoken";
    let result1 = upsert_remote_cache_json("", endpoint, token);
    let json1 = match result1 {
        UpsertResult::Updated(ref s) => s.clone(),
        UpsertResult::AlreadyApplied => panic!("first call should update"),
    };
    let result2 = upsert_remote_cache_json(&json1, endpoint, token);
    assert_eq!(
        result2,
        UpsertResult::AlreadyApplied,
        "second call with same endpoint must be a noop"
    );
}

#[test]
fn upsert_creates_turbo_json_when_absent() {
    let result = upsert_remote_cache_json("", "https://ep.example.com", "tok123");
    match result {
        UpsertResult::Updated(json) => {
            let v: serde_json::Value = serde_json::from_str(&json).unwrap();
            assert_eq!(v["remoteCache"]["apiUrl"], "https://ep.example.com");
            assert_eq!(v["remoteCache"]["token"], "tok123");
            assert_eq!(v["remoteCache"]["enabled"], true);
        }
        UpsertResult::AlreadyApplied => panic!("should produce Updated"),
    }
}

#[test]
fn upsert_preserves_existing_pipeline_config() {
    let existing = r#"{"pipeline": {"build": {"outputs": ["dist/**"]}}}"#;
    let result = upsert_remote_cache_json(existing, "https://ep.example.com", "tok");
    match result {
        UpsertResult::Updated(json) => {
            let v: serde_json::Value = serde_json::from_str(&json).unwrap();
            assert!(v.get("pipeline").is_some(), "pipeline key must be preserved");
            assert_eq!(v["remoteCache"]["apiUrl"], "https://ep.example.com");
        }
        UpsertResult::AlreadyApplied => panic!("should produce Updated"),
    }
}

#[test]
fn upsert_updates_when_endpoint_changes() {
    let json_v1 = match upsert_remote_cache_json("", "https://old.example.com", "tok") {
        UpsertResult::Updated(s) => s,
        UpsertResult::AlreadyApplied => panic!(),
    };
    let result = upsert_remote_cache_json(&json_v1, "https://new.example.com", "tok2");
    match result {
        UpsertResult::Updated(json) => {
            let v: serde_json::Value = serde_json::from_str(&json).unwrap();
            assert_eq!(v["remoteCache"]["apiUrl"], "https://new.example.com");
        }
        UpsertResult::AlreadyApplied => panic!("different endpoint must trigger update"),
    }
}

#[test]
fn upsert_exact_text_for_empty_file() {
    let r = upsert_remote_cache_json("  \n", "https://ep/", "t");
    assert_eq!(
        r,
        UpsertResult::Updated(
            "{\n  \"remoteCache\": {\n    \"apiUrl\": \"https://ep\",\n    \"enabled\": true,\n    \"signature\": true,\n    \"teamId\": \"corelink\",\n    \"token\": \"t\"\n  }\n}\n"
                .to_string()
        )
    );
}

#[test]
fn upsert_replaces_invalid_json() {
    let r = upsert_remote_cache_json("{not json", "https://ep", "t");
    assert_eq!(r, UpsertResult::Updated(build_remote_cache_json("https://ep", "t")));
}

#[test]
fn upsert_rewrites_non_object_document_unchanged() {
    let r = upsert_remote_cache_json("[1, 2]", "https://ep", "t");
    assert_eq!(r, UpsertResult::Updated("[\n  1,\n  2\n]\n".to_string()));
}

#[test]
fn upsert_already_applied_ignores_trailing_slashes() {
    let existing = r#"{"remoteCache": {"apiUrl": "https://ep//"}}"#;
    assert_eq!(upsert_remote_cache_json(existing, "https://ep/", "t"), UpsertResult::AlreadyApplied);
}

#[test]
fn upsert_keeps_other_members_exactly() {
    let existing = r#"{"b": [1, {"c": null}], "a": 2.5}"#;
    let r = upsert_remote_cache_json(existing, "https://ep", "t");
    let json = match r {
        UpsertResult::Updated(s) => s,
        UpsertResult::AlreadyApplied => panic!(),
    };
    let v: serde_json::Value = serde_json::from_str(&json).unwrap();
    let before: serde_json::Value = serde_json::from_str(existing).unwrap();
    assert_eq!(v["a"], before["a"]);
    assert_eq!(v["b"], before["b"]);
    assert_eq!(v["remoteCache"]["teamId"], "corelink");
}

#[test]
fn build_remote_cache_json_uses_endpoint_as_given() {
    let s = build_remote_cache_json("https://ep/", "t");
    let v: serde_json::Value = serde_json::from_str(&s).unwrap();
    assert_eq!(v["remoteCache"]["apiUrl"], "https://ep/");
    assert_eq!(v["remoteCache"]["signature"], true);
    assert!(s.ends_with("}\n"));
}

#[test]
fn second_upsert_after_invalid_json_with_other_token_is_noop() {
    let first = match upsert_remote_cache_json("{not json", "https://ep/", "t1") {
        UpsertResult::Updated(s) => s,
        UpsertResult::AlreadyApplied => panic!("first call should update"),
    };
    assert_eq!(upsert_remote_cache_json(&first, "https://ep", "t2"), UpsertResult::AlreadyApplied);
}

#[test]
fn second_upsert_on_nested_document_with_escapes_is_noop() {
    let existing = "{\"tasks\": {\"build\": {\"outputs\": [\"dist/**\", \"a\\\"b\\\\c\\n\"]}}, \"x\": [[], {}], \"flag\": null}";
    let first = match upsert_remote_cache_json(existing, "https://ep//", "t") {
        UpsertResult::Updated(s) => s,
        UpsertResult::AlreadyApplied => panic!("first call should update"),
    };
    assert!(first.contains("\"a\\\"b\\\\c\\n\""));
    assert_eq!(upsert_remote_cache_json(&first, "https://ep//", "other"), UpsertResult::AlreadyApplied);
}
