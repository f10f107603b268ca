use corelink::commands::bazel_init::{render_stanza, upsert_block};

#[test]
fn bazel_init_upsert_appends_when_absent() {
    let existing = "build --jobs=4\n";
    let block = render_stanza("https://x", "tok");
    let out = upsert_block(existing, &block);
    assert!(out.starts_with("build --jobs=4\n"));
    assert!(out.contains("corelink-managed"));
    assert!(out.contains("https://x"));
}

#[test]
fn upsert_is_idempotent() {
    let block = render_stanza("https://x", "tok");
    let once = upsert_block("", &block);
    let twice = upsert_block(&once, &block);
    assert_eq!(once, twice);
}

#[test]
fn bazel_init_upsert_replaces_existing_block() {
    let old = render_stanza("https://OLD", "oldtok");
    let with_old = upsert_block("build --jobs=4\n", &old);
    let new = render_stanza("https://NEW", "newtok");
    let with_new = upsert_block(&with_old, &new);
    assert!(with_new.contains("https://NEW"));
    assert!(!with_new.contains("https://OLD"));
    assert!(with_new.contains("build --jobs=4"));
}

#[test]
fn bazel_stanza_exact_text() {
    let s = render_stanza("https://cache.example.com/", "ct_abc");
    assert_eq!(
        s,
        "# corelink-managed (do not edit between markers)\n\
         build --remote_cache=https://cache.example.com/\n\
         build --remote_header=authorization=Bearer\\ ct_abc\n\
         build --remote_upload_local_results=true\n\
         # /corelink-managed\n"
    );
}

#[test]
fn bazel_upsert_keeps_text_around_block() {
    let old = render_stanza("https://a", "t1");
    let existing = format!("common --x\n{old}build --y\n");
    let new = render_stanza("https://b", "t2");
    let out = upsert_block(&existing, &new);
    assert_eq!(out, format!("common --x\n{new}build --y\n"));
}

#[test]
fn bazel_upsert_appends_line_break_before_block() {
    let block = render_stanza("https://a", "t");
    let out = upsert_block("build --jobs=4", &block);
    assert_eq!(out, format!("build --jobs=4\n{block}"));
}

#[test]
fn bazel_upsert_end_marker_without_line_break() {
    // The managed region reaches to the end of the text when no line break
    // follows the end marker.
    let existing = "a\n# corelink-managed (do not edit between markers)\nold\n# /corelink-managed tail";
    let out = upsert_block(existing, "NEW\n");
    assert_eq!(out, "a\nNEW\n");
}

#[test]
fn bazel_upsert_markers_out_of_order_appends() {
    // An end marker before the begin marker: the block is appended, so a
    // second upsert changes the text again (the idempotence law leaves such
    // text out).
    let existing = "# /corelink-managed\n# corelink-managed (do not edit between markers)\n";
    let block = render_stanza("https://a", "t");
    let once = upsert_block(existing, &block);
    assert_eq!(once, format!("{existing}{block}"));
    let twice = upsert_block(&once, &block);
    assert_ne!(once, twice);
}
