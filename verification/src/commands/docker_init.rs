//! `docker-init`: the BuildKit registry-cache configuration written to
//! `.docker/buildx-cache.json`, and the `.gitignore` block that keeps that
//! file (which holds a token) out of version control.

use vstd::prelude::*;
use crate::json::{
    as_text, get_member, json_parse, member, new_map, object_value, parse_value, pretty_or_default,
    pretty_or_empty, readable, readable_within, set_member, set_text_member, JsonTree,
};
use crate::managed_block::{
    block_ok, lemma_block_ok_from_parts, lemma_client_markers_ok, lemma_occurs_transitive,
    lemma_upsert_idempotent, lemma_upserted_contains_block, markers_in_order, upsert_managed,
    upserted, MARKER_BEGIN, MARKER_END,
};
use crate::text::{
    chars_of, contains_str, occurs_at, occurs_in, prefixes_equal, strip_suffix, strip_suffix_len,
    trim_end_char, trim_end_matches_char, trimmed_len, lemma_trim_end_idempotent, ends_with,
};

verus! {

/// The line that opens the client's `.gitignore` block.
pub const GITIGNORE_MARKER_BEGIN: &'static str = MARKER_BEGIN;

/// The line that closes the client's `.gitignore` block.
pub const GITIGNORE_MARKER_END: &'static str = MARKER_END;

/// The path that the `.gitignore` block lists.
pub const GITIGNORE_LINE: &'static str = ".docker/buildx-cache.json";

/// Arguments of `docker-init`: overrides of the configured endpoint and token.
#[derive(Debug)]
pub struct DockerInitArgs {
    /// Cache endpoint URL that overrides the configured one.
    pub endpoint: Option<String>,
    /// Bearer token that overrides the configured one.
    pub token: Option<String>,
}

/// `r` without the suffix `p` where it ends with it, and `r` otherwise
/// (`strip_suffix(p).unwrap_or(r)`).
pub open spec fn without_suffix(r: Seq<char>, p: Seq<char>) -> Seq<char> {
    match strip_suffix(r, p) {
        Some(t) => t,
        None => r,
    }
}

/// Whether the JSON text `existing_json` already configures the registry
/// cache for `endpoint`: its `remoteCache.ref` is a string that, without a
/// trailing `/cache` and then without trailing slashes, equals `endpoint`
/// without trailing slashes.
pub open spec fn applied_for(existing_json: Seq<char>, endpoint: Seq<char>) -> bool {
    match json_parse(existing_json) {
        Some(doc) => match member(doc, "remoteCache"@) {
            Some(rc) => match member(rc, "ref"@) {
                Some(JsonTree::Str(r)) => trim_end_char(without_suffix(r, "/cache"@), '/')
                    == trim_end_char(endpoint, '/'),
                _ => false,
            },
            None => false,
        },
        None => false,
    }
}

/// The BuildKit cache configuration for the endpoint `ep` (already without
/// trailing slashes) and `token`.
pub open spec fn cache_config(ep: Seq<char>, token: Seq<char>) -> JsonTree {
    JsonTree::Object(
        map![
            "remoteCache"@ => JsonTree::Object(map![
                "type"@ => JsonTree::Str("registry"@),
                "ref"@ => JsonTree::Str(ep + "/cache"@),
                "auth"@ => JsonTree::Object(map![
                    "type"@ => JsonTree::Str("bearer"@),
                    "token"@ => JsonTree::Str(token),
                ]),
            ]),
            "buildkit"@ => JsonTree::Object(map![
                "cacheFrom"@ => JsonTree::Str("type=registry,ref="@ + ep + "/cache"@),
                "cacheTo"@ => JsonTree::Str("type=registry,ref="@ + ep + "/cache,mode=max"@),
            ]),
        ],
    )
}

/// The text of `.docker/buildx-cache.json` for `endpoint` and `token`.
pub open spec fn cache_json_text(endpoint: Seq<char>, token: Seq<char>) -> Seq<char> {
    pretty_or_empty(cache_config(trim_end_char(endpoint, '/'), token)) + "\n"@
}

/// Checks whether `.docker/buildx-cache.json` already points at the given
/// endpoint.
pub fn is_already_applied(existing_json: &str, endpoint: &str) -> (r: bool)
    ensures
        r == applied_for(existing_json@, endpoint@),
{
    let ev = chars_of(endpoint);
    let en = trimmed_len(&ev, ev.len(), '/');
    assert(ev@.take(ev.len() as int) =~= ev@);
    let doc = match parse_value(existing_json) {
        Ok(v) => v,
        Err(_) => {
            return false;
        },
    };
    let rc = match get_member(&doc, "remoteCache") {
        Some(rc) => rc,
        None => {
            return false;
        },
    };
    let rv = match get_member(rc, "ref") {
        Some(rv) => rv,
        None => {
            return false;
        },
    };
    let text = match as_text(rv) {
        Some(t) => t,
        None => {
            return false;
        },
    };
    let tv = chars_of(text);
    let suffix = chars_of("/cache");
    let sn = strip_suffix_len(&tv, &suffix);
    let tn = trimmed_len(&tv, sn, '/');
    prefixes_equal(&tv, tn, &ev, en)
}

/// Renders `.docker/buildx-cache.json`: the registry cache reference
/// `<endpoint>/cache`, its bearer token, and the matching `cacheFrom` and
/// `cacheTo` settings, pretty-printed and ended with a line break.
///
/// The text written is recognised as already applied for exactly the
/// endpoints that equal `endpoint` up to trailing slashes.
pub fn render_cache_json(endpoint: &str, token: &str) -> (s: String)
    ensures
        s@ == cache_json_text(endpoint@, token@),
        forall|other: Seq<char>| #[trigger] applied_for(s@, other) == (trim_end_char(endpoint@, '/')
            == trim_end_char(other, '/')),
{
    let ep = trim_end_matches_char(endpoint, '/');
    let mut cache_ref = ep.clone();
    cache_ref.append("/cache");
    let mut cache_from = String::from_str("type=registry,ref=");
    cache_from.append(ep.as_str());
    cache_from.append("/cache");
    let mut cache_to = String::from_str("type=registry,ref=");
    cache_to.append(ep.as_str());
    cache_to.append("/cache,mode=max");

    let mut auth = new_map();
    set_text_member(&mut auth, "type", "bearer");
    set_text_member(&mut auth, "token", token);
    let mut remote = new_map();
    set_text_member(&mut remote, "type", "registry");
    set_text_member(&mut remote, "ref", cache_ref.as_str());
    set_member(&mut remote, "auth", object_value(auth));
    let mut buildkit = new_map();
    set_text_member(&mut buildkit, "cacheFrom", cache_from.as_str());
    set_text_member(&mut buildkit, "cacheTo", cache_to.as_str());
    let mut root = new_map();
    set_member(&mut root, "remoteCache", object_value(remote));
    set_member(&mut root, "buildkit", object_value(buildkit));
    let doc = object_value(root);
    let mut s = pretty_or_default(&doc);
    s.append("\n");
    proof {
        lemma_cache_config_readable(ep@, token@);
        assert forall|other: Seq<char>| #[trigger] applied_for(s@, other) == (trim_end_char(
            endpoint@,
            '/',
        ) == trim_end_char(other, '/')) by {
            lemma_written_config_is_applied(endpoint@, token@, other);
        }
    }
    s
}

/// The BuildKit configuration holds no number and nests three objects deep.
proof fn lemma_cache_config_readable(ep: Seq<char>, token: Seq<char>)
    ensures
        readable(cache_config(ep, token)),
{
    let auth = map![
        "type"@ => JsonTree::Str("bearer"@),
        "token"@ => JsonTree::Str(token),
    ];
    let remote = map![
        "type"@ => JsonTree::Str("registry"@),
        "ref"@ => JsonTree::Str(ep + "/cache"@),
        "auth"@ => JsonTree::Object(auth),
    ];
    let buildkit = map![
        "cacheFrom"@ => JsonTree::Str("type=registry,ref="@ + ep + "/cache"@),
        "cacheTo"@ => JsonTree::Str("type=registry,ref="@ + ep + "/cache,mode=max"@),
    ];
    let root = map![
        "remoteCache"@ => JsonTree::Object(remote),
        "buildkit"@ => JsonTree::Object(buildkit),
    ];
    assert forall|k: Seq<char>| #[trigger] auth.contains_key(k) implies readable_within(
        auth[k],
        124,
    ) by {
        assert(auth[k] is Str);
    }
    assert(readable_within(JsonTree::Object(auth), 125));
    assert forall|k: Seq<char>| #[trigger] remote.contains_key(k) implies readable_within(
        remote[k],
        125,
    ) by {
        if k != "auth"@ {
            assert(remote[k] is Str);
        }
    }
    assert(readable_within(JsonTree::Object(remote), 126));
    assert forall|k: Seq<char>| #[trigger] buildkit.contains_key(k) implies readable_within(
        buildkit[k],
        125,
    ) by {
        assert(buildkit[k] is Str);
    }
    assert(readable_within(JsonTree::Object(buildkit), 126));
    assert(readable_within(JsonTree::Object(root), 127));
    assert(cache_config(ep, token) == JsonTree::Object(root));
}

/// The text of the `.gitignore` block.
pub open spec fn gitignore_block_text() -> Seq<char> {
    GITIGNORE_MARKER_BEGIN@ + "\n"@ + GITIGNORE_LINE@ + "\n"@ + GITIGNORE_MARKER_END@ + "\n"@
}

/// The new text of `.gitignore`, or nothing where it already lists the
/// cache file.
pub open spec fn gitignore_updated(existing: Seq<char>) -> Option<Seq<char>> {
    if occurs_in(existing, GITIGNORE_LINE@) {
        None
    } else {
        Some(upserted(existing, GITIGNORE_MARKER_BEGIN@, GITIGNORE_MARKER_END@, gitignore_block_text()))
    }
}

/// The `.gitignore` block that lists `.docker/buildx-cache.json`.
pub fn gitignore_block() -> (s: String)
    ensures
        s@ == gitignore_block_text(),
{
    let mut s = String::from_str(GITIGNORE_MARKER_BEGIN);
    s.append("\n");
    s.append(GITIGNORE_LINE);
    s.append("\n");
    s.append(GITIGNORE_MARKER_END);
    s.append("\n");
    s
}

/// What `.gitignore` becomes so that it lists the cache file inside the
/// client's block; nothing where it already lists it.
pub fn gitignore_update(existing: &str) -> (r: Option<String>)
    ensures
        match r {
            Some(s) => gitignore_updated(existing@) == Some(s@),
            None => gitignore_updated(existing@) is None,
        },
{
    if contains_str(existing, GITIGNORE_LINE) {
        return None;
    }
    let block = gitignore_block();
    Some(upsert_text_block(existing, block.as_str()))
}

/// Replaces the client's block in `existing` with `new_block` where
/// `existing` has one, and appends `new_block` otherwise.
pub fn upsert_text_block(existing: &str, new_block: &str) -> (out: String)
    ensures
        out@ == upserted(existing@, GITIGNORE_MARKER_BEGIN@, GITIGNORE_MARKER_END@, new_block@),
{
    upsert_managed(existing, GITIGNORE_MARKER_BEGIN, GITIGNORE_MARKER_END, new_block)
}

/// The `.gitignore` block is a well-formed managed block.
pub proof fn lemma_gitignore_block_well_formed()
    ensures
        block_ok(gitignore_block_text(), GITIGNORE_MARKER_BEGIN@, GITIGNORE_MARKER_END@),
{
    reveal_strlit("\n");
    reveal_strlit(".docker/buildx-cache.json");
    let body = "\n"@ + GITIGNORE_LINE@ + "\n"@;
    assert forall|i: int| 0 <= i < body.len() implies body[i] != '#' by {}
    lemma_client_markers_ok();
    lemma_block_ok_from_parts(MARKER_BEGIN@, body, MARKER_END@);
    assert(gitignore_block_text() =~= MARKER_BEGIN@ + body + MARKER_END@.push('\n'));
}

/// Once `.gitignore` has been updated, a second update finds nothing to do.
pub proof fn lemma_gitignore_update_settles(existing: Seq<char>)
    ensures
        gitignore_updated(existing) matches Some(t) ==> gitignore_updated(t) is None,
{
    if let Some(t) = gitignore_updated(existing) {
        reveal_strlit("\n");
        reveal_strlit(".docker/buildx-cache.json");
        let block = gitignore_block_text();
        lemma_upserted_contains_block(existing, MARKER_BEGIN@, MARKER_END@, block);
        let i = choose|i: int| occurs_at(t, block, i);
        let j = (MARKER_BEGIN@.len() + 1) as int;
        assert(block.subrange(j, (j + GITIGNORE_LINE@.len()) as int) =~= GITIGNORE_LINE@);
        assert(occurs_at(block, GITIGNORE_LINE@, j));
        lemma_occurs_transitive(t, block, GITIGNORE_LINE@, i, j);
    }
}

/// `.gitignore` is left alone exactly when it already lists
/// `.docker/buildx-cache.json` (the file that holds the token); any other
/// text, the empty text of a missing file included, gets a new text that
/// lists it.
pub proof fn lemma_gitignore_update_lists_file(existing: Seq<char>)
    ensures
        (gitignore_updated(existing) is None) == occurs_in(existing, ".docker/buildx-cache.json"@),
        gitignore_updated(existing) matches Some(t) ==> occurs_in(t, ".docker/buildx-cache.json"@),
{
    lemma_gitignore_update_settles(existing);
}

/// Upserting the `.gitignore` block twice leaves the text as once, for any
/// text whose markers are in order.
pub proof fn lemma_gitignore_upsert_idempotent(existing: Seq<char>)
    requires
        markers_in_order(existing, GITIGNORE_MARKER_BEGIN@, GITIGNORE_MARKER_END@),
    ensures
        ({
            let once = upserted(existing, GITIGNORE_MARKER_BEGIN@, GITIGNORE_MARKER_END@, gitignore_block_text());
            upserted(once, GITIGNORE_MARKER_BEGIN@, GITIGNORE_MARKER_END@, gitignore_block_text()) == once
        }),
{
    lemma_client_markers_ok();
    lemma_gitignore_block_well_formed();
    lemma_upsert_idempotent(existing, MARKER_BEGIN@, MARKER_END@, gitignore_block_text());
}

/// The configuration that `docker-init` writes for `endpoint` is
/// recognised as already applied for exactly the endpoints that equal
/// `endpoint` up to trailing slashes, wherever `serde_json` reads the
/// written text back as the document it printed.
pub proof fn lemma_written_config_is_applied(endpoint: Seq<char>, token: Seq<char>, other: Seq<char>)
    requires
        json_parse(cache_json_text(endpoint, token)) == Some(
            cache_config(trim_end_char(endpoint, '/'), token),
        ),
    ensures
        applied_for(cache_json_text(endpoint, token), other) == (trim_end_char(endpoint, '/')
            == trim_end_char(other, '/')),
{
    reveal_strlit("remoteCache");
    reveal_strlit("buildkit");
    reveal_strlit("type");
    reveal_strlit("ref");
    reveal_strlit("auth");
    reveal_strlit("/cache");
    let ep = trim_end_char(endpoint, '/');
    let r = ep + "/cache"@;
    let doc = cache_config(ep, token);
    assert("remoteCache"@.len() != "buildkit"@.len());
    assert("ref"@.len() != "auth"@.len());
    let rc = member(doc, "remoteCache"@);
    let inner = map![
        "type"@ => JsonTree::Str("registry"@),
        "ref"@ => JsonTree::Str(r),
        "auth"@ => JsonTree::Object(map![
            "type"@ => JsonTree::Str("bearer"@),
            "token"@ => JsonTree::Str(token),
        ]),
    ];
    assert(rc == Some(JsonTree::Object(inner)));
    assert(inner.contains_key("ref"@) && inner["ref"@] == JsonTree::Str(r));
    assert(member(rc->0, "ref"@) == Some(JsonTree::Str(r)));
    assert(ends_with(r, "/cache"@)) by {
        assert(r.skip(r.len() - "/cache"@.len()) =~= "/cache"@);
    }
    assert(without_suffix(r, "/cache"@) =~= ep);
    lemma_trim_end_idempotent(endpoint, '/');
}

} // verus!
