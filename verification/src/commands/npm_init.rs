//! `npm-init`: the Turborepo `remoteCache` entry that the client keeps in
//! `turbo.json`.

use vstd::prelude::*;
use crate::json::{
    as_text, get_member, into_object, json_parse, json_pretty, json_tree, member, new_map,
    no_members, object_value, parse_value, pretty_or_default, pretty_or_empty, pretty_text, readable,
    readable_within,
    set_member, set_text_member, bool_value, JsonTree,
};
use crate::text::{
    lemma_not_blank_append, lemma_trim_end_idempotent,
    chars_of, is_blank, is_blank_str, prefixes_equal, trim_end_char, trim_end_matches_char,
    trimmed_len,
};

verus! {

/// Arguments of `npm-init`: overrides of the configured endpoint and token.
#[derive(Debug)]
pub struct NpmInitArgs {
    /// Cache endpoint URL that overrides the configured one.
    pub endpoint: Option<String>,
    /// Bearer token that overrides the configured one.
    pub token: Option<String>,
}

/// Result of attempting to upsert the `remoteCache` key in `turbo.json`.
#[derive(Debug, PartialEq, Eq)]
pub enum UpsertResult {
    /// The file already had `remoteCache.apiUrl` matching the given endpoint.
    AlreadyApplied,
    /// The file was updated (or created). Contains the new JSON string.
    Updated(String),
}

/// The `remoteCache` entry for the endpoint `ep` and `token`.
pub open spec fn remote_cache_entry(ep: Seq<char>, token: Seq<char>) -> JsonTree {
    JsonTree::Object(
        map![
            "signature"@ => JsonTree::Bool(true),
            "enabled"@ => JsonTree::Bool(true),
            "apiUrl"@ => JsonTree::Str(ep),
            "token"@ => JsonTree::Str(token),
            "teamId"@ => JsonTree::Str("corelink"@),
        ],
    )
}

/// A `turbo.json` that holds nothing but the `remoteCache` entry.
pub open spec fn fresh_document(ep: Seq<char>, token: Seq<char>) -> JsonTree {
    JsonTree::Object(map!["remoteCache"@ => remote_cache_entry(ep, token)])
}

/// The text of a fresh `turbo.json`, ended with a line break.
pub open spec fn fresh_text(ep: Seq<char>, token: Seq<char>) -> Seq<char> {
    pretty_or_empty(fresh_document(ep, token)) + "\n"@
}

/// `doc.remoteCache.apiUrl` is a string that equals `ep` once its trailing
/// slashes are removed.
pub open spec fn api_url_matches(doc: JsonTree, ep: Seq<char>) -> bool {
    match member(doc, "remoteCache"@) {
        Some(rc) => match member(rc, "apiUrl"@) {
            Some(JsonTree::Str(u)) => trim_end_char(u, '/') == ep,
            _ => false,
        },
        None => false,
    }
}

/// `doc` with its `remoteCache` member set, where `doc` is an object; any
/// other document is left as it is.
pub open spec fn with_remote_cache(doc: JsonTree, ep: Seq<char>, token: Seq<char>) -> JsonTree {
    match doc {
        JsonTree::Object(m) => JsonTree::Object(m.insert("remoteCache"@, remote_cache_entry(ep, token))),
        _ => doc,
    }
}

/// The document that an upsert starts from: an empty object for blank
/// text, and otherwise what the text parses to, if it is JSON.
pub open spec fn starting_document(existing: Seq<char>) -> Option<JsonTree> {
    if is_blank(existing) {
        Some(JsonTree::Object(no_members()))
    } else {
        json_parse(existing)
    }
}

/// What upserting the `remoteCache` entry into `existing` yields: nothing
/// (already applied) or the new text of `turbo.json`.
///
/// The endpoint is taken without trailing slashes.  Blank text counts as an
/// empty object; text that is not JSON is replaced by a fresh document.  A
/// document whose `remoteCache.apiUrl` already names the endpoint is left
/// alone.  Otherwise the entry is set (in an object document) and the
/// document is pretty-printed and ended with a line break.
pub open spec fn upsert_outcome(existing: Seq<char>, endpoint: Seq<char>, token: Seq<char>) -> Option<
    Seq<char>,
> {
    let ep = trim_end_char(endpoint, '/');
    match starting_document(existing) {
        None => Some(fresh_text(ep, token)),
        Some(doc) => if api_url_matches(doc, ep) {
            None
        } else {
            match json_pretty(with_remote_cache(doc, ep, token)) {
                Some(s) => Some(s + "\n"@),
                None => Some(fresh_text(ep, token) + "\n"@),
            }
        },
    }
}

/// The `remoteCache` entry as a JSON value.
fn remote_cache_value(ep: &str, token: &str) -> (v: serde_json::Value)
    ensures
        json_tree(v) == remote_cache_entry(ep@, token@),
{
    let mut m = new_map();
    set_member(&mut m, "signature", bool_value(true));
    set_member(&mut m, "enabled", bool_value(true));
    set_text_member(&mut m, "apiUrl", ep);
    set_text_member(&mut m, "token", token);
    set_text_member(&mut m, "teamId", "corelink");
    object_value(m)
}

/// Whether `doc.remoteCache.apiUrl` names `ep`.
fn api_url_matches_value(doc: &serde_json::Value, ep: &str) -> (r: bool)
    ensures
        r == api_url_matches(json_tree(*doc), ep@),
{
    let rc = match get_member(doc, "remoteCache") {
        Some(rc) => rc,
        None => {
            return false;
        },
    };
    let url = match get_member(rc, "apiUrl") {
        Some(u) => u,
        None => {
            return false;
        },
    };
    let text = match as_text(url) {
        Some(t) => t,
        None => {
            return false;
        },
    };
    let tv = chars_of(text);
    let ev = chars_of(ep);
    let tn = trimmed_len(&tv, tv.len(), '/');
    assert(tv@.take(tv.len() as int) =~= tv@);
    assert(ev@.take(ev.len() as int) =~= ev@);
    prefixes_equal(&tv, tn, &ev, ev.len())
}

/// Upserts the `remoteCache` entry for `endpoint` and `token` into the text
/// of `turbo.json`: `AlreadyApplied` where it already names the endpoint,
/// and the new text otherwise.
pub fn upsert_remote_cache_json(existing: &str, endpoint: &str, token: &str) -> (r: UpsertResult)
    ensures
        match r {
            UpsertResult::AlreadyApplied => upsert_outcome(existing@, endpoint@, token@) is None,
            UpsertResult::Updated(s) => upsert_outcome(existing@, endpoint@, token@) == Some(s@),
        },
        r matches UpsertResult::Updated(s) ==> (written_document(existing@, endpoint@, token@) matches Some(
            d,
        ) ==> (readable(d) ==> starting_document(s@) == Some(d))),
        r matches UpsertResult::Updated(s) ==> ((starting_document(existing@) matches Some(doc) ==> doc is Object
            && readable(doc)) ==> forall|token2: Seq<char>| #[trigger] upsert_outcome(
            s@,
            endpoint@,
            token2,
        ) is None),
{
    let ep = trim_end_matches_char(endpoint, '/');
    let root = if is_blank_str(existing) {
        object_value(new_map())
    } else {
        match parse_value(existing) {
            Ok(v) => v,
            Err(_) => {
                let fresh = build_remote_cache_json(ep.as_str(), token);
                proof {
                    lemma_fresh_document_readable(ep@, token@);
                    lemma_second_upsert_settles(
                        existing@,
                        endpoint@,
                        token@,
                        fresh@,
                        fresh_document(ep@, token@),
                    );
                }
                return UpsertResult::Updated(fresh);
            },
        }
    };
    if api_url_matches_value(&root, ep.as_str()) {
        return UpsertResult::AlreadyApplied;
    }
    let ghost doc = json_tree(root);
    let updated = match into_object(root) {
        Ok(m) => {
            let mut m = m;
            set_member(&mut m, "remoteCache", remote_cache_value(ep.as_str(), token));
            object_value(m)
        },
        Err(v) => v,
    };
    assert(json_tree(updated) == with_remote_cache(doc, ep@, token@));
    let text = match pretty_text(&updated) {
        Ok(t) => t,
        Err(_) => build_remote_cache_json(ep.as_str(), token),
    };
    let mut s = text;
    s.append("\n");
    proof {
        lemma_not_blank_append(text@, "\n"@);
        if doc is Object && readable(doc) {
            lemma_with_entry_readable(doc, ep@, token@);
        }
        lemma_second_upsert_settles(existing@, endpoint@, token@, s@, json_tree(updated));
    }
    UpsertResult::Updated(s)
}

/// The `remoteCache` entry holds no number and nests one object deep.
proof fn lemma_entry_readable(ep: Seq<char>, token: Seq<char>)
    ensures
        readable_within(remote_cache_entry(ep, token), 126),
{
    let fields = map![
        "signature"@ => JsonTree::Bool(true),
        "enabled"@ => JsonTree::Bool(true),
        "apiUrl"@ => JsonTree::Str(ep),
        "token"@ => JsonTree::Str(token),
        "teamId"@ => JsonTree::Str("corelink"@),
    ];
    assert forall|k: Seq<char>| #[trigger] fields.contains_key(k) implies readable_within(
        fields[k],
        125,
    ) by {
        assert(fields[k] is Bool || fields[k] is Str);
    }
    assert(remote_cache_entry(ep, token) == JsonTree::Object(fields));
}

/// Setting the entry in a readable object leaves it readable.
proof fn lemma_with_entry_readable(doc: JsonTree, ep: Seq<char>, token: Seq<char>)
    requires
        doc is Object,
        readable(doc),
    ensures
        readable(with_remote_cache(doc, ep, token)),
{
    lemma_entry_readable(ep, token);
    let m = doc->Object_0;
    let m2 = m.insert("remoteCache"@, remote_cache_entry(ep, token));
    assert forall|k: Seq<char>| #[trigger] m2.contains_key(k) implies readable_within(m2[k], 126) by {
        if k != "remoteCache"@ {
            assert(m.contains_key(k));
        }
    }
}

/// A fresh document holds no number and nests two objects deep.
proof fn lemma_fresh_document_readable(ep: Seq<char>, token: Seq<char>)
    ensures
        readable(fresh_document(ep, token)),
{
    lemma_entry_readable(ep, token);
    let m = map!["remoteCache"@ => remote_cache_entry(ep, token)];
    assert forall|k: Seq<char>| #[trigger] m.contains_key(k) implies readable_within(m[k], 126) by {}
    assert(fresh_document(ep, token) == JsonTree::Object(m));
}

/// Where the text an upsert writes reads back as the document it printed,
/// and the starting document was an object (or blank, or not JSON), a
/// second upsert with the same endpoint finds nothing to do.
proof fn lemma_second_upsert_settles(
    existing: Seq<char>,
    endpoint: Seq<char>,
    token: Seq<char>,
    s: Seq<char>,
    d: JsonTree,
)
    requires
        upsert_outcome(existing, endpoint, token) == Some(s),
        written_document(existing, endpoint, token) == Some(d),
        readable(d) ==> starting_document(s) == Some(d),
        (starting_document(existing) matches Some(doc) ==> doc is Object && readable(doc)) ==> readable(d),
    ensures
        (starting_document(existing) matches Some(doc) ==> doc is Object && readable(doc)) ==> forall|
            token2: Seq<char>,
        | #[trigger] upsert_outcome(s, endpoint, token2) is None,
{
    if starting_document(existing) matches Some(doc) ==> doc is Object && readable(doc) {
        assert forall|token2: Seq<char>| #[trigger] upsert_outcome(s, endpoint, token2) is None by {
            lemma_second_upsert_is_noop(existing, endpoint, token, token2, s, d);
        }
    }
}

/// Renders a `turbo.json` that holds nothing but the `remoteCache` entry
/// for `endpoint` (used as given) and `token`.
pub fn build_remote_cache_json(endpoint: &str, token: &str) -> (s: String)
    ensures
        s@ == fresh_text(endpoint@, token@),
        starting_document(s@) == Some(fresh_document(endpoint@, token@)),
{
    let mut m = new_map();
    set_member(&mut m, "remoteCache", remote_cache_value(endpoint, token));
    let doc = object_value(m);
    let text = pretty_or_default(&doc);
    let mut s = text;
    s.append("\n");
    proof {
        assert(json_tree(doc) == fresh_document(endpoint@, token@));
        lemma_fresh_document_readable(endpoint@, token@);
        lemma_not_blank_append(text@, "\n"@);
    }
    s
}

/// Upserting keeps every member of an object document other than
/// `remoteCache`, and sets `remoteCache` to the entry for the endpoint:
/// the text written is that of the members `m2` given back.
pub proof fn lemma_upsert_keeps_other_members(
    existing: Seq<char>,
    endpoint: Seq<char>,
    token: Seq<char>,
    m: Map<Seq<char>, JsonTree>,
) -> (m2: Map<Seq<char>, JsonTree>)
    requires
        !is_blank(existing),
        json_parse(existing) == Some(JsonTree::Object(m)),
        !api_url_matches(JsonTree::Object(m), trim_end_char(endpoint, '/')),
        json_pretty(with_remote_cache(JsonTree::Object(m), trim_end_char(endpoint, '/'), token)) is Some,
    ensures
        upsert_outcome(existing, endpoint, token) == Some(json_pretty(JsonTree::Object(m2))->0 + "\n"@),
        m2.contains_key("remoteCache"@),
        m2["remoteCache"@] == remote_cache_entry(trim_end_char(endpoint, '/'), token),
        forall|k: Seq<char>| k != "remoteCache"@ ==> #[trigger] m2.contains_key(k) == m.contains_key(k),
        forall|k: Seq<char>| k != "remoteCache"@ && m.contains_key(k) ==> #[trigger] m2[k] == m[k],
{
    let ep = trim_end_char(endpoint, '/');
    let m2 = m.insert("remoteCache"@, remote_cache_entry(ep, token));
    assert(with_remote_cache(JsonTree::Object(m), ep, token) == JsonTree::Object(m2));
    m2
}

/// The document whose text an upsert writes, where it writes one: a fresh
/// document for text that is not JSON (or whose update cannot be printed),
/// and otherwise the starting document with its entry set.
pub open spec fn written_document(existing: Seq<char>, endpoint: Seq<char>, token: Seq<char>) -> Option<
    JsonTree,
> {
    let ep = trim_end_char(endpoint, '/');
    match starting_document(existing) {
        None => Some(fresh_document(ep, token)),
        Some(doc) => if api_url_matches(doc, ep) {
            None
        } else {
            match json_pretty(with_remote_cache(doc, ep, token)) {
                Some(_) => Some(with_remote_cache(doc, ep, token)),
                None => Some(fresh_document(ep, token)),
            }
        },
    }
}

/// The entry for `ep` names `ep` as its `apiUrl`, and an object with the
/// entry set holds it as `remoteCache`.
proof fn lemma_entry_names_endpoint(m: Map<Seq<char>, JsonTree>, ep: Seq<char>, token: Seq<char>)
    ensures
        member(remote_cache_entry(ep, token), "apiUrl"@) == Some(JsonTree::Str(ep)),
        member(with_remote_cache(JsonTree::Object(m), ep, token), "remoteCache"@) == Some(
            remote_cache_entry(ep, token),
        ),
{
    reveal_strlit("apiUrl");
    reveal_strlit("token");
    reveal_strlit("teamId");
    let fields = map![
        "signature"@ => JsonTree::Bool(true),
        "enabled"@ => JsonTree::Bool(true),
        "apiUrl"@ => JsonTree::Str(ep),
        "token"@ => JsonTree::Str(token),
        "teamId"@ => JsonTree::Str("corelink"@),
    ];
    assert("apiUrl"@.len() != "token"@.len());
    assert("apiUrl"@[0] != "teamId"@[0]);
    assert(remote_cache_entry(ep, token) == JsonTree::Object(fields));
    assert(fields.contains_key("apiUrl"@) && fields["apiUrl"@] == JsonTree::Str(ep));
}

/// An upsert leaves `turbo.json` alone only where its `remoteCache.apiUrl`
/// is a string equal to the endpoint once trailing slashes are removed
/// from both.
pub proof fn lemma_upsert_noop_only_for_same_url(existing: Seq<char>, endpoint: Seq<char>, token: Seq<char>)
    ensures
        upsert_outcome(existing, endpoint, token) is None ==> {
            &&& !is_blank(existing)
            &&& json_parse(existing) is Some
            &&& member(json_parse(existing)->0, "remoteCache"@) is Some
            &&& member(member(json_parse(existing)->0, "remoteCache"@)->0, "apiUrl"@) matches Some(
                JsonTree::Str(u),
            ) && trim_end_char(u, '/') == trim_end_char(endpoint, '/')
        },
{
    if upsert_outcome(existing, endpoint, token) is None {
        if is_blank(existing) {
            assert(member(JsonTree::Object(no_members()), "remoteCache"@) is None);
        }
    }
}

/// Where `turbo.json` already holds a `remoteCache.apiUrl` string `u`, an
/// upsert leaves it alone exactly when `u` and the endpoint are equal once
/// trailing slashes are removed from both; otherwise the document written
/// holds an entry whose `apiUrl` is the endpoint (less its trailing
/// slashes) and whose `token` is the new token.
pub proof fn lemma_upsert_follows_stored_url(
    existing: Seq<char>,
    endpoint: Seq<char>,
    token: Seq<char>,
    doc: JsonTree,
    u: Seq<char>,
)
    requires
        !is_blank(existing),
        json_parse(existing) == Some(doc),
        member(doc, "remoteCache"@) is Some,
        member(member(doc, "remoteCache"@)->0, "apiUrl"@) == Some(JsonTree::Str(u)),
    ensures
        (upsert_outcome(existing, endpoint, token) is None) == (trim_end_char(u, '/') == trim_end_char(
            endpoint,
            '/',
        )),
        trim_end_char(u, '/') != trim_end_char(endpoint, '/') ==> {
            &&& written_document(existing, endpoint, token) is Some
            &&& member(written_document(existing, endpoint, token)->0, "remoteCache"@) is Some
            &&& member(member(written_document(existing, endpoint, token)->0, "remoteCache"@)->0, "apiUrl"@)
                == Some(JsonTree::Str(trim_end_char(endpoint, '/')))
            &&& member(member(written_document(existing, endpoint, token)->0, "remoteCache"@)->0, "token"@)
                == Some(JsonTree::Str(token))
        },
{
    let ep = trim_end_char(endpoint, '/');
    reveal_strlit("remoteCache");
    reveal_strlit("apiUrl");
    reveal_strlit("token");
    reveal_strlit("teamId");
    assert(doc is Object);
    let m = doc->Object_0;
    lemma_entry_names_endpoint(m, ep, token);
    lemma_entry_names_endpoint(no_members(), ep, token);
    let fields = map![
        "signature"@ => JsonTree::Bool(true),
        "enabled"@ => JsonTree::Bool(true),
        "apiUrl"@ => JsonTree::Str(ep),
        "token"@ => JsonTree::Str(token),
        "teamId"@ => JsonTree::Str("corelink"@),
    ];
    assert("token"@.len() != "teamId"@.len());
    assert(remote_cache_entry(ep, token) == JsonTree::Object(fields));
    assert(fields.contains_key("token"@) && fields["token"@] == JsonTree::Str(token));
    assert(member(remote_cache_entry(ep, token), "token"@) == Some(JsonTree::Str(token)));
    assert(member(fresh_document(ep, token), "remoteCache"@) == Some(remote_cache_entry(ep, token)));
}

/// Idempotence: once an upsert has written `turbo.json`, a second upsert
/// with the same endpoint (and any token) finds the entry in place, wherever
/// `serde_json` reads the written text back as the document it printed.
/// This holds whatever the first text was (blank, a JSON object, or not
/// JSON at all), except JSON that is not an object, which an upsert leaves
/// without the entry.
pub proof fn lemma_second_upsert_is_noop(
    existing: Seq<char>,
    endpoint: Seq<char>,
    token: Seq<char>,
    token2: Seq<char>,
    s: Seq<char>,
    d: JsonTree,
)
    requires
        starting_document(existing) matches Some(doc) ==> doc is Object,
        upsert_outcome(existing, endpoint, token) == Some(s),
        written_document(existing, endpoint, token) == Some(d),
        starting_document(s) == Some(d),
    ensures
        upsert_outcome(s, endpoint, token2) is None,
{
    let ep = trim_end_char(endpoint, '/');
    lemma_trim_end_idempotent(endpoint, '/');
    lemma_entry_names_endpoint(no_members(), ep, token);
    if let Some(JsonTree::Object(m)) = starting_document(existing) {
        lemma_entry_names_endpoint(m, ep, token);
    }
    reveal_strlit("remoteCache");
    assert(member(fresh_document(ep, token), "remoteCache"@) == Some(remote_cache_entry(ep, token)));
    assert(api_url_matches(d, ep));
}

} // verus!
