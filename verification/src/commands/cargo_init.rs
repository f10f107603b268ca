//! `cargo-init`: the sccache stanza that the client keeps in the project's
//! `.cargo/config.toml`.

use vstd::prelude::*;
use crate::text::occurs_in;
use crate::managed_block::{
    block_ok, lemma_block_ok_from_parts, lemma_client_markers_ok, lemma_upsert_idempotent,
    markers_in_order, upsert_managed, upserted, MARKER_BEGIN, MARKER_END,
};
use crate::text::{
    chars_of, lemma_occurs_in_middle, lemma_trim_end_is_trailing_run, push_range, trailing_run,
    trim_end_char, trimmed_len,
};

verus! {

/// Arguments of `cargo-init`: overrides of the configured endpoint and token.
#[derive(Debug)]
pub struct CargoInitArgs {
    /// Cache endpoint URL that overrides the configured one.
    pub endpoint: Option<String>,
    /// Bearer token that overrides the configured one.
    pub token: Option<String>,
}

/// The text of the `.cargo/config.toml` stanza for `endpoint` and `token`.
pub open spec fn stanza(endpoint: Seq<char>, token: Seq<char>) -> Seq<char> {
    MARKER_BEGIN@ + stanza_body(endpoint, token) + MARKER_END@ + "\n"@
}

/// The lines between the markers of the stanza; the endpoint is taken
/// without trailing slashes.
pub open spec fn stanza_body(endpoint: Seq<char>, token: Seq<char>) -> Seq<char> {
    "\n[build]\nrustc-wrapper = \"sccache\"\n\n[env]\nSCCACHE_ENDPOINT = \""@ + trim_end_char(
        endpoint,
        '/',
    ) + "/cargo\"\nSCCACHE_BUCKET = \"corelink\"\nSCCACHE_AUTH_TYPE = \"bearer\"\nSCCACHE_AUTH_TOKEN = \""@
        + token + "\"\n"@
}

/// Renders the marker-delimited stanza that makes sccache wrap `rustc` and
/// send its cache to `<endpoint>/cargo`, authenticated with `token`.
pub fn render_stanza(endpoint: &str, token: &str) -> (s: String)
    ensures
        s@ == stanza(endpoint@, token@),
{
    let ev = chars_of(endpoint);
    let n = trimmed_len(&ev, ev.len(), '/');
    assert(ev@.take(ev.len() as int) =~= ev@);
    let mut s = String::from_str(MARKER_BEGIN);
    s.append("\n[build]\nrustc-wrapper = \"sccache\"\n\n[env]\nSCCACHE_ENDPOINT = \"");
    push_range(&mut s, &ev, 0, n);
    s.append(
        "/cargo\"\nSCCACHE_BUCKET = \"corelink\"\nSCCACHE_AUTH_TYPE = \"bearer\"\nSCCACHE_AUTH_TOKEN = \"",
    );
    s.append(token);
    s.append("\"\n");
    s.append(MARKER_END);
    s.append("\n");
    assert(ev@.subrange(0, n as int) =~= ev@.take(n as int));
    s
}

/// The stanza sends sccache to the whole endpoint, path included, less only
/// its trailing slashes, followed by `/cargo` (the endpoint's characters
/// from `k` on are all its trailing slashes), and authenticates with the
/// token as given.
pub proof fn lemma_stanza_names_endpoint(endpoint: Seq<char>, token: Seq<char>) -> (k: nat)
    ensures
        trailing_run(endpoint, '/', k),
        occurs_in(stanza(endpoint, token), "SCCACHE_ENDPOINT = \""@ + endpoint.take(k as int) + "/cargo\"\n"@),
        occurs_in(stanza(endpoint, token), "SCCACHE_AUTH_TOKEN = \""@ + token + "\"\n"@),
{
    reveal_strlit("\n[build]\nrustc-wrapper = \"sccache\"\n\n[env]\nSCCACHE_ENDPOINT = \"");
    reveal_strlit("\n[build]\nrustc-wrapper = \"sccache\"\n\n[env]\n");
    reveal_strlit("SCCACHE_ENDPOINT = \"");
    reveal_strlit(
        "/cargo\"\nSCCACHE_BUCKET = \"corelink\"\nSCCACHE_AUTH_TYPE = \"bearer\"\nSCCACHE_AUTH_TOKEN = \"",
    );
    reveal_strlit("/cargo\"\n");
    reveal_strlit("SCCACHE_BUCKET = \"corelink\"\nSCCACHE_AUTH_TYPE = \"bearer\"\n");
    reveal_strlit("SCCACHE_AUTH_TOKEN = \"");
    reveal_strlit("\"\n");
    lemma_trim_end_is_trailing_run(endpoint, '/');
    let k = trim_end_char(endpoint, '/').len();
    let ep = endpoint.take(k as int);
    let a = "\n[build]\nrustc-wrapper = \"sccache\"\n\n[env]\n"@;
    let b = "SCCACHE_ENDPOINT = \""@;
    let c = "/cargo\"\n"@;
    let d = "SCCACHE_BUCKET = \"corelink\"\nSCCACHE_AUTH_TYPE = \"bearer\"\n"@;
    let e = "SCCACHE_AUTH_TOKEN = \""@;
    let q = "\"\n"@;
    let tail = MARKER_END@ + "\n"@;
    assert("\n[build]\nrustc-wrapper = \"sccache\"\n\n[env]\nSCCACHE_ENDPOINT = \""@ =~= a + b);
    assert("/cargo\"\nSCCACHE_BUCKET = \"corelink\"\nSCCACHE_AUTH_TYPE = \"bearer\"\nSCCACHE_AUTH_TOKEN = \""@
        =~= c + d + e);
    let line1 = b + ep + c;
    let line2 = e + token + q;
    assert(stanza(endpoint, token) =~= (MARKER_BEGIN@ + a) + line1 + (d + line2 + tail));
    lemma_occurs_in_middle(MARKER_BEGIN@ + a, line1, d + line2 + tail);
    assert(stanza(endpoint, token) =~= (MARKER_BEGIN@ + a + line1 + d) + line2 + tail);
    lemma_occurs_in_middle(MARKER_BEGIN@ + a + line1 + d, line2, tail);
    k
}

/// Replaces the managed block of `existing` with `new_block` where
/// `existing` has one, and appends `new_block` otherwise.
pub fn upsert_block(existing: &str, new_block: &str) -> (out: String)
    ensures
        out@ == upserted(existing@, MARKER_BEGIN@, MARKER_END@, new_block@),
{
    upsert_managed(existing, MARKER_BEGIN, MARKER_END, new_block)
}

/// A stanza is a well-formed block wherever the end marker does not occur
/// between its markers.
pub proof fn lemma_stanza_well_formed(endpoint: Seq<char>, token: Seq<char>)
    requires
        !occurs_in(stanza_body(endpoint, token), MARKER_END@),
    ensures
        block_ok(stanza(endpoint, token), MARKER_BEGIN@, MARKER_END@),
{
    reveal_strlit("\n");
    lemma_client_markers_ok();
    lemma_block_ok_from_parts(MARKER_BEGIN@, stanza_body(endpoint, token), MARKER_END@);
    assert(stanza(endpoint, token) =~= MARKER_BEGIN@ + stanza_body(endpoint, token) + MARKER_END@.push(
        '\n',
    ));
}

/// Running `cargo-init` twice with the same endpoint and token leaves
/// `.cargo/config.toml` as the first run left it, whenever the end marker does not
/// occur between the stanza's markers and the file's markers were in order.
pub proof fn lemma_stanza_upsert_idempotent(existing: Seq<char>, endpoint: Seq<char>, token: Seq<char>)
    requires
        !occurs_in(stanza_body(endpoint, token), MARKER_END@),
        markers_in_order(existing, MARKER_BEGIN@, MARKER_END@),
    ensures
        ({
            let once = upserted(existing, MARKER_BEGIN@, MARKER_END@, stanza(endpoint, token));
            upserted(once, MARKER_BEGIN@, MARKER_END@, stanza(endpoint, token)) == once
        }),
{
    lemma_client_markers_ok();
    lemma_stanza_well_formed(endpoint, token);
    lemma_upsert_idempotent(existing, MARKER_BEGIN@, MARKER_END@, stanza(endpoint, token));
}

} // verus!
