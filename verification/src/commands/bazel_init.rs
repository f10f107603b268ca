//! `bazel-init`: the remote-cache stanza that the client keeps in `.bazelrc`.

use vstd::prelude::*;
use crate::text::{lemma_occurs_in_middle, occurs_in};
use crate::managed_block::{
    block_ok, lemma_block_ok_from_parts, lemma_client_markers_ok, lemma_upsert_idempotent,
    markers_in_order, upsert_managed, upserted, MARKER_BEGIN, MARKER_END,
};

verus! {

/// The text of the `.bazelrc` stanza for `endpoint` and `token`.
pub open spec fn stanza(endpoint: Seq<char>, token: Seq<char>) -> Seq<char> {
    MARKER_BEGIN@ + stanza_body(endpoint, token) + MARKER_END@ + "\n"@
}

/// The lines between the markers of the `.bazelrc` stanza.
pub open spec fn stanza_body(endpoint: Seq<char>, token: Seq<char>) -> Seq<char> {
    "\nbuild --remote_cache="@ + endpoint + "\nbuild --remote_header=authorization=Bearer\\ "@ + token
        + "\nbuild --remote_upload_local_results=true\n"@
}

/// Renders the marker-delimited `.bazelrc` stanza that points Bazel's remote
/// cache at `endpoint` and authenticates with `token`.
pub fn render_stanza(endpoint: &str, token: &str) -> (s: String)
    ensures
        s@ == stanza(endpoint@, token@),
{
    let mut s = String::from_str(MARKER_BEGIN);
    s.append("\nbuild --remote_cache=");
    s.append(endpoint);
    s.append("\nbuild --remote_header=authorization=Bearer\\ ");
    s.append(token);
    s.append("\nbuild --remote_upload_local_results=true\n");
    s.append(MARKER_END);
    s.append("\n");
    s
}

/// The stanza points Bazel's remote cache at the endpoint as given and
/// sends the token in its authorization header.
pub proof fn lemma_stanza_names_endpoint(endpoint: Seq<char>, token: Seq<char>)
    ensures
        occurs_in(stanza(endpoint, token), "build --remote_cache="@ + endpoint + "\n"@),
        occurs_in(stanza(endpoint, token), "build --remote_header=authorization=Bearer\\ "@ + token + "\n"@),
{
    reveal_strlit("\nbuild --remote_cache=");
    reveal_strlit("build --remote_cache=");
    reveal_strlit("\nbuild --remote_header=authorization=Bearer\\ ");
    reveal_strlit("build --remote_header=authorization=Bearer\\ ");
    reveal_strlit("\nbuild --remote_upload_local_results=true\n");
    reveal_strlit("build --remote_upload_local_results=true\n");
    reveal_strlit("\n");
    let nl = "\n"@;
    let a = "build --remote_cache="@;
    let b = "build --remote_header=authorization=Bearer\\ "@;
    let c = "build --remote_upload_local_results=true\n"@;
    assert("\nbuild --remote_cache="@ =~= nl + a);
    assert("\nbuild --remote_header=authorization=Bearer\\ "@ =~= nl + b);
    assert("\nbuild --remote_upload_local_results=true\n"@ =~= nl + c);
    let line1 = a + endpoint + nl;
    let line2 = b + token + nl;
    let tail = MARKER_END@ + nl;
    assert(stanza(endpoint, token) =~= (MARKER_BEGIN@ + nl) + line1 + (line2 + c + tail));
    lemma_occurs_in_middle(MARKER_BEGIN@ + nl, line1, line2 + c + tail);
    assert(stanza(endpoint, token) =~= (MARKER_BEGIN@ + nl + line1) + line2 + (c + tail));
    lemma_occurs_in_middle(MARKER_BEGIN@ + nl + line1, line2, c + tail);
}

/// Replaces the managed block of `existing` with `new_block` where
/// `existing` has one, and appends `new_block` otherwise.
pub fn upsert_block(existing: &str, new_block: &str) -> (out: String)
    ensures
        out@ == upserted(existing@, MARKER_BEGIN@, MARKER_END@, new_block@),
{
    upsert_managed(existing, MARKER_BEGIN, MARKER_END, new_block)
}

/// A stanza is a well-formed block wherever the end marker does not occur
/// between its markers.
pub proof fn lemma_stanza_well_formed(endpoint: Seq<char>, token: Seq<char>)
    requires
        !occurs_in(stanza_body(endpoint, token), MARKER_END@),
    ensures
        block_ok(stanza(endpoint, token), MARKER_BEGIN@, MARKER_END@),
{
    reveal_strlit("\n");
    lemma_client_markers_ok();
    lemma_block_ok_from_parts(MARKER_BEGIN@, stanza_body(endpoint, token), MARKER_END@);
    assert(stanza(endpoint, token) =~= MARKER_BEGIN@ + stanza_body(endpoint, token) + MARKER_END@.push(
        '\n',
    ));
}

/// Running `bazel-init` twice with the same endpoint and token leaves
/// `.bazelrc` as the first run left it, whenever the end marker does not occur
/// between the stanza's markers and the file's markers were in order.
pub proof fn lemma_stanza_upsert_idempotent(existing: Seq<char>, endpoint: Seq<char>, token: Seq<char>)
    requires
        !occurs_in(stanza_body(endpoint, token), MARKER_END@),
        markers_in_order(existing, MARKER_BEGIN@, MARKER_END@),
    ensures
        ({
            let once = upserted(existing, MARKER_BEGIN@, MARKER_END@, stanza(endpoint, token));
            upserted(once, MARKER_BEGIN@, MARKER_END@, stanza(endpoint, token)) == once
        }),
{
    lemma_client_markers_ok();
    lemma_stanza_well_formed(endpoint, token);
    lemma_upsert_idempotent(existing, MARKER_BEGIN@, MARKER_END@, stanza(endpoint, token));
}

} // verus!
