//! `ping`: the health-check URL of the configured cache endpoint.

use vstd::prelude::*;
use crate::text::{
    decimal, lemma_trim_end_is_trailing_run, push_decimal, trailing_run, trim_end_char,
    trim_end_matches_char,
};

verus! {

/// The health-check URL of `endpoint`.
pub open spec fn ping_url_text(endpoint: Seq<char>) -> Seq<char> {
    trim_end_char(endpoint, '/') + "/v1/ping"@
}

/// The health-check URL of `endpoint`: the endpoint without trailing
/// slashes, followed by `/v1/ping`.
pub fn ping_url(endpoint: &str) -> (s: String)
    ensures
        s@ == ping_url_text(endpoint@),
{
    let mut s = trim_end_matches_char(endpoint, '/');
    s.append("/v1/ping");
    s
}

/// The health-check URL keeps the whole endpoint, path included, less only
/// its trailing slashes, and appends `/v1/ping`: it is `endpoint.take(k)`
/// followed by `/v1/ping`, where the characters from `k` on are all the
/// endpoint's trailing slashes.
pub proof fn lemma_ping_url_keeps_endpoint(endpoint: Seq<char>) -> (k: nat)
    ensures
        trailing_run(endpoint, '/', k),
        ping_url_text(endpoint) == endpoint.take(k as int) + "/v1/ping"@,
{
    lemma_trim_end_is_trailing_run(endpoint, '/');
    trim_end_char(endpoint, '/').len()
}

/// The line `ping` prints when the endpoint answered with a 2xx status.
pub open spec fn ping_success_line(elapsed_ms: nat) -> Seq<char> {
    "Cache reachable in "@ + decimal(elapsed_ms) + " ms"@
}

/// The error `ping` fails with when the endpoint answered with any other
/// status.
pub open spec fn ping_failure_message(status_text: Seq<char>, url: Seq<char>) -> Seq<char> {
    "ping failed: HTTP "@ + status_text + " from "@ + url
}

/// The line `ping` prints on success, or the error it fails with, from the
/// answer's status code, its text (such as `404 Not Found`), the URL and
/// the elapsed time: a 2xx status is success.
pub fn ping_report(status: u16, status_text: &str, url: &str, elapsed_ms: u64) -> (r: Result<
    String,
    String,
>)
    ensures
        200 <= status < 300 ==> (r matches Ok(s) && s@ == ping_success_line(elapsed_ms as nat)),
        !(200 <= status < 300) ==> (r matches Err(e) && e@ == ping_failure_message(
            status_text@,
            url@,
        )),
{
    if 200 <= status && status < 300 {
        let mut s = String::from_str("Cache reachable in ");
        push_decimal(&mut s, elapsed_ms);
        s.append(" ms");
        Ok(s)
    } else {
        let mut e = String::from_str("ping failed: HTTP ");
        e.append(status_text);
        e.append(" from ");
        e.append(url);
        Err(e)
    }
}

} // verus!
