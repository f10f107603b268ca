//! `config show`: the resolved configuration, with the token redacted.

use vstd::prelude::*;
use vstd::utf8::{decode_utf8, encode_utf8, encode_utf8_decode_utf8, is_char_boundary};
use crate::config::Config;

verus! {

/// The redacted form of a token: `***` for a token of at most eight bytes,
/// and otherwise its first four bytes, an ellipsis and its last four bytes.
pub open spec fn redacted(token: Seq<char>) -> Seq<char> {
    let b = encode_utf8(token);
    if b.len() <= 8 {
        "***"@
    } else {
        decode_utf8(b.subrange(0, 4)) + "…"@ + decode_utf8(b.subrange(b.len() - 4, b.len() as int))
    }
}

/// A token that can be redacted: where it is longer than eight bytes, the
/// points four bytes from either end fall on character boundaries.
pub open spec fn redactable(token: Seq<char>) -> bool {
    let b = encode_utf8(token);
    b.len() > 8 ==> is_char_boundary(b, 4) && is_char_boundary(b, b.len() - 4)
}

/// Redacts `token` for display.  The cut points, four bytes from either
/// end, must fall on character boundaries where the token is longer than
/// eight bytes.
pub fn redact(token: &str) -> (s: String)
    requires
        redactable(token@),
    ensures
        s@ == redacted(token@),
{
    let n = token.as_bytes().len();
    if n <= 8 {
        return String::from_str("***");
    }
    let (head, _) = token.split_at(4);
    let (_, tail) = token.split_at(n - 4);
    proof {
        encode_utf8_decode_utf8(head@);
        encode_utf8_decode_utf8(tail@);
    }
    let mut s = String::from_str(head);
    s.append("…");
    s.append(tail);
    s
}

/// The three lines that `config show` prints.
pub open spec fn shown(cfg: &Config) -> Seq<char> {
    "endpoint = "@ + cfg.endpoint@ + "\nregion   = "@ + cfg.region@ + "\ntoken    = "@ + redacted(cfg.token@) + "\n"@
}

/// Renders the configuration as `config show` prints it: endpoint, region
/// and redacted token, one per line.
pub fn render(cfg: &Config) -> (s: String)
    requires
        redactable(cfg.token@),
    ensures
        s@ == shown(cfg),
{
    let mut s = String::from_str("endpoint = ");
    s.append(cfg.endpoint.as_str());
    s.append("\nregion   = ");
    s.append(cfg.region.as_str());
    s.append("\ntoken    = ");
    let r = redact(cfg.token.as_str());
    s.append(r.as_str());
    s.append("\n");
    s
}

} // verus!
