//! Marker-delimited blocks that the client manages inside user files
//! (`.bazelrc`, `.cargo/config.toml`, `.gitignore`).
//!
//! A managed block runs from a begin-marker line to an end-marker line.
//! Upserting a block replaces the managed region of a file when the file
//! has one, and appends the block otherwise.

use vstd::prelude::*;
use crate::text::{
    chars_of, first_index_of, index_of, index_of_char_from, lemma_first_index_is,
    lemma_first_index_of, lemma_first_index_of_char, occurs_at, occurs_in, push_range, starts_with,
    string_from_chars,
};

verus! {

/// The line that opens a managed block.
pub const MARKER_BEGIN: &'static str = "# corelink-managed (do not edit between markers)";

/// The line that closes a managed block.
pub const MARKER_END: &'static str = "# /corelink-managed";

/// Where the managed region of `existing` ends: just past the first line
/// break at or after index `e` (the start of the end marker), or at the end
/// of the text when no line break follows.
pub open spec fn region_end(existing: Seq<char>, e: int) -> int {
    match first_index_of(existing.skip(e), seq!['\n']) {
        Some(off) => e + off + 1,
        None => existing.len() as int,
    }
}

/// What upserting `block` into `existing` yields, with the given markers.
///
/// If the first begin marker precedes the first end marker, the text from
/// the begin marker through the end of the end marker's line is replaced by
/// `block`.  Otherwise `block` is appended, after a line break when
/// `existing` is non-empty and does not already end with one.
pub open spec fn upserted(
    existing: Seq<char>,
    begin: Seq<char>,
    end: Seq<char>,
    block: Seq<char>,
) -> Seq<char> {
    let fb = first_index_of(existing, begin);
    let fe = first_index_of(existing, end);
    if fb is Some && fe is Some && fe->0 > fb->0 {
        existing.take(fb->0) + block + existing.skip(region_end(existing, fe->0))
    } else {
        existing + separator(existing) + block
    }
}

/// The line break put between existing text and an appended block.
pub open spec fn separator(existing: Seq<char>) -> Seq<char> {
    if existing.len() > 0 && existing.last() != '\n' {
        seq!['\n']
    } else {
        Seq::empty()
    }
}

/// A marker starts with `#`, which occurs nowhere else in it, and holds no
/// line break.
pub open spec fn is_marker(m: Seq<char>) -> bool {
    &&& m.len() > 0
    &&& m[0] == '#'
    &&& forall|i: int| 1 <= i < m.len() ==> m[i] != '#'
    &&& forall|i: int| 0 <= i < m.len() ==> m[i] != '\n'
}

/// Two markers that can delimit a block: each a marker, and neither a
/// prefix of the other.
pub open spec fn markers_ok(begin: Seq<char>, end: Seq<char>) -> bool {
    &&& is_marker(begin)
    &&& is_marker(end)
    &&& exists|k: int| 0 <= k < begin.len() && k < end.len() && begin[k] != end[k]
}

/// A well-formed managed block: it starts with the begin marker and ends
/// with the end marker and a line break, and the end marker occurs in it
/// only there.
pub open spec fn block_ok(block: Seq<char>, begin: Seq<char>, end: Seq<char>) -> bool {
    &&& block.len() >= begin.len() + end.len() + 1
    &&& starts_with(block, begin)
    &&& block.skip(block.len() - end.len() - 1) == end.push('\n')
    &&& first_index_of(block, end) == Some(block.len() - end.len() - 1)
}

/// The markers of `existing` are in order: either neither marker occurs, or
/// the first begin marker precedes the first end marker.
pub open spec fn markers_in_order(existing: Seq<char>, begin: Seq<char>, end: Seq<char>) -> bool {
    match (first_index_of(existing, begin), first_index_of(existing, end)) {
        (Some(b), Some(e)) => b < e,
        (None, None) => true,
        _ => false,
    }
}

/// Upserts `new_block` into `existing` between the given markers.
pub fn upsert_managed(existing: &str, begin: &str, end: &str, new_block: &str) -> (out: String)
    ensures
        out@ == upserted(existing@, begin@, end@, new_block@),
{
    let ev = chars_of(existing);
    let bv = chars_of(begin);
    let endv = chars_of(end);
    let fb = index_of(&ev, &bv);
    let fe = index_of(&ev, &endv);
    if let (Some(b), Some(e)) = (fb, fe) {
        if e > b {
            proof {
                lemma_first_index_of(existing@, end@);
                lemma_first_index_of_char(existing@.skip(e as int), '\n');
            }
            let nl = index_of_char_from(&ev, '\n', e);
            let cut = match nl {
                Some(k) => {
                    assert(first_index_of(existing@.skip(e as int), seq!['\n']) == Some(k - e)) by {
                        lemma_first_index_of_char(existing@.skip(e as int), '\n');
                        let f = first_index_of(existing@.skip(e as int), seq!['\n']);
                        assert(existing@.skip(e as int)[k - e] == ev@[k as int]);
                        if let Some(i) = f {
                            assert(existing@.skip(e as int)[i] == ev@[e + i]);
                            if i < k - e {
                                assert(ev@[e + i] != '\n');
                            }
                        }
                    }
                    k + 1
                },
                None => {
                    assert(first_index_of(existing@.skip(e as int), seq!['\n']) is None) by {
                        lemma_first_index_of_char(existing@.skip(e as int), '\n');
                        let f = first_index_of(existing@.skip(e as int), seq!['\n']);
                        if let Some(i) = f {
                            assert(existing@.skip(e as int)[i] == ev@[e + i]);
                        }
                    }
                    ev.len()
                },
            };
            let mut out = String::new();
            push_range(&mut out, &ev, 0, b);
            out.append(new_block);
            push_range(&mut out, &ev, cut, ev.len());
            assert(ev@.subrange(0, b as int) =~= existing@.take(b as int));
            assert(ev@.subrange(cut as int, ev.len() as int) =~= existing@.skip(cut as int));
            return out;
        }
    }
    let mut out = string_from_chars(&ev);
    if ev.len() > 0 && ev[ev.len() - 1] != '\n' {
        out.push('\n');
    }
    out.append(new_block);
    out
}

// ── laws ───────────────────────────────────────────────────────────────────

/// A marker that occurs at `j` in `pre + rest`, where `rest` starts with a
/// `#` and `pre` holds no occurrence of it, starts at `pre.len()` or later.
proof fn lemma_no_straddle(pre: Seq<char>, rest: Seq<char>, m: Seq<char>, j: int)
    requires
        is_marker(m),
        rest.len() > 0,
        rest[0] == '#',
        !occurs_in(pre, m),
        0 <= j < pre.len(),
    ensures
        !occurs_at(pre + rest, m, j),
{
    let y = pre + rest;
    if occurs_at(y, m, j) {
        if j + m.len() <= pre.len() {
            assert(pre.subrange(j, j + m.len()) =~= y.subrange(j, j + m.len()));
            assert(occurs_at(pre, m, j));
        } else {
            let k = pre.len() - j;
            assert(y.subrange(j, j + m.len())[k] == y[pre.len() as int]);
            assert(m[k] == '#');
        }
    }
}

/// The shape that an upsert leaves behind: text free of markers, a
/// well-formed block, and anything after it.  Such text has its markers in
/// order, and upserting the same block into it changes nothing.
proof fn lemma_upsert_fixed_point(
    pre: Seq<char>,
    block: Seq<char>,
    post: Seq<char>,
    begin: Seq<char>,
    end: Seq<char>,
)
    requires
        markers_ok(begin, end),
        block_ok(block, begin, end),
        !occurs_in(pre, begin),
        !occurs_in(pre, end),
    ensures
        first_index_of(pre + block + post, begin) == Some(pre.len() as int),
        first_index_of(pre + block + post, end) == Some(pre.len() + block.len() - end.len() - 1),
        markers_in_order(pre + block + post, begin, end),
        upserted(pre + block + post, begin, end, block) == pre + block + post,
{
    let y = pre + block + post;
    let rest = block + post;
    assert(y =~= pre + rest);
    let p = pre.len() as int;
    let q = block.len() - end.len() - 1;
    lemma_first_index_of(block, end);
    // The begin marker first occurs where the block starts.
    assert(block[0] == begin[0]) by {
        assert(block.take(begin.len() as int)[0] == block[0]);
    }
    assert(occurs_at(y, begin, p)) by {
        assert(y.subrange(p, p + begin.len()) =~= block.take(begin.len() as int));
    }
    assert forall|j: int| 0 <= j < p implies !occurs_at(y, begin, j) by {
        lemma_no_straddle(pre, rest, begin, j);
    }
    lemma_first_index_is(y, begin, p);
    // The end marker first occurs where it occurs in the block.
    assert(occurs_at(y, end, p + q)) by {
        assert(y.subrange(p + q, p + q + end.len()) =~= block.subrange(q, q + end.len()));
    }
    assert forall|j: int| 0 <= j < p + q implies !occurs_at(y, end, j) by {
        if j < p {
            lemma_no_straddle(pre, rest, end, j);
        } else if occurs_at(y, end, j) {
            assert(block.subrange(j - p, j - p + end.len()) =~= y.subrange(j, j + end.len()));
            assert(occurs_at(block, end, j - p));
        }
    }
    lemma_first_index_is(y, end, p + q);
    assert(begin.len() <= q);
    // The end marker's line ends with the block.
    let tail = y.skip(p + q);
    assert forall|j: int| 0 <= j < end.len() implies tail[j] != '\n' by {
        assert(tail[j] == block.skip(q)[j]);
        assert(block.skip(q)[j] == end.push('\n')[j]);
    }
    assert(tail[end.len() as int] == '\n') by {
        assert(tail[end.len() as int] == block.skip(q)[end.len() as int]);
        assert(block.skip(q)[end.len() as int] == end.push('\n')[end.len() as int]);
    }
    lemma_first_index_of_char(tail, '\n');
    let f = first_index_of(tail, seq!['\n']);
    assert(f == Some(end.len() as int)) by {
        if let Some(i) = f {
            if i < end.len() {
            } else if i > end.len() {
                assert(tail[end.len() as int] == '\n');
            }
        }
    }
    assert(region_end(y, p + q) == p + block.len());
    assert(y.take(p) =~= pre);
    assert(y.skip(p + block.len()) =~= post);
}

/// Upserting a well-formed block into text whose markers are in order
/// leaves text whose markers are in order.
pub proof fn lemma_upsert_keeps_markers_in_order(
    existing: Seq<char>,
    begin: Seq<char>,
    end: Seq<char>,
    block: Seq<char>,
)
    requires
        markers_ok(begin, end),
        block_ok(block, begin, end),
        markers_in_order(existing, begin, end),
    ensures
        markers_in_order(upserted(existing, begin, end, block), begin, end),
{
    lemma_upsert_shape(existing, begin, end, block);
}

/// Idempotence: upserting the same well-formed block a second time changes
/// nothing, for any text whose markers are in order.
pub proof fn lemma_upsert_idempotent(
    existing: Seq<char>,
    begin: Seq<char>,
    end: Seq<char>,
    block: Seq<char>,
)
    requires
        markers_ok(begin, end),
        block_ok(block, begin, end),
        markers_in_order(existing, begin, end),
    ensures
        upserted(upserted(existing, begin, end, block), begin, end, block) == upserted(
            existing,
            begin,
            end,
            block,
        ),
{
    lemma_upsert_shape(existing, begin, end, block);
}

/// Text whose markers are in order becomes, after an upsert, marker-free
/// text followed by the block and the rest.
proof fn lemma_upsert_shape(
    existing: Seq<char>,
    begin: Seq<char>,
    end: Seq<char>,
    block: Seq<char>,
)
    requires
        markers_ok(begin, end),
        block_ok(block, begin, end),
        markers_in_order(existing, begin, end),
    ensures
        markers_in_order(upserted(existing, begin, end, block), begin, end),
        upserted(upserted(existing, begin, end, block), begin, end, block) == upserted(
            existing,
            begin,
            end,
            block,
        ),
{
    lemma_first_index_of(existing, begin);
    lemma_first_index_of(existing, end);
    let fb = first_index_of(existing, begin);
    let fe = first_index_of(existing, end);
    if fb is Some && fe is Some && fe->0 > fb->0 {
        let b = fb->0;
        let pre = existing.take(b);
        let post = existing.skip(region_end(existing, fe->0));
        assert forall|j: int| !occurs_at(pre, begin, j) by {
            if occurs_at(pre, begin, j) {
                assert(existing.subrange(j, j + begin.len()) =~= pre.subrange(j, j + begin.len()));
                assert(occurs_at(existing, begin, j));
            }
        }
        assert forall|j: int| !occurs_at(pre, end, j) by {
            if occurs_at(pre, end, j) {
                assert(existing.subrange(j, j + end.len()) =~= pre.subrange(j, j + end.len()));
                assert(occurs_at(existing, end, j));
            }
        }
        lemma_upsert_fixed_point(pre, block, post, begin, end);
    } else {
        let pre = existing + separator(existing);
        assert(fb is None && fe is None);
        assert forall|m: Seq<char>, j: int|
            is_marker(m) && !occurs_in(existing, m) implies !occurs_at(pre, m, j) by {
            if occurs_at(pre, m, j) {
                if j + m.len() <= existing.len() {
                    assert(existing.subrange(j, j + m.len()) =~= pre.subrange(j, j + m.len()));
                    assert(occurs_at(existing, m, j));
                } else {
                    let k = existing.len() - j;
                    assert(pre.subrange(j, j + m.len())[k] == pre[existing.len() as int]);
                }
            }
        }
        assert(upserted(existing, begin, end, block) == pre + block + Seq::<char>::empty());
        lemma_upsert_fixed_point(pre, block, Seq::empty(), begin, end);
    }
}

/// The client's two markers can delimit a block.
pub proof fn lemma_client_markers_ok()
    ensures
        markers_ok(MARKER_BEGIN@, MARKER_END@),
{
    reveal_strlit("# corelink-managed (do not edit between markers)");
    reveal_strlit("# /corelink-managed");
    assert(MARKER_BEGIN@[2] != MARKER_END@[2]);
}

/// A begin marker, a body in which the end marker does not occur, the end
/// marker and a line break make a well-formed block.
pub proof fn lemma_block_ok_from_parts(begin: Seq<char>, body: Seq<char>, end: Seq<char>)
    requires
        markers_ok(begin, end),
        !occurs_in(body, end),
    ensures
        block_ok(begin + body + end.push('\n'), begin, end),
{
    let block = begin + body + end.push('\n');
    let q = (begin.len() + body.len()) as int;
    assert(block.take(begin.len() as int) =~= begin);
    assert(block.skip(block.len() - end.len() - 1) =~= end.push('\n'));
    assert(occurs_at(block, end, q)) by {
        assert(block.subrange(q, q + end.len()) =~= end);
    }
    assert forall|j: int| 0 <= j < q implies !occurs_at(block, end, j) by {
        if occurs_at(block, end, j) {
            assert(block.subrange(j, j + end.len())[0] == block[j]);
            if j == 0 {
                let k = choose|k: int| 0 <= k < begin.len() && k < end.len() && begin[k] != end[k];
                assert(block.subrange(j, j + end.len())[k] == block[k]);
            } else if j < begin.len() {
                assert(block[j] == begin[j]);
            } else if j + end.len() <= q {
                let i = j - begin.len();
                assert(body.subrange(i, i + end.len()) =~= block.subrange(j, j + end.len()));
                assert(occurs_at(body, end, i));
            } else {
                assert(block.subrange(j, j + end.len())[q - j] == block[q]);
                assert(block[q] == end[0]);
            }
        }
    }
    lemma_first_index_is(block, end, q);
}

/// An upsert keeps the whole block in the text it yields.
pub proof fn lemma_upserted_contains_block(
    existing: Seq<char>,
    begin: Seq<char>,
    end: Seq<char>,
    block: Seq<char>,
)
    ensures
        exists|i: int| #[trigger] occurs_at(upserted(existing, begin, end, block), block, i),
{
    let fb = first_index_of(existing, begin);
    let fe = first_index_of(existing, end);
    let out = upserted(existing, begin, end, block);
    if fb is Some && fe is Some && fe->0 > fb->0 {
        let pre = existing.take(fb->0);
        assert(out.subrange(pre.len() as int, (pre.len() + block.len()) as int) =~= block);
        assert(occurs_at(out, block, pre.len() as int));
    } else {
        let pre = existing + separator(existing);
        assert(out.subrange(pre.len() as int, (pre.len() + block.len()) as int) =~= block);
        assert(occurs_at(out, block, pre.len() as int));
    }
}

/// What occurs inside a piece of text occurs in any text that holds the piece.
pub proof fn lemma_occurs_transitive(hay: Seq<char>, piece: Seq<char>, needle: Seq<char>, i: int, j: int)
    requires
        occurs_at(hay, piece, i),
        occurs_at(piece, needle, j),
    ensures
        occurs_at(hay, needle, i + j),
{
    assert(hay.subrange(i + j, i + j + needle.len()) =~= piece.subrange(j, j + needle.len()));
}

} // verus!
