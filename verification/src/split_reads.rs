//! Controls that arrive split over several reads: what the scan keeps
//! pending makes up for the split, so reading in pieces finds exactly the
//! controls that reading everything at once would.
use vstd::prelude::*;

use crate::terminal_controls::{
    is_kitty_prefix, is_query_prefix, lemma_match_query_len, lemma_parse_kitty_len,
    lemma_digits_end, match_query_from, query_patterns, scan, scan_remainder, spec_is_known_control_prefix,
    spec_parse_kitty, digits_end, is_digit, ParseOutcome, ESC,
};

verus! {

/// Scanning the part of `pre + t` after `pre` is scanning `t`, with the
/// position where it stops moved by `pre`'s length.
proof fn lemma_scan_shift(pre: Seq<u8>, t: Seq<u8>, j: int)
    requires
        0 <= j,
    ensures
        scan(pre + t, pre.len() + j).0 == scan(t, j).0,
        scan(pre + t, pre.len() + j).1 == (match scan(t, j).1 {
            Some(k) => Some(k + pre.len()),
            None => None,
        }),
    decreases t.len() - j,
{
    let s = pre + t;
    let i = pre.len() + j;
    if j < t.len() {
        assert(s[i] == t[j]);
        if t[j] != ESC {
            lemma_scan_shift(pre, t, j + 1);
        } else {
            let rest = s.subrange(i, s.len() as int);
            assert(rest =~= t.subrange(j, t.len() as int));
            lemma_match_query_len(rest, 0);
            lemma_parse_kitty_len(rest);
            match match_query_from(rest, 0) {
                Some((_, n)) => {
                    lemma_scan_shift(pre, t, j + n);
                },
                None => match spec_parse_kitty(rest) {
                    ParseOutcome::Matched(_, n) => {
                        lemma_scan_shift(pre, t, j + n);
                    },
                    ParseOutcome::NeedMore => {},
                    ParseOutcome::NoMatch => {
                        if !spec_is_known_control_prefix(rest) {
                            lemma_scan_shift(pre, t, j + 1);
                        }
                    },
                },
            }
        }
    }
}


/// No query sequence begins another one.
proof fn lemma_patterns_prefix_free()
    ensures
        forall|a: int, b: int|
            0 <= a < query_patterns().len() && 0 <= b < query_patterns().len() && a != b
                ==> !(#[trigger] query_patterns()[a]).0.is_prefix_of((#[trigger] query_patterns()[b]).0),
{
    let q = query_patterns();
    assert forall|a: int, b: int|
        0 <= a < q.len() && 0 <= b < q.len() && a != b implies !(#[trigger] q[a]).0.is_prefix_of(
            (#[trigger] q[b]).0,
        ) by {
        if q[a].0.is_prefix_of(q[b].0) {
            let pa = q[a].0;
            let pb = q[b].0;
            assert(pa[1] == pb.subrange(0, pa.len() as int)[1]);
            assert(pa[2] == pb.subrange(0, pa.len() as int)[2]);
            if pa.len() > 3 {
                assert(pa[3] == pb.subrange(0, pa.len() as int)[3]);
            }
            if pa.len() > 6 {
                assert(pa[6] == pb.subrange(0, pa.len() as int)[6]);
            }
            assert(false);
        }
    }
}


/// A sequence that `r + x` starts with either fits in `r`, which then starts
/// with it too, or reaches past `r`, which then starts it.
proof fn lemma_prefix_of_append(a: Seq<u8>, r: Seq<u8>, x: Seq<u8>)
    requires
        a.is_prefix_of(r + x),
    ensures
        a.len() <= r.len() ==> a.is_prefix_of(r),
        a.len() > r.len() ==> r.is_prefix_of(a),
{
    if a.len() <= r.len() {
        assert(r.subrange(0, a.len() as int) =~= (r + x).subrange(0, a.len() as int));
    } else {
        assert(a.subrange(0, r.len() as int) =~= (r + x).subrange(0, a.len() as int).subrange(
            0,
            r.len() as int,
        ));
        assert(a.subrange(0, r.len() as int) =~= r);
    }
}

proof fn lemma_prefix_extends(a: Seq<u8>, r: Seq<u8>, x: Seq<u8>)
    requires
        a.is_prefix_of(r),
    ensures
        a.is_prefix_of(r + x),
{
    assert((r + x).subrange(0, a.len() as int) =~= r.subrange(0, a.len() as int));
}

/// Where the search from `k` finds a query sequence, it is one of them at
/// or after `k`.
proof fn lemma_match_witness(r: Seq<u8>, k: int)
    requires
        0 <= k,
        match_query_from(r, k) is Some,
    ensures
        exists|m: int|
            k <= m < query_patterns().len() && (#[trigger] query_patterns()[m]).0.is_prefix_of(r),
    decreases query_patterns().len() - k,
{
    if !query_patterns()[k].0.is_prefix_of(r) {
        lemma_match_witness(r, k + 1);
    }
}

/// A query sequence found at the start of `r` is found there whatever
/// follows.
proof fn lemma_match_extends(r: Seq<u8>, x: Seq<u8>, k: int)
    requires
        0 <= k,
        match_query_from(r, k) is Some,
    ensures
        match_query_from(r + x, k) == match_query_from(r, k),
    decreases query_patterns().len() - k,
{
    let q = query_patterns();
    lemma_patterns_prefix_free();
    if k < q.len() {
        if q[k].0.is_prefix_of(r) {
            lemma_prefix_extends(q[k].0, r, x);
        } else {
            lemma_match_witness(r, k + 1);
            let m = choose|m: int| k + 1 <= m < q.len() && (#[trigger] q[m]).0.is_prefix_of(r);
            if q[k].0.is_prefix_of(r + x) {
                lemma_prefix_of_append(q[k].0, r, x);
                // r starts q[k], and q[m] starts r: q[m] would start q[k].
                assert(q[m].0.is_prefix_of(q[k].0)) by {
                    assert(q[k].0.subrange(0, q[m].0.len() as int) =~= r.subrange(0, q[m].0.len() as int));
                }
                assert(false);
            }
            lemma_match_extends(r, x, k + 1);
        }
    }
}

/// No query sequence at the start of `r`, which begins none either: none
/// at the start of `r` with more after it.
proof fn lemma_no_match_extends(r: Seq<u8>, x: Seq<u8>, k: int)
    requires
        0 <= k,
        match_query_from(r, k) is None,
        !is_query_prefix(r),
    ensures
        match_query_from(r + x, k) is None,
    decreases query_patterns().len() - k,
{
    let q = query_patterns();
    if k < q.len() {
        if q[k].0.is_prefix_of(r + x) {
            lemma_prefix_of_append(q[k].0, r, x);
            if q[k].0.len() > r.len() {
                assert(r.is_prefix_of(q[k].0));
                assert(is_query_prefix(r));
            }
            assert(false);
        }
        lemma_no_match_extends(r, x, k + 1);
    }
}


proof fn lemma_digits_end_extends(r: Seq<u8>, x: Seq<u8>, i: int)
    requires
        0 <= i <= digits_end(r, i) < r.len(),
    ensures
        digits_end(r + x, i) == digits_end(r, i),
    decreases r.len() - i,
{
    lemma_digits_end(r, i);
    if i < r.len() && is_digit(r[i]) {
        lemma_digits_end_extends(r, x, i + 1);
    }
}

/// A kitty push or pop read at the start of `r` is read there whatever
/// follows.
proof fn lemma_kitty_match_extends(r: Seq<u8>, x: Seq<u8>)
    requires
        spec_parse_kitty(r) is Matched,
    ensures
        spec_parse_kitty(r + x) == spec_parse_kitty(r),
{
    let r2 = r + x;
    lemma_prefix_extends(seq![ESC, 0x5bu8], r, x);
    lemma_digits_end(r, 3);
    let idx = digits_end(r, 3);
    lemma_digits_end_extends(r, x, 3);
    assert(r2.subrange(3, idx) =~= r.subrange(3, idx));
    assert(r2[2] == r[2]);
    assert(r2[idx] == r[idx]);
}

/// What cannot begin a kitty push or pop at the start of `r` cannot with
/// more bytes after it either.
proof fn lemma_kitty_no_match_extends(r: Seq<u8>, x: Seq<u8>)
    requires
        spec_parse_kitty(r) is NoMatch,
        !is_kitty_prefix(r),
    ensures
        spec_parse_kitty(r + x) is NoMatch,
{
    let r2 = r + x;
    let csi = seq![ESC, 0x5bu8];
    if !csi.is_prefix_of(r) {
        if csi.is_prefix_of(r2) {
            lemma_prefix_of_append(csi, r, x);
            if csi.len() > r.len() {
                assert(r.is_prefix_of(csi));
            }
            assert(false);
        }
    } else {
        lemma_prefix_extends(csi, r, x);
        assert(r.len() >= 3);
        assert(r2[2] == r[2]);
        if r[2] == 0x3e || r[2] == 0x3c {
            assert(r.len() > 3);
            lemma_digits_end(r, 3);
            let idx = digits_end(r, 3);
            if idx == r.len() {
                assert(false);
            }
            lemma_digits_end_extends(r, x, 3);
            assert(r2[idx] == r[idx]);
            assert(r2.subrange(3, idx) =~= r.subrange(3, idx));
        }
    }
}

/// Bytes that hold a kitty push or pop begin no query sequence.
proof fn lemma_kitty_match_not_query_prefix(r: Seq<u8>)
    requires
        spec_parse_kitty(r) is Matched,
    ensures
        !is_query_prefix(r),
{
    let q = query_patterns();
    lemma_digits_end(r, 3);
    let idx = digits_end(r, 3);
    assert forall|k: int| 0 <= k < q.len() implies !r.is_prefix_of(#[trigger] q[k].0) by {
        if r.is_prefix_of(q[k].0) {
            assert(r[2] == q[k].0.subrange(0, r.len() as int)[2]);
            assert(r[idx] == q[k].0.subrange(0, r.len() as int)[idx]);
            if r[3] != 0x75 {
                assert(r[3] == q[k].0.subrange(0, r.len() as int)[3]);
            }
            assert(false);
        }
    }
}

/// A sequence that could grow into a control after more bytes came could
/// already grow into one before.
proof fn lemma_known_prefix_shrinks(r: Seq<u8>, x: Seq<u8>)
    requires
        spec_is_known_control_prefix(r + x),
    ensures
        spec_is_known_control_prefix(r),
{
    let r2 = r + x;
    let q = query_patterns();
    if is_query_prefix(r2) {
        let k = choose|k: int| 0 <= k < q.len() && r2.is_prefix_of(#[trigger] q[k].0);
        assert(r.is_prefix_of(q[k].0)) by {
            assert(q[k].0.subrange(0, r.len() as int) =~= r2.subrange(0, r.len() as int));
        }
    } else {
        let csi = seq![ESC, 0x5bu8];
        if r.len() <= 2 {
            if r2.is_prefix_of(csi) {
                assert(r.is_prefix_of(csi)) by {
                    assert(csi.subrange(0, r.len() as int) =~= r2.subrange(0, r.len() as int));
                }
            } else {
                assert(r.is_prefix_of(csi)) by {
                    assert(csi.subrange(0, r.len() as int) =~= r2.subrange(0, r.len() as int));
                }
            }
        } else {
            assert(csi.is_prefix_of(r2));
            assert(csi.is_prefix_of(r)) by {
                assert(r.subrange(0, 2) =~= r2.subrange(0, 2));
            }
            assert forall|i: int| 3 <= i < r.len() implies is_digit(#[trigger] r[i]) || r[i] == 0x75 by {
                assert(r[i] == r2[i]);
            }
        }
    }
}


/// The bytes a scan of `p` from `i` leaves pending.
pub open spec fn pending_from(p: Seq<u8>, i: int) -> Seq<u8> {
    match scan(p, i).1 {
        Some(k) => p.subrange(k, p.len() as int),
        None => Seq::empty(),
    }
}

/// Where in `p` the pending bytes begin (its length when none are).
pub open spec fn pending_start(p: Seq<u8>, i: int) -> int {
    match scan(p, i).1 {
        Some(k) => k,
        None => p.len() as int,
    }
}

proof fn lemma_scan_stop_bounds(p: Seq<u8>, i: int)
    requires
        0 <= i,
    ensures
        scan(p, i).1 matches Some(k) ==> i <= k < p.len(),
    decreases p.len() - i,
{
    if i < p.len() {
        if p[i] != ESC {
            lemma_scan_stop_bounds(p, i + 1);
        } else {
            let rest = p.subrange(i, p.len() as int);
            lemma_match_query_len(rest, 0);
            lemma_parse_kitty_len(rest);
            match match_query_from(rest, 0) {
                Some((_, n)) => lemma_scan_stop_bounds(p, i + n),
                None => match spec_parse_kitty(rest) {
                    ParseOutcome::Matched(_, n) => lemma_scan_stop_bounds(p, i + n),
                    ParseOutcome::NeedMore => {},
                    ParseOutcome::NoMatch => {
                        if !spec_is_known_control_prefix(rest) {
                            lemma_scan_stop_bounds(p, i + 1);
                        }
                    },
                },
            }
        }
    }
}

/// Scanning `p + q` from `i` (within `p`) finds what scanning `p` from `i`
/// finds, then what scanning the pending bytes followed by `q` finds; and
/// it stops where that last scan stops.
/// Where the scan of `p` stops at once at `i`, scanning `p + q` from `i`
/// is scanning the bytes from `i` on, followed by `q`.
proof fn lemma_scan_append_stop(p: Seq<u8>, q: Seq<u8>, i: int)
    requires
        0 <= i < p.len(),
        scan(p, i) == (Seq::<crate::terminal_controls::TerminalControl>::empty(), Some(i)),
    ensures
        scan(p + q, i).0 == scan(p, i).0 + scan(pending_from(p, i) + q, 0).0,
        scan(p + q, i).1 == (match scan(pending_from(p, i) + q, 0).1 {
            Some(k) => Some(k + pending_start(p, i)),
            None => None,
        }),
{
    let pend = pending_from(p, i);
    assert(p + q =~= p.subrange(0, i) + (pend + q));
    lemma_scan_shift(p.subrange(0, i), pend + q, 0);
    assert(scan(p, i).0 + scan(pend + q, 0).0 =~= scan(pend + q, 0).0);
}

#[verifier::rlimit(40)]
proof fn lemma_scan_append(p: Seq<u8>, q: Seq<u8>, i: int)
    requires
        0 <= i <= p.len(),
    ensures
        scan(p + q, i).0 == scan(p, i).0 + scan(pending_from(p, i) + q, 0).0,
        scan(p + q, i).1 == (match scan(pending_from(p, i) + q, 0).1 {
            Some(k) => Some(k + pending_start(p, i)),
            None => None,
        }),
    decreases p.len() - i,
{
    let s = p + q;
    lemma_scan_stop_bounds(p, i);
    let start = pending_start(p, i);
    let pend = pending_from(p, i);
    if i == p.len() {
        lemma_scan_shift(p, q, 0);
        assert(pend + q =~= q);
        assert(scan(p, i).0 + scan(pend + q, 0).0 =~= scan(pend + q, 0).0);
    } else if p[i] != ESC {
        assert(s[i] == p[i]);
        lemma_scan_append(p, q, i + 1);
    } else {
        assert(s[i] == p[i]);
        let rest = p.subrange(i, p.len() as int);
        let rest2 = s.subrange(i, s.len() as int);
        assert(rest2 =~= rest + q);
        lemma_match_query_len(rest, 0);
        lemma_parse_kitty_len(rest);
        match match_query_from(rest, 0) {
            Some((qq, n)) => {
                lemma_match_extends(rest, q, 0);
                lemma_scan_append(p, q, i + n);
                assert(seq![crate::terminal_controls::TerminalControl::Query(qq)] + (scan(p, i + n).0 + scan(
                    pend + q,
                    0,
                ).0) =~= (seq![crate::terminal_controls::TerminalControl::Query(qq)] + scan(p, i + n).0)
                    + scan(pend + q, 0).0);
            },
            None => {
                match spec_parse_kitty(rest) {
                    ParseOutcome::Matched(c, n) => {
                        lemma_kitty_match_not_query_prefix(rest);
                        lemma_no_match_extends(rest, q, 0);
                        lemma_kitty_match_extends(rest, q);
                        lemma_scan_append(p, q, i + n);
                        assert(seq![c] + (scan(p, i + n).0 + scan(pend + q, 0).0) =~= (seq![c] + scan(
                            p,
                            i + n,
                        ).0) + scan(pend + q, 0).0);
                    },
                    ParseOutcome::NeedMore => {
                        lemma_scan_append_stop(p, q, i);
                    },
                    ParseOutcome::NoMatch => {
                        if spec_is_known_control_prefix(rest) {
                            lemma_scan_append_stop(p, q, i);
                        } else {
                            lemma_no_match_extends(rest, q, 0);
                            lemma_kitty_no_match_extends(rest, q);
                            if spec_is_known_control_prefix(rest + q) {
                                lemma_known_prefix_shrinks(rest, q);
                            }
                            lemma_scan_append(p, q, i + 1);
                        }
                    },
                }
            },
        }
    }
}

/// Reading in two pieces finds the controls reading everything at once
/// finds: those of the first piece, then those of what it left pending
/// followed by the second; and the same bytes stay pending afterwards.
pub proof fn lemma_controls_across_reads(p: Seq<u8>, q: Seq<u8>)
    ensures
        scan(p, 0).0 + scan(scan_remainder(p) + q, 0).0 == scan(p + q, 0).0,
        scan_remainder(scan_remainder(p) + q) == scan_remainder(p + q),
{
    lemma_scan_append(p, q, 0);
    lemma_scan_stop_bounds(p, 0);
    let pend = pending_from(p, 0);
    assert(pend == scan_remainder(p));
    let start = pending_start(p, 0);
    lemma_scan_stop_bounds(pend + q, 0);
    match scan(pend + q, 0).1 {
        Some(k) => {
            assert((p + q).subrange(k + start, (p + q).len() as int) =~= (pend + q).subrange(
                k,
                (pend + q).len() as int,
            ));
        },
        None => {},
    }
}

} // verus!
