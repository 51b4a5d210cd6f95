//! Splitting a raw query string and rebuilding the kept subset.
//!
//! A query string is a sequence of `&`-separated segments; a segment's key is
//! everything before its first `=` (or the whole segment). Filtering keeps or
//! drops whole segments by their key, copies kept segments byte for byte in
//! their original order, and never emits stray separators for empty segments.

use vstd::prelude::*;
use vstd::slice::slice_subrange;

use crate::rules::{keep_decision, spec_is_identity, spec_should_keep, ArgsFilterDef, DefView};

verus! {

/// The byte separating query segments.
pub const SEPARATOR: u8 = 38;

/// The byte separating a segment's key from its value.
pub const KEY_DELIMITER: u8 = 61;

/// Index of the first separator at or after `i`, or the length of `q`.
pub open spec fn seg_end(q: Seq<u8>, i: int) -> int
    decreases q.len() - i,
{
    if i < 0 || i >= q.len() {
        q.len() as int
    } else if q[i] == SEPARATOR {
        i
    } else {
        seg_end(q, i + 1)
    }
}

/// Index of the first key delimiter at or after `j` in a segment, or the
/// segment's length.
pub open spec fn first_eq(seg: Seq<u8>, j: int) -> int
    decreases seg.len() - j,
{
    if j < 0 || j >= seg.len() {
        seg.len() as int
    } else if seg[j] == KEY_DELIMITER {
        j
    } else {
        first_eq(seg, j + 1)
    }
}

/// The key of a segment: its bytes before the first `=`.
pub open spec fn seg_key(seg: Seq<u8>) -> Seq<u8> {
    seg.take(first_eq(seg, 0))
}

pub proof fn lemma_seg_end_bounds(q: Seq<u8>, i: int)
    requires
        0 <= i <= q.len(),
    ensures
        i <= seg_end(q, i) <= q.len(),
        seg_end(q, i) < q.len() ==> q[seg_end(q, i)] == SEPARATOR,
        forall|j: int| i <= j < seg_end(q, i) ==> q[j] != SEPARATOR,
    decreases q.len() - i,
{
    if i < q.len() && q[i] != SEPARATOR {
        lemma_seg_end_bounds(q, i + 1);
    }
}

pub proof fn lemma_seg_end_is(q: Seq<u8>, i: int, e: int)
    requires
        0 <= i <= e <= q.len(),
        forall|j: int| i <= j < e ==> q[j] != SEPARATOR,
        e < q.len() ==> q[e] == SEPARATOR,
    ensures
        seg_end(q, i) == e,
    decreases e - i,
{
    if i < e {
        lemma_seg_end_is(q, i + 1, e);
    }
}

pub proof fn lemma_first_eq_is(seg: Seq<u8>, j: int, m: int)
    requires
        0 <= j <= m <= seg.len(),
        forall|t: int| j <= t < m ==> seg[t] != KEY_DELIMITER,
        m < seg.len() ==> seg[m] == KEY_DELIMITER,
    ensures
        first_eq(seg, j) == m,
    decreases m - j,
{
    if j < m {
        lemma_first_eq_is(seg, j + 1, m);
    }
}

/// The filtered form of `q` from position `i` on, given that a separator must
/// precede the next kept segment iff `sep` holds. Each non-empty segment whose
/// key satisfies `keep` is copied verbatim, separated from the previous kept
/// segment by a single separator byte; empty segments vanish.
pub open spec fn filter_from(q: Seq<u8>, keep: spec_fn(Seq<u8>) -> bool, i: int, sep: bool) -> Seq<
    u8,
>
    decreases q.len() - i,
    via filter_from_decreases
{
    if i < 0 || i >= q.len() {
        Seq::empty()
    } else {
        let e = seg_end(q, i);
        let seg = q.subrange(i, e);
        let kept = seg.len() > 0 && keep(seg_key(seg));
        let piece = if kept {
            if sep {
                seq![SEPARATOR] + seg
            } else {
                seg
            }
        } else {
            Seq::<u8>::empty()
        };
        let rest = if e < q.len() {
            filter_from(q, keep, e + 1, sep || kept)
        } else {
            Seq::<u8>::empty()
        };
        piece + rest
    }
}

#[via_fn]
proof fn filter_from_decreases(q: Seq<u8>, keep: spec_fn(Seq<u8>) -> bool, i: int, sep: bool) {
    if 0 <= i < q.len() {
        lemma_seg_end_bounds(q, i);
    }
}

/// The filtered form of a whole query string.
pub open spec fn spec_filter_args(q: Seq<u8>, keep: spec_fn(Seq<u8>) -> bool) -> Seq<u8> {
    filter_from(q, keep, 0, false)
}

/// The executable predicate `keep_key` decides exactly as the mathematical
/// predicate `p`: whatever it returns for a key equals `p` of that key's bytes.
pub open spec fn models_keep<F: Fn(&[u8]) -> bool>(
    keep_key: F,
    p: spec_fn(Seq<u8>) -> bool,
) -> bool {
    forall|k: &[u8], b: bool| #[trigger] call_ensures(keep_key, (k,), b) ==> b == p(k@)
}

/// Append `src[from..to]` to `output`.
fn append_range(output: &mut Vec<u8>, src: &[u8], from: usize, to: usize)
    requires
        from <= to <= src@.len(),
    ensures
        final(output)@ == old(output)@ + src@.subrange(from as int, to as int),
{
    proof {
        assert(old(output)@ + src@.subrange(from as int, from as int) =~= old(output)@);
    }
    let mut t = from;
    while t < to
        invariant
            from <= t <= to <= src@.len(),
            output@ == old(output)@ + src@.subrange(from as int, t as int),
        decreases to - t,
    {
        output.push(src[t]);
        proof {
            assert(old(output)@ + src@.subrange(from as int, t + 1) =~= (old(output)@
                + src@.subrange(from as int, t as int)).push(src@[t as int]));
        }
        t += 1;
    }
}

/// Split `args` on separators and keep exactly the non-empty segments whose
/// key satisfies `keep_key`, verbatim and in their original order.
pub fn filter_args_by<F: Fn(&[u8]) -> bool>(args: &[u8], keep_key: F) -> (output: Vec<u8>)
    requires
        forall|k: &[u8]| #[trigger] call_requires(keep_key, (k,)),
    ensures
        forall|p: spec_fn(Seq<u8>) -> bool| #[trigger]
            models_keep(keep_key, p) ==> output@ == spec_filter_args(args@, p),
{
    let ghost q = args@;
    let n = args.len();
    let mut output: Vec<u8> = Vec::new();
    let mut i: usize = 0;
    proof {
        assert forall|p: spec_fn(Seq<u8>) -> bool| #[trigger] models_keep(keep_key, p) implies
            spec_filter_args(q, p) == output@ + filter_from(q, p, 0, output@.len() > 0) by {
            assert(output@ + filter_from(q, p, 0, false) =~= filter_from(q, p, 0, false));
        }
    }
    while i < n
        invariant
            n == q.len(),
            q == args@,
            0 <= i <= n + 1,
            forall|k: &[u8]| #[trigger] call_requires(keep_key, (k,)),
            forall|p: spec_fn(Seq<u8>) -> bool| #[trigger]
                models_keep(keep_key, p) ==> spec_filter_args(q, p) == output@ + filter_from(
                    q,
                    p,
                    i as int,
                    output@.len() > 0,
                ),
        decreases n - i,
    {
        let mut e: usize = i;
        while e < n && args[e] != SEPARATOR
            invariant
                n == q.len(),
                q == args@,
                i <= e <= n,
                forall|j: int| i <= j < e ==> q[j] != SEPARATOR,
            decreases n - e,
        {
            e += 1;
        }
        let mut k: usize = i;
        while k < e && args[k] != KEY_DELIMITER
            invariant
                n == q.len(),
                q == args@,
                i <= k <= e <= n,
                forall|j: int| i <= j < k ==> q[j] != KEY_DELIMITER,
            decreases e - k,
        {
            k += 1;
        }
        let ghost seg = q.subrange(i as int, e as int);
        let ghost out_old = output@;
        let ghost sep_old = output@.len() > 0;
        proof {
            lemma_seg_end_is(q, i as int, e as int);
            assert forall|t: int| 0 <= t < k - i implies seg[t] != KEY_DELIMITER by {
                assert(seg[t] == q[i + t]);
            }
            if k < e {
                assert(seg[k - i] == q[k as int]);
            }
            lemma_first_eq_is(seg, 0, k - i);
            assert(seg_key(seg) =~= q.subrange(i as int, k as int));
        }
        if e > i {
            let key = slice_subrange(args, i, k);
            let keep_seg = keep_key(key);
            if keep_seg {
                if output.len() > 0 {
                    output.push(SEPARATOR);
                }
                append_range(&mut output, args, i, e);
            }
            proof {
                assert forall|p: spec_fn(Seq<u8>) -> bool| #[trigger]
                    models_keep(keep_key, p) implies spec_filter_args(q, p) == output@
                    + filter_from(q, p, e + 1, output@.len() > 0) by {
                    assert(spec_filter_args(q, p) == out_old + filter_from(
                        q,
                        p,
                        i as int,
                        sep_old,
                    ));
                    assert(keep_seg == p(key@));
                    assert(key@ == seg_key(seg));
                    let kept = seg.len() > 0 && p(seg_key(seg));
                    assert(kept == keep_seg);
                    let piece = if kept {
                        if sep_old {
                            seq![SEPARATOR] + seg
                        } else {
                            seg
                        }
                    } else {
                        Seq::<u8>::empty()
                    };
                    let rest = if e < n {
                        filter_from(q, p, e + 1, sep_old || kept)
                    } else {
                        Seq::<u8>::empty()
                    };
                    assert(filter_from(q, p, i as int, sep_old) == piece + rest);
                    if keep_seg {
                        if sep_old {
                            assert(output@ =~= out_old + (seq![SEPARATOR] + seg));
                        } else {
                            assert(output@ =~= out_old + seg);
                        }
                    }
                    assert(output@ == out_old + piece);
                    assert((output@.len() > 0) == (sep_old || kept));
                    if e < n {
                        assert(out_old + (piece + rest) =~= (out_old + piece) + rest);
                    } else {
                        assert(filter_from(q, p, e + 1, output@.len() > 0)
                            == Seq::<u8>::empty());
                        assert(out_old + (piece + Seq::<u8>::empty()) =~= (out_old + piece)
                            + Seq::<u8>::empty());
                    }
                }
            }
        } else {
            proof {
                assert forall|p: spec_fn(Seq<u8>) -> bool| #[trigger]
                    models_keep(keep_key, p) implies spec_filter_args(q, p) == output@
                    + filter_from(q, p, e + 1, output@.len() > 0) by {
                    assert(spec_filter_args(q, p) == out_old + filter_from(
                        q,
                        p,
                        i as int,
                        sep_old,
                    ));
                    assert(seg.len() == 0);
                    let rest = if e < n {
                        filter_from(q, p, e + 1, sep_old)
                    } else {
                        Seq::<u8>::empty()
                    };
                    assert(filter_from(q, p, i as int, sep_old) == Seq::<u8>::empty() + rest);
                    assert(Seq::<u8>::empty() + rest =~= rest);
                    if e >= n {
                        assert(filter_from(q, p, e + 1, output@.len() > 0)
                            == Seq::<u8>::empty());
                        assert(output@ + Seq::<u8>::empty() =~= output@);
                    }
                }
            }
        }
        if e < n {
            i = e + 1;
        } else {
            proof {
                assert forall|p: spec_fn(Seq<u8>) -> bool| #[trigger]
                    models_keep(keep_key, p) implies spec_filter_args(q, p) == output@
                    + filter_from(q, p, n as int, output@.len() > 0) by {
                    assert(spec_filter_args(q, p) == output@ + filter_from(
                        q,
                        p,
                        e + 1,
                        output@.len() > 0,
                    ));
                    assert(filter_from(q, p, e + 1, output@.len() > 0) == Seq::<u8>::empty());
                    assert(filter_from(q, p, n as int, output@.len() > 0) == Seq::<u8>::empty());
                }
            }
            i = n;
        }
    }
    proof {
        assert forall|p: spec_fn(Seq<u8>) -> bool| #[trigger] models_keep(keep_key, p) implies
            output@ == spec_filter_args(args@, p) by {
            assert(filter_from(q, p, i as int, output@.len() > 0) == Seq::<u8>::empty());
            assert(output@ + Seq::<u8>::empty() =~= output@);
        }
    }
    output
}

/// No segment of `q` is empty: `q` neither starts nor ends with a separator
/// and no two separators are adjacent.
pub open spec fn no_empty_segments(q: Seq<u8>) -> bool {
    q.len() == 0 || (q[0] != SEPARATOR && q[q.len() - 1] != SEPARATOR && forall|j: int|
        0 < j < q.len() ==> !(q[j] == SEPARATOR && #[trigger] q[j - 1] == SEPARATOR))
}

proof fn lemma_filter_from_keep_all(q: Seq<u8>, keep: spec_fn(Seq<u8>) -> bool, i: int, sep: bool)
    requires
        forall|k: Seq<u8>| #[trigger] keep(k),
        no_empty_segments(q),
        0 <= i <= q.len(),
        i < q.len() ==> (i == 0 || q[i - 1] == SEPARATOR),
    ensures
        filter_from(q, keep, i, sep) == if i >= q.len() {
            Seq::<u8>::empty()
        } else {
            (if sep {
                seq![SEPARATOR]
            } else {
                Seq::<u8>::empty()
            }) + q.skip(i)
        },
    decreases q.len() - i,
{
    if i < q.len() {
        assert(q[i] != SEPARATOR);
        lemma_seg_end_bounds(q, i);
        let e = seg_end(q, i);
        let seg = q.subrange(i, e);
        assert(seg.len() > 0);
        assert(keep(seg_key(seg)));
        let piece = if sep {
            seq![SEPARATOR] + seg
        } else {
            seg
        };
        if e < q.len() {
            assert(q[e] == SEPARATOR);
            assert(e + 1 < q.len()) by {
                if e + 1 == q.len() {
                    assert(q[q.len() - 1] == SEPARATOR);
                }
            }
            lemma_filter_from_keep_all(q, keep, e + 1, true);
            assert(filter_from(q, keep, e + 1, true) == seq![SEPARATOR] + q.skip(e + 1));
            assert(piece + (seq![SEPARATOR] + q.skip(e + 1)) =~= piece + (seq![q[e]] + q.skip(
                e + 1,
            )));
            assert(seg + (seq![q[e]] + q.skip(e + 1)) =~= q.skip(i));
            assert(piece + (seq![SEPARATOR] + q.skip(e + 1)) =~= (if sep {
                seq![SEPARATOR]
            } else {
                Seq::<u8>::empty()
            }) + q.skip(i));
        } else {
            assert(seg =~= q.skip(i));
            assert(piece + Seq::<u8>::empty() =~= piece);
            assert(piece =~= (if sep {
                seq![SEPARATOR]
            } else {
                Seq::<u8>::empty()
            }) + q.skip(i));
        }
    }
}

/// The identity fast path agrees with filtering: a predicate that keeps every
/// key filters a query with no empty segments to exactly itself.
pub proof fn lemma_filter_keep_all_is_identity(q: Seq<u8>, keep: spec_fn(Seq<u8>) -> bool)
    requires
        forall|k: Seq<u8>| #[trigger] keep(k),
        no_empty_segments(q),
    ensures
        spec_filter_args(q, keep) == q,
{
    lemma_filter_from_keep_all(q, keep, 0, false);
    if q.len() > 0 {
        assert(Seq::<u8>::empty() + q.skip(0) =~= q);
    }
}

/// A definition with initial policy "keep all" and no rules filters every
/// query with no empty segments to exactly itself.
pub proof fn lemma_identity_definition_filters_to_input(d: DefView, q: Seq<u8>)
    requires
        spec_is_identity(d),
        no_empty_segments(q),
    ensures
        spec_filter_args(q, |k: Seq<u8>| spec_should_keep(d, k)) == q,
{
    let keep = |k: Seq<u8>| spec_should_keep(d, k);
    assert forall|k: Seq<u8>| #[trigger] keep(k) by {
        assert(keep_decision(d.rules, true, k));
    }
    lemma_filter_keep_all_is_identity(q, keep);
}

impl ArgsFilterDef {
    /// Filter a raw query string, keeping the segments whose keys this
    /// definition keeps.
    pub fn filter_args(&self, args: &[u8]) -> (out: Vec<u8>)
        ensures
            out@ == spec_filter_args(args@, |k: Seq<u8>| spec_should_keep(self@, k)),
    {
        let keep_key = |key: &[u8]| -> (b: bool)
            ensures
                b == spec_should_keep(self@, key@),
            { self.should_keep_key(key) };
        proof {
            assert forall|k: &[u8]| #[trigger] call_requires(keep_key, (k,)) by {}
        }
        let out = filter_args_by(args, keep_key);
        proof {
            let p = |k: Seq<u8>| spec_should_keep(self@, k);
            assert(models_keep(keep_key, p));
        }
        out
    }
}

} // verus!
