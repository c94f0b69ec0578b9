//! Ranking and truncation of scored candidates.
//!
//! Items are ordered by score descending; equal scores are broken by
//! candidate id ascending, an explicit deterministic secondary key, so the
//! ranked order never depends on the store's arrival order. The ranked list
//! is then truncated to the requested limit.

use vstd::prelude::*;
use vstd::seq_lib::*;

use crate::schema::MenuItem;

verus! {

broadcast use vstd::seq_lib::group_to_multiset_ensures, vstd::multiset::group_multiset_axioms;

/// `a` may stand at or before `b` in a ranked list: strictly higher score
/// first, equal scores by candidate id ascending.
pub open spec fn ranked_le(a: MenuItem, b: MenuItem) -> bool {
    a.score > b.score || (a.score == b.score && a.id <= b.id)
}

/// The whole sequence is in ranked order.
pub open spec fn ranked_sorted(s: Seq<MenuItem>) -> bool {
    forall|i: int, j: int| 0 <= i < j < s.len() ==> #[trigger] ranked_le(s[i], s[j])
}

/// Where an item lands in an already ranked list: right before the first
/// element that may not precede it.
pub open spec fn spec_insert_ranked(s: Seq<MenuItem>, x: MenuItem) -> Seq<MenuItem>
    decreases s.len(),
{
    if s.len() == 0 {
        seq![x]
    } else if ranked_le(s[0], x) {
        seq![s[0]] + spec_insert_ranked(s.drop_first(), x)
    } else {
        seq![x] + s
    }
}

/// The ranked order of a scored list: each item in turn inserted at its
/// place.
pub open spec fn spec_rank(s: Seq<MenuItem>) -> Seq<MenuItem>
    decreases s.len(),
{
    if s.len() == 0 {
        Seq::<MenuItem>::empty()
    } else {
        spec_insert_ranked(spec_rank(s.drop_last()), s.last())
    }
}

/// Inserting an item adds exactly that item: the result holds the same
/// items as before plus `x`, one position longer.
pub proof fn lemma_insert_ranked_multiset(s: Seq<MenuItem>, x: MenuItem)
    ensures
        spec_insert_ranked(s, x).to_multiset() == s.to_multiset().insert(x),
        spec_insert_ranked(s, x).len() == s.len() + 1,
    decreases s.len(),
{
    if s.len() == 0 {
        assert(spec_insert_ranked(s, x) =~= s.insert(0, x));
        to_multiset_insert(s, 0, x);
    } else if ranked_le(s[0], x) {
        let rest = s.drop_first();
        lemma_insert_ranked_multiset(rest, x);
        let q = spec_insert_ranked(rest, x);
        assert(spec_insert_ranked(s, x) =~= q.insert(0, s[0]));
        to_multiset_insert(q, 0, s[0]);
        assert(s =~= rest.insert(0, s[0]));
        to_multiset_insert(rest, 0, s[0]);
        assert(rest.to_multiset().insert(x).insert(s[0]) =~= rest.to_multiset().insert(
            s[0],
        ).insert(x));
    } else {
        assert(spec_insert_ranked(s, x) =~= s.insert(0, x));
        to_multiset_insert(s, 0, x);
    }
}

/// The elements of the enlarged list are those of the old list plus `x`.
pub proof fn lemma_insert_ranked_contains(s: Seq<MenuItem>, x: MenuItem, e: MenuItem)
    ensures
        spec_insert_ranked(s, x).contains(e) <==> (s.contains(e) || e == x),
{
    lemma_insert_ranked_multiset(s, x);
    assert(spec_insert_ranked(s, x).to_multiset().count(e) == s.to_multiset().insert(x).count(e));
}

/// Inserting into a ranked list keeps it ranked.
pub proof fn lemma_insert_ranked_sorted(s: Seq<MenuItem>, x: MenuItem)
    requires
        ranked_sorted(s),
    ensures
        ranked_sorted(spec_insert_ranked(s, x)),
    decreases s.len(),
{
    if s.len() == 0 {
    } else if ranked_le(s[0], x) {
        let rest = s.drop_first();
        assert(ranked_sorted(rest)) by {
            assert forall|i: int, j: int| 0 <= i < j < rest.len() implies #[trigger] ranked_le(
                rest[i],
                rest[j],
            ) by {
                assert(ranked_le(s[i + 1], s[j + 1]));
            }
        }
        lemma_insert_ranked_sorted(rest, x);
        let q = spec_insert_ranked(rest, x);
        let r = spec_insert_ranked(s, x);
        assert(r =~= seq![s[0]] + q);
        assert forall|i: int, j: int| 0 <= i < j < r.len() implies #[trigger] ranked_le(
            r[i],
            r[j],
        ) by {
            if i == 0 {
                let e = q[j - 1];
                assert(q.contains(e));
                lemma_insert_ranked_contains(rest, x, e);
                if e == x {
                } else {
                    let k = choose|k: int| 0 <= k < rest.len() && rest[k] == e;
                    assert(ranked_le(s[0], s[k + 1]));
                }
            } else {
                assert(ranked_le(q[i - 1], q[j - 1]));
            }
        }
    } else {
        let r = spec_insert_ranked(s, x);
        assert(r =~= seq![x] + s);
        assert forall|i: int, j: int| 0 <= i < j < r.len() implies #[trigger] ranked_le(
            r[i],
            r[j],
        ) by {
            if i == 0 {
                if j == 1 {
                } else {
                    assert(ranked_le(s[0], s[j - 1]));
                }
            } else {
                assert(ranked_le(s[i - 1], s[j - 1]));
            }
        }
    }
}

/// The ranked order of a list is ranked and holds exactly the items given,
/// none added, none dropped.
pub proof fn lemma_rank_ensures(s: Seq<MenuItem>)
    ensures
        ranked_sorted(spec_rank(s)),
        spec_rank(s).to_multiset() == s.to_multiset(),
        spec_rank(s).len() == s.len(),
    decreases s.len(),
{
    if s.len() == 0 {
    } else {
        let head = s.drop_last();
        lemma_rank_ensures(head);
        lemma_insert_ranked_sorted(spec_rank(head), s.last());
        lemma_insert_ranked_multiset(spec_rank(head), s.last());
        assert(s =~= head.push(s.last()));
    }
}

/// A ranked sequence is non-increasing in `score` for its entire length.
pub proof fn lemma_ranked_scores_nonincreasing(s: Seq<MenuItem>)
    requires
        ranked_sorted(s),
    ensures
        forall|i: int, j: int| 0 <= i <= j < s.len() ==> #[trigger] s[i].score >= #[trigger] s[j].score,
{
    assert forall|i: int, j: int| 0 <= i <= j < s.len() implies #[trigger] s[i].score
        >= #[trigger] s[j].score by {
        if i < j {
            assert(ranked_le(s[i], s[j]));
        }
    }
}

/// `a` precedes or equals `b` in ranked order.
fn ranked_before(a: &MenuItem, b: &MenuItem) -> (r: bool)
    ensures
        r == ranked_le(*a, *b),
{
    a.score > b.score || (a.score == b.score && a.id <= b.id)
}

/// Sort scored items into ranked order: score descending, ties by id
/// ascending. The result is exactly the ranked order of the input.
pub fn rank_items(items: Vec<MenuItem>) -> (r: Vec<MenuItem>)
    ensures
        r@ == spec_rank(items@),
{
    let ghost orig = items@;
    let mut rest = items;
    let mut out: Vec<MenuItem> = Vec::new();
    let ghost k: int = 0;
    while rest.len() > 0
        invariant
            0 <= k <= orig.len(),
            rest@ == orig.skip(k),
            out@ == spec_rank(orig.take(k)),
        decreases rest@.len(),
    {
        let x = rest.remove(0);
        proof {
            assert(x == orig[k]);
            assert(rest@ =~= orig.skip(k + 1));
        }
        let ghost before = out@;
        proof {
            assert(out@.skip(0) =~= out@);
            assert(out@.take(0) + spec_insert_ranked(out@, x) =~= spec_insert_ranked(out@, x));
        }
        let mut j: usize = 0;
        while j < out.len() && ranked_before(&out[j], &x)
            invariant
                out@ == before,
                0 <= j <= out@.len(),
                spec_insert_ranked(out@, x) == out@.take(j as int) + spec_insert_ranked(
                    out@.skip(j as int),
                    x,
                ),
            decreases out@.len() - j,
        {
            proof {
                let tail = out@.skip(j as int);
                assert(tail[0] == out@[j as int]);
                assert(tail.drop_first() =~= out@.skip(j as int + 1));
                assert(out@.take(j as int) + seq![out@[j as int]] =~= out@.take(j as int + 1));
                assert(out@.take(j as int) + (seq![out@[j as int]] + spec_insert_ranked(
                    out@.skip(j as int + 1),
                    x,
                )) =~= out@.take(j as int + 1) + spec_insert_ranked(out@.skip(j as int + 1), x));
            }
            j += 1;
        }
        proof {
            let tail = out@.skip(j as int);
            if j < out@.len() {
                assert(tail[0] == out@[j as int]);
                assert(spec_insert_ranked(tail, x) =~= seq![x] + tail);
            } else {
                assert(tail =~= Seq::<MenuItem>::empty());
            }
            assert(spec_insert_ranked(out@, x) =~= out@.insert(j as int, x));
        }
        out.insert(j, x);
        proof {
            assert(orig.take(k + 1).drop_last() =~= orig.take(k));
            assert(orig.take(k + 1).last() == orig[k]);
        }
        proof {
            k = k + 1;
        }
    }
    proof {
        assert(orig.take(orig.len() as int) =~= orig);
    }
    out
}

/// Rank the scored items and truncate to `limit`: the result is exactly the
/// first `min(limit, n)` items of the ranked order, non-increasing in score
/// for its entire length.
pub fn build_ranked(items: Vec<MenuItem>, limit: usize) -> (r: Vec<MenuItem>)
    ensures
        r@ == spec_rank(items@).take(if limit <= items@.len() {
            limit as int
        } else {
            items@.len() as int
        }),
        ranked_sorted(r@),
        r@.len() == (if limit <= items@.len() {
            limit as int
        } else {
            items@.len() as int
        }),
        forall|i: int, j: int| 0 <= i <= j < r@.len() ==> #[trigger] r@[i].score
            >= #[trigger] r@[j].score,
{
    proof {
        lemma_rank_ensures(items@);
    }
    let mut r = rank_items(items);
    let ghost full = r@;
    if r.len() > limit {
        r.truncate(limit);
    }
    proof {
        assert(r@ =~= full.take(if limit <= full.len() {
            limit as int
        } else {
            full.len() as int
        }));
        assert(ranked_sorted(r@)) by {
            assert forall|i: int, j: int| 0 <= i < j < r@.len() implies #[trigger] ranked_le(
                r@[i],
                r@[j],
            ) by {
                assert(ranked_le(full[i], full[j]));
            }
        }
        lemma_ranked_scores_nonincreasing(r@);
    }
    r
}

} // verus!
