use vstd::prelude::*;

use crate::highlight::transnet::{imax, imin};

verus! {

/// A scored highlight candidate: times in centiseconds, score in hundredths.
#[derive(Debug, Clone, Copy)]
pub struct Candidate {
    pub start_cs: i64,
    pub end_cs: i64,
    pub duration_cs: i64,
    pub score_centi: i64,
}

/// Two candidates overlap by more than 40% of the shorter one.
pub open spec fn heavy_overlap(a: Candidate, b: Candidate) -> bool {
    let os = imax(a.start_cs as int, b.start_cs as int);
    let oe = imin(a.end_cs as int, b.end_cs as int);
    oe > os && (oe - os) * 10 > imin(a.duration_cs as int, b.duration_cs as int) * 4
}

pub open spec fn score_at(c: Seq<Candidate>, i: int) -> int {
    c[i].score_centi as int
}

/// `x` placed into `sorted` (highest score first) after every element scoring at least as
/// much as it.
pub open spec fn insert_by_score(sorted: Seq<int>, x: int, c: Seq<Candidate>) -> Seq<int>
    decreases sorted.len(),
{
    if sorted.len() == 0 {
        seq![x]
    } else if score_at(c, sorted.last()) >= score_at(c, x) {
        sorted.push(x)
    } else {
        insert_by_score(sorted.drop_last(), x, c).push(sorted.last())
    }
}

/// The positions in `idx` ordered by descending score, equal scores keeping their order.
pub open spec fn sort_by_score(idx: Seq<int>, c: Seq<Candidate>) -> Seq<int>
    decreases idx.len(),
{
    if idx.len() == 0 {
        Seq::empty()
    } else {
        insert_by_score(sort_by_score(idx.drop_last(), c), idx.last(), c)
    }
}

/// All candidate positions, in order.
pub open spec fn positions(n: nat) -> Seq<int> {
    Seq::new(n, |i: int| i)
}

/// `x` overlaps none of the chosen candidates heavily.
pub open spec fn clear_of(x: int, chosen: Seq<int>, c: Seq<Candidate>) -> bool {
    forall|k: int| 0 <= k < chosen.len() ==> !heavy_overlap(c[x], #[trigger] c[chosen[k]])
}

/// The greedy pass over `order`: each candidate clear of those already chosen is chosen,
/// and the pass stops once `max_clips` are chosen (checked after every candidate).
pub open spec fn greedy_state(order: Seq<int>, c: Seq<Candidate>, max_clips: nat) -> (Seq<int>, bool)
    decreases order.len(),
{
    if order.len() == 0 {
        (Seq::empty(), false)
    } else {
        let (chosen, stopped) = greedy_state(order.drop_last(), c, max_clips);
        if stopped {
            (chosen, true)
        } else {
            let x = order.last();
            let next = if clear_of(x, chosen, c) { chosen.push(x) } else { chosen };
            (next, next.len() >= max_clips)
        }
    }
}

/// The positions of the highlights kept: the candidates by descending score, skipping any
/// that overlaps a kept one by more than 40% of the shorter, until `max_clips` are kept.
pub open spec fn selected_highlights(c: Seq<Candidate>, max_clips: nat) -> Seq<int> {
    greedy_state(sort_by_score(positions(c.len()), c), c, max_clips).0
}

// ---------------------------------------------------------------------------
// Lemmas
// ---------------------------------------------------------------------------

pub open spec fn sorted_desc(s: Seq<int>, c: Seq<Candidate>) -> bool {
    forall|i: int, j: int| 0 <= i < j < s.len() ==> score_at(c, s[i]) >= score_at(c, s[j])
}

pub open spec fn all_in_range(s: Seq<int>, n: int) -> bool {
    forall|i: int| 0 <= i < s.len() ==> 0 <= #[trigger] s[i] < n
}

proof fn lemma_insert(sorted: Seq<int>, x: int, c: Seq<Candidate>, n: int)
    requires
        sorted_desc(sorted, c),
        all_in_range(sorted, n),
        0 <= x < n,
    ensures
        sorted_desc(insert_by_score(sorted, x, c), c),
        all_in_range(insert_by_score(sorted, x, c), n),
        insert_by_score(sorted, x, c).len() == sorted.len() + 1,
    decreases sorted.len(),
{
    if sorted.len() == 0 {
    } else if score_at(c, sorted.last()) >= score_at(c, x) {
        let r = sorted.push(x);
        assert forall|i: int, j: int| 0 <= i < j < r.len() implies score_at(c, r[i]) >= score_at(c, r[j]) by {
            if j == r.len() - 1 {
                if i < sorted.len() - 1 {
                    assert(score_at(c, sorted[i]) >= score_at(c, sorted[sorted.len() - 1]));
                }
            }
        }
    } else {
        let d = sorted.drop_last();
        lemma_insert(d, x, c, n);
        let m = insert_by_score(d, x, c);
        lemma_insert_members(d, x, c);
        let r = m.push(sorted.last());
        assert forall|i: int, j: int| 0 <= i < j < r.len() implies score_at(c, r[i]) >= score_at(c, r[j]) by {
            if j == r.len() - 1 {
                // r[i] is x or an element of d, both scoring at least sorted.last()
                if m[i] != x {
                    let k = choose|k: int| 0 <= k < d.len() && d[k] == m[i];
                    assert(score_at(c, sorted[k]) >= score_at(c, sorted[sorted.len() - 1]));
                }
            }
        }
    }
}

proof fn lemma_insert_members(sorted: Seq<int>, x: int, c: Seq<Candidate>)
    ensures
        forall|i: int| 0 <= i < insert_by_score(sorted, x, c).len() ==> (#[trigger] insert_by_score(sorted, x, c)[i] == x || exists|k: int| 0 <= k < sorted.len() && sorted[k] == insert_by_score(sorted, x, c)[i]),
    decreases sorted.len(),
{
    if sorted.len() > 0 && score_at(c, sorted.last()) < score_at(c, x) {
        let d = sorted.drop_last();
        lemma_insert_members(d, x, c);
        let m = insert_by_score(d, x, c);
        assert forall|i: int| 0 <= i < insert_by_score(sorted, x, c).len() implies (#[trigger] insert_by_score(sorted, x, c)[i] == x || exists|k: int| 0 <= k < sorted.len() && sorted[k] == insert_by_score(sorted, x, c)[i]) by {
            if i < m.len() {
                if m[i] != x {
                    let k = choose|k: int| 0 <= k < d.len() && d[k] == m[i];
                    assert(sorted[k] == m[i]);
                }
            } else {
                assert(sorted[sorted.len() - 1] == insert_by_score(sorted, x, c)[i]);
            }
        }
    } else if sorted.len() > 0 {
        let r = sorted.push(x);
        assert forall|i: int| 0 <= i < r.len() implies (#[trigger] r[i] == x || exists|k: int| 0 <= k < sorted.len() && sorted[k] == r[i]) by {
            if i < sorted.len() {
                assert(sorted[i] == r[i]);
            }
        }
    }
}

proof fn lemma_sort(idx: Seq<int>, c: Seq<Candidate>, n: int)
    requires
        all_in_range(idx, n),
    ensures
        sorted_desc(sort_by_score(idx, c), c),
        all_in_range(sort_by_score(idx, c), n),
        sort_by_score(idx, c).len() == idx.len(),
    decreases idx.len(),
{
    if idx.len() > 0 {
        lemma_sort(idx.drop_last(), c, n);
        lemma_insert(sort_by_score(idx.drop_last(), c), idx.last(), c, n);
    }
}

pub open spec fn pairwise_clear(s: Seq<int>, c: Seq<Candidate>) -> bool {
    forall|i: int, j: int| 0 <= i < j < s.len() ==> !heavy_overlap(c[s[i]], c[s[j]])
}

proof fn lemma_greedy(order: Seq<int>, c: Seq<Candidate>, max_clips: nat, n: int)
    requires
        sorted_desc(order, c),
        all_in_range(order, n),
    ensures
        ({
            let (chosen, stopped) = greedy_state(order, c, max_clips);
            &&& pairwise_clear(chosen, c)
            &&& sorted_desc(chosen, c)
            &&& all_in_range(chosen, n)
            &&& (max_clips >= 1 ==> chosen.len() <= max_clips)
            &&& (!stopped && max_clips >= 1 ==> chosen.len() < max_clips)
            &&& (order.len() > 0 ==> chosen.len() > 0)
            &&& (forall|k: int| 0 <= k < chosen.len() ==> exists|j: int| 0 <= j < order.len() && order[j] == #[trigger] chosen[k])
        }),
    decreases order.len(),
{
    if order.len() > 0 {
        let d = order.drop_last();
        assert forall|i: int, j: int| 0 <= i < j < d.len() implies score_at(c, d[i]) >= score_at(c, d[j]) by {
            assert(d[i] == order[i] && d[j] == order[j]);
        }
        assert forall|i: int| 0 <= i < d.len() implies 0 <= #[trigger] d[i] < n by {
            assert(d[i] == order[i]);
        }
        lemma_greedy(d, c, max_clips, n);
        let (chosen, stopped) = greedy_state(d, c, max_clips);
        let x = order.last();
        assert(x == order[order.len() - 1]);
        if !stopped {
            if clear_of(x, chosen, c) {
                let next = chosen.push(x);
                assert forall|i: int, j: int| 0 <= i < j < next.len() implies !heavy_overlap(c[next[i]], c[next[j]]) by {
                    if j == next.len() - 1 {
                        assert(!heavy_overlap(c[x], c[chosen[i]]));
                    } else {
                        assert(next[i] == chosen[i] && next[j] == chosen[j]);
                    }
                }
                assert forall|i: int, j: int| 0 <= i < j < next.len() implies score_at(c, next[i]) >= score_at(c, next[j]) by {
                    if j == next.len() - 1 {
                        let k = choose|k: int| 0 <= k < d.len() && d[k] == chosen[i];
                        assert(score_at(c, order[k]) >= score_at(c, order[order.len() - 1]));
                    } else {
                        assert(next[i] == chosen[i] && next[j] == chosen[j]);
                    }
                }
                assert forall|k: int| 0 <= k < next.len() implies exists|j: int| 0 <= j < order.len() && order[j] == #[trigger] next[k] by {
                    if k == next.len() - 1 {
                        assert(order[order.len() - 1] == next[k]);
                    } else {
                        assert(next[k] == chosen[k]);
                        let j = choose|j: int| 0 <= j < d.len() && d[j] == chosen[k];
                        assert(order[j] == next[k]);
                    }
                }
                assert forall|i: int| 0 <= i < next.len() implies 0 <= #[trigger] next[i] < n by {
                    if i < chosen.len() {
                        assert(next[i] == chosen[i]);
                    }
                }
            } else {
                assert(chosen.len() > 0) by {
                    if chosen.len() == 0 {
                        assert(clear_of(x, chosen, c));
                    }
                }
                assert forall|k: int| 0 <= k < chosen.len() implies exists|j: int| 0 <= j < order.len() && order[j] == #[trigger] chosen[k] by {
                    let j = choose|j: int| 0 <= j < d.len() && d[j] == chosen[k];
                    assert(order[j] == chosen[k]);
                }
            }
        } else {
            assert forall|k: int| 0 <= k < chosen.len() implies exists|j: int| 0 <= j < order.len() && order[j] == #[trigger] chosen[k] by {
                let j = choose|j: int| 0 <= j < d.len() && d[j] == chosen[k];
                assert(order[j] == chosen[k]);
            }
        }
    }
}

proof fn lemma_selection(c: Seq<Candidate>, max_clips: nat)
    ensures
        ({
            let order = sort_by_score(positions(c.len()), c);
            let (chosen, _) = greedy_state(order, c, max_clips);
            &&& pairwise_clear(chosen, c)
            &&& sorted_desc(chosen, c)
            &&& all_in_range(chosen, c.len() as int)
            &&& (max_clips >= 1 ==> chosen.len() <= max_clips)
            &&& (c.len() > 0 ==> chosen.len() > 0)
        }),
{
    let idx = positions(c.len());
    assert(all_in_range(idx, c.len() as int));
    lemma_sort(idx, c, c.len() as int);
    lemma_greedy(sort_by_score(idx, c), c, max_clips, c.len() as int);
}

proof fn lemma_insert_contains(sorted: Seq<int>, x: int, c: Seq<Candidate>)
    ensures
        insert_by_score(sorted, x, c).contains(x),
        forall|k: int| 0 <= k < sorted.len() ==> insert_by_score(sorted, x, c).contains(#[trigger] sorted[k]),
    decreases sorted.len(),
{
    let r = insert_by_score(sorted, x, c);
    if sorted.len() == 0 {
        assert(r[0] == x);
    } else if score_at(c, sorted.last()) >= score_at(c, x) {
        assert(r[sorted.len() as int] == x);
        assert forall|k: int| 0 <= k < sorted.len() implies r.contains(#[trigger] sorted[k]) by {
            assert(r[k] == sorted[k]);
        }
    } else {
        let d = sorted.drop_last();
        lemma_insert_contains(d, x, c);
        let m = insert_by_score(d, x, c);
        let i = choose|i: int| 0 <= i < m.len() && m[i] == x;
        assert(r[i] == x);
        assert forall|k: int| 0 <= k < sorted.len() implies r.contains(#[trigger] sorted[k]) by {
            if k == sorted.len() - 1 {
                assert(r[m.len() as int] == sorted[k]);
            } else {
                assert(d[k] == sorted[k]);
                assert(m.contains(d[k]));
                let t = choose|t: int| 0 <= t < m.len() && m[t] == d[k];
                assert(r[t] == sorted[k]);
            }
        }
    }
}

proof fn lemma_sort_contains(idx: Seq<int>, c: Seq<Candidate>)
    ensures
        forall|i: int| 0 <= i < idx.len() ==> sort_by_score(idx, c).contains(#[trigger] idx[i]),
    decreases idx.len(),
{
    if idx.len() > 0 {
        let d = idx.drop_last();
        lemma_sort_contains(d, c);
        let sd = sort_by_score(d, c);
        lemma_insert_contains(sd, idx.last(), c);
        let r = sort_by_score(idx, c);
        assert forall|i: int| 0 <= i < idx.len() implies r.contains(#[trigger] idx[i]) by {
            if i < d.len() {
                assert(d[i] == idx[i]);
                assert(sd.contains(d[i]));
                let t = choose|t: int| 0 <= t < sd.len() && sd[t] == d[i];
                assert(r.contains(sd[t]));
            }
        }
    }
}

/// How a candidate that was looked at stands towards the chosen ones: it was chosen, or
/// it overlaps a chosen one scoring at least as much, or the pass had stopped with every
/// chosen one scoring at least as much as it.
pub open spec fn accounted_for(x: int, chosen: Seq<int>, stopped: bool, c: Seq<Candidate>) -> bool {
    ||| chosen.contains(x)
    ||| exists|k: int| 0 <= k < chosen.len() && heavy_overlap(c[x], #[trigger] c[chosen[k]])
            && score_at(c, chosen[k]) >= score_at(c, x)
    ||| (stopped && forall|k: int| 0 <= k < chosen.len() ==> score_at(c, #[trigger] chosen[k]) >= score_at(c, x))
}

proof fn lemma_greedy_accounts(order: Seq<int>, c: Seq<Candidate>, max_clips: nat, n: int)
    requires
        sorted_desc(order, c),
        all_in_range(order, n),
    ensures
        ({
            let (chosen, stopped) = greedy_state(order, c, max_clips);
            &&& (stopped ==> chosen.len() >= max_clips)
            &&& forall|j: int| 0 <= j < order.len() ==> accounted_for(#[trigger] order[j], chosen, stopped, c)
        }),
    decreases order.len(),
{
    if order.len() > 0 {
        let d = order.drop_last();
        assert forall|i: int, j: int| 0 <= i < j < d.len() implies score_at(c, d[i]) >= score_at(c, d[j]) by {
            assert(d[i] == order[i] && d[j] == order[j]);
        }
        assert forall|i: int| 0 <= i < d.len() implies 0 <= #[trigger] d[i] < n by {
            assert(d[i] == order[i]);
        }
        lemma_greedy_accounts(d, c, max_clips, n);
        lemma_greedy(d, c, max_clips, n);
        let (ch, st) = greedy_state(d, c, max_clips);
        let x = order.last();
        let last = order.len() - 1;
        assert(x == order[last]);
        // every chosen candidate comes before `x` in the order, so scores at least as much
        assert forall|k: int| 0 <= k < ch.len() implies score_at(c, #[trigger] ch[k]) >= score_at(c, x) by {
            let j = choose|j: int| 0 <= j < d.len() && d[j] == ch[k];
            assert(order[j] == ch[k]);
        }
        if st {
            assert forall|j: int| 0 <= j < order.len() implies accounted_for(#[trigger] order[j], ch, true, c) by {
                if j < d.len() {
                    assert(d[j] == order[j]);
                }
            }
        } else {
            let next = if clear_of(x, ch, c) { ch.push(x) } else { ch };
            let stopped = next.len() >= max_clips;
            assert forall|j: int| 0 <= j < order.len() implies accounted_for(#[trigger] order[j], next, stopped, c) by {
                let y = order[j];
                if j < d.len() {
                    assert(d[j] == y);
                    assert(accounted_for(d[j], ch, false, c));
                    if ch.contains(y) {
                        let t = choose|t: int| 0 <= t < ch.len() && ch[t] == y;
                        assert(next[t] == y);
                    } else {
                        let t = choose|t: int| 0 <= t < ch.len() && heavy_overlap(c[y], #[trigger] c[ch[t]])
                            && score_at(c, ch[t]) >= score_at(c, y);
                        assert(next[t] == ch[t]);
                    }
                } else {
                    assert(y == x);
                    if clear_of(x, ch, c) {
                        assert(next[ch.len() as int] == x);
                    } else {
                        let t = choose|t: int| 0 <= t < ch.len() && heavy_overlap(c[x], #[trigger] c[ch[t]]);
                        assert(score_at(c, ch[t]) >= score_at(c, x));
                    }
                }
            }
        }
    }
}

// ---------------------------------------------------------------------------
// Laws of the highlight selection
// ---------------------------------------------------------------------------

/// No two kept highlights overlap by more than 40% of the shorter one.
pub proof fn law_selected_highlights_do_not_overlap(c: Seq<Candidate>, max_clips: nat)
    ensures
        pairwise_clear(selected_highlights(c, max_clips), c),
{
    lemma_selection(c, max_clips);
}

/// The kept highlights come best first, and each is one of the candidates.
pub proof fn law_selected_highlights_best_first(c: Seq<Candidate>, max_clips: nat)
    ensures
        sorted_desc(selected_highlights(c, max_clips), c),
        all_in_range(selected_highlights(c, max_clips), c.len() as int),
{
    lemma_selection(c, max_clips);
}

/// At most `max_clips` highlights are kept, and at least one whenever there is a candidate.
pub proof fn law_selected_highlights_count(c: Seq<Candidate>, max_clips: nat)
    requires
        max_clips >= 1,
    ensures
        selected_highlights(c, max_clips).len() <= max_clips,
        c.len() > 0 ==> selected_highlights(c, max_clips).len() > 0,
{
    lemma_selection(c, max_clips);
}

/// The selection is greedy by score: a candidate that is not kept overlaps (by more than
/// 40% of the shorter) a kept one scoring at least as much, or `max_clips` were already
/// kept, all scoring at least as much as it. So while fewer than `max_clips` are kept,
/// every candidate clear of the kept ones is itself kept.
pub proof fn law_skipped_highlight_is_outranked(c: Seq<Candidate>, max_clips: nat, x: int)
    requires
        0 <= x < c.len(),
        !selected_highlights(c, max_clips).contains(x),
    ensures
        ({
            let sel = selected_highlights(c, max_clips);
            ||| exists|k: int| 0 <= k < sel.len() && heavy_overlap(c[x], #[trigger] c[sel[k]])
                    && score_at(c, sel[k]) >= score_at(c, x)
            ||| (sel.len() >= max_clips && forall|k: int| 0 <= k < sel.len() ==> score_at(c, #[trigger] sel[k]) >= score_at(c, x))
        }),
        selected_highlights(c, max_clips).len() < max_clips ==> exists|k: int|
            0 <= k < selected_highlights(c, max_clips).len() && heavy_overlap(
                c[x],
                #[trigger] c[selected_highlights(c, max_clips)[k]],
            ) && score_at(c, selected_highlights(c, max_clips)[k]) >= score_at(c, x),
{
    let idx = positions(c.len());
    assert(all_in_range(idx, c.len() as int));
    lemma_sort(idx, c, c.len() as int);
    lemma_sort_contains(idx, c);
    let order = sort_by_score(idx, c);
    lemma_greedy_accounts(order, c, max_clips, c.len() as int);
    assert(idx[x] == x);
    assert(order.contains(idx[x]));
    let j = choose|j: int| 0 <= j < order.len() && order[j] == x;
    assert(accounted_for(order[j], greedy_state(order, c, max_clips).0, greedy_state(order, c, max_clips).1, c));
}

// ---------------------------------------------------------------------------
// Executable selection
// ---------------------------------------------------------------------------

fn overlaps_heavily(a: &Candidate, b: &Candidate) -> (r: bool)
    ensures
        r == heavy_overlap(*a, *b),
{
    let os: i128 = if a.start_cs >= b.start_cs { a.start_cs as i128 } else { b.start_cs as i128 };
    let oe: i128 = if a.end_cs <= b.end_cs { a.end_cs as i128 } else { b.end_cs as i128 };
    let shorter: i128 = if a.duration_cs <= b.duration_cs { a.duration_cs as i128 } else { b.duration_cs as i128 };
    oe > os && (oe - os) * 10 > shorter * 4
}

proof fn lemma_insert_at(sorted: Seq<int>, x: int, c: Seq<Candidate>, p: int)
    requires
        0 <= p <= sorted.len(),
        p == 0 || score_at(c, sorted[p - 1]) >= score_at(c, x),
        forall|j: int| p <= j < sorted.len() ==> score_at(c, #[trigger] sorted[j]) < score_at(c, x),
    ensures
        insert_by_score(sorted, x, c) == sorted.take(p) + seq![x] + sorted.skip(p),
    decreases sorted.len(),
{
    if sorted.len() == p {
        assert(sorted.take(p) =~= sorted);
        assert(sorted.skip(p) =~= Seq::<int>::empty());
        if p > 0 {
            assert(sorted.last() == sorted[p - 1]);
        }
        assert(sorted.take(p) + seq![x] + sorted.skip(p) =~= sorted.push(x));
    } else {
        let d = sorted.drop_last();
        assert(score_at(c, sorted[sorted.len() - 1]) < score_at(c, x));
        assert forall|j: int| p <= j < d.len() implies score_at(c, #[trigger] d[j]) < score_at(c, x) by {
            assert(d[j] == sorted[j]);
        }
        if p > 0 {
            assert(d[p - 1] == sorted[p - 1]);
        }
        lemma_insert_at(d, x, c, p);
        assert(d.take(p) =~= sorted.take(p));
        assert(d.skip(p).push(sorted.last()) =~= sorted.skip(p));
        assert(insert_by_score(d, x, c).push(sorted.last()) =~= sorted.take(p) + seq![x] + sorted.skip(p));
    }
}

pub open spec fn usize_view(v: Seq<usize>) -> Seq<int> {
    v.map_values(|i: usize| i as int)
}

/// The candidate positions ordered by descending score, equal scores keeping their order.
fn order_by_score(c: &Vec<Candidate>) -> (order: Vec<usize>)
    ensures
        usize_view(order@) == sort_by_score(positions(c@.len()), c@),
        forall|k: int| 0 <= k < order@.len() ==> #[trigger] order@[k] < c.len(),
{
    let mut order: Vec<usize> = Vec::new();
    let mut i: usize = 0;
    assert(positions(c@.len()).take(0) =~= Seq::<int>::empty());
    while i < c.len()
        invariant
            i <= c.len(),
            usize_view(order@) == sort_by_score(positions(c@.len()).take(i as int), c@),
            order@.len() == i,
            forall|k: int| 0 <= k < order@.len() ==> #[trigger] order@[k] < c.len(),
        decreases c.len() - i,
    {
        let ghost sorted = usize_view(order@);
        let mut p: usize = order.len();
        while p > 0 && c[order[p - 1]].score_centi < c[i].score_centi
            invariant
                p <= order.len(),
                i < c.len(),
                sorted == usize_view(order@),
                forall|k: int| 0 <= k < order@.len() ==> #[trigger] order@[k] < c.len(),
                forall|j: int| p <= j < sorted.len() ==> score_at(c@, #[trigger] sorted[j]) < score_at(c@, i as int),
            decreases p,
        {
            p = p - 1;
        }
        proof {
            lemma_insert_at(sorted, i as int, c@, p as int);
            let pos = positions(c@.len());
            assert(pos.take(i + 1).drop_last() =~= pos.take(i as int));
            assert(pos.take(i + 1).last() == i as int);
        }
        order.insert(p, i);
        assert(usize_view(order@) =~= sorted.take(p as int) + seq![i as int] + sorted.skip(p as int));
        i = i + 1;
    }
    assert(positions(c@.len()).take(i as int) =~= positions(c@.len()));
    order
}

proof fn lemma_greedy_stays_stopped(order: Seq<int>, c: Seq<Candidate>, max_clips: nat, k: int, m: int)
    requires
        0 <= k <= m <= order.len(),
        greedy_state(order.take(k), c, max_clips).1,
    ensures
        greedy_state(order.take(m), c, max_clips) == greedy_state(order.take(k), c, max_clips),
    decreases m - k,
{
    if m > k {
        lemma_greedy_stays_stopped(order, c, max_clips, k, m - 1);
        assert(order.take(m).drop_last() =~= order.take(m - 1));
    }
}

/// The positions (in `candidates`) of the highlights to keep: by descending score (ties
/// in input order), skipping any candidate that overlaps a kept one by more than 40% of
/// the shorter, and stopping once `max_clips` are kept.
pub fn select_highlights(candidates: &Vec<Candidate>, max_clips: usize) -> (r: Vec<usize>)
    ensures
        usize_view(r@) == selected_highlights(candidates@, max_clips as nat),
{
    let ghost c = candidates@;
    let order = order_by_score(candidates);
    let ghost ov = usize_view(order@);
    let mut chosen: Vec<usize> = Vec::new();
    let mut k: usize = 0;
    assert(ov.take(0) =~= Seq::<int>::empty());
    while k < order.len()
        invariant
            k <= order.len(),
            c == candidates@,
            ov == usize_view(order@),
            ov == sort_by_score(positions(c.len()), c),
            ov.len() == order.len(),
            forall|j: int| 0 <= j < order@.len() ==> #[trigger] order@[j] < candidates.len(),
            (usize_view(chosen@), false) == greedy_state(ov.take(k as int), c, max_clips as nat),
            forall|j: int| 0 <= j < chosen@.len() ==> #[trigger] chosen@[j] < candidates.len(),
        decreases order.len() - k,
    {
        let x = order[k];
        let ghost before = usize_view(chosen@);
        let mut clear = true;
        let mut j: usize = 0;
        while j < chosen.len()
            invariant
                j <= chosen.len(),
                x < candidates.len(),
                before == usize_view(chosen@),
                forall|t: int| 0 <= t < chosen@.len() ==> #[trigger] chosen@[t] < candidates.len(),
                clear == (forall|t: int| 0 <= t < j ==> !heavy_overlap(c[x as int], #[trigger] c[before[t]])),
                c == candidates@,
            decreases chosen.len() - j,
        {
            let y = chosen[j];
            assert(before[j as int] == y as int);
            let hit = overlaps_heavily(&candidates[x], &candidates[y]);
            let ghost old_clear = clear;
            if hit {
                clear = false;
            }
            assert(clear == (old_clear && !heavy_overlap(c[x as int], c[before[j as int]])));
            assert(clear == (forall|t: int| 0 <= t < j + 1 ==> !heavy_overlap(c[x as int], #[trigger] c[before[t]]))) by {
                if clear {
                    assert forall|t: int| 0 <= t < j + 1 implies !heavy_overlap(c[x as int], #[trigger] c[before[t]]) by {}
                }
            }
            j = j + 1;
        }
        assert(clear == clear_of(x as int, before, c));
        assert(ov.take(k + 1).drop_last() =~= ov.take(k as int));
        assert(ov.take(k + 1).last() == x as int);
        if clear {
            chosen.push(x);
            assert(usize_view(chosen@) =~= before.push(x as int));
        }
        k = k + 1;
        if chosen.len() >= max_clips {
            assert(greedy_state(ov.take(k as int), c, max_clips as nat) == (usize_view(chosen@), true));
            proof {
                lemma_greedy_stays_stopped(ov, c, max_clips as nat, k as int, ov.len() as int);
                assert(ov.take(ov.len() as int) =~= ov);
            }
            return chosen;
        }
    }
    assert(ov.take(k as int) =~= ov);
    chosen
}


// ---------------------------------------------------------------------------
// Presentation order
// ---------------------------------------------------------------------------

pub open spec fn start_at(c: Seq<Candidate>, i: int) -> int {
    c[i].start_cs as int
}

/// `x` placed into `sorted` (earliest start first) after every element starting no later.
pub open spec fn insert_by_start(sorted: Seq<int>, x: int, c: Seq<Candidate>) -> Seq<int>
    decreases sorted.len(),
{
    if sorted.len() == 0 {
        seq![x]
    } else if start_at(c, sorted.last()) <= start_at(c, x) {
        sorted.push(x)
    } else {
        insert_by_start(sorted.drop_last(), x, c).push(sorted.last())
    }
}

/// The positions in `idx` ordered by start time, equal starts keeping their order.
pub open spec fn sort_by_start(idx: Seq<int>, c: Seq<Candidate>) -> Seq<int>
    decreases idx.len(),
{
    if idx.len() == 0 {
        Seq::empty()
    } else {
        insert_by_start(sort_by_start(idx.drop_last(), c), idx.last(), c)
    }
}

proof fn lemma_insert_by_start_at(sorted: Seq<int>, x: int, c: Seq<Candidate>, p: int)
    requires
        0 <= p <= sorted.len(),
        p == 0 || start_at(c, sorted[p - 1]) <= start_at(c, x),
        forall|j: int| p <= j < sorted.len() ==> start_at(c, #[trigger] sorted[j]) > start_at(c, x),
    ensures
        insert_by_start(sorted, x, c) == sorted.take(p) + seq![x] + sorted.skip(p),
    decreases sorted.len(),
{
    if sorted.len() == p {
        assert(sorted.take(p) =~= sorted);
        assert(sorted.skip(p) =~= Seq::<int>::empty());
        if p > 0 {
            assert(sorted.last() == sorted[p - 1]);
        }
        assert(sorted.take(p) + seq![x] + sorted.skip(p) =~= sorted.push(x));
    } else {
        let d = sorted.drop_last();
        assert(start_at(c, sorted[sorted.len() - 1]) > start_at(c, x));
        assert forall|j: int| p <= j < d.len() implies start_at(c, #[trigger] d[j]) > start_at(c, x) by {
            assert(d[j] == sorted[j]);
        }
        if p > 0 {
            assert(d[p - 1] == sorted[p - 1]);
        }
        lemma_insert_by_start_at(d, x, c, p);
        assert(d.take(p) =~= sorted.take(p));
        assert(d.skip(p).push(sorted.last()) =~= sorted.skip(p));
        assert(insert_by_start(d, x, c).push(sorted.last()) =~= sorted.take(p) + seq![x] + sorted.skip(p));
    }
}

/// The kept highlights `picks` (positions in `candidates`) in the order they are shown and
/// numbered: by start time, equal starts keeping their order.
pub fn chronological(candidates: &Vec<Candidate>, picks: &Vec<usize>) -> (r: Vec<usize>)
    requires
        forall|k: int| 0 <= k < picks@.len() ==> #[trigger] picks@[k] < candidates.len(),
    ensures
        usize_view(r@) == sort_by_start(usize_view(picks@), candidates@),
{
    let ghost c = candidates@;
    let ghost pv = usize_view(picks@);
    let mut order: Vec<usize> = Vec::new();
    let mut i: usize = 0;
    assert(pv.take(0) =~= Seq::<int>::empty());
    while i < picks.len()
        invariant
            i <= picks.len(),
            c == candidates@,
            pv == usize_view(picks@),
            forall|k: int| 0 <= k < picks@.len() ==> #[trigger] picks@[k] < candidates.len(),
            usize_view(order@) == sort_by_start(pv.take(i as int), c),
            forall|k: int| 0 <= k < order@.len() ==> #[trigger] order@[k] < candidates.len(),
        decreases picks.len() - i,
    {
        let x: usize = picks[i];
        let ghost sorted = usize_view(order@);
        let mut p: usize = order.len();
        while p > 0 && candidates[order[p - 1]].start_cs > candidates[x].start_cs
            invariant
                p <= order.len(),
                x < candidates.len(),
                c == candidates@,
                sorted == usize_view(order@),
                forall|k: int| 0 <= k < order@.len() ==> #[trigger] order@[k] < candidates.len(),
                forall|j: int| p <= j < sorted.len() ==> start_at(c, #[trigger] sorted[j]) > start_at(c, x as int),
            decreases p,
        {
            p = p - 1;
        }
        proof {
            lemma_insert_by_start_at(sorted, x as int, c, p as int);
            assert(pv.take(i + 1).drop_last() =~= pv.take(i as int));
            assert(pv.take(i + 1).last() == x as int);
        }
        order.insert(p, x);
        assert(usize_view(order@) =~= sorted.take(p as int) + seq![x as int] + sorted.skip(p as int));
        i = i + 1;
    }
    assert(pv.take(i as int) =~= pv);
    order
}


pub open spec fn sorted_by_start(s: Seq<int>, c: Seq<Candidate>) -> bool {
    forall|i: int, j: int| 0 <= i < j < s.len() ==> start_at(c, s[i]) <= start_at(c, s[j])
}

proof fn lemma_insert_by_start(sorted: Seq<int>, x: int, c: Seq<Candidate>, bound: int)
    requires
        sorted_by_start(sorted, c),
        forall|j: int| 0 <= j < sorted.len() ==> start_at(c, #[trigger] sorted[j]) <= bound,
    ensures
        sorted_by_start(insert_by_start(sorted, x, c), c),
        forall|j: int| 0 <= j < insert_by_start(sorted, x, c).len() ==> start_at(c, #[trigger] insert_by_start(sorted, x, c)[j]) <= imax(bound, start_at(c, x)),
        insert_by_start(sorted, x, c).to_multiset() == sorted.to_multiset().insert(x),
    decreases sorted.len(),
{
    broadcast use vstd::seq_lib::group_to_multiset_ensures;
    if sorted.len() == 0 {
        assert(seq![x] =~= Seq::<int>::empty().push(x));
    } else if start_at(c, sorted.last()) <= start_at(c, x) {
        let r = sorted.push(x);
        assert forall|i: int, j: int| 0 <= i < j < r.len() implies start_at(c, r[i]) <= start_at(c, r[j]) by {
            if j == r.len() - 1 && i < sorted.len() - 1 {
                assert(start_at(c, sorted[i]) <= start_at(c, sorted[sorted.len() - 1]));
            }
        }
    } else {
        let d = sorted.drop_last();
        let last = sorted.last();
        assert forall|j: int| 0 <= j < d.len() implies start_at(c, #[trigger] d[j]) <= start_at(c, last) by {
            assert(d[j] == sorted[j]);
            assert(start_at(c, sorted[j]) <= start_at(c, sorted[sorted.len() - 1]));
        }
        assert(sorted_by_start(d, c)) by {
            assert forall|i: int, j: int| 0 <= i < j < d.len() implies start_at(c, d[i]) <= start_at(c, d[j]) by {
                assert(d[i] == sorted[i] && d[j] == sorted[j]);
            }
        }
        lemma_insert_by_start(d, x, c, start_at(c, last));
        let m = insert_by_start(d, x, c);
        let r = m.push(last);
        assert forall|i: int, j: int| 0 <= i < j < r.len() implies start_at(c, r[i]) <= start_at(c, r[j]) by {
            if j == r.len() - 1 {
                assert(r[i] == m[i]);
            } else {
                assert(r[i] == m[i] && r[j] == m[j]);
            }
        }
        assert forall|j: int| 0 <= j < r.len() implies start_at(c, #[trigger] r[j]) <= imax(bound, start_at(c, x)) by {
            if j < m.len() {
                assert(r[j] == m[j]);
            }
        }
        assert(sorted =~= d.push(last));
        assert(d.to_multiset().insert(x).insert(last) =~= d.to_multiset().insert(last).insert(x));
    }
}

proof fn lemma_sort_by_start(idx: Seq<int>, c: Seq<Candidate>)
    ensures
        sorted_by_start(sort_by_start(idx, c), c),
        sort_by_start(idx, c).to_multiset() == idx.to_multiset(),
    decreases idx.len(),
{
    broadcast use vstd::seq_lib::group_to_multiset_ensures;
    if idx.len() > 0 {
        let d = idx.drop_last();
        lemma_sort_by_start(d, c);
        let s = sort_by_start(d, c);
        let b = if s.len() == 0 { start_at(c, idx.last()) } else { start_at(c, s.last()) };
        assert forall|j: int| 0 <= j < s.len() implies start_at(c, #[trigger] s[j]) <= b by {
            if j < s.len() - 1 {
                assert(start_at(c, s[j]) <= start_at(c, s[s.len() - 1]));
            }
        }
        lemma_insert_by_start(s, idx.last(), c, b);
        assert(idx =~= d.push(idx.last()));
    }
}

/// Kept highlights are shown in start order, and reordering them neither drops nor
/// repeats one.
pub proof fn law_chronological_order(c: Seq<Candidate>, picks: Seq<int>)
    ensures
        sorted_by_start(sort_by_start(picks, c), c),
        sort_by_start(picks, c).to_multiset() == picks.to_multiset(),
{
    lemma_sort_by_start(picks, c);
}

} // verus!
