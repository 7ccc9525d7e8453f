use vstd::prelude::*;

verus! {

/// A detected shot boundary.
#[derive(Debug, Clone, Copy)]
pub struct ShotTransition {
    /// Time of the cut in milliseconds.
    pub time_ms: i64,
    pub frame_idx: u64,
}

/// Aligns highlight boundaries with shot cuts and keeps clips within the length limits.
/// All times are milliseconds.
#[derive(Debug, Clone, Copy)]
pub struct TransNetSnapper {
    /// Radius around a time within which the nearest cut is looked for (e.g. 3000).
    pub snap_window_ms: i64,
    /// Shortest clip (e.g. 15000).
    pub min_duration_ms: i64,
    /// Longest clip (e.g. 45000).
    pub max_duration_ms: i64,
}

pub open spec fn cut_times(ts: Seq<ShotTransition>) -> Seq<int> {
    ts.map_values(|t: ShotTransition| t.time_ms as int)
}

pub open spec fn abs_diff(a: int, b: int) -> int {
    if a >= b { a - b } else { b - a }
}

/// The scan for the cut nearest to `target`: best time so far, its distance, and whether
/// any cut lay strictly closer than the window. Earlier cuts win ties.
pub open spec fn nearest_scan(target: int, cuts: Seq<int>, window: int) -> (int, int, bool)
    decreases cuts.len(),
{
    if cuts.len() == 0 {
        (target, window, false)
    } else {
        let (best, dist, found) = nearest_scan(target, cuts.drop_last(), window);
        let d = abs_diff(cuts.last(), target);
        if d < dist {
            (cuts.last(), d, true)
        } else {
            (best, dist, found)
        }
    }
}

/// The nearest cut within the window (or `target` itself when there is none), and whether
/// one was found.
pub open spec fn nearest_cut(target: int, cuts: Seq<int>, window: int) -> (int, bool) {
    let (best, _, found) = nearest_scan(target, cuts, window);
    (best, found)
}

pub open spec fn imax(a: int, b: int) -> int {
    if a >= b { a } else { b }
}

pub open spec fn imin(a: int, b: int) -> int {
    if a <= b { a } else { b }
}

/// The snapped interval: both ends moved to their nearest cuts, clamped to the video,
/// then stretched (towards a later cut, or by force) when shorter than the minimum, or
/// shortened (to an inner cut, or by force) when longer than the maximum. Also reports
/// whether each end found a cut.
pub open spec fn snap(raw_start: int, raw_end: int, cuts: Seq<int>, video: int, window: int, min_len: int, max_len: int) -> (int, int, bool, bool) {
    let (snapped_start, start_found) = nearest_cut(raw_start, cuts, window);
    let (snapped_end, end_found) = nearest_cut(raw_end, cuts, window);
    let s = imax(snapped_start, 0);
    let e = imin(snapped_end, video);
    let dur = e - s;
    if dur < min_len {
        let target = e + (min_len - dur);
        let e1 = imin(nearest_cut(target, cuts, window).0, video);
        if e1 - s < min_len {
            let e2 = imin(s + min_len, video);
            if e2 - s < min_len {
                (imax(e2 - min_len, 0), e2, start_found, end_found)
            } else {
                (s, e2, start_found, end_found)
            }
        } else {
            (s, e1, start_found, end_found)
        }
    } else if dur > max_len {
        let c = nearest_cut(s + max_len, cuts, window).0;
        if c > s + min_len && c <= s + max_len {
            (s, c, start_found, end_found)
        } else {
            (s, s + max_len, start_found, end_found)
        }
    } else {
        (s, e, start_found, end_found)
    }
}

proof fn lemma_nearest_scan_bounds(target: int, cuts: Seq<int>, window: int)
    ensures
        ({
            let (best, dist, found) = nearest_scan(target, cuts, window);
            &&& dist <= window
            &&& (found ==> abs_diff(best, target) == dist && dist < window)
            &&& (!found ==> best == target)
            &&& (found ==> cuts.contains(best))
        }),
    decreases cuts.len(),
{
    if cuts.len() > 0 {
        lemma_nearest_scan_bounds(target, cuts.drop_last(), window);
        let (best, dist, found) = nearest_scan(target, cuts.drop_last(), window);
        if found {
            assert(cuts.drop_last().contains(best));
            let k = choose|k: int| 0 <= k < cuts.drop_last().len() && cuts.drop_last()[k] == best;
            assert(cuts[k] == best);
        }
        assert(cuts[cuts.len() - 1] == cuts.last());
    }
}

/// The nearest cut lies within the window of the target (or is the target itself).
pub proof fn lemma_nearest_cut_within_window(target: int, cuts: Seq<int>, window: int)
    requires
        window >= 0,
    ensures
        ({
            let (c, found) = nearest_cut(target, cuts, window);
            &&& target - window <= c <= target + window
            &&& (found ==> cuts.contains(c) && abs_diff(c, target) < window)
            &&& (!found ==> c == target)
        }),
{
    lemma_nearest_scan_bounds(target, cuts, window);
}

proof fn lemma_nearest_scan_minimal(target: int, cuts: Seq<int>, window: int)
    ensures
        ({
            let (best, dist, found) = nearest_scan(target, cuts, window);
            &&& forall|i: int| 0 <= i < cuts.len() ==> dist <= abs_diff(#[trigger] cuts[i], target)
            &&& (!found ==> dist == window)
        }),
    decreases cuts.len(),
{
    if cuts.len() > 0 {
        let d = cuts.drop_last();
        lemma_nearest_scan_minimal(target, d, window);
        let (best, dist, found) = nearest_scan(target, cuts, window);
        assert forall|i: int| 0 <= i < cuts.len() implies dist <= abs_diff(#[trigger] cuts[i], target) by {
            if i < d.len() {
                assert(d[i] == cuts[i]);
            } else {
                assert(cuts[i] == cuts.last());
            }
        }
    }
}

/// The cut a time snaps to is the nearest one: when a cut lies closer than the window,
/// the chosen cut is one of the cuts and no cut lies strictly closer to the target (the
/// earliest of equally near cuts wins); otherwise no cut is closer than the window and the
/// time stays where it is.
pub proof fn law_nearest_cut_is_nearest(target: int, cuts: Seq<int>, window: int)
    ensures
        ({
            let (c, found) = nearest_cut(target, cuts, window);
            &&& found ==> cuts.contains(c) && abs_diff(c, target) < window
            &&& found ==> forall|i: int| 0 <= i < cuts.len() ==> abs_diff(c, target) <= abs_diff(#[trigger] cuts[i], target)
            &&& found ==> forall|i: int| 0 <= i < cuts.len() && abs_diff(#[trigger] cuts[i], target) == abs_diff(c, target)
                ==> exists|k: int| 0 <= k <= i && cuts[k] == c
            &&& !found ==> c == target
            &&& !found ==> forall|i: int| 0 <= i < cuts.len() ==> abs_diff(#[trigger] cuts[i], target) >= window
        }),
{
    lemma_nearest_scan_bounds(target, cuts, window);
    lemma_nearest_scan_minimal(target, cuts, window);
    lemma_nearest_scan_first(target, cuts, window);
}

proof fn lemma_nearest_scan_first(target: int, cuts: Seq<int>, window: int)
    ensures
        ({
            let (best, dist, found) = nearest_scan(target, cuts, window);
            found ==> forall|i: int| 0 <= i < cuts.len() && abs_diff(#[trigger] cuts[i], target) == dist
                ==> exists|k: int| 0 <= k <= i && cuts[k] == best
        }),
    decreases cuts.len(),
{
    if cuts.len() > 0 {
        let d = cuts.drop_last();
        lemma_nearest_scan_first(target, d, window);
        lemma_nearest_scan_minimal(target, d, window);
        lemma_nearest_scan_bounds(target, d, window);
        let (b0, d0, f0) = nearest_scan(target, d, window);
        let (best, dist, found) = nearest_scan(target, cuts, window);
        let last = cuts.len() - 1;
        assert(cuts[last] == cuts.last());
        if found {
            assert forall|i: int| 0 <= i < cuts.len() && abs_diff(#[trigger] cuts[i], target) == dist
                implies exists|k: int| 0 <= k <= i && cuts[k] == best by {
                if abs_diff(cuts.last(), target) < d0 {
                    // the last cut is strictly nearer than every earlier one
                    if i < d.len() {
                        assert(d[i] == cuts[i]);
                        assert(false);
                    }
                    assert(cuts[last] == best);
                } else {
                    if i < d.len() {
                        assert(d[i] == cuts[i]);
                        let k = choose|k: int| 0 <= k <= i && d[k] == b0;
                        assert(cuts[k] == best);
                    } else {
                        // the earlier best already had this distance
                        assert(f0);
                        assert(d.contains(b0));
                        let k = choose|k: int| 0 <= k < d.len() && d[k] == b0;
                        assert(cuts[k] == best);
                    }
                }
            }
        }
    }
}

/// Every snapped clip lies inside the video and its length is within the limits, as long
/// as the video is at least as long as the shortest clip and the window is small enough
/// that stretching to a cut cannot overshoot the longest clip.
pub proof fn law_snapped_clip_within_limits(raw_start: int, raw_end: int, cuts: Seq<int>, video: int, window: int, min_len: int, max_len: int)
    requires
        0 <= window,
        0 <= min_len <= max_len,
        min_len + window <= max_len,
        video >= min_len,
    ensures
        ({
            let (s, e, _, _) = snap(raw_start, raw_end, cuts, video, window, min_len, max_len);
            &&& 0 <= s <= e <= video
            &&& min_len <= e - s <= max_len
        }),
{
    let (snapped_start, _) = nearest_cut(raw_start, cuts, window);
    let (snapped_end, _) = nearest_cut(raw_end, cuts, window);
    let s = imax(snapped_start, 0);
    let e = imin(snapped_end, video);
    lemma_nearest_cut_within_window(e + (min_len - (e - s)), cuts, window);
    lemma_nearest_cut_within_window(s + max_len, cuts, window);
}

fn nearest(target: i128, cuts: &Vec<ShotTransition>, window: i64) -> (r: (i128, bool))
    requires
        i128::MIN / 4 <= target <= i128::MAX / 4,
    ensures
        (r.0 as int, r.1) == nearest_cut(target as int, cut_times(cuts@), window as int),
        window >= 0 ==> target - window <= r.0 <= target + window,
        r.0 == target || i64::MIN <= r.0 <= i64::MAX,
{
    let ghost all = cut_times(cuts@);
    let mut best: i128 = target;
    let mut dist: i128 = window as i128;
    let mut found = false;
    let mut i: usize = 0;
    assert(all.take(0) =~= Seq::<int>::empty());
    while i < cuts.len()
        invariant
            i <= cuts.len(),
            all == cut_times(cuts@),
            (best as int, dist as int, found) == nearest_scan(
                target as int,
                all.take(i as int),
                window as int,
            ),
            window >= 0 ==> target - window <= best <= target + window,
            window >= 0 ==> 0 <= dist <= window,
            best == target || i64::MIN <= best <= i64::MAX,
            i64::MIN <= dist <= i64::MAX,
            i128::MIN / 4 <= target <= i128::MAX / 4,
        decreases cuts.len() - i,
    {
        let c = cuts[i].time_ms as i128;
        let d: i128 = if c >= target { c - target } else { target - c };
        assert(all.take(i + 1).drop_last() =~= all.take(i as int));
        assert(all.take(i + 1).last() == c as int);
        if d < dist {
            best = c;
            dist = d;
            found = true;
        }
        i = i + 1;
    }
    assert(all.take(i as int) =~= all);
    (best, found)
}

impl TransNetSnapper {
    /// A 3-second window and clips of 15 to 45 seconds.
    pub fn standard() -> (r: Self)
        ensures
            r.snap_window_ms == 3000,
            r.min_duration_ms == 15000,
            r.max_duration_ms == 45000,
    {
        TransNetSnapper { snap_window_ms: 3000, min_duration_ms: 15000, max_duration_ms: 45000 }
    }

    pub fn new(snap_window_ms: i64, min_duration_ms: i64, max_duration_ms: i64) -> (r: Self)
        ensures
            r.snap_window_ms == snap_window_ms,
            r.min_duration_ms == min_duration_ms,
            r.max_duration_ms == max_duration_ms,
    {
        TransNetSnapper { snap_window_ms, min_duration_ms, max_duration_ms }
    }

    /// Snaps the interval `[raw_start_ms, raw_end_ms]` to the nearest shot cuts and bounds
    /// its length; returns the start, the end, and whether each end found a cut.
    pub fn snap_interval(&self, raw_start_ms: i64, raw_end_ms: i64, transitions: &Vec<ShotTransition>, video_duration_ms: i64) -> (r: (i64, i64, bool, bool))
        ensures
            (r.0 as int, r.1 as int, r.2, r.3) == snap(
                raw_start_ms as int,
                raw_end_ms as int,
                cut_times(transitions@),
                video_duration_ms as int,
                self.snap_window_ms as int,
                self.min_duration_ms as int,
                self.max_duration_ms as int,
            ),
    {
        let w = self.snap_window_ms;
        let min_len = self.min_duration_ms as i128;
        let max_len = self.max_duration_ms as i128;
        let video = video_duration_ms as i128;
        let (snapped_start, start_found) = nearest(raw_start_ms as i128, transitions, w);
        let (snapped_end, end_found) = nearest(raw_end_ms as i128, transitions, w);
        let s: i128 = if snapped_start >= 0 { snapped_start } else { 0 };
        let e: i128 = if snapped_end <= video { snapped_end } else { video };
        let dur = e - s;
        let (fs, fe): (i128, i128) = if dur < min_len {
            let target = e + (min_len - dur);
            let (c, _) = nearest(target, transitions, w);
            let e1 = if c <= video { c } else { video };
            if e1 - s < min_len {
                let e2 = if s + min_len <= video { s + min_len } else { video };
                if e2 - s < min_len {
                    (if e2 - min_len >= 0 { e2 - min_len } else { 0 }, e2)
                } else {
                    (s, e2)
                }
            } else {
                (s, e1)
            }
        } else if dur > max_len {
            let (c, _) = nearest(s + max_len, transitions, w);
            if c > s + min_len && c <= s + max_len {
                (s, c)
            } else {
                (s, s + max_len)
            }
        } else {
            (s, e)
        };
        proof {
            lemma_snap_in_range(
                raw_start_ms as int,
                raw_end_ms as int,
                cut_times(transitions@),
                video_duration_ms as int,
                w as int,
                min_len as int,
                max_len as int,
            );
        }
        (fs as i64, fe as i64, start_found, end_found)
    }
}

/// The snapped ends are each one of the inputs, a cut, zero, or an input plus or minus a
/// limit that the result is kept between; in particular they fit in an `i64`.
proof fn lemma_snap_in_range(raw_start: int, raw_end: int, cuts: Seq<int>, video: int, window: int, min_len: int, max_len: int)
    requires
        i64::MIN <= raw_start <= i64::MAX,
        i64::MIN <= raw_end <= i64::MAX,
        i64::MIN <= video <= i64::MAX,
        i64::MIN <= min_len <= i64::MAX,
        i64::MIN <= max_len <= i64::MAX,
        forall|i: int| 0 <= i < cuts.len() ==> i64::MIN <= #[trigger] cuts[i] <= i64::MAX,
    ensures
        ({
            let (s, e, _, _) = snap(raw_start, raw_end, cuts, video, window, min_len, max_len);
            &&& i64::MIN <= s <= i64::MAX
            &&& i64::MIN <= e <= i64::MAX
        }),
{
    let (ss, _) = nearest_cut(raw_start, cuts, window);
    let (se, _) = nearest_cut(raw_end, cuts, window);
    lemma_nearest_scan_bounds(raw_start, cuts, window);
    lemma_nearest_scan_bounds(raw_end, cuts, window);
    let s = imax(ss, 0);
    let e = imin(se, video);
    let t1 = e + (min_len - (e - s));
    let t2 = s + max_len;
    lemma_nearest_scan_bounds(t1, cuts, window);
    lemma_nearest_scan_bounds(t2, cuts, window);
    let (c1, f1) = nearest_cut(t1, cuts, window);
    let (c2, f2) = nearest_cut(t2, cuts, window);
    if f1 {
        let k = choose|k: int| 0 <= k < cuts.len() && cuts[k] == c1;
    }
    if f2 {
        let k = choose|k: int| 0 <= k < cuts.len() && cuts[k] == c2;
    }
    if ss != raw_start {
        let k = choose|k: int| 0 <= k < cuts.len() && cuts[k] == ss;
    }
    if se != raw_end {
        let k = choose|k: int| 0 <= k < cuts.len() && cuts[k] == se;
    }
}


/// Frames at 30 frames per second before the time `ms`.
pub open spec fn frame_at_30fps(ms: int) -> int {
    ms * 30 / 1000
}

/// Shot cuts placed every `step_ms` from `first_ms` up to (not including) `total_ms`: the
/// stand-in for detected cuts when no shot detector runs.
pub fn regular_shot_grid(total_ms: i64, first_ms: i64, step_ms: i64) -> (r: Vec<ShotTransition>)
    requires
        first_ms >= 0,
        step_ms > 0,
        total_ms <= i64::MAX - step_ms,
    ensures
        first_ms < total_ms ==> r@.len() > 0 && r@[0].time_ms == first_ms,
        first_ms >= total_ms ==> r@.len() == 0,
        forall|i: int| 0 <= i < r@.len() ==> #[trigger] r@[i].time_ms < total_ms,
        forall|i: int| 0 <= i < r@.len() ==> #[trigger] r@[i].frame_idx == frame_at_30fps(r@[i].time_ms as int),
        forall|i: int| 0 <= i < r@.len() - 1 ==> #[trigger] r@[i + 1].time_ms == r@[i].time_ms + step_ms,
        r@.len() > 0 ==> r@.last().time_ms + step_ms >= total_ms,
{
    let mut r: Vec<ShotTransition> = Vec::new();
    let mut cut: i64 = first_ms;
    while cut < total_ms
        invariant
            first_ms >= 0,
            step_ms > 0,
            total_ms <= i64::MAX - step_ms,
            first_ms <= cut,
            r@.len() > 0 ==> cut < total_ms + step_ms,
            r@.len() == 0 ==> cut == first_ms,
            r@.len() > 0 ==> r@[0].time_ms == first_ms && r@.last().time_ms + step_ms == cut,
            forall|i: int| 0 <= i < r@.len() ==> #[trigger] r@[i].time_ms < total_ms,
            forall|i: int| 0 <= i < r@.len() ==> #[trigger] r@[i].frame_idx == frame_at_30fps(r@[i].time_ms as int),
            forall|i: int| 0 <= i < r@.len() - 1 ==> #[trigger] r@[i + 1].time_ms == r@[i].time_ms + step_ms,
        decreases total_ms + step_ms - cut,
    {
        let wide: i128 = cut as i128 * 30;
        let frame: u64 = (wide / 1000) as u64;
        assert(frame == frame_at_30fps(cut as int)) by (nonlinear_arith)
            requires
                0 <= cut < i64::MAX,
                wide == cut * 30,
                frame == wide / 1000,
        ;
        let ghost before = r@;
        r.push(ShotTransition { time_ms: cut, frame_idx: frame });
        assert(forall|i: int| 0 <= i < before.len() ==> r@[i] == before[i]);
        cut = cut + step_ms;
    }
    r
}

} // verus!
