//! Which pane to offer first: the one used most recently, the caller's own
//! pane apart.

use crate::pane::{pane_views, PaneView, TmuxPane};
use vstd::prelude::*;

verus! {

/// The pane at `i` exists and is not the caller's own.
pub open spec fn is_candidate(panes: Seq<PaneView>, current: Seq<char>, i: int) -> bool {
    0 <= i < panes.len() && panes[i].full_id() != current
}

/// The running best of a scan: whether a pane has qualified yet, and if so
/// which one and when it was last used.
pub struct Best {
    pub found: bool,
    pub index: int,
    pub time: u64,
}

/// The running best after a scan over all of `panes`, front to back. It starts
/// with nothing found and time 0. A candidate takes over when it is active,
/// or when it was used strictly later than the running best.
pub open spec fn scan(panes: Seq<PaneView>, current: Seq<char>) -> Best
    decreases panes.len(),
{
    if panes.len() == 0 {
        Best { found: false, index: 0, time: 0 }
    } else {
        let before = scan(panes.drop_last(), current);
        let pane = panes.last();
        if pane.full_id() != current && (pane.is_active || pane.last_used > before.time) {
            Best { found: true, index: panes.len() - 1, time: pane.last_used }
        } else {
            before
        }
    }
}

/// The first candidate in list order, if there is one.
pub open spec fn first_other(panes: Seq<PaneView>, current: Seq<char>) -> Option<int>
    decreases panes.len(),
{
    if panes.len() == 0 {
        None
    } else {
        match first_other(panes.drop_last(), current) {
            Some(i) => Some(i),
            None => if panes.last().full_id() != current {
                Some(panes.len() - 1)
            } else {
                None
            },
        }
    }
}

/// The pane to offer: what the scan settled on, or, where no pane qualified,
/// the first candidate.
pub open spec fn most_recent(panes: Seq<PaneView>, current: Seq<char>) -> Option<int> {
    let best = scan(panes, current);
    if best.found {
        Some(best.index)
    } else {
        first_other(panes, current)
    }
}

/// The index of the first pane whose identifier is not `current_pane_id`.
pub fn first_other_pane(panes: &[TmuxPane], current_pane_id: &str) -> (first: Option<usize>)
    ensures
        match first {
            Some(i) => first_other(pane_views(panes@), current_pane_id@) == Some(i as int),
            None => first_other(pane_views(panes@), current_pane_id@) is None,
        },
{
    let ghost views = pane_views(panes@);
    let mut index: usize = 0;
    while index < panes.len()
        invariant
            index <= panes.len(),
            views == pane_views(panes@),
            first_other(views.take(index as int), current_pane_id@) is None,
        decreases panes.len() - index,
    {
        proof {
            assert(views.take(index + 1).drop_last() =~= views.take(index as int));
            assert(views.take(index + 1).last() == panes@[index as int]@);
        }
        if *panes[index].full_id() != *current_pane_id {
            proof {
                lemma_first_other_extends(views, current_pane_id@, index + 1);
            }
            return Some(index);
        }
        index += 1;
    }
    assert(views.take(index as int) =~= views);
    None
}

/// A first candidate found in a front part of the list is the first candidate
/// of the whole list.
proof fn lemma_first_other_extends(panes: Seq<PaneView>, current: Seq<char>, n: int)
    requires
        0 <= n <= panes.len(),
        first_other(panes.take(n), current) is Some,
    ensures
        first_other(panes, current) == first_other(panes.take(n), current),
    decreases panes.len(),
{
    if n < panes.len() {
        assert(panes.drop_last().take(n) =~= panes.take(n));
        lemma_first_other_extends(panes.drop_last(), current, n);
    } else {
        assert(panes.take(n) =~= panes);
    }
}

/// The pane to offer first: the most recently used one that is not the
/// caller's own, an active pane counting as more recent than any time.
pub fn find_most_recent_pane(panes: &[TmuxPane], current_pane_id: &str) -> (best: Option<usize>)
    ensures
        match best {
            Some(i) => most_recent(pane_views(panes@), current_pane_id@) == Some(i as int),
            None => most_recent(pane_views(panes@), current_pane_id@) is None,
        },
        best matches Some(i) ==> i < panes.len() && panes[i as int]@.full_id()
            != current_pane_id@,
        best is None <==> forall|k: int|
            0 <= k < panes.len() ==> (#[trigger] panes[k])@.full_id() == current_pane_id@,
{
    let ghost views = pane_views(panes@);
    let mut best_index: usize = 0;
    let mut best_time: u64 = 0;
    let mut found_valid = false;
    let mut index: usize = 0;
    while index < panes.len()
        invariant
            index <= panes.len(),
            views == pane_views(panes@),
            scan(views.take(index as int), current_pane_id@) == (Best {
                found: found_valid,
                index: best_index as int,
                time: best_time,
            }),
        decreases panes.len() - index,
    {
        proof {
            assert(views.take(index + 1).drop_last() =~= views.take(index as int));
            assert(views.take(index + 1).last() == panes@[index as int]@);
        }
        let pane = &panes[index];
        if *pane.full_id() != *current_pane_id && (pane.is_active() || pane.last_used()
            > best_time) {
            best_time = pane.last_used();
            best_index = index;
            found_valid = true;
        }
        index += 1;
    }
    assert(views.take(index as int) =~= views);
    proof {
        most_recent_excludes_current(views, current_pane_id@);
        most_recent_none_without_candidate(views, current_pane_id@);
        assert(forall|k: int| 0 <= k < panes.len() ==> views[k] == (#[trigger] panes[k])@);
    }
    if found_valid {
        Some(best_index)
    } else {
        first_other_pane(panes, current_pane_id)
    }
}

/// Some candidate after `lo` and no later than `hi` is active.
pub open spec fn active_within(panes: Seq<PaneView>, current: Seq<char>, lo: int, hi: int) -> bool {
    exists|a: int| lo < a <= hi && #[trigger] is_candidate(panes, current, a) && panes[a].is_active
}

/// What singles out the pane at `i`, without reference to a scan: it is a
/// candidate; no candidate after it is active or was used later; and every
/// candidate before it was used strictly earlier, unless an active candidate
/// stands between the two or at `i` itself.
pub open spec fn is_most_recent(panes: Seq<PaneView>, current: Seq<char>, i: int) -> bool {
    &&& is_candidate(panes, current, i)
    &&& forall|k: int|
        i < k && #[trigger] is_candidate(panes, current, k) ==> !panes[k].is_active
            && panes[k].last_used <= panes[i].last_used
    &&& forall|k: int|
        k < i && #[trigger] is_candidate(panes, current, k) ==> panes[k].last_used
            < panes[i].last_used || active_within(panes, current, k, i)
}

/// The first candidate is a candidate with none before it; there is none
/// exactly when the list holds no candidate.
pub proof fn first_other_is_first(panes: Seq<PaneView>, current: Seq<char>)
    ensures
        match first_other(panes, current) {
            Some(i) => is_candidate(panes, current, i) && forall|k: int|
                k < i ==> !is_candidate(panes, current, k),
            None => forall|k: int| !is_candidate(panes, current, k),
        },
    decreases panes.len(),
{
    if panes.len() > 0 {
        let front = panes.drop_last();
        first_other_is_first(front, current);
        assert(forall|k: int|
            k < panes.len() - 1 ==> is_candidate(front, current, k) == is_candidate(
                panes,
                current,
                k,
            ));
    }
}

/// What a scan leaves behind: where it found a pane, that pane meets
/// `is_most_recent` and the time kept is its own; where it found none, every
/// candidate is inactive and was last used at time 0.
proof fn lemma_scan(panes: Seq<PaneView>, current: Seq<char>)
    ensures
        ({
            let best = scan(panes, current);
            if best.found {
                is_most_recent(panes, current, best.index) && best.time
                    == panes[best.index].last_used
            } else {
                best.time == 0 && forall|k: int| #[trigger]
                    is_candidate(panes, current, k) ==> !panes[k].is_active && panes[k].last_used
                        == 0
            }
        }),
    decreases panes.len(),
{
    if panes.len() > 0 {
        let front = panes.drop_last();
        let last = panes.len() - 1;
        let before = scan(front, current);
        let best = scan(panes, current);
        lemma_scan(front, current);
        assert(forall|k: int|
            k < last ==> is_candidate(front, current, k) == is_candidate(panes, current, k));
        assert(forall|k: int| 0 <= k < last ==> front[k] == panes[k]);
        assert forall|k: int, hi: int|
            hi <= last && active_within(front, current, k, hi) implies active_within(
            panes,
            current,
            k,
            hi,
        ) by {
            let a = choose|a: int|
                k < a <= hi && #[trigger] is_candidate(front, current, a) && front[a].is_active;
            assert(is_candidate(panes, current, a) && panes[a].is_active);
        }
        if best.found && best.index == last && !(before.found && before.index == last) {
            assert forall|k: int| k < last && #[trigger] is_candidate(panes, current, k) implies
                panes[k].last_used < panes[last].last_used || active_within(
                panes,
                current,
                k,
                last,
            ) by {
                if panes[last].is_active {
                    assert(is_candidate(panes, current, last));
                } else if before.found {
                    assert(is_candidate(front, current, k));
                    if k < before.index && !(front[k].last_used < front[before.index].last_used) {
                        assert(active_within(front, current, k, before.index));
                        let a = choose|a: int|
                            k < a <= before.index && #[trigger] is_candidate(front, current, a)
                                && front[a].is_active;
                        assert(is_candidate(panes, current, a) && panes[a].is_active);
                    }
                } else {
                    assert(is_candidate(front, current, k));
                }
            }
        } else if best.found {
            assert(best == before);
            assert forall|k: int|
                best.index < k && #[trigger] is_candidate(panes, current, k) implies
                !panes[k].is_active && panes[k].last_used <= panes[best.index].last_used by {
                if k < last {
                    assert(is_candidate(front, current, k));
                }
            }
            assert forall|k: int|
                k < best.index && #[trigger] is_candidate(panes, current, k) implies
                panes[k].last_used < panes[best.index].last_used || active_within(
                panes,
                current,
                k,
                best.index,
            ) by {
                assert(is_candidate(front, current, k));
            }
        } else {
            assert forall|k: int| #[trigger] is_candidate(panes, current, k) implies
                !panes[k].is_active && panes[k].last_used == 0 by {
                if k < last {
                    assert(is_candidate(front, current, k));
                }
            }
        }
    }
}

/// At most one pane meets `is_most_recent`.
pub proof fn most_recent_is_unique(panes: Seq<PaneView>, current: Seq<char>, i: int, j: int)
    requires
        is_most_recent(panes, current, i),
        is_most_recent(panes, current, j),
    ensures
        i == j,
{
    if i < j {
        if active_within(panes, current, i, j) {
            let a = choose|a: int|
                i < a <= j && #[trigger] is_candidate(panes, current, a) && panes[a].is_active;
        }
    } else if j < i {
        if active_within(panes, current, j, i) {
            let a = choose|a: int|
                j < a <= i && #[trigger] is_candidate(panes, current, a) && panes[a].is_active;
        }
    }
}

/// The rule picks the pane at `i` exactly when that pane meets
/// `is_most_recent`.
pub proof fn most_recent_characterised(panes: Seq<PaneView>, current: Seq<char>, i: int)
    ensures
        most_recent(panes, current) == Some(i) <==> is_most_recent(panes, current, i),
{
    lemma_scan(panes, current);
    first_other_is_first(panes, current);
    match most_recent(panes, current) {
        Some(p) => {
            assert(is_most_recent(panes, current, p));
            if is_most_recent(panes, current, i) {
                most_recent_is_unique(panes, current, i, p);
            }
        },
        None => {},
    }
}

/// The rule picks a pane whenever the list holds a candidate, and none only
/// when every pane of the list is the caller's own.
pub proof fn most_recent_none_without_candidate(panes: Seq<PaneView>, current: Seq<char>)
    ensures
        most_recent(panes, current) is None <==> forall|k: int|
            0 <= k < panes.len() ==> (#[trigger] panes[k]).full_id() == current,
{
    lemma_scan(panes, current);
    first_other_is_first(panes, current);
    match most_recent(panes, current) {
        Some(p) => {
            most_recent_characterised(panes, current, p);
            assert(is_candidate(panes, current, p));
        },
        None => {
            assert forall|k: int| 0 <= k < panes.len() implies (#[trigger] panes[k]).full_id()
                == current by {
                assert(!is_candidate(panes, current, k));
            }
        },
    }
}

/// The caller's own pane is never picked: whatever the rule picks is a pane
/// of the list whose identifier differs from `current`.
pub proof fn most_recent_excludes_current(panes: Seq<PaneView>, current: Seq<char>)
    ensures
        most_recent(panes, current) matches Some(i) ==> 0 <= i < panes.len() && panes[i].full_id()
            != current,
{
    if let Some(i) = most_recent(panes, current) {
        most_recent_characterised(panes, current, i);
    }
}

/// Where no candidate is active and none was ever used, the rule falls back
/// on the first candidate in list order.
pub proof fn most_recent_falls_back_on_first(panes: Seq<PaneView>, current: Seq<char>)
    requires
        forall|k: int| #[trigger]
            is_candidate(panes, current, k) ==> !panes[k].is_active && panes[k].last_used == 0,
    ensures
        most_recent(panes, current) == first_other(panes, current),
{
    first_other_is_first(panes, current);
    match first_other(panes, current) {
        Some(i) => {
            assert(is_most_recent(panes, current, i));
            most_recent_characterised(panes, current, i);
        },
        None => {
            most_recent_excludes_current(panes, current);
            if let Some(i) = most_recent(panes, current) {
                assert(is_candidate(panes, current, i));
            }
        },
    }
}

/// Among inactive candidates the latest use wins, and of several panes with
/// that latest time the first in list order wins.
pub proof fn most_recent_tie_goes_to_first(panes: Seq<PaneView>, current: Seq<char>, i: int)
    requires
        most_recent(panes, current) == Some(i),
        forall|k: int| #[trigger] is_candidate(panes, current, k) ==> !panes[k].is_active,
    ensures
        forall|k: int| #[trigger]
            is_candidate(panes, current, k) ==> panes[k].last_used <= panes[i].last_used,
        forall|k: int|
            k < i && #[trigger] is_candidate(panes, current, k) ==> panes[k].last_used
                < panes[i].last_used,
{
    most_recent_characterised(panes, current, i);
    assert forall|k: int| k < i && #[trigger] is_candidate(panes, current, k) implies
        panes[k].last_used < panes[i].last_used by {
        if active_within(panes, current, k, i) {
            let a = choose|a: int|
                k < a <= i && #[trigger] is_candidate(panes, current, a) && panes[a].is_active;
        }
    }
}

/// An active candidate overrides every time of use before it: the pane
/// picked is never before an active candidate, and the active candidate is
/// itself picked where no later candidate is active or was used after it.
pub proof fn most_recent_active_overrides(panes: Seq<PaneView>, current: Seq<char>, a: int)
    requires
        is_candidate(panes, current, a),
        panes[a].is_active,
    ensures
        most_recent(panes, current) matches Some(i) && a <= i,
        (forall|k: int|
            a < k && #[trigger] is_candidate(panes, current, k) ==> !panes[k].is_active
                && panes[k].last_used <= panes[a].last_used) ==> most_recent(panes, current)
            == Some(a),
{
    most_recent_none_without_candidate(panes, current);
    let i = most_recent(panes, current)->0;
    most_recent_characterised(panes, current, i);
    most_recent_characterised(panes, current, a);
    if forall|k: int|
        a < k && #[trigger] is_candidate(panes, current, k) ==> !panes[k].is_active
            && panes[k].last_used <= panes[a].last_used {
        assert(is_most_recent(panes, current, a));
    }
}

} // verus!
