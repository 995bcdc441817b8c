//! The engagement streak: how many calendar days in a row, ending today or
//! yesterday, have at least one entry.

use vstd::prelude::*;
use crate::clock::{day_number, day_of};
use crate::entry::EntryView;
use crate::metrics::{metrics_mut, MetricsSlot, MetricsView};
use crate::queries::lemma_created_at_ascends;
use crate::store::Database;

verus! {

/// Some entry of `s` was created on day `d`.
pub open spec fn has_entry_on(s: Seq<EntryView>, d: int) -> bool {
    exists|i: int| 0 <= i < s.len() && day_of((#[trigger] s[i]).created_at) == d
}

/// Some entry of `s` was created on a day after `d`.
pub open spec fn has_entry_after(s: Seq<EntryView>, d: int) -> bool {
    exists|i: int| 0 <= i < s.len() && day_of((#[trigger] s[i]).created_at) > d
}

/// The day on which the streak ends: today if the newest entry is of today,
/// yesterday if it is of yesterday, and none otherwise.
pub open spec fn streak_anchor(s: Seq<EntryView>, today: int) -> Option<int> {
    if has_entry_after(s, today) {
        None
    } else if has_entry_on(s, today) {
        Some(today)
    } else if has_entry_on(s, today - 1) {
        Some(today - 1)
    } else {
        None
    }
}

/// `k` is the streak of `s` as of `today`: zero without an anchor, else the
/// number of days in a row, counted back from the anchor, that have an
/// entry.
pub open spec fn is_streak(s: Seq<EntryView>, today: int, k: int) -> bool {
    match streak_anchor(s, today) {
        None => k == 0,
        Some(a) => {
            &&& k >= 1
            &&& forall|d: int| a - k < d <= a ==> #[trigger] has_entry_on(s, d)
            &&& !has_entry_on(s, a - k)
        },
    }
}

/// The streak of `s` as of `today`.
pub open spec fn streak_of(s: Seq<EntryView>, today: int) -> int {
    choose|k: int| is_streak(s, today, k)
}

/// The number of entries as the gauge shows it: held at the largest value
/// of the gauge.
pub open spec fn entries_gauge(n: nat) -> i64 {
    if n > i64::MAX {
        i64::MAX
    } else {
        n as i64
    }
}

/// What the metrics in a slot become when the gauges are set from the store
/// `s` as of `today`. An empty slot stays empty.
pub open spec fn with_gauges(m: Option<MetricsView>, s: Seq<EntryView>, today: int) -> Option<
    MetricsView,
> {
    match m {
        Some(v) => Some(
            MetricsView {
                total_entries: entries_gauge(s.len()),
                current_streak: streak_of(s, today) as i64,
                ..v
            },
        ),
        None => None,
    }
}

/// A store has one streak as of a given day.
pub proof fn lemma_streak_is_unique(s: Seq<EntryView>, today: int, k1: int, k2: int)
    requires
        is_streak(s, today, k1),
        is_streak(s, today, k2),
    ensures
        k1 == k2,
{
    match streak_anchor(s, today) {
        None => {},
        Some(a) => {
            if k1 < k2 {
                assert(has_entry_on(s, a - k1));
            } else if k2 < k1 {
                assert(has_entry_on(s, a - k2));
            }
        },
    }
}

impl Database {
    /// The streak as of instant `now`.
    pub fn calculate_current_streak(&self, now: i64) -> (k: i64)
        requires
            self.wf(),
        ensures
            is_streak(self@, day_of(now as int), k as int),
            k == streak_of(self@, day_of(now as int)),
            0 <= k <= self@.len(),
    {
        let k = self.walk_streak(now);
        proof {
            lemma_streak_is_unique(
                self@,
                day_of(now as int),
                k as int,
                streak_of(self@, day_of(now as int)),
            );
        }
        k
    }

    /// Walks the entries from the newest and counts the days in a row.
    fn walk_streak(&self, now: i64) -> (k: i64)
        requires
            self.wf(),
        ensures
            is_streak(self@, day_of(now as int), k as int),
            0 <= k <= self@.len(),
    {
        let n = self.len();
        let today = day_number(now);
        let ghost s = self@;
        if n == 0 {
            return 0;
        }
        let newest = day_number(self.entry(n - 1).created_at);
        proof {
            assert forall|i: int| 0 <= i < s.len() implies day_of((#[trigger] s[i]).created_at)
                <= newest by {
                lemma_created_at_ascends(s, i, n - 1);
            }
            assert(day_of(s[n - 1].created_at) == newest);
        }
        if newest != today && newest != today - 1 {
            return 0;
        }
        let mut k: i64 = 0;
        let mut expected: i64 = newest;
        let mut i: usize = n;
        let mut walking = true;
        while walking && i > 0
            invariant
                self.wf(),
                s == self@,
                n == s.len(),
                i <= n,
                0 <= k <= n - i,
                expected == newest - k,
                -1 <= expected,
                newest == day_of(s[n - 1].created_at),
                i == n ==> k == 0 && walking,
                i < n ==> k >= 1,
                forall|d: int| expected < d <= newest ==> #[trigger] has_entry_on(s, d),
                forall|j: int| i <= j < n ==> day_of((#[trigger] s[j]).created_at) > expected,
                !walking ==> i > 0 && day_of(s[i - 1].created_at) < expected,
            decreases i + if walking { 1nat } else { 0nat },
        {
            let d = day_number(self.entry(i - 1).created_at);
            if d == expected {
                proof {
                    assert(day_of(s[i - 1].created_at) == expected);
                    assert(has_entry_on(s, expected as int));
                }
                k = k + 1;
                expected = expected - 1;
                i = i - 1;
            } else if d > expected {
                i = i - 1;
            } else {
                walking = false;
            }
        }
        proof {
            if has_entry_on(s, expected as int) {
                let j = choose|j: int| 0 <= j < s.len() && day_of((#[trigger] s[j]).created_at)
                    == expected;
                if j < i {
                    lemma_created_at_ascends(s, j, i - 1);
                }
            }
            assert(!has_entry_after(s, day_of(now as int)));
            assert(has_entry_on(s, newest as int));
            if newest == today - 1 {
                assert(!has_entry_on(s, today as int));
            }
            assert(streak_anchor(s, day_of(now as int)) == Some(newest as int));
        }
        k
    }

    /// Sets the gauges of the number of entries and of the streak as of
    /// instant `now`. Nothing happens where the metrics were never set up.
    pub fn update_metrics(&self, now: i64, slot: &mut MetricsSlot)
        requires
            old(slot).wf(),
            self.wf(),
        ensures
            final(slot).wf(),
            final(slot).state() == with_gauges(old(slot).state(), self@, day_of(now as int)),
    {
        let n = self.len();
        let total: i64 = if n as u64 > i64::MAX as u64 {
            i64::MAX
        } else {
            n as i64
        };
        let streak = self.calculate_current_streak(now);
        match metrics_mut(slot) {
            Some(m) => {
                m.update_total_entries(total);
                m.update_streak(streak);
            },
            None => {},
        }
    }

}

} // verus!
