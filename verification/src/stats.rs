//! Statistics over a calendar: today's count, the carried total, and the
//! run of active days that ends today.

use vstd::prelude::*;
use crate::structs::{
    weeks_model, CalendarModel, ContributionCalendar, ContributionDay, DayModel, Week,
};

verus! {

/// All days of a run of weeks, in chronological order.
pub open spec fn all_days(weeks: Seq<Seq<DayModel>>) -> Seq<DayModel> {
    weeks.flatten()
}

/// Whether `k` is the length of the streak that ends with the last day of
/// `days`: the last `k` days all saw activity, and the day just before
/// them, where there is one, saw none.
pub open spec fn is_streak(days: Seq<DayModel>, k: nat) -> bool {
    &&& k <= days.len()
    &&& forall|i: int| days.len() - k <= i < days.len() ==> (#[trigger] days[i]).count > 0
    &&& k < days.len() ==> days[days.len() - k - 1].count == 0
}

/// The number of consecutive days with activity at the end of `days`.
pub open spec fn current_streak(days: Seq<DayModel>) -> nat
    decreases days.len(),
{
    if days.len() == 0 || days.last().count == 0 {
        0
    } else {
        1 + current_streak(days.drop_last())
    }
}

/// `current_streak` is a streak in the sense of `is_streak`.
pub proof fn lemma_current_streak_is_streak(days: Seq<DayModel>)
    ensures
        is_streak(days, current_streak(days)),
    decreases days.len(),
{
    if days.len() == 0 || days.last().count == 0 {
    } else {
        let rest = days.drop_last();
        lemma_current_streak_is_streak(rest);
        let k = current_streak(rest);
        assert forall|i: int| days.len() - (k + 1) <= i < days.len() implies (#[trigger] days[i]).count > 0 by {
            if i < days.len() - 1 {
                assert(rest[i] == days[i]);
            }
        }
        if k + 1 < days.len() {
            assert(rest[rest.len() - k - 1] == days[days.len() - (k + 1) - 1]);
        }
    }
}

/// A sequence of days has one streak length only.
pub proof fn lemma_streak_unique(days: Seq<DayModel>, j: nat, k: nat)
    requires
        is_streak(days, j),
        is_streak(days, k),
    ensures
        j == k,
{
    if j < k {
        assert(days[days.len() - j - 1].count > 0);
    } else if k < j {
        assert(days[days.len() - k - 1].count > 0);
    }
}

/// When the last `k` days all saw activity and the day just before them,
/// if there is one, saw none, the streak is exactly `k`. This holds in
/// particular when no earlier day saw any activity at all.
pub proof fn lemma_streak_of_active_tail(days: Seq<DayModel>, k: nat)
    requires
        is_streak(days, k),
    ensures
        current_streak(days) == k,
{
    lemma_current_streak_is_streak(days);
    lemma_streak_unique(days, current_streak(days), k);
}

/// A calendar in which no day saw activity has a streak of zero.
pub proof fn lemma_streak_of_idle_calendar(weeks: Seq<Seq<DayModel>>)
    requires
        forall|w: int, d: int|
            0 <= w < weeks.len() && 0 <= d < weeks[w].len() ==> (#[trigger] weeks[w][d]).count == 0,
    ensures
        current_streak(all_days(weeks)) == 0,
{
    let days = all_days(weeks);
    if days.len() > 0 {
        lemma_flatten_index(weeks, days.len() - 1);
    }
}

/// Every day of the flattened calendar is a day of one of its weeks.
pub proof fn lemma_flatten_index(weeks: Seq<Seq<DayModel>>, i: int)
    requires
        0 <= i < all_days(weeks).len(),
    ensures
        exists|w: int, d: int|
            0 <= w < weeks.len() && 0 <= d < weeks[w].len() && all_days(weeks)[i] == #[trigger] weeks[w][d],
    decreases weeks.len(),
{
    if weeks.len() > 0 {
        let first = weeks.first();
        let rest = weeks.drop_first();
        if i < first.len() {
            assert(all_days(weeks)[i] == weeks[0][i]);
        } else {
            lemma_flatten_index(rest, i - first.len());
            let (w, d) = choose|w: int, d: int|
                0 <= w < rest.len() && 0 <= d < rest[w].len() && all_days(rest)[i - first.len()] == #[trigger] rest[w][d];
            assert(rest[w] == weeks[w + 1]);
            assert(all_days(weeks)[i] == weeks[w + 1][d]);
        }
    }
}

/// Days with activity at the end of a sequence extend the streak of what
/// comes before them, one for one.
pub proof fn lemma_streak_append_active(front: Seq<DayModel>, tail: Seq<DayModel>)
    requires
        forall|i: int| 0 <= i < tail.len() ==> (#[trigger] tail[i]).count > 0,
    ensures
        current_streak(front + tail) == current_streak(front) + tail.len(),
    decreases tail.len(),
{
    if tail.len() == 0 {
        assert(front + tail =~= front);
    } else {
        let whole = front + tail;
        assert(whole.last() == tail.last());
        assert(whole.drop_last() =~= front + tail.drop_last());
        lemma_streak_append_active(front, tail.drop_last());
    }
}

/// The streak is never longer than the calendar.
pub proof fn lemma_streak_bounded(days: Seq<DayModel>)
    ensures
        current_streak(days) <= days.len(),
{
    lemma_current_streak_is_streak(days);
}

/// A well-formed calendar of at least one week ends in a day, and it has
/// at most seven days for each of its weeks, which bounds its streak.
pub proof fn lemma_well_formed_calendar(calendar: CalendarModel)
    requires
        calendar.well_formed(),
    ensures
        calendar.weeks.len() > 0 ==> calendar.weeks.last().len() > 0,
        all_days(calendar.weeks).len() <= 7 * calendar.weeks.len(),
        current_streak(all_days(calendar.weeks)) <= 7 * calendar.weeks.len(),
{
    let weeks = calendar.weeks;
    weeks.lemma_flatten_and_flatten_alt_are_equivalent();
    weeks.lemma_flatten_length_le_mul(7);
    lemma_streak_bounded(all_days(weeks));
}

/// The days of the first `w + 1` weeks are those of the first `w` weeks
/// followed by those of week `w`.
proof fn lemma_days_take_next(weeks: Seq<Seq<DayModel>>, w: int)
    requires
        0 <= w < weeks.len(),
    ensures
        all_days(weeks.take(w + 1)) == all_days(weeks.take(w)) + weeks[w],
{
    assert(weeks.take(w + 1) =~= weeks.take(w).push(weeks[w]));
    weeks.take(w).lemma_flatten_push(weeks[w]);
}

/// The activity count of the chronologically last day.
pub fn get_contributions_for_today(weeks: &[Week]) -> (today: u32)
    requires
        weeks@.len() > 0,
        weeks@.last()@.len() > 0,
    ensures
        today == weeks_model(weeks@).last().last().count,
        today == all_days(weeks_model(weeks@)).last().count,
{
    let week = &weeks[weeks.len() - 1];
    let day = &week.contribution_days[week.contribution_days.len() - 1];
    proof {
        let model = weeks_model(weeks@);
        let w = model.len() - 1;
        assert(model.take(w + 1) =~= model);
        lemma_days_take_next(model, w);
        assert(model[w] == week@);
    }
    day.contribution_count
}

/// The total that the calendar carries, as it was reported, whatever its
/// days add up to.
pub fn total_contributions(calendar: &ContributionCalendar) -> (total: u32)
    ensures
        total == calendar@.total,
        total == calendar.total_contributions,
{
    calendar.total_contributions
}

/// The number of consecutive days with activity, counted back from the
/// last day of the last week and across week boundaries. It is zero when
/// the last day saw no activity and when there are no days at all.
pub fn get_streak(weeks: &[Week]) -> (streak: u32)
    requires
        current_streak(all_days(weeks_model(weeks@))) <= u32::MAX,
    ensures
        streak == current_streak(all_days(weeks_model(weeks@))),
        is_streak(all_days(weeks_model(weeks@)), streak as nat),
{
    let ghost model = weeks_model(weeks@);
    let ghost flat = all_days(model);
    let ghost mut tail: Seq<DayModel> = Seq::empty();
    let mut streak: u32 = 0;
    let mut w: usize = weeks.len();
    proof {
        assert(model.take(w as int) =~= model);
        assert(flat + tail =~= flat);
        lemma_current_streak_is_streak(flat);
    }
    while w > 0
        invariant
            model == weeks_model(weeks@),
            flat == all_days(model),
            w <= weeks@.len(),
            flat == all_days(model.take(w as int)) + tail,
            forall|i: int| 0 <= i < tail.len() ==> (#[trigger] tail[i]).count > 0,
            streak == tail.len(),
            current_streak(flat) <= u32::MAX,
        decreases w,
    {
        w -= 1;
        let days = &weeks[w].contribution_days;
        let mut d: usize = days.len();
        proof {
            lemma_days_take_next(model, w as int);
            assert(model[w as int] == days@.map_values(|day: ContributionDay| day@));
            assert(model[w as int].take(d as int) =~= model[w as int]);
        }
        while d > 0
            invariant
                model == weeks_model(weeks@),
                flat == all_days(model),
                w < weeks@.len(),
                days == &weeks@[w as int].contribution_days,
                d <= days@.len(),
                flat == all_days(model.take(w as int)) + model[w as int].take(d as int) + tail,
                forall|i: int| 0 <= i < tail.len() ==> (#[trigger] tail[i]).count > 0,
                streak == tail.len(),
                current_streak(flat) <= u32::MAX,
            decreases d,
        {
            d -= 1;
            let ghost front = all_days(model.take(w as int)) + model[w as int].take(d as int + 1);
            proof {
                assert(model[w as int] == days@.map_values(|day: ContributionDay| day@));
                assert(front.last() == days@[d as int]@);
                assert(flat == front + tail);
                lemma_streak_append_active(front, tail);
            }
            if days[d].contribution_count > 0 {
                proof {
                    let longer = seq![days@[d as int]@] + tail;
                    let shorter = all_days(model.take(w as int)) + model[w as int].take(d as int);
                    assert(front.drop_last() =~= shorter);
                    assert(flat =~= shorter + longer);
                    tail = longer;
                }
                streak += 1;
            } else {
                proof {
                    lemma_current_streak_is_streak(flat);
                }
                return streak;
            }
        }
        proof {
            assert(model[w as int].take(0) =~= Seq::<DayModel>::empty());
            assert(all_days(model.take(w as int)) + model[w as int].take(0) =~= all_days(model.take(w as int)));
        }
    }
    proof {
        assert(model.take(0) =~= Seq::<Seq<DayModel>>::empty());
        assert(flat =~= tail);
        lemma_streak_append_active(Seq::empty(), tail);
        assert(Seq::<DayModel>::empty() + tail =~= tail);
        lemma_current_streak_is_streak(flat);
    }
    streak
}

} // verus!
