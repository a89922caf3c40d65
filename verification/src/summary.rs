//! The three lines of statistics that go under the heatmap.

use vstd::prelude::*;
use vstd::string::*;
use crate::stats::{all_days, current_streak, get_contributions_for_today, get_streak, total_contributions};
use crate::structs::{CalendarModel, ContributionCalendar};
use crate::text::{decimal, push_decimal};

verus! {

/// The line that reports the activity count of the last day.
pub open spec fn today_line(count: nat) -> Seq<char> {
    "Contributions for today: "@ + decimal(count)
}

/// The line that reports the total of the year.
pub open spec fn total_line(total: nat) -> Seq<char> {
    "Total contributions in the last year: "@ + decimal(total)
}

/// The line that reports the current streak.
pub open spec fn streak_line(streak: nat) -> Seq<char> {
    "Current streak: "@ + decimal(streak) + " days"@
}

/// The statistics of a calendar, one line each and without line breaks:
/// the count of its last day, the total it carries, and its streak.
pub open spec fn summary_lines(calendar: CalendarModel) -> Seq<Seq<char>> {
    seq![
        today_line(all_days(calendar.weeks).last().count),
        total_line(calendar.total),
        streak_line(current_streak(all_days(calendar.weeks))),
    ]
}

/// The statistics of a calendar as text, in the order in which they are
/// shown: today's count, the total of the year, the current streak.
pub fn contributions_and_streak(contribution_calendar: &ContributionCalendar) -> (lines: Vec<String>)
    requires
        contribution_calendar.weeks@.len() > 0,
        contribution_calendar.weeks@.last()@.len() > 0,
        current_streak(all_days(contribution_calendar@.weeks)) <= u32::MAX,
    ensures
        lines@.len() == 3,
        forall|i: int| 0 <= i < 3 ==> (#[trigger] lines@[i])@ == summary_lines(contribution_calendar@)[i],
{
    let today = get_contributions_for_today(contribution_calendar.weeks.as_slice());
    let total = total_contributions(contribution_calendar);
    let streak = get_streak(contribution_calendar.weeks.as_slice());

    let mut today_text = String::from_str("Contributions for today: ");
    push_decimal(&mut today_text, today);
    let mut total_text = String::from_str("Total contributions in the last year: ");
    push_decimal(&mut total_text, total);
    let mut streak_text = String::from_str("Current streak: ");
    push_decimal(&mut streak_text, streak);
    streak_text.append(" days");

    let mut lines: Vec<String> = Vec::new();
    lines.push(today_text);
    lines.push(total_text);
    lines.push(streak_text);
    lines
}

} // verus!
