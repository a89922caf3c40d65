//! The calendar snapshot and the envelope it arrives in, with the
//! mathematical model that every contract of this crate is stated over.

use vstd::prelude::*;

verus! {

/// What a day is to the contracts: its date text, how much activity it
/// saw, and the colour category it was given.
pub struct DayModel {
    pub date: Seq<char>,
    pub count: nat,
    pub color: Seq<char>,
}

/// What a calendar is to the contracts: the total it carries and its weeks,
/// oldest first, each a run of days, oldest first.
pub struct CalendarModel {
    pub total: nat,
    pub weeks: Seq<Seq<DayModel>>,
}

/// The sum of the activity counts of some days.
pub open spec fn count_sum(days: Seq<DayModel>) -> nat
    decreases days.len(),
{
    if days.len() == 0 {
        0
    } else {
        count_sum(days.drop_last()) + days.last().count
    }
}

impl CalendarModel {
    /// Whether the calendar has the shape in which the service delivers it:
    /// every week holds between one and seven days, and the total is the
    /// sum of all counts. Nothing in this crate takes that for granted: a
    /// function that needs part of it asks for that part.
    pub open spec fn well_formed(self) -> bool {
        &&& forall|w: int|
            0 <= w < self.weeks.len() ==> 1 <= (#[trigger] self.weeks[w]).len() <= 7
        &&& self.total == count_sum(self.weeks.flatten())
    }
}

/// One day of the calendar.
#[derive(Debug, Clone)]
pub struct ContributionDay {
    pub _date: String,
    pub contribution_count: u32,
    pub color: String,
}

/// One column of the calendar: up to seven days, oldest first.
#[derive(Debug, Clone)]
pub struct Week {
    pub contribution_days: Vec<ContributionDay>,
}

/// The trailing year of activity, with the total reported alongside it.
#[derive(Debug, Clone)]
pub struct ContributionCalendar {
    pub total_contributions: u32,
    pub weeks: Vec<Week>,
}

#[derive(Debug)]
pub struct ContributionsCollection {
    pub contribution_calendar: ContributionCalendar,
}

#[derive(Debug)]
pub struct User {
    pub contributions_collection: ContributionsCollection,
}

#[derive(Debug)]
pub struct Data {
    pub user: User,
}

/// The whole answer of the remote service, as it is nested on the wire.
#[derive(Debug)]
pub struct GraphQLResponse {
    pub data: Data,
}

impl View for ContributionDay {
    type V = DayModel;

    open spec fn view(&self) -> DayModel {
        DayModel {
            date: self._date@,
            count: self.contribution_count as nat,
            color: self.color@,
        }
    }
}

impl View for Week {
    type V = Seq<DayModel>;

    open spec fn view(&self) -> Seq<DayModel> {
        self.contribution_days@.map_values(|day: ContributionDay| day@)
    }
}

/// The model of a run of weeks as they lie in memory.
pub open spec fn weeks_model(weeks: Seq<Week>) -> Seq<Seq<DayModel>> {
    weeks.map_values(|week: Week| week@)
}

impl View for ContributionCalendar {
    type V = CalendarModel;

    open spec fn view(&self) -> CalendarModel {
        CalendarModel {
            total: self.total_contributions as nat,
            weeks: weeks_model(self.weeks@),
        }
    }
}

impl View for ContributionsCollection {
    type V = CalendarModel;

    open spec fn view(&self) -> CalendarModel {
        self.contribution_calendar@
    }
}

impl View for User {
    type V = CalendarModel;

    open spec fn view(&self) -> CalendarModel {
        self.contributions_collection@
    }
}

impl View for Data {
    type V = CalendarModel;

    open spec fn view(&self) -> CalendarModel {
        self.user@
    }
}

impl View for GraphQLResponse {
    type V = CalendarModel;

    open spec fn view(&self) -> CalendarModel {
        self.data@
    }
}

impl GraphQLResponse {
    /// Unwraps the envelope and hands out the calendar it carries.
    pub fn into_calendar(self) -> (calendar: ContributionCalendar)
        ensures
            calendar == self.data.user.contributions_collection.contribution_calendar,
            calendar@ == self@,
    {
        self.data.user.contributions_collection.contribution_calendar
    }
}

} // verus!
