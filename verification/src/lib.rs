//! Statistics and a terminal heatmap for one year of daily activity counts.
//!
//! The crate takes a calendar that has already been fetched and decoded. It
//! computes today's count, the total and the current streak, renders the
//! calendar as a grid of coloured squares, and prepares the query and the
//! authorization header with which the calendar is asked for.

pub mod heatmap;
pub mod request;
pub mod stats;
pub mod structs;
pub mod summary;
pub mod text;

pub use heatmap::{github_color_to_ansi, push_square, square, week_squares, GRID_ROWS};
pub use request::{authorization_header, contributions_query, InvalidToken};
pub use stats::{get_contributions_for_today, get_streak, total_contributions};
pub use structs::{
    ContributionCalendar, ContributionDay, ContributionsCollection, Data, GraphQLResponse, User,
    Week,
};
pub use summary::contributions_and_streak;
