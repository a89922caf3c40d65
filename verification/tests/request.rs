use contrib::structs::{ContributionCalendar, ContributionDay, Week};
use contrib::{authorization_header, contributions_and_streak, contributions_query, InvalidToken};

#[test]
fn query_names_the_user() {
    let query = contributions_query("octocat");
    let expected = "\n        {\n          user(login: \"octocat\") {\n            contributionsCollection {\n              contributionCalendar {\n                totalContributions\n                weeks {\n                  contributionDays {\n                    date\n                    contributionCount\n                    color\n                  }\n                }\n              }\n            }\n          }\n        }\n        ";
    assert_eq!(query, expected);
}

#[test]
fn query_asks_for_every_field() {
    let query = contributions_query("someone");
    for field in [
        "contributionsCollection",
        "contributionCalendar",
        "totalContributions",
        "weeks",
        "contributionDays",
        "date",
        "contributionCount",
        "color",
    ] {
        assert!(query.contains(field));
    }
    assert_eq!(query.matches('{').count(), query.matches('}').count());
}

#[test]
fn query_takes_the_name_as_it_is() {
    let empty = contributions_query("");
    assert!(empty.contains("user(login: \"\")"));
    let odd = contributions_query("a b\u{e9}");
    assert!(odd.contains("user(login: \"a b\u{e9}\")"));
    assert_eq!(odd.len(), empty.len() + "a b\u{e9}".len());
}

#[test]
fn token_becomes_a_bearer_header() {
    let header = authorization_header("ghp_abc123").unwrap();
    assert_eq!(header.as_bytes(), b"bearer ghp_abc123");
    let empty = authorization_header("").unwrap();
    assert_eq!(empty.as_bytes(), b"bearer ");
}

#[test]
fn token_may_hold_tabs_and_other_scripts() {
    let header = authorization_header("a\tb").unwrap();
    assert_eq!(header.as_bytes(), b"bearer a\tb");
    let header = authorization_header("cl\u{e9}").unwrap();
    assert_eq!(header.as_bytes(), "bearer cl\u{e9}".as_bytes());
}

#[test]
fn token_with_a_control_character_is_refused() {
    assert_eq!(authorization_header("abc\n").err(), Some(InvalidToken));
    assert_eq!(authorization_header("a\rb").err(), Some(InvalidToken));
    assert_eq!(authorization_header("\u{0}").err(), Some(InvalidToken));
    assert_eq!(authorization_header("a\u{7f}").err(), Some(InvalidToken));
    assert_eq!(authorization_header("\u{1f}x").err(), Some(InvalidToken));
    assert!(authorization_header(" ").is_ok());
    assert!(authorization_header("~").is_ok());
    assert!(authorization_header("\u{80}").is_ok());
}

fn calendar(total: u32, weeks: &[&[u32]]) -> ContributionCalendar {
    ContributionCalendar {
        total_contributions: total,
        weeks: weeks
            .iter()
            .map(|days| Week {
                contribution_days: days
                    .iter()
                    .map(|&c| ContributionDay {
                        _date: String::new(),
                        contribution_count: c,
                        color: String::from("#ebedf0"),
                    })
                    .collect(),
            })
            .collect(),
    }
}

#[test]
fn summary_has_three_lines() {
    let lines = contributions_and_streak(&calendar(412, &[&[0, 1, 0, 2, 2, 2, 2], &[5, 3]]));
    assert_eq!(
        lines,
        vec![
            String::from("Contributions for today: 3"),
            String::from("Total contributions in the last year: 412"),
            String::from("Current streak: 6 days"),
        ]
    );
}

#[test]
fn summary_of_an_idle_year() {
    let lines = contributions_and_streak(&calendar(0, &[&[0, 0, 0, 0, 0, 0, 0], &[0]]));
    assert_eq!(lines.len(), 3);
    assert_eq!(lines[0], "Contributions for today: 0");
    assert_eq!(lines[1], "Total contributions in the last year: 0");
    assert_eq!(lines[2], "Current streak: 0 days");
}

#[test]
fn summary_reports_the_carried_total() {
    let lines = contributions_and_streak(&calendar(4294967295, &[&[1, 1]]));
    assert_eq!(lines[0], "Contributions for today: 1");
    assert_eq!(lines[1], "Total contributions in the last year: 4294967295");
    assert_eq!(lines[2], "Current streak: 2 days");
}
