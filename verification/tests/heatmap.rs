use contrib::structs::{ContributionDay, Week};
use contrib::text::{push_decimal, str_eq};
use contrib::{get_streak, github_color_to_ansi, push_square, square, week_squares, GRID_ROWS};

fn colored(color: &str) -> ContributionDay {
    ContributionDay {
        _date: String::new(),
        contribution_count: 0,
        color: String::from(color),
    }
}

fn week_of(colors: &[&str]) -> Week {
    Week {
        contribution_days: colors.iter().map(|c| colored(c)).collect(),
    }
}

fn decimal_of(n: u32) -> String {
    let mut out = String::new();
    push_decimal(&mut out, n);
    out
}

#[test]
fn palette_maps_to_its_five_codes() {
    assert_eq!(github_color_to_ansi("#ebedf0"), 255);
    assert_eq!(github_color_to_ansi("#9be9a8"), 120);
    assert_eq!(github_color_to_ansi("#40c463"), 34);
    assert_eq!(github_color_to_ansi("#30a14e"), 28);
    assert_eq!(github_color_to_ansi("#216e39"), 22);
}

#[test]
fn palette_codes_are_distinct() {
    let codes = [
        github_color_to_ansi("#ebedf0"),
        github_color_to_ansi("#9be9a8"),
        github_color_to_ansi("#40c463"),
        github_color_to_ansi("#30a14e"),
        github_color_to_ansi("#216e39"),
    ];
    for i in 0..codes.len() {
        for j in 0..i {
            assert_ne!(codes[i], codes[j]);
        }
    }
}

#[test]
fn unknown_color_falls_back_to_the_lightest() {
    assert_eq!(github_color_to_ansi("#abcdef"), github_color_to_ansi("#ebedf0"));
    assert_eq!(github_color_to_ansi(""), 255);
    assert_eq!(github_color_to_ansi("#EBEDF0"), 255);
    assert_eq!(github_color_to_ansi("#40c46"), 255);
    assert_eq!(github_color_to_ansi("#40c4633"), 255);
    assert_eq!(github_color_to_ansi("40c463"), 255);
    assert_eq!(github_color_to_ansi("#40c463 "), 255);
    assert_eq!(github_color_to_ansi("\u{e9}"), 255);
}

#[test]
fn strings_compare_by_their_characters() {
    assert!(str_eq("", ""));
    assert!(str_eq("abc", "abc"));
    assert!(!str_eq("abc", "abd"));
    assert!(!str_eq("abc", "ab"));
    assert!(!str_eq("ab", "abc"));
    assert!(str_eq("h\u{e9}llo", "h\u{e9}llo"));
    assert!(!str_eq("h\u{e9}llo", "h\u{e8}llo"));
}

#[test]
fn numbers_are_written_in_decimal() {
    assert_eq!(decimal_of(0), "0");
    assert_eq!(decimal_of(7), "7");
    assert_eq!(decimal_of(10), "10");
    assert_eq!(decimal_of(255), "255");
    assert_eq!(decimal_of(1009), "1009");
    assert_eq!(decimal_of(1234567890), "1234567890");
    assert_eq!(decimal_of(u32::MAX), "4294967295");
}

#[test]
fn decimal_is_appended_to_what_is_there() {
    let mut out = String::from("n=");
    push_decimal(&mut out, 42);
    assert_eq!(out, "n=42");
}

#[test]
fn square_is_a_colored_pair_of_spaces() {
    assert_eq!(square(255), "\x1b[48;5;255m  \x1b[0m");
    assert_eq!(square(34), "\x1b[48;5;34m  \x1b[0m");
    assert_eq!(square(0), "\x1b[48;5;0m  \x1b[0m");
    let mut out = String::from("  ");
    push_square(&mut out, 22);
    assert_eq!(out, "  \x1b[48;5;22m  \x1b[0m");
}

#[test]
fn two_idle_weeks_render_seven_rows_of_two_fallback_squares() {
    let week = ["#ebedf0"; 7];
    let weeks = vec![week_of(&week), week_of(&week)];
    assert_eq!(get_streak(&weeks), 0);
    let text = week_squares(&weeks);
    let row = format!("{}{}\n", square(255), square(255));
    assert_eq!(text, row.repeat(7));
    assert_eq!(text.lines().count(), 7);
    for line in text.lines() {
        assert_eq!(line.matches("\x1b[48;5;255m  \x1b[0m").count(), 2);
    }
}

#[test]
fn grid_has_seven_rows_and_a_column_for_each_week() {
    assert_eq!(GRID_ROWS, 7);
    for n in 0..5usize {
        let weeks: Vec<Week> = (0..n).map(|_| week_of(&["#9be9a8"; 7])).collect();
        let text = week_squares(&weeks);
        assert_eq!(text.matches('\n').count(), 7);
        assert!(text.ends_with('\n'));
        for line in text.split_terminator('\n') {
            assert_eq!(line.matches("\x1b[0m").count(), n);
        }
    }
}

#[test]
fn empty_calendar_renders_seven_empty_rows() {
    let weeks: Vec<Week> = Vec::new();
    assert_eq!(week_squares(&weeks), "\n\n\n\n\n\n\n");
}

#[test]
fn partial_weeks_are_padded_with_blanks() {
    let weeks = vec![
        week_of(&["#216e39", "#30a14e"]),
        week_of(&["#40c463", "#9be9a8", "#ebedf0", "#123456", "#40c463", "#40c463", "#40c463"]),
        week_of(&["#9be9a8"]),
    ];
    let text = week_squares(&weeks);
    let mut expected = String::new();
    expected += &format!("{}{}{}\n", square(22), square(34), square(120));
    expected += &format!("{}{}  \n", square(28), square(120));
    expected += &format!("  {}  \n", square(255));
    expected += &format!("  {}  \n", square(255));
    expected += &format!("  {}  \n", square(34));
    expected += &format!("  {}  \n", square(34));
    expected += &format!("  {}  \n", square(34));
    assert_eq!(text, expected);
}

#[test]
fn days_beyond_the_seventh_are_not_shown() {
    let weeks = vec![week_of(&["#216e39"; 9])];
    let text = week_squares(&weeks);
    assert_eq!(text, format!("{}\n", square(22)).repeat(7));
}

#[test]
fn a_week_without_days_is_a_blank_column() {
    let weeks = vec![week_of(&[]), week_of(&["#30a14e"])];
    let text = week_squares(&weeks);
    let mut expected = format!("  {}\n", square(28));
    expected += &"    \n".repeat(6);
    assert_eq!(text, expected);
}
