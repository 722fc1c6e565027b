use fortune_deck::reading::{build_prompt, format_reading};

#[test]
fn format_reading_joins_lines_with_newlines() {
    let lines = vec![String::from("first line"), String::from("second line")];
    assert_eq!(format_reading(&lines), "first line\nsecond line");
}

#[test]
fn format_reading_of_nothing_is_empty() {
    let lines: Vec<String> = Vec::new();
    assert_eq!(format_reading(&lines), "");
}

#[test]
fn format_reading_trims_trailing_whitespace() {
    let lines = vec![String::from("kept  inner"), String::from("tail   ")];
    assert_eq!(format_reading(&lines), "kept  inner\ntail");
    let blank = vec![String::from("   "), String::from("\t")];
    assert_eq!(format_reading(&blank), "");
}

#[test]
fn format_reading_keeps_leading_whitespace() {
    let lines = vec![String::from("  indented"), String::from("plain")];
    assert_eq!(format_reading(&lines), "  indented\nplain");
}

#[test]
fn build_prompt_follows_the_template() {
    let p = build_prompt("alpha", "beta", "gamma");
    assert_eq!(
        p,
        "write fortune teller for these keywords the past: 'alpha', \
         the present: 'beta' and the future: 'gamma'"
    );
}
