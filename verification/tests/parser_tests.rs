use branchkit::errors::ParseError;
use branchkit::parser::parse_branch_listing;
use branchkit::parser::parse_local_branches;
use branchkit::parser::parse_remote_head;
use branchkit::timestamp::Timestamp;

fn ts(year: u32, month: u32, day: u32, hour: u32, minute: u32, second: u32) -> Timestamp {
    Timestamp { year, month, day, hour, minute, second }
}

#[test]
fn parses_listing_in_order() {
    let raw = "'{\"name\": \"dev\", \"committerdate\": \"2024-04-30 09:15:27 +0900\"}'\n'{\"name\": \"main\", \"committerdate\": \"2024-05-01 10:00:00 +0900\"}'\n";
    let records = parse_branch_listing(raw).unwrap();
    assert_eq!(records.len(), 2);
    assert_eq!(records[0].name, "dev");
    assert_eq!(records[0].committer_timestamp, ts(2024, 4, 30, 9, 15, 27));
    assert_eq!(records[1].name, "main");
    assert_eq!(records[1].committer_timestamp, ts(2024, 5, 1, 10, 0, 0));
}

#[test]
fn parses_line_without_quote_wrapping() {
    let raw = "{\"name\": \"main\", \"committerdate\": \"2024-05-01 10:00:00 -0130\"}\n";
    let records = parse_branch_listing(raw).unwrap();
    assert_eq!(records.len(), 1);
    assert_eq!(records[0].name, "main");
    assert_eq!(records[0].committer_timestamp, ts(2024, 5, 1, 10, 0, 0));
}

#[test]
fn empty_listing_gives_no_records() {
    let records = parse_branch_listing("").unwrap();
    assert_eq!(records.len(), 0);
}

#[test]
fn missing_committerdate_field_is_fatal() {
    let raw = "'{\"name\": \"main\"}'\n";
    let err = parse_branch_listing(raw).unwrap_err();
    assert_eq!(err, ParseError::MalformedRecord { line: 1 });
}

#[test]
fn bad_timestamp_format_is_fatal() {
    // Well-formed structure, but the timestamp lacks the UTC offset.
    let raw = "'{\"name\": \"main\", \"committerdate\": \"2024-05-01T10:00:00+09:00\"}'\n";
    let err = parse_branch_listing(raw).unwrap_err();
    assert!(matches!(
        err,
        ParseError::MalformedRecord { line: 1 } | ParseError::MalformedTimestamp { line: 1 }
    ));
}

#[test]
fn out_of_range_timestamp_is_fatal() {
    // February 30th does not exist.
    let raw = "'{\"name\": \"main\", \"committerdate\": \"2024-02-30 10:00:00 +0900\"}'\n";
    let err = parse_branch_listing(raw).unwrap_err();
    assert_eq!(err, ParseError::MalformedTimestamp { line: 1 });
}

#[test]
fn leap_day_is_accepted() {
    let raw = "'{\"name\": \"main\", \"committerdate\": \"2024-02-29 23:59:59 +0000\"}'\n";
    let records = parse_branch_listing(raw).unwrap();
    assert_eq!(records[0].committer_timestamp, ts(2024, 2, 29, 23, 59, 59));
}

#[test]
fn non_leap_year_february_29_is_rejected() {
    let raw = "'{\"name\": \"main\", \"committerdate\": \"2023-02-29 10:00:00 +0000\"}'\n";
    let err = parse_branch_listing(raw).unwrap_err();
    assert_eq!(err, ParseError::MalformedTimestamp { line: 1 });
}

#[test]
fn one_bad_line_fails_the_whole_listing() {
    let raw = "'{\"name\": \"good\", \"committerdate\": \"2024-05-01 10:00:00 +0900\"}'\nnot a record\n";
    let err = parse_branch_listing(raw).unwrap_err();
    assert_eq!(err, ParseError::MalformedRecord { line: 2 });
}

#[test]
fn out_of_range_offset_is_fatal() {
    let raw = "'{\"name\": \"main\", \"committerdate\": \"2024-05-01 10:00:00 +2500\"}'\n";
    let err = parse_branch_listing(raw).unwrap_err();
    assert_eq!(err, ParseError::MalformedTimestamp { line: 1 });
}

#[test]
fn hour_of_twenty_four_is_fatal() {
    let raw = "'{\"name\": \"main\", \"committerdate\": \"2024-05-01 24:00:00 +0900\"}'\n";
    let err = parse_branch_listing(raw).unwrap_err();
    assert_eq!(err, ParseError::MalformedTimestamp { line: 1 });
}

#[test]
fn unmatched_quote_wrapping_is_fatal() {
    // A leading quote without its closing partner is part of the line, and
    // the line then fails the structure check.
    let raw = "'{\"name\": \"main\", \"committerdate\": \"2024-05-01 10:00:00 +0900\"}\n";
    let err = parse_branch_listing(raw).unwrap_err();
    assert_eq!(err, ParseError::MalformedRecord { line: 1 });
}

#[test]
fn quote_inside_branch_name_is_fatal() {
    let raw = "'{\"name\": \"ma\"in\", \"committerdate\": \"2024-05-01 10:00:00 +0900\"}'\n";
    let err = parse_branch_listing(raw).unwrap_err();
    assert_eq!(err, ParseError::MalformedRecord { line: 1 });
}

#[test]
fn flat_listing_strips_marker_prefix() {
    let names = parse_local_branches("* main\n  dev\n").unwrap();
    assert_eq!(names, vec!["main".to_string(), "dev".to_string()]);
}

#[test]
fn flat_listing_rejects_short_line() {
    let err = parse_local_branches("* main\n*\n").unwrap_err();
    assert_eq!(err, ParseError::ShortLine { line: 2 });
}

#[test]
fn flat_listing_of_empty_output_is_empty() {
    let names = parse_local_branches("").unwrap();
    assert_eq!(names.len(), 0);
}

#[test]
fn remote_head_takes_second_field_of_first_line() {
    let raw = "0abc\trefs/heads/release/20240501.3\n1def\trefs/heads/release/20240501.2\n";
    let head = parse_remote_head(raw);
    assert_eq!(head, Some("refs/heads/release/20240501.3".to_string()));
}

#[test]
fn remote_head_without_tab_is_absent() {
    assert_eq!(parse_remote_head(""), None);
    assert_eq!(parse_remote_head("just one field\n"), None);
}

#[test]
fn remote_head_ignores_third_field() {
    let raw = "0abc\trefs/heads/x/1.2\textra\n";
    assert_eq!(parse_remote_head(raw), Some("refs/heads/x/1.2".to_string()));
}
