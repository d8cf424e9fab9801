use branchkit::errors::ParseError;
use branchkit::recommend::next_branch_name;
use branchkit::recommend::recommend_from_listing;
use branchkit::recommend::remote_filter;
use branchkit::timestamp::Date;

fn may_day() -> Date {
    Date { year: 2024, month: 5, day: 1 }
}

#[test]
fn filter_names_stage_and_compact_date() {
    let filter = remote_filter("release", may_day());
    assert_eq!(filter, "refs/heads/release/20240501*");
}

#[test]
fn filter_pads_month_and_day() {
    let filter = remote_filter("stage", Date { year: 987, month: 1, day: 9 });
    assert_eq!(filter, "refs/heads/stage/09870109*");
}

#[test]
fn recommend_increments_matched_counter() {
    let r = next_branch_name("release", may_day(), Some("refs/heads/release/20240501.3"));
    assert_eq!(r.unwrap(), "20240501.4");
}

#[test]
fn recommend_without_match_starts_at_one() {
    let r = next_branch_name("release", may_day(), None);
    assert_eq!(r.unwrap(), "release/20240501.1");
}

#[test]
fn recommend_rejects_single_segment() {
    let r = next_branch_name("release", may_day(), Some("refs/heads/release/20240501"));
    assert_eq!(r.unwrap_err(), ParseError::VersionSegmentCount);
}

#[test]
fn recommend_rejects_extra_segments() {
    let r = next_branch_name("release", may_day(), Some("refs/heads/release/20240501.3.1"));
    assert_eq!(r.unwrap_err(), ParseError::VersionSegmentCount);
}

#[test]
fn recommend_rejects_non_numeric_counter() {
    let r = next_branch_name("release", may_day(), Some("refs/heads/release/20240501.rc1"));
    assert_eq!(r.unwrap_err(), ParseError::VersionNotNumeric);
}

#[test]
fn recommend_rejects_empty_counter() {
    let r = next_branch_name("release", may_day(), Some("refs/heads/release/20240501."));
    assert_eq!(r.unwrap_err(), ParseError::VersionNotNumeric);
}

#[test]
fn recommend_rejects_counter_too_large_to_increment() {
    // u64::MAX: the counter itself is representable, but not its successor.
    let matched = format!("refs/heads/release/20240501.{}", u64::MAX);
    let r = next_branch_name("release", may_day(), Some(matched.as_str()));
    assert_eq!(r.unwrap_err(), ParseError::VersionCounterOverflow);
}

#[test]
fn recommend_carries_counter_into_double_digits() {
    let r = next_branch_name("release", may_day(), Some("refs/heads/release/20240501.9"));
    assert_eq!(r.unwrap(), "20240501.10");
}

#[test]
fn recommend_reads_counter_with_leading_zeros() {
    let r = next_branch_name("hotfix", may_day(), Some("refs/heads/hotfix/20240501.09"));
    assert_eq!(r.unwrap(), "20240501.10");
}

#[test]
fn recommend_reads_newest_ref_from_listing() {
    let listing = "0abc\trefs/heads/release/20240501.3\n1def\trefs/heads/release/20240501.2\n";
    let r = recommend_from_listing("release", may_day(), listing);
    assert_eq!(r.unwrap(), "20240501.4");
}

#[test]
fn recommend_from_empty_listing_starts_at_one() {
    let r = recommend_from_listing("release", may_day(), "");
    assert_eq!(r.unwrap(), "release/20240501.1");
}

#[test]
fn recommend_without_known_prefix_splits_whole_ref() {
    // A ref that does not carry refs/heads/<stage>/ is split as it stands.
    let r = next_branch_name("release", may_day(), Some("topic.7"));
    assert_eq!(r.unwrap(), "topic.8");
}
