use branchkit::client::GitClient;
use branchkit::errors::ErrorKind;
use branchkit::errors::ParseError;
use branchkit::record::BranchRecord;
use branchkit::timestamp::Date;
use branchkit::timestamp::Timestamp;

#[test]
fn display_line_shows_timestamp_then_name() {
    let record = BranchRecord {
        name: "main".to_string(),
        committer_timestamp: Timestamp {
            year: 2024,
            month: 5,
            day: 1,
            hour: 10,
            minute: 0,
            second: 0,
        },
    };
    assert_eq!(record.display_line(), "[2024-05-01 10:00:00] main");
}

#[test]
fn display_line_pads_every_component() {
    let record = BranchRecord {
        name: "b".to_string(),
        committer_timestamp: Timestamp { year: 987, month: 1, day: 2, hour: 3, minute: 4, second: 5 },
    };
    assert_eq!(record.display_line(), "[0987-01-02 03:04:05] b");
}

#[test]
fn timestamp_render_is_offset_free() {
    let stamp = Timestamp { year: 2024, month: 12, day: 31, hour: 23, minute: 59, second: 59 };
    assert_eq!(stamp.render(), "2024-12-31 23:59:59");
}

#[test]
fn date_compact_is_eight_digits() {
    assert_eq!(Date { year: 2024, month: 5, day: 1 }.compact(), "20240501");
}

#[test]
fn client_keeps_its_working_directory() {
    let client = GitClient::new(".");
    assert_eq!(client.working_directory(), ".");
    let client = GitClient::new("/some/repo");
    assert_eq!(client.working_directory(), "/some/repo");
}

#[test]
fn error_kinds_have_messages() {
    assert_eq!(ErrorKind::UserCanceled.message(), "User canceled the operation.");
    assert_eq!(ErrorKind::Environment.message(), "not a git repository");
    assert_eq!(
        ErrorKind::Parse(ParseError::VersionNotNumeric).message(),
        "malformed version-control output"
    );
    assert_eq!(
        ErrorKind::OtherSelection.message(),
        "An error occurred during selection."
    );
    assert_eq!(ErrorKind::ActionFailure.message(), "a requested action failed");
}
