use branchkit::checkout::CheckoutAction;
use branchkit::checkout::CheckoutOutcome;
use branchkit::checkout::CheckoutState;
use branchkit::checkout::CheckoutWorkflow;
use branchkit::errors::ErrorKind;
use branchkit::errors::ParseError;
use branchkit::workflow::ActionReport;
use branchkit::workflow::BatchAction;
use branchkit::workflow::BatchKind;
use branchkit::workflow::BatchOutcome;
use branchkit::workflow::BatchState;
use branchkit::workflow::BatchWorkflow;
use branchkit::workflow::SelectionOutcome;
use branchkit::workflow::WorkflowEvent;

fn listing_of(names: &[&str]) -> String {
    let mut raw = String::new();
    for name in names {
        raw.push_str(&format!(
            "'{{\"name\": \"{}\", \"committerdate\": \"2024-05-01 10:00:00 +0900\"}}'\n",
            name
        ));
    }
    raw
}

fn strings(items: &[&str]) -> Vec<String> {
    items.iter().map(|s| s.to_string()).collect()
}

#[test]
fn delete_attempts_every_selected_branch() {
    let (wf, action) = BatchWorkflow::start(BatchKind::DeleteBranches);
    assert_eq!(action, BatchAction::CheckRepo);
    let (wf, action) = wf.step(WorkflowEvent::RepoChecked(true));
    assert_eq!(action, Some(BatchAction::ListItems));
    let (wf, action) = wf.step(WorkflowEvent::ListingOutput(listing_of(&["a", "b", "c"])));
    match action {
        Some(BatchAction::PromptSelect { labels, values }) => {
            assert_eq!(labels.len(), 3);
            assert_eq!(labels[0], "[2024-05-01 10:00:00] a");
            assert_eq!(values, strings(&["a", "b", "c"]));
        },
        other => panic!("expected a prompt, got {:?}", other),
    }
    let (wf, action) = wf.step(WorkflowEvent::Selected(SelectionOutcome::Many(strings(&[
        "a", "b", "c",
    ]))));
    assert_eq!(action, Some(BatchAction::Execute("a".to_string())));
    let (wf, action) = wf.step(WorkflowEvent::ActionResult(true));
    assert_eq!(action, Some(BatchAction::Execute("b".to_string())));
    // The second delete fails; the third is still attempted.
    let (wf, action) = wf.step(WorkflowEvent::ActionResult(false));
    assert_eq!(action, Some(BatchAction::Execute("c".to_string())));
    let (wf, action) = wf.step(WorkflowEvent::ActionResult(true));
    assert_eq!(action, None);
    match wf.state {
        BatchState::Done { outcome: BatchOutcome::Completed(reports) } => {
            assert_eq!(reports.len(), 3);
            assert_eq!(reports[0], ActionReport { item: "a".to_string(), success: true });
            assert_eq!(reports[1], ActionReport { item: "b".to_string(), success: false });
            assert_eq!(reports[2], ActionReport { item: "c".to_string(), success: true });
        },
        other => panic!("expected completion with three reports, got {:?}", other),
    }
}

#[test]
fn delete_cancellation_mutates_nothing() {
    let (wf, _) = BatchWorkflow::start(BatchKind::DeleteBranches);
    let (wf, _) = wf.step(WorkflowEvent::RepoChecked(true));
    let (wf, _) = wf.step(WorkflowEvent::ListingOutput(listing_of(&["a"])));
    let (wf, action) = wf.step(WorkflowEvent::Selected(SelectionOutcome::Canceled));
    assert_eq!(action, None);
    assert_eq!(wf.state, BatchState::Done { outcome: BatchOutcome::Canceled });
}

#[test]
fn canceled_differs_from_empty_selection() {
    let (wf, _) = BatchWorkflow::start(BatchKind::DeleteBranches);
    let (wf, _) = wf.step(WorkflowEvent::RepoChecked(true));
    let (wf, _) = wf.step(WorkflowEvent::ListingOutput(listing_of(&["a"])));
    let (wf, action) = wf.step(WorkflowEvent::Selected(SelectionOutcome::Many(Vec::new())));
    assert_eq!(action, None);
    assert_eq!(
        wf.state,
        BatchState::Done { outcome: BatchOutcome::Completed(Vec::new()) }
    );
    assert_ne!(wf.state, BatchState::Done { outcome: BatchOutcome::Canceled });
}

#[test]
fn delete_stops_when_no_repository() {
    let (wf, _) = BatchWorkflow::start(BatchKind::DeleteBranches);
    let (wf, action) = wf.step(WorkflowEvent::RepoChecked(false));
    assert_eq!(action, None);
    assert_eq!(
        wf.state,
        BatchState::Done { outcome: BatchOutcome::Failed(ErrorKind::Environment) }
    );
}

#[test]
fn delete_stops_on_malformed_listing() {
    let (wf, _) = BatchWorkflow::start(BatchKind::DeleteBranches);
    let (wf, _) = wf.step(WorkflowEvent::RepoChecked(true));
    let (wf, action) = wf.step(WorkflowEvent::ListingOutput("nonsense\n".to_string()));
    assert_eq!(action, None);
    assert_eq!(
        wf.state,
        BatchState::Done {
            outcome: BatchOutcome::Failed(ErrorKind::Parse(ParseError::MalformedRecord {
                line: 1,
            })),
        }
    );
}

#[test]
fn delete_stops_on_spawn_failure() {
    let (wf, _) = BatchWorkflow::start(BatchKind::DeleteBranches);
    let (wf, action) = wf.step(WorkflowEvent::ExecFailed);
    assert_eq!(action, None);
    assert_eq!(
        wf.state,
        BatchState::Done { outcome: BatchOutcome::Failed(ErrorKind::Environment) }
    );
}

#[test]
fn delete_reports_other_selector_failure() {
    let (wf, _) = BatchWorkflow::start(BatchKind::DeleteBranches);
    let (wf, _) = wf.step(WorkflowEvent::RepoChecked(true));
    let (wf, _) = wf.step(WorkflowEvent::ListingOutput(listing_of(&["a"])));
    let (wf, action) = wf.step(WorkflowEvent::SelectionFailed);
    assert_eq!(action, None);
    assert_eq!(
        wf.state,
        BatchState::Done { outcome: BatchOutcome::Failed(ErrorKind::OtherSelection) }
    );
}

#[test]
fn restore_lists_files_without_repo_check() {
    let (wf, action) = BatchWorkflow::start(BatchKind::RestoreFiles);
    assert_eq!(action, BatchAction::ListItems);
    let (wf, action) = wf.step(WorkflowEvent::ListingOutput("src/a.rs\nREADME.md\n".to_string()));
    assert_eq!(
        action,
        Some(BatchAction::PromptSelect {
            labels: strings(&["src/a.rs", "README.md"]),
            values: strings(&["src/a.rs", "README.md"]),
        })
    );
    let (wf, action) = wf.step(WorkflowEvent::Selected(SelectionOutcome::Many(strings(&[
        "README.md",
    ]))));
    assert_eq!(action, Some(BatchAction::Execute("README.md".to_string())));
    let (wf, action) = wf.step(WorkflowEvent::ActionResult(true));
    assert_eq!(action, None);
    match wf.state {
        BatchState::Done { outcome: BatchOutcome::Completed(reports) } => {
            assert_eq!(reports.len(), 1);
            assert_eq!(
                reports[0],
                ActionReport { item: "README.md".to_string(), success: true }
            );
        },
        other => panic!("expected completion, got {:?}", other),
    }
}

#[test]
fn unexpected_event_changes_nothing() {
    let (wf, _) = BatchWorkflow::start(BatchKind::DeleteBranches);
    let (wf, action) = wf.step(WorkflowEvent::ActionResult(true));
    assert_eq!(action, None);
    assert_eq!(wf.state, BatchState::CheckingRepo);
}

#[test]
fn checkout_with_explicit_target_switches_directly() {
    let (wf, action) = CheckoutWorkflow::start(Some("feature/x".to_string()));
    assert_eq!(action, CheckoutAction::CreateAndSwitch("feature/x".to_string()));
    let (wf, action) = wf.step(WorkflowEvent::ActionResult(true));
    assert_eq!(action, None);
    assert_eq!(
        wf.state,
        CheckoutState::Done { outcome: CheckoutOutcome::Completed { success: true } }
    );
}

#[test]
fn checkout_selects_and_switches() {
    let (wf, action) = CheckoutWorkflow::start(None);
    assert_eq!(action, CheckoutAction::ListLocalBranches);
    let (wf, action) = wf.step(WorkflowEvent::ListingOutput("* main\n  dev\n".to_string()));
    assert_eq!(
        action,
        Some(CheckoutAction::PromptSelect(strings(&["main", "dev"])))
    );
    let (wf, action) = wf.step(WorkflowEvent::Selected(SelectionOutcome::One(
        "dev".to_string(),
    )));
    assert_eq!(action, Some(CheckoutAction::Switch("dev".to_string())));
    let (wf, action) = wf.step(WorkflowEvent::ActionResult(false));
    assert_eq!(action, None);
    assert_eq!(
        wf.state,
        CheckoutState::Done { outcome: CheckoutOutcome::Completed { success: false } }
    );
}

#[test]
fn checkout_cancellation_mutates_nothing() {
    let (wf, _) = CheckoutWorkflow::start(None);
    let (wf, _) = wf.step(WorkflowEvent::ListingOutput("* main\n".to_string()));
    let (wf, action) = wf.step(WorkflowEvent::Selected(SelectionOutcome::Canceled));
    assert_eq!(action, None);
    assert_eq!(wf.state, CheckoutState::Done { outcome: CheckoutOutcome::Canceled });
}

#[test]
fn checkout_stops_on_short_listing_line() {
    let (wf, _) = CheckoutWorkflow::start(None);
    let (wf, action) = wf.step(WorkflowEvent::ListingOutput("* main\nx\n".to_string()));
    assert_eq!(action, None);
    assert_eq!(
        wf.state,
        CheckoutState::Done {
            outcome: CheckoutOutcome::Failed(ErrorKind::Parse(ParseError::ShortLine { line: 2 })),
        }
    );
}
