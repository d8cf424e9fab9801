use vstd::prelude::*;
use vstd::string::*;

use crate::errors::ErrorKind;
use crate::errors::ParseError;
use crate::parser::lemma_listing_timestamps_valid;
use crate::parser::parse_branch_listing;
use crate::parser::parse_branch_listing_spec;
use crate::parser::parse_lines_spec;
use crate::record::display_chars;
use crate::text::split_into_lines;
use crate::text::split_lines;
use crate::timestamp::Timestamp;

verus! {

/// What an interactive selection produced: the chosen items, one chosen
/// item, or the user's cancellation. No partial state is representable, and
/// cancellation is distinct from an empty choice.
#[derive(Debug, PartialEq)]
pub enum SelectionOutcome {
    Many(Vec<String>),
    One(String),
    Canceled,
}

#[verifier::ext_equal]
pub enum SelectionModel {
    Many(Seq<Seq<char>>),
    One(Seq<char>),
    Canceled,
}

impl View for SelectionOutcome {
    type V = SelectionModel;

    open spec fn view(&self) -> SelectionModel {
        match self {
            SelectionOutcome::Many(items) => SelectionModel::Many(items.deep_view()),
            SelectionOutcome::One(item) => SelectionModel::One(item@),
            SelectionOutcome::Canceled => SelectionModel::Canceled,
        }
    }
}

/// The per-item result of one mutating action of a batch: reported
/// individually, never folded into an overall verdict.
#[derive(Debug, PartialEq)]
pub struct ActionReport {
    pub item: String,
    pub success: bool,
}

impl View for ActionReport {
    type V = (Seq<char>, bool);

    open spec fn view(&self) -> (Seq<char>, bool) {
        (self.item@, self.success)
    }
}

impl DeepView for ActionReport {
    type V = (Seq<char>, bool);

    open spec fn deep_view(&self) -> (Seq<char>, bool) {
        self.view()
    }
}

/// One observation handed back to a workflow: what the outside world did
/// in answer to the last action.
#[derive(Debug, PartialEq)]
pub enum WorkflowEvent {
    /// The repository-presence check finished with this verdict.
    RepoChecked(bool),
    /// The listing command finished; its captured standard output.
    ListingOutput(String),
    /// An external program could not be spawned.
    ExecFailed,
    /// The interactive selection finished.
    Selected(SelectionOutcome),
    /// The interactive selector failed for a reason other than
    /// cancellation.
    SelectionFailed,
    /// One mutating action finished, successfully or not.
    ActionResult(bool),
}

#[verifier::ext_equal]
pub enum WorkflowEventModel {
    RepoChecked(bool),
    ListingOutput(Seq<char>),
    ExecFailed,
    Selected(SelectionModel),
    SelectionFailed,
    ActionResult(bool),
}

impl View for WorkflowEvent {
    type V = WorkflowEventModel;

    open spec fn view(&self) -> WorkflowEventModel {
        match self {
            WorkflowEvent::RepoChecked(ok) => WorkflowEventModel::RepoChecked(*ok),
            WorkflowEvent::ListingOutput(raw) => WorkflowEventModel::ListingOutput(raw@),
            WorkflowEvent::ExecFailed => WorkflowEventModel::ExecFailed,
            WorkflowEvent::Selected(sel) => WorkflowEventModel::Selected(sel@),
            WorkflowEvent::SelectionFailed => WorkflowEventModel::SelectionFailed,
            WorkflowEvent::ActionResult(ok) => WorkflowEventModel::ActionResult(*ok),
        }
    }
}

/// Which batch workflow is running: deleting selected local branches, or
/// restoring selected modified files.
#[derive(Clone, Copy, Debug, PartialEq, Eq, Structural)]
pub enum BatchKind {
    DeleteBranches,
    RestoreFiles,
}

/// The next thing a batch workflow asks its caller to do.
#[derive(Debug, PartialEq)]
pub enum BatchAction {
    /// Ask the version-control system whether a repository is present.
    CheckRepo,
    /// Run the listing query for this batch's items.
    ListItems,
    /// Offer the labels to the user in a multi-select prompt; the value at
    /// the chosen index is what the selection stands for (for deletion the
    /// label shows the record, the value is the bare branch name).
    PromptSelect { labels: Vec<String>, values: Vec<String> },
    /// Delete this branch, or restore this file.
    Execute(String),
}

#[verifier::ext_equal]
pub enum BatchActionModel {
    CheckRepo,
    ListItems,
    PromptSelect { labels: Seq<Seq<char>>, values: Seq<Seq<char>> },
    Execute(Seq<char>),
}

impl View for BatchAction {
    type V = BatchActionModel;

    open spec fn view(&self) -> BatchActionModel {
        match self {
            BatchAction::CheckRepo => BatchActionModel::CheckRepo,
            BatchAction::ListItems => BatchActionModel::ListItems,
            BatchAction::PromptSelect { labels, values } => BatchActionModel::PromptSelect {
                labels: labels.deep_view(),
                values: values.deep_view(),
            },
            BatchAction::Execute(item) => BatchActionModel::Execute(item@),
        }
    }
}

/// How a batch workflow ended.
#[derive(Debug, PartialEq)]
pub enum BatchOutcome {
    /// Every selected item was attempted; one report per item, in order.
    Completed(Vec<ActionReport>),
    /// The user canceled at the selection point; nothing was mutated.
    Canceled,
    /// A fatal failure before any selection was acted on.
    Failed(ErrorKind),
}

#[verifier::ext_equal]
pub enum BatchOutcomeModel {
    Completed(Seq<(Seq<char>, bool)>),
    Canceled,
    Failed(ErrorKind),
}

impl View for BatchOutcome {
    type V = BatchOutcomeModel;

    open spec fn view(&self) -> BatchOutcomeModel {
        match self {
            BatchOutcome::Completed(reports) => BatchOutcomeModel::Completed(reports.deep_view()),
            BatchOutcome::Canceled => BatchOutcomeModel::Canceled,
            BatchOutcome::Failed(e) => BatchOutcomeModel::Failed(*e),
        }
    }
}

/// Where a batch workflow stands.
#[derive(Debug, PartialEq)]
pub enum BatchState {
    /// Waiting for the repository-presence verdict.
    CheckingRepo,
    /// Waiting for the listing output.
    Listing,
    /// Waiting for the user's selection.
    Selecting,
    /// Working through the selected items, one at a time.
    Acting { current: String, pending: Vec<String>, reports: Vec<ActionReport> },
    /// Finished.
    Done { outcome: BatchOutcome },
}

#[verifier::ext_equal]
pub enum BatchStateModel {
    CheckingRepo,
    Listing,
    Selecting,
    Acting { current: Seq<char>, pending: Seq<Seq<char>>, reports: Seq<(Seq<char>, bool)> },
    Done { outcome: BatchOutcomeModel },
}

impl View for BatchState {
    type V = BatchStateModel;

    open spec fn view(&self) -> BatchStateModel {
        match self {
            BatchState::CheckingRepo => BatchStateModel::CheckingRepo,
            BatchState::Listing => BatchStateModel::Listing,
            BatchState::Selecting => BatchStateModel::Selecting,
            BatchState::Acting { current, pending, reports } => BatchStateModel::Acting {
                current: current@,
                pending: pending.deep_view(),
                reports: reports.deep_view(),
            },
            BatchState::Done { outcome } => BatchStateModel::Done { outcome: outcome@ },
        }
    }
}

pub open spec fn opt_action_view(a: Option<BatchAction>) -> Option<BatchActionModel> {
    match a {
        Option::Some(x) => Some(x@),
        Option::None => None,
    }
}

/// The display line of each record, in order.
pub open spec fn display_lines_of(recs: Seq<(Seq<char>, Timestamp)>) -> Seq<Seq<char>> {
    Seq::new(recs.len(), |i: int| display_chars(recs[i].0, recs[i].1))
}

/// The name of each record, in order.
pub open spec fn names_of(recs: Seq<(Seq<char>, Timestamp)>) -> Seq<Seq<char>> {
    Seq::new(recs.len(), |i: int| recs[i].0)
}

/// What a batch workflow offers for selection, from raw listing output:
/// prompt labels and the values they stand for. For deletion the label is
/// the record's display line and the value its branch name; for restore
/// both are the modified file's name.
pub open spec fn batch_items_spec(kind: BatchKind, raw: Seq<char>) -> Result<
    (Seq<Seq<char>>, Seq<Seq<char>>),
    ParseError,
> {
    match kind {
        BatchKind::DeleteBranches => match parse_branch_listing_spec(raw) {
            Ok(recs) => Ok((display_lines_of(recs), names_of(recs))),
            Err(e) => Err(e),
        },
        BatchKind::RestoreFiles => Ok((split_lines(raw), split_lines(raw))),
    }
}

/// The first state and first action of a batch workflow: deletion verifies
/// repository presence first, restore goes straight to listing.
pub open spec fn batch_init_model(kind: BatchKind) -> (BatchStateModel, BatchActionModel) {
    match kind {
        BatchKind::DeleteBranches => (BatchStateModel::CheckingRepo, BatchActionModel::CheckRepo),
        BatchKind::RestoreFiles => (BatchStateModel::Listing, BatchActionModel::ListItems),
    }
}

/// One transition of a batch workflow: from the current state and the
/// observed event to the next state and the next action, if any. An event
/// that the current state does not expect changes nothing.
pub open spec fn batch_step_model(
    kind: BatchKind,
    s: BatchStateModel,
    e: WorkflowEventModel,
) -> (BatchStateModel, Option<BatchActionModel>) {
    match (s, e) {
        (BatchStateModel::CheckingRepo, WorkflowEventModel::RepoChecked(ok)) => {
            if ok {
                (BatchStateModel::Listing, Some(BatchActionModel::ListItems))
            } else {
                (
                    BatchStateModel::Done {
                        outcome: BatchOutcomeModel::Failed(ErrorKind::Environment),
                    },
                    None,
                )
            }
        },
        (BatchStateModel::CheckingRepo, WorkflowEventModel::ExecFailed) => (
            BatchStateModel::Done { outcome: BatchOutcomeModel::Failed(ErrorKind::Environment) },
            None,
        ),
        (BatchStateModel::Listing, WorkflowEventModel::ListingOutput(raw)) => {
            match batch_items_spec(kind, raw) {
                Ok(items) => (
                    BatchStateModel::Selecting,
                    Some(BatchActionModel::PromptSelect { labels: items.0, values: items.1 }),
                ),
                Err(pe) => (
                    BatchStateModel::Done {
                        outcome: BatchOutcomeModel::Failed(ErrorKind::Parse(pe)),
                    },
                    None,
                ),
            }
        },
        (BatchStateModel::Listing, WorkflowEventModel::ExecFailed) => (
            BatchStateModel::Done { outcome: BatchOutcomeModel::Failed(ErrorKind::Environment) },
            None,
        ),
        (BatchStateModel::Selecting, WorkflowEventModel::Selected(sel)) => {
            match sel {
                SelectionModel::Many(names) => {
                    if names.len() == 0 {
                        (
                            BatchStateModel::Done {
                                outcome: BatchOutcomeModel::Completed(seq![]),
                            },
                            None,
                        )
                    } else {
                        (
                            BatchStateModel::Acting {
                                current: names[0],
                                pending: names.drop_first(),
                                reports: seq![],
                            },
                            Some(BatchActionModel::Execute(names[0])),
                        )
                    }
                },
                SelectionModel::Canceled => (
                    BatchStateModel::Done { outcome: BatchOutcomeModel::Canceled },
                    None,
                ),
                SelectionModel::One(_) => (BatchStateModel::Selecting, None),
            }
        },
        (BatchStateModel::Selecting, WorkflowEventModel::SelectionFailed) => (
            BatchStateModel::Done {
                outcome: BatchOutcomeModel::Failed(ErrorKind::OtherSelection),
            },
            None,
        ),
        (
            BatchStateModel::Acting { current, pending, reports },
            WorkflowEventModel::ActionResult(ok),
        ) => {
            let reported = reports.push((current, ok));
            if pending.len() == 0 {
                (
                    BatchStateModel::Done { outcome: BatchOutcomeModel::Completed(reported) },
                    None,
                )
            } else {
                (
                    BatchStateModel::Acting {
                        current: pending[0],
                        pending: pending.drop_first(),
                        reports: reported,
                    },
                    Some(BatchActionModel::Execute(pending[0])),
                )
            }
        },
        (BatchStateModel::Acting { .. }, WorkflowEventModel::ExecFailed) => (
            BatchStateModel::Done { outcome: BatchOutcomeModel::Failed(ErrorKind::Environment) },
            None,
        ),
        (other, _) => (other, None),
    }
}

/// A delete or restore workflow, as a state machine from observed events to
/// the next external action. The caller performs each returned action and
/// hands what happened back as the next event; the machine makes every
/// decision and performs nothing itself.
pub struct BatchWorkflow {
    pub kind: BatchKind,
    pub state: BatchState,
}

impl BatchWorkflow {
    /// Starts the workflow and returns its first action.
    pub fn start(kind: BatchKind) -> (r: (BatchWorkflow, BatchAction))
        ensures
            r.0.kind == kind,
            (r.0.state@, r.1@) == batch_init_model(kind),
    {
        match kind {
            BatchKind::DeleteBranches => (
                BatchWorkflow { kind, state: BatchState::CheckingRepo },
                BatchAction::CheckRepo,
            ),
            BatchKind::RestoreFiles => (
                BatchWorkflow { kind, state: BatchState::Listing },
                BatchAction::ListItems,
            ),
        }
    }

    /// One transition; see [`batch_step_model`] for the exact statement.
    pub fn step(self, event: WorkflowEvent) -> (r: (BatchWorkflow, Option<BatchAction>))
        ensures
            r.0.kind == self.kind,
            (r.0.state@, opt_action_view(r.1)) =~= batch_step_model(self.kind, self.state@, event@),
    {
        let BatchWorkflow { kind, state } = self;
        match (state, event) {
            (BatchState::CheckingRepo, WorkflowEvent::RepoChecked(ok)) => {
                if ok {
                    (
                        BatchWorkflow { kind, state: BatchState::Listing },
                        Some(BatchAction::ListItems),
                    )
                } else {
                    (
                        BatchWorkflow {
                            kind,
                            state: BatchState::Done {
                                outcome: BatchOutcome::Failed(ErrorKind::Environment),
                            },
                        },
                        None,
                    )
                }
            },
            (BatchState::CheckingRepo, WorkflowEvent::ExecFailed) => (
                BatchWorkflow {
                    kind,
                    state: BatchState::Done {
                        outcome: BatchOutcome::Failed(ErrorKind::Environment),
                    },
                },
                None,
            ),
            (BatchState::Listing, WorkflowEvent::ListingOutput(raw)) => {
                match kind {
                    BatchKind::DeleteBranches => {
                        match parse_branch_listing(raw.as_str()) {
                            Ok(records) => {
                                let ghost recs_dv = records.deep_view();
                                let mut labels: Vec<String> = Vec::new();
                                let mut values: Vec<String> = Vec::new();
                                let mut i: usize = 0;
                                proof {
                                    lemma_listing_timestamps_valid(split_lines(raw@), 1);
                                    assert(parse_branch_listing_spec(raw@) == Ok::<
                                        _,
                                        ParseError,
                                    >(recs_dv));
                                    assert forall|k: int| 0 <= k < recs_dv.len() implies (
                                    #[trigger] recs_dv[k]).1.valid() by {
                                        assert(parse_lines_spec(split_lines(raw@), 1) matches Ok(
                                            recs,
                                        ) && recs == recs_dv);
                                    }
                                    assert(labels.deep_view() =~= display_lines_of(
                                        recs_dv.take(0),
                                    ));
                                    assert(values.deep_view() =~= names_of(recs_dv.take(0)));
                                }
                                while i < records.len()
                                    invariant
                                        i <= records.len(),
                                        recs_dv == records.deep_view(),
                                        recs_dv.len() == records@.len(),
                                        forall|k: int|
                                            0 <= k < recs_dv.len() ==> (#[trigger] recs_dv[k]).1.valid(),
                                        labels.deep_view() == display_lines_of(
                                            recs_dv.take(i as int),
                                        ),
                                        values.deep_view() == names_of(recs_dv.take(i as int)),
                                    decreases records.len() - i,
                                {
                                    proof {
                                        assert(recs_dv[i as int] == records@[i as int].deep_view());
                                    }
                                    let line = records[i].display_line();
                                    let ghost line_v = line@;
                                    proof {
                                        assert(recs_dv[i as int].0 == records@[i as int].name@);
                                        assert(recs_dv[i as int].1 == records@[
                                            i as int
                                        ].committer_timestamp);
                                        assert(line_v == display_chars(
                                            recs_dv[i as int].0,
                                            recs_dv[i as int].1,
                                        ));
                                    }
                                    let name = records[i].name.clone();
                                    let ghost name_v = name@;
                                    let ghost old_labels = labels.deep_view();
                                    let ghost old_values = values.deep_view();
                                    labels.push(line);
                                    values.push(name);
                                    proof {
                                        assert(name_v == recs_dv[i as int].0);
                                        assert(labels.deep_view() =~= old_labels.push(line_v));
                                        assert(values.deep_view() =~= old_values.push(name_v));
                                        assert(display_lines_of(recs_dv.take(i as int + 1))
                                            =~= display_lines_of(recs_dv.take(i as int)).push(
                                            display_chars(recs_dv[i as int].0, recs_dv[i as int].1),
                                        ));
                                        assert(names_of(recs_dv.take(i as int + 1)) =~= names_of(
                                            recs_dv.take(i as int),
                                        ).push(recs_dv[i as int].0));
                                    }
                                    i += 1;
                                }
                                proof {
                                    assert(recs_dv.take(recs_dv.len() as int) =~= recs_dv);
                                }
                                (
                                    BatchWorkflow { kind, state: BatchState::Selecting },
                                    Some(BatchAction::PromptSelect { labels, values }),
                                )
                            },
                            Err(e) => (
                                BatchWorkflow {
                                    kind,
                                    state: BatchState::Done {
                                        outcome: BatchOutcome::Failed(ErrorKind::Parse(e)),
                                    },
                                },
                                None,
                            ),
                        }
                    },
                    BatchKind::RestoreFiles => {
                        let labels = split_into_lines(raw.as_str());
                        let values = split_into_lines(raw.as_str());
                        (
                            BatchWorkflow { kind, state: BatchState::Selecting },
                            Some(BatchAction::PromptSelect { labels, values }),
                        )
                    },
                }
            },
            (BatchState::Listing, WorkflowEvent::ExecFailed) => (
                BatchWorkflow {
                    kind,
                    state: BatchState::Done {
                        outcome: BatchOutcome::Failed(ErrorKind::Environment),
                    },
                },
                None,
            ),
            (BatchState::Selecting, WorkflowEvent::Selected(sel)) => {
                match sel {
                    SelectionOutcome::Many(names) => {
                        if names.len() == 0 {
                            (
                                BatchWorkflow {
                                    kind,
                                    state: BatchState::Done {
                                        outcome: BatchOutcome::Completed(Vec::new()),
                                    },
                                },
                                None,
                            )
                        } else {
                            let mut names = names;
                            let first = names.remove(0);
                            let again = first.clone();
                            (
                                BatchWorkflow {
                                    kind,
                                    state: BatchState::Acting {
                                        current: first,
                                        pending: names,
                                        reports: Vec::new(),
                                    },
                                },
                                Some(BatchAction::Execute(again)),
                            )
                        }
                    },
                    SelectionOutcome::Canceled => (
                        BatchWorkflow {
                            kind,
                            state: BatchState::Done { outcome: BatchOutcome::Canceled },
                        },
                        None,
                    ),
                    SelectionOutcome::One(_) => (
                        BatchWorkflow { kind, state: BatchState::Selecting },
                        None,
                    ),
                }
            },
            (BatchState::Selecting, WorkflowEvent::SelectionFailed) => (
                BatchWorkflow {
                    kind,
                    state: BatchState::Done {
                        outcome: BatchOutcome::Failed(ErrorKind::OtherSelection),
                    },
                },
                None,
            ),
            (BatchState::Acting { current, pending, reports }, WorkflowEvent::ActionResult(ok)) => {
                let mut reports = reports;
                reports.push(ActionReport { item: current, success: ok });
                if pending.len() == 0 {
                    (
                        BatchWorkflow {
                            kind,
                            state: BatchState::Done {
                                outcome: BatchOutcome::Completed(reports),
                            },
                        },
                        None,
                    )
                } else {
                    let mut pending = pending;
                    let next = pending.remove(0);
                    let again = next.clone();
                    (
                        BatchWorkflow {
                            kind,
                            state: BatchState::Acting { current: next, pending, reports },
                        },
                        Some(BatchAction::Execute(again)),
                    )
                }
            },
            (BatchState::Acting { current, pending, reports }, WorkflowEvent::ExecFailed) => (
                BatchWorkflow {
                    kind,
                    state: BatchState::Done {
                        outcome: BatchOutcome::Failed(ErrorKind::Environment),
                    },
                },
                None,
            ),
            (st, _) => (BatchWorkflow { kind, state: st }, None),
        }
    }
}

/// The empty or one-element action trace of one step.
pub open spec fn opt_to_seq(a: Option<BatchActionModel>) -> Seq<BatchActionModel> {
    match a {
        Option::Some(x) => seq![x],
        Option::None => seq![],
    }
}

/// A whole run: the machine folded over a sequence of events, yielding the
/// final state and every action it asked for, in order.
pub open spec fn batch_run_model(
    kind: BatchKind,
    s: BatchStateModel,
    events: Seq<WorkflowEventModel>,
) -> (BatchStateModel, Seq<BatchActionModel>)
    decreases events.len(),
{
    if events.len() == 0 {
        (s, seq![])
    } else {
        let first = batch_step_model(kind, s, events[0]);
        let rest = batch_run_model(kind, first.0, events.drop_first());
        (rest.0, opt_to_seq(first.1) + rest.1)
    }
}

/// An action that changes the repository.
pub open spec fn is_mutating(a: BatchActionModel) -> bool {
    a is Execute
}

/// One report per selected item, in selection order, each carrying that
/// item's own result.
pub open spec fn paired_reports(names: Seq<Seq<char>>, results: Seq<bool>) -> Seq<
    (Seq<char>, bool),
> {
    Seq::new(names.len(), |i: int| (names[i], results[i]))
}

/// The event sequence of a batch of action results, in order.
pub open spec fn action_events(results: Seq<bool>) -> Seq<WorkflowEventModel> {
    Seq::new(results.len(), |i: int| WorkflowEventModel::ActionResult(results[i]))
}

/// One Execute action per item, in order.
pub open spec fn execute_actions(names: Seq<Seq<char>>) -> Seq<BatchActionModel> {
    Seq::new(names.len(), |i: int| BatchActionModel::Execute(names[i]))
}

proof fn lemma_batch_acting_run(
    kind: BatchKind,
    current: Seq<char>,
    pending: Seq<Seq<char>>,
    reports: Seq<(Seq<char>, bool)>,
    results: Seq<bool>,
)
    requires
        results.len() == pending.len() + 1,
    ensures
        ({
            let r = batch_run_model(
                kind,
                BatchStateModel::Acting { current, pending, reports },
                action_events(results),
            );
            &&& r.0 == (BatchStateModel::Done {
                outcome: BatchOutcomeModel::Completed(
                    reports + paired_reports(seq![current] + pending, results),
                ),
            })
            &&& r.1 =~= execute_actions(pending)
        }),
    decreases results.len(),
{
    let events = action_events(results);
    assert(events.len() == results.len());
    assert(events[0] == WorkflowEventModel::ActionResult(results[0]));
    let reported = reports.push((current, results[0]));
    let first = batch_step_model(
        kind,
        BatchStateModel::Acting { current, pending, reports },
        events[0],
    );
    let rest = batch_run_model(kind, first.0, events.drop_first());
    let r = batch_run_model(
        kind,
        BatchStateModel::Acting { current, pending, reports },
        events,
    );
    assert(r.0 == rest.0 && r.1 == opt_to_seq(first.1) + rest.1);
    if pending.len() == 0 {
        assert(first.0 == (BatchStateModel::Done {
            outcome: BatchOutcomeModel::Completed(reported),
        }));
        assert(first.1 is None);
        assert(events.drop_first().len() == 0);
        assert(rest.0 == first.0 && rest.1 =~= Seq::<BatchActionModel>::empty());
        assert(reported =~= reports + paired_reports(seq![current] + pending, results));
        assert(r.1 =~= execute_actions(pending));
    } else {
        assert(first.0 == (BatchStateModel::Acting {
            current: pending[0],
            pending: pending.drop_first(),
            reports: reported,
        }));
        assert(first.1 == Some(BatchActionModel::Execute(pending[0])));
        lemma_batch_acting_run(
            kind,
            pending[0],
            pending.drop_first(),
            reported,
            results.drop_first(),
        );
        assert(events.drop_first() =~= action_events(results.drop_first()));
        assert(events.drop_first() == action_events(results.drop_first()));
        assert(seq![pending[0]] + pending.drop_first() =~= pending);
        assert(reported + paired_reports(pending, results.drop_first()) =~= reports
            + paired_reports(seq![current] + pending, results));
        assert(r.1 =~= seq![BatchActionModel::Execute(pending[0])] + execute_actions(
            pending.drop_first(),
        ));
        assert(r.1 =~= execute_actions(pending));
    }
}

/// Law: once a non-empty selection is in, the batch attempts every selected
/// item in order — whatever each individual action reports — and ends
/// completed with one report per item, pairing the item with its own
/// result. A failed delete or restore never stops the rest of the batch.
pub proof fn lemma_batch_attempts_all(
    kind: BatchKind,
    names: Seq<Seq<char>>,
    results: Seq<bool>,
)
    requires
        names.len() > 0,
        results.len() == names.len(),
    ensures
        ({
            let events = seq![
                WorkflowEventModel::Selected(SelectionModel::Many(names)),
            ] + action_events(results);
            let r = batch_run_model(kind, BatchStateModel::Selecting, events);
            &&& r.0 == (BatchStateModel::Done {
                outcome: BatchOutcomeModel::Completed(paired_reports(names, results)),
            })
            &&& r.1 =~= execute_actions(names)
        }),
{
    let events = seq![WorkflowEventModel::Selected(SelectionModel::Many(names))]
        + action_events(results);
    assert(events[0] == WorkflowEventModel::Selected(SelectionModel::Many(names)));
    assert(events.drop_first() =~= action_events(results));
    assert(events.drop_first() == action_events(results));
    let first = batch_step_model(kind, BatchStateModel::Selecting, events[0]);
    assert(first.0 == (BatchStateModel::Acting {
        current: names[0],
        pending: names.drop_first(),
        reports: seq![],
    }));
    assert(first.1 == Some(BatchActionModel::Execute(names[0])));
    lemma_batch_acting_run(kind, names[0], names.drop_first(), seq![], results);
    let rest = batch_run_model(kind, first.0, events.drop_first());
    let r = batch_run_model(kind, BatchStateModel::Selecting, events);
    assert(r.0 == rest.0 && r.1 == opt_to_seq(first.1) + rest.1);
    assert(seq![names[0]] + names.drop_first() =~= names);
    assert(seq![] + paired_reports(seq![names[0]] + names.drop_first(), results) =~= paired_reports(
        names,
        results,
    ));
    assert(r.1 =~= seq![BatchActionModel::Execute(names[0])] + execute_actions(
        names.drop_first(),
    ));
    assert(r.1 =~= execute_actions(names));
}

proof fn lemma_batch_run_from_done(
    kind: BatchKind,
    outcome: BatchOutcomeModel,
    events: Seq<WorkflowEventModel>,
)
    ensures
        batch_run_model(kind, BatchStateModel::Done { outcome }, events).0
            == (BatchStateModel::Done { outcome }),
        batch_run_model(kind, BatchStateModel::Done { outcome }, events).1 == Seq::<
            BatchActionModel,
        >::empty(),
    decreases events.len(),
{
    if events.len() == 0 {
        assert(batch_run_model(kind, BatchStateModel::Done { outcome }, events).1 =~= Seq::<
            BatchActionModel,
        >::empty());
    } else {
        lemma_batch_run_from_done(kind, outcome, events.drop_first());
        assert(batch_run_model(kind, BatchStateModel::Done { outcome }, events).1 =~= Seq::<
            BatchActionModel,
        >::empty());
    }
}

/// A state from which no mutating action has yet been asked for.
pub open spec fn before_acting(s: BatchStateModel) -> bool {
    s is CheckingRepo || s is Listing || s is Selecting
}

proof fn lemma_batch_no_cancel_after_selection(
    kind: BatchKind,
    s: BatchStateModel,
    events: Seq<WorkflowEventModel>,
)
    requires
        !before_acting(s),
        s != (BatchStateModel::Done { outcome: BatchOutcomeModel::Canceled }),
    ensures
        batch_run_model(kind, s, events).0 != (BatchStateModel::Done {
            outcome: BatchOutcomeModel::Canceled,
        }),
    decreases events.len(),
{
    if events.len() > 0 {
        let first = batch_step_model(kind, s, events[0]);
        lemma_batch_no_cancel_after_selection(kind, first.0, events.drop_first());
    }
}

proof fn lemma_batch_cancel_invariant(
    kind: BatchKind,
    s: BatchStateModel,
    events: Seq<WorkflowEventModel>,
)
    requires
        before_acting(s),
    ensures
        ({
            let r = batch_run_model(kind, s, events);
            r.0 == (BatchStateModel::Done { outcome: BatchOutcomeModel::Canceled })
                ==> forall|i: int| 0 <= i < r.1.len() ==> !is_mutating(#[trigger] r.1[i])
        }),
    decreases events.len(),
{
    if events.len() > 0 {
        let first = batch_step_model(kind, s, events[0]);
        let rest = batch_run_model(kind, first.0, events.drop_first());
        let r = batch_run_model(kind, s, events);
        if before_acting(first.0) {
            lemma_batch_cancel_invariant(kind, first.0, events.drop_first());
            if r.0 == (BatchStateModel::Done { outcome: BatchOutcomeModel::Canceled }) {
                assert forall|i: int| 0 <= i < r.1.len() implies !is_mutating(
                    #[trigger] r.1[i],
                ) by {
                    let lead = opt_to_seq(first.1);
                    if i >= lead.len() {
                        assert(r.1[i] == rest.1[i - lead.len()]);
                    }
                }
            }
        } else if first.0 == (BatchStateModel::Done { outcome: BatchOutcomeModel::Canceled }) {
            lemma_batch_run_from_done(kind, BatchOutcomeModel::Canceled, events.drop_first());
            assert(first.1 is None);
            assert(r.1 =~= Seq::<BatchActionModel>::empty());
        } else {
            lemma_batch_no_cancel_after_selection(kind, first.0, events.drop_first());
        }
    }
}

/// Law: a run that ends canceled never asked for a mutating action. The
/// only way to the canceled outcome is the user's cancellation at the
/// selection point, and everything asked for up to there — the repository
/// check, the listing, the prompt — leaves the repository untouched.
pub proof fn lemma_batch_cancel_no_mutation(kind: BatchKind, events: Seq<WorkflowEventModel>)
    ensures
        !is_mutating(batch_init_model(kind).1),
        ({
            let r = batch_run_model(kind, batch_init_model(kind).0, events);
            r.0 == (BatchStateModel::Done { outcome: BatchOutcomeModel::Canceled })
                ==> forall|i: int| 0 <= i < r.1.len() ==> !is_mutating(#[trigger] r.1[i])
        }),
{
    lemma_batch_cancel_invariant(kind, batch_init_model(kind).0, events);
}

/// Law: cancellation is distinguishable from a successful empty selection:
/// the one ends canceled, the other ends completed with zero reports.
pub proof fn lemma_cancel_distinct_from_empty(kind: BatchKind)
    ensures
        batch_step_model(
            kind,
            BatchStateModel::Selecting,
            WorkflowEventModel::Selected(SelectionModel::Canceled),
        ).0 == (BatchStateModel::Done { outcome: BatchOutcomeModel::Canceled }),
        batch_step_model(
            kind,
            BatchStateModel::Selecting,
            WorkflowEventModel::Selected(SelectionModel::Many(seq![])),
        ).0 == (BatchStateModel::Done { outcome: BatchOutcomeModel::Completed(seq![]) }),
        (BatchStateModel::Done { outcome: BatchOutcomeModel::Canceled }) != (BatchStateModel::Done {
            outcome: BatchOutcomeModel::Completed(seq![]),
        }),
{
}

} // verus!
