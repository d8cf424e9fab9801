use vstd::prelude::*;
use vstd::string::*;

use crate::errors::ErrorKind;
use crate::parser::parse_local_branches;
use crate::parser::parse_local_branches_spec;
use crate::workflow::SelectionModel;
use crate::workflow::SelectionOutcome;
use crate::workflow::WorkflowEvent;
use crate::workflow::WorkflowEventModel;

verus! {

/// How a checkout workflow ended.
#[derive(Debug, PartialEq)]
pub enum CheckoutOutcome {
    /// The switch (or create-and-switch) was attempted; whether the
    /// version-control system reported success.
    Completed { success: bool },
    /// The user canceled at the selection point; nothing was mutated.
    Canceled,
    /// A fatal failure before any switch was attempted.
    Failed(ErrorKind),
}

#[verifier::ext_equal]
pub enum CheckoutOutcomeModel {
    Completed { success: bool },
    Canceled,
    Failed(ErrorKind),
}

impl View for CheckoutOutcome {
    type V = CheckoutOutcomeModel;

    open spec fn view(&self) -> CheckoutOutcomeModel {
        match self {
            CheckoutOutcome::Completed { success } => CheckoutOutcomeModel::Completed {
                success: *success,
            },
            CheckoutOutcome::Canceled => CheckoutOutcomeModel::Canceled,
            CheckoutOutcome::Failed(e) => CheckoutOutcomeModel::Failed(*e),
        }
    }
}

/// The next thing a checkout workflow asks its caller to do.
#[derive(Debug, PartialEq)]
pub enum CheckoutAction {
    /// Run the flat local-branch listing.
    ListLocalBranches,
    /// Offer these branch names in a single-select prompt.
    PromptSelect(Vec<String>),
    /// Create this branch and switch to it.
    CreateAndSwitch(String),
    /// Switch to this existing branch.
    Switch(String),
}

#[verifier::ext_equal]
pub enum CheckoutActionModel {
    ListLocalBranches,
    PromptSelect(Seq<Seq<char>>),
    CreateAndSwitch(Seq<char>),
    Switch(Seq<char>),
}

impl View for CheckoutAction {
    type V = CheckoutActionModel;

    open spec fn view(&self) -> CheckoutActionModel {
        match self {
            CheckoutAction::ListLocalBranches => CheckoutActionModel::ListLocalBranches,
            CheckoutAction::PromptSelect(items) => CheckoutActionModel::PromptSelect(
                items.deep_view(),
            ),
            CheckoutAction::CreateAndSwitch(name) => CheckoutActionModel::CreateAndSwitch(name@),
            CheckoutAction::Switch(name) => CheckoutActionModel::Switch(name@),
        }
    }
}

/// Where a checkout workflow stands.
#[derive(Debug, PartialEq)]
pub enum CheckoutState {
    /// Waiting for the flat listing output.
    Listing,
    /// Waiting for the user's choice of branch.
    Selecting,
    /// Waiting for the switch to finish.
    Switching,
    /// Finished.
    Done { outcome: CheckoutOutcome },
}

#[verifier::ext_equal]
pub enum CheckoutStateModel {
    Listing,
    Selecting,
    Switching,
    Done { outcome: CheckoutOutcomeModel },
}

impl View for CheckoutState {
    type V = CheckoutStateModel;

    open spec fn view(&self) -> CheckoutStateModel {
        match self {
            CheckoutState::Listing => CheckoutStateModel::Listing,
            CheckoutState::Selecting => CheckoutStateModel::Selecting,
            CheckoutState::Switching => CheckoutStateModel::Switching,
            CheckoutState::Done { outcome } => CheckoutStateModel::Done { outcome: outcome@ },
        }
    }
}

pub open spec fn opt_checkout_action_view(a: Option<CheckoutAction>) -> Option<
    CheckoutActionModel,
> {
    match a {
        Option::Some(x) => Some(x@),
        Option::None => None,
    }
}

/// The first state and first action: an explicit target name skips the
/// selection and goes straight to create-and-switch; otherwise the local
/// branches are listed for a single-select.
pub open spec fn checkout_init_model(target: Option<Seq<char>>) -> (
    CheckoutStateModel,
    CheckoutActionModel,
) {
    match target {
        Option::Some(name) => (
            CheckoutStateModel::Switching,
            CheckoutActionModel::CreateAndSwitch(name),
        ),
        Option::None => (CheckoutStateModel::Listing, CheckoutActionModel::ListLocalBranches),
    }
}

/// One transition of a checkout workflow; an event the current state does
/// not expect changes nothing.
pub open spec fn checkout_step_model(s: CheckoutStateModel, e: WorkflowEventModel) -> (
    CheckoutStateModel,
    Option<CheckoutActionModel>,
) {
    match (s, e) {
        (CheckoutStateModel::Listing, WorkflowEventModel::ListingOutput(raw)) => {
            match parse_local_branches_spec(raw) {
                Ok(names) => (
                    CheckoutStateModel::Selecting,
                    Some(CheckoutActionModel::PromptSelect(names)),
                ),
                Err(pe) => (
                    CheckoutStateModel::Done {
                        outcome: CheckoutOutcomeModel::Failed(ErrorKind::Parse(pe)),
                    },
                    None,
                ),
            }
        },
        (CheckoutStateModel::Listing, WorkflowEventModel::ExecFailed) => (
            CheckoutStateModel::Done {
                outcome: CheckoutOutcomeModel::Failed(ErrorKind::Environment),
            },
            None,
        ),
        (CheckoutStateModel::Selecting, WorkflowEventModel::Selected(sel)) => {
            match sel {
                SelectionModel::One(name) => (
                    CheckoutStateModel::Switching,
                    Some(CheckoutActionModel::Switch(name)),
                ),
                SelectionModel::Canceled => (
                    CheckoutStateModel::Done { outcome: CheckoutOutcomeModel::Canceled },
                    None,
                ),
                SelectionModel::Many(_) => (CheckoutStateModel::Selecting, None),
            }
        },
        (CheckoutStateModel::Selecting, WorkflowEventModel::SelectionFailed) => (
            CheckoutStateModel::Done {
                outcome: CheckoutOutcomeModel::Failed(ErrorKind::OtherSelection),
            },
            None,
        ),
        (CheckoutStateModel::Switching, WorkflowEventModel::ActionResult(ok)) => (
            CheckoutStateModel::Done {
                outcome: CheckoutOutcomeModel::Completed { success: ok },
            },
            None,
        ),
        (CheckoutStateModel::Switching, WorkflowEventModel::ExecFailed) => (
            CheckoutStateModel::Done {
                outcome: CheckoutOutcomeModel::Failed(ErrorKind::Environment),
            },
            None,
        ),
        (other, _) => (other, None),
    }
}

/// A checkout workflow, as a state machine from observed events to the
/// next external action; the caller performs the actions, the machine
/// makes every decision.
pub struct CheckoutWorkflow {
    pub state: CheckoutState,
}

impl CheckoutWorkflow {
    /// Starts the workflow and returns its first action.
    pub fn start(target: Option<String>) -> (r: (CheckoutWorkflow, CheckoutAction))
        ensures
            (r.0.state@, r.1@) =~= checkout_init_model(
                match target {
                    Option::Some(name) => Some(name@),
                    Option::None => None,
                },
            ),
    {
        match target {
            Some(name) => (
                CheckoutWorkflow { state: CheckoutState::Switching },
                CheckoutAction::CreateAndSwitch(name),
            ),
            None => (
                CheckoutWorkflow { state: CheckoutState::Listing },
                CheckoutAction::ListLocalBranches,
            ),
        }
    }

    /// One transition; see [`checkout_step_model`] for the exact statement.
    pub fn step(self, event: WorkflowEvent) -> (r: (CheckoutWorkflow, Option<CheckoutAction>))
        ensures
            (r.0.state@, opt_checkout_action_view(r.1)) =~= checkout_step_model(
                self.state@,
                event@,
            ),
    {
        let CheckoutWorkflow { state } = self;
        match (state, event) {
            (CheckoutState::Listing, WorkflowEvent::ListingOutput(raw)) => {
                match parse_local_branches(raw.as_str()) {
                    Ok(names) => (
                        CheckoutWorkflow { state: CheckoutState::Selecting },
                        Some(CheckoutAction::PromptSelect(names)),
                    ),
                    Err(pe) => (
                        CheckoutWorkflow {
                            state: CheckoutState::Done {
                                outcome: CheckoutOutcome::Failed(ErrorKind::Parse(pe)),
                            },
                        },
                        None,
                    ),
                }
            },
            (CheckoutState::Listing, WorkflowEvent::ExecFailed) => (
                CheckoutWorkflow {
                    state: CheckoutState::Done {
                        outcome: CheckoutOutcome::Failed(ErrorKind::Environment),
                    },
                },
                None,
            ),
            (CheckoutState::Selecting, WorkflowEvent::Selected(sel)) => {
                match sel {
                    SelectionOutcome::One(name) => (
                        CheckoutWorkflow { state: CheckoutState::Switching },
                        Some(CheckoutAction::Switch(name)),
                    ),
                    SelectionOutcome::Canceled => (
                        CheckoutWorkflow {
                            state: CheckoutState::Done { outcome: CheckoutOutcome::Canceled },
                        },
                        None,
                    ),
                    SelectionOutcome::Many(_) => (
                        CheckoutWorkflow { state: CheckoutState::Selecting },
                        None,
                    ),
                }
            },
            (CheckoutState::Selecting, WorkflowEvent::SelectionFailed) => (
                CheckoutWorkflow {
                    state: CheckoutState::Done {
                        outcome: CheckoutOutcome::Failed(ErrorKind::OtherSelection),
                    },
                },
                None,
            ),
            (CheckoutState::Switching, WorkflowEvent::ActionResult(ok)) => (
                CheckoutWorkflow {
                    state: CheckoutState::Done {
                        outcome: CheckoutOutcome::Completed { success: ok },
                    },
                },
                None,
            ),
            (CheckoutState::Switching, WorkflowEvent::ExecFailed) => (
                CheckoutWorkflow {
                    state: CheckoutState::Done {
                        outcome: CheckoutOutcome::Failed(ErrorKind::Environment),
                    },
                },
                None,
            ),
            (st, _) => (CheckoutWorkflow { state: st }, None),
        }
    }
}

/// The empty or one-element action trace of one step.
pub open spec fn opt_checkout_to_seq(a: Option<CheckoutActionModel>) -> Seq<CheckoutActionModel> {
    match a {
        Option::Some(x) => seq![x],
        Option::None => seq![],
    }
}

/// A whole checkout run: the final state and every action asked for.
pub open spec fn checkout_run_model(s: CheckoutStateModel, events: Seq<WorkflowEventModel>) -> (
    CheckoutStateModel,
    Seq<CheckoutActionModel>,
)
    decreases events.len(),
{
    if events.len() == 0 {
        (s, seq![])
    } else {
        let first = checkout_step_model(s, events[0]);
        let rest = checkout_run_model(first.0, events.drop_first());
        (rest.0, opt_checkout_to_seq(first.1) + rest.1)
    }
}

/// An action that changes the repository or the working tree.
pub open spec fn is_switching(a: CheckoutActionModel) -> bool {
    a is CreateAndSwitch || a is Switch
}

proof fn lemma_checkout_run_from_done(outcome: CheckoutOutcomeModel, events: Seq<WorkflowEventModel>)
    ensures
        checkout_run_model(CheckoutStateModel::Done { outcome }, events).0
            == (CheckoutStateModel::Done { outcome }),
        checkout_run_model(CheckoutStateModel::Done { outcome }, events).1 == Seq::<
            CheckoutActionModel,
        >::empty(),
    decreases events.len(),
{
    if events.len() == 0 {
        assert(checkout_run_model(CheckoutStateModel::Done { outcome }, events).1 =~= Seq::<
            CheckoutActionModel,
        >::empty());
    } else {
        lemma_checkout_run_from_done(outcome, events.drop_first());
        assert(checkout_run_model(CheckoutStateModel::Done { outcome }, events).1 =~= Seq::<
            CheckoutActionModel,
        >::empty());
    }
}

proof fn lemma_checkout_no_cancel_after_selection(
    s: CheckoutStateModel,
    events: Seq<WorkflowEventModel>,
)
    requires
        !(s is Listing || s is Selecting),
        s != (CheckoutStateModel::Done { outcome: CheckoutOutcomeModel::Canceled }),
    ensures
        checkout_run_model(s, events).0 != (CheckoutStateModel::Done {
            outcome: CheckoutOutcomeModel::Canceled,
        }),
    decreases events.len(),
{
    if events.len() > 0 {
        let first = checkout_step_model(s, events[0]);
        lemma_checkout_no_cancel_after_selection(first.0, events.drop_first());
    }
}

proof fn lemma_checkout_cancel_invariant(s: CheckoutStateModel, events: Seq<WorkflowEventModel>)
    requires
        s is Listing || s is Selecting,
    ensures
        ({
            let r = checkout_run_model(s, events);
            r.0 == (CheckoutStateModel::Done { outcome: CheckoutOutcomeModel::Canceled })
                ==> forall|i: int| 0 <= i < r.1.len() ==> !is_switching(#[trigger] r.1[i])
        }),
    decreases events.len(),
{
    if events.len() > 0 {
        let first = checkout_step_model(s, events[0]);
        let rest = checkout_run_model(first.0, events.drop_first());
        let r = checkout_run_model(s, events);
        if first.0 is Listing || first.0 is Selecting {
            lemma_checkout_cancel_invariant(first.0, events.drop_first());
            if r.0 == (CheckoutStateModel::Done { outcome: CheckoutOutcomeModel::Canceled }) {
                assert forall|i: int| 0 <= i < r.1.len() implies !is_switching(
                    #[trigger] r.1[i],
                ) by {
                    let lead = opt_checkout_to_seq(first.1);
                    if i >= lead.len() {
                        assert(r.1[i] == rest.1[i - lead.len()]);
                    }
                }
            }
        } else if first.0 == (CheckoutStateModel::Done {
            outcome: CheckoutOutcomeModel::Canceled,
        }) {
            lemma_checkout_run_from_done(CheckoutOutcomeModel::Canceled, events.drop_first());
            assert(first.1 is None);
            assert(r.1 =~= Seq::<CheckoutActionModel>::empty());
        } else {
            lemma_checkout_no_cancel_after_selection(first.0, events.drop_first());
        }
    }
}

/// Law: an interactive checkout run that ends canceled never asked for a
/// switch: the listing and the prompt are its only actions, and both leave
/// the repository untouched.
pub proof fn lemma_checkout_cancel_no_mutation(events: Seq<WorkflowEventModel>)
    ensures
        !is_switching(checkout_init_model(None).1),
        ({
            let r = checkout_run_model(checkout_init_model(None).0, events);
            r.0 == (CheckoutStateModel::Done { outcome: CheckoutOutcomeModel::Canceled })
                ==> forall|i: int| 0 <= i < r.1.len() ==> !is_switching(#[trigger] r.1[i])
        }),
{
    lemma_checkout_cancel_invariant(checkout_init_model(None).0, events);
}

} // verus!
