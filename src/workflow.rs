//! The interactive workflows as state machines: each step takes the state
//! and what happened, and gives the next state and what to do.
use vstd::prelude::*;
use crate::onboarding::{OnboardReceipt, SetupError};
use crate::text::same_text;

verus! {

/// What came of a confirm/cancel prompt.
#[derive(Clone, Copy, Debug, PartialEq, Eq, Structural)]
pub enum PromptReply {
    Proceed,
    Cancel,
    TimedOut,
}

/// What came of a form.
#[derive(Clone, Copy, Debug, PartialEq, Eq, Structural)]
pub enum FormReply {
    Submitted,
    TimedOut,
}

/// Reads the pressed button of a prompt: none within the wait window is a
/// timeout, `cancel` cancels, any other button goes on.
pub fn confirm_reply(component_id: Option<&str>) -> (r: PromptReply)
    ensures
        r == match component_id {
            None => PromptReply::TimedOut,
            Some(id) => if id@ == "cancel"@ { PromptReply::Cancel } else { PromptReply::Proceed },
        },
{
    match component_id {
        None => PromptReply::TimedOut,
        Some(id) => if same_text(id, "cancel") {
            PromptReply::Cancel
        } else {
            PromptReply::Proceed
        },
    }
}

/// How an onboarding ends.
#[derive(Clone, Copy, Debug, PartialEq, Eq, Structural)]
pub enum SetupOutcome {
    /// The server was listed already: the user is redirected.
    AlreadySetup,
    Cancelled,
    ConfirmTimedOut,
    FormTimedOut,
    /// No invite was chosen.
    InviteFailed,
    /// The transaction failed and was rolled back.
    Failed(SetupError),
    Listed(OnboardReceipt),
}

#[derive(Clone, Copy, Debug, PartialEq, Eq, Structural)]
pub enum SetupState {
    Start,
    CheckingListing,
    AwaitingConfirm,
    AwaitingForm,
    ChoosingInvite,
    Committing,
    Done(SetupOutcome),
}

#[derive(Clone, Copy, Debug, PartialEq, Eq, Structural)]
pub enum SetupEvent {
    /// The command was invoked.
    Invoked,
    /// Whether the server is listed.
    Listing(bool),
    Confirm(PromptReply),
    Form(FormReply),
    /// Whether an invite was chosen.
    InviteChosen(bool),
    /// The onboarding transaction committed.
    Committed(OnboardReceipt),
    /// The onboarding transaction was rolled back.
    Aborted(SetupError),
}

#[derive(Clone, Copy, Debug, PartialEq, Eq, Structural)]
pub enum SetupAction {
    CheckListing,
    ShowConfirm,
    ShowForm,
    ChooseInvite,
    /// Run the onboarding transaction.
    Commit,
    Report(SetupOutcome),
    /// The event does not apply to the state: nothing to do.
    Ignore,
}

pub open spec fn setup_next(s: SetupState, e: SetupEvent) -> (SetupState, SetupAction) {
    let done = |o: SetupOutcome| (SetupState::Done(o), SetupAction::Report(o));
    match (s, e) {
        (SetupState::Start, SetupEvent::Invoked) => (SetupState::CheckingListing, SetupAction::CheckListing),
        (SetupState::CheckingListing, SetupEvent::Listing(true)) => done(SetupOutcome::AlreadySetup),
        (SetupState::CheckingListing, SetupEvent::Listing(false)) => (SetupState::AwaitingConfirm, SetupAction::ShowConfirm),
        (SetupState::AwaitingConfirm, SetupEvent::Confirm(PromptReply::Proceed)) => (SetupState::AwaitingForm, SetupAction::ShowForm),
        (SetupState::AwaitingConfirm, SetupEvent::Confirm(PromptReply::Cancel)) => done(SetupOutcome::Cancelled),
        (SetupState::AwaitingConfirm, SetupEvent::Confirm(PromptReply::TimedOut)) => done(SetupOutcome::ConfirmTimedOut),
        (SetupState::AwaitingForm, SetupEvent::Form(FormReply::Submitted)) => (SetupState::ChoosingInvite, SetupAction::ChooseInvite),
        (SetupState::AwaitingForm, SetupEvent::Form(FormReply::TimedOut)) => done(SetupOutcome::FormTimedOut),
        (SetupState::ChoosingInvite, SetupEvent::InviteChosen(true)) => (SetupState::Committing, SetupAction::Commit),
        (SetupState::ChoosingInvite, SetupEvent::InviteChosen(false)) => done(SetupOutcome::InviteFailed),
        (SetupState::Committing, SetupEvent::Committed(receipt)) => done(SetupOutcome::Listed(receipt)),
        (SetupState::Committing, SetupEvent::Aborted(err)) => done(SetupOutcome::Failed(err)),
        _ => (s, SetupAction::Ignore),
    }
}

impl SetupState {
    /// One step of the onboarding workflow.
    pub fn step(self, e: SetupEvent) -> (r: (SetupState, SetupAction))
        ensures
            r == setup_next(self, e),
    {
        match (self, e) {
            (SetupState::Start, SetupEvent::Invoked) => (SetupState::CheckingListing, SetupAction::CheckListing),
            (SetupState::CheckingListing, SetupEvent::Listing(listed)) => if listed {
                (SetupState::Done(SetupOutcome::AlreadySetup), SetupAction::Report(SetupOutcome::AlreadySetup))
            } else {
                (SetupState::AwaitingConfirm, SetupAction::ShowConfirm)
            },
            (SetupState::AwaitingConfirm, SetupEvent::Confirm(reply)) => match reply {
                PromptReply::Proceed => (SetupState::AwaitingForm, SetupAction::ShowForm),
                PromptReply::Cancel => (SetupState::Done(SetupOutcome::Cancelled), SetupAction::Report(SetupOutcome::Cancelled)),
                PromptReply::TimedOut => (
                    SetupState::Done(SetupOutcome::ConfirmTimedOut),
                    SetupAction::Report(SetupOutcome::ConfirmTimedOut),
                ),
            },
            (SetupState::AwaitingForm, SetupEvent::Form(reply)) => match reply {
                FormReply::Submitted => (SetupState::ChoosingInvite, SetupAction::ChooseInvite),
                FormReply::TimedOut => (
                    SetupState::Done(SetupOutcome::FormTimedOut),
                    SetupAction::Report(SetupOutcome::FormTimedOut),
                ),
            },
            (SetupState::ChoosingInvite, SetupEvent::InviteChosen(chosen)) => if chosen {
                (SetupState::Committing, SetupAction::Commit)
            } else {
                (SetupState::Done(SetupOutcome::InviteFailed), SetupAction::Report(SetupOutcome::InviteFailed))
            },
            (SetupState::Committing, SetupEvent::Committed(receipt)) => (
                SetupState::Done(SetupOutcome::Listed(receipt)),
                SetupAction::Report(SetupOutcome::Listed(receipt)),
            ),
            (SetupState::Committing, SetupEvent::Aborted(err)) => (
                SetupState::Done(SetupOutcome::Failed(err)),
                SetupAction::Report(SetupOutcome::Failed(err)),
            ),
            _ => (self, SetupAction::Ignore),
        }
    }
}

/// A confirmation that is not answered in time ends the onboarding with a
/// timeout report; an ended onboarding never runs its transaction, whatever
/// happens next.
pub proof fn unanswered_confirmation_writes_nothing(o: SetupOutcome, e: SetupEvent)
    ensures
        setup_next(SetupState::AwaitingConfirm, SetupEvent::Confirm(PromptReply::TimedOut)) == (
            SetupState::Done(SetupOutcome::ConfirmTimedOut),
            SetupAction::Report(SetupOutcome::ConfirmTimedOut),
        ),
        setup_next(SetupState::Done(o), e) == (SetupState::Done(o), SetupAction::Ignore),
{
}

/// The transaction runs only after a confirmed prompt, a submitted form and
/// a chosen invite: the one step that asks for it leaves `ChoosingInvite`.
pub proof fn commit_only_after_invite(s: SetupState, e: SetupEvent)
    ensures
        setup_next(s, e).1 == SetupAction::Commit ==> s == SetupState::ChoosingInvite && e == SetupEvent::InviteChosen(true),
{
}

/// How a deletion ends.
#[derive(Clone, Copy, Debug, PartialEq, Eq, Structural)]
pub enum DeleteOutcome {
    /// The server was never listed.
    NotListed,
    /// The permission guard refused.
    Refused,
    Cancelled,
    TimedOut,
    Deleted,
}

#[derive(Clone, Copy, Debug, PartialEq, Eq, Structural)]
pub enum DeleteState {
    Start,
    CheckingListing,
    Guarding,
    AwaitingConfirm,
    Deleting,
    Done(DeleteOutcome),
}

#[derive(Clone, Copy, Debug, PartialEq, Eq, Structural)]
pub enum DeleteEvent {
    Invoked,
    Listing(bool),
    /// Whether the permission guard passed.
    Guard(bool),
    Confirm(PromptReply),
    /// Whether the deletion transaction found the server.
    Deleted(bool),
}

#[derive(Clone, Copy, Debug, PartialEq, Eq, Structural)]
pub enum DeleteAction {
    CheckListing,
    CheckPermission,
    ShowConfirm,
    /// Run the deletion transaction.
    Delete,
    Report(DeleteOutcome),
    Ignore,
}

pub open spec fn delete_next(s: DeleteState, e: DeleteEvent) -> (DeleteState, DeleteAction) {
    let done = |o: DeleteOutcome| (DeleteState::Done(o), DeleteAction::Report(o));
    match (s, e) {
        (DeleteState::Start, DeleteEvent::Invoked) => (DeleteState::CheckingListing, DeleteAction::CheckListing),
        (DeleteState::CheckingListing, DeleteEvent::Listing(false)) => done(DeleteOutcome::NotListed),
        (DeleteState::CheckingListing, DeleteEvent::Listing(true)) => (DeleteState::Guarding, DeleteAction::CheckPermission),
        (DeleteState::Guarding, DeleteEvent::Guard(false)) => done(DeleteOutcome::Refused),
        (DeleteState::Guarding, DeleteEvent::Guard(true)) => (DeleteState::AwaitingConfirm, DeleteAction::ShowConfirm),
        (DeleteState::AwaitingConfirm, DeleteEvent::Confirm(PromptReply::Proceed)) => (DeleteState::Deleting, DeleteAction::Delete),
        (DeleteState::AwaitingConfirm, DeleteEvent::Confirm(PromptReply::Cancel)) => done(DeleteOutcome::Cancelled),
        (DeleteState::AwaitingConfirm, DeleteEvent::Confirm(PromptReply::TimedOut)) => done(DeleteOutcome::TimedOut),
        (DeleteState::Deleting, DeleteEvent::Deleted(true)) => done(DeleteOutcome::Deleted),
        (DeleteState::Deleting, DeleteEvent::Deleted(false)) => done(DeleteOutcome::NotListed),
        _ => (s, DeleteAction::Ignore),
    }
}

impl DeleteState {
    /// One step of the deletion workflow.
    pub fn step(self, e: DeleteEvent) -> (r: (DeleteState, DeleteAction))
        ensures
            r == delete_next(self, e),
    {
        match (self, e) {
            (DeleteState::Start, DeleteEvent::Invoked) => (DeleteState::CheckingListing, DeleteAction::CheckListing),
            (DeleteState::CheckingListing, DeleteEvent::Listing(listed)) => if listed {
                (DeleteState::Guarding, DeleteAction::CheckPermission)
            } else {
                (DeleteState::Done(DeleteOutcome::NotListed), DeleteAction::Report(DeleteOutcome::NotListed))
            },
            (DeleteState::Guarding, DeleteEvent::Guard(passed)) => if passed {
                (DeleteState::AwaitingConfirm, DeleteAction::ShowConfirm)
            } else {
                (DeleteState::Done(DeleteOutcome::Refused), DeleteAction::Report(DeleteOutcome::Refused))
            },
            (DeleteState::AwaitingConfirm, DeleteEvent::Confirm(reply)) => match reply {
                PromptReply::Proceed => (DeleteState::Deleting, DeleteAction::Delete),
                PromptReply::Cancel => (DeleteState::Done(DeleteOutcome::Cancelled), DeleteAction::Report(DeleteOutcome::Cancelled)),
                PromptReply::TimedOut => (DeleteState::Done(DeleteOutcome::TimedOut), DeleteAction::Report(DeleteOutcome::TimedOut)),
            },
            (DeleteState::Deleting, DeleteEvent::Deleted(found)) => if found {
                (DeleteState::Done(DeleteOutcome::Deleted), DeleteAction::Report(DeleteOutcome::Deleted))
            } else {
                (DeleteState::Done(DeleteOutcome::NotListed), DeleteAction::Report(DeleteOutcome::NotListed))
            },
            _ => (self, DeleteAction::Ignore),
        }
    }
}

/// The deletion transaction runs only after a listed server's deletion was
/// confirmed, and the confirmation is asked only once the permission guard
/// has passed; a refused guard ends the workflow, and nothing that follows
/// deletes.
pub proof fn delete_only_after_guard_and_confirm(s: DeleteState, e: DeleteEvent, later: DeleteEvent)
    ensures
        delete_next(s, e).1 == DeleteAction::Delete ==> s == DeleteState::AwaitingConfirm && e == DeleteEvent::Confirm(PromptReply::Proceed),
        delete_next(s, e).0 == DeleteState::AwaitingConfirm && s != DeleteState::AwaitingConfirm ==> s == DeleteState::Guarding && e == DeleteEvent::Guard(true),
        delete_next(DeleteState::Guarding, DeleteEvent::Guard(false)) == (
            DeleteState::Done(DeleteOutcome::Refused),
            DeleteAction::Report(DeleteOutcome::Refused),
        ),
        delete_next(DeleteState::Done(DeleteOutcome::Refused), later).1 == DeleteAction::Ignore,
{
}

/// The pane of the update workflow.
#[derive(Clone, Copy, Debug, PartialEq, Eq, Structural)]
pub enum UpdatePane {
    BasicInfo,
    Invite,
}

/// How an update ends.
#[derive(Clone, Copy, Debug, PartialEq, Eq, Structural)]
pub enum UpdateOutcome {
    /// The permission guard refused.
    Refused,
    Cancelled,
    ConfirmTimedOut,
    FormTimedOut,
    InviteFailed,
    /// A description is outside its length bounds.
    InvalidForm,
    Updated,
    /// The write found no listed server.
    NotListed,
}

#[derive(Clone, Copy, Debug, PartialEq, Eq, Structural)]
pub enum UpdateState {
    Start(UpdatePane),
    Guarding(UpdatePane),
    AwaitingConfirm,
    AwaitingForm,
    ChoosingInvite,
    Writing,
    Done(UpdateOutcome),
}

#[derive(Clone, Copy, Debug, PartialEq, Eq, Structural)]
pub enum UpdateEvent {
    Invoked,
    /// Whether the permission guard passed.
    Guard(bool),
    Confirm(PromptReply),
    Form(FormReply),
    InviteChosen(bool),
    /// The write was refused: a description is outside its length bounds.
    Rejected,
    /// Whether the write found the server.
    Written(bool),
}

#[derive(Clone, Copy, Debug, PartialEq, Eq, Structural)]
pub enum UpdateAction {
    CheckPermission,
    ShowConfirm,
    ShowForm,
    ChooseInvite,
    /// Write the new fields.
    Write,
    Report(UpdateOutcome),
    Ignore,
}

pub open spec fn update_next(s: UpdateState, e: UpdateEvent) -> (UpdateState, UpdateAction) {
    let done = |o: UpdateOutcome| (UpdateState::Done(o), UpdateAction::Report(o));
    match (s, e) {
        (UpdateState::Start(p), UpdateEvent::Invoked) => (UpdateState::Guarding(p), UpdateAction::CheckPermission),
        (UpdateState::Guarding(_), UpdateEvent::Guard(false)) => done(UpdateOutcome::Refused),
        (UpdateState::Guarding(UpdatePane::BasicInfo), UpdateEvent::Guard(true)) => (UpdateState::AwaitingConfirm, UpdateAction::ShowConfirm),
        (UpdateState::Guarding(UpdatePane::Invite), UpdateEvent::Guard(true)) => (UpdateState::ChoosingInvite, UpdateAction::ChooseInvite),
        (UpdateState::AwaitingConfirm, UpdateEvent::Confirm(PromptReply::Proceed)) => (UpdateState::AwaitingForm, UpdateAction::ShowForm),
        (UpdateState::AwaitingConfirm, UpdateEvent::Confirm(PromptReply::Cancel)) => done(UpdateOutcome::Cancelled),
        (UpdateState::AwaitingConfirm, UpdateEvent::Confirm(PromptReply::TimedOut)) => done(UpdateOutcome::ConfirmTimedOut),
        (UpdateState::AwaitingForm, UpdateEvent::Form(FormReply::Submitted)) => (UpdateState::Writing, UpdateAction::Write),
        (UpdateState::AwaitingForm, UpdateEvent::Form(FormReply::TimedOut)) => done(UpdateOutcome::FormTimedOut),
        (UpdateState::ChoosingInvite, UpdateEvent::InviteChosen(true)) => (UpdateState::Writing, UpdateAction::Write),
        (UpdateState::ChoosingInvite, UpdateEvent::InviteChosen(false)) => done(UpdateOutcome::InviteFailed),
        (UpdateState::Writing, UpdateEvent::Written(true)) => done(UpdateOutcome::Updated),
        (UpdateState::Writing, UpdateEvent::Written(false)) => done(UpdateOutcome::NotListed),
        (UpdateState::Writing, UpdateEvent::Rejected) => done(UpdateOutcome::InvalidForm),
        _ => (s, UpdateAction::Ignore),
    }
}

impl UpdateState {
    /// One step of the update workflow.
    pub fn step(self, e: UpdateEvent) -> (r: (UpdateState, UpdateAction))
        ensures
            r == update_next(self, e),
    {
        match (self, e) {
            (UpdateState::Start(p), UpdateEvent::Invoked) => (UpdateState::Guarding(p), UpdateAction::CheckPermission),
            (UpdateState::Guarding(p), UpdateEvent::Guard(passed)) => if !passed {
                (UpdateState::Done(UpdateOutcome::Refused), UpdateAction::Report(UpdateOutcome::Refused))
            } else {
                match p {
                    UpdatePane::BasicInfo => (UpdateState::AwaitingConfirm, UpdateAction::ShowConfirm),
                    UpdatePane::Invite => (UpdateState::ChoosingInvite, UpdateAction::ChooseInvite),
                }
            },
            (UpdateState::AwaitingConfirm, UpdateEvent::Confirm(reply)) => match reply {
                PromptReply::Proceed => (UpdateState::AwaitingForm, UpdateAction::ShowForm),
                PromptReply::Cancel => (UpdateState::Done(UpdateOutcome::Cancelled), UpdateAction::Report(UpdateOutcome::Cancelled)),
                PromptReply::TimedOut => (
                    UpdateState::Done(UpdateOutcome::ConfirmTimedOut),
                    UpdateAction::Report(UpdateOutcome::ConfirmTimedOut),
                ),
            },
            (UpdateState::AwaitingForm, UpdateEvent::Form(reply)) => match reply {
                FormReply::Submitted => (UpdateState::Writing, UpdateAction::Write),
                FormReply::TimedOut => (UpdateState::Done(UpdateOutcome::FormTimedOut), UpdateAction::Report(UpdateOutcome::FormTimedOut)),
            },
            (UpdateState::ChoosingInvite, UpdateEvent::InviteChosen(chosen)) => if chosen {
                (UpdateState::Writing, UpdateAction::Write)
            } else {
                (UpdateState::Done(UpdateOutcome::InviteFailed), UpdateAction::Report(UpdateOutcome::InviteFailed))
            },
            (UpdateState::Writing, UpdateEvent::Written(found)) => if found {
                (UpdateState::Done(UpdateOutcome::Updated), UpdateAction::Report(UpdateOutcome::Updated))
            } else {
                (UpdateState::Done(UpdateOutcome::NotListed), UpdateAction::Report(UpdateOutcome::NotListed))
            },
            (UpdateState::Writing, UpdateEvent::Rejected) => (
                UpdateState::Done(UpdateOutcome::InvalidForm),
                UpdateAction::Report(UpdateOutcome::InvalidForm),
            ),
            _ => (self, UpdateAction::Ignore),
        }
    }
}

/// The update workflow writes only once the permission guard has passed:
/// a refused guard ends it, and nothing that follows writes.
pub proof fn refused_update_writes_nothing(p: UpdatePane, e: UpdateEvent)
    ensures
        update_next(UpdateState::Guarding(p), UpdateEvent::Guard(false)) == (
            UpdateState::Done(UpdateOutcome::Refused),
            UpdateAction::Report(UpdateOutcome::Refused),
        ),
        update_next(UpdateState::Done(UpdateOutcome::Refused), e).1 == UpdateAction::Ignore,
{
}

} // verus!
