use infernoplex::directory::Directory;
use infernoplex::onboarding::{OnboardReceipt, SetupError};
use infernoplex::workflow::{
    confirm_reply, DeleteAction, DeleteEvent, DeleteOutcome, DeleteState, FormReply, PromptReply, SetupAction,
    SetupEvent, SetupOutcome, SetupState, UpdateAction, UpdateEvent, UpdateOutcome, UpdatePane, UpdateState,
};

#[test]
fn prompt_replies() {
    assert_eq!(confirm_reply(None), PromptReply::TimedOut);
    assert_eq!(confirm_reply(Some("cancel")), PromptReply::Cancel);
    assert_eq!(confirm_reply(Some("next")), PromptReply::Proceed);
    assert_eq!(confirm_reply(Some("confirm")), PromptReply::Proceed);
}

#[test]
fn setup_flow_to_listing() {
    let s = SetupState::Start;
    let (s, a) = s.step(SetupEvent::Invoked);
    assert_eq!(a, SetupAction::CheckListing);
    let (s, a) = s.step(SetupEvent::Listing(false));
    assert_eq!(a, SetupAction::ShowConfirm);
    let (s, a) = s.step(SetupEvent::Confirm(PromptReply::Proceed));
    assert_eq!(a, SetupAction::ShowForm);
    let (s, a) = s.step(SetupEvent::Form(FormReply::Submitted));
    assert_eq!(a, SetupAction::ChooseInvite);
    let (s, a) = s.step(SetupEvent::InviteChosen(true));
    assert_eq!(a, SetupAction::Commit);
    let receipt = OnboardReceipt { team_vanity: 1, server_vanity: 2 };
    let (s, a) = s.step(SetupEvent::Committed(receipt));
    assert_eq!(a, SetupAction::Report(SetupOutcome::Listed(receipt)));
    assert_eq!(s, SetupState::Done(SetupOutcome::Listed(receipt)));
}

#[test]
fn setup_flow_already_setup_redirects() {
    let (s, _) = SetupState::Start.step(SetupEvent::Invoked);
    let (s, a) = s.step(SetupEvent::Listing(true));
    assert_eq!(a, SetupAction::Report(SetupOutcome::AlreadySetup));
    assert_eq!(s, SetupState::Done(SetupOutcome::AlreadySetup));
}

#[test]
fn confirmation_timeout_ends_without_writes() {
    let d = Directory::new();
    let (s, _) = SetupState::Start.step(SetupEvent::Invoked);
    let (s, _) = s.step(SetupEvent::Listing(d.is_listed(1)));
    let (s, a) = s.step(SetupEvent::Confirm(confirm_reply(None)));
    assert_eq!(a, SetupAction::Report(SetupOutcome::ConfirmTimedOut));
    for e in [SetupEvent::Form(FormReply::Submitted), SetupEvent::InviteChosen(true), SetupEvent::Invoked] {
        let (s2, a2) = s.step(e);
        assert_eq!(s2, s);
        assert_eq!(a2, SetupAction::Ignore);
    }
    assert_eq!(d.servers.len() + d.teams.len() + d.vanity.len() + d.team_members.len() + d.users.len(), 0);
}

#[test]
fn setup_flow_other_endings() {
    let (s, a) = SetupState::AwaitingConfirm.step(SetupEvent::Confirm(PromptReply::Cancel));
    assert_eq!((s, a), (SetupState::Done(SetupOutcome::Cancelled), SetupAction::Report(SetupOutcome::Cancelled)));
    let (_, a) = SetupState::AwaitingForm.step(SetupEvent::Form(FormReply::TimedOut));
    assert_eq!(a, SetupAction::Report(SetupOutcome::FormTimedOut));
    let (_, a) = SetupState::ChoosingInvite.step(SetupEvent::InviteChosen(false));
    assert_eq!(a, SetupAction::Report(SetupOutcome::InviteFailed));
    let (_, a) = SetupState::Committing.step(SetupEvent::Aborted(SetupError::SlugTaken));
    assert_eq!(a, SetupAction::Report(SetupOutcome::Failed(SetupError::SlugTaken)));
    let (s, a) = SetupState::AwaitingForm.step(SetupEvent::Listing(false));
    assert_eq!((s, a), (SetupState::AwaitingForm, SetupAction::Ignore));
}

#[test]
fn delete_flow_on_never_onboarded_server() {
    let mut d = Directory::new();
    let (s, a) = DeleteState::Start.step(DeleteEvent::Invoked);
    assert_eq!(a, DeleteAction::CheckListing);
    let (s, a) = s.step(DeleteEvent::Listing(d.is_listed(5)));
    assert_eq!(a, DeleteAction::Report(DeleteOutcome::NotListed));
    assert_eq!(s, DeleteState::Done(DeleteOutcome::NotListed));
    assert!(d.delete_server(5).is_err());
    assert_eq!(d.servers.len() + d.vanity.len(), 0);
}

#[test]
fn delete_flow_paths() {
    let (g, a) = DeleteState::CheckingListing.step(DeleteEvent::Listing(true));
    assert_eq!(a, DeleteAction::CheckPermission);
    assert_eq!(g.step(DeleteEvent::Guard(false)).1, DeleteAction::Report(DeleteOutcome::Refused));
    let (refused, _) = g.step(DeleteEvent::Guard(false));
    assert_eq!(refused.step(DeleteEvent::Confirm(PromptReply::Proceed)).1, DeleteAction::Ignore);
    let (s, a) = g.step(DeleteEvent::Guard(true));
    assert_eq!(a, DeleteAction::ShowConfirm);
    let (s2, a2) = s.step(DeleteEvent::Confirm(PromptReply::Proceed));
    assert_eq!(a2, DeleteAction::Delete);
    assert_eq!(s2.step(DeleteEvent::Deleted(true)).1, DeleteAction::Report(DeleteOutcome::Deleted));
    assert_eq!(s.step(DeleteEvent::Confirm(PromptReply::Cancel)).1, DeleteAction::Report(DeleteOutcome::Cancelled));
    assert_eq!(s.step(DeleteEvent::Confirm(PromptReply::TimedOut)).1, DeleteAction::Report(DeleteOutcome::TimedOut));
}

#[test]
fn update_flow_paths() {
    let (s, a) = UpdateState::Start(UpdatePane::BasicInfo).step(UpdateEvent::Invoked);
    assert_eq!(a, UpdateAction::CheckPermission);
    assert_eq!(s.step(UpdateEvent::Guard(false)).1, UpdateAction::Report(UpdateOutcome::Refused));
    let (s, a) = s.step(UpdateEvent::Guard(true));
    assert_eq!(a, UpdateAction::ShowConfirm);
    let (s, a) = s.step(UpdateEvent::Confirm(PromptReply::Proceed));
    assert_eq!(a, UpdateAction::ShowForm);
    let (s, a) = s.step(UpdateEvent::Form(FormReply::Submitted));
    assert_eq!(a, UpdateAction::Write);
    assert_eq!(s.step(UpdateEvent::Written(true)).1, UpdateAction::Report(UpdateOutcome::Updated));
    assert_eq!(s.step(UpdateEvent::Rejected).1, UpdateAction::Report(UpdateOutcome::InvalidForm));
    let (s, a) = UpdateState::Guarding(UpdatePane::Invite).step(UpdateEvent::Guard(true));
    assert_eq!(a, UpdateAction::ChooseInvite);
    assert_eq!(s.step(UpdateEvent::InviteChosen(false)).1, UpdateAction::Report(UpdateOutcome::InviteFailed));
    assert_eq!(s.step(UpdateEvent::InviteChosen(true)).1, UpdateAction::Write);
}
