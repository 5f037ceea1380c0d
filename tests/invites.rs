use infernoplex::invite::{
    audit_reason, channel_field, check_invite_expiry, create_invite_for_user, invite_choice, invite_code,
    per_user_from_form, ChannelPlace, CreateInviteForUserError, CreateInviteForUserResult, InviteDescriptor,
    InviteKind, InvitePlan, InviteSettings, InviteSetupError,
};

fn settings(invite: &str) -> InviteSettings {
    InviteSettings {
        login_required_for_invite: false,
        blacklisted_users: vec![],
        invite: invite.to_string(),
        server_type: "approved".to_string(),
        state: "public".to_string(),
    }
}

fn per_user(d: &Option<InviteDescriptor>) -> Option<(u64, u8, u32)> {
    match d {
        Some(InviteDescriptor::PerUser { channel_id, max_uses, max_age }) => Some((*channel_id, *max_uses, *max_age)),
        _ => None,
    }
}

#[test]
fn descriptor_none_and_url() {
    assert!(matches!(InviteDescriptor::parse("none"), Some(InviteDescriptor::NoInvite)));
    match InviteDescriptor::parse("invite_url:https://discord.gg/abc") {
        Some(InviteDescriptor::InviteUrl(u)) => assert_eq!(u, "https://discord.gg/abc"),
        _ => panic!("expected an invite url"),
    }
}

#[test]
fn descriptor_per_user_defaults() {
    assert_eq!(per_user(&InviteDescriptor::parse("per_user:123456789012345678")), Some((123456789012345678, 1, 300)));
    assert_eq!(per_user(&InviteDescriptor::parse("per_user:42:5")), Some((42, 5, 300)));
    assert_eq!(per_user(&InviteDescriptor::parse("per_user:42:5:600")), Some((42, 5, 600)));
    assert_eq!(per_user(&InviteDescriptor::parse("per_user:42:5:600:extra")), Some((42, 5, 600)));
    assert_eq!(per_user(&InviteDescriptor::parse("per_user:+42:+5:0")), Some((42, 5, 0)));
}

#[test]
fn descriptor_invalid_forms() {
    for s in ["", "nothing", "per_user", "per_user:0", "per_user:abc", "per_user:42:256", "per_user:42:-1", "per_user:42:1:4294967296", "other:1", "None"] {
        assert!(InviteDescriptor::parse(s).is_none(), "{s} should be invalid");
    }
}

#[test]
fn descriptor_round_trip() {
    let ds = vec![
        InviteDescriptor::NoInvite,
        InviteDescriptor::InviteUrl("https://discord.gg/a:b".to_string()),
        InviteDescriptor::PerUser { channel_id: 870950609291972618, max_uses: 255, max_age: 0 },
    ];
    let texts = vec!["none", "invite_url:https://discord.gg/a:b", "per_user:870950609291972618:255:0"];
    for (d, t) in ds.iter().zip(texts) {
        assert_eq!(d.to_text(), t);
        assert_eq!(InviteDescriptor::parse(t).unwrap().to_text(), t);
    }
}

#[test]
fn invite_for_unknown_server() {
    assert!(matches!(create_invite_for_user(None, Some(1), false), Err(CreateInviteForUserError::ServerNotFound {})));
}

#[test]
fn invite_policy_errors() {
    let mut s = settings("invite_url:https://discord.gg/abc");
    s.login_required_for_invite = true;
    s.blacklisted_users = vec!["77".to_string()];
    assert!(matches!(create_invite_for_user(Some(&s), None, false), Err(CreateInviteForUserError::ServerNeedsLoginForInvite {})));
    assert!(matches!(create_invite_for_user(Some(&s), Some(77), false), Err(CreateInviteForUserError::UserIsBlacklisted {})));
    assert!(matches!(create_invite_for_user(Some(&s), Some(78), false), Ok(InvitePlan::Ready(_))));
    assert!(matches!(create_invite_for_user(Some(&s), None, true), Ok(InvitePlan::Ready(_))));
    let mut s = settings("none");
    s.server_type = "pending".to_string();
    assert!(matches!(create_invite_for_user(Some(&s), None, false), Err(CreateInviteForUserError::ServerTypeNotApprovedOrCertified {})));
    s.server_type = "certified".to_string();
    s.state = "private".to_string();
    assert!(matches!(create_invite_for_user(Some(&s), None, false), Err(CreateInviteForUserError::ServerStateNotPublic {})));
}

#[test]
fn invite_descriptor_errors_and_plans() {
    assert!(matches!(create_invite_for_user(Some(&settings("none")), None, false), Err(CreateInviteForUserError::ServerHasNoInvite {})));
    assert!(matches!(create_invite_for_user(Some(&settings("garbage")), None, false), Err(CreateInviteForUserError::ServerHasInvalidInvite {})));
    match create_invite_for_user(Some(&settings("invite_url:https://discord.gg/abc")), None, false) {
        Ok(InvitePlan::Ready(CreateInviteForUserResult::Invite { url })) => assert_eq!(url, "https://discord.gg/abc"),
        _ => panic!("expected a ready invite"),
    }
    assert!(matches!(
        create_invite_for_user(Some(&settings("per_user:99:3")), None, false),
        Ok(InvitePlan::CreatePerUser { channel_id: 99, max_uses: 3, max_age: 300 })
    ));
}

#[test]
fn invite_error_messages() {
    assert_eq!(CreateInviteForUserError::ServerNotFound {}.message(), "Server not found");
    assert_eq!(CreateInviteForUserError::ServerHasNoInvite {}.message(), "Server has no invite");
    assert_eq!(CreateInviteForUserError::ServerStateNotPublic {}.message(), "Server is not public");
    assert_eq!(CreateInviteForUserError::Generic { message: "boom".to_string() }.message(), "boom");
    assert_eq!(CreateInviteForUserError::ServerNeedsLoginForInvite {}.message(), "In order to view this server, you must login!");
}

#[test]
fn audit_reasons() {
    assert_eq!(audit_reason(Some(1234)), "Invite created for user 1234");
    assert_eq!(audit_reason(Some(0)), "Invite created for user 0");
    assert_eq!(audit_reason(None), "Invite created for anonymous user");
}

#[test]
fn invite_kind_choice() {
    assert_eq!(invite_choice(None), Err(InviteSetupError::ChoiceTimedOut));
    assert_eq!(invite_choice(Some("cancel")), Err(InviteSetupError::Cancelled));
    assert_eq!(invite_choice(Some("invite_url")), Ok(InviteKind::InviteUrl));
    assert_eq!(invite_choice(Some("per_user")), Ok(InviteKind::PerUser));
    assert_eq!(invite_choice(Some("none")), Ok(InviteKind::NoInvite));
    assert_eq!(invite_choice(Some("p1")), Err(InviteSetupError::InvalidChoice));
}

#[test]
fn invite_url_checks() {
    assert_eq!(invite_code("https://discord.com/invite/abcDEF").unwrap(), "abcDEF");
    assert_eq!(invite_code("https://discord.gg/xyz").unwrap(), "xyz");
    assert_eq!(invite_code("https://example.com/invite/abc"), Err(InviteSetupError::InvalidUrl));
    assert_eq!(check_invite_expiry(None), Ok(()));
    assert_eq!(check_invite_expiry(Some(3)), Err(InviteSetupError::ExpiryTooShort));
    assert_eq!(check_invite_expiry(Some(90)), Err(InviteSetupError::NotPermanent));
}

#[test]
fn per_user_form() {
    assert_eq!(channel_field("123456789012345678"), Ok(123456789012345678));
    assert_eq!(channel_field("0"), Err(InviteSetupError::InvalidChannelId));
    assert_eq!(channel_field("12a"), Err(InviteSetupError::InvalidChannelId));
    let d = per_user_from_form(5, ChannelPlace::Guild(9), 9, "10", "600").unwrap();
    assert_eq!(d.to_text(), "per_user:5:10:600");
    assert!(matches!(per_user_from_form(5, ChannelPlace::Guild(8), 9, "1", "0"), Err(InviteSetupError::ForeignChannel)));
    assert!(matches!(per_user_from_form(5, ChannelPlace::Private, 9, "1", "0"), Err(InviteSetupError::NotGuildChannel)));
    assert!(matches!(per_user_from_form(5, ChannelPlace::Guild(9), 9, "300", "0"), Err(InviteSetupError::InvalidNumber)));
    assert!(matches!(per_user_from_form(5, ChannelPlace::Guild(9), 9, "1", "x"), Err(InviteSetupError::InvalidNumber)));
}
