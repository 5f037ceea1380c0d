use infernoplex::config::{ConnectState, Differs, CURRENT_ENV};
use infernoplex::invite::{CreateInviteForUserError, CreateInviteForUserResult};
use infernoplex::media::{avatar_path, icon_or_default, server_page_url, webp_command, AvatarOwner};
use infernoplex::rpc::{
    invite_response, per_user_invite_result, query_guild, session_user, InfernoplexError, InfernoplexErrorResponse,
    InfernoplexResponse, Session, STATUS_BAD_REQUEST, STATUS_FORBIDDEN, STATUS_INTERNAL_SERVER_ERROR,
};
use infernoplex::tasks::{enabled_tasks, Task};
use std::time::Duration;

fn message(e: &InfernoplexErrorResponse) -> String {
    match &e.error {
        InfernoplexError::GenericError { message } => message.clone(),
        InfernoplexError::CreateInvite { message, .. } => message.clone(),
    }
}

fn session(target_type: &str, target_id: &str, expiry: i64) -> Session {
    Session {
        id: "s1".to_string(),
        name: None,
        created_at: 0,
        session_type: "login".to_string(),
        target_type: target_type.to_string(),
        target_id: target_id.to_string(),
        perm_limits: vec![],
        expiry,
    }
}

#[test]
fn differs_picks_environment() {
    let d = Differs { staging: "sls!".to_string(), prod: "sl!".to_string() };
    assert_eq!(d.get_for_env("staging"), "sls!");
    assert_eq!(d.get_for_env("prod"), "sl!");
    assert_eq!(d.get_for_env("anything"), "sl!");
    assert_eq!(d.get(), d.get_for_env(CURRENT_ENV));
}

#[test]
fn background_tasks_start_once() {
    let mut c = ConnectState::new();
    assert!(!c.on_ready(1, "prod"));
    assert!(!c.has_started_bgtasks);
    assert!(c.on_ready(0, "prod"));
    assert!(c.has_started_bgtasks);
    assert!(!c.on_ready(0, "prod"));
    let mut staging = ConnectState::new();
    assert!(!staging.on_ready(0, "staging"));
    assert!(staging.has_started_bgtasks);
}

#[test]
fn task_schedule() {
    let t = Task::ServerSync;
    assert!(t.enabled());
    assert_eq!(t.interval_secs(), 300);
    assert_eq!(t.duration(), Duration::from_secs(300));
    assert_eq!(t.description(), "Syncing servers");
    assert_eq!(t.name(), "server_sync");
    assert_eq!(enabled_tasks(), vec![Task::ServerSync]);
    assert_eq!(Task::all(), vec![Task::ServerSync]);
}

#[test]
fn query_guild_ids() {
    assert_eq!(query_guild("758641373074423808").ok(), Some(758641373074423808));
    let e = query_guild("abc").err().unwrap();
    assert_eq!(e.status, STATUS_BAD_REQUEST);
    assert_eq!(message(&e), "Invalid guild ID: invalid digit found in string");
    assert_eq!(message(&query_guild("0").err().unwrap()), "Invalid guild ID: number would be zero for non-zero type");
    assert_eq!(message(&query_guild("").err().unwrap()), "Invalid guild ID: cannot parse integer from empty string");
    assert_eq!(
        message(&query_guild("99999999999999999999").err().unwrap()),
        "Invalid guild ID: number too large to fit in target type"
    );
    assert_eq!(
        message(&query_guild("99999999999999999999x").err().unwrap()),
        "Invalid guild ID: number too large to fit in target type"
    );
    assert_eq!(message(&query_guild("+").err().unwrap()), "Invalid guild ID: invalid digit found in string");
    assert_eq!(query_guild("+15").ok(), Some(15));
}

#[test]
fn error_wording_matches_std() {
    for s in ["", "+", "-", "-5", "abc", "0", "00", "18446744073709551616", "1a", "+0"] {
        let std_text = s.parse::<serenity::all::GuildId>().err().unwrap().to_string();
        assert_eq!(message(&query_guild(s).err().unwrap()), format!("Invalid guild ID: {}", std_text), "{s}");
    }
}

#[test]
fn session_rules() {
    let e = session_user(None).err().unwrap();
    assert_eq!(e.status, STATUS_FORBIDDEN);
    assert!(e.session_invalid);
    assert_eq!(message(&e), "Invalid session token");
    let bot = session("bot", "12", 10);
    let e = session_user(Some(&bot)).err().unwrap();
    assert_eq!(message(&e), "CreateInvite can only be called on a user session");
    assert!(!e.session_invalid);
    let bad = session("user", "x12", 10);
    assert_eq!(message(&session_user(Some(&bad)).err().unwrap()), "Invalid user ID: invalid digit found in string");
    let zero = session("user", "0", 10);
    assert_eq!(message(&session_user(Some(&zero)).err().unwrap()), "Invalid user ID: number would be zero for non-zero type");
    let good = session("user", "12", 10);
    assert_eq!(session_user(Some(&good)).ok(), Some(12));
    assert!(good.is_expired(11));
    assert!(!good.is_expired(10));
}

#[test]
fn invite_answers() {
    let ok = invite_response(Ok(CreateInviteForUserResult::Invite { url: "u".to_string() }));
    assert!(matches!(ok, Ok(InfernoplexResponse::CreateInvite { result: CreateInviteForUserResult::Invite { ref url } }) if url == "u"));
    let err = invite_response(Err(CreateInviteForUserError::ServerHasNoInvite {})).err().unwrap();
    assert_eq!(err.status, STATUS_INTERNAL_SERVER_ERROR);
    assert_eq!(message(&err), "Server has no invite");
    assert!(matches!(err.error, InfernoplexError::CreateInvite { err: CreateInviteForUserError::ServerHasNoInvite {}, .. }));
    assert!(matches!(per_user_invite_result(Ok("https://discord.gg/x".to_string())), Ok(CreateInviteForUserResult::Invite { ref url }) if url == "https://discord.gg/x"));
    match per_user_invite_result(Err("missing access".to_string())) {
        Err(CreateInviteForUserError::Generic { message }) => assert_eq!(message, "Failed to create invite: missing access"),
        _ => panic!("expected a generic error"),
    }
}

#[test]
fn webp_commands() {
    let (p, args) = webp_command("https://cdn/icon.gif", "/tmp/in", "/cdn/out.webp");
    assert_eq!(p, "gif2webp");
    assert_eq!(args, vec!["-q", "100", "-m", "3", "/tmp/in", "-o", "/cdn/out.webp", "-v"]);
    let (p, args) = webp_command("https://cdn/icon.png", "/tmp/in", "/cdn/out.webp");
    assert_eq!(p, "cwebp");
    assert_eq!(args, vec!["-q", "100", "/tmp/in", "-o", "/cdn/out.webp", "-v"]);
}

#[test]
fn paths_and_links() {
    assert_eq!(avatar_path("/cdn/ibl", AvatarOwner::Team, "abc"), "/cdn/ibl/avatars/teams/abc.webp");
    assert_eq!(avatar_path("/cdn/ibl", AvatarOwner::Server, "42"), "/cdn/ibl/avatars/servers/42.webp");
    assert_eq!(server_page_url("https://infinitybots.gg", 42), "https://infinitybots.gg/servers/42");
    assert_eq!(icon_or_default(None), "https://cdn.discordapp.com/embed/avatars/0.png");
    assert_eq!(icon_or_default(Some("i".to_string())), "i");
}
