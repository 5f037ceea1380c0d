use infernoplex::capability::{has_capability, resolve, Action, Capability};
use infernoplex::directory::{Directory, TeamMemberRow};
use infernoplex::onboarding::{GuildMember, GuildStats, OnboardRequest, SetupForm};
use infernoplex::permissions::{decide_permission, TeamLookup, check_for_permission, get_member_team_permissions, GetMemberTeamPermissionsResult, PermissionError};

fn onboarded(server: u64, owner: u64, admin: u64) -> Directory {
    let mut d = Directory::new();
    let req = OnboardRequest {
        server_id: server,
        team_id: 42,
        team_code: "random-team-code".to_string(),
        stats: GuildStats {
            name: "Guild".to_string(),
            icon: String::new(),
            owner,
            total_members: 3,
            online_members: 1,
            nsfw: true,
        },
        members: vec![GuildMember { user_id: admin, bot: false, administrator: true }],
        form: SetupForm {
            vanity: "guild".to_string(),
            short: "A short description here".to_string(),
            long: "A long description of this server, over thirty characters.".to_string(),
        },
        invite: "none".to_string(),
        avatar_saved: true,
    };
    d.onboard(&req).unwrap();
    d
}

fn flags(caps: &[Capability]) -> Vec<String> {
    caps.iter().map(|c| c.to_flag()).collect()
}

#[test]
fn owner_resolves_to_global_wildcard_and_passes_every_check() {
    let d = onboarded(10, 1, 2);
    match get_member_team_permissions(&d, 10, 1) {
        GetMemberTeamPermissionsResult::Found(caps) => assert_eq!(flags(&caps), vec!["global.*".to_string()]),
        _ => panic!("owner must be found"),
    }
    for perm in ["server.edit", "server.delete", "team.transfer", "anything"] {
        assert_eq!(check_for_permission(&d, Some(10), 1, perm), Ok(()));
    }
}

#[test]
fn administrator_gets_server_capabilities_only() {
    let d = onboarded(10, 1, 2);
    assert_eq!(check_for_permission(&d, Some(10), 2, "server.edit"), Ok(()));
    assert_eq!(check_for_permission(&d, Some(10), 2, "server.delete"), Ok(()));
    assert_eq!(check_for_permission(&d, Some(10), 2, "team.delete"), Err(PermissionError::Missing));
}

#[test]
fn non_member_is_not_in_team() {
    let d = onboarded(10, 1, 2);
    assert!(matches!(get_member_team_permissions(&d, 10, 3), GetMemberTeamPermissionsResult::MemberNotInTeam));
    assert_eq!(check_for_permission(&d, Some(10), 3, "server.edit"), Err(PermissionError::NotInTeam));
}

#[test]
fn unlisted_server_is_not_found() {
    let d = onboarded(10, 1, 2);
    assert!(matches!(get_member_team_permissions(&d, 11, 1), GetMemberTeamPermissionsResult::ServerNotFound));
    assert_eq!(check_for_permission(&d, Some(11), 1, "server.edit"), Err(PermissionError::ServerNotListed));
    assert_eq!(check_for_permission(&d, None, 1, "server.edit"), Err(PermissionError::NotInServer));
}

#[test]
fn guard_refuses_before_any_write() {
    let mut d = onboarded(10, 1, 2);
    d.upsert_member(TeamMemberRow {
        team_id: 42,
        user_id: 7,
        flags: vec!["server.view".to_string()],
        service: "website".to_string(),
    });
    assert_eq!(check_for_permission(&d, Some(10), 7, "server.edit"), Err(PermissionError::Missing));
    assert_eq!(check_for_permission(&d, Some(10), 7, "server.view"), Ok(()));
}

#[test]
fn capability_parsing() {
    let c = Capability::parse("server.edit");
    assert_eq!(c.namespace, "server");
    assert!(matches!(c.action, Action::Named(ref a) if a == "edit"));
    let w = Capability::parse("server.*");
    assert!(matches!(w.action, Action::Wildcard));
    let g = Capability::parse("owner");
    assert_eq!(g.namespace, "global");
    assert!(matches!(g.action, Action::Named(ref a) if a == "owner"));
    let nested = Capability::parse("a.b.c");
    assert_eq!(nested.namespace, "a");
    assert!(matches!(nested.action, Action::Named(ref a) if a == "b.c"));
    assert_eq!(w.to_flag(), "server.*");
    assert_eq!(c.to_flag(), "server.edit");
}

#[test]
fn wildcard_coverage() {
    let w = Capability::parse("server.*");
    let g = Capability::parse("global.*");
    assert!(w.covers(&Capability::parse("server.edit")));
    assert!(!w.covers(&Capability::parse("team.edit")));
    assert!(g.covers(&Capability::parse("team.edit")));
    assert!(Capability::parse("server.edit").covers(&Capability::parse("server.edit")));
    assert!(!Capability::parse("server.edit").covers(&Capability::parse("server.delete")));
    assert!(!Capability::parse("server.edit").covers(&Capability::parse("server.*")));
}

#[test]
fn resolve_deduplicates_in_first_order() {
    let stored = vec![
        "server.edit".to_string(),
        "server.*".to_string(),
        "server.edit".to_string(),
        "team.view".to_string(),
        "server.*".to_string(),
    ];
    let caps = resolve(&stored);
    assert_eq!(flags(&caps), vec!["server.edit", "server.*", "team.view"]);
    assert!(has_capability(&caps, &Capability::parse("server.delete")));
    assert!(!has_capability(&caps, &Capability::parse("team.edit")));
    assert!(resolve(&vec![]).is_empty());
    assert!(!has_capability(&vec![], &Capability::parse("server.edit")));
}

#[test]
fn permission_decision_on_looked_up_values() {
    assert_eq!(decide_permission(None, "server.edit"), Err(PermissionError::NotInServer));
    assert_eq!(decide_permission(Some(&TeamLookup::ServerNotFound), "server.edit"), Err(PermissionError::ServerNotListed));
    assert_eq!(decide_permission(Some(&TeamLookup::MemberNotInTeam), "server.edit"), Err(PermissionError::NotInTeam));
    let admin = TeamLookup::Flags(vec!["server.*".to_string()]);
    assert_eq!(decide_permission(Some(&admin), "server.delete"), Ok(()));
    assert_eq!(decide_permission(Some(&admin), "team.delete"), Err(PermissionError::Missing));
    let owner = TeamLookup::Flags(vec!["global.*".to_string()]);
    assert_eq!(decide_permission(Some(&owner), "team.delete"), Ok(()));
}
