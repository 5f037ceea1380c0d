use infernoplex::directory::{Directory, ReserveError, VanityTarget};
use infernoplex::listing::{revokes_membership, ListingError};
use infernoplex::onboarding::{
    descriptions_ok, member_count, precheck_onboarding, select_admins, validate_form, GuildMember, GuildStats, OnboardReceipt, OnboardRequest,
    SetupError, SetupForm,
};

const SERVER: u64 = 758641373074423808;
const OWNER: u64 = 111;

fn stats(owner: u64) -> GuildStats {
    GuildStats {
        name: "Gamers".to_string(),
        icon: "https://cdn.example/icon.png".to_string(),
        owner,
        total_members: 120,
        online_members: 30,
        nsfw: false,
    }
}

fn request(server_id: u64, team_id: u128, team_code: &str, slug: &str) -> OnboardRequest {
    OnboardRequest {
        server_id,
        team_id,
        team_code: team_code.to_string(),
        stats: stats(OWNER),
        members: vec![
            GuildMember { user_id: OWNER, bot: false, administrator: true },
            GuildMember { user_id: 222, bot: false, administrator: true },
            GuildMember { user_id: 333, bot: true, administrator: true },
            GuildMember { user_id: 444, bot: false, administrator: false },
        ],
        form: SetupForm {
            vanity: slug.to_string(),
            short: "A great community for gamers".to_string(),
            long: "Come and play with us every evening, all games welcome here.".to_string(),
        },
        invite: "none".to_string(),
        avatar_saved: true,
    }
}

fn row_counts(d: &Directory) -> (usize, usize, usize, usize, usize) {
    (d.users.len(), d.teams.len(), d.team_members.len(), d.vanity.len(), d.servers.len())
}

#[test]
fn onboarding_lists_server_with_owner_team() {
    let mut d = Directory::new();
    let receipt = d.onboard(&request(SERVER, 7, "teamcode-random", "myserver")).unwrap();
    assert_eq!(receipt, OnboardReceipt { team_vanity: 1, server_vanity: 2 });
    assert_eq!(d.servers.len(), 1);
    let server = &d.servers[0];
    assert_eq!(server.server_id, SERVER);
    assert_eq!(server.team_owner, 7);
    assert_eq!(server.short, "A great community for gamers");
    assert_eq!(server.total_members, 120);
    assert_eq!(server.online_members, 30);
    let vanity = d.vanity.iter().find(|v| v.itag == server.vanity_ref).unwrap();
    assert_eq!(vanity.code, "myserver");
    assert!(vanity.target == VanityTarget::Server(SERVER));
    assert_eq!(d.teams.len(), 1);
    assert_eq!(d.teams[0].name, "Gamers's Team");
    assert_eq!(d.teams[0].vanity_ref, 1);
    let owners: Vec<_> = d
        .team_members
        .iter()
        .filter(|m| m.team_id == 7 && m.flags == vec!["global.*".to_string()])
        .collect();
    assert_eq!(owners.len(), 1);
    assert_eq!(owners[0].user_id, OWNER);
    assert_eq!(owners[0].service, "infernoplex");
    let admins: Vec<u64> = d
        .team_members
        .iter()
        .filter(|m| m.flags == vec!["server.*".to_string()])
        .map(|m| m.user_id)
        .collect();
    assert_eq!(admins, vec![222]);
    assert_eq!(d.users.len(), 2);
    assert!(d.users.iter().all(|u| !u.developer && !u.certified && !u.staff));
}

#[test]
fn onboarded_server_passes_already_setup_check() {
    let mut d = Directory::new();
    assert!(!d.is_listed(SERVER));
    d.onboard(&request(SERVER, 7, "teamcode-random", "myserver")).unwrap();
    assert!(d.is_listed(SERVER));
}

#[test]
fn second_onboarding_redirects_without_new_rows() {
    let mut d = Directory::new();
    d.onboard(&request(SERVER, 7, "teamcode-random", "myserver")).unwrap();
    let before = row_counts(&d);
    let r = d.onboard(&request(SERVER, 8, "other-code", "otherslug"));
    assert!(r == Err(SetupError::AlreadySetup));
    assert_eq!(row_counts(&d), before);
}

#[test]
fn taken_slug_creates_no_team_or_server() {
    let mut d = Directory::new();
    d.onboard(&request(1, 7, "teamcode-one", "myserver")).unwrap();
    let before = row_counts(&d);
    let r = d.onboard(&request(2, 8, "teamcode-two", "myserver"));
    assert!(r == Err(SetupError::SlugTaken));
    assert_eq!(row_counts(&d), before);
    assert!(!d.is_listed(2));
}

#[test]
fn slug_taken_across_target_kinds() {
    let mut d = Directory::new();
    let tag = d.reserve_vanity("shared", VanityTarget::Team(5)).unwrap();
    assert_eq!(tag, 1);
    let r = d.reserve_vanity("shared", VanityTarget::Server(9));
    assert!(r == Err(ReserveError::SlugTaken));
    assert_eq!(d.vanity.len(), 1);
    assert!(d.vanity_taken("shared"));
    assert!(!d.vanity_taken("Shared"));
}

#[test]
fn slug_equal_to_team_code_is_taken() {
    let mut d = Directory::new();
    let r = d.onboard(&request(SERVER, 7, "myserver", "myserver"));
    assert!(r == Err(SetupError::SlugTaken));
    assert_eq!(row_counts(&d), (0, 0, 0, 0, 0));
}

#[test]
fn avatar_failure_rolls_back_everything() {
    let mut d = Directory::new();
    let mut req = request(SERVER, 7, "teamcode-random", "myserver");
    req.avatar_saved = false;
    assert!(d.onboard(&req) == Err(SetupError::AvatarFailed));
    assert_eq!(row_counts(&d), (0, 0, 0, 0, 0));
    assert_eq!(d.next_itag, 1);
}

#[test]
fn invalid_form_is_refused() {
    let mut d = Directory::new();
    let mut req = request(SERVER, 7, "teamcode-random", "myserver");
    req.form.short = "too short".to_string();
    assert!(d.onboard(&req) == Err(SetupError::InvalidForm));
    let mut req = request(SERVER, 7, "teamcode-random", "");
    req.form.vanity = String::new();
    assert!(d.onboard(&req) == Err(SetupError::InvalidForm));
    assert_eq!(row_counts(&d), (0, 0, 0, 0, 0));
}

#[test]
fn form_length_bounds() {
    let ok = SetupForm { vanity: "a".repeat(20), short: "s".repeat(100), long: "l".repeat(4000) };
    assert!(validate_form(&ok));
    let low = SetupForm { vanity: "a".to_string(), short: "s".repeat(20), long: "l".repeat(30) };
    assert!(validate_form(&low));
    let slug_long = SetupForm { vanity: "a".repeat(21), short: "s".repeat(20), long: "l".repeat(30) };
    assert!(!validate_form(&slug_long));
    let long_long = SetupForm { vanity: "a".to_string(), short: "s".repeat(20), long: "l".repeat(4001) };
    assert!(!validate_form(&long_long));
    let short_short = SetupForm { vanity: "a".to_string(), short: "s".repeat(19), long: "l".repeat(30) };
    assert!(!validate_form(&short_short));
}

#[test]
fn member_count_overflow_is_refused() {
    assert_eq!(member_count(2147483647), Some(2147483647));
    assert_eq!(member_count(2147483648), None);
    let mut d = Directory::new();
    let mut req = request(SERVER, 7, "teamcode-random", "myserver");
    req.stats.total_members = 2147483648;
    assert!(d.onboard(&req) == Err(SetupError::MemberCountOverflow));
    assert_eq!(row_counts(&d), (0, 0, 0, 0, 0));
}

#[test]
fn team_conflict_is_refused() {
    let mut d = Directory::new();
    d.onboard(&request(1, 7, "teamcode-one", "first")).unwrap();
    let r = d.onboard(&request(2, 7, "teamcode-two", "second"));
    assert!(r == Err(SetupError::TeamConflict));
    let r = d.onboard(&request(2, 8, "teamcode-one", "second"));
    assert!(r == Err(SetupError::TeamConflict));
    assert!(!d.is_listed(2));
}

#[test]
fn admins_exclude_bots_owner_and_non_admins() {
    let members = vec![
        GuildMember { user_id: 1, bot: false, administrator: true },
        GuildMember { user_id: 2, bot: true, administrator: true },
        GuildMember { user_id: 3, bot: false, administrator: false },
        GuildMember { user_id: 4, bot: false, administrator: true },
    ];
    assert_eq!(select_admins(1, &members), vec![4]);
    assert_eq!(select_admins(9, &members), vec![1, 4]);
    assert!(select_admins(9, &vec![]).is_empty());
}

#[test]
fn new_team_holds_exactly_owner_and_admins() {
    let mut d = Directory::new();
    d.onboard(&request(1, 7, "teamcode-one", "first")).unwrap();
    d.onboard(&request(2, 8, "teamcode-two", "second")).unwrap();
    let mut rows: Vec<(u64, Vec<String>)> =
        d.team_members.iter().filter(|m| m.team_id == 8).map(|m| (m.user_id, m.flags.clone())).collect();
    rows.sort();
    assert_eq!(rows, vec![(OWNER, vec!["global.*".to_string()]), (222, vec!["server.*".to_string()])]);
}

#[test]
fn existing_users_are_not_duplicated() {
    let mut d = Directory::new();
    d.ensure_user(OWNER);
    d.ensure_user(OWNER);
    assert_eq!(d.users.len(), 1);
    d.onboard(&request(SERVER, 7, "teamcode-random", "myserver")).unwrap();
    assert_eq!(d.users.iter().filter(|u| u.user_id == OWNER).count(), 1);
}

#[test]
fn delete_removes_server_and_vanity_but_keeps_team() {
    let mut d = Directory::new();
    d.onboard(&request(SERVER, 7, "teamcode-random", "myserver")).unwrap();
    assert!(d.delete_server(SERVER).is_ok());
    assert!(!d.is_listed(SERVER));
    assert!(!d.vanity_taken("myserver"));
    assert!(d.vanity_taken("teamcode-random"));
    assert_eq!(d.teams.len(), 1);
    assert_eq!(d.team_members.len(), 2);
}

#[test]
fn delete_of_never_onboarded_server_reports_not_listed() {
    let mut d = Directory::new();
    d.onboard(&request(1, 7, "teamcode-random", "myserver")).unwrap();
    let before = row_counts(&d);
    assert!(d.delete_server(2) == Err(ListingError::NotListed));
    assert_eq!(row_counts(&d), before);
}

#[test]
fn basic_info_update_twice_is_idempotent() {
    let mut d = Directory::new();
    d.onboard(&request(SERVER, 7, "teamcode-random", "myserver")).unwrap();
    let short = "An even better community!";
    let long = "We now host weekly tournaments for every single game.";
    assert!(d.update_basic_info(SERVER, short, long).is_ok());
    let once = (d.servers[0].short.clone(), d.servers[0].long.clone(), row_counts(&d));
    assert!(d.update_basic_info(SERVER, short, long).is_ok());
    let twice = (d.servers[0].short.clone(), d.servers[0].long.clone(), row_counts(&d));
    assert_eq!(once, twice);
    assert_eq!(d.servers[0].short, short);
    assert_eq!(d.servers[0].name, "Gamers");
}

#[test]
fn update_requires_listed_server_and_valid_lengths() {
    let mut d = Directory::new();
    assert!(d.update_basic_info(5, &"s".repeat(20), &"l".repeat(30)) == Err(ListingError::NotListed));
    assert!(d.update_invite(5, "none") == Err(ListingError::NotListed));
    d.onboard(&request(5, 7, "teamcode-random", "myserver")).unwrap();
    assert!(d.update_basic_info(5, "short", &"l".repeat(30)) == Err(ListingError::InvalidForm));
    assert!(d.update_invite(5, "invite_url:https://discord.gg/abc").is_ok());
    assert_eq!(d.servers[0].invite, "invite_url:https://discord.gg/abc");
}

#[test]
fn membership_sync_revokes_only_onboarding_grants() {
    let mut d = Directory::new();
    d.onboard(&request(SERVER, 7, "teamcode-random", "myserver")).unwrap();
    d.upsert_member(infernoplex::directory::TeamMemberRow {
        team_id: 7,
        user_id: 555,
        flags: vec!["server.edit".to_string()],
        service: "website".to_string(),
    });
    assert_eq!(d.team_members.len(), 3);
    d.on_member_update(SERVER, 222, false, true);
    assert_eq!(d.team_members.len(), 3);
    d.on_member_update(SERVER, 222, true, false);
    assert_eq!(d.team_members.len(), 3);
    d.on_member_update(SERVER, 222, false, false);
    assert_eq!(d.team_members.len(), 2);
    assert!(d.member_index(7, 222).is_none());
    d.on_member_removal(SERVER, 555);
    assert_eq!(d.team_members.len(), 2);
    d.on_member_removal(99, OWNER);
    assert_eq!(d.team_members.len(), 2);
    d.on_member_removal(SERVER, OWNER);
    assert_eq!(d.team_members.len(), 1);
}

#[test]
fn member_upsert_replaces_flags() {
    let mut d = Directory::new();
    d.onboard(&request(SERVER, 1, "teamcode-random", "myserver")).unwrap();
    let row = |flags: Vec<&str>| infernoplex::directory::TeamMemberRow {
        team_id: 1,
        user_id: 2,
        flags: flags.into_iter().map(|f| f.to_string()).collect(),
        service: "infernoplex".to_string(),
    };
    let before = d.team_members.len();
    d.upsert_member(row(vec!["server.edit"]));
    d.upsert_member(row(vec!["server.delete"]));
    assert_eq!(d.team_members.len(), before + 1);
    let stored = d.member_index(1, 2).unwrap();
    assert_eq!(d.team_members[stored].flags, vec!["server.delete".to_string()]);
}

#[test]
fn onboarding_prechecks_and_revocation_rule() {
    let form = request(SERVER, 7, "code", "myserver").form;
    assert_eq!(precheck_onboarding(&form, 10, 3), Ok((10, 3)));
    assert_eq!(precheck_onboarding(&form, 10, 2147483648), Err(SetupError::MemberCountOverflow));
    let bad = SetupForm { vanity: String::new(), short: form.short.clone(), long: form.long.clone() };
    assert_eq!(precheck_onboarding(&bad, 2147483648, 0), Err(SetupError::InvalidForm));
    assert!(descriptions_ok(&"s".repeat(20), &"l".repeat(30)));
    assert!(!descriptions_ok(&"s".repeat(101), &"l".repeat(30)));
    assert!(revokes_membership(false, false));
    assert!(!revokes_membership(true, false));
    assert!(!revokes_membership(false, true));
}
