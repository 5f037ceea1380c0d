//! Resolving what a user may do on a listed server, through its team.
use vstd::prelude::*;
use crate::capability::{
    cap_views, covers, flag_views, global_namespace, granted, has_capability, parse_flag, resolve,
    resolve_flags, Capability, CapabilityModel,
};
use crate::directory::{directory_wf, has_server, has_team, is_member, Directory, DirectoryView};
use crate::onboarding::{
    admin_member, onboarded, onboarding_error, owner_flag, owner_member, team_admins, with_admins,
    GuildMember, OnboardRequest,
};
use crate::directory::{with_member, MemberView};
use crate::text::first_index_of;

verus! {

/// What a user's team grants on a server.
pub enum GetMemberTeamPermissionsResult {
    /// The user's capabilities, deduplicated.
    Found(Vec<Capability>),
    /// The server is not listed.
    ServerNotFound,
    /// The user is not a member of the server's team.
    MemberNotInTeam,
}

/// Why a permission check failed.
#[derive(Debug, PartialEq, Eq, Structural)]
pub enum PermissionError {
    /// The operation was not run in a server.
    NotInServer,
    /// The server is not listed.
    ServerNotListed,
    /// The user is not a member of the server's team.
    NotInTeam,
    /// The user's team does not grant the required capability.
    Missing,
}

/// The team that owns the listed server `id`.
pub open spec fn server_team(d: DirectoryView, id: u64) -> u128 {
    let i = choose|i: int| 0 <= i < d.servers.len() && d.servers[i].server_id == id;
    d.servers[i].team_owner
}

/// The flags of the membership row of `user` in `team`.
pub open spec fn member_flags(d: DirectoryView, team: u128, user: u64) -> Seq<Seq<char>> {
    let i = choose|i: int| 0 <= i < d.members.len() && d.members[i].team_id == team && d.members[i].user_id == user;
    d.members[i].flags
}

/// Whether `user` is in the team of the listed server `server`.
pub open spec fn in_server_team(d: DirectoryView, server: u64, user: u64) -> bool {
    has_server(d, server) && is_member(d.members, server_team(d, server), user)
}

/// The capabilities of `user` on the listed server `server`.
pub open spec fn server_capabilities(d: DirectoryView, server: u64, user: u64) -> Seq<CapabilityModel> {
    resolve_flags(member_flags(d, server_team(d, server), user))
}

/// Whether `user` may do `required` on `server`.
pub open spec fn permitted(d: DirectoryView, server: u64, user: u64, required: CapabilityModel) -> bool {
    in_server_team(d, server, user) && granted(server_capabilities(d, server, user), required)
}

/// Looks up the server's team, then the user's membership in it, and
/// resolves the membership's flags into capabilities.
pub fn get_member_team_permissions(dir: &Directory, guild_id: u64, user_id: u64) -> (r: GetMemberTeamPermissionsResult)
    requires
        directory_wf(dir@),
    ensures
        match r {
            GetMemberTeamPermissionsResult::ServerNotFound => !has_server(dir@, guild_id),
            GetMemberTeamPermissionsResult::MemberNotInTeam => has_server(dir@, guild_id)
                && !in_server_team(dir@, guild_id, user_id),
            GetMemberTeamPermissionsResult::Found(caps) => in_server_team(dir@, guild_id, user_id)
                && cap_views(caps@) == server_capabilities(dir@, guild_id, user_id),
        },
{
    let s = match dir.server_index(guild_id) {
        Some(s) => s,
        None => {
            return GetMemberTeamPermissionsResult::ServerNotFound;
        },
    };
    let team = dir.servers[s].team_owner;
    proof {
        let d = dir@;
        let k = choose|k: int| 0 <= k < d.servers.len() && d.servers[k].server_id == guild_id;
        assert(k == s as int);
        assert(server_team(d, guild_id) == team);
    }
    let m = match dir.member_index(team, user_id) {
        Some(m) => m,
        None => {
            return GetMemberTeamPermissionsResult::MemberNotInTeam;
        },
    };
    proof {
        let d = dir@;
        let k = choose|k: int| 0 <= k < d.members.len() && d.members[k].team_id == team && d.members[k].user_id == user_id;
        assert(k == m as int);
        assert(member_flags(d, team, user_id) == flag_views(dir.team_members@[m as int].flags@));
    }
    GetMemberTeamPermissionsResult::Found(resolve(&dir.team_members[m].flags))
}

/// Checks that the user may do `perm` on the server the operation runs in.
pub fn check_for_permission(dir: &Directory, guild_id: Option<u64>, user_id: u64, perm: &str) -> (r: Result<(), PermissionError>)
    requires
        directory_wf(dir@),
    ensures
        r == match guild_id {
            None => Err::<(), PermissionError>(PermissionError::NotInServer),
            Some(g) => if !has_server(dir@, g) {
                Err(PermissionError::ServerNotListed)
            } else if !in_server_team(dir@, g, user_id) {
                Err(PermissionError::NotInTeam)
            } else if !granted(server_capabilities(dir@, g, user_id), parse_flag(perm@)) {
                Err(PermissionError::Missing)
            } else {
                Ok(())
            },
        },
{
    let g = match guild_id {
        Some(g) => g,
        None => {
            return Err(PermissionError::NotInServer);
        },
    };
    match get_member_team_permissions(dir, g, user_id) {
        GetMemberTeamPermissionsResult::Found(caps) => {
            if has_capability(&caps, &Capability::parse(perm)) {
                Ok(())
            } else {
                Err(PermissionError::Missing)
            }
        },
        GetMemberTeamPermissionsResult::ServerNotFound => Err(PermissionError::ServerNotListed),
        GetMemberTeamPermissionsResult::MemberNotInTeam => Err(PermissionError::NotInTeam),
    }
}

/// Whether the stored flags of a membership grant `perm`.
pub fn check_member_flags(flags: &Vec<String>, perm: &str) -> (r: bool)
    ensures
        r == granted(resolve_flags(flag_views(flags@)), parse_flag(perm@)),
{
    has_capability(&resolve(flags), &Capability::parse(perm))
}

/// What a lookup of the store found about a user's team on a server.
pub enum TeamLookup {
    ServerNotFound,
    MemberNotInTeam,
    /// The stored flags of the user's membership.
    Flags(Vec<String>),
}

/// The permission guard on looked-up values: `lookup` is `None` when the
/// operation does not run in a server.
pub fn decide_permission(lookup: Option<&TeamLookup>, perm: &str) -> (r: Result<(), PermissionError>)
    ensures
        r == match lookup {
            None => Err::<(), PermissionError>(PermissionError::NotInServer),
            Some(TeamLookup::ServerNotFound) => Err(PermissionError::ServerNotListed),
            Some(TeamLookup::MemberNotInTeam) => Err(PermissionError::NotInTeam),
            Some(TeamLookup::Flags(flags)) => if granted(resolve_flags(flag_views(flags@)), parse_flag(perm@)) {
                Ok(())
            } else {
                Err(PermissionError::Missing)
            },
        },
{
    match lookup {
        None => Err(PermissionError::NotInServer),
        Some(TeamLookup::ServerNotFound) => Err(PermissionError::ServerNotListed),
        Some(TeamLookup::MemberNotInTeam) => Err(PermissionError::NotInTeam),
        Some(TeamLookup::Flags(flags)) => if check_member_flags(flags, perm) {
            Ok(())
        } else {
            Err(PermissionError::Missing)
        },
    }
}

/// The global wildcard, as a capability.
pub open spec fn global_wildcard() -> CapabilityModel {
    (global_namespace(), None)
}

/// Every flag of a list is resolved into a capability of the result, and
/// every capability of the result comes from a flag.
pub proof fn lemma_resolve_flags_contents(flags: Seq<Seq<char>>)
    ensures
        forall|i: int| 0 <= i < flags.len() ==> resolve_flags(flags).contains(#[trigger] parse_flag(flags[i])),
        forall|c: CapabilityModel| resolve_flags(flags).contains(c) ==> exists|i: int| 0 <= i < flags.len() && parse_flag(flags[i]) == c,
    decreases flags.len(),
{
    if flags.len() > 0 {
        let prev = flags.drop_last();
        lemma_resolve_flags_contents(prev);
        let r = resolve_flags(flags);
        assert forall|i: int| 0 <= i < flags.len() implies r.contains(#[trigger] parse_flag(flags[i])) by {
            if i < flags.len() - 1 {
                assert(prev[i] == flags[i]);
                let c = parse_flag(prev[i]);
                assert(resolve_flags(prev).contains(c));
                let k = choose|k: int| 0 <= k < resolve_flags(prev).len() && resolve_flags(prev)[k] == c;
                assert(r[k] == c);
            } else {
                if !resolve_flags(prev).contains(parse_flag(flags.last())) {
                    assert(r[r.len() - 1] == parse_flag(flags.last()));
                }
            }
        }
        assert forall|c: CapabilityModel| r.contains(c) implies exists|i: int| 0 <= i < flags.len() && parse_flag(flags[i]) == c by {
            if resolve_flags(prev).contains(c) {
                let i = choose|i: int| 0 <= i < prev.len() && parse_flag(prev[i]) == c;
                assert(flags[i] == prev[i]);
            } else {
                assert(parse_flag(flags[flags.len() - 1]) == c);
            }
        }
    }
}

/// The owner flag reads as the global wildcard.
pub proof fn lemma_owner_flag_is_global_wildcard()
    ensures
        parse_flag(owner_flag()) == global_wildcard(),
{
    let t = owner_flag();
    assert(t[6] == '.');
    let k = choose|k: int| 0 <= k < t.len() && t[k] == '.' && forall|j: int| 0 <= j < k ==> t[j] != '.';
    assert(k == 6) by {
        if k < 6 {
            assert(t[k] != '.');
        }
        if k > 6 {
            assert(t[6] != '.');
        }
    }
    assert(first_index_of(t, '.') == Some(6int));
    assert(t.subrange(0, 6) =~= global_namespace());
    assert(t.subrange(7, 8) =~= seq!['*']);
}

/// A team owner, whose membership holds the global wildcard flag, has the
/// global wildcard among its resolved capabilities and is permitted every
/// capability on the server.
pub proof fn owner_holds_every_capability(d: DirectoryView, server: u64, owner: u64, required: CapabilityModel)
    requires
        in_server_team(d, server, owner),
        member_flags(d, server_team(d, server), owner).contains(owner_flag()),
    ensures
        server_capabilities(d, server, owner).contains(global_wildcard()),
        permitted(d, server, owner, required),
{
    let flags = member_flags(d, server_team(d, server), owner);
    lemma_resolve_flags_contents(flags);
    lemma_owner_flag_is_global_wildcard();
    let i = choose|i: int| 0 <= i < flags.len() && flags[i] == owner_flag();
    assert(parse_flag(flags[i]) == global_wildcard());
    let caps = server_capabilities(d, server, owner);
    assert(caps.contains(global_wildcard()));
    let k = choose|k: int| 0 <= k < caps.len() && caps[k] == global_wildcard();
    assert(covers(caps[k], required));
}

/// Every row of `m` with the key of `row` is `row`, and there is one.
pub open spec fn holds_only(m: Seq<MemberView>, row: MemberView) -> bool {
    &&& exists|i: int| 0 <= i < m.len() && m[i] == row
    &&& forall|i: int| 0 <= i < m.len() && m[i].team_id == row.team_id && m[i].user_id == row.user_id ==> m[i] == row
}

proof fn lemma_admins_skip_owner(owner: u64, ms: Seq<GuildMember>)
    ensures
        forall|i: int| 0 <= i < team_admins(owner, ms).len() ==> team_admins(owner, ms)[i] != owner,
    decreases ms.len(),
{
    if ms.len() > 0 {
        let prev = team_admins(owner, ms.drop_last());
        lemma_admins_skip_owner(owner, ms.drop_last());
        let cur = team_admins(owner, ms);
        assert forall|i: int| 0 <= i < cur.len() implies cur[i] != owner by {
            if i < prev.len() {
                assert(cur[i] == prev[i]);
            }
        }
    }
}

proof fn lemma_admins_keep_row(m: Seq<MemberView>, team: u128, ids: Seq<u64>, row: MemberView)
    requires
        holds_only(m, row),
        row.team_id == team,
        forall|i: int| 0 <= i < ids.len() ==> ids[i] != row.user_id,
    ensures
        holds_only(with_admins(m, team, ids), row),
    decreases ids.len(),
{
    if ids.len() > 0 {
        let prev = with_admins(m, team, ids.drop_last());
        lemma_admins_keep_row(m, team, ids.drop_last(), row);
        let a = admin_member(team, ids.last());
        let next = with_member(prev, a);
        let w = choose|i: int| 0 <= i < prev.len() && prev[i] == row;
        if is_member(prev, a.team_id, a.user_id) {
            let k = choose|k: int| 0 <= k < prev.len() && prev[k].team_id == a.team_id && prev[k].user_id == a.user_id;
            assert(k != w);
            assert(next[w] == row);
        } else {
            assert(next[w] == row);
        }
    }
}

/// After a successful onboarding the server's owner is in the server's team,
/// holding the global wildcard flag alone, and so is permitted every
/// capability on the server.
pub proof fn onboarded_owner_holds_every_capability(d: DirectoryView, req: OnboardRequest, required: CapabilityModel)
    requires
        directory_wf(d),
        onboarding_error(d, req) is None,
    ensures
        in_server_team(onboarded(d, req), req.server_id, req.stats.owner),
        server_team(onboarded(d, req), req.server_id) == req.team_id,
        member_flags(onboarded(d, req), req.team_id, req.stats.owner) == seq![owner_flag()],
        server_capabilities(onboarded(d, req), req.server_id, req.stats.owner).contains(global_wildcard()),
        permitted(onboarded(d, req), req.server_id, req.stats.owner, required),
{
    let d2 = onboarded(d, req);
    let id = req.server_id;
    let owner = req.stats.owner;
    let team = req.team_id;
    let n = d.servers.len() as int;
    assert(d2.servers[n].server_id == id);
    let k = choose|i: int| 0 <= i < d2.servers.len() && d2.servers[i].server_id == id;
    assert(k == n) by {
        if k < n {
            assert(d2.servers[k] == d.servers[k]);
        }
    }
    assert(server_team(d2, id) == team);

    let row = owner_member(team, owner);
    let m1 = with_member(d.members, row);
    if is_member(d.members, team, owner) {
        let j = choose|j: int| 0 <= j < d.members.len() && d.members[j].team_id == team && d.members[j].user_id == owner;
        assert(m1[j] == row);
        assert forall|i: int| 0 <= i < m1.len() && m1[i].team_id == team && m1[i].user_id == owner implies m1[i] == row by {
            if i != j {
                assert(m1[i] == d.members[i]);
            }
        }
    } else {
        assert(m1[d.members.len() as int] == row);
    }
    assert(holds_only(m1, row));
    let admins = team_admins(owner, req.members@);
    lemma_admins_skip_owner(owner, req.members@);
    lemma_admins_keep_row(m1, team, admins, row);
    assert(d2.members == with_admins(m1, team, admins));
    let w = choose|i: int| 0 <= i < d2.members.len() && d2.members[i] == row;
    assert(d2.members[w].team_id == team && d2.members[w].user_id == owner);
    assert(is_member(d2.members, team, owner));
    assert(member_flags(d2, team, owner) == seq![owner_flag()]);
    assert(member_flags(d2, team, owner)[0] == owner_flag());
    owner_holds_every_capability(d2, id, owner, required);
}

/// Every row of `m` of `team` is the owner's row or the row of one of `ids`.
pub open spec fn team_rows_from(m: Seq<MemberView>, team: u128, owner_row: MemberView, ids: Seq<u64>) -> bool {
    forall|i: int|
        0 <= i < m.len() && m[i].team_id == team ==> m[i] == owner_row || exists|k: int|
            0 <= k < ids.len() && m[i] == admin_member(team, ids[k])
}

/// Every user of `ids` has its administrator row of `team` in `m`.
pub open spec fn admins_present(m: Seq<MemberView>, team: u128, ids: Seq<u64>) -> bool {
    forall|k: int| 0 <= k < ids.len() ==> exists|i: int| 0 <= i < m.len() && m[i] == admin_member(team, #[trigger] ids[k])
}

proof fn lemma_admin_rows(m: Seq<MemberView>, team: u128, ids: Seq<u64>, owner_row: MemberView)
    requires
        team_rows_from(m, team, owner_row, Seq::empty()),
    ensures
        team_rows_from(with_admins(m, team, ids), team, owner_row, ids),
        admins_present(with_admins(m, team, ids), team, ids),
    decreases ids.len(),
{
    if ids.len() > 0 {
        let pre = ids.drop_last();
        lemma_admin_rows(m, team, pre, owner_row);
        let prev = with_admins(m, team, pre);
        let a = admin_member(team, ids.last());
        let next = with_member(prev, a);
        let last = ids.len() - 1;
        let pos = if is_member(prev, team, ids.last()) {
            choose|k: int| 0 <= k < prev.len() && prev[k].team_id == a.team_id && prev[k].user_id == a.user_id
        } else {
            prev.len() as int
        };
        assert(next[pos] == a);
        assert forall|i: int| 0 <= i < next.len() && next[i].team_id == team implies next[i] == owner_row || exists|k: int|
            0 <= k < ids.len() && next[i] == admin_member(team, ids[k]) by {
            if i == pos {
                assert(next[i] == admin_member(team, ids[last]));
            } else {
                assert(next[i] == prev[i]);
                if next[i] != owner_row {
                    let k = choose|k: int| 0 <= k < pre.len() && prev[i] == admin_member(team, pre[k]);
                    assert(pre[k] == ids[k]);
                }
            }
        }
        assert forall|k: int| 0 <= k < ids.len() implies exists|i: int| 0 <= i < next.len() && next[i] == admin_member(team, #[trigger] ids[k]) by {
            if k == last {
                assert(next[pos] == admin_member(team, ids[k]));
            } else {
                assert(pre[k] == ids[k]);
                let i = choose|i: int| 0 <= i < prev.len() && prev[i] == admin_member(team, pre[k]);
                if i == pos {
                    assert(next[i] == admin_member(team, ids[k]));
                } else {
                    assert(next[i] == prev[i]);
                }
            }
        }
    }
}

/// After a successful onboarding the new team's memberships are exactly the
/// owner's, with the global wildcard, and one for each administrator, with
/// the server wildcard; the store keeps each user at most once per team.
pub proof fn onboarded_team_members(d: DirectoryView, req: OnboardRequest)
    requires
        directory_wf(d),
        onboarding_error(d, req) is None,
    ensures
        team_rows_from(
            onboarded(d, req).members,
            req.team_id,
            owner_member(req.team_id, req.stats.owner),
            team_admins(req.stats.owner, req.members@),
        ),
        admins_present(onboarded(d, req).members, req.team_id, team_admins(req.stats.owner, req.members@)),
        holds_only(onboarded(d, req).members, owner_member(req.team_id, req.stats.owner)),
{
    let team = req.team_id;
    let owner = req.stats.owner;
    let row = owner_member(team, owner);
    assert(!is_member(d.members, team, owner)) by {
        if is_member(d.members, team, owner) {
            let j = choose|j: int| 0 <= j < d.members.len() && d.members[j].team_id == team && d.members[j].user_id == owner;
            assert(has_team(d, d.members[j].team_id));
        }
    }
    let m1 = with_member(d.members, row);
    assert(m1 == d.members.push(row));
    assert forall|i: int| 0 <= i < m1.len() && m1[i].team_id == team implies m1[i] == row || exists|k: int|
        0 <= k < Seq::<u64>::empty().len() && m1[i] == admin_member(team, Seq::<u64>::empty()[k]) by {
        if i < d.members.len() {
            assert(has_team(d, d.members[i].team_id));
        }
    }
    let admins = team_admins(owner, req.members@);
    lemma_admin_rows(m1, team, admins, row);
    assert(holds_only(m1, row)) by {
        assert(m1[d.members.len() as int] == row);
    }
    lemma_admins_skip_owner(owner, req.members@);
    lemma_admins_keep_row(m1, team, admins, row);
}

} // verus!
