//! Team provisioning and the onboarding transaction.
use vstd::prelude::*;
use crate::capability::flag_views;
use crate::text::same_text;
use crate::directory::{
    code_taken, directory_wf, has_team, has_vanity, lemma_team_push, own_service, with_member, with_user, with_vanity, Directory,
    has_server, ServerRow, ServerView, DirectoryView, MemberView, TeamMemberRow, TeamRow, TeamView, UserRow, VanityTarget,
};

verus! {

/// A member of the chat server, as the onboarding sees it.
#[derive(Clone, Copy, Debug, PartialEq, Eq, Structural)]
pub struct GuildMember {
    pub user_id: u64,
    pub bot: bool,
    pub administrator: bool,
}

/// The flag that grants every capability: `global.*`.
pub open spec fn owner_flag() -> Seq<char> {
    seq!['g', 'l', 'o', 'b', 'a', 'l', '.', '*']
}

/// The flag that grants every server-management capability: `server.*`.
pub open spec fn admin_flag() -> Seq<char> {
    seq!['s', 'e', 'r', 'v', 'e', 'r', '.', '*']
}

/// Whether a member joins the new team as an administrator: a human
/// administrator other than the owner.
pub open spec fn admin_eligible(owner: u64, m: GuildMember) -> bool {
    !m.bot && m.administrator && m.user_id != owner
}

/// The users that join the new team as administrators, in member order.
pub open spec fn team_admins(owner: u64, ms: Seq<GuildMember>) -> Seq<u64>
    decreases ms.len(),
{
    if ms.len() == 0 {
        Seq::empty()
    } else {
        let prev = team_admins(owner, ms.drop_last());
        if admin_eligible(owner, ms.last()) {
            prev.push(ms.last().user_id)
        } else {
            prev
        }
    }
}

/// The users table once every user of `ids` is known to it.
pub open spec fn with_users(users: Seq<UserRow>, ids: Seq<u64>) -> Seq<UserRow>
    decreases ids.len(),
{
    if ids.len() == 0 {
        users
    } else {
        with_user(with_users(users, ids.drop_last()), ids.last())
    }
}

pub open spec fn owner_member(team: u128, user: u64) -> MemberView {
    MemberView { team_id: team, user_id: user, flags: seq![owner_flag()], service: own_service() }
}

pub open spec fn admin_member(team: u128, user: u64) -> MemberView {
    MemberView { team_id: team, user_id: user, flags: seq![admin_flag()], service: own_service() }
}

/// The members table once every user of `ids` is an administrator of `team`.
pub open spec fn with_admins(members: Seq<MemberView>, team: u128, ids: Seq<u64>) -> Seq<MemberView>
    decreases ids.len(),
{
    if ids.len() == 0 {
        members
    } else {
        with_member(with_admins(members, team, ids.drop_last()), admin_member(team, ids.last()))
    }
}

/// The name given to the team of a server: `<server name>'s Team`.
pub open spec fn team_name(server_name: Seq<char>) -> Seq<char> {
    server_name + seq!['\'', 's', ' ', 'T', 'e', 'a', 'm']
}

/// The store once a team is provisioned: its vanity, its row, its owner with
/// the global wildcard and its administrators with the server wildcard.
pub open spec fn provisioned(
    d: DirectoryView,
    team: u128,
    server_name: Seq<char>,
    code: Seq<char>,
    owner: u64,
    ms: Seq<GuildMember>,
) -> DirectoryView {
    let d1 = with_vanity(d, code, VanityTarget::Team(team));
    let admins = team_admins(owner, ms);
    DirectoryView {
        teams: d.teams.push(
            TeamView { id: team, name: team_name(server_name), vanity_ref: d.next_itag, service: own_service() },
        ),
        users: with_users(with_user(d.users, owner), admins),
        members: with_admins(with_member(d.members, owner_member(team, owner)), team, admins),
        ..d1
    }
}

/// Why a team could not be provisioned.
#[derive(Debug, PartialEq, Eq, Structural)]
pub enum ProvisionError {
    /// A team with this id exists.
    TeamExists,
    /// The team's vanity code is in use.
    VanityTaken,
}

/// The users that join a new team as administrators: human administrators
/// other than the owner, in member order.
pub fn select_admins(owner: u64, members: &Vec<GuildMember>) -> (r: Vec<u64>)
    ensures
        r@ == team_admins(owner, members@),
{
    let mut out: Vec<u64> = Vec::new();
    let mut i: usize = 0;
    while i < members.len()
        invariant
            i <= members@.len(),
            out@ == team_admins(owner, members@.subrange(0, i as int)),
        decreases members@.len() - i,
    {
        let m = members[i];
        proof {
            assert(members@.subrange(0, i + 1).drop_last() =~= members@.subrange(0, i as int));
        }
        if !m.bot && m.administrator && m.user_id != owner {
            out.push(m.user_id);
        }
        i = i + 1;
    }
    proof {
        assert(members@.subrange(0, members@.len() as int) =~= members@);
    }
    out
}

/// The flags of a team owner.
pub fn owner_flags() -> (r: Vec<String>)
    ensures
        flag_views(r@) == seq![owner_flag()],
{
    proof {
        reveal_strlit("global.*");
    }
    let s = String::from_str("global.*");
    assert(s@ =~= owner_flag());
    let mut v: Vec<String> = Vec::new();
    v.push(s);
    assert(flag_views(v@) =~= seq![owner_flag()]);
    v
}

/// The flags of a team administrator.
pub fn admin_flags() -> (r: Vec<String>)
    ensures
        flag_views(r@) == seq![admin_flag()],
{
    proof {
        reveal_strlit("server.*");
    }
    let s = String::from_str("server.*");
    assert(s@ =~= admin_flag());
    let mut v: Vec<String> = Vec::new();
    v.push(s);
    assert(flag_views(v@) =~= seq![admin_flag()]);
    v
}

/// The subsystem tag of the rows onboarding writes.
pub fn service_tag() -> (r: String)
    ensures
        r@ == own_service(),
{
    proof {
        reveal_strlit("infernoplex");
    }
    let s = String::from_str("infernoplex");
    assert(s@ =~= own_service());
    s
}

impl Directory {
    /// Creates a team for a server: a vanity with `code` for it, its row, and
    /// memberships for the owner (every capability) and for the
    /// administrators (server management). Users are created where missing.
    pub fn provision_team(
        &mut self,
        team_id: u128,
        server_name: &str,
        code: &str,
        owner: u64,
        members: &Vec<GuildMember>,
    ) -> (r: Result<(), ProvisionError>)
        requires
            directory_wf(old(self)@),
            old(self)@.next_itag < u64::MAX,
        ensures
            directory_wf(final(self)@),
            has_team(old(self)@, team_id) ==> r == Err::<(), ProvisionError>(ProvisionError::TeamExists)
                && final(self)@ == old(self)@,
            !has_team(old(self)@, team_id) && code_taken(old(self)@, code@) ==> r == Err::<
                (),
                ProvisionError,
            >(ProvisionError::VanityTaken) && final(self)@ == old(self)@,
            !has_team(old(self)@, team_id) && !code_taken(old(self)@, code@) ==> r is Ok
                && final(self)@ == provisioned(old(self)@, team_id, server_name@, code@, owner, members@),
    {
        if self.team_exists(team_id) {
            return Err(ProvisionError::TeamExists);
        }
        let ghost d0 = self@;
        let itag = match self.reserve_vanity(code, VanityTarget::Team(team_id)) {
            Ok(t) => t,
            Err(_) => {
                return Err(ProvisionError::VanityTaken);
            },
        };
        let ghost d1 = self@;
        let mut name = String::from_str(server_name);
        name.append("'s Team");
        proof {
            reveal_strlit("'s Team");
            assert(name@ =~= team_name(server_name@));
        }
        let team = TeamRow { id: team_id, name, vanity_ref: itag, service: service_tag() };
        let ghost tv = team@;
        self.teams.push(team);
        proof {
            assert(self@.teams =~= d1.teams.push(tv));
            assert(self@.users =~= d1.users);
            assert(self@.members =~= d1.members);
            assert(self@.vanity =~= d1.vanity);
            assert(self@.servers =~= d1.servers);
            assert forall|i: int, j: int| 0 <= i < j < self@.teams.len() implies self@.teams[i].id
                != self@.teams[j].id by {
                if j == self@.teams.len() - 1 {
                    assert(d0.teams[i].id != team_id);
                }
            }            let e = self@;
            let last = d1.teams.len() as int;
            assert(e.teams[last].id == team_id);
            assert(has_team(e, team_id));
            assert forall|i: int| 0 <= i < e.members.len() implies has_team(e, #[trigger] e.members[i].team_id) by {
                lemma_team_push(d1, e, tv, d1.members[i].team_id);
            }
            assert forall|i: int| 0 <= i < e.servers.len() implies has_team(e, #[trigger] e.servers[i].team_owner) by {
                lemma_team_push(d1, e, tv, d1.servers[i].team_owner);
            }
            let vl = d0.vanity.len() as int;
            assert(d1.vanity[vl].itag == itag && d1.vanity[vl].target == VanityTarget::Team(team_id));
            assert forall|i: int| 0 <= i < e.teams.len() implies has_vanity(
                e.vanity,
                #[trigger] e.teams[i].vanity_ref,
                VanityTarget::Team(e.teams[i].id),
            ) by {
                if i == last {
                    assert(e.vanity[vl].itag == e.teams[i].vanity_ref);
                } else {
                    assert(e.teams[i] == d1.teams[i]);
                }
            }
        }
        self.ensure_user(owner);
        self.upsert_member(TeamMemberRow { team_id, user_id: owner, flags: owner_flags(), service: service_tag() });
        let ghost d2 = self@;
        assert(has_team(d2, team_id));
        let admins = select_admins(owner, members);
        let mut i: usize = 0;
        while i < admins.len()
            invariant
                i <= admins@.len(),
                admins@ == team_admins(owner, members@),
                directory_wf(self@),
                has_team(self@, team_id),
                self@ == (DirectoryView {
                    users: with_users(d2.users, admins@.subrange(0, i as int)),
                    members: with_admins(d2.members, team_id, admins@.subrange(0, i as int)),
                    ..d2
                }),
            decreases admins@.len() - i,
        {
            let a = admins[i];
            proof {
                assert(admins@.subrange(0, i + 1).drop_last() =~= admins@.subrange(0, i as int));
            }
            self.ensure_user(a);
            self.upsert_member(TeamMemberRow { team_id, user_id: a, flags: admin_flags(), service: service_tag() });
            proof {
                let w = choose|w: int| 0 <= w < d2.teams.len() && d2.teams[w].id == team_id;
                assert(self@.teams[w].id == team_id);
            }
            i = i + 1;
        }
        proof {
            assert(admins@.subrange(0, admins@.len() as int) =~= admins@);
        }
        Ok(())
    }
}

/// Statistics about a chat server, read when it is onboarded.
pub struct GuildStats {
    pub name: String,
    pub icon: String,
    pub owner: u64,
    pub total_members: usize,
    pub online_members: usize,
    pub nsfw: bool,
}

/// What the onboarding form collects.
pub struct SetupForm {
    pub vanity: String,
    pub short: String,
    pub long: String,
}

/// Everything the onboarding transaction needs. `team_id` and `team_code` are
/// fresh random values; `avatar_saved` is the outcome of converting the
/// server's icon, which happens inside the transaction.
pub struct OnboardRequest {
    pub server_id: u64,
    pub team_id: u128,
    pub team_code: String,
    pub stats: GuildStats,
    pub members: Vec<GuildMember>,
    pub form: SetupForm,
    pub invite: String,
    pub avatar_saved: bool,
}

/// Why onboarding did not list the server.
#[derive(Clone, Copy, Debug, PartialEq, Eq, Structural)]
pub enum SetupError {
    /// The server is listed already.
    AlreadySetup,
    /// A field of the form is outside its length bounds.
    InvalidForm,
    /// A member count does not fit a 32-bit signed integer.
    MemberCountOverflow,
    /// The team id or the team's vanity code is in use.
    TeamConflict,
    /// The server's icon could not be converted.
    AvatarFailed,
    /// The chosen vanity is in use.
    SlugTaken,
}

/// The vanity tags handed out by a successful onboarding.
#[derive(Clone, Copy, Debug, PartialEq, Eq, Structural)]
pub struct OnboardReceipt {
    pub team_vanity: u64,
    pub server_vanity: u64,
}

/// Length bounds of the form fields, in characters.
pub open spec fn slug_ok(s: Seq<char>) -> bool {
    1 <= s.len() <= 20
}

pub open spec fn short_ok(s: Seq<char>) -> bool {
    20 <= s.len() <= 100
}

pub open spec fn long_ok(s: Seq<char>) -> bool {
    30 <= s.len() <= 4000
}

pub open spec fn form_ok(f: SetupForm) -> bool {
    slug_ok(f.vanity@) && short_ok(f.short@) && long_ok(f.long@)
}

pub open spec fn fits_i32(n: usize) -> bool {
    n <= i32::MAX
}

/// The first reason, in the order the workflow meets them, for which
/// onboarding fails; `None` when it succeeds.
pub open spec fn onboarding_error(d: DirectoryView, req: OnboardRequest) -> Option<SetupError> {
    if has_server(d, req.server_id) {
        Some(SetupError::AlreadySetup)
    } else if !form_ok(req.form) {
        Some(SetupError::InvalidForm)
    } else if !fits_i32(req.stats.total_members) || !fits_i32(req.stats.online_members) {
        Some(SetupError::MemberCountOverflow)
    } else if has_team(d, req.team_id) || code_taken(d, req.team_code@) {
        Some(SetupError::TeamConflict)
    } else if !req.avatar_saved {
        Some(SetupError::AvatarFailed)
    } else if code_taken(d, req.form.vanity@) || req.form.vanity@ == req.team_code@ {
        Some(SetupError::SlugTaken)
    } else {
        None
    }
}

/// The server row that onboarding writes.
pub open spec fn listed_server(req: OnboardRequest, vanity_ref: u64) -> ServerView {
    ServerView {
        server_id: req.server_id,
        name: req.stats.name@,
        team_owner: req.team_id,
        vanity_ref,
        short: req.form.short@,
        long: req.form.long@,
        invite: req.invite@,
        total_members: req.stats.total_members as i32,
        online_members: req.stats.online_members as i32,
        nsfw: req.stats.nsfw,
    }
}

/// The store after a successful onboarding: the provisioned team, then the
/// server's vanity and the server row.
pub open spec fn onboarded(d: DirectoryView, req: OnboardRequest) -> DirectoryView {
    let d1 = provisioned(d, req.team_id, req.stats.name@, req.team_code@, req.stats.owner, req.members@);
    let d2 = with_vanity(d1, req.form.vanity@, VanityTarget::Server(req.server_id));
    DirectoryView { servers: d.servers.push(listed_server(req, d1.next_itag)), ..d2 }
}

/// Whether the form fields are within their length bounds.
pub fn validate_form(form: &SetupForm) -> (r: bool)
    ensures
        r == form_ok(*form),
{
    let v = form.vanity.as_str().unicode_len();
    let s = form.short.as_str().unicode_len();
    let l = form.long.as_str().unicode_len();
    1 <= v && v <= 20 && 20 <= s && s <= 100 && 30 <= l && l <= 4000
}

/// Whether the descriptions are within their length bounds.
pub fn descriptions_ok(short: &str, long: &str) -> (r: bool)
    ensures
        r == (short_ok(short@) && long_ok(long@)),
{
    let s = short.unicode_len();
    let l = long.unicode_len();
    20 <= s && s <= 100 && 30 <= l && l <= 4000
}

/// The checks that onboarding makes before it writes anything: the form's
/// bounds, then the member counts, which it returns as stored.
pub fn precheck_onboarding(form: &SetupForm, total_members: usize, online_members: usize) -> (r: Result<(i32, i32), SetupError>)
    ensures
        r == (if !form_ok(*form) {
            Err(SetupError::InvalidForm)
        } else if !fits_i32(total_members) || !fits_i32(online_members) {
            Err(SetupError::MemberCountOverflow)
        } else {
            Ok((total_members as i32, online_members as i32))
        }),
{
    if !validate_form(form) {
        return Err(SetupError::InvalidForm);
    }
    match (member_count(total_members), member_count(online_members)) {
        (Some(t), Some(o)) => Ok((t, o)),
        _ => Err(SetupError::MemberCountOverflow),
    }
}

/// A member count as the 32-bit signed integer the store keeps, if it fits.
pub fn member_count(n: usize) -> (r: Option<i32>)
    ensures
        r == (if fits_i32(n) { Some(n as i32) } else { None::<i32> }),
{
    if n <= 2147483647 {
        Some(n as i32)
    } else {
        None
    }
}

impl Directory {
    /// Lists a server, on this model of the database, as the onboarding
    /// transaction does: provisions its team, reserves its vanity and writes
    /// its row. On any failure nothing is written.
    pub fn onboard(&mut self, req: &OnboardRequest) -> (r: Result<OnboardReceipt, SetupError>)
        requires
            directory_wf(old(self)@),
            old(self)@.next_itag < u64::MAX - 1,
        ensures
            directory_wf(final(self)@),
            match onboarding_error(old(self)@, *req) {
                Some(e) => r == Err::<OnboardReceipt, SetupError>(e) && final(self)@ == old(self)@,
                None => r == Ok::<OnboardReceipt, SetupError>(
                    OnboardReceipt {
                        team_vanity: old(self)@.next_itag,
                        server_vanity: (old(self)@.next_itag + 1) as u64,
                    },
                ) && final(self)@ == onboarded(old(self)@, *req),
            },
    {
        if self.is_listed(req.server_id) {
            return Err(SetupError::AlreadySetup);
        }
        let (total, online) = match precheck_onboarding(&req.form, req.stats.total_members, req.stats.online_members) {
            Ok(counts) => counts,
            Err(e) => {
                return Err(e);
            },
        };
        if self.team_exists(req.team_id) || self.vanity_taken(req.team_code.as_str()) {
            return Err(SetupError::TeamConflict);
        }
        if !req.avatar_saved {
            return Err(SetupError::AvatarFailed);
        }
        if self.vanity_taken(req.form.vanity.as_str()) || same_text(
            req.form.vanity.as_str(),
            req.team_code.as_str(),
        ) {
            return Err(SetupError::SlugTaken);
        }
        let ghost d0 = self@;
        let team_vanity = self.next_itag;
        let _ = self.provision_team(
            req.team_id,
            req.stats.name.as_str(),
            req.team_code.as_str(),
            req.stats.owner,
            &req.members,
        );
        let ghost d1 = self@;
        assert(!code_taken(d1, req.form.vanity@)) by {
            assert forall|i: int| 0 <= i < d1.vanity.len() implies d1.vanity[i].code != req.form.vanity@ by {
                if i < d0.vanity.len() {
                    assert(d1.vanity[i] == d0.vanity[i]);
                }
            }
        }
        let server_vanity = match self.reserve_vanity(req.form.vanity.as_str(), VanityTarget::Server(req.server_id)) {
            Ok(t) => t,
            Err(_) => {
                return Err(SetupError::SlugTaken);
            },
        };
        let ghost d2 = self@;
        let row = ServerRow {
            server_id: req.server_id,
            name: req.stats.name.clone(),
            team_owner: req.team_id,
            vanity_ref: server_vanity,
            short: req.form.short.clone(),
            long: req.form.long.clone(),
            invite: req.invite.clone(),
            total_members: total,
            online_members: online,
            nsfw: req.stats.nsfw,
        };
        assert(row@ == listed_server(*req, d1.next_itag));
        self.servers.push(row);
        proof {
            assert(self@.servers =~= d0.servers.push(listed_server(*req, d1.next_itag)));
            assert(self@.users =~= d2.users);
            assert(self@.teams =~= d2.teams);
            assert(self@.members =~= d2.members);
            assert(self@.vanity =~= d2.vanity);
            let e = self@;
            let tw = d0.teams.len() as int;
            assert(d1.teams[tw].id == req.team_id);
            assert(e.teams[tw].id == req.team_id);
            assert(has_team(e, req.team_id));
            let vl = d1.vanity.len() as int;
            assert(e.vanity[vl].itag == server_vanity && e.vanity[vl].target == VanityTarget::Server(req.server_id));
            let last = d0.servers.len() as int;
            assert forall|i: int| 0 <= i < e.servers.len() implies has_team(e, #[trigger] e.servers[i].team_owner) by {
                if i < last {
                    assert(e.servers[i] == d2.servers[i]);
                }
            }
            assert forall|i: int| 0 <= i < e.servers.len() implies has_vanity(
                e.vanity,
                #[trigger] e.servers[i].vanity_ref,
                VanityTarget::Server(e.servers[i].server_id),
            ) by {
                if i < last {
                    assert(e.servers[i] == d2.servers[i]);
                } else {
                    assert(e.vanity[vl].itag == e.servers[i].vanity_ref);
                }
            }
        }
        Ok(OnboardReceipt { team_vanity, server_vanity })
    }
}

/// Once onboarding succeeds, the server is listed, and any second
/// onboarding of the same server stops at the already-setup check.
pub proof fn onboarded_server_is_listed(d: DirectoryView, req: OnboardRequest, again: OnboardRequest)
    requires
        directory_wf(d),
        onboarding_error(d, req) is None,
        again.server_id == req.server_id,
    ensures
        has_server(onboarded(d, req), req.server_id),
        onboarding_error(onboarded(d, req), again) == Some(SetupError::AlreadySetup),
{
    let d2 = onboarded(d, req);
    assert(d2.servers[d.servers.len() as int].server_id == req.server_id);
}

/// A slug that a vanity of any kind already holds is refused: onboarding
/// fails (and so writes nothing), with `SlugTaken` once the earlier checks
/// pass.
pub proof fn taken_slug_is_refused(d: DirectoryView, req: OnboardRequest)
    requires
        code_taken(d, req.form.vanity@),
    ensures
        onboarding_error(d, req) is Some,
        !has_server(d, req.server_id) && form_ok(req.form) && fits_i32(req.stats.total_members)
            && fits_i32(req.stats.online_members) && !has_team(d, req.team_id) && !code_taken(d, req.team_code@)
            && req.avatar_saved ==> onboarding_error(d, req) == Some(SetupError::SlugTaken),
{
}

} // verus!
