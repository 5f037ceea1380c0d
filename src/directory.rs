//! The directory store: users, teams, team members, vanities and servers,
//! with the invariants that the database keeps.
use vstd::prelude::*;
use crate::capability::flag_views;
use crate::text::same_text;

verus! {

/// The subsystem tag written on the rows this library creates.
pub open spec fn own_service() -> Seq<char> {
    seq!['i', 'n', 'f', 'e', 'r', 'n', 'o', 'p', 'l', 'e', 'x']
}

/// A user of the directory.
#[derive(Clone, Copy, Debug, PartialEq, Eq, Structural)]
pub struct UserRow {
    pub user_id: u64,
    pub developer: bool,
    pub certified: bool,
    pub staff: bool,
}

/// A team: the group that owns listed servers.
pub struct TeamRow {
    pub id: u128,
    pub name: String,
    pub vanity_ref: u64,
    pub service: String,
}

/// The membership of a user in a team, with the flags it grants.
pub struct TeamMemberRow {
    pub team_id: u128,
    pub user_id: u64,
    pub flags: Vec<String>,
    pub service: String,
}

/// What a vanity points to.
#[derive(Clone, Copy, Debug, PartialEq, Eq, Structural)]
pub enum VanityTarget {
    Team(u128),
    Server(u64),
}

/// A vanity: a slug, unique over every target kind.
pub struct VanityRow {
    pub itag: u64,
    pub code: String,
    pub target: VanityTarget,
}

/// A listed server.
pub struct ServerRow {
    pub server_id: u64,
    pub name: String,
    pub team_owner: u128,
    pub vanity_ref: u64,
    pub short: String,
    pub long: String,
    pub invite: String,
    pub total_members: i32,
    pub online_members: i32,
    pub nsfw: bool,
}

pub struct TeamView {
    pub id: u128,
    pub name: Seq<char>,
    pub vanity_ref: u64,
    pub service: Seq<char>,
}

pub struct MemberView {
    pub team_id: u128,
    pub user_id: u64,
    pub flags: Seq<Seq<char>>,
    pub service: Seq<char>,
}

pub struct VanityView {
    pub itag: u64,
    pub code: Seq<char>,
    pub target: VanityTarget,
}

pub struct ServerView {
    pub server_id: u64,
    pub name: Seq<char>,
    pub team_owner: u128,
    pub vanity_ref: u64,
    pub short: Seq<char>,
    pub long: Seq<char>,
    pub invite: Seq<char>,
    pub total_members: i32,
    pub online_members: i32,
    pub nsfw: bool,
}

impl View for TeamRow {
    type V = TeamView;

    open spec fn view(&self) -> TeamView {
        TeamView { id: self.id, name: self.name@, vanity_ref: self.vanity_ref, service: self.service@ }
    }
}

impl View for TeamMemberRow {
    type V = MemberView;

    open spec fn view(&self) -> MemberView {
        MemberView {
            team_id: self.team_id,
            user_id: self.user_id,
            flags: flag_views(self.flags@),
            service: self.service@,
        }
    }
}

impl View for VanityRow {
    type V = VanityView;

    open spec fn view(&self) -> VanityView {
        VanityView { itag: self.itag, code: self.code@, target: self.target }
    }
}

impl View for ServerRow {
    type V = ServerView;

    open spec fn view(&self) -> ServerView {
        ServerView {
            server_id: self.server_id,
            name: self.name@,
            team_owner: self.team_owner,
            vanity_ref: self.vanity_ref,
            short: self.short@,
            long: self.long@,
            invite: self.invite@,
            total_members: self.total_members,
            online_members: self.online_members,
            nsfw: self.nsfw,
        }
    }
}

/// The contents of every table, and the next vanity tag to hand out.
pub struct DirectoryView {
    pub users: Seq<UserRow>,
    pub teams: Seq<TeamView>,
    pub members: Seq<MemberView>,
    pub vanity: Seq<VanityView>,
    pub servers: Seq<ServerView>,
    pub next_itag: u64,
}

/// A model of the directory database: its tables as sequences of rows, with
/// the keys and references the database enforces. Vanity tags are handed out
/// in increasing order.
pub struct Directory {
    pub users: Vec<UserRow>,
    pub teams: Vec<TeamRow>,
    pub team_members: Vec<TeamMemberRow>,
    pub vanity: Vec<VanityRow>,
    pub servers: Vec<ServerRow>,
    pub next_itag: u64,
}

impl View for Directory {
    type V = DirectoryView;

    open spec fn view(&self) -> DirectoryView {
        DirectoryView {
            users: self.users@,
            teams: self.teams@.map_values(|t: TeamRow| t@),
            members: self.team_members@.map_values(|m: TeamMemberRow| m@),
            vanity: self.vanity@.map_values(|v: VanityRow| v@),
            servers: self.servers@.map_values(|s: ServerRow| s@),
            next_itag: self.next_itag,
        }
    }
}

pub open spec fn has_server(d: DirectoryView, id: u64) -> bool {
    exists|i: int| 0 <= i < d.servers.len() && d.servers[i].server_id == id
}

pub open spec fn has_user(users: Seq<UserRow>, id: u64) -> bool {
    exists|i: int| 0 <= i < users.len() && users[i].user_id == id
}

pub open spec fn has_team(d: DirectoryView, id: u128) -> bool {
    exists|i: int| 0 <= i < d.teams.len() && d.teams[i].id == id
}

pub open spec fn code_taken(d: DirectoryView, code: Seq<char>) -> bool {
    exists|i: int| 0 <= i < d.vanity.len() && d.vanity[i].code == code
}

pub open spec fn is_member(members: Seq<MemberView>, team: u128, user: u64) -> bool {
    exists|i: int| 0 <= i < members.len() && members[i].team_id == team && members[i].user_id == user
}

/// Whether a vanity row with tag `tag` points at `target`.
pub open spec fn has_vanity(v: Seq<VanityView>, tag: u64, target: VanityTarget) -> bool {
    exists|j: int| 0 <= j < v.len() && v[j].itag == tag && v[j].target == target
}

/// The references that the database enforces: every membership's team
/// exists, every server's owning team exists, and every server and team has
/// its vanity row, pointing back at it.
pub open spec fn references_hold(d: DirectoryView) -> bool {
    &&& forall|i: int| 0 <= i < d.members.len() ==> has_team(d, #[trigger] d.members[i].team_id)
    &&& forall|i: int| 0 <= i < d.servers.len() ==> has_team(d, #[trigger] d.servers[i].team_owner)
    &&& forall|i: int|
        0 <= i < d.servers.len() ==> has_vanity(
            d.vanity,
            #[trigger] d.servers[i].vanity_ref,
            VanityTarget::Server(d.servers[i].server_id),
        )
    &&& forall|i: int|
        0 <= i < d.teams.len() ==> has_vanity(d.vanity, #[trigger] d.teams[i].vanity_ref, VanityTarget::Team(d.teams[i].id))
}

/// Pushing a row keeps every vanity that was there.
pub proof fn lemma_vanity_push(v: Seq<VanityView>, row: VanityView, tag: u64, target: VanityTarget)
    requires
        has_vanity(v, tag, target),
    ensures
        has_vanity(v.push(row), tag, target),
{
    let j = choose|j: int| 0 <= j < v.len() && v[j].itag == tag && v[j].target == target;
    assert(v.push(row)[j] == v[j]);
}

/// Adding a team keeps every team that was there.
pub proof fn lemma_team_push(d: DirectoryView, e: DirectoryView, row: TeamView, id: u128)
    requires
        e.teams == d.teams.push(row),
        has_team(d, id),
    ensures
        has_team(e, id),
{
    let j = choose|j: int| 0 <= j < d.teams.len() && d.teams[j].id == id;
    assert(e.teams[j] == d.teams[j]);
}

/// The keys that the database holds unique, the freshness of the next
/// vanity tag, and the references between tables.
pub open spec fn directory_wf(d: DirectoryView) -> bool {
    &&& references_hold(d)
    &&& forall|i: int, j: int|
        0 <= i < j < d.users.len() ==> d.users[i].user_id != d.users[j].user_id
    &&& forall|i: int, j: int| 0 <= i < j < d.teams.len() ==> d.teams[i].id != d.teams[j].id
    &&& forall|i: int, j: int|
        0 <= i < j < d.members.len() ==> !(d.members[i].team_id == d.members[j].team_id
            && d.members[i].user_id == d.members[j].user_id)
    &&& forall|i: int, j: int| 0 <= i < j < d.vanity.len() ==> d.vanity[i].code != d.vanity[j].code
    &&& forall|i: int| 0 <= i < d.vanity.len() ==> d.vanity[i].itag < d.next_itag
    &&& forall|i: int, j: int| 0 <= i < j < d.vanity.len() ==> d.vanity[i].itag != d.vanity[j].itag
    &&& forall|i: int, j: int|
        0 <= i < j < d.servers.len() ==> d.servers[i].server_id != d.servers[j].server_id
}

/// A user row with every flag off.
pub open spec fn fresh_user(id: u64) -> UserRow {
    UserRow { user_id: id, developer: false, certified: false, staff: false }
}

/// The users table once `id` is known to it.
pub open spec fn with_user(users: Seq<UserRow>, id: u64) -> Seq<UserRow> {
    if has_user(users, id) {
        users
    } else {
        users.push(fresh_user(id))
    }
}

/// The members table once `row` is stored: it replaces the row of the same
/// team and user, if there is one.
pub open spec fn with_member(members: Seq<MemberView>, row: MemberView) -> Seq<MemberView> {
    if is_member(members, row.team_id, row.user_id) {
        let i = choose|i: int|
            0 <= i < members.len() && members[i].team_id == row.team_id && members[i].user_id
                == row.user_id;
        members.update(i, row)
    } else {
        members.push(row)
    }
}

/// Why a vanity could not be reserved.
#[derive(Debug, PartialEq, Eq, Structural)]
pub enum ReserveError {
    /// Some vanity, of any target kind, already has the code.
    SlugTaken,
}

/// The store once a vanity with `code` pointing at `target` is added under
/// the next tag.
pub open spec fn with_vanity(d: DirectoryView, code: Seq<char>, target: VanityTarget) -> DirectoryView {
    DirectoryView {
        vanity: d.vanity.push(VanityView { itag: d.next_itag, code, target }),
        next_itag: (d.next_itag + 1) as u64,
        ..d
    }
}

impl Directory {
    /// An empty store.
    pub fn new() -> (r: Directory)
        ensures
            directory_wf(r@),
            r@.users.len() == 0,
            r@.teams.len() == 0,
            r@.members.len() == 0,
            r@.vanity.len() == 0,
            r@.servers.len() == 0,
            r@.next_itag == 1,
    {
        Directory {
            users: Vec::new(),
            teams: Vec::new(),
            team_members: Vec::new(),
            vanity: Vec::new(),
            servers: Vec::new(),
            next_itag: 1,
        }
    }

    /// Position of the server row of `server_id`.
    pub fn server_index(&self, server_id: u64) -> (r: Option<usize>)
        ensures
            match r {
                Some(i) => i < self@.servers.len() && self@.servers[i as int].server_id == server_id,
                None => !has_server(self@, server_id),
            },
    {
        let mut i: usize = 0;
        while i < self.servers.len()
            invariant
                i <= self.servers@.len(),
                forall|k: int| 0 <= k < i ==> self@.servers[k].server_id != server_id,
            decreases self.servers@.len() - i,
        {
            if self.servers[i].server_id == server_id {
                return Some(i);
            }
            i = i + 1;
        }
        None
    }

    /// Whether the server is already listed.
    pub fn is_listed(&self, server_id: u64) -> (r: bool)
        ensures
            r == has_server(self@, server_id),
    {
        self.server_index(server_id).is_some()
    }

    /// Whether a vanity with this code exists, whatever it points to.
    pub fn vanity_taken(&self, code: &str) -> (r: bool)
        ensures
            r == code_taken(self@, code@),
    {
        let mut i: usize = 0;
        while i < self.vanity.len()
            invariant
                i <= self.vanity@.len(),
                forall|k: int| 0 <= k < i ==> self@.vanity[k].code != code@,
            decreases self.vanity@.len() - i,
        {
            if same_text(self.vanity[i].code.as_str(), code) {
                assert(self@.vanity[i as int].code == code@);
                return true;
            }
            i = i + 1;
        }
        false
    }

    /// Whether a team with this id exists.
    pub fn team_exists(&self, team_id: u128) -> (r: bool)
        ensures
            r == has_team(self@, team_id),
    {
        let mut i: usize = 0;
        while i < self.teams.len()
            invariant
                i <= self.teams@.len(),
                forall|k: int| 0 <= k < i ==> self@.teams[k].id != team_id,
            decreases self.teams@.len() - i,
        {
            if self.teams[i].id == team_id {
                assert(self@.teams[i as int].id == team_id);
                return true;
            }
            i = i + 1;
        }
        false
    }

    /// Position of the membership row of `user_id` in team `team_id`.
    pub fn member_index(&self, team_id: u128, user_id: u64) -> (r: Option<usize>)
        ensures
            match r {
                Some(i) => i < self@.members.len() && self@.members[i as int].team_id == team_id
                    && self@.members[i as int].user_id == user_id,
                None => !is_member(self@.members, team_id, user_id),
            },
    {
        let mut i: usize = 0;
        while i < self.team_members.len()
            invariant
                i <= self.team_members@.len(),
                forall|k: int|
                    0 <= k < i ==> !(self@.members[k].team_id == team_id && self@.members[k].user_id
                        == user_id),
            decreases self.team_members@.len() - i,
        {
            if self.team_members[i].team_id == team_id && self.team_members[i].user_id == user_id {
                return Some(i);
            }
            i = i + 1;
        }
        None
    }
}

impl Directory {
    /// Reserves `code` for `target`, failing when any vanity already uses it.
    pub fn reserve_vanity(&mut self, code: &str, target: VanityTarget) -> (r: Result<u64, ReserveError>)
        requires
            directory_wf(old(self)@),
            old(self)@.next_itag < u64::MAX,
        ensures
            directory_wf(final(self)@),
            code_taken(old(self)@, code@) ==> r == Err::<u64, ReserveError>(ReserveError::SlugTaken)
                && final(self)@ == old(self)@,
            !code_taken(old(self)@, code@) ==> r == Ok::<u64, ReserveError>(old(self)@.next_itag)
                && final(self)@ == with_vanity(old(self)@, code@, target),
    {
        if self.vanity_taken(code) {
            return Err(ReserveError::SlugTaken);
        }
        let itag = self.next_itag;
        let row = VanityRow { itag, code: String::from_str(code), target };
        self.vanity.push(row);
        self.next_itag = itag + 1;
        let ghost row = VanityView { itag, code: code@, target };
        assert(self@.vanity =~= old(self)@.vanity.push(row));
        assert(self@.users =~= old(self)@.users);
        assert(self@.teams =~= old(self)@.teams);
        assert(self@.members =~= old(self)@.members);
        assert(self@.servers =~= old(self)@.servers);
        proof {
            let o = old(self)@;
            assert forall|i: int| 0 <= i < self@.servers.len() implies has_vanity(
                self@.vanity,
                #[trigger] self@.servers[i].vanity_ref,
                VanityTarget::Server(self@.servers[i].server_id),
            ) by {
                lemma_vanity_push(o.vanity, row, o.servers[i].vanity_ref, VanityTarget::Server(o.servers[i].server_id));
            }
            assert forall|i: int| 0 <= i < self@.teams.len() implies has_vanity(
                self@.vanity,
                #[trigger] self@.teams[i].vanity_ref,
                VanityTarget::Team(self@.teams[i].id),
            ) by {
                lemma_vanity_push(o.vanity, row, o.teams[i].vanity_ref, VanityTarget::Team(o.teams[i].id));
            }
        }
        Ok(itag)
    }

    /// Adds a user row with every flag off, unless the user is known.
    pub fn ensure_user(&mut self, user_id: u64)
        requires
            directory_wf(old(self)@),
        ensures
            directory_wf(final(self)@),
            final(self)@ == (DirectoryView { users: with_user(old(self)@.users, user_id), ..old(self)@ }),
    {
        let mut i: usize = 0;
        while i < self.users.len()
            invariant
                i <= self.users@.len(),
                self@ == old(self)@,
                directory_wf(self@),
                forall|k: int| 0 <= k < i ==> self.users@[k].user_id != user_id,
            decreases self.users@.len() - i,
        {
            if self.users[i].user_id == user_id {
                assert(has_user(self.users@, user_id));
                return;
            }
            i = i + 1;
        }
        self.users.push(UserRow { user_id, developer: false, certified: false, staff: false });
        assert(self@.teams =~= old(self)@.teams);
        assert(self@.members =~= old(self)@.members);
        assert(self@.vanity =~= old(self)@.vanity);
        assert(self@.servers =~= old(self)@.servers);
    }

    /// Stores a membership row, replacing the row of the same team and user.
    /// The team must exist.
    pub fn upsert_member(&mut self, row: TeamMemberRow)
        requires
            directory_wf(old(self)@),
            has_team(old(self)@, row.team_id),
        ensures
            directory_wf(final(self)@),
            final(self)@ == (DirectoryView { members: with_member(old(self)@.members, row@), ..old(self)@ }),
    {
        let ghost rv = row@;
        match self.member_index(row.team_id, row.user_id) {
            Some(i) => {
                proof {
                    let k = choose|k: int|
                        0 <= k < self@.members.len() && self@.members[k].team_id == rv.team_id
                            && self@.members[k].user_id == rv.user_id;
                    assert(k == i as int);
                }
                self.team_members.set(i, row);
                assert(self@.members =~= old(self)@.members.update(i as int, rv));
            },
            None => {
                self.team_members.push(row);
                assert(self@.members =~= old(self)@.members.push(rv));
            },
        }
        assert(self@.users =~= old(self)@.users);
        assert(self@.teams =~= old(self)@.teams);
        assert(self@.vanity =~= old(self)@.vanity);
        assert(self@.servers =~= old(self)@.servers);
        proof {
            let o = old(self)@;
            assert forall|i: int| 0 <= i < self@.members.len() implies has_team(self@, #[trigger] self@.members[i].team_id) by {
                if i < o.members.len() && self@.members[i] == o.members[i] {
                    assert(has_team(o, o.members[i].team_id));
                }
            }
        }
    }
}

} // verus!
