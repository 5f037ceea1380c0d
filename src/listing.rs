//! Changes to a listed server: updates, deletion, and the removal of
//! memberships that platform administrator status granted.
use vstd::prelude::*;
use crate::directory::{
    directory_wf, has_server, has_team, has_vanity, own_service, Directory, VanityTarget, DirectoryView, MemberView,
    ServerView, VanityView,
};
use crate::text::same_text;
use crate::onboarding::{descriptions_ok, long_ok, short_ok};
use crate::permissions::server_team;

verus! {

/// Why a change to a listing was refused.
#[derive(Clone, Copy, Debug, PartialEq, Eq, Structural)]
pub enum ListingError {
    /// The server is not listed.
    NotListed,
    /// A description is outside its length bounds.
    InvalidForm,
}

/// Position of the row of the listed server `id`.
pub open spec fn server_pos(d: DirectoryView, id: u64) -> int {
    choose|i: int| 0 <= i < d.servers.len() && d.servers[i].server_id == id
}

/// The vanity table without the row tagged `tag`, if there is one.
pub open spec fn vanity_without(v: Seq<VanityView>, tag: u64) -> Seq<VanityView> {
    if exists|j: int| 0 <= j < v.len() && v[j].itag == tag {
        v.remove(choose|j: int| 0 <= j < v.len() && v[j].itag == tag)
    } else {
        v
    }
}

/// The store once the listed server `id` and its vanity are deleted. Its
/// team and the team's members stay.
pub open spec fn without_server(d: DirectoryView, id: u64) -> DirectoryView {
    let i = server_pos(d, id);
    DirectoryView {
        servers: d.servers.remove(i),
        vanity: vanity_without(d.vanity, d.servers[i].vanity_ref),
        ..d
    }
}

/// The store once the descriptions of the listed server `id` are replaced.
pub open spec fn with_descriptions(d: DirectoryView, id: u64, short: Seq<char>, long: Seq<char>) -> DirectoryView {
    let i = server_pos(d, id);
    DirectoryView { servers: d.servers.update(i, ServerView { short, long, ..d.servers[i] }), ..d }
}

/// The store once the invite of the listed server `id` is replaced.
pub open spec fn with_invite(d: DirectoryView, id: u64, invite: Seq<char>) -> DirectoryView {
    let i = server_pos(d, id);
    DirectoryView { servers: d.servers.update(i, ServerView { invite, ..d.servers[i] }), ..d }
}

/// The members table without the row of `user` in `team`, where this
/// library's onboarding added it.
pub open spec fn without_implicit_member(m: Seq<MemberView>, team: u128, user: u64) -> Seq<MemberView> {
    if exists|j: int| 0 <= j < m.len() && m[j].team_id == team && m[j].user_id == user && m[j].service == own_service() {
        m.remove(choose|j: int| 0 <= j < m.len() && m[j].team_id == team && m[j].user_id == user && m[j].service == own_service())
    } else {
        m
    }
}

/// The store once `user` loses the membership in the team of server `id`
/// that onboarding gave it; unchanged where the server is not listed.
pub open spec fn revoked(d: DirectoryView, id: u64, user: u64) -> DirectoryView {
    if has_server(d, id) {
        DirectoryView { members: without_implicit_member(d.members, server_team(d, id), user), ..d }
    } else {
        d
    }
}

/// Whether a change of a member's roles revokes the membership onboarding
/// gave it: a human member who is no longer an administrator loses it.
pub fn revokes_membership(bot: bool, administrator: bool) -> (r: bool)
    ensures
        r == (!bot && !administrator),
{
    !bot && !administrator
}

impl Directory {
    /// Deletes the listed server `server_id` and its vanity, in one
    /// transaction. A server that was never listed is reported, and nothing
    /// changes.
    pub fn delete_server(&mut self, server_id: u64) -> (r: Result<(), ListingError>)
        requires
            directory_wf(old(self)@),
        ensures
            directory_wf(final(self)@),
            !has_server(old(self)@, server_id) ==> r == Err::<(), ListingError>(ListingError::NotListed)
                && final(self)@ == old(self)@,
            has_server(old(self)@, server_id) ==> r is Ok && final(self)@ == without_server(old(self)@, server_id),
    {
        let i = match self.server_index(server_id) {
            Some(i) => i,
            None => {
                return Err(ListingError::NotListed);
            },
        };
        let ghost d0 = self@;
        proof {
            assert(server_pos(d0, server_id) == i as int);
        }
        let tag = self.servers[i].vanity_ref;
        let mut j: usize = 0;
        while j < self.vanity.len() && self.vanity[j].itag != tag
            invariant
                j <= self.vanity@.len(),
                self@ == d0,
                forall|k: int| 0 <= k < j ==> d0.vanity[k].itag != tag,
            decreases self.vanity@.len() - j,
        {
            j = j + 1;
        }
        if j < self.vanity.len() {
            proof {
                assert(self.vanity@[j as int].itag == tag);
                assert(d0.vanity[j as int].itag == tag);
                let k = choose|k: int| 0 <= k < d0.vanity.len() && d0.vanity[k].itag == tag;
                assert(k == j as int);
            }
            self.vanity.remove(j);
            assert(self@.vanity =~= d0.vanity.remove(j as int));
        } else {
            assert(self@.vanity =~= d0.vanity);
        }
        assert(self@.vanity =~= vanity_without(d0.vanity, tag));
        self.servers.remove(i);
        proof {
            assert(self@.servers =~= d0.servers.remove(i as int));
            assert(self@.users =~= d0.users);
            assert(self@.teams =~= d0.teams);
            assert(self@.members =~= d0.members);
            let v = self@.vanity;
            assert forall|a: int, b: int| 0 <= a < b < v.len() implies v[a].code != v[b].code && v[a].itag != v[b].itag by {
                if j < d0.vanity.len() {
                    let a2 = if a < j { a } else { a + 1 };
                    let b2 = if b < j { b } else { b + 1 };
                    assert(v[a] == d0.vanity[a2]);
                    assert(v[b] == d0.vanity[b2]);
                }
            }
            assert forall|a: int| 0 <= a < v.len() implies v[a].itag < self@.next_itag by {
                if j < d0.vanity.len() {
                    let a2 = if a < j { a } else { a + 1 };
                    assert(v[a] == d0.vanity[a2]);
                }
            }
            let s = self@.servers;
            assert forall|a: int, b: int| 0 <= a < b < s.len() implies s[a].server_id != s[b].server_id by {
                let a2 = if a < i { a } else { a + 1 };
                let b2 = if b < i { b } else { b + 1 };
                assert(s[a] == d0.servers[a2]);
                assert(s[b] == d0.servers[b2]);
            }
            let e = self@;
            // The removed vanity row is the deleted server's own.
            let wi = choose|w: int| 0 <= w < d0.vanity.len() && d0.vanity[w].itag == tag && d0.vanity[w].target
                == VanityTarget::Server(server_id);
            assert(d0.servers[i as int].vanity_ref == tag);
            assert(has_vanity(d0.vanity, d0.servers[i as int].vanity_ref, VanityTarget::Server(d0.servers[i as int].server_id)));
            assert(j < d0.vanity.len()) by {
                if j >= d0.vanity.len() {
                    assert(d0.vanity[wi].itag == tag);
                }
            }
            assert(wi == j as int);
            assert forall|x: u128| has_team(d0, x) implies has_team(e, x) by {
                let w = choose|w: int| 0 <= w < d0.teams.len() && d0.teams[w].id == x;
                assert(e.teams[w].id == x);
            }
            assert forall|a: int| 0 <= a < e.members.len() implies has_team(e, #[trigger] e.members[a].team_id) by {
                assert(e.members[a] == d0.members[a]);
            }
            assert forall|a: int| 0 <= a < e.servers.len() implies has_team(e, #[trigger] e.servers[a].team_owner) by {
                let a2 = if a < i { a } else { a + 1 };
                assert(e.servers[a] == d0.servers[a2]);
            }
            assert forall|a: int| 0 <= a < e.servers.len() implies has_vanity(
                e.vanity,
                #[trigger] e.servers[a].vanity_ref,
                VanityTarget::Server(e.servers[a].server_id),
            ) by {
                let a2 = if a < i { a } else { a + 1 };
                assert(e.servers[a] == d0.servers[a2]);
                assert(d0.servers[a2].server_id != server_id);
                let sa = d0.servers[a2];
                assert(has_vanity(d0.vanity, sa.vanity_ref, VanityTarget::Server(sa.server_id)));
                let w = choose|w: int| 0 <= w < d0.vanity.len() && d0.vanity[w].itag == sa.vanity_ref
                    && d0.vanity[w].target == VanityTarget::Server(sa.server_id);
                assert(w != j);
                let w2 = if w < j { w } else { w - 1 };
                assert(e.vanity[w2] == d0.vanity[w]);
            }
            assert forall|a: int| 0 <= a < e.teams.len() implies has_vanity(
                e.vanity,
                #[trigger] e.teams[a].vanity_ref,
                VanityTarget::Team(e.teams[a].id),
            ) by {
                let t = d0.teams[a];
                assert(e.teams[a] == t);
                assert(has_vanity(d0.vanity, t.vanity_ref, VanityTarget::Team(t.id)));
                let w = choose|w: int| 0 <= w < d0.vanity.len() && d0.vanity[w].itag == t.vanity_ref
                    && d0.vanity[w].target == VanityTarget::Team(t.id);
                assert(w != j);
                let w2 = if w < j { w } else { w - 1 };
                assert(e.vanity[w2] == d0.vanity[w]);
            }
        }
        Ok(())
    }
}

impl Directory {
    /// The basic-info pane: replaces the short and long descriptions of the
    /// listed server.
    pub fn update_basic_info(&mut self, server_id: u64, short: &str, long: &str) -> (r: Result<(), ListingError>)
        requires
            directory_wf(old(self)@),
        ensures
            directory_wf(final(self)@),
            !has_server(old(self)@, server_id) ==> r == Err::<(), ListingError>(ListingError::NotListed)
                && final(self)@ == old(self)@,
            has_server(old(self)@, server_id) && !(short_ok(short@) && long_ok(long@)) ==> r == Err::<
                (),
                ListingError,
            >(ListingError::InvalidForm) && final(self)@ == old(self)@,
            has_server(old(self)@, server_id) && short_ok(short@) && long_ok(long@) ==> r is Ok
                && final(self)@ == with_descriptions(old(self)@, server_id, short@, long@),
    {
        let i = match self.server_index(server_id) {
            Some(i) => i,
            None => {
                return Err(ListingError::NotListed);
            },
        };
        if !descriptions_ok(short, long) {
            return Err(ListingError::InvalidForm);
        }
        let ghost d0 = self@;
        proof {
            assert(server_pos(d0, server_id) == i as int);
        }
        let mut row = self.servers.remove(i);
        row.short = String::from_str(short);
        row.long = String::from_str(long);
        self.servers.insert(i, row);
        proof {
            assert(self@.servers =~= d0.servers.update(
                i as int,
                ServerView { short: short@, long: long@, ..d0.servers[i as int] },
            ));
            assert(self@.users =~= d0.users);
            assert(self@.teams =~= d0.teams);
            assert(self@.members =~= d0.members);
            assert(self@.vanity =~= d0.vanity);
        }
        Ok(())
    }

    /// The invite pane: replaces the invite descriptor of the listed server.
    pub fn update_invite(&mut self, server_id: u64, invite: &str) -> (r: Result<(), ListingError>)
        requires
            directory_wf(old(self)@),
        ensures
            directory_wf(final(self)@),
            !has_server(old(self)@, server_id) ==> r == Err::<(), ListingError>(ListingError::NotListed)
                && final(self)@ == old(self)@,
            has_server(old(self)@, server_id) ==> r is Ok && final(self)@ == with_invite(old(self)@, server_id, invite@),
    {
        let i = match self.server_index(server_id) {
            Some(i) => i,
            None => {
                return Err(ListingError::NotListed);
            },
        };
        let ghost d0 = self@;
        proof {
            assert(server_pos(d0, server_id) == i as int);
        }
        let mut row = self.servers.remove(i);
        row.invite = String::from_str(invite);
        self.servers.insert(i, row);
        proof {
            assert(self@.servers =~= d0.servers.update(i as int, ServerView { invite: invite@, ..d0.servers[i as int] }));
            assert(self@.users =~= d0.users);
            assert(self@.teams =~= d0.teams);
            assert(self@.members =~= d0.members);
            assert(self@.vanity =~= d0.vanity);
        }
        Ok(())
    }

    /// Removes the membership of `user_id` in the team of server `server_id`
    /// where onboarding added it; memberships added otherwise stay.
    pub fn revoke_implicit_member(&mut self, server_id: u64, user_id: u64)
        requires
            directory_wf(old(self)@),
        ensures
            directory_wf(final(self)@),
            final(self)@ == revoked(old(self)@, server_id, user_id),
    {
        let i = match self.server_index(server_id) {
            Some(i) => i,
            None => {
                return;
            },
        };
        let ghost d0 = self@;
        let team = self.servers[i].team_owner;
        proof {
            let k = choose|k: int| 0 <= k < d0.servers.len() && d0.servers[k].server_id == server_id;
            assert(k == i as int);
            assert(server_team(d0, server_id) == team);
        }
        proof {
            reveal_strlit("infernoplex");
            assert("infernoplex"@ =~= own_service());
        }
        let mut j: usize = 0;
        while j < self.team_members.len() && !(self.team_members[j].team_id == team && self.team_members[j].user_id == user_id && same_text(self.team_members[j].service.as_str(), "infernoplex"))
            invariant
                j <= self.team_members@.len(),
                self@ == d0,
                "infernoplex"@ == own_service(),
                forall|k: int| 0 <= k < j ==> !(d0.members[k].team_id == team && d0.members[k].user_id == user_id && d0.members[k].service == own_service()),
            decreases self.team_members@.len() - j,
        {
            j = j + 1;
        }
        if j < self.team_members.len() {
            proof {
                assert(d0.members[j as int] == self.team_members@[j as int]@);
                let k = choose|k: int| 0 <= k < d0.members.len() && d0.members[k].team_id == team && d0.members[k].user_id == user_id && d0.members[k].service == own_service();
                assert(k == j as int) by {
                    if k != j as int {
                        if k < j {
                        } else {
                            assert(d0.members[k].team_id == d0.members[j as int].team_id);
                        }
                    }
                }
            }
            self.team_members.remove(j);
            proof {
                assert(self@.members =~= d0.members.remove(j as int));
                let m = self@.members;
                assert forall|a: int, b: int| 0 <= a < b < m.len() implies !(m[a].team_id == m[b].team_id && m[a].user_id == m[b].user_id) by {
                    let a2 = if a < j { a } else { a + 1 };
                    let b2 = if b < j { b } else { b + 1 };
                    assert(m[a] == d0.members[a2]);
                    assert(m[b] == d0.members[b2]);
                }
            }
        } else {
            assert(self@.members =~= d0.members);
        }
        proof {
            assert(self@.members =~= without_implicit_member(d0.members, team, user_id));
            assert(self@.users =~= d0.users);
            assert(self@.teams =~= d0.teams);
            assert(self@.vanity =~= d0.vanity);
            assert(self@.servers =~= d0.servers);
        }
    }

    /// A member's roles changed: a human member who is no longer an
    /// administrator loses the membership that onboarding gave it.
    pub fn on_member_update(&mut self, server_id: u64, user_id: u64, bot: bool, administrator: bool)
        requires
            directory_wf(old(self)@),
        ensures
            directory_wf(final(self)@),
            final(self)@ == (if !bot && !administrator { revoked(old(self)@, server_id, user_id) } else { old(self)@ }),
    {
        if revokes_membership(bot, administrator) {
            self.revoke_implicit_member(server_id, user_id);
        }
    }

    /// A member left the server: it loses the membership that onboarding
    /// gave it.
    pub fn on_member_removal(&mut self, server_id: u64, user_id: u64)
        requires
            directory_wf(old(self)@),
        ensures
            directory_wf(final(self)@),
            final(self)@ == revoked(old(self)@, server_id, user_id),
    {
        self.revoke_implicit_member(server_id, user_id);
    }
}

/// Running the basic-info pane twice with the same inputs leaves the store as
/// once.
pub proof fn basic_info_update_is_idempotent(d: DirectoryView, id: u64, short: Seq<char>, long: Seq<char>)
    requires
        directory_wf(d),
        has_server(d, id),
    ensures
        has_server(with_descriptions(d, id, short, long), id),
        with_descriptions(with_descriptions(d, id, short, long), id, short, long) == with_descriptions(d, id, short, long),
{
    let d1 = with_descriptions(d, id, short, long);
    let i = server_pos(d, id);
    assert(d1.servers[i].server_id == id);
    let i1 = server_pos(d1, id);
    assert(i1 == i) by {
        if i1 != i {
            assert(d1.servers[i1] == d.servers[i1]);
        }
    }
    assert(d1.servers.update(i, ServerView { short, long, ..d1.servers[i] }) =~= d1.servers);
}

} // verus!
