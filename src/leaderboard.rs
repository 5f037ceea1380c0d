//! Choosing the rows of a server's vote leaderboard.
use vstd::prelude::*;

verus! {

/// A voter and its score (upvotes minus downvotes), best first.
#[derive(Clone, Copy, Debug, PartialEq, Eq, Structural)]
pub struct VoteScore {
    pub author: u64,
    pub score: i64,
}

pub open spec fn kept(r: VoteScore, members: Option<Seq<u64>>) -> bool {
    match members {
        Some(m) => m.contains(r.author),
        None => true,
    }
}

/// The rows that may be shown: those of current members when a member list
/// is given.
pub open spec fn eligible(rows: Seq<VoteScore>, members: Option<Seq<u64>>) -> Seq<VoteScore>
    decreases rows.len(),
{
    if rows.len() == 0 {
        Seq::empty()
    } else {
        let prev = eligible(rows.drop_last(), members);
        if kept(rows.last(), members) {
            prev.push(rows.last())
        } else {
            prev
        }
    }
}

/// The leaderboard rows: the first eligible rows, at most `limit` of them;
/// none for a limit that is not positive.
pub open spec fn leaderboard_rows(rows: Seq<VoteScore>, members: Option<Seq<u64>>, limit: i64) -> Seq<VoteScore> {
    let e = eligible(rows, members);
    if limit <= 0 {
        Seq::empty()
    } else if e.len() <= limit {
        e
    } else {
        e.take(limit as int)
    }
}

proof fn lemma_eligible_prefix(rows: Seq<VoteScore>, members: Option<Seq<u64>>, i: int)
    requires
        0 <= i <= rows.len(),
    ensures
        eligible(rows.subrange(0, i), members).len() <= eligible(rows, members).len(),
        eligible(rows.subrange(0, i), members) == eligible(rows, members).take(
            eligible(rows.subrange(0, i), members).len() as int,
        ),
    decreases rows.len() - i,
{
    if i < rows.len() {
        lemma_eligible_prefix(rows, members, i + 1);
        assert(rows.subrange(0, i + 1).drop_last() =~= rows.subrange(0, i));
        let a = eligible(rows.subrange(0, i), members);
        let b = eligible(rows.subrange(0, i + 1), members);
        let e = eligible(rows, members);
        assert(b == e.take(b.len() as int));
        if kept(rows[i], members) {
            assert(a =~= b.drop_last());
            assert(a =~= e.take(a.len() as int));
        } else {
            assert(a == b);
        }
    } else {
        assert(rows.subrange(0, i) =~= rows);
        assert(eligible(rows, members).take(eligible(rows, members).len() as int) =~= eligible(rows, members));
    }
}

pub open spec fn member_view(members: Option<&Vec<u64>>) -> Option<Seq<u64>> {
    match members {
        Some(m) => Some(m@),
        None => None,
    }
}

fn is_member(members: &Vec<u64>, author: u64) -> (r: bool)
    ensures
        r == members@.contains(author),
{
    let mut i: usize = 0;
    while i < members.len()
        invariant
            i <= members@.len(),
            forall|k: int| 0 <= k < i ==> members@[k] != author,
        decreases members@.len() - i,
    {
        if members[i] == author {
            assert(members@[i as int] == author);
            return true;
        }
        i = i + 1;
    }
    false
}

/// Picks the leaderboard rows from the scores, best first, keeping only
/// current members when `members` is given.
pub fn select_leaderboard(rows: &Vec<VoteScore>, members: Option<&Vec<u64>>, limit: i64) -> (r: Vec<VoteScore>)
    ensures
        r@ == leaderboard_rows(rows@, member_view(members), limit),
{
    let ghost ms = member_view(members);
    let mut out: Vec<VoteScore> = Vec::new();
    if limit <= 0 {
        return out;
    }
    let cap: u64 = limit as u64;
    let mut i: usize = 0;
    while i < rows.len()
        invariant
            i <= rows@.len(),
            ms == member_view(members),
            cap as int == limit,
            cap > 0,
            out@ == eligible(rows@.subrange(0, i as int), ms),
            out@.len() < cap,
        decreases rows@.len() - i,
    {
        let row = rows[i];
        let keep = match members {
            Some(m) => is_member(m, row.author),
            None => true,
        };
        proof {
            assert(rows@.subrange(0, i + 1).drop_last() =~= rows@.subrange(0, i as int));
        }
        if keep {
            out.push(row);
        }
        i = i + 1;
        if out.len() as u64 >= cap {
            proof {
                lemma_eligible_prefix(rows@, ms, i as int);
                let e = eligible(rows@, ms);
                assert(out@.len() == cap);
                if e.len() == cap {
                    assert(e.take(cap as int) =~= e);
                }
            }
            return out;
        }
    }
    proof {
        assert(rows@.subrange(0, rows@.len() as int) =~= rows@);
    }
    out
}

} // verus!
