use infernoplex::leaderboard::{select_leaderboard, VoteScore};

fn rows() -> Vec<VoteScore> {
    vec![
        VoteScore { author: 1, score: 9 },
        VoteScore { author: 2, score: 7 },
        VoteScore { author: 3, score: 4 },
        VoteScore { author: 4, score: -1 },
    ]
}

fn authors(v: &[VoteScore]) -> Vec<u64> {
    v.iter().map(|r| r.author).collect()
}

#[test]
fn leaderboard_limit_and_filter() {
    assert_eq!(authors(&select_leaderboard(&rows(), None, 10)), vec![1, 2, 3, 4]);
    assert_eq!(authors(&select_leaderboard(&rows(), None, 2)), vec![1, 2]);
    let members = vec![2, 4];
    assert_eq!(authors(&select_leaderboard(&rows(), Some(&members), 10)), vec![2, 4]);
    assert_eq!(authors(&select_leaderboard(&rows(), Some(&members), 1)), vec![2]);
}

#[test]
fn leaderboard_edge_limits() {
    assert!(select_leaderboard(&rows(), None, 0).is_empty());
    let members = vec![2];
    assert!(select_leaderboard(&rows(), Some(&members), 0).is_empty());
    assert!(select_leaderboard(&rows(), None, -1).is_empty());
    assert!(select_leaderboard(&rows(), None, i64::MIN).is_empty());
    assert_eq!(authors(&select_leaderboard(&rows(), None, i64::MAX)), vec![1, 2, 3, 4]);
    assert!(select_leaderboard(&vec![], None, 5).is_empty());
}
