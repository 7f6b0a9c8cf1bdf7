use engine::leaderboard::{Leaderboard, LeaderboardDisplayType, LeaderboardHandle, LeaderboardSortMethod, LeaderboardUploadScoreMethod};
use engine::steam_id::SteamId;

fn board(m: LeaderboardSortMethod) -> Leaderboard {
    Leaderboard::new(LeaderboardHandle::new(1), "Scores", m, LeaderboardDisplayType::Numeric)
}

#[test]
fn leaderboard_orders_and_ranks() {
    let mut b = board(LeaderboardSortMethod::Descending);
    for (id, score) in [(1u32, 100), (2, 300), (3, 200)] {
        assert!(b.upload_score(SteamId::from_account_id(id), score, LeaderboardUploadScoreMethod::KeepBest, vec![]));
    }
    assert_eq!(b.entry_count(), 3);
    let top = b.get_entries(1, 10);
    let scores: Vec<i32> = top.iter().map(|e| e.score).collect();
    assert_eq!(scores, vec![300, 200, 100]);
    let ranks: Vec<u32> = top.iter().map(|e| e.global_rank).collect();
    assert_eq!(ranks, vec![1, 2, 3]);
    assert_eq!(b.get_entries(2, 1)[0].score, 200);
    assert!(b.get_entries(5, 2).is_empty());
}

#[test]
fn leaderboard_keep_best_and_force() {
    let mut b = board(LeaderboardSortMethod::Ascending);
    let u = SteamId::from_account_id(7);
    assert!(b.upload_score(u, 50, LeaderboardUploadScoreMethod::KeepBest, vec![]));
    assert!(!b.upload_score(u, 60, LeaderboardUploadScoreMethod::KeepBest, vec![]));
    assert_eq!(b.get_user_entry(u).unwrap().score, 50);
    assert!(b.upload_score(u, 40, LeaderboardUploadScoreMethod::KeepBest, vec![1, 2]));
    assert_eq!(b.get_user_entry(u).unwrap().score, 40);
    assert!(b.upload_score(u, 90, LeaderboardUploadScoreMethod::ForceUpdate, vec![]));
    assert_eq!(b.get_user_entry(u).unwrap().score, 90);
    assert_eq!(b.entry_count(), 1);
}

#[test]
fn leaderboard_around_user() {
    let mut b = board(LeaderboardSortMethod::Ascending);
    for i in 1..=10u32 {
        b.upload_score(SteamId::from_account_id(i), i as i32 * 10, LeaderboardUploadScoreMethod::KeepBest, vec![]);
    }
    let around = b.get_entries_around_user(SteamId::from_account_id(5), 2, 2);
    let scores: Vec<i32> = around.iter().map(|e| e.score).collect();
    assert_eq!(scores, vec![30, 40, 50, 60, 70]);
    assert_eq!(b.get_entries_around_user(SteamId::from_account_id(1), 3, 0).len(), 1);
    assert!(b.get_entries_around_user(SteamId::from_account_id(99), 1, 1).is_empty());
    assert!(!LeaderboardHandle::invalid().is_valid());
}

#[test]
fn leaderboard_keeps_details() {
    let mut b = board(LeaderboardSortMethod::Descending);
    let u = SteamId::from_account_id(3);
    b.upload_score(u, 5, LeaderboardUploadScoreMethod::KeepBest, vec![1]);
    b.upload_score(u, 9, LeaderboardUploadScoreMethod::KeepBest, vec![7, 8]);
    assert_eq!(b.get_user_entry(u).unwrap().details, vec![7, 8]);
    assert_eq!(b.entry_count(), 1);
}
