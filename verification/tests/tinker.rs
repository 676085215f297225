use eddiner::repositories::bbs_repository::{get_responses_db, shard_for, ThreadStatus};
use eddiner::tinker::Tinker;

#[test]
fn new_tinker_starts_at_zero() {
    let t = Tinker::new("abc".to_string());
    assert_eq!(t.authed_token, "abc");
    assert_eq!(t.wrote_count, 0);
    assert_eq!(t.created_thread_count, 0);
    assert_eq!(t.level, 0);
    assert_eq!(t.last_level_up_at, 0);
    assert_eq!(t.last_wrote_at, 0);
}

#[test]
fn tinker_refuses_writes_within_five_seconds() {
    let mut t = Tinker::new("abc".to_string());
    assert!(t.record_write(100, false));
    assert_eq!(t.wrote_count, 1);
    assert_eq!(t.last_wrote_at, 100);
    assert!(!t.record_write(103, false));
    assert!(!t.record_write(105, false));
    assert!(!t.record_write(99, false));
    assert_eq!(t.wrote_count, 1);
    assert_eq!(t.last_wrote_at, 100);
    assert!(t.record_write(106, true));
    assert_eq!(t.wrote_count, 2);
    assert_eq!(t.created_thread_count, 1);
}

#[test]
fn tinker_levels_up_after_twenty_three_hours() {
    let mut t = Tinker::new("abc".to_string());
    assert!(t.record_write(82_800, false));
    assert_eq!(t.level, 0);
    assert!(t.record_write(82_806, false));
    assert_eq!(t.level, 1);
    assert_eq!(t.last_level_up_at, 82_806);
    assert!(t.record_write(82_806 + 82_800, false));
    assert_eq!(t.level, 1);
    assert!(t.record_write(82_806 + 82_801 + 6, false));
    assert_eq!(t.level, 2);
}

#[test]
fn tinker_level_stops_at_twenty() {
    let mut t = Tinker::new("abc".to_string());
    let mut now = 0u64;
    for _ in 0..30 {
        now += 100_000;
        assert!(t.record_write(now, false));
    }
    assert_eq!(t.level, 20);
    assert_eq!(t.wrote_count, 30);
}

#[test]
fn shards_follow_the_creation_time() {
    assert_eq!(shard_for(1_666_666_666, 3), 1);
    assert_eq!(shard_for(1_666_666_667, 3), 2);
    assert_eq!(shard_for(1_666_666_668, 3), 0);
    assert_eq!(shard_for(1_666_666_666, 1), 0);
    assert_eq!(get_responses_db(2, 3), 2);
    assert_eq!(get_responses_db(3, 3), 0);
    assert_eq!(get_responses_db(7, 3), 0);
}

#[test]
fn thread_status_filters() {
    assert!(ThreadStatus::Active.matches(1, 0));
    assert!(!ThreadStatus::Active.matches(0, 0));
    assert!(ThreadStatus::Inactive.matches(0, 0));
    assert!(!ThreadStatus::Inactive.matches(0, 1));
    assert!(ThreadStatus::Archived.matches(0, 1));
    assert!(ThreadStatus::Unarchived.matches(1, 0));
    assert!(ThreadStatus::Unarchived.matches(0, 0));
    assert!(!ThreadStatus::Unarchived.matches(0, 1));
}
