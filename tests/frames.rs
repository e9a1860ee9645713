use pong::graphics::{score_position, GraphicsCache};
use pong::sync::SyncFlag;

#[test]
fn vsync_raises_flag_and_swaps_with_double_buffering() {
    let flag = SyncFlag::new();
    assert!(!flag.may_compose());
    assert_eq!(flag.on_vsync(true), (SyncFlag::PendingPresent, true));
    assert_eq!(flag.on_vsync(false), (SyncFlag::PendingPresent, false));
}

#[test]
fn vsync_while_pending_is_dropped() {
    let flag = SyncFlag::PendingPresent;
    assert_eq!(flag.on_vsync(true), (SyncFlag::PendingPresent, false));
}

#[test]
fn one_composition_per_vsync() {
    let mut flag = SyncFlag::new();
    let mut compositions = 0;
    let mut swaps = 0;
    // vsync, vsync, poll, poll, vsync, poll
    for event in ["v", "v", "p", "p", "v", "p"] {
        if event == "v" {
            let (next, swap) = flag.on_vsync(true);
            flag = next;
            if swap {
                swaps += 1;
            }
        } else if flag.may_compose() {
            compositions += 1;
            flag = flag.frame_done();
        }
    }
    assert_eq!(compositions, 2);
    assert_eq!(swaps, 2);
    assert_eq!(flag, SyncFlag::Presented);
}

#[test]
fn flag_round_trips_through_bool() {
    assert!(SyncFlag::from_pending(true).is_pending());
    assert!(!SyncFlag::from_pending(false).is_pending());
    assert_eq!(SyncFlag::from_pending(true), SyncFlag::PendingPresent);
}

#[test]
fn fresh_cache_redraws_both_scores() {
    let mut cache = GraphicsCache::new();
    assert_eq!(cache.score(0), 99);
    assert_eq!(cache.score(1), 99);
    assert_eq!(cache.last_score_redraw(), 0);
    assert_eq!(cache.plan_score_redraw([0, 0], 5), [true, true]);
    assert_eq!(cache.last_score_redraw(), 5);
}

#[test]
fn unchanged_score_within_window_is_skipped() {
    let mut cache = GraphicsCache::new();
    cache.plan_score_redraw([2, 3], 100);
    assert_eq!(cache.plan_score_redraw([2, 3], 1100), [false, false]);
    assert_eq!(cache.last_score_redraw(), 100);
}

#[test]
fn stale_score_is_redrawn() {
    let mut cache = GraphicsCache::new();
    cache.plan_score_redraw([2, 3], 100);
    assert_eq!(cache.plan_score_redraw([2, 3], 1101), [true, true]);
    assert_eq!(cache.last_score_redraw(), 1101);
}

#[test]
fn only_changed_score_is_redrawn() {
    let mut cache = GraphicsCache::new();
    cache.plan_score_redraw([2, 3], 100);
    assert_eq!(cache.plan_score_redraw([2, 4], 200), [false, true]);
    assert_eq!(cache.score(1), 4);
    assert_eq!(cache.last_score_redraw(), 200);
}

#[test]
fn score_positions() {
    assert_eq!(score_position(0), (215, 116));
    assert_eq!(score_position(1), (250, 116));
}
