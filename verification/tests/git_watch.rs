use tracedecay::daemon::git_watch::{DirtySet, GitEvent, ProjectHealthSnapshot, WatchRegistry, HEARTBEAT_STALE_SECS};

fn now_secs() -> u64 {
    std::time::SystemTime::now()
        .duration_since(std::time::UNIX_EPOCH)
        .map_or(0, |d| d.as_secs())
}

#[test]
fn dirty_set_coalesces_and_takes_once() {
    let mut set = DirtySet::default();
    assert!(set.is_clean());
    set.dirty = true;
    set.branches.insert("feat/a".to_string());
    set.branches.insert("feat/a".to_string()); // dedup
    set.branches.insert("feat/b".to_string());
    assert!(!set.is_clean());

    let plan = set.take();
    assert!(plan.dirty);
    assert_eq!(plan.branches.len(), 2);
    // Draining resets the dirty state so the next cycle starts clean.
    assert!(set.is_clean());
    let empty = set.take();
    assert!(empty.is_empty());
}

#[test]
fn ref_event_marks_branch_and_delete_marks_gc() {
    let mut dirty = DirtySet::default();
    // Simulate a refs/heads create.
    let create = GitEvent {
        removed: false,
        paths: vec!["/repo/.git/refs/heads/feat/x".to_string()],
    };
    dirty.classify_and_mark(&create);
    assert!(!dirty.gc_eligible);
    // Simulate a worktree delete.
    let remove = GitEvent {
        removed: true,
        paths: vec!["/repo/.git/worktrees/wt1".to_string()],
    };
    dirty.classify_and_mark(&remove);

    assert!(dirty.dirty);
    assert!(dirty.branches.contains("feat/x"));
    assert!(dirty.gc_eligible);
}

#[test]
fn heartbeat_staleness() {
    let fresh = ProjectHealthSnapshot {
        last_heartbeat: now_secs(),
        last_sync: 0,
        degraded: false,
    };
    assert!(!fresh.heartbeat_stale());
    let never = ProjectHealthSnapshot {
        last_heartbeat: 0,
        last_sync: 0,
        degraded: false,
    };
    assert!(never.heartbeat_stale());
    let old = ProjectHealthSnapshot {
        last_heartbeat: now_secs().saturating_sub(HEARTBEAT_STALE_SECS + 10),
        last_sync: 0,
        degraded: false,
    };
    assert!(old.heartbeat_stale());
}

#[test]
fn heartbeat_is_stale_only_beyond_the_limit() {
    let h = ProjectHealthSnapshot { last_heartbeat: 1000, last_sync: 0, degraded: false };
    assert!(!h.heartbeat_stale_at(1000 + HEARTBEAT_STALE_SECS));
    assert!(h.heartbeat_stale_at(1001 + HEARTBEAT_STALE_SECS));
    assert!(!h.heartbeat_stale_at(5));
}

#[test]
fn branch_names_follow_refs_heads() {
    let mut set = DirtySet::default();
    set.classify_and_mark(&GitEvent {
        removed: false,
        paths: vec![
            "/r/.git/HEAD".to_string(),
            "/r/.git/refs/heads/".to_string(),
            "/r/.git/refs/heads/main".to_string(),
        ],
    });
    let plan = set.take();
    assert_eq!(plan.branches.len(), 1);
    assert!(plan.branches.contains("main"));
    assert!(!plan.gc_eligible);
}

#[test]
fn ensure_watching_registers_dedups_and_caps() {
    // Cap of 2: the third project must not register.
    let mut watcher = WatchRegistry::new(true, 2);
    assert!(watcher.is_enabled());

    watcher.ensure_watching("/repo/a");
    assert_eq!(watcher.len(), 1);

    // Dedup: registering the same project again is a no-op.
    watcher.ensure_watching("/repo/a");
    assert_eq!(watcher.len(), 1);

    watcher.ensure_watching("/repo/b");
    assert_eq!(watcher.len(), 2);

    // Cap: the third project is refused.
    assert!(!watcher.ensure_watching("/repo/c"));
    assert_eq!(watcher.len(), 2);
}

#[test]
fn disabled_watcher_never_registers() {
    let mut watcher = WatchRegistry::new(false, 32);
    assert!(!watcher.is_enabled());
    watcher.ensure_watching("/repo/a");
    assert!(watcher.is_empty());
}
