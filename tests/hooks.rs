use stfed::hook::{FolderHookId, RunningHooks, Watched, REAPER_WAIT_DELAY_MS};

#[test]
fn exclusive_hook_waits_for_reap() {
    let mut running = RunningHooks::new();
    let id = FolderHookId::from_hook(0);
    assert!(running.try_start(id, false));
    assert!(!running.try_start(id, false));
    assert!(running.is_running(id));
    let mut watched = Watched::new();
    watched.watch(id);
    assert_eq!(watched.reaped(0, &mut running), id);
    assert!(!running.is_running(id));
    assert!(running.try_start(id, false));
}

#[test]
fn concurrent_hook_always_starts() {
    let mut running = RunningHooks::new();
    let id = FolderHookId::from_hook(3);
    for _ in 0..10 {
        assert!(running.try_start(id, true));
    }
    assert!(running.is_running(id));
    // An exclusive hook is not held back by another hook's runs.
    assert!(running.try_start(FolderHookId::from_hook(4), false));
}

#[test]
fn reap_frees_exited_slot_only() {
    let mut running = RunningHooks::new();
    let mut watched = Watched::new();
    let quick = FolderHookId::from_hook(1);
    let slow = FolderHookId::from_hook(2);
    assert!(running.try_start(quick, false));
    watched.watch(quick);
    assert!(running.try_start(slow, false));
    watched.watch(slow);
    // The process at position 0 exited; the other one still runs.
    assert_eq!(watched.reaped(0, &mut running), quick);
    assert!(!running.is_running(quick));
    assert!(running.is_running(slow));
    assert_eq!(watched.hooks, vec![slow]);
    assert!(!running.try_start(slow, false));
    assert!(running.try_start(quick, false));
}

#[test]
fn reaper_waits_without_limit_only_when_idle() {
    let mut watched = Watched::new();
    assert_eq!(watched.wait_limit_ms(), None);
    watched.watch(FolderHookId::from_hook(0));
    assert_eq!(watched.wait_limit_ms(), Some(REAPER_WAIT_DELAY_MS));
    assert_eq!(REAPER_WAIT_DELAY_MS, 500);
}

#[test]
fn swap_remove_order_of_watched() {
    let mut running = RunningHooks::new();
    let mut watched = Watched::new();
    for i in 0..3 {
        let id = FolderHookId::from_hook(i);
        assert!(running.try_start(id, false));
        watched.watch(id);
    }
    assert_eq!(watched.reaped(0, &mut running), FolderHookId::from_hook(0));
    assert_eq!(watched.hooks, vec![FolderHookId::from_hook(2), FolderHookId::from_hook(1)]);
}

#[test]
fn hook_id_is_position() {
    assert_eq!(FolderHookId::from_hook(7).val, 7);
    assert_ne!(FolderHookId::from_hook(7), FolderHookId::from_hook(8));
}

#[test]
fn concurrent_runs_are_counted_until_each_is_reaped() {
    let mut running = RunningHooks::new();
    let mut watched = Watched::new();
    let id = FolderHookId::from_hook(5);
    assert!(running.try_start(id, true));
    watched.watch(id);
    assert!(running.try_start(id, true));
    watched.watch(id);
    assert_eq!(watched.reaped(1, &mut running), id);
    assert!(running.is_running(id));
    assert!(!running.try_start(id, false));
    assert_eq!(watched.reaped(0, &mut running), id);
    assert!(!running.is_running(id));
}

#[test]
fn failed_spawn_release_restores_slot() {
    let mut running = RunningHooks::new();
    let id = FolderHookId::from_hook(1);
    assert!(running.try_start(id, true));
    assert!(running.try_start(id, true));
    running.release(id);
    assert!(running.is_running(id));
    running.release(id);
    assert!(!running.is_running(id));
    running.release(id);
    assert!(!running.is_running(id));
    assert!(running.try_start(id, false));
}
