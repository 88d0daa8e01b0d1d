use lake::lake_view::LakeView;
use lake::sandbox::SandboxGuard;
use lake::{Lake, LakeMeta, LakeSandboxExt, LakeSnapshot, LakeStats};

/// An arena at fill level `offset` in generation `generation`.
fn lake_at(offset: usize, generation: usize) -> Lake<256> {
    let mut lake = Lake::<256>::new();
    for _ in 0..generation {
        lake.reset();
    }
    let _ = lake.alloc_fixed::<0>().unwrap();
    lake.set_offset(offset);
    lake
}

#[test]
fn test_lake_stats() {
    let lake = lake_at(100, 2);
    let stats: LakeStats = lake.stats();
    assert_eq!(stats.used, 100);
    assert_eq!(stats.remaining, 156);
    assert_eq!(stats.capacity, 256);
    assert_eq!(stats.generation, 2);
}

#[test]
fn test_lake_snapshot_equality() {
    let snap1 = LakeSnapshot { offset: 42 };
    let snap2 = LakeSnapshot { offset: 42 };
    let snap3 = LakeSnapshot { offset: 99 };
    assert_eq!(snap1, snap2);
    assert_ne!(snap1, snap3);
}

#[test]
fn test_sandbox_guard_creation() {
    let mut lake = lake_at(10, 1);
    let guard: SandboxGuard<Lake<256>> = LakeSandboxExt::sandbox(&mut lake);
    assert!(!guard.committed);
    assert_eq!(guard.base_offset, 10);
    assert!(guard.lake.is_some());
}

#[test]
fn sandbox_rollback_on_a_view() {
    let mut bind = [0u8; 128];
    let mut view = LakeView::new(&mut bind);
    view.set_offset(10);
    let mut guard = view.sandbox();
    guard.view().set_offset(50);
    guard.rollback();
    assert_eq!(view.used(), 10);
    assert_eq!(view.generation, 0);
}

#[test]
fn committed_guard_keeps_offset_on_rollback() {
    let mut lake = lake_at(10, 0);
    let mut guard = lake.sandbox();
    guard.view().set_offset(40);
    guard.committed = true;
    guard.rollback();
    assert_eq!(lake.used(), 40);
}
