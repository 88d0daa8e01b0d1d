use lake::thread_lake::{thread_lake_init, DEFAULT_SIZE};
use lake::Lake;

#[test]
fn test_thread_lake_initialization_and_access() {
    let mut slot: Option<Lake<DEFAULT_SIZE>> = None;
    thread_lake_init(&mut slot);
    let lake: &mut Lake<DEFAULT_SIZE> = slot.as_mut().expect("Lake not initialized");
    assert_eq!(lake.capacity(), DEFAULT_SIZE);
    assert_eq!(lake.used(), 0);
    let _ = lake.alloc_fixed::<8>().unwrap();
    assert_eq!(lake.used(), 8);
}

#[test]
fn test_thread_lake_reuse_in_same_thread() {
    let mut slot: Option<Lake<DEFAULT_SIZE>> = None;
    thread_lake_init(&mut slot);
    {
        let lake = slot.as_mut().expect("Lake not initialized");
        let _ = lake.alloc_fixed::<16>().unwrap();
    }
    {
        let lake = slot.as_mut().expect("Lake not initialized");
        assert!(lake.used() >= 16);
    }
}

#[test]
fn thread_lake_init_replaces_used_arena() {
    let mut slot: Option<Lake<DEFAULT_SIZE>> = None;
    thread_lake_init(&mut slot);
    let _ = slot.as_mut().unwrap().alloc_fixed::<16>().unwrap();
    thread_lake_init(&mut slot);
    assert_eq!(slot.as_ref().unwrap().used(), 0);
}
