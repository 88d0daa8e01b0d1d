use lake::droplet::{Droplet, DropletDyn};
use lake::lake_view::LakeView;
use lake::{DropletBase, DropletDeserializeExt, Lake, LakeAllocatorExt, LakeError};

#[test]
fn test_lake_view_new_alloc_and_usage() {
    let mut lake: Lake<64> = Lake::<64>::new();
    let mut view: LakeView = lake.split(32).expect("should split view");

    assert_eq!(view.used(), 0);
    assert_eq!(view.remaining(), 32);
    assert_eq!(view.capacity(), 32);

    let droplet: Droplet<16> = view.alloc_fixed::<16>().expect("should alloc");
    assert_eq!(view.used(), 16);
    assert_eq!(view.remaining(), 16);
    assert_eq!(droplet.d_as_slice(&view), &[0u8; 16]);
}

#[test]
fn test_lake_view_alloc_overflow() {
    let mut bind: [u8; 16] = [0u8; 16];
    let mut view: LakeView = LakeView::new(&mut bind);
    let _ = view.alloc_fixed::<8>().unwrap();
    assert!(view.alloc_fixed::<9>().is_none());
}

#[test]
fn test_lake_view_reset_zeroing() {
    let mut buffer: [u8; 32] = [1u8; 32];
    let mut view: LakeView = LakeView::new(&mut buffer);
    view.set_zeroing(true);
    let _ = view.alloc_fixed::<16>().unwrap();
    view.clear();
    let slice: &[u8] = &view.buf[..32];
    assert!(slice[..16].iter().all(|&b| b == 0));
}

#[test]
fn test_lake_view_mark_reset() {
    let mut bind: [u8; 32] = [0u8; 32];
    let mut view: LakeView = LakeView::new(&mut bind);
    let _ = view.alloc_fixed::<8>().unwrap();
    view.mark();
    let _ = view.alloc_fixed::<8>().unwrap();
    view.reset_to_mark();
    assert_eq!(view.used(), 8);
}

#[test]
fn test_lake_view_move_mark() {
    let mut bind: [u8; 32] = [0u8; 32];
    let mut view: LakeView = LakeView::new(&mut bind);
    let _ = view.alloc_fixed::<4>().unwrap(); // offset = 4
    view.mark(); // push 4
    let _ = view.alloc_fixed::<6>().unwrap(); // offset = 10
    view.move_mark(); // mark should now be 10
    let _ = view.alloc_fixed::<2>().unwrap(); // offset = 12
    view.reset_to_mark(); // back to 10
    assert_eq!(view.used(), 10);
}

#[test]
fn test_lake_view_split_subview() {
    let mut bind: [u8; 32] = [0u8; 32];
    let mut view: LakeView = LakeView::new(&mut bind);
    let _ = view.alloc_fixed::<8>().unwrap(); // offset = 8
    let sub: LakeView = view.split(16).expect("split");
    assert_eq!(sub.capacity(), 16);
    assert_eq!(view.used(), 24);
}

#[test]
fn test_lake_view_process_success() {
    let mut bind: [u8; 64] = [0u8; 64];
    let mut view: LakeView = LakeView::new(&mut bind);
    let result: Result<DropletDyn, LakeError> = view.process(|remaining| vec![42u8; remaining.min(8)]);
    assert!(result.is_ok());
    let droplet: DropletDyn = result.unwrap();
    let slice: &[u8] = droplet.d_as_slice(&view);
    assert_eq!(slice, &[42u8; 8]);
    assert_eq!(view.used(), 8);
}

#[test]
fn test_lake_view_process_overflow() {
    let mut bind: [u8; 16] = [0u8; 16];
    let mut view: LakeView = LakeView::new(&mut bind);
    let result: Result<DropletDyn, LakeError> = view.process(|_| vec![1u8; 32]); // too much
    assert!(matches!(result, Err(LakeError::Overflow)));
}

#[derive(Debug, PartialEq, Copy, Clone)]
struct Foo {
    a: u32,
    b: u32,
}

fn foo_of(fields: Vec<u32>) -> Foo {
    Foo { a: fields[0], b: fields[1] }
}

#[test]
fn test_lake_view_alloc_struct() {
    let mut bind: [u8; 64] = [0u8; 64];
    let mut view: LakeView = LakeView::new(&mut bind);
    let mut foo: DropletDyn = view.alloc_struct::<Foo>();
    foo.d_write(&mut view, &123u32.to_le_bytes());
    foo.d_write(&mut view, &456u32.to_le_bytes());
    let foo: Foo = foo.deserialize_slice::<u32, _>(&view).map(foo_of).unwrap();
    assert_eq!(foo.a, 123);
    assert_eq!(foo.b, 456);
}

#[test]
fn test_lake_view_alloc_slice() {
    let mut bind: [u8; 64] = [0u8; 64];
    let mut view: LakeView = LakeView::new(&mut bind);
    let slice: DropletDyn = view.alloc_slice::<u16>(4);
    slice.d_as_mut_slice(&mut view).copy_from_slice(
        &[1u16, 2, 3, 4].iter().flat_map(|v| v.to_le_bytes()).collect::<Vec<u8>>(),
    );
    assert_eq!(slice.deserialize_slice::<u16, _>(&view).unwrap(), &[1, 2, 3, 4]);
}

#[test]
fn view_writes_land_in_the_borrowed_buffer() {
    let mut bind: [u8; 8] = [0u8; 8];
    {
        let mut view = LakeView::new(&mut bind);
        let _ = view.alloc_fixed::<2>().unwrap();
        let droplet = view.process(|_| vec![7, 7]).unwrap();
        assert_eq!(droplet.d_as_slice(&view), &[7, 7]);
    }
    assert_eq!(bind, [0, 0, 7, 7, 0, 0, 0, 0]);
}

#[test]
fn view_reset_invalidates_its_droplets_only() {
    let mut lake = Lake::<64>::new();
    let parent_droplet = lake.alloc_fixed::<8>().unwrap();
    {
        let mut view = lake.split(16).unwrap();
        let child = view.alloc_fixed::<4>().unwrap();
        assert!(child.is_valid(&view));
        view.reset();
        assert!(!child.is_valid(&view));
    }
    assert!(parent_droplet.is_valid(&lake));
    assert_eq!(lake.used(), 24);
}

#[test]
fn view_split_overflow_is_none() {
    let mut bind = [0u8; 8];
    let mut view = LakeView::new(&mut bind);
    assert!(view.split(9).is_none());
    assert_eq!(view.used(), 0);
}
