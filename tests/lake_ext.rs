use lake::droplet::DropletDyn;
use lake::{DropletBase, DropletDeserializeExt, DropletMeta, Lake, LakeAllocatorExt};

#[derive(Debug, PartialEq, Copy, Clone)]
struct Foo {
    x: u32,
    y: u32,
}

fn foo_of(fields: Vec<u32>) -> Foo {
    Foo { x: fields[0], y: fields[1] }
}

#[test]
fn test_alloc_struct() {
    let mut lake: Lake<128> = Lake::<128>::new();
    let mut foo: DropletDyn = lake.alloc_struct::<Foo>();
    foo.d_write(&mut lake, &42u32.to_le_bytes());
    foo.d_write(&mut lake, &99u32.to_le_bytes());
    let foo: Foo = foo.deserialize_slice::<u32, _>(&lake).map(foo_of).unwrap();

    assert_eq!(foo.x, 42);
    assert_eq!(foo.y, 99);
}

#[test]
fn test_alloc_slice() {
    let mut lake: Lake<128> = Lake::<128>::new();
    let slice: DropletDyn = lake.alloc_slice::<u64>(3);
    slice.d_as_mut_slice(&mut lake).copy_from_slice(
        &[1u64, 2, 3].iter().flat_map(|v| v.to_le_bytes()).collect::<Vec<u8>>(),
    );
    assert_eq!(slice.deserialize_slice::<u64, _>(&lake).unwrap(), &[1, 2, 3]);
}

#[test]
fn alloc_struct_aligns_the_offset() {
    let mut lake: Lake<64> = Lake::<64>::new();
    let _ = lake.alloc_fixed::<3>().unwrap();
    let handle = lake.alloc_struct::<u32>();
    assert_eq!(handle.d_start(), 4);
    assert_eq!(handle.d_len(), 4);
    assert_eq!(lake.used(), 8);
    let many = lake.alloc_slice::<u64>(2);
    assert_eq!(many.d_start(), 8);
    assert_eq!(lake.used(), 24);
}
