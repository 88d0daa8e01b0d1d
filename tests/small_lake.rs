use lake::small_lake::SmallLake;

#[test]
fn small_lake_starts_empty() {
    let lake = SmallLake::<8>::build();
    assert_eq!(lake.len(), 0);
    assert_eq!(lake.as_slice(), &[] as &[u8]);
}

#[test]
fn small_lake_write_appends() {
    let mut lake = SmallLake::<8>::build();
    lake.write(b"abc");
    lake.write(b"de");
    assert_eq!(lake.len(), 5);
    assert_eq!(lake.as_slice(), b"abcde");
}

#[test]
fn small_lake_write_wraps_to_start() {
    let mut lake = SmallLake::<8>::build();
    lake.write(b"abcdef");
    lake.write(b"xyz");
    assert_eq!(lake.len(), 3);
    assert_eq!(lake.as_slice(), b"xyz");
}

#[test]
fn small_lake_write_byte_wraps_at_end() {
    let mut lake = SmallLake::<2>::build();
    lake.write_byte(b'a');
    assert_eq!(lake.len(), 1);
    lake.write_byte(b'b');
    assert_eq!(lake.len(), 0);
    lake.write_byte(b'c');
    assert_eq!(lake.as_slice(), b"c");
}

#[test]
fn small_lake_numbers() {
    let mut lake = SmallLake::<16>::build();
    lake.write_num_str(1234);
    lake.write_byte(b'-');
    lake.write_num_str_fixed(42, 4);
    assert_eq!(lake.as_slice(), b"1234-0042");
    lake.reset_pos();
    assert_eq!(lake.len(), 0);
    lake.write_num_str(0);
    assert_eq!(lake.as_slice(), b"0");
}

#[test]
fn small_lake_freeze_ref_sees_same_state() {
    let mut lake = SmallLake::<4>::build();
    lake.write(b"ab");
    let frozen = lake.freeze_ref();
    assert_eq!(frozen.len(), 2);
}
