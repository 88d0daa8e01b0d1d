use lake::utils::align_up;

#[test]
fn test_align_up_already_aligned() {
    assert_eq!(align_up(64, 8), 64);
    assert_eq!(align_up(128, 16), 128);
}

#[test]
fn test_align_up_needs_alignment() {
    assert_eq!(align_up(65, 8), 72);
    assert_eq!(align_up(130, 16), 144);
}

#[test]
fn test_align_up_zero_offset() {
    assert_eq!(align_up(0, 8), 0);
    assert_eq!(align_up(0, 16), 0);
}

#[test]
fn align_up_rounds_to_next_multiple() {
    assert_eq!(align_up(1, 1), 1);
    assert_eq!(align_up(7, 4), 8);
    assert_eq!(align_up(9, 4), 12);
    assert_eq!(align_up(33, 32), 64);
}
