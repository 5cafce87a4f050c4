use text_brush::Atlas;

#[test]
fn new_atlas_is_zeroed_and_clean() {
    let mut a = Atlas::new(4, 3);
    assert_eq!(a.dimensions(), (4, 3));
    assert_eq!(a.pixel_data().len(), 12);
    assert!(a.pixel_data().iter().all(|&b| b == 0));
    assert!(!a.read_and_clear_dirty());
}

#[test]
fn write_block_places_bytes_row_by_row() {
    let mut a = Atlas::new(4, 3);
    let data = vec![1u8, 2, 3, 4];
    a.write_block(1, 1, 2, 2, &data);
    // Row-major with stride 4: rows 1 and 2, columns 1 and 2.
    let expect = vec![
        0u8, 0, 0, 0,
        0, 1, 2, 0,
        0, 3, 4, 0,
    ];
    assert_eq!(a.pixel_data().as_slice(), expect.as_slice());
}

#[test]
fn write_block_leaves_other_texels_alone() {
    let mut a = Atlas::new(4, 4);
    a.write_block(0, 0, 4, 4, &vec![9u8; 16]);
    a.write_block(2, 2, 2, 2, &vec![5u8; 4]);
    let p = a.pixel_data();
    for row in 0..4usize {
        for col in 0..4usize {
            let want = if row >= 2 && col >= 2 { 5 } else { 9 };
            assert_eq!(p[row * 4 + col], want);
        }
    }
}

#[test]
fn try_write_block_rejects_out_of_bounds() {
    let mut a = Atlas::new(4, 4);
    // Sticks out on the right.
    assert!(!a.try_write_block(3, 0, 2, 1, &vec![7u8, 7]));
    // Sticks out at the bottom.
    assert!(!a.try_write_block(0, 3, 1, 2, &vec![7u8, 7]));
    // Wrong payload size.
    assert!(!a.try_write_block(0, 0, 2, 2, &vec![7u8; 3]));
    assert!(a.pixel_data().iter().all(|&b| b == 0));
    assert!(!a.read_and_clear_dirty());
    // The same block inside the atlas is applied.
    assert!(a.try_write_block(2, 3, 2, 1, &vec![7u8, 7]));
    assert_eq!(a.pixel_data()[4 * 3 + 2], 7);
    assert!(a.read_and_clear_dirty());
}

#[test]
fn resize_discards_contents_and_marks_dirty() {
    let mut a = Atlas::new(2, 2);
    a.write_block(0, 0, 2, 2, &vec![8u8; 4]);
    a.resize(5, 2);
    assert_eq!(a.dimensions(), (5, 2));
    assert_eq!(a.pixel_data().len(), 10);
    assert!(a.pixel_data().iter().all(|&b| b == 0));
    assert!(a.read_and_clear_dirty());
}

#[test]
fn dirty_reads_true_exactly_once_per_batch() {
    let mut a = Atlas::new(2, 2);
    assert!(!a.read_and_clear_dirty());
    a.write_block(0, 0, 1, 1, &vec![1u8]);
    a.write_block(1, 1, 1, 1, &vec![2u8]);
    assert!(a.read_and_clear_dirty());
    assert!(!a.read_and_clear_dirty());
    a.resize(3, 3);
    assert!(a.read_and_clear_dirty());
    assert!(!a.read_and_clear_dirty());
}
