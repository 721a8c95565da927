use frame_buffer::scanline::ScanLine;
use frame_buffer::OutOfBounds;
use frame_buffer::TOTAL_WIDTH;

#[test]
fn scanline_new_is_zeroed() {
    let line = ScanLine::new();
    for x in 0..TOTAL_WIDTH {
        assert_eq!(line.get_element(x), 0x00);
    }
}

#[test]
fn scanline_fill_entire_sets_every_cell() {
    let mut line = ScanLine::new();
    line.fill_entire(0xAB);
    for x in 0..TOTAL_WIDTH {
        assert_eq!(line.get_element(x), 0xAB);
    }
    line.fill_entire(0x00);
    for x in 0..TOTAL_WIDTH {
        assert_eq!(line.get_element(x), 0x00);
    }
}

#[test]
fn scanline_set_element_updates_only_target() {
    let mut line = ScanLine::new();
    line.fill_entire(0x05);
    assert_eq!(line.set_element(2, 0x09), Ok(()));
    for x in 0..TOTAL_WIDTH {
        let expected = if x == 2 { 0x09 } else { 0x05 };
        assert_eq!(line.get_element(x), expected);
    }
}

#[test]
fn scanline_set_element_rejects_out_of_range() {
    let mut line = ScanLine::new();
    line.fill_entire(0x05);
    assert_eq!(line.set_element(TOTAL_WIDTH, 0x09), Err(OutOfBounds));
    assert_eq!(line.set_element(100, 0x09), Err(OutOfBounds));
    for x in 0..TOTAL_WIDTH {
        assert_eq!(line.get_element(x), 0x05);
    }
}

#[test]
fn scanline_copy_line_copies_range() {
    let mut src = ScanLine::new();
    for x in 0..TOTAL_WIDTH {
        assert_eq!(src.set_element(x, (x as u8) + 1), Ok(()));
    }
    let mut dst = ScanLine::new();
    dst.fill_entire(0xFF);
    // Copy src cells 1..4 into dst cells 2..5.
    assert_eq!(dst.copy_line(&src, 1, 2, 3), Ok(()));
    assert_eq!(dst.get_element(0), 0xFF);
    assert_eq!(dst.get_element(1), 0xFF);
    assert_eq!(dst.get_element(2), 2);
    assert_eq!(dst.get_element(3), 3);
    assert_eq!(dst.get_element(4), 4);
    assert_eq!(dst.get_element(5), 0xFF);
}

#[test]
fn scanline_copy_line_zero_width_changes_nothing() {
    let src = ScanLine::new();
    let mut dst = ScanLine::new();
    dst.fill_entire(0x33);
    assert_eq!(dst.copy_line(&src, 0, 0, 0), Ok(()));
    for x in 0..TOTAL_WIDTH {
        assert_eq!(dst.get_element(x), 0x33);
    }
}

#[test]
fn scanline_copy_line_rejects_out_of_range() {
    let src = ScanLine::new();
    let mut dst = ScanLine::new();
    dst.fill_entire(0x33);
    // Source end offset past the row.
    assert_eq!(dst.copy_line(&src, 4, 0, 3), Err(OutOfBounds));
    // Destination end offset past the row.
    assert_eq!(dst.copy_line(&src, 0, 4, 3), Err(OutOfBounds));
    // Start columns out of range, even with zero width.
    assert_eq!(dst.copy_line(&src, TOTAL_WIDTH, 0, 0), Err(OutOfBounds));
    assert_eq!(dst.copy_line(&src, 0, TOTAL_WIDTH, 0), Err(OutOfBounds));
    for x in 0..TOTAL_WIDTH {
        assert_eq!(dst.get_element(x), 0x33);
    }
}

#[test]
fn scanline_copy_line_within_self_identity() {
    let mut line = ScanLine::new();
    for x in 0..TOTAL_WIDTH {
        assert_eq!(line.set_element(x, (x as u8) + 1), Ok(()));
    }
    assert_eq!(line.copy_line_within(2, 2, 3), Ok(()));
    for x in 0..TOTAL_WIDTH {
        assert_eq!(line.get_element(x), (x as u8) + 1);
    }
}

#[test]
fn scanline_copy_line_within_overlap_reads_before_writing() {
    let mut line = ScanLine::new();
    for x in 0..TOTAL_WIDTH {
        assert_eq!(line.set_element(x, (x as u8) + 1), Ok(()));
    }
    // Cells are [1, 2, 3, 4, 5, 6]; copy cells 0..4 onto 1..5. A forward
    // cell-by-cell copy would smear cell 0; snapshot semantics gives
    // [1, 1, 2, 3, 4, 6].
    assert_eq!(line.copy_line_within(0, 1, 4), Ok(()));
    let expected = [1, 1, 2, 3, 4, 6];
    for x in 0..TOTAL_WIDTH {
        assert_eq!(line.get_element(x), expected[x]);
    }
}

#[test]
fn scanline_copy_line_within_rejects_out_of_range() {
    let mut line = ScanLine::new();
    line.fill_entire(0x44);
    assert_eq!(line.copy_line_within(3, 0, 4), Err(OutOfBounds));
    assert_eq!(line.copy_line_within(0, 3, 4), Err(OutOfBounds));
    for x in 0..TOTAL_WIDTH {
        assert_eq!(line.get_element(x), 0x44);
    }
}

#[test]
fn scanline_duplicate_is_equal_and_independent() {
    let mut line = ScanLine::new();
    line.fill_entire(0x21);
    let mut copy = line.duplicate();
    for x in 0..TOTAL_WIDTH {
        assert_eq!(copy.get_element(x), 0x21);
    }
    assert_eq!(copy.set_element(0, 0x99), Ok(()));
    assert_eq!(copy.get_element(0), 0x99);
    assert_eq!(line.get_element(0), 0x21);
}
