use item_labels::error::LabelError;
use item_labels::layout::{check_grid, plan, MAX_GRID_DIM};

#[test]
fn five_records_on_two_by_three_fill_one_page() {
    let p = plan(5, 2, 3).unwrap();
    assert_eq!(p.cells_per_page, 6);
    assert_eq!(p.total_pages, 1);
    let cell = p.assignment(4);
    assert_eq!((cell.page, cell.row, cell.col), (0, 2, 0));
}

#[test]
fn thirteen_records_on_three_by_three_need_two_pages() {
    let p = plan(13, 3, 3).unwrap();
    assert_eq!(p.cells_per_page, 9);
    assert_eq!(p.total_pages, 2);
    let cell = p.assignment(9);
    assert_eq!((cell.page, cell.row, cell.col), (1, 0, 0));
}

#[test]
fn empty_batch_is_refused() {
    assert_eq!(plan(0, 2, 3), Err(LabelError::EmptyBatch));
    assert_eq!(plan(0, 1, 1), Err(LabelError::EmptyBatch));
    assert_eq!(plan(0, 10, 10), Err(LabelError::EmptyBatch));
}

#[test]
fn zero_or_negative_grid_is_refused() {
    assert_eq!(plan(5, 0, 3), Err(LabelError::InvalidGrid));
    assert_eq!(plan(5, 3, 0), Err(LabelError::InvalidGrid));
    assert_eq!(plan(5, -1, 3), Err(LabelError::InvalidGrid));
    assert_eq!(plan(5, 3, -7), Err(LabelError::InvalidGrid));
}

#[test]
fn oversized_grid_is_refused() {
    assert_eq!(MAX_GRID_DIM, 10);
    assert_eq!(plan(5, 11, 3), Err(LabelError::InvalidGrid));
    assert_eq!(plan(5, 3, 11), Err(LabelError::InvalidGrid));
    assert!(plan(5, 10, 10).is_ok());
}

#[test]
fn grid_check_accepts_one_to_ten() {
    assert_eq!(check_grid(1, 1), Ok(()));
    assert_eq!(check_grid(10, 10), Ok(()));
    assert_eq!(check_grid(0, 1), Err(LabelError::InvalidGrid));
    assert_eq!(check_grid(1, 0), Err(LabelError::InvalidGrid));
    assert_eq!(check_grid(11, 1), Err(LabelError::InvalidGrid));
    assert_eq!(check_grid(1, 11), Err(LabelError::InvalidGrid));
    assert_eq!(check_grid(-3, 4), Err(LabelError::InvalidGrid));
}

#[test]
fn bad_grid_wins_over_empty_batch() {
    assert_eq!(plan(0, 0, 3), Err(LabelError::InvalidGrid));
}

#[test]
fn page_count_is_the_rounded_up_quotient() {
    for (n, c, r, pages) in [
        (1usize, 1, 1, 1usize),
        (6, 2, 3, 1),
        (7, 2, 3, 2),
        (12, 2, 3, 2),
        (100, 10, 10, 1),
        (101, 10, 10, 2),
        (9, 1, 1, 9),
    ] {
        let p = plan(n, c, r).unwrap();
        assert_eq!(p.total_pages, pages);
        assert_eq!(p.record_count, n);
    }
}

#[test]
fn every_record_lands_in_its_own_cell_of_the_grid() {
    let p = plan(23, 3, 4).unwrap();
    let mut seen = Vec::new();
    for idx in 0..23 {
        let cell = p.assignment(idx);
        assert!(cell.page < p.total_pages);
        assert!(cell.row < p.rows);
        assert!(cell.col < p.columns);
        assert_eq!(cell.page * p.cells_per_page + cell.row * p.columns + cell.col, idx);
        assert!(!seen.contains(&(cell.page, cell.row, cell.col)));
        seen.push((cell.page, cell.row, cell.col));
    }
}

#[test]
fn page_ranges_cover_the_batch_in_order() {
    let p = plan(13, 3, 3).unwrap();
    assert_eq!(p.page_range(0), (0, 9));
    assert_eq!(p.page_range(1), (9, 13));
    let q = plan(18, 3, 3).unwrap();
    assert_eq!(q.page_range(1), (9, 18));
}

#[test]
fn error_messages_are_one_line_each() {
    assert_eq!(
        LabelError::InvalidGrid.message(),
        "Invalid grid size. Columns and rows must be between 1 and 10"
    );
    assert_eq!(LabelError::EmptyBatch.message(), "No items found");
    assert_eq!(LabelError::QrEncoding.message(), "QR code generation failed");
    assert_eq!(LabelError::FontUnavailable.message(), "No Chinese font found in system fonts");
    assert_eq!(LabelError::Encoding.message(), "Label encoding failed");
}
