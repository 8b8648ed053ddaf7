use item_labels::canvas::InkSpot;
use item_labels::error::LabelError;
use item_labels::inventory::{apply_quantity_change, normalize_parent_id, QuantityError};
use item_labels::models::Item;
use item_labels::qr::QrMatrix;
use item_labels::raster::{
    compose_image_page, generate_batch_qr, generate_image_labels, generate_location_qr,
    name_origin, qr_image, LocationCode,
};
use item_labels::record::LabelRecord;
use item_labels::sync::{
    configure_s3, configure_webdav, sync_download, sync_report, sync_upload, SyncDirection,
    SyncError,
};
use item_labels::vector::{compose_document, paper_size, DrawOp, GridSpec, LineKind};

fn record(id: i32, qr: Option<&str>) -> LabelRecord {
    LabelRecord {
        id,
        name: format!("item {}", id),
        specifications: if id % 2 == 0 { Some("M3".to_string()) } else { None },
        quantity: 5,
        unit: None,
        location: if id % 3 == 0 { Some("A-01".to_string()) } else { None },
        qr_id: qr.map(|s| s.to_string()),
    }
}

#[test]
fn image_page_has_borders_ink_and_symbol() {
    let records = vec![record(42, None)];
    let ink = vec![vec![InkSpot { x: 200, y: 200, coverage: 255 }]];
    let canvas = compose_image_page(&records, 2, 1, &ink).unwrap();
    assert_eq!(canvas.width(), 3200);
    assert_eq!(canvas.height(), 1200);
    // borders of both cells, the empty one too
    assert_eq!(canvas.shade_at(0, 0), Some(0));
    assert_eq!(canvas.shade_at(2, 600), Some(0));
    assert_eq!(canvas.shade_at(3, 600), Some(255));
    assert_eq!(canvas.shade_at(1600, 600), Some(0));
    assert_eq!(canvas.shade_at(2400, 1), Some(0));
    assert_eq!(canvas.shade_at(2400, 600), Some(255));
    // ink
    assert_eq!(canvas.shade_at(200, 200), Some(0));
    assert_eq!(canvas.shade_at(201, 200), Some(255));
    // symbol at (1600 - 720 - 80, (1200 - 720) / 2), 34 pixels a module
    let m = QrMatrix::encode("42").unwrap();
    for (mx, my) in [(0u32, 0u32), (1, 1), (3, 3), (7, 0), (20, 20), (10, 12)] {
        let expected = if m.is_dark(mx as usize, my as usize) { 0 } else { 255 };
        assert_eq!(canvas.shade_at(800 + mx * 34 + 5, 240 + my * 34 + 5), Some(expected));
    }
    assert_eq!(canvas.shade_at(799, 300), Some(255));
    assert_eq!(canvas.shade_at(800 + 21 * 34, 300), Some(255));
}

#[test]
fn image_page_refuses_bad_input() {
    let none: Vec<LabelRecord> = vec![];
    let ink: Vec<Vec<InkSpot>> = vec![];
    assert_eq!(compose_image_page(&none, 1, 1, &ink).err(), Some(LabelError::EmptyBatch));
    let one = vec![record(1, None)];
    assert_eq!(compose_image_page(&one, 0, 1, &ink).err(), Some(LabelError::InvalidGrid));
    assert_eq!(compose_image_page(&one, 1, 11, &ink).err(), Some(LabelError::InvalidGrid));
    let long = "x".repeat(8000);
    let bad = vec![record(1, Some(&long))];
    assert_eq!(compose_image_page(&bad, 1, 1, &ink).err(), Some(LabelError::QrEncoding));
}

#[test]
fn image_labels_come_as_a_png_data_uri() {
    let records = vec![record(7, Some("LOC-7"))];
    let uri = generate_image_labels(&records, 1, 1, &vec![]).unwrap();
    assert!(uri.starts_with("data:image/png;base64,iVBORw0KGgo"));
}

#[test]
fn name_starts_inside_the_padding() {
    assert_eq!(name_origin(0, 0), (80, 160));
    assert_eq!(name_origin(2, 1), (1680, 2560));
}

#[test]
fn location_symbol_is_one_pixel_per_module() {
    let m = QrMatrix::encode("LOC-1a2b3c4d").unwrap();
    let c = qr_image(&m);
    assert_eq!(c.width() as usize, m.side());
    assert_eq!(c.height() as usize, m.side());
    for y in 0..m.side() {
        for x in 0..m.side() {
            let expected = if m.is_dark(x, y) { 0 } else { 255 };
            assert_eq!(c.shade_at(x as u32, y as u32), Some(expected));
        }
    }
    let uri = generate_location_qr("LOC-1a2b3c4d").unwrap();
    assert!(uri.starts_with("data:image/png;base64,iVBORw0KGgo"));
    let long = "x".repeat(8000);
    assert_eq!(generate_location_qr(&long).err(), Some(LabelError::QrEncoding));
}

#[test]
fn batch_of_location_symbols_keeps_order_and_fails_fast() {
    let locations = vec![
        LocationCode { id: 1, name: "shelf".to_string(), qr_code_id: "LOC-a".to_string() },
        LocationCode { id: 2, name: "bin".to_string(), qr_code_id: "LOC-b".to_string() },
    ];
    let results = generate_batch_qr(&locations).unwrap();
    assert_eq!(results.len(), 2);
    assert_eq!(results[0].id, 1);
    assert_eq!(results[0].name, "shelf");
    assert_eq!(results[0].qr_data, generate_location_qr("LOC-a").unwrap());
    assert_eq!(results[1].id, 2);
    assert_eq!(results[1].qr_data, generate_location_qr("LOC-b").unwrap());
    assert_ne!(results[0].qr_data, results[1].qr_data);
    let bad = vec![LocationCode { id: 3, name: "x".to_string(), qr_code_id: "x".repeat(8000) }];
    assert_eq!(generate_batch_qr(&bad).err(), Some(LabelError::QrEncoding));
    assert_eq!(generate_batch_qr(&vec![]).unwrap().len(), 0);
}

#[test]
fn named_paper_sizes() {
    assert_eq!(paper_size("A4"), (2100, 2970));
    assert_eq!(paper_size("Letter"), (2159, 2794));
    assert_eq!(paper_size("A5"), (1480, 2100));
    assert_eq!(paper_size("B5"), (2100, 2970));
    assert_eq!(paper_size(""), (2100, 2970));
}

#[test]
fn grid_spec_refuses_bad_pages_and_grids() {
    assert_eq!(GridSpec::new(2100, 2970, 0, 1), Err(LabelError::InvalidGrid));
    assert_eq!(GridSpec::new(2100, 2970, 1, 11), Err(LabelError::InvalidGrid));
    assert_eq!(GridSpec::new(0, 2970, 1, 1), Err(LabelError::InvalidGrid));
    assert_eq!(GridSpec::new(2100, 0, 1, 1), Err(LabelError::InvalidGrid));
    let g = GridSpec::new(2100, 2970, 3, 3).unwrap();
    assert_eq!(g.scale(), 90);
}

#[test]
fn document_pages_hold_borders_lines_and_symbols() {
    let records: Vec<LabelRecord> = (1..=13).map(|i| record(i, None)).collect();
    let doc = compose_document(&records, "A4", 3, 3).unwrap();
    assert_eq!(doc.layout.total_pages, 2);
    assert_eq!(doc.pages.len(), 2);
    assert_eq!(doc.grid, GridSpec { page_width: 2100, page_height: 2970, columns: 3, rows: 3 });
    let first = &doc.pages[0];
    assert_eq!(first.symbols.len(), 9);
    assert_eq!(doc.pages[1].symbols.len(), 4);
    // 90 units a millimetre: a cell is 70 mm by 99 mm
    assert_eq!(
        first.ops[0],
        DrawOp::Border { x: 0, y: 2 * 8910, width: 6300, height: 8910, thickness: 27 }
    );
    assert_eq!(
        first.ops[4],
        DrawOp::Border { x: 6300, y: 8910, width: 6300, height: 8910, thickness: 27 }
    );
    assert_eq!(
        first.ops[8],
        DrawOp::Border { x: 12600, y: 0, width: 6300, height: 8910, thickness: 27 }
    );
    // record 1 (index 0): no specification, no location
    assert_eq!(
        first.ops[9],
        DrawOp::Text {
            record: 0,
            line: LineKind::Name,
            size_pt: 14,
            bold: true,
            x: 450,
            y: 3 * 8910 - 450,
        }
    );
    assert_eq!(
        first.ops[10],
        DrawOp::Text {
            record: 0,
            line: LineKind::Quantity,
            size_pt: 11,
            bold: true,
            x: 450,
            y: 3 * 8910 - 450 - 540,
        }
    );
    assert_eq!(
        first.ops[11],
        DrawOp::Symbol { record: 0, x: 6300 - (8910 - 900) - 450, y: 2 * 8910 + 450, size: 8010 }
    );
    // record 2 (index 1): with a specification
    assert_eq!(
        first.ops[13],
        DrawOp::Text {
            record: 1,
            line: LineKind::Specification,
            size_pt: 10,
            bold: false,
            x: 6300 + 450,
            y: 3 * 8910 - 450 - 540,
        }
    );
    assert_eq!(
        first.ops[14],
        DrawOp::Text {
            record: 1,
            line: LineKind::Quantity,
            size_pt: 11,
            bold: true,
            x: 6300 + 450,
            y: 3 * 8910 - 450 - 540 - 450,
        }
    );
    // second page starts with its nine borders, then record 10 (index 9)
    let second = &doc.pages[1];
    assert_eq!(
        second.ops[9],
        DrawOp::Text {
            record: 9,
            line: LineKind::Name,
            size_pt: 14,
            bold: true,
            x: 450,
            y: 3 * 8910 - 450,
        }
    );
    let m = QrMatrix::encode("10").unwrap();
    assert_eq!(second.symbols[0].extent, 189);
    assert_eq!(second.symbols[0].pixels, m.render(200).pixels);
}

#[test]
fn document_refuses_bad_input() {
    let none: Vec<LabelRecord> = vec![];
    assert_eq!(compose_document(&none, "A4", 2, 2).err(), Some(LabelError::EmptyBatch));
    let one = vec![record(1, None)];
    assert_eq!(compose_document(&one, "A4", 0, 2).err(), Some(LabelError::InvalidGrid));
    let long = "x".repeat(8000);
    let bad = vec![record(1, None), record(2, Some(&long))];
    assert_eq!(compose_document(&bad, "A4", 1, 1).err(), Some(LabelError::QrEncoding));
}

#[test]
fn stored_parent_zero_means_no_parent() {
    assert_eq!(normalize_parent_id(Some(0)), None);
    assert_eq!(normalize_parent_id(Some(4)), Some(4));
    assert_eq!(normalize_parent_id(Some(-1)), Some(-1));
    assert_eq!(normalize_parent_id(None), None);
}

#[test]
fn quantity_never_drops_below_zero() {
    assert_eq!(apply_quantity_change(5, -5), Ok(0));
    assert_eq!(apply_quantity_change(5, 3), Ok(8));
    assert_eq!(apply_quantity_change(5, -6), Err(QuantityError::Insufficient));
    assert_eq!(apply_quantity_change(i32::MAX, 1), Err(QuantityError::OutOfRange));
}

#[test]
fn item_becomes_a_label_record() {
    let item = Item {
        id: 9,
        name: "螺丝".to_string(),
        category: None,
        specifications: Some("M3".to_string()),
        quantity: 4,
        unit: Some("盒".to_string()),
        location_id: Some(2),
        min_quantity: None,
        notes: None,
        image_path: None,
        created_at: String::new(),
        updated_at: String::new(),
    };
    let r = item.label_record(Some("A-01".to_string()), None);
    assert_eq!(r.id, 9);
    assert_eq!(r.name, "螺丝");
    assert_eq!(r.specifications.as_deref(), Some("M3"));
    assert_eq!(r.quantity, 4);
    assert_eq!(r.unit.as_deref(), Some("盒"));
    assert_eq!(r.location.as_deref(), Some("A-01"));
    assert_eq!(r.qr_id, None);
}

#[test]
fn sync_targets_need_their_fields() {
    assert_eq!(configure_webdav("https://x", "u", "p", ""), Ok(()));
    assert_eq!(configure_webdav("", "u", "p", "/"), Err(SyncError::MissingField));
    assert_eq!(configure_webdav("https://x", "", "p", "/"), Err(SyncError::MissingField));
    assert_eq!(configure_webdav("https://x", "u", "", "/"), Err(SyncError::MissingField));
    assert_eq!(configure_s3("b", "r", "a", "s", &None), Ok(()));
    assert_eq!(configure_s3("b", "r", "a", "", &None), Err(SyncError::MissingField));
    assert_eq!(configure_s3("", "r", "a", "s", &None), Err(SyncError::MissingField));
    assert_eq!(SyncError::MissingField.webdav_message(), "All fields are required");
    assert_eq!(SyncError::MissingField.s3_message(), "All required fields must be filled");
}

#[test]
fn sync_reports_name_the_channel() {
    let r = sync_report(SyncDirection::Upload, "webdav", "2024-01-01T00:00:00+00:00".to_string());
    assert!(r.success);
    assert_eq!(r.message, "Upload sync via webdav completed");
    assert_eq!(r.timestamp, "2024-01-01T00:00:00+00:00");
    let up = sync_upload("s3");
    assert_eq!(up.message, "Upload sync via s3 completed");
    assert!(up.timestamp.contains('T'));
    let down = sync_download("s3");
    assert!(down.success);
    assert_eq!(down.message, "Download sync via s3 completed");
}
