use item_labels::error::LabelError;
use item_labels::qr::{qr_payload, QrMatrix};

#[test]
fn record_without_code_encodes_its_identifier() {
    assert_eq!(qr_payload(42, &None), "42");
}

#[test]
fn record_with_code_encodes_the_code() {
    assert_eq!(qr_payload(42, &Some("LOC-1a2b3c4d".to_string())), "LOC-1a2b3c4d");
}

#[test]
fn negative_and_zero_identifiers_are_written_in_decimal() {
    assert_eq!(qr_payload(0, &None), "0");
    assert_eq!(qr_payload(-17, &None), "-17");
    assert_eq!(qr_payload(i32::MAX, &None), "2147483647");
    assert_eq!(qr_payload(i32::MIN, &None), "-2147483648");
}

#[test]
fn short_payload_gives_the_smallest_symbol() {
    let m = QrMatrix::encode("42").unwrap();
    assert_eq!(m.side(), 21);
    assert_eq!(m.modules.len(), 21 * 21);
    // The finder pattern: a dark ring round a light ring round a dark core.
    assert!(m.is_dark(0, 0));
    assert!(m.is_dark(6, 0));
    assert!(m.is_dark(0, 6));
    assert!(!m.is_dark(1, 1));
    assert!(m.is_dark(3, 3));
    assert!(!m.is_dark(7, 0));
}

#[test]
fn modules_are_not_the_payload() {
    let a = QrMatrix::encode("42").unwrap();
    let b = QrMatrix::encode("43").unwrap();
    assert_ne!(a.modules, b.modules);
}

#[test]
fn encoding_twice_gives_the_same_grid() {
    let a = QrMatrix::encode("LOC-1a2b3c4d").unwrap();
    let b = QrMatrix::encode("LOC-1a2b3c4d").unwrap();
    assert_eq!(a.side, b.side);
    assert_eq!(a.modules, b.modules);
    let ra = a.render(200);
    let rb = b.render(200);
    assert_eq!(ra.extent, rb.extent);
    assert_eq!(ra.pixels, rb.pixels);
}

#[test]
fn oversized_payload_is_a_qr_error() {
    let long = "x".repeat(8000);
    assert_eq!(QrMatrix::encode(&long).err(), Some(LabelError::QrEncoding));
}

#[test]
fn from_modules_refuses_bad_shapes() {
    assert_eq!(QrMatrix::from_modules(0, vec![]).err(), Some(LabelError::QrEncoding));
    assert_eq!(QrMatrix::from_modules(2, vec![true; 3]).err(), Some(LabelError::QrEncoding));
    assert_eq!(
        QrMatrix::from_modules(178, vec![true; 178 * 178]).err(),
        Some(LabelError::QrEncoding)
    );
    let m = QrMatrix::from_modules(2, vec![true, false, false, true]).unwrap();
    assert!(m.is_dark(0, 0));
    assert!(!m.is_dark(1, 0));
    assert!(!m.is_dark(0, 1));
    assert!(m.is_dark(1, 1));
}

#[test]
fn block_size_is_the_rounded_down_quotient() {
    let m = QrMatrix::encode("42").unwrap();
    assert_eq!(m.scale_for(200), 9);
    assert_eq!(m.scale_for(720), 34);
    assert_eq!(m.scale_for(21), 1);
    assert_eq!(m.scale_for(20), 0);
    for target in [0usize, 1, 20, 21, 41, 42, 200, 720] {
        let s = m.scale_for(target);
        assert!(s * 21 <= target);
        assert!(target - s * 21 < 21);
    }
}

#[test]
fn rendering_repeats_each_module_over_a_block() {
    let m = QrMatrix::from_modules(2, vec![true, false, false, true]).unwrap();
    let b = m.render(7);
    assert_eq!(b.extent, 6);
    assert_eq!(b.pixels.len(), 36);
    for y in 0..6 {
        for x in 0..6 {
            let dark = (x / 3 == 0) == (y / 3 == 0);
            assert_eq!(b.pixels[y * 6 + x], if dark { 0 } else { 255 });
        }
    }
}

#[test]
fn rendering_into_too_small_a_square_draws_nothing() {
    let m = QrMatrix::encode("42").unwrap();
    let b = m.render(20);
    assert_eq!(b.extent, 0);
    assert!(b.pixels.is_empty());
}

#[test]
fn rendered_extent_never_passes_the_target() {
    let m = QrMatrix::encode("42").unwrap();
    let b = m.render(200);
    assert_eq!(b.extent, 189);
    assert_eq!(b.pixels.len(), 189 * 189);
    assert_eq!(b.pixels[0], 0);
    assert_eq!(b.pixels[9 * 189 + 9], 255);
}
