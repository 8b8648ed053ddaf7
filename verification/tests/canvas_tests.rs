use item_labels::canvas::{Canvas, InkSpot};
use item_labels::encode::{data_uri, MediaType};
use item_labels::qr::QrMatrix;

#[test]
fn new_canvas_is_white() {
    let c = Canvas::white(4, 3);
    assert_eq!(c.width(), 4);
    assert_eq!(c.height(), 3);
    for y in 0..3 {
        for x in 0..4 {
            assert_eq!(c.shade_at(x, y), Some(255));
        }
    }
    assert_eq!(c.shade_at(4, 0), None);
    assert_eq!(c.shade_at(0, 3), None);
}

#[test]
fn set_changes_one_pixel() {
    let mut c = Canvas::white(3, 3);
    c.set(1, 2, 7);
    for y in 0..3 {
        for x in 0..3 {
            assert_eq!(c.shade_at(x, y), Some(if (x, y) == (1, 2) { 7 } else { 255 }));
        }
    }
}

#[test]
fn fill_rect_is_clipped_at_the_frame() {
    let mut c = Canvas::white(5, 4);
    c.fill_rect(3, 2, 10, 10, 0);
    for y in 0..4 {
        for x in 0..5 {
            let inside = x >= 3 && y >= 2;
            assert_eq!(c.shade_at(x, y), Some(if inside { 0 } else { 255 }));
        }
    }
    c.fill_rect(9, 9, 2, 2, 0);
    assert_eq!(c.shade_at(4, 1), Some(255));
}

#[test]
fn draw_rect_outlines_without_filling() {
    let mut c = Canvas::white(12, 12);
    c.draw_rect(1, 1, 8, 8, 0, 2);
    // top strip rows 1..3, bottom strip rows 8..=9, columns 1..9
    assert_eq!(c.shade_at(1, 1), Some(0));
    assert_eq!(c.shade_at(8, 2), Some(0));
    assert_eq!(c.shade_at(9, 1), Some(0));
    assert_eq!(c.shade_at(4, 8), Some(0));
    assert_eq!(c.shade_at(4, 9), Some(0));
    assert_eq!(c.shade_at(4, 10), Some(255));
    // left strip columns 1..3, right strip columns 8..=9, rows 1..9
    assert_eq!(c.shade_at(2, 5), Some(0));
    assert_eq!(c.shade_at(8, 5), Some(0));
    assert_eq!(c.shade_at(9, 5), Some(0));
    assert_eq!(c.shade_at(10, 5), Some(255));
    // inside stays white, outside stays white
    assert_eq!(c.shade_at(5, 5), Some(255));
    assert_eq!(c.shade_at(0, 0), Some(255));
    assert_eq!(c.shade_at(9, 9), Some(255));
}

#[test]
fn draw_qr_scales_modules_to_blocks() {
    let m = QrMatrix::from_modules(2, vec![true, false, false, true]).unwrap();
    let mut c = Canvas::white(10, 10);
    c.fill_rect(0, 0, 10, 10, 100);
    c.draw_qr_code(&m, 1, 2, 7);
    for y in 0..10u32 {
        for x in 0..10u32 {
            let expected = if (1..7).contains(&x) && (2..8).contains(&y) {
                let dark = ((x - 1) / 3 == 0) == ((y - 2) / 3 == 0);
                if dark { 0 } else { 255 }
            } else {
                100
            };
            assert_eq!(c.shade_at(x, y), Some(expected));
        }
    }
}

#[test]
fn draw_qr_too_small_leaves_the_canvas_alone() {
    let m = QrMatrix::encode("42").unwrap();
    let mut c = Canvas::white(30, 30);
    c.draw_qr_code(&m, 0, 0, 20);
    for y in 0..30 {
        for x in 0..30 {
            assert_eq!(c.shade_at(x, y), Some(255));
        }
    }
}

#[test]
fn ink_is_black_on_white() {
    let mut c = Canvas::white(4, 4);
    let spots = vec![
        InkSpot { x: 1, y: 1, coverage: 255 },
        InkSpot { x: 2, y: 1, coverage: 55 },
        InkSpot { x: 3, y: 3, coverage: 0 },
        InkSpot { x: -1, y: 2, coverage: 255 },
        InkSpot { x: 2, y: 9, coverage: 255 },
        InkSpot { x: 0, y: 0, coverage: 10 },
        InkSpot { x: 0, y: 0, coverage: 200 },
    ];
    c.paint_ink(&spots);
    assert_eq!(c.shade_at(1, 1), Some(0));
    assert_eq!(c.shade_at(2, 1), Some(200));
    assert_eq!(c.shade_at(3, 3), Some(255));
    assert_eq!(c.shade_at(0, 2), Some(255));
    assert_eq!(c.shade_at(0, 0), Some(55));
}

#[test]
fn png_stream_has_the_png_signature_and_size() {
    let c = Canvas::white(3, 2);
    let bytes = c.png().unwrap();
    assert_eq!(&bytes[..8], &[0x89, b'P', b'N', b'G', 0x0d, 0x0a, 0x1a, 0x0a]);
    // IHDR: width and height, big endian, then 8 bits per channel, RGB.
    assert_eq!(&bytes[16..20], &[0, 0, 0, 3]);
    assert_eq!(&bytes[20..24], &[0, 0, 0, 2]);
    assert_eq!(bytes[24], 8);
    assert_eq!(bytes[25], 2);
}

#[test]
fn data_uri_wraps_base64() {
    let uri = data_uri(MediaType::Png, &b"hello".to_vec()).unwrap();
    assert_eq!(uri, "data:image/png;base64,aGVsbG8=");
    let pdf = data_uri(MediaType::Pdf, &vec![0xff, 0xee, 0xdd]).unwrap();
    assert_eq!(pdf, "data:application/pdf;base64,/+7d");
    let none = data_uri(MediaType::Pdf, &vec![]).unwrap();
    assert_eq!(none, "data:application/pdf;base64,");
}

#[test]
fn border_of_no_thickness_draws_nothing() {
    let mut c = Canvas::white(5, 5);
    c.draw_rect(1, 1, 3, 3, 0, 0);
    for y in 0..5 {
        for x in 0..5 {
            assert_eq!(c.shade_at(x, y), Some(255));
        }
    }
}

#[test]
fn border_thicker_than_the_rectangle_is_cut_at_the_frame() {
    let mut c = Canvas::white(6, 6);
    c.draw_rect(1, 1, 3, 2, 0, 4);
    for y in 0..6i64 {
        for x in 0..6i64 {
            let top = (1..4).contains(&x) && (1..5).contains(&y);
            let bottom = (1..4).contains(&x) && (0..=3).contains(&y);
            let left = (1..5).contains(&x) && (1..3).contains(&y);
            let right = (1..=4).contains(&x) && (1..3).contains(&y);
            let expected = if top || bottom || left || right { 0 } else { 255 };
            assert_eq!(c.shade_at(x as u32, y as u32), Some(expected), "at ({}, {})", x, y);
        }
    }
}

#[test]
fn empty_image_cannot_be_encoded() {
    let c = Canvas::white(0, 0);
    assert_eq!(c.width(), 0);
    assert_eq!(c.png().err(), Some(item_labels::error::LabelError::Encoding));
    let flat = Canvas::white(4, 0);
    assert_eq!(flat.png().err(), Some(item_labels::error::LabelError::Encoding));
}
