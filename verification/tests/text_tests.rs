use item_labels::text::{
    decimal_string, image_name, location_line, name_line, quantity_line, spec_line,
    truncate_chars, GlyphRun,
};

#[test]
fn long_name_renders_twenty_advance_steps() {
    let name = truncate_chars("ABCDEFGHIJKLMNOPQRSTUVWXYZ", 20);
    assert_eq!(name, "ABCDEFGHIJKLMNOPQRST");
    let measured: Vec<Option<u32>> = vec![Some(640); 20];
    let run = GlyphRun::layout_run(&name, &measured, 896);
    assert_eq!(run.len(), 20);
    assert_eq!(run.steps.len(), 20);
}

#[test]
fn truncation_counts_characters_not_bytes() {
    assert_eq!(truncate_chars("物料名称很长很长", 3), "物料名");
    assert_eq!(truncate_chars("短", 3), "短");
    assert_eq!(truncate_chars("", 3), "");
    assert_eq!(truncate_chars("abc", 0), "");
    assert_eq!(truncate_chars("abc", 3), "abc");
}

#[test]
fn decimal_text_of_integers() {
    assert_eq!(decimal_string(0), "0");
    assert_eq!(decimal_string(7), "7");
    assert_eq!(decimal_string(10), "10");
    assert_eq!(decimal_string(1234567890), "1234567890");
    assert_eq!(decimal_string(-5), "-5");
    assert_eq!(decimal_string(i32::MIN), "-2147483648");
}

#[test]
fn document_lines_carry_their_captions() {
    assert_eq!(name_line("螺丝"), "物料名: 螺丝");
    assert_eq!(
        name_line("ABCDEFGHIJKLMNOPQRSTUVWXYZ"),
        "物料名: ABCDEFGHIJKLMNOPQRST"
    );
    assert_eq!(spec_line("M3x10"), "规格: M3x10");
    assert_eq!(
        spec_line("0123456789012345678901234567890123456789"),
        "规格: 012345678901234567890123456789"
    );
    assert_eq!(quantity_line(12, &Some("盒".to_string())), "数量: 12 盒");
    assert_eq!(quantity_line(3, &None), "数量: 3 个");
    assert_eq!(location_line("A-01"), "位置: A-01");
    assert_eq!(
        location_line("0123456789012345678901234567890"),
        "位置: 0123456789012345678901234"
    );
}

#[test]
fn image_name_is_cut_with_an_ellipsis() {
    assert_eq!(image_name("short"), "short");
    assert_eq!(image_name("123456789012345"), "123456789012345");
    assert_eq!(image_name("1234567890123456"), "123456789012345...");
    assert_eq!(image_name("一二三四五六七八九十一二三四五六"), "一二三四五六七八九十一二三四五...");
}

#[test]
fn missing_glyph_advances_by_half_the_size() {
    let measured = vec![Some(10), None, Some(30)];
    let run = GlyphRun::layout_run("a中bz", &measured, 24);
    assert_eq!(run.len(), 4);
    assert_eq!(run.steps[0].ch, 'a');
    assert_eq!(run.steps[0].advance, 10);
    assert_eq!(run.steps[1].ch, '中');
    assert_eq!(run.steps[1].advance, 12);
    assert_eq!(run.steps[2].advance, 30);
    assert_eq!(run.steps[3].ch, 'z');
    assert_eq!(run.steps[3].advance, 12);
}

#[test]
fn pen_moves_left_to_right_by_the_advances() {
    let measured = vec![Some(10), None, Some(30)];
    let run = GlyphRun::layout_run("abc", &measured, 24);
    assert_eq!(run.pen_positions(100), vec![100, 110, 122, 152]);
    let empty = GlyphRun::layout_run("", &measured, 24);
    assert_eq!(empty.pen_positions(5), vec![5]);
}
