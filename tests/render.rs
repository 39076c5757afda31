use mao::card::{Card, Suit, Value};
use mao::render::{BoxDrawingProfile, RenderError, RenderableCard, TextFrameBuffer};
use mao::style::{Ansi, TextColor, TextStyle};

#[test]
fn blank_buffer() {
    let fb = TextFrameBuffer::with_size(4, 3);
    assert_eq!((fb.width(), fb.height()), (4, 3));
    assert_eq!(fb.char_at(3, 2), ' ');
    assert_eq!(fb.style_at(0, 0), TextStyle::default());
}

#[test]
fn bounds_keep_the_last_column_and_row_free() {
    let fb = TextFrameBuffer::with_size(10, 5);
    assert_eq!(fb.check_bounds(0, 0, 9, 4), Ok(()));
    assert_eq!(
        fb.check_bounds(1, 0, 9, 4),
        Err(RenderError::DrawOutOfBounds((1, 0), (9, 4), (10, 5)))
    );
    assert!(fb.check_bounds(0, 1, 9, 4).is_err());
    assert!(fb.check_bounds(usize::MAX, 0, 1, 1).is_err());
}

#[test]
fn text_is_written_rightwards() {
    let mut fb = TextFrameBuffer::with_size(10, 3);
    assert_eq!(fb.text("Hi!", 2, 1), Ok(()));
    assert_eq!(fb.char_at(1, 1), ' ');
    assert_eq!(fb.char_at(2, 1), 'H');
    assert_eq!(fb.char_at(3, 1), 'i');
    assert_eq!(fb.char_at(4, 1), '!');
    assert_eq!(fb.char_at(5, 1), ' ');
    assert!(fb.text("toolongtext", 0, 0).is_err());
    assert_eq!(fb.char_at(0, 0), ' ');
}

#[test]
fn fill_and_style_a_box() {
    let mut fb = TextFrameBuffer::with_size(6, 6);
    assert_eq!(fb.fill_box('#', 1, 1, 2, 3), Ok(()));
    assert_eq!(fb.char_at(1, 1), '#');
    assert_eq!(fb.char_at(2, 3), '#');
    assert_eq!(fb.char_at(3, 1), ' ');
    assert_eq!(fb.char_at(1, 4), ' ');
    let red = TextStyle::fg_only(TextColor::Red);
    assert_eq!(fb.style_box(red, 0, 0, 1, 1), Ok(()));
    assert_eq!(fb.style_at(0, 0), red);
    assert_eq!(fb.style_at(1, 0), TextStyle::default());
    assert!(fb.fill_box('#', 0, 0, 6, 1).is_err());
}

#[test]
fn outline_a_box() {
    let mut fb = TextFrameBuffer::with_size(8, 8);
    assert_eq!(fb.outline_box(BoxDrawingProfile::Normal, 1, 1, 4, 3), Ok(()));
    assert_eq!(fb.char_at(1, 1), '\u{250c}');
    assert_eq!(fb.char_at(2, 1), '\u{2500}');
    assert_eq!(fb.char_at(4, 1), '\u{2510}');
    assert_eq!(fb.char_at(1, 2), '\u{2502}');
    assert_eq!(fb.char_at(2, 2), ' ');
    assert_eq!(fb.char_at(4, 2), '\u{2502}');
    assert_eq!(fb.char_at(1, 3), '\u{2514}');
    assert_eq!(fb.char_at(3, 3), '\u{2500}');
    assert_eq!(fb.char_at(4, 3), '\u{2518}');
    assert_eq!(fb.char_at(5, 1), ' ');
}

#[test]
fn outline_glyphs_by_column_then_row() {
    let d = BoxDrawingProfile::Normal.data();
    assert_eq!(d[0][0], '\u{250c}');
    assert_eq!(d[1][0], '\u{2500}');
    assert_eq!(d[2][0], '\u{2510}');
    assert_eq!(d[0][1], '\u{2502}');
    assert_eq!(d[2][2], '\u{2518}');
}

#[test]
fn escape_sequences() {
    assert_eq!(Ansi::Reset.code(), "\x1b[0m");
    assert_eq!(Ansi::Cyan.code(), "\x1b[36m");
    assert_eq!(TextStyle::fg_only(TextColor::Red).escape(), "\x1b[m\x1b[31m");
    assert_eq!(TextStyle::bg_only(TextColor::Red).escape(), "\x1b[41m\x1b[m");
}

#[test]
fn a_card_face_and_back() {
    let mut fb = TextFrameBuffer::with_size(12, 7);
    let face = RenderableCard::Front(Card::new(Value::Ten, Suit::Hearts));
    assert_eq!(face.render_size(), (5, 5));
    assert_eq!(face.render(&mut fb, 0, 0), Ok(()));
    assert_eq!(fb.char_at(0, 0), '\u{250c}');
    assert_eq!(fb.char_at(1, 1), '1');
    assert_eq!(fb.char_at(2, 1), '0');
    assert_eq!(fb.char_at(2, 3), '1');
    assert_eq!(fb.char_at(3, 3), '0');
    assert_eq!(fb.char_at(2, 2), '\u{2665}');
    assert_eq!(fb.style_at(2, 2), TextStyle::fg_only(TextColor::Red));
    assert_eq!(fb.char_at(4, 4), '\u{2518}');
    assert_eq!(RenderableCard::Back.render(&mut fb, 6, 0), Ok(()));
    assert_eq!(fb.char_at(8, 2), '\u{2592}');
    assert!(RenderableCard::Back.render(&mut fb, 7, 0).is_err());
}

#[test]
fn buffer_as_terminal_text() {
    let mut fb = TextFrameBuffer::with_size(2, 1);
    assert_eq!(fb.style_box(TextStyle::fg_only(TextColor::Red), 0, 0, 0, 0), Ok(()));
    assert_eq!(fb.to_text(), "\x1b[m\x1b[m \x1b[0m\x1b[m\x1b[m \x1b[0m\n");
    let mut fb = TextFrameBuffer::with_size(3, 2);
    assert_eq!(fb.text("a", 0, 0), Ok(()));
    assert_eq!(fb.style_box(TextStyle::fg_only(TextColor::Red), 0, 0, 1, 1), Ok(()));
    let text = fb.to_text();
    assert!(text.starts_with("\x1b[m\x1b[31ma\x1b[0m\x1b[m\x1b[m \x1b[0m"));
    assert_eq!(text.matches('\n').count(), 2);
}
