use uart_matrix::display::font::Font;
use uart_matrix::display::text_animations::{
    AnimationState, BlinkingAnimation, SlideAnimation, SlideDirection, TextAnimation,
};
use uart_matrix::display::text_display::{
    update_slide_length, utf8_slice, RowDraw, RowStyle, TextDisplay,
};
use uart_matrix::display::DisplayError;

fn text(s: &str) -> heapless::String<256> {
    heapless::String::from(s)
}

fn white(font: Font) -> RowStyle {
    RowStyle { font, color: (255, 255, 255) }
}

fn still(x: i32) -> AnimationState {
    AnimationState { x_offset: x, y_offset: 0, visible: true }
}

#[test]
fn error_messages() {
    assert_eq!(DisplayError::OutOfBounds.message(), "Index out of Bounds");
    assert_eq!(DisplayError::IncorrectMode.message(), "Incorrect Mode");
    assert_eq!(DisplayError::InvalidSetting.message(), "Invalid Setting");
    assert_eq!(DisplayError::InvalidCommand.message(), "Invalid Command");
    assert_eq!(DisplayError::DrawError.message(), "Drawing Error");
}

#[test]
fn glyph_widths_of_the_fonts() {
    assert_eq!(Font::Default.glyph_width(), 6);
    assert_eq!(Font::ProFont.glyph_width(), 5);
    assert_eq!(Font::Ibm.glyph_width(), 8);
}

#[test]
fn utf8_slice_counts_characters() {
    assert_eq!(utf8_slice("hello", 1, 3), Some("el"));
    assert_eq!(utf8_slice("hello", 0, 5), Some("hello"));
    assert_eq!(utf8_slice("hello", 5, 5), Some(""));
    assert_eq!(utf8_slice("hello", 0, 6), None);
    assert_eq!(utf8_slice("hello", 6, 6), None);
    assert_eq!(utf8_slice("hello", 6, 2), None);
    assert_eq!(utf8_slice("hello", 3, 1), Some(""));
    assert_eq!(utf8_slice("", 0, 0), Some(""));
    assert_eq!(utf8_slice("zażółć gęślą", 2, 6), Some("żółć"));
    assert_eq!(utf8_slice("日本語", 1, 3), Some("本語"));
    assert_eq!(utf8_slice("日本語", 1, 4), None);
}

#[test]
fn no_animation_stands_still() {
    let mut animation = TextAnimation::NoAnimation;
    animation.tick();
    assert_eq!(animation.get(), still(0));
}

#[test]
fn blinking_flips_every_tempo_ticks() {
    let mut blink = BlinkingAnimation::new(3);
    let mut seen = Vec::new();
    for _ in 0..12 {
        seen.push(blink.get().visible);
        blink.tick();
    }
    assert_eq!(
        seen,
        [true, true, true, false, false, false, true, true, true, false, false, false]
    );
    assert_eq!(blink.get(), AnimationState { x_offset: 0, y_offset: 0, visible: true });
}

#[test]
fn blinking_with_tempo_zero_flips_on_every_tick() {
    let mut blink = TextAnimation::BlinkingAnimation(BlinkingAnimation::new(0));
    blink.tick();
    assert!(!blink.get().visible);
    blink.tick();
    assert!(blink.get().visible);
}

#[test]
fn slide_fields_are_kept() {
    let mut slide = SlideAnimation::new(7, SlideDirection::Right);
    assert_eq!((slide.slide_length, slide.direction, slide.tempo), (0, SlideDirection::Right, 7));
    assert_eq!((slide.x_offset, slide.counter), (0, 0));
    slide.set_length(123);
    assert_eq!((slide.slide_length, slide.direction, slide.tempo), (123, SlideDirection::Right, 7));
    for _ in 0..20 {
        slide.tick();
    }
    assert_eq!((slide.slide_length, slide.direction, slide.tempo), (123, SlideDirection::Right, 7));
    assert_eq!((slide.x_offset, slide.counter), (2, 6));
}

#[test]
fn skipped_characters_leave_no_gap() {
    // one character of six pixels has left the screen: the next one stands
    // at the left edge
    let mut display = TextDisplay::new();
    display.write(0, text("éa")).unwrap();
    display
        .set_animation(
            0,
            TextAnimation::SlideAnimation(SlideAnimation::new(1, SlideDirection::Left)),
        )
        .unwrap();
    for _ in 0..6 {
        display.anim_tick();
    }
    let draws = display.layout(64);
    assert_eq!(draws[0].text, "a");
    assert_eq!((draws[0].x, draws[0].y), (0, 8));
    assert_eq!(draws[1].text, "");
    assert_eq!(draws[2].text, "");
}

#[test]
fn slide_length_has_a_minimum() {
    let mut slide = SlideAnimation::new(1, SlideDirection::Left);
    assert_eq!(slide.slide_length, 0);
    slide.set_length(10);
    assert_eq!(slide.slide_length, 80);
    slide.set_length(80);
    assert_eq!(slide.slide_length, 80);
    slide.set_length(81);
    assert_eq!(slide.slide_length, 81);
}

#[test]
fn slide_length_follows_the_text() {
    let mut slide = SlideAnimation::new(1, SlideDirection::Left);
    update_slide_length(&mut slide, 0);
    assert_eq!(slide.slide_length, 80);
    update_slide_length(&mut slide, 6);
    assert_eq!(slide.slide_length, 80);
    update_slide_length(&mut slide, 7);
    assert_eq!(slide.slide_length, 81);
    update_slide_length(&mut slide, 256);
    assert_eq!(slide.slide_length, 258 * 9);
}

#[test]
fn left_slide_moves_every_tempo_ticks_and_wraps_to_the_right_end() {
    let mut slide = SlideAnimation::new(2, SlideDirection::Left);
    slide.set_length(80);
    let mut seen = Vec::new();
    for _ in 0..6 {
        slide.tick();
        seen.push(slide.get().x_offset);
    }
    assert_eq!(seen, [0, -1, -1, -2, -2, -3]);
    for _ in 0..(2 * 77) {
        slide.tick();
    }
    assert_eq!(slide.get(), still(-80));
    slide.tick();
    assert_eq!(slide.get(), still(-80));
    slide.tick();
    assert_eq!(slide.get(), still(80));
    slide.tick();
    slide.tick();
    assert_eq!(slide.get(), still(79));
}

#[test]
fn right_slide_wraps_ten_pixels_beyond_the_left_end() {
    let mut slide = SlideAnimation::new(1, SlideDirection::Right);
    slide.set_length(100);
    for _ in 0..100 {
        slide.tick();
    }
    assert_eq!(slide.get(), still(100));
    slide.tick();
    assert_eq!(slide.get(), still(-110));
    slide.tick();
    assert_eq!(slide.get(), still(-109));
}

#[test]
fn left_slide_returns_after_its_period() {
    let tempo = 3;
    let length = 80;
    let mut slide = SlideAnimation::new(tempo, SlideDirection::Left);
    slide.set_length(length);
    for _ in 0..6 {
        slide.tick();
    }
    let start = slide.get();
    assert_eq!(start, still(-2));
    // one tick short of the period the animation is one tick behind
    for _ in 0..(2 * length + 1) * (tempo as usize) - 1 {
        slide.tick();
    }
    assert_eq!(slide.get(), still(-1));
    slide.tick();
    assert_eq!(slide.get(), start);
    // after twice the slide length in moves it is one pixel short of a round
    for _ in 0..2 * length * (tempo as usize) {
        slide.tick();
    }
    assert_eq!(slide.get(), still(-1));
}

#[test]
fn right_slide_returns_after_its_period() {
    let mut slide = SlideAnimation::new(2, SlideDirection::Right);
    slide.set_length(90);
    slide.tick();
    let start = slide.get();
    for _ in 0..(2 * 90 + 11) * 2 {
        slide.tick();
    }
    assert_eq!(slide.get(), start);
}

#[test]
fn new_display_draws_three_empty_rows() {
    let mut display = TextDisplay::new();
    let draws = display.layout(64);
    let expected: Vec<RowDraw> = (0..3)
        .map(|row| RowDraw { text: String::new(), x: 0, y: 8 + 9 * row, style: white(Font::Default) })
        .collect();
    assert_eq!(draws, expected);
}

#[test]
fn rows_keep_text_and_style_apart() {
    let mut display = TextDisplay::new();
    assert_eq!(display.write(0, text("TEST")), Ok(()));
    assert_eq!(display.write(2, text("zażółć")), Ok(()));
    assert_eq!(display.set_color(1, (255, 0, 0)), Ok(()));
    assert_eq!(display.set_color(2, (240, 120, 0)), Ok(()));
    assert_eq!(display.set_font(1, Font::Ibm), Ok(()));
    assert_eq!(display.set_font(2, Font::ProFont), Ok(()));
    let draws = display.layout(64);
    assert_eq!(
        draws,
        vec![
            RowDraw { text: "TEST".into(), x: 0, y: 8, style: white(Font::Default) },
            RowDraw {
                text: String::new(),
                x: 0,
                y: 17,
                style: RowStyle { font: Font::Ibm, color: (255, 0, 0) }
            },
            RowDraw {
                text: "zażółć".into(),
                x: 0,
                y: 26,
                style: RowStyle { font: Font::ProFont, color: (240, 120, 0) }
            },
        ]
    );
}

#[test]
fn row_out_of_range_is_refused() {
    let mut display = TextDisplay::new();
    assert_eq!(display.write(3, text("x")), Err(DisplayError::OutOfBounds));
    assert_eq!(display.set_color(3, (1, 2, 3)), Err(DisplayError::OutOfBounds));
    assert_eq!(display.set_font(usize::MAX, Font::Ibm), Err(DisplayError::OutOfBounds));
    assert_eq!(
        display.set_animation(7, TextAnimation::NoAnimation),
        Err(DisplayError::OutOfBounds)
    );
    assert_eq!(display.layout(64), TextDisplay::new().layout(64));
}

#[test]
fn hidden_row_is_painted_over_with_spaces() {
    let mut display = TextDisplay::new();
    display.write(1, text("BLINK")).unwrap();
    display
        .set_animation(1, TextAnimation::BlinkingAnimation(BlinkingAnimation::new(2)))
        .unwrap();
    assert_eq!(display.layout(64)[1].text, "BLINK");
    display.anim_tick();
    assert_eq!(display.layout(64)[1].text, "BLINK");
    display.anim_tick();
    let draws = display.layout(64);
    assert_eq!(draws[1].text, " ".repeat(34));
    assert_eq!((draws[1].x, draws[1].y), (0, 17));
    display.anim_tick();
    display.anim_tick();
    assert_eq!(display.layout(64)[1].text, "BLINK");
}

#[test]
fn sliding_left_skips_what_has_left_the_screen() {
    let mut display = TextDisplay::new();
    display.write(2, text("ABCDEFGHIJKLMNOP")).unwrap();
    display
        .set_animation(
            2,
            TextAnimation::SlideAnimation(SlideAnimation::new(1, SlideDirection::Left)),
        )
        .unwrap();
    let draws = display.layout(64);
    assert_eq!(draws[2].text, "ABCDEFGHIJKL");
    assert_eq!((draws[2].x, draws[2].y), (0, 26));
    for _ in 0..7 {
        display.anim_tick();
    }
    let draws = display.layout(64);
    assert_eq!(draws[2].text, "BCDEFGHIJKLM");
    assert_eq!(draws[2].x, -1);
    for _ in 0..5 {
        display.anim_tick();
    }
    let draws = display.layout(64);
    assert_eq!(draws[2].text, "CDEFGHIJKLMN");
    assert_eq!(draws[2].x, 0);
    for _ in 0..(6 * 13) {
        display.anim_tick();
    }
    // offset -90: fifteen glyphs are gone, the last one is left
    let draws = display.layout(64);
    assert_eq!(draws[2].text, "P");
    for _ in 0..6 {
        display.anim_tick();
    }
    assert_eq!(display.layout(64)[2].text, "");
}

#[test]
fn sliding_in_from_the_right_shows_what_fits() {
    let mut display = TextDisplay::new();
    display.write(0, text("ABCDEFGHIJKLMNOP")).unwrap();
    display
        .set_animation(
            0,
            TextAnimation::SlideAnimation(SlideAnimation::new(1, SlideDirection::Right)),
        )
        .unwrap();
    for _ in 0..10 {
        display.anim_tick();
    }
    let draws = display.layout(64);
    assert_eq!(draws[0].text, " ABCDEFGHIJK");
    assert_eq!((draws[0].x, draws[0].y), (10, 8));
    for _ in 0..53 {
        display.anim_tick();
    }
    let draws = display.layout(64);
    assert_eq!(draws[0].text, " AB");
    assert_eq!(draws[0].x, 63);
    display.anim_tick();
    let draws = display.layout(64);
    assert_eq!(draws[0].text, " ");
    assert_eq!(draws[0].x, 64);
}

#[test]
fn slide_uses_the_glyph_width_of_the_font() {
    let mut display = TextDisplay::new();
    display.write(0, text("ABCDEFGHIJKLMNOPQRSTUVWXYZ")).unwrap();
    display.set_font(0, Font::Ibm).unwrap();
    display
        .set_animation(
            0,
            TextAnimation::SlideAnimation(SlideAnimation::new(1, SlideDirection::Left)),
        )
        .unwrap();
    for _ in 0..17 {
        display.anim_tick();
    }
    // 17 pixels are two glyphs of 8 and one pixel; 64 / 8 + 2 glyphs are drawn
    let draws = display.layout(64);
    assert_eq!(draws[0].text, "CDEFGHIJKL");
    assert_eq!(draws[0].x, -1);
    display.set_font(0, Font::ProFont).unwrap();
    // with glyphs of 5 pixels: three glyphs and two pixels; 64 / 5 + 2 glyphs
    let draws = display.layout(64);
    assert_eq!(draws[0].text, "DEFGHIJKLMNOPQ");
    assert_eq!(draws[0].x, -2);
}

#[test]
fn sliding_an_empty_row() {
    let mut display = TextDisplay::new();
    display
        .set_animation(
            1,
            TextAnimation::SlideAnimation(SlideAnimation::new(1, SlideDirection::Right)),
        )
        .unwrap();
    assert_eq!(display.layout(64)[1].text, "");
    display.anim_tick();
    let draws = display.layout(64);
    assert_eq!(draws[1].text, " ");
    assert_eq!(draws[1].x, 1);
}

#[test]
fn sliding_text_is_cut_between_characters() {
    let mut display = TextDisplay::new();
    display.write(0, text("żółw żółw żółw żółw")).unwrap();
    display
        .set_animation(
            0,
            TextAnimation::SlideAnimation(SlideAnimation::new(1, SlideDirection::Left)),
        )
        .unwrap();
    for _ in 0..12 {
        display.anim_tick();
    }
    assert_eq!(display.layout(64)[0].text, "łw żółw żółw");
}

#[test]
fn sliding_text_is_laid_out_for_the_width_of_the_image() {
    let mut display = TextDisplay::new();
    display.write(0, text("0123456789012345678901234567890123456789")).unwrap();
    display
        .set_animation(
            0,
            TextAnimation::SlideAnimation(SlideAnimation::new(1, SlideDirection::Left)),
        )
        .unwrap();
    for _ in 0..13 {
        display.anim_tick();
    }
    // thirteen pixels to the left: two glyphs of six pixels are gone, and
    // width / 6 + 2 more are drawn
    let narrow = display.layout(32);
    assert_eq!((narrow[0].text.as_str(), narrow[0].x), ("2345678", -1));
    let middle = display.layout(64);
    assert_eq!((middle[0].text.as_str(), middle[0].x), ("234567890123", -1));
    let wide = display.layout(128);
    assert_eq!((wide[0].text.as_str(), wide[0].x), ("23456789012345678901234", -1));
    assert_eq!(display.layout(1024)[0].text, "23456789012345678901234567890123456789");
    assert_eq!(display.layout(0)[0].text, "23");
    assert_eq!(display.layout(u32::MAX)[0].text.len(), 38);
    // to the right of the origin
    let mut display = TextDisplay::new();
    display.write(0, text("0123456789012345678901234567890123456789")).unwrap();
    display
        .set_animation(
            0,
            TextAnimation::SlideAnimation(SlideAnimation::new(1, SlideDirection::Right)),
        )
        .unwrap();
    for _ in 0..40 {
        display.anim_tick();
    }
    // (width - 40) / 6 + 2 characters behind a space
    assert_eq!(display.layout(32)[0].text, " ");
    assert_eq!(display.layout(40)[0].text, " ");
    assert_eq!(display.layout(41)[0].text, " 01");
    assert_eq!(display.layout(64)[0].text, " 012345");
    assert_eq!(display.layout(128)[0].text, " 0123456789012345");
    assert_eq!(display.layout(u32::MAX)[0].text.len(), 41);
    assert_eq!(display.layout(128)[0].x, 40);
}

#[test]
fn writing_to_a_sliding_row_sets_the_slide_length() {
    let mut display = TextDisplay::new();
    display
        .set_animation(
            0,
            TextAnimation::SlideAnimation(SlideAnimation::new(1, SlideDirection::Left)),
        )
        .unwrap();
    // an empty row slides over 80 pixels: after 81 moves it is back at 80
    for _ in 0..81 {
        display.anim_tick();
    }
    assert_eq!(display.layout(64)[0].x, 80);
    // twenty characters slide over (20 + 2) * 9 = 198 pixels
    display.write(0, text("01234567890123456789")).unwrap();
    for _ in 0..(80 + 198 + 1) {
        display.anim_tick();
    }
    assert_eq!(display.layout(64)[0].x, 198);
}
