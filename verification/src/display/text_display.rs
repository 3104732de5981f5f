//! The text engine: three rows of text, each with its own font, colour and
//! animation. `layout` decides for every row what has to be drawn where, and
//! `update` draws that on the panel.

use crate::display::font::Font;
use crate::display::row_text::{row_as_str, row_chars, row_new, utf8_len, TEXT_ROW_LENGTH};
use crate::display::text_animations::{
    lemma_tick_keeps_wf, SlideAnimation, TextAnimation, TextAnimationView, MAX_SLIDE_LENGTH,
};
use crate::display::DisplayError;
use crate::hub75::{image_width, Hub75};
use vstd::prelude::*;
use vstd::string::StrSliceExecFns;
use vstd::string::StringExecFns;
use vstd::utf8::encode_scalar;
use vstd::utf8::encode_utf8;

verus! {

/// Number of text rows.
pub const ROWS: usize = 3;

/// Baseline of the first row, in pixels from the top.
pub const OFFSET: i32 = 8;

/// Distance between the baselines of two rows.
pub const ROW_PITCH: i32 = 9;

/// Pixels of slide length reserved for each character of a sliding text.
pub const LETTER_WIDTH: usize = 9;

/// Number of spaces drawn over a row that a blink animation hides.
pub const BLANK_LENGTH: usize = 34;

/// The characters `start..end` of a text, or nothing where the text is too
/// short. An `end` before `start` selects the empty text at `start`.
pub open spec fn utf8_slice_spec(text: Seq<char>, start: int, end: int) -> Option<Seq<char>> {
    let stop = if end > start {
        end
    } else {
        start
    };
    if stop <= text.len() {
        Some(text.subrange(start, stop))
    } else {
        None
    }
}

/// Slices a string by character positions instead of byte positions, so that a
/// multi-byte character is never cut in two.
pub fn utf8_slice(s: &str, start: usize, end: usize) -> (slice: Option<&str>)
    ensures
        match utf8_slice_spec(s@, start as int, end as int) {
            Some(chars) => slice matches Some(t) && t@ == chars,
            None => slice is None,
        },
{
    let length = s.unicode_len();
    let stop = if end > start {
        end
    } else {
        start
    };
    if stop > length {
        return None;
    }
    Some(s.substring_char(start, stop))
}

/// Every character takes at least one byte in UTF-8.
pub proof fn lemma_chars_fit_in_bytes(text: Seq<char>)
    ensures
        text.len() <= utf8_len(text),
    decreases text.len(),
{
    if text.len() > 0 {
        lemma_chars_fit_in_bytes(text.drop_first());
        assert(encode_scalar(text[0] as u32).len() >= 1);
        assert(encode_utf8(text) == encode_scalar(text[0] as u32) + encode_utf8(
            text.drop_first(),
        ));
    }
}

/// The slide length that belongs to a text of `chars` characters: nine pixels
/// for every character and for two more, but at least 80.
pub open spec fn slide_length_for(chars: int) -> int {
    let length = (chars + 2) * LETTER_WIDTH;
    if length < 80 {
        80
    } else {
        length
    }
}

/// Gives a slide animation the length that belongs to a text of `text_len`
/// characters.
pub fn update_slide_length(anim: &mut SlideAnimation, text_len: usize)
    requires
        old(anim).wf(),
        (text_len + 2) * LETTER_WIDTH <= MAX_SLIDE_LENGTH,
    ensures
        final(anim)@ == old(anim)@.with_length(slide_length_for(text_len as int)),
        final(anim)@.slide_length == slide_length_for(text_len as int),
        final(anim).wf(),
{
    anim.set_length((text_len + 2) * LETTER_WIDTH);
}

/// Font and text colour of a row. The background is always black.
#[derive(Debug, Clone, Copy, PartialEq, Eq)]
pub struct RowStyle {
    pub font: Font,
    pub color: (u8, u8, u8),
}

/// One piece of text to draw: what, where (left end of the baseline), and how.
#[derive(Debug, PartialEq, Eq)]
pub struct RowDraw {
    pub text: String,
    pub x: i32,
    pub y: i32,
    pub style: RowStyle,
}

/// Mathematical model of a piece of text to draw.
pub struct RowDrawView {
    pub text: Seq<char>,
    pub x: int,
    pub y: int,
    pub style: RowStyle,
}

impl View for RowDraw {
    type V = RowDrawView;

    open spec fn view(&self) -> RowDrawView {
        RowDrawView { text: self.text@, x: self.x as int, y: self.y as int, style: self.style }
    }
}

/// Baseline of a row.
pub open spec fn row_baseline(row: int) -> int {
    OFFSET + ROW_PITCH * row
}

/// The smaller of two numbers.
pub open spec fn min_of(a: int, b: int) -> int {
    if a < b {
        a
    } else {
        b
    }
}

/// The part of a sliding text that is drawn on an image `width` pixels wide
/// when the text stands at offset `x` and every glyph is `glyph_width` pixels
/// wide.
///
/// To the right of the origin it is the leading characters that reach the
/// right edge of the image, behind one space. At the origin and to the left
/// of it, it is the text without the characters that have left the image, up
/// to those that reach the right edge, and nothing else.
pub open spec fn sliding_text(text: Seq<char>, x: int, glyph_width: int, width: int) -> Seq<char> {
    if x > 0 {
        seq![' '] + if width - x > 0 {
            text.subrange(0, min_of((width - x) / glyph_width + 2, text.len() as int))
        } else {
            Seq::empty()
        }
    } else {
        let skipped = (-x) / glyph_width;
        if skipped < text.len() {
            text.subrange(skipped, min_of(skipped + width / glyph_width + 2, text.len() as int))
        } else {
            Seq::empty()
        }
    }
}

/// Where a sliding text is drawn: at its offset while that is to the right of
/// the origin, else so far left of the origin as the first visible glyph is
/// cut.
pub open spec fn sliding_x(x: int, glyph_width: int) -> int {
    if x > 0 {
        x
    } else {
        -((-x) % glyph_width)
    }
}

/// A row of spaces that paints over a hidden text.
pub open spec fn blank_text() -> Seq<char> {
    Seq::new(BLANK_LENGTH as nat, |i: int| ' ')
}

/// What is drawn for one row on an image `width` pixels wide.
pub open spec fn row_draw(
    text: Seq<char>,
    animation: TextAnimationView,
    style: RowStyle,
    row: int,
    width: int,
) -> RowDrawView {
    let state = animation.state();
    if !state.visible {
        RowDrawView {
            text: blank_text(),
            x: state.x_offset as int,
            y: row_baseline(row),
            style,
        }
    } else if animation is Slide {
        RowDrawView {
            text: sliding_text(
                text,
                state.x_offset as int,
                style.font.glyph_width_spec(),
                width,
            ),
            x: sliding_x(state.x_offset as int, style.font.glyph_width_spec()),
            y: row_baseline(row),
            style,
        }
    } else {
        RowDrawView { text, x: 0, y: row_baseline(row), style }
    }
}

/// Three rows of text with their styles and animations.
#[derive(Debug)]
pub struct TextDisplay {
    rows: [heapless::String<256>; 3],
    animation: [TextAnimation; 3],
    style: [RowStyle; 3],
}

/// Mathematical model of the text engine: text, animation and style of each row.
pub struct TextDisplayView {
    pub rows: Seq<Seq<char>>,
    pub animation: Seq<TextAnimationView>,
    pub style: Seq<RowStyle>,
}

/// The style of a row until a command changes it: the default font in white.
pub open spec fn initial_style() -> RowStyle {
    RowStyle { font: Font::Default, color: (255u8, 255u8, 255u8) }
}

impl TextDisplayView {
    /// The engine after power-on or a switch to text mode: empty rows, no
    /// animation, default style.
    pub open spec fn initial() -> TextDisplayView {
        TextDisplayView {
            rows: Seq::new(ROWS as nat, |i: int| Seq::<char>::empty()),
            animation: Seq::new(ROWS as nat, |i: int| TextAnimationView::NoAnimation),
            style: Seq::new(ROWS as nat, |i: int| initial_style()),
        }
    }

    /// There are three rows, each within its capacity, each animation is
    /// well-formed, and the length of every slide is the one that belongs to
    /// the row's text.
    pub open spec fn wf(self) -> bool {
        &&& self.rows.len() == ROWS
        &&& self.animation.len() == ROWS
        &&& self.style.len() == ROWS
        &&& forall|i: int| 0 <= i < ROWS ==> (#[trigger] self.rows[i]).len() <= TEXT_ROW_LENGTH
        &&& forall|i: int| 0 <= i < ROWS ==> (#[trigger] self.animation[i]).wf()
        &&& forall|i: int|
            0 <= i < ROWS ==> ((#[trigger] self.animation[i]) matches TextAnimationView::Slide(
                slide,
            ) ==> slide.slide_length == slide_length_for(self.rows[i].len() as int))
    }

    /// An animation as it is stored for a row with the given text: a slide
    /// gets the length that belongs to the text.
    pub open spec fn fitted(animation: TextAnimationView, text: Seq<char>) -> TextAnimationView {
        match animation {
            TextAnimationView::Slide(slide) => TextAnimationView::Slide(
                slide.with_length(slide_length_for(text.len() as int)),
            ),
            _ => animation,
        }
    }

    /// The engine after new text was written to a row.
    pub open spec fn write(self, row: int, text: Seq<char>) -> TextDisplayView {
        TextDisplayView {
            rows: self.rows.update(row, text),
            animation: self.animation.update(row, Self::fitted(self.animation[row], text)),
            style: self.style,
        }
    }

    /// The engine after the text colour of a row was set.
    pub open spec fn set_color(self, row: int, color: (u8, u8, u8)) -> TextDisplayView {
        TextDisplayView {
            style: self.style.update(row, RowStyle { color, ..self.style[row] }),
            ..self
        }
    }

    /// The engine after the font of a row was set.
    pub open spec fn set_font(self, row: int, font: Font) -> TextDisplayView {
        TextDisplayView {
            style: self.style.update(row, RowStyle { font, ..self.style[row] }),
            ..self
        }
    }

    /// The engine after a row was given a new animation.
    pub open spec fn set_animation(
        self,
        row: int,
        animation: TextAnimationView,
    ) -> TextDisplayView {
        TextDisplayView {
            animation: self.animation.update(row, Self::fitted(animation, self.rows[row])),
            ..self
        }
    }

    /// The engine one tick of the animation timer later.
    pub open spec fn tick(self) -> TextDisplayView {
        TextDisplayView {
            animation: Seq::new(ROWS as nat, |i: int| self.animation[i].tick()),
            ..self
        }
    }

    /// What is drawn at the current step on an image `width` pixels wide:
    /// one piece of text for each row, top row first.
    pub open spec fn draws(self, width: int) -> Seq<RowDrawView> {
        Seq::new(
            ROWS as nat,
            |i: int| row_draw(self.rows[i], self.animation[i], self.style[i], i, width),
        )
    }
}

impl View for TextDisplay {
    type V = TextDisplayView;

    closed spec fn view(&self) -> TextDisplayView {
        TextDisplayView {
            rows: Seq::new(ROWS as nat, |i: int| row_chars(self.rows@[i])),
            animation: Seq::new(ROWS as nat, |i: int| self.animation@[i]@),
            style: self.style@,
        }
    }
}

impl TextDisplay {
    pub open spec fn wf(&self) -> bool {
        self@.wf()
    }

    /// Three empty rows in the default font, white on black, without animation.
    pub fn new() -> (display: Self)
        ensures
            display@ == TextDisplayView::initial(),
            display.wf(),
    {
        let style = RowStyle { font: Font::Default, color: (255, 255, 255) };
        let display = TextDisplay {
            rows: [row_new(), row_new(), row_new()],
            animation: [
                TextAnimation::NoAnimation,
                TextAnimation::NoAnimation,
                TextAnimation::NoAnimation,
            ],
            style: [style, style, style],
        };
        assert(display@.rows =~= TextDisplayView::initial().rows);
        assert(display@.animation =~= TextDisplayView::initial().animation);
        assert(display@.style =~= TextDisplayView::initial().style);
        display
    }

    /// Replaces the text of a row. A sliding row gets the slide length that
    /// belongs to the new text.
    pub fn write(&mut self, row: usize, text: heapless::String<256>) -> (result: Result<
        (),
        DisplayError,
    >)
        requires
            old(self).wf(),
        ensures
            final(self).wf(),
            row >= ROWS ==> result == Err::<(), DisplayError>(DisplayError::OutOfBounds)
                && final(self)@ == old(self)@,
            row < ROWS ==> result is Ok && final(self)@ == old(self)@.write(
                row as int,
                row_chars(text),
            ),
    {
        if row >= ROWS {
            return Err(DisplayError::OutOfBounds);
        }
        let length = row_as_str(&text).unicode_len();
        proof {
            lemma_chars_fit_in_bytes(row_chars(text));
        }
        let mut animation = self.animation[row];
        assert(animation@ == old(self)@.animation[row as int]);
        if let TextAnimation::SlideAnimation(ref mut anim) = animation {
            update_slide_length(anim, length);
        }
        self.animation[row] = animation;
        self.rows[row] = text;
        proof {
            let after = old(self)@.write(row as int, row_chars(text));
            assert(self@.rows =~= after.rows);
            assert(self@.animation =~= after.animation);
            assert(self@.style =~= after.style);
        }
        Ok(())
    }

    /// Sets the text colour of a row.
    pub fn set_color(&mut self, row: usize, rgb_color: (u8, u8, u8)) -> (result: Result<
        (),
        DisplayError,
    >)
        requires
            old(self).wf(),
        ensures
            final(self).wf(),
            row >= ROWS ==> result == Err::<(), DisplayError>(DisplayError::OutOfBounds)
                && final(self)@ == old(self)@,
            row < ROWS ==> result is Ok && final(self)@ == old(self)@.set_color(
                row as int,
                rgb_color,
            ),
    {
        if row >= ROWS {
            return Err(DisplayError::OutOfBounds);
        }
        let font = self.style[row].font;
        self.style[row] = RowStyle { font, color: rgb_color };
        proof {
            let after = old(self)@.set_color(row as int, rgb_color);
            assert(self@.rows =~= after.rows);
            assert(self@.animation =~= after.animation);
            assert(self@.style =~= after.style);
        }
        Ok(())
    }

    /// Sets the font of a row.
    pub fn set_font(&mut self, row: usize, font: Font) -> (result: Result<(), DisplayError>)
        requires
            old(self).wf(),
        ensures
            final(self).wf(),
            row >= ROWS ==> result == Err::<(), DisplayError>(DisplayError::OutOfBounds)
                && final(self)@ == old(self)@,
            row < ROWS ==> result is Ok && final(self)@ == old(self)@.set_font(row as int, font),
    {
        if row >= ROWS {
            return Err(DisplayError::OutOfBounds);
        }
        let color = self.style[row].color;
        self.style[row] = RowStyle { font, color };
        proof {
            let after = old(self)@.set_font(row as int, font);
            assert(self@.rows =~= after.rows);
            assert(self@.animation =~= after.animation);
            assert(self@.style =~= after.style);
        }
        Ok(())
    }

    /// Gives a row a new animation, which starts from the state it is handed
    /// over in. A slide gets the slide length that belongs to the row's text.
    pub fn set_animation(&mut self, row: usize, animation: TextAnimation) -> (result: Result<
        (),
        DisplayError,
    >)
        requires
            old(self).wf(),
            animation.wf(),
        ensures
            final(self).wf(),
            row >= ROWS ==> result == Err::<(), DisplayError>(DisplayError::OutOfBounds)
                && final(self)@ == old(self)@,
            row < ROWS ==> result is Ok && final(self)@ == old(self)@.set_animation(
                row as int,
                animation@,
            ),
    {
        if row >= ROWS {
            return Err(DisplayError::OutOfBounds);
        }
        let mut animation = animation;
        if let TextAnimation::SlideAnimation(ref mut anim) = animation {
            let length = row_as_str(&self.rows[row]).unicode_len();
            proof {
                lemma_chars_fit_in_bytes(row_chars(self.rows@[row as int]));
            }
            update_slide_length(anim, length);
        }
        self.animation[row] = animation;
        proof {
            let after = old(self)@.set_animation(row as int, animation@);
            assert(self@.rows =~= after.rows);
            assert(self@.animation =~= after.animation);
            assert(self@.style =~= after.style);
        }
        Ok(())
    }

    /// Decides what has to be drawn for the current step of every row, top row
    /// first, on an image `width` pixels wide.
    ///
    /// A row without animation, or one that blinks and is visible, is drawn
    /// from the left edge. A hidden row is painted over with spaces. Of a
    /// sliding row only the characters that can be seen on an image of this
    /// width are drawn: behind one space while the row stands to the right of
    /// the origin, and by themselves from then on.
    pub fn layout(&self, width: u32) -> (draws: Vec<RowDraw>)
        requires
            self.wf(),
        ensures
            draws@.len() == ROWS,
            forall|i: int|
                0 <= i < ROWS ==> (#[trigger] draws@[i])@ == self@.draws(width as int)[i],
    {
        let mut draws: Vec<RowDraw> = Vec::new();
        let mut i: usize = 0;
        while i < ROWS
            invariant
                0 <= i <= ROWS,
                self.wf(),
                draws@.len() == i,
                forall|k: int|
                    0 <= k < i ==> (#[trigger] draws@[k])@ == self@.draws(width as int)[k],
            decreases ROWS - i,
        {
            let draw = self.draw_row(i, width);
            draws.push(draw);
            i = i + 1;
        }
        draws
    }

    /// Draws the current step of every row on the panel, top row first, as
    /// `layout` lays the rows out for the width of the panel's image. The
    /// engine itself is left as it was.
    pub fn update<const ROW_LENGTH: usize, const ROWS_ADDR: usize, const STRIPE: bool>(
        &mut self,
        target: &mut Hub75<ROW_LENGTH, ROWS_ADDR, STRIPE>,
    )
        requires
            old(self).wf(),
            old(target).wf(),
        ensures
            final(self)@ == old(self)@,
            final(target).wf(),
            final(target).pin_masks() == old(target).pin_masks(),
            final(target)@ == old(target)@.lettered_all(
                old(self)@.draws(image_width(ROW_LENGTH as int, STRIPE)),
                ROWS as int,
                STRIPE,
            ),
    {
        let width = target.size().0;
        let draws = self.layout(width);
        assert(draws@.map_values(|draw: RowDraw| draw@) =~= old(self)@.draws(width as int));
        target.draw_texts(&draws);
    }

    /// What has to be drawn for one row on an image `width` pixels wide.
    fn draw_row(&self, row: usize, width: u32) -> (draw: RowDraw)
        requires
            self.wf(),
            row < ROWS,
        ensures
            draw@ == self@.draws(width as int)[row as int],
    {
        let mut animation = self.animation[row];
        assert(animation@ == self@.animation[row as int]);
        let state = animation.get();
        let style = self.style[row];
        let text = row_as_str(&self.rows[row]);
        let y: i32 = OFFSET + ROW_PITCH * (row as i32);
        if !state.visible {
            proof {
                reveal_strlit("                                  ");
                assert("                                  "@ =~= blank_text());
            }
            return RowDraw {
                text: String::from_str("                                  "),
                x: state.x_offset,
                y,
                style,
            };
        }
        match animation {
            TextAnimation::SlideAnimation(_) => {
                let glyph_width = style.font.glyph_width() as u64;
                let length = text.unicode_len();
                let x: i32 = state.x_offset;
                proof {
                    reveal_strlit(" ");
                    assert(" "@ =~= seq![' ']);
                }
                if x > 0 {
                    let mut shown = String::from_str(" ");
                    let on_screen: i64 = width as i64 - x as i64;
                    if on_screen > 0 {
                        let reach = on_screen as u64 / glyph_width + 2;
                        let stop = if reach < length as u64 {
                            reach as usize
                        } else {
                            length
                        };
                        shown.append(text.substring_char(0, stop));
                    }
                    assert(shown@ =~= sliding_text(
                        text@,
                        x as int,
                        glyph_width as int,
                        width as int,
                    ));
                    RowDraw { text: shown, x, y, style }
                } else {
                    let behind = (-(x as i64)) as u64;
                    let skipped = behind / glyph_width;
                    let cut = (behind % glyph_width) as i32;
                    let shown = if skipped < length as u64 {
                        let reach = skipped + width as u64 / glyph_width + 2;
                        let stop = if reach < length as u64 {
                            reach as usize
                        } else {
                            length
                        };
                        String::from_str(text.substring_char(skipped as usize, stop))
                    } else {
                        proof {
                            reveal_strlit("");
                            assert(""@ =~= Seq::<char>::empty());
                        }
                        String::from_str("")
                    };
                    assert(shown@ =~= sliding_text(
                        text@,
                        x as int,
                        glyph_width as int,
                        width as int,
                    ));
                    RowDraw { text: shown, x: -cut, y, style }
                }
            },
            _ => RowDraw { text: String::from_str(text), x: 0, y, style },
        }
    }

    /// Advances the animation of every row by one tick.
    pub fn anim_tick(&mut self)
        requires
            old(self).wf(),
        ensures
            final(self)@ == old(self)@.tick(),
            final(self).wf(),
    {
        let mut i: usize = 0;
        while i < ROWS
            invariant
                0 <= i <= ROWS,
                self@.rows == old(self)@.rows,
                self@.style == old(self)@.style,
                self@.animation.len() == ROWS,
                forall|k: int| 0 <= k < i ==> (#[trigger] self@.animation[k]) == old(
                    self,
                )@.animation[k].tick(),
                forall|k: int| i <= k < ROWS ==> (#[trigger] self@.animation[k]) == old(
                    self,
                )@.animation[k],
                old(self).wf(),
            decreases ROWS - i,
        {
            let ghost before = self@;
            let mut animation = self.animation[i];
            assert(animation@ == before.animation[i as int]);
            animation.tick();
            self.animation[i] = animation;
            proof {
                assert(self@.rows =~= before.rows);
                assert(self@.style =~= before.style);
                assert(self@.animation =~= before.animation.update(i as int, animation@));
            }
            i = i + 1;
        }
        proof {
            assert(self@.animation =~= old(self)@.tick().animation);
            lemma_display_tick_keeps_wf(old(self)@);
        }
    }
}

/// A tick changes neither the texts nor the slide lengths, so a well-formed
/// engine stays well-formed.
pub proof fn lemma_display_tick_keeps_wf(display: TextDisplayView)
    requires
        display.wf(),
    ensures
        display.tick().wf(),
{
    let after = display.tick();
    assert forall|i: int| 0 <= i < ROWS implies (#[trigger] after.animation[i]).wf() by {
        lemma_tick_keeps_wf(display.animation[i]);
    }
    assert forall|i: int| 0 <= i < ROWS implies ((
    #[trigger] after.animation[i]) matches TextAnimationView::Slide(slide)
        ==> slide.slide_length == slide_length_for(after.rows[i].len() as int)) by {
        assert(display.animation[i].wf());
    }
}

} // verus!
