//! Drawing text on the panel. The glyphs come from embedded-graphics, which
//! rasterizes a text into a window of 64 by 64 pixels; the panel is covered
//! with such windows, and what each of them shows is copied to the panel
//! pixel by pixel.

use crate::display::font::Font;
use crate::display::text_display::{RowDraw, RowDrawView};
use crate::hub75::{Hub75, PanelView};
use embedded_graphics::draw_target::DrawTargetExt;
use embedded_graphics::geometry::Dimensions;
use embedded_graphics::mock_display::MockDisplay;
use embedded_graphics::mono_font::ascii::FONT_6X9;
use embedded_graphics::mono_font::MonoTextStyle;
use embedded_graphics::pixelcolor::{Rgb888, RgbColor};
use embedded_graphics::prelude::{Point, PointsIter};
use embedded_graphics::text::Text;
use embedded_graphics::Drawable;
use ibm437::IBM437_8X8_NORMAL;
use profont::PROFONT_7_POINT;
use vstd::prelude::*;
use vstd::string::StrSliceExecFns;

verus! {

/// Edge length of a raster window in pixels.
pub const WINDOW: usize = 64;

/// Number of pixels in a raster window.
pub const WINDOW_AREA: usize = 4096;

/// How far from the origin a text may start, and a window may lie, so that
/// no coordinate of a glyph leaves the range of `i32`.
pub const TEXT_REACH: i32 = 0x3FFF_FFFF;

/// Room that is left below `-TEXT_REACH` for the part of a glyph that lies
/// above the baseline or left of the position.
pub const TEXT_MARGIN: i32 = 16;

/// Longest text that is drawn at once, in characters.
pub const MAX_TEXT_LENGTH: usize = 1024;

/// The colour behind the glyphs of every row.
pub open spec fn background() -> (u8, u8, u8) {
    (0u8, 0u8, 0u8)
}

/// What a window shows of a text: for each of its 64 by 64 pixels, row by
/// row from its top left corner, the colour that the text gives the pixel, or
/// nothing where the text leaves the pixel alone.
///
/// The text is drawn in the given font with its baseline starting at
/// `position`, in `color` on `background`, and moved by `shift`, which brings
/// the top left corner of the window to the origin.
pub uninterp spec fn text_raster(
    font: Font,
    text: Seq<char>,
    position: (i32, i32),
    color: (u8, u8, u8),
    background: (u8, u8, u8),
    shift: (i32, i32),
) -> Seq<Option<(u8, u8, u8)>>;

/// A text, its position and a shift that the rasterizer can work on: no
/// coordinate of a glyph, shifted or not, leaves the range of `i32`.
pub open spec fn rasterizable(text: Seq<char>, position: (i32, i32), shift: (i32, i32)) -> bool {
    &&& text.len() <= MAX_TEXT_LENGTH
    &&& -TEXT_REACH + TEXT_MARGIN <= position.0 <= TEXT_REACH
    &&& -TEXT_REACH + TEXT_MARGIN <= position.1 <= TEXT_REACH
    &&& -TEXT_REACH <= shift.0 <= 0
    &&& -TEXT_REACH <= shift.1 <= 0
}

/// Draws a `Text` in embedded-graphics' `FONT_6X9` on a `MockDisplay` that is
/// moved by `shift`, and reads the display out with `get_pixel`, in the
/// order of `Rectangle::points`. Trusted: the result is a function of the
/// arguments, named `text_raster`, with one entry for each of the 64 by 64
/// pixels of the display.
#[verifier::external_body]
fn default_font_raster(
    text: &str,
    position: (i32, i32),
    color: (u8, u8, u8),
    background: (u8, u8, u8),
    shift: (i32, i32),
) -> (raster: Vec<Option<(u8, u8, u8)>>)
    requires
        rasterizable(text@, position, shift),
    ensures
        raster@ == text_raster(Font::Default, text@, position, color, background, shift),
        raster@.len() == WINDOW_AREA,
{
    let mut style = MonoTextStyle::new(&FONT_6X9, Rgb888::new(color.0, color.1, color.2));
    style.background_color = Some(Rgb888::new(background.0, background.1, background.2));
    let mut display = MockDisplay::new();
    display.set_allow_out_of_bounds_drawing(true);
    display.set_allow_overdraw(true);
    let mut shifted = display.translated(Point::new(shift.0, shift.1));
    Text::new(text, Point::new(position.0, position.1), style).draw(&mut shifted).ok();
    let points = display.bounding_box().points();
    points.map(|p| display.get_pixel(p).map(|c| (c.r(), c.g(), c.b()))).collect()
}

/// The same as `default_font_raster`, in `profont::PROFONT_7_POINT`.
#[verifier::external_body]
fn profont_raster(
    text: &str,
    position: (i32, i32),
    color: (u8, u8, u8),
    background: (u8, u8, u8),
    shift: (i32, i32),
) -> (raster: Vec<Option<(u8, u8, u8)>>)
    requires
        rasterizable(text@, position, shift),
    ensures
        raster@ == text_raster(Font::ProFont, text@, position, color, background, shift),
        raster@.len() == WINDOW_AREA,
{
    let mut style = MonoTextStyle::new(&PROFONT_7_POINT, Rgb888::new(color.0, color.1, color.2));
    style.background_color = Some(Rgb888::new(background.0, background.1, background.2));
    let mut display = MockDisplay::new();
    display.set_allow_out_of_bounds_drawing(true);
    display.set_allow_overdraw(true);
    let mut shifted = display.translated(Point::new(shift.0, shift.1));
    Text::new(text, Point::new(position.0, position.1), style).draw(&mut shifted).ok();
    let points = display.bounding_box().points();
    points.map(|p| display.get_pixel(p).map(|c| (c.r(), c.g(), c.b()))).collect()
}

/// The same as `default_font_raster`, in `ibm437::IBM437_8X8_NORMAL`.
#[verifier::external_body]
fn ibm_font_raster(
    text: &str,
    position: (i32, i32),
    color: (u8, u8, u8),
    background: (u8, u8, u8),
    shift: (i32, i32),
) -> (raster: Vec<Option<(u8, u8, u8)>>)
    requires
        rasterizable(text@, position, shift),
    ensures
        raster@ == text_raster(Font::Ibm, text@, position, color, background, shift),
        raster@.len() == WINDOW_AREA,
{
    let mut style = MonoTextStyle::new(&IBM437_8X8_NORMAL, Rgb888::new(color.0, color.1, color.2));
    style.background_color = Some(Rgb888::new(background.0, background.1, background.2));
    let mut display = MockDisplay::new();
    display.set_allow_out_of_bounds_drawing(true);
    display.set_allow_overdraw(true);
    let mut shifted = display.translated(Point::new(shift.0, shift.1));
    Text::new(text, Point::new(position.0, position.1), style).draw(&mut shifted).ok();
    let points = display.bounding_box().points();
    points.map(|p| display.get_pixel(p).map(|c| (c.r(), c.g(), c.b()))).collect()
}

/// Number of windows that cover a length of pixels.
pub open spec fn windows_over(length: int) -> int {
    (length + WINDOW - 1) / (WINDOW as int)
}

impl RowDrawView {
    /// The text is not too long and starts within reach of the rasterizer.
    /// A text that is out of reach is not drawn.
    pub open spec fn in_reach(self) -> bool {
        &&& self.text.len() <= MAX_TEXT_LENGTH
        &&& -TEXT_REACH + TEXT_MARGIN <= self.x <= TEXT_REACH
        &&& -TEXT_REACH + TEXT_MARGIN <= self.y <= TEXT_REACH
    }

    /// What the window at `window` shows of the text, which is drawn on the
    /// background colour.
    pub open spec fn raster(self, window: (i32, i32)) -> Seq<Option<(u8, u8, u8)>> {
        text_raster(
            self.style.font,
            self.text,
            (self.x as i32, self.y as i32),
            self.style.color,
            background(),
            ((-window.0) as i32, (-window.1) as i32),
        )
    }
}

impl PanelView {
    /// The panel after the first `n` pixels of a window were copied to it:
    /// every pixel that the window gives a colour is drawn in that colour,
    /// every other pixel is left alone.
    pub open spec fn stamped(
        self,
        raster: Seq<Option<(u8, u8, u8)>>,
        window: (i32, i32),
        n: int,
        stripe: bool,
    ) -> PanelView
        decreases n,
    {
        if n <= 0 {
            self
        } else {
            let before = self.stamped(raster, window, n - 1, stripe);
            match raster[n - 1] {
                Some(color) => before.painted(
                    (
                        (window.0 + (n - 1) % (WINDOW as int)) as i32,
                        (window.1 + (n - 1) / (WINDOW as int)) as i32,
                        color.0,
                        color.1,
                        color.2,
                    ),
                    stripe,
                ),
                None => before,
            }
        }
    }

    /// The panel after the first `n` windows of a band were drawn. A band is
    /// a row of windows side by side; `top` is its upper edge.
    pub open spec fn lettered_band(
        self,
        draw: RowDrawView,
        top: int,
        n: int,
        stripe: bool,
    ) -> PanelView
        decreases n,
    {
        if n <= 0 {
            self
        } else {
            let window = (((n - 1) * WINDOW) as i32, top as i32);
            self.lettered_band(draw, top, n - 1, stripe).stamped(
                draw.raster(window),
                window,
                WINDOW_AREA as int,
                stripe,
            )
        }
    }

    /// The panel after the first `n` bands of windows were drawn, each over
    /// the whole width of the image.
    pub open spec fn lettered_bands(self, draw: RowDrawView, n: int, stripe: bool) -> PanelView
        decreases n,
    {
        if n <= 0 {
            self
        } else {
            self.lettered_bands(draw, n - 1, stripe).lettered_band(
                draw,
                (n - 1) * WINDOW,
                windows_over(self.width(stripe)),
                stripe,
            )
        }
    }

    /// The panel after a text was drawn on it: the windows that cover the
    /// image are drawn band by band from the top, and within a band from the
    /// left. A text that is out of reach changes nothing.
    pub open spec fn lettered(self, draw: RowDrawView, stripe: bool) -> PanelView {
        if draw.in_reach() {
            self.lettered_bands(draw, windows_over(self.height(stripe)), stripe)
        } else {
            self
        }
    }

    /// The panel after the first `n` of the given texts were drawn in order.
    pub open spec fn lettered_all(self, draws: Seq<RowDrawView>, n: int, stripe: bool) -> PanelView
        decreases n,
    {
        if n <= 0 {
            self
        } else {
            self.lettered_all(draws, n - 1, stripe).lettered(draws[n - 1], stripe)
        }
    }
}

/// Rasterizes a text in its font.
fn rasterize(draw: &RowDraw, window: (i32, i32)) -> (raster: Vec<Option<(u8, u8, u8)>>)
    requires
        draw@.in_reach(),
        0 <= window.0 <= TEXT_REACH,
        0 <= window.1 <= TEXT_REACH,
    ensures
        raster@ == draw@.raster(window),
        raster@.len() == WINDOW_AREA,
{
    let text = draw.text.as_str();
    let position = (draw.x, draw.y);
    let shift: (i32, i32) = (-window.0, -window.1);
    match draw.style.font {
        Font::Default => default_font_raster(text, position, draw.style.color, (0, 0, 0), shift),
        Font::ProFont => profont_raster(text, position, draw.style.color, (0, 0, 0), shift),
        Font::Ibm => ibm_font_raster(text, position, draw.style.color, (0, 0, 0), shift),
    }
}

impl<const ROW_LENGTH: usize, const ROWS: usize, const STRIPE: bool> Hub75<
    ROW_LENGTH,
    ROWS,
    STRIPE,
> {
    /// Copies what a window shows to the panel.
    fn stamp(&mut self, raster: &Vec<Option<(u8, u8, u8)>>, window: (i32, i32))
        requires
            old(self).wf(),
            raster@.len() == WINDOW_AREA,
            0 <= window.0 <= TEXT_REACH,
            0 <= window.1 <= TEXT_REACH,
        ensures
            final(self).wf(),
            final(self).pin_masks() == old(self).pin_masks(),
            final(self)@ == old(self)@.stamped(raster@, window, WINDOW_AREA as int, STRIPE),
    {
        let mut k: usize = 0;
        while k < WINDOW_AREA
            invariant
                0 <= k <= WINDOW_AREA,
                raster@.len() == WINDOW_AREA,
                0 <= window.0 <= TEXT_REACH,
                0 <= window.1 <= TEXT_REACH,
                self.wf(),
                self.pin_masks() == old(self).pin_masks(),
                self@ == old(self)@.stamped(raster@, window, k as int, STRIPE),
            decreases WINDOW_AREA - k,
        {
            match raster[k] {
                Some(color) => {
                    let x: i32 = window.0 + (k % WINDOW) as i32;
                    let y: i32 = window.1 + (k / WINDOW) as i32;
                    self.draw_pixel(x, y, color);
                },
                None => {},
            }
            k = k + 1;
        }
    }

    /// Draws a text on the panel, with its glyphs as embedded-graphics
    /// rasterizes them. What reaches beyond the image is discarded.
    pub fn draw_text(&mut self, draw: &RowDraw)
        requires
            old(self).wf(),
        ensures
            final(self).wf(),
            final(self).pin_masks() == old(self).pin_masks(),
            final(self)@ == old(self)@.lettered(draw@, STRIPE),
    {
        if draw.text.as_str().unicode_len() > MAX_TEXT_LENGTH || draw.x < -TEXT_REACH
            + TEXT_MARGIN || draw.x > TEXT_REACH || draw.y < -TEXT_REACH + TEXT_MARGIN || draw.y
            > TEXT_REACH {
            return ;
        }
        let (width, height) = self.size();
        let width: i32 = width as i32;
        let height: i32 = height as i32;
        let mut top: i32 = 0;
        while top < height
            invariant
                0 <= top <= height + WINDOW - 1,
                top as int % (WINDOW as int) == 0,
                0 <= width <= 0x4000_0000,
                0 <= height <= 0x4000_0000,
                width == old(self)@.width(STRIPE),
                height == old(self)@.height(STRIPE),
                draw@.in_reach(),
                self.wf(),
                self.pin_masks() == old(self).pin_masks(),
                self@ == old(self)@.lettered_bands(draw@, top as int / (WINDOW as int), STRIPE),
            decreases height + WINDOW - top,
        {
            let ghost before = self@;
            let mut left: i32 = 0;
            while left < width
                invariant
                    0 <= left <= width + WINDOW - 1,
                    left as int % (WINDOW as int) == 0,
                    0 <= top < height,
                    0 <= width <= 0x4000_0000,
                    0 <= height <= 0x4000_0000,
                    draw@.in_reach(),
                    self.wf(),
                    self.pin_masks() == old(self).pin_masks(),
                    self@ == before.lettered_band(
                        draw@,
                        top as int,
                        left as int / (WINDOW as int),
                        STRIPE,
                    ),
                decreases width + WINDOW - left,
            {
                let raster = rasterize(draw, (left, top));
                self.stamp(&raster, (left, top));
                left = left + WINDOW as i32;
            }
            assert(left as int / (WINDOW as int) == windows_over(width as int));
            top = top + WINDOW as i32;
        }
        assert(top as int / (WINDOW as int) == windows_over(height as int));
    }

    /// Draws the given texts on the panel in order.
    pub fn draw_texts(&mut self, draws: &Vec<RowDraw>)
        requires
            old(self).wf(),
        ensures
            final(self).wf(),
            final(self).pin_masks() == old(self).pin_masks(),
            final(self)@ == old(self)@.lettered_all(
                draws@.map_values(|draw: RowDraw| draw@),
                draws@.len() as int,
                STRIPE,
            ),
    {
        let ghost views = draws@.map_values(|draw: RowDraw| draw@);
        let mut i: usize = 0;
        while i < draws.len()
            invariant
                0 <= i <= draws@.len(),
                views == draws@.map_values(|draw: RowDraw| draw@),
                self.wf(),
                self.pin_masks() == old(self).pin_masks(),
                self@ == old(self)@.lettered_all(views, i as int, STRIPE),
            decreases draws@.len() - i,
        {
            self.draw_text(&draws[i]);
            i = i + 1;
        }
    }
}

} // verus!
