//! The panel buffer of a HUB75 LED matrix: one cell for every column of every
//! addressable row, holding the gamma-corrected colour of the two physical
//! rows that are driven together.

use crate::gamma::{gamma, gamma_spec, is_gamma_value, lemma_zero_is_gamma_value};
use vstd::prelude::*;

pub mod scan;

verus! {

/// Bit positions of the twelve HUB75 signals within the 16-bit output port.
#[derive(Debug, Clone, Copy, PartialEq, Eq)]
pub struct Pins {
    pub r1: u16,
    pub g1: u16,
    pub b1: u16,
    pub r2: u16,
    pub g2: u16,
    pub b2: u16,
    pub a: u16,
    pub b: u16,
    pub c: u16,
    pub clock: u16,
    pub latch: u16,
    pub oe: u16,
}

impl Pins {
    /// The twelve entries in a fixed order.
    pub open spec fn entries(self) -> Seq<u16> {
        seq![
            self.r1,
            self.g1,
            self.b1,
            self.r2,
            self.g2,
            self.b2,
            self.a,
            self.b,
            self.c,
            self.clock,
            self.latch,
            self.oe,
        ]
    }

    /// A pin map is valid when every position lies within the 16-bit port and
    /// no two signals share a position.
    pub open spec fn valid(self) -> bool {
        &&& forall|i: int| 0 <= i < 12 ==> (#[trigger] self.entries()[i]) <= 15
        &&& forall|i: int, j: int|
            0 <= i < j < 12 ==> (#[trigger] self.entries()[i]) != (#[trigger] self.entries()[j])
    }

    /// The single-bit mask of every signal.
    pub open spec fn masks_spec(self) -> Pins {
        Pins {
            r1: 1u16 << self.r1,
            g1: 1u16 << self.g1,
            b1: 1u16 << self.b1,
            r2: 1u16 << self.r2,
            g2: 1u16 << self.g2,
            b2: 1u16 << self.b2,
            a: 1u16 << self.a,
            b: 1u16 << self.b,
            c: 1u16 << self.c,
            clock: 1u16 << self.clock,
            latch: 1u16 << self.latch,
            oe: 1u16 << self.oe,
        }
    }

    /// Tells whether the pin map is valid.
    pub fn is_valid(&self) -> (ok: bool)
        ensures
            ok == self.valid(),
    {
        let entries: [u16; 12] = [
            self.r1,
            self.g1,
            self.b1,
            self.r2,
            self.g2,
            self.b2,
            self.a,
            self.b,
            self.c,
            self.clock,
            self.latch,
            self.oe,
        ];
        assert(entries@ =~= self.entries());
        let mut i: usize = 0;
        while i < 12
            invariant
                0 <= i <= 12,
                entries@ == self.entries(),
                forall|k: int| 0 <= k < i ==> (#[trigger] self.entries()[k]) <= 15,
                forall|k: int, l: int|
                    0 <= k < l < 12 && k < i ==> (#[trigger] self.entries()[k]) != (
                    #[trigger] self.entries()[l]),
            decreases 12 - i,
        {
            if entries[i] > 15 {
                return false;
            }
            let mut j: usize = i + 1;
            while j < 12
                invariant
                    0 <= i < j <= 12,
                    entries@ == self.entries(),
                    forall|l: int|
                        i < l < j ==> self.entries()[i as int] != (#[trigger] self.entries()[l]),
                decreases 12 - j,
            {
                if entries[i] == entries[j] {
                    return false;
                }
                j = j + 1;
            }
            i = i + 1;
        }
        true
    }

    /// Turns bit positions into single-bit masks.
    pub fn masks(&self) -> (masks: Pins)
        requires
            self.valid(),
        ensures
            masks == self.masks_spec(),
    {
        proof {
            let e = self.entries();
            assert(e[0] <= 15 && e[1] <= 15 && e[2] <= 15 && e[3] <= 15 && e[4] <= 15 && e[5]
                <= 15 && e[6] <= 15 && e[7] <= 15 && e[8] <= 15 && e[9] <= 15 && e[10] <= 15
                && e[11] <= 15);
        }
        Pins {
            r1: 1u16 << self.r1,
            g1: 1u16 << self.g1,
            b1: 1u16 << self.b1,
            r2: 1u16 << self.r2,
            g2: 1u16 << self.g2,
            b2: 1u16 << self.b2,
            a: 1u16 << self.a,
            b: 1u16 << self.b,
            c: 1u16 << self.c,
            clock: 1u16 << self.clock,
            latch: 1u16 << self.latch,
            oe: 1u16 << self.oe,
        }
    }
}

/// One cell of the panel buffer: the colour of a pixel in the upper half of
/// the panel (`r1`, `g1`, `b1`) and of the pixel below it in the lower half.
#[derive(Debug, Clone, Copy, PartialEq, Eq)]
pub struct PixelCell {
    pub r1: u8,
    pub g1: u8,
    pub b1: u8,
    pub r2: u8,
    pub g2: u8,
    pub b2: u8,
}

impl PixelCell {
    /// Every channel holds a value of the gamma curve.
    pub open spec fn corrected(self) -> bool {
        &&& is_gamma_value(self.r1)
        &&& is_gamma_value(self.g1)
        &&& is_gamma_value(self.b1)
        &&& is_gamma_value(self.r2)
        &&& is_gamma_value(self.g2)
        &&& is_gamma_value(self.b2)
    }

    /// The cell with all channels off.
    pub open spec fn dark() -> PixelCell {
        PixelCell { r1: 0, g1: 0, b1: 0, r2: 0, g2: 0, b2: 0 }
    }

    /// The cell whose two pixels both have the corrected colour.
    pub open spec fn filled(color: (u8, u8, u8)) -> PixelCell {
        PixelCell {
            r1: gamma_spec(color.0 as int),
            g1: gamma_spec(color.1 as int),
            b1: gamma_spec(color.2 as int),
            r2: gamma_spec(color.0 as int),
            g2: gamma_spec(color.1 as int),
            b2: gamma_spec(color.2 as int),
        }
    }

    /// The cell after one of its two pixels was given the corrected colour.
    pub open spec fn painted(self, lower: bool, color: (u8, u8, u8)) -> PixelCell {
        if lower {
            PixelCell {
                r2: gamma_spec(color.0 as int),
                g2: gamma_spec(color.1 as int),
                b2: gamma_spec(color.2 as int),
                ..self
            }
        } else {
            PixelCell {
                r1: gamma_spec(color.0 as int),
                g1: gamma_spec(color.1 as int),
                b1: gamma_spec(color.2 as int),
                ..self
            }
        }
    }
}

/// A pixel to draw: column, row, and the raw red, green and blue intensity.
pub type Dot = (i32, i32, u8, u8, u8);

/// Mathematical model of the panel: the buffer as rows of cells, and the
/// positions of the signals.
pub struct PanelView {
    pub cells: Seq<Seq<PixelCell>>,
    pub pins: Pins,
}

/// Where a pixel is kept in the buffer.
pub struct CellPlace {
    pub row: int,
    pub column: int,
    /// Whether the pixel is the lower one of the cell.
    pub lower: bool,
}

/// Width in pixels of the image on a panel whose buffer rows hold
/// `row_length` cells. With stripe multiplexing two stripes share a buffer
/// row, so the image is half as wide.
pub open spec fn image_width(row_length: int, stripe: bool) -> int {
    if stripe {
        row_length / 2
    } else {
        row_length
    }
}

/// Height in pixels of the image on a panel with `rows` addressable rows:
/// every addressable row drives two physical rows, or four with stripe
/// multiplexing.
pub open spec fn image_height(rows: int, stripe: bool) -> int {
    if stripe {
        4 * rows
    } else {
        2 * rows
    }
}

/// The place of pixel `(x, y)` in a buffer of `rows` addressable rows.
///
/// Without stripe multiplexing the column is `x`, and the lower half of the
/// image shares the buffer rows of the upper half. With it, every block of 32
/// columns takes 64 cells of the buffer row, the first 32 of them for the
/// stripe that lies in the upper half of each group of `2 * rows` rows.
pub open spec fn cell_place(x: int, y: int, rows: int, stripe: bool) -> CellPlace {
    if stripe {
        let top_stripe = y % (2 * rows) < rows;
        CellPlace {
            row: y % rows,
            column: x + (x / 32) * 32 + if top_stripe {
                32int
            } else {
                0int
            },
            lower: y >= 2 * rows,
        }
    } else {
        CellPlace { row: y % rows, column: x, lower: y >= rows }
    }
}

impl PanelView {
    /// The buffer has `rows` rows of `row_length` cells.
    pub open spec fn shaped(self, row_length: int, rows: int) -> bool {
        &&& self.cells.len() == rows
        &&& forall|r: int| 0 <= r < rows ==> (#[trigger] self.cells[r]).len() == row_length
    }

    /// Every channel of every cell holds a value of the gamma curve.
    pub open spec fn corrected(self) -> bool {
        forall|r: int, c: int|
            0 <= r < self.cells.len() && 0 <= c < self.cells[r].len() ==> (
            #[trigger] self.cells[r][c]).corrected()
    }

    /// Width of the image in pixels.
    pub open spec fn width(self, stripe: bool) -> int {
        image_width(
            if self.cells.len() > 0 {
                self.cells[0].len() as int
            } else {
                0
            },
            stripe,
        )
    }

    /// Height of the image in pixels.
    pub open spec fn height(self, stripe: bool) -> int {
        image_height(self.cells.len() as int, stripe)
    }

    /// The panel after pixel `(x, y)` was drawn: a pixel inside the image
    /// changes its three channels in its cell, a pixel outside changes nothing.
    pub open spec fn painted(self, dot: Dot, stripe: bool) -> PanelView {
        let (x, y, r, g, b) = dot;
        if 0 <= x < self.width(stripe) && 0 <= y < self.height(stripe) {
            let place = cell_place(x as int, y as int, self.cells.len() as int, stripe);
            PanelView {
                cells: self.cells.update(
                    place.row,
                    self.cells[place.row].update(
                        place.column,
                        self.cells[place.row][place.column].painted(place.lower, (r, g, b)),
                    ),
                ),
                ..self
            }
        } else {
            self
        }
    }

    /// The panel after the first `n` of the given pixels were drawn in order.
    pub open spec fn painted_prefix(self, dots: Seq<Dot>, n: int, stripe: bool) -> PanelView
        decreases n,
    {
        if n <= 0 {
            self
        } else {
            self.painted_prefix(dots, n - 1, stripe).painted(dots[n - 1], stripe)
        }
    }

    /// The panel after all the given pixels were drawn in order.
    pub open spec fn painted_all(self, dots: Seq<Dot>, stripe: bool) -> PanelView {
        self.painted_prefix(dots, dots.len() as int, stripe)
    }

    /// The panel with every cell set to the same value.
    pub open spec fn flooded(self, cell: PixelCell) -> PanelView {
        PanelView {
            cells: Seq::new(
                self.cells.len(),
                |r: int| Seq::new(self.cells[r].len(), |c: int| cell),
            ),
            ..self
        }
    }
}

/// Largest number of cells in a buffer row.
pub const MAX_ROW_LENGTH: usize = 0x4000_0000;

/// Largest number of addressable rows.
pub const MAX_ROWS: usize = 0x1000_0000;

/// The buffer dimensions that a panel can be made with: at least one
/// addressable row, sizes that fit the coordinate type, and with stripe
/// multiplexing a row length that is made of whole blocks of 64 cells.
pub open spec fn geometry_ok(row_length: int, rows: int, stripe: bool) -> bool {
    &&& 0 <= row_length <= MAX_ROW_LENGTH
    &&& 0 < rows <= MAX_ROWS
    &&& stripe ==> row_length % 64 == 0
}

/// Driver state of a HUB75 panel with `ROWS` addressable rows of `ROW_LENGTH`
/// cells each. `STRIPE` selects stripe multiplexing, the wiring of 1/8-drive
/// panels.
pub struct Hub75<const ROW_LENGTH: usize, const ROWS: usize, const STRIPE: bool> {
    data: [[PixelCell; ROW_LENGTH]; ROWS],
    pins: Pins,
    masks: Pins,
}

impl<const ROW_LENGTH: usize, const ROWS: usize, const STRIPE: bool> View for Hub75<
    ROW_LENGTH,
    ROWS,
    STRIPE,
> {
    type V = PanelView;

    closed spec fn view(&self) -> PanelView {
        PanelView { cells: Seq::new(ROWS as nat, |r: int| self.data@[r]@), pins: self.pins }
    }
}

impl<const ROW_LENGTH: usize, const ROWS: usize, const STRIPE: bool> Hub75<
    ROW_LENGTH,
    ROWS,
    STRIPE,
> {
    /// The masks that the scan sequence is composed with.
    pub closed spec fn pin_masks(&self) -> Pins {
        self.masks
    }

    /// The panel has a valid pin map with its masks, a buffer of the declared
    /// shape, and only gamma-corrected values in it.
    pub open spec fn wf(&self) -> bool {
        &&& self@.pins.valid()
        &&& self.pin_masks() == self@.pins.masks_spec()
        &&& geometry_ok(ROW_LENGTH as int, ROWS as int, STRIPE)
        &&& self@.shaped(ROW_LENGTH as int, ROWS as int)
        &&& self@.corrected()
    }

    /// Tells whether a panel of these dimensions can be made.
    pub fn geometry_fits() -> (ok: bool)
        ensures
            ok == geometry_ok(ROW_LENGTH as int, ROWS as int, STRIPE),
    {
        ROW_LENGTH <= MAX_ROW_LENGTH && 0 < ROWS && ROWS <= MAX_ROWS && (!STRIPE || ROW_LENGTH % 64
            == 0)
    }

    /// A dark panel with the given pin map.
    pub fn new(pins: Pins) -> (panel: Self)
        requires
            pins.valid(),
            geometry_ok(ROW_LENGTH as int, ROWS as int, STRIPE),
        ensures
            panel.wf(),
            panel@.pins == pins,
            panel@ == panel@.flooded(PixelCell::dark()),
    {
        let dark = PixelCell { r1: 0, g1: 0, b1: 0, r2: 0, g2: 0, b2: 0 };
        let panel = Hub75 { data: [[dark; ROW_LENGTH]; ROWS], pins, masks: pins.masks() };
        proof {
            lemma_zero_is_gamma_value();
            assert(panel@.cells =~~= panel@.flooded(PixelCell::dark()).cells);
        }
        panel
    }

    /// The cell at a position of the buffer, or nothing for a position that
    /// the buffer does not have.
    pub fn cell(&self, row: usize, column: usize) -> (cell: Option<PixelCell>)
        requires
            self.wf(),
        ensures
            cell == if row < ROWS && column < ROW_LENGTH {
                Some(self@.cells[row as int][column as int])
            } else {
                None
            },
    {
        if row < ROWS && column < ROW_LENGTH {
            Some(self.data[row][column])
        } else {
            None
        }
    }

    /// Dimensions of the image in pixels, width first.
    pub fn size(&self) -> (size: (u32, u32))
        requires
            self.wf(),
        ensures
            size.0 == image_width(ROW_LENGTH as int, STRIPE),
            size.1 == image_height(ROWS as int, STRIPE),
    {
        if STRIPE {
            ((ROW_LENGTH / 2) as u32, (ROWS * 4) as u32)
        } else {
            (ROW_LENGTH as u32, (ROWS * 2) as u32)
        }
    }

    /// Finds the place of a pixel in the buffer, or nothing for a pixel
    /// outside the image.
    fn locate(x: i32, y: i32) -> (place: Option<(usize, usize, bool)>)
        requires
            geometry_ok(ROW_LENGTH as int, ROWS as int, STRIPE),
        ensures
            match place {
                Some((row, column, lower)) => {
                    &&& 0 <= x < image_width(ROW_LENGTH as int, STRIPE)
                    &&& 0 <= y < image_height(ROWS as int, STRIPE)
                    &&& row < ROWS
                    &&& column < ROW_LENGTH
                    &&& cell_place(x as int, y as int, ROWS as int, STRIPE) == (CellPlace {
                        row: row as int,
                        column: column as int,
                        lower,
                    })
                },
                None => !(0 <= x < image_width(ROW_LENGTH as int, STRIPE) && 0 <= y
                    < image_height(ROWS as int, STRIPE)),
            },
    {
        if x < 0 || y < 0 {
            return None;
        }
        let column = x as usize;
        let row = y as usize;
        if STRIPE {
            if column >= ROW_LENGTH / 2 || row >= ROWS * 4 {
                return None;
            }
            let top_stripe = row % (ROWS * 2) < ROWS;
            let base = column + (column / 32) * 32;
            Some(
                (
                    row % ROWS,
                    if top_stripe {
                        base + 32
                    } else {
                        base
                    },
                    row >= ROWS * 2,
                ),
            )
        } else {
            if column >= ROW_LENGTH || row >= ROWS * 2 {
                return None;
            }
            Some((row % ROWS, column, row >= ROWS))
        }
    }

    /// Sets one pixel. The colour goes through the gamma curve before it is
    /// stored. A pixel outside the image is silently discarded.
    pub fn draw_pixel(&mut self, x: i32, y: i32, color: (u8, u8, u8))
        requires
            old(self).wf(),
        ensures
            final(self).wf(),
            final(self).pin_masks() == old(self).pin_masks(),
            final(self)@ == old(self)@.painted((x, y, color.0, color.1, color.2), STRIPE),
    {
        let (row, column, lower) = match Self::locate(x, y) {
            Some(place) => place,
            None => {
                return ;
            },
        };
        let old_cell = self.data[row][column];
        let new_cell = if lower {
            PixelCell {
                r1: old_cell.r1,
                g1: old_cell.g1,
                b1: old_cell.b1,
                r2: gamma(color.0),
                g2: gamma(color.1),
                b2: gamma(color.2),
            }
        } else {
            PixelCell {
                r1: gamma(color.0),
                g1: gamma(color.1),
                b1: gamma(color.2),
                r2: old_cell.r2,
                g2: old_cell.g2,
                b2: old_cell.b2,
            }
        };
        assert(old(self)@.cells[row as int][column as int] == old_cell);
        assert(old_cell.corrected());
        assert(new_cell == old_cell.painted(lower, color));
        self.data[row][column] = new_cell;
        proof {
            let after = old(self)@.cells.update(
                row as int,
                old(self)@.cells[row as int].update(column as int, new_cell),
            );
            assert(old(self)@.cells[0].len() == ROW_LENGTH);
            assert(self@.cells =~~= after);
        }
    }

    /// Draws the given pixels in order.
    pub fn draw_iter(&mut self, dots: &[Dot])
        requires
            old(self).wf(),
        ensures
            final(self).wf(),
            final(self).pin_masks() == old(self).pin_masks(),
            final(self)@ == old(self)@.painted_all(dots@, STRIPE),
    {
        let mut i: usize = 0;
        while i < dots.len()
            invariant
                0 <= i <= dots@.len(),
                self.wf(),
                self.pin_masks() == old(self).pin_masks(),
                self@ == old(self)@.painted_prefix(dots@, i as int, STRIPE),
            decreases dots@.len() - i,
        {
            let (x, y, r, g, b) = dots[i];
            self.draw_pixel(x, y, (r, g, b));
            i = i + 1;
        }
    }

    /// Sets every cell of the buffer to the same value.
    fn flood(&mut self, cell: PixelCell)
        requires
            old(self).wf(),
            cell.corrected(),
        ensures
            final(self).wf(),
            final(self).pin_masks() == old(self).pin_masks(),
            final(self)@ == old(self)@.flooded(cell),
    {
        let mut row: usize = 0;
        while row < ROWS
            invariant
                0 <= row <= ROWS,
                cell.corrected(),
                self@.pins == old(self)@.pins,
                self.pin_masks() == old(self).pin_masks(),
                old(self).wf(),
                self@.shaped(ROW_LENGTH as int, ROWS as int),
                forall|r: int, c: int|
                    0 <= r < row && 0 <= c < ROW_LENGTH ==> (#[trigger] self@.cells[r][c]) == cell,
                forall|r: int, c: int|
                    row <= r < ROWS && 0 <= c < ROW_LENGTH ==> (#[trigger] self@.cells[r][c])
                        == old(self)@.cells[r][c],
            decreases ROWS - row,
        {
            let mut column: usize = 0;
            while column < ROW_LENGTH
                invariant
                    0 <= row < ROWS,
                    0 <= column <= ROW_LENGTH,
                    cell.corrected(),
                    self@.pins == old(self)@.pins,
                    self.pin_masks() == old(self).pin_masks(),
                    old(self).wf(),
                    self@.shaped(ROW_LENGTH as int, ROWS as int),
                    forall|r: int, c: int|
                        0 <= r < row && 0 <= c < ROW_LENGTH ==> (#[trigger] self@.cells[r][c])
                            == cell,
                    forall|c: int|
                        0 <= c < column ==> (#[trigger] self@.cells[row as int][c]) == cell,
                    forall|c: int|
                        column <= c < ROW_LENGTH ==> (#[trigger] self@.cells[row as int][c])
                            == old(self)@.cells[row as int][c],
                    forall|r: int, c: int|
                        row < r < ROWS && 0 <= c < ROW_LENGTH ==> (#[trigger] self@.cells[r][c])
                            == old(self)@.cells[r][c],
                decreases ROW_LENGTH - column,
            {
                let ghost before = self@;
                self.data[row][column] = cell;
                assert(self@.cells =~~= before.cells.update(
                    row as int,
                    before.cells[row as int].update(column as int, cell),
                ));
                column = column + 1;
            }
            row = row + 1;
        }
        proof {
            assert(self@.cells =~~= old(self)@.flooded(cell).cells);
        }
    }

    /// Switches every pixel off.
    pub fn clear_display(&mut self)
        requires
            old(self).wf(),
        ensures
            final(self).wf(),
            final(self).pin_masks() == old(self).pin_masks(),
            final(self)@ == old(self)@.flooded(PixelCell::dark()),
    {
        proof {
            lemma_zero_is_gamma_value();
        }
        self.flood(PixelCell { r1: 0, g1: 0, b1: 0, r2: 0, g2: 0, b2: 0 });
    }

    /// Gives every pixel the same colour, which goes through the gamma curve
    /// before it is stored.
    pub fn clear(&mut self, color: (u8, u8, u8))
        requires
            old(self).wf(),
        ensures
            final(self).wf(),
            final(self).pin_masks() == old(self).pin_masks(),
            final(self)@ == old(self)@.flooded(PixelCell::filled(color)),
    {
        let r = gamma(color.0);
        let g = gamma(color.1);
        let b = gamma(color.2);
        self.flood(PixelCell { r1: r, g1: g, b1: b, r2: r, g2: g, b2: b });
    }
}

} // verus!
