//! The scan sequence: the words that have to be written to the output port,
//! in order, to show the panel buffer once. One refresh shows the buffer at 16
//! brightness thresholds in turn, which gives binary-coded brightness.

use crate::hub75::{Hub75, Pins, PixelCell};
use vstd::prelude::*;

verus! {

/// One step of the scan sequence.
#[derive(Debug, Clone, Copy, PartialEq, Eq)]
pub enum PortOp {
    /// Write the word to the output port.
    Write(u16),
    /// Wait for the given number of microseconds.
    DelayUs(u8),
}

/// The brightness thresholds of one refresh, in the order they are shown.
pub const THRESHOLDS: [u8; 16] = [
    16, 32, 48, 64, 80, 96, 112, 128, 144, 160, 176, 192, 208, 224, 240, 255,
];

/// How long the last row of a pass stays lit before the output is disabled,
/// so that it is lit as long as the rows before it.
pub const LAST_ROW_DELAY_US: u8 = 60;

/// The mask of a channel that is at least as bright as the threshold, else no bit.
pub open spec fn lit(value: u8, threshold: u8, mask: u16) -> u16 {
    if value >= threshold {
        mask
    } else {
        0
    }
}

/// The word that shifts one cell into the panel, with the clock low: the six
/// data bits of the channels that reach the threshold, the output-enable
/// bit, which is high (output disabled) if `blank`, and the row-select bits
/// `held`, which keep the row selected that was latched last.
pub open spec fn column_word(
    masks: Pins,
    cell: PixelCell,
    threshold: u8,
    blank: bool,
    held: u16,
) -> u16 {
    (if blank {
        masks.oe
    } else {
        0u16
    }) | held | lit(cell.r1, threshold, masks.r1) | lit(cell.g1, threshold, masks.g1) | lit(
        cell.b1,
        threshold,
        masks.b1,
    ) | lit(cell.r2, threshold, masks.r2) | lit(cell.g2, threshold, masks.g2) | lit(
        cell.b2,
        threshold,
        masks.b2,
    )
}

/// The row-select bits for an addressable row: its low three bits on the
/// lines A, B and C.
pub open spec fn select_bits(masks: Pins, row: usize) -> u16 {
    (if row & 1 != 0 {
        masks.a
    } else {
        0u16
    }) | (if row & 2 != 0 {
        masks.b
    } else {
        0u16
    }) | (if row & 4 != 0 {
        masks.c
    } else {
        0u16
    })
}

/// The addressable row that is latched before a given row: the row above
/// it, or the last row for the first.
pub open spec fn row_before(row: int, rows: int) -> int {
    if row <= 0 {
        rows - 1
    } else {
        row - 1
    }
}

/// First word after the columns of a row: output disabled, latch low.
pub open spec fn blanked_word(masks: Pins, last: u16) -> u16 {
    (last | masks.oe) & !masks.latch
}

/// Second word after the columns of a row: the latch goes high, which takes
/// the shifted row over into the panel's output drivers.
pub open spec fn latched_word(masks: Pins, last: u16) -> u16 {
    blanked_word(masks, last) | masks.latch
}

/// Third word after the columns of a row: the row is selected and the output
/// enabled, so that the row that was just latched is lit.
pub open spec fn shown_word(masks: Pins, last: u16, row: usize) -> u16 {
    ((latched_word(masks, last) & !(masks.a | masks.b | masks.c)) | select_bits(masks, row))
        & !masks.oe
}

/// Whether a column is shifted with the output disabled. That is so for every
/// column but the very first of a refresh.
pub open spec fn column_blank(lead: bool, column: int) -> bool {
    !(lead && column == 0)
}

/// One clock pulse that shifts a word into the panel.
pub open spec fn pulse(word: u16, clock: u16) -> Seq<PortOp> {
    seq![PortOp::Write(word | clock), PortOp::Write(word)]
}

/// The clock pulses for the first `n` cells of a buffer row, in ascending
/// order of the columns. `lead` says that the row opens a refresh.
pub open spec fn columns_ops(
    masks: Pins,
    cells: Seq<PixelCell>,
    threshold: u8,
    lead: bool,
    held: u16,
    n: int,
) -> Seq<PortOp>
    decreases n,
{
    if n <= 0 {
        Seq::empty()
    } else {
        columns_ops(masks, cells, threshold, lead, held, n - 1) + pulse(
            column_word(masks, cells[n - 1], threshold, column_blank(lead, n - 1), held),
            masks.clock,
        )
    }
}

/// The word that is on the port when the columns of a row are through: that
/// of the last column, or nothing for a row without columns.
pub open spec fn last_word(
    masks: Pins,
    cells: Seq<PixelCell>,
    threshold: u8,
    lead: bool,
    held: u16,
) -> u16 {
    if cells.len() == 0 {
        0
    } else {
        column_word(
            masks,
            cells[cells.len() - 1],
            threshold,
            column_blank(lead, cells.len() - 1),
            held,
        )
    }
}

/// The three words that latch a row and light it.
pub open spec fn latch_ops(masks: Pins, last: u16, row: usize) -> Seq<PortOp> {
    seq![
        PortOp::Write(blanked_word(masks, last)),
        PortOp::Write(latched_word(masks, last)),
        PortOp::Write(shown_word(masks, last, row)),
    ]
}

/// Everything that is written for one addressable row: its columns, then the
/// latch sequence. While the columns are shifted, the row-select lines stay
/// as `held` says.
pub open spec fn row_ops(
    masks: Pins,
    cells: Seq<PixelCell>,
    threshold: u8,
    lead: bool,
    held: u16,
    row: usize,
) -> Seq<PortOp> {
    columns_ops(masks, cells, threshold, lead, held, cells.len() as int) + latch_ops(
        masks,
        last_word(masks, cells, threshold, lead, held),
        row,
    )
}

/// The row-select bits that are held while a row is shifted in: those of the
/// row that was latched before it.
pub open spec fn held_bits(masks: Pins, row: int, rows: int) -> u16 {
    select_bits(masks, row_before(row, rows) as usize)
}

/// Everything that is written for the first `n` addressable rows of a pass,
/// in ascending order of the rows. `opening` says that the pass opens a refresh.
pub open spec fn rows_ops(
    masks: Pins,
    cells: Seq<Seq<PixelCell>>,
    threshold: u8,
    opening: bool,
    n: int,
) -> Seq<PortOp>
    decreases n,
{
    if n <= 0 {
        Seq::empty()
    } else {
        rows_ops(masks, cells, threshold, opening, n - 1) + row_ops(
            masks,
            cells[n - 1],
            threshold,
            opening && n - 1 == 0,
            held_bits(masks, n - 1, cells.len() as int),
            (n - 1) as usize,
        )
    }
}

/// The word that lights a row, which ends the latch sequence of the row.
pub open spec fn row_shown(
    masks: Pins,
    cells: Seq<Seq<PixelCell>>,
    threshold: u8,
    opening: bool,
    row: int,
) -> u16 {
    shown_word(
        masks,
        last_word(
            masks,
            cells[row],
            threshold,
            opening && row == 0,
            held_bits(masks, row, cells.len() as int),
        ),
        row as usize,
    )
}

/// The word that ends a pass: the last word written, with the output disabled.
pub open spec fn park_word(
    masks: Pins,
    cells: Seq<Seq<PixelCell>>,
    threshold: u8,
    opening: bool,
) -> u16 {
    if cells.len() == 0 {
        masks.oe
    } else {
        row_shown(masks, cells, threshold, opening, cells.len() - 1) | masks.oe
    }
}

/// One pass over the panel at one brightness threshold: all rows, then a
/// pause with the last row still lit, then the output is disabled.
pub open spec fn pass_ops(
    masks: Pins,
    cells: Seq<Seq<PixelCell>>,
    threshold: u8,
    opening: bool,
) -> Seq<PortOp> {
    rows_ops(masks, cells, threshold, opening, cells.len() as int) + seq![
        PortOp::DelayUs(LAST_ROW_DELAY_US),
        PortOp::Write(park_word(masks, cells, threshold, opening)),
    ]
}

/// The first `n` passes of a refresh.
pub open spec fn refresh_ops(masks: Pins, cells: Seq<Seq<PixelCell>>, n: int) -> Seq<PortOp>
    decreases n,
{
    if n <= 0 {
        Seq::empty()
    } else {
        refresh_ops(masks, cells, n - 1) + pass_ops(masks, cells, THRESHOLDS@[n - 1], n - 1 == 0)
    }
}

/// Composes the word that shifts one cell into the panel.
fn compose_word(masks: &Pins, cell: PixelCell, threshold: u8, blank: bool, held: u16) -> (word:
    u16)
    ensures
        word == column_word(*masks, cell, threshold, blank, held),
{
    (if blank {
        masks.oe
    } else {
        0u16
    }) | held | (if cell.r1 >= threshold {
        masks.r1
    } else {
        0u16
    }) | (if cell.g1 >= threshold {
        masks.g1
    } else {
        0u16
    }) | (if cell.b1 >= threshold {
        masks.b1
    } else {
        0u16
    }) | (if cell.r2 >= threshold {
        masks.r2
    } else {
        0u16
    }) | (if cell.g2 >= threshold {
        masks.g2
    } else {
        0u16
    }) | (if cell.b2 >= threshold {
        masks.b2
    } else {
        0u16
    })
}

/// Composes the row-select bits of an addressable row.
fn compose_select(masks: &Pins, row: usize) -> (bits: u16)
    ensures
        bits == select_bits(*masks, row),
{
    (if row & 1 != 0 {
        masks.a
    } else {
        0u16
    }) | (if row & 2 != 0 {
        masks.b
    } else {
        0u16
    }) | (if row & 4 != 0 {
        masks.c
    } else {
        0u16
    })
}

impl<const ROW_LENGTH: usize, const ROWS: usize, const STRIPE: bool> Hub75<
    ROW_LENGTH,
    ROWS,
    STRIPE,
> {
    /// Appends the scan sequence of one addressable row, and returns the last
    /// word of it, which lights the row.
    fn scan_row(
        &self,
        ops: &mut Vec<PortOp>,
        row: usize,
        brightness: u8,
        lead: bool,
        held: u16,
    ) -> (shown: u16)
        requires
            self.wf(),
            row < ROWS,
        ensures
            final(ops)@ == old(ops)@ + row_ops(
                self.pin_masks(),
                self@.cells[row as int],
                brightness,
                lead,
                held,
                row,
            ),
            shown == shown_word(
                self.pin_masks(),
                last_word(self.pin_masks(), self@.cells[row as int], brightness, lead, held),
                row,
            ),
    {
        let masks = self.masks;
        let row_cells: &[PixelCell; ROW_LENGTH] = &self.data[row];
        let ghost cells = row_cells@;
        assert(cells == self@.cells[row as int]);
        let ghost before = ops@;
        let mut last: u16 = 0;
        let mut column: usize = 0;
        while column < ROW_LENGTH
            invariant
                0 <= column <= ROW_LENGTH,
                cells == row_cells@,
                cells.len() == ROW_LENGTH,
                ops@ == before + columns_ops(
                    masks,
                    cells,
                    brightness,
                    lead,
                    held,
                    column as int,
                ),
                last == last_word(
                    masks,
                    cells.subrange(0, column as int),
                    brightness,
                    lead,
                    held,
                ),
            decreases ROW_LENGTH - column,
        {
            let cell = row_cells[column];
            last = compose_word(&masks, cell, brightness, !(lead && column == 0), held);
            let ghost shifted = ops@;
            ops.push(PortOp::Write(last | masks.clock));
            ops.push(PortOp::Write(last));
            assert(ops@ =~= shifted + pulse(last, masks.clock));
            column = column + 1;
            assert(cells.subrange(0, column as int)[column - 1] == cell);
        }
        assert(cells.subrange(0, ROW_LENGTH as int) =~= cells);
        let blanked = (last | masks.oe) & !masks.latch;
        let latched = blanked | masks.latch;
        let select = compose_select(&masks, row);
        let shown = ((latched & !(masks.a | masks.b | masks.c)) | select) & !masks.oe;
        let ghost shifted = ops@;
        ops.push(PortOp::Write(blanked));
        ops.push(PortOp::Write(latched));
        ops.push(PortOp::Write(shown));
        assert(ops@ =~= shifted + latch_ops(self.pin_masks(), last, row));
        shown
    }

    /// The scan sequence of one pass at the given brightness threshold. A cell
    /// channel lights its pixel in this pass if its value reaches the
    /// threshold. `opening` says that the pass is the first of a refresh.
    ///
    /// For every addressable row in ascending order, every column in
    /// ascending order is shifted in by one clock pulse, with the output
    /// disabled (but for the very first column of a refresh) and the row
    /// still selected that was latched last; then the output is disabled and
    /// the latch pulled low, the latch is raised, and the row is selected
    /// with the output enabled. After the last row comes a pause, and then
    /// the output is disabled.
    pub fn output_single(&self, brightness: u8, opening: bool) -> (ops: Vec<PortOp>)
        requires
            self.wf(),
        ensures
            ops@ == pass_ops(self.pin_masks(), self@.cells, brightness, opening),
    {
        let mut ops: Vec<PortOp> = Vec::new();
        let mut word: u16 = 0;
        let mut held: u16 = compose_select(&self.masks, ROWS - 1);
        let mut row: usize = 0;
        while row < ROWS
            invariant
                0 <= row <= ROWS,
                self.wf(),
                ops@ == rows_ops(self.pin_masks(), self@.cells, brightness, opening, row as int),
                row < ROWS ==> held == held_bits(self.pin_masks(), row as int, ROWS as int),
                row > 0 ==> word == row_shown(
                    self.pin_masks(),
                    self@.cells,
                    brightness,
                    opening,
                    row - 1,
                ),
            decreases ROWS - row,
        {
            word = self.scan_row(&mut ops, row, brightness, opening && row == 0, held);
            held = compose_select(&self.masks, row);
            row = row + 1;
        }
        ops.push(PortOp::DelayUs(LAST_ROW_DELAY_US));
        ops.push(PortOp::Write(word | self.masks.oe));
        assert(ops@ =~= pass_ops(self.pin_masks(), self@.cells, brightness, opening));
        ops
    }

    /// The scan sequence of one full refresh: sixteen passes, at the
    /// thresholds 16, 32, ... 240 and 255.
    pub fn output(&self) -> (ops: Vec<PortOp>)
        requires
            self.wf(),
        ensures
            ops@ == refresh_ops(self.pin_masks(), self@.cells, 16),
    {
        let mut ops: Vec<PortOp> = Vec::new();
        let mut pass: usize = 0;
        while pass < 16
            invariant
                0 <= pass <= 16,
                self.wf(),
                ops@ == refresh_ops(self.pin_masks(), self@.cells, pass as int),
            decreases 16 - pass,
        {
            let mut single = self.output_single(THRESHOLDS[pass], pass == 0);
            let ghost before = ops@;
            ops.append(&mut single);
            assert(ops@ =~= before + pass_ops(
                self.pin_masks(),
                self@.cells,
                THRESHOLDS@[pass as int],
                pass == 0,
            ));
            pass = pass + 1;
        }
        ops
    }
}

/// The level of a signal after a step, given its level before: a write sets
/// it, a pause keeps it.
pub open spec fn level_after(op: PortOp, mask: u16, before: bool) -> bool {
    match op {
        PortOp::Write(word) => word & mask != 0,
        PortOp::DelayUs(_) => before,
    }
}

/// The level of a signal after a sequence of steps that starts at level `start`.
pub open spec fn final_level(ops: Seq<PortOp>, mask: u16, start: bool) -> bool
    decreases ops.len(),
{
    if ops.len() == 0 {
        start
    } else {
        level_after(ops.last(), mask, final_level(ops.drop_last(), mask, start))
    }
}

/// How often a signal goes from low to high in a sequence of steps that
/// starts at level `start`.
pub open spec fn rising_edges(ops: Seq<PortOp>, mask: u16, start: bool) -> nat
    decreases ops.len(),
{
    if ops.len() == 0 {
        0
    } else {
        let before = final_level(ops.drop_last(), mask, start);
        rising_edges(ops.drop_last(), mask, start) + if !before && level_after(
            ops.last(),
            mask,
            before,
        ) {
            1nat
        } else {
            0nat
        }
    }
}

/// Levels and edges of two sequences one after the other.
pub proof fn lemma_edges_concat(a: Seq<PortOp>, b: Seq<PortOp>, mask: u16, start: bool)
    ensures
        final_level(a + b, mask, start) == final_level(b, mask, final_level(a, mask, start)),
        rising_edges(a + b, mask, start) == rising_edges(a, mask, start) + rising_edges(
            b,
            mask,
            final_level(a, mask, start),
        ),
    decreases b.len(),
{
    if b.len() == 0 {
        assert(a + b =~= a);
    } else {
        lemma_edges_concat(a, b.drop_last(), mask, start);
        assert((a + b).drop_last() =~= a + b.drop_last());
        assert((a + b).last() == b.last());
    }
}

proof fn lemma_distinct_bits(a: u16, b: u16)
    by (bit_vector)
    requires
        a <= 15,
        b <= 15,
        a != b,
    ensures
        (1u16 << a) & (1u16 << b) == 0,
        (1u16 << a) != 0,
{
}

proof fn lemma_or_clear(x: u16, y: u16, m: u16)
    by (bit_vector)
    requires
        x & m == 0,
        y & m == 0,
    ensures
        (x | y) & m == 0,
{
}

proof fn lemma_and_clear(x: u16, y: u16, m: u16)
    by (bit_vector)
    requires
        x & m == 0,
    ensures
        (x & y) & m == 0,
{
}

proof fn lemma_or_set(x: u16, m: u16)
    by (bit_vector)
    requires
        m != 0,
    ensures
        (x | m) & m != 0,
        (x & !m) & m == 0,
        0u16 & m == 0,
{
}

proof fn lemma_keep_set(x: u16, y: u16, z: u16, m: u16)
    by (bit_vector)
    requires
        x & m != 0,
        y & m == 0,
    ensures
        (x & !y) & m != 0,
        (x | z) & m != 0,
{
}

/// No mask is empty, and no two masks have a bit in common.
pub open spec fn apart(masks: Pins) -> bool {
    &&& forall|i: int, j: int|
        0 <= i < 12 && 0 <= j < 12 && i != j ==> (#[trigger] masks.entries()[i]) & (
        #[trigger] masks.entries()[j]) == 0
    &&& forall|i: int| 0 <= i < 12 ==> (#[trigger] masks.entries()[i]) != 0
}

/// The masks of a valid pin map are single bits, no two of them the same.
pub proof fn lemma_masks_apart(pins: Pins)
    requires
        pins.valid(),
    ensures
        apart(pins.masks_spec()),
{
    let e = pins.entries();
    let m = pins.masks_spec().entries();
    assert forall|i: int| 0 <= i < 12 implies (#[trigger] m[i]) == 1u16 << e[i] by {}
    assert forall|i: int, j: int| 0 <= i < 12 && 0 <= j < 12 && i != j implies (#[trigger] m[i])
        & (#[trigger] m[j]) == 0 by {
        assert(e[i] <= 15 && e[j] <= 15);
        if i < j {
            assert(e[i] != e[j]);
        } else {
            assert(e[j] != e[i]);
        }
        lemma_distinct_bits(e[i], e[j]);
        assert(m[i] == 1u16 << e[i]);
        assert(m[j] == 1u16 << e[j]);
    }
    assert forall|i: int| 0 <= i < 12 implies (#[trigger] m[i]) != 0 by {
        assert(e[i] <= 15);
        let j = if i == 0 {
            1int
        } else {
            0int
        };
        assert(e[j] <= 15);
        if i < j {
            assert(e[i] != e[j]);
        } else {
            assert(e[j] != e[i]);
        }
        lemma_distinct_bits(e[i], e[j]);
        assert(m[i] == 1u16 << e[i]);
    }
}

/// A column word drives neither the clock nor the latch (entries 9 and 10 of
/// the pin map), if the row-select bits that it holds do not.
proof fn lemma_column_word_clear(
    masks: Pins,
    cell: PixelCell,
    threshold: u8,
    blank: bool,
    held: u16,
    k: int,
)
    requires
        apart(masks),
        9 <= k <= 10,
        held & masks.entries()[k] == 0,
    ensures
        column_word(masks, cell, threshold, blank, held) & masks.entries()[k] == 0,
{
    let e = masks.entries();
    let m = e[k];
    lemma_or_set(0, m);
    let enable = if blank {
        masks.oe
    } else {
        0u16
    };
    let red_top = lit(cell.r1, threshold, masks.r1);
    let green_top = lit(cell.g1, threshold, masks.g1);
    let blue_top = lit(cell.b1, threshold, masks.b1);
    let red_bottom = lit(cell.r2, threshold, masks.r2);
    let green_bottom = lit(cell.g2, threshold, masks.g2);
    let blue_bottom = lit(cell.b2, threshold, masks.b2);
    assert(e[11] & e[k] == 0 && e[0] & e[k] == 0 && e[1] & e[k] == 0 && e[2] & e[k] == 0 && e[3]
        & e[k] == 0 && e[4] & e[k] == 0 && e[5] & e[k] == 0);
    let control = enable | held;
    lemma_or_clear(enable, held, m);
    lemma_or_clear(control, red_top, m);
    lemma_or_clear(control | red_top, green_top, m);
    lemma_or_clear(control | red_top | green_top, blue_top, m);
    lemma_or_clear(control | red_top | green_top | blue_top, red_bottom, m);
    lemma_or_clear(control | red_top | green_top | blue_top | red_bottom, green_bottom, m);
    lemma_or_clear(
        control | red_top | green_top | blue_top | red_bottom | green_bottom,
        blue_bottom,
        m,
    );
}

/// The row-select bits drive none of the signals clock, latch and output
/// enable (entries 9 to 11 of the pin map), nor any data signal.
proof fn lemma_select_clear(masks: Pins, row: usize, k: int)
    requires
        apart(masks),
        0 <= k < 12,
        k < 6 || k > 8,
    ensures
        select_bits(masks, row) & masks.entries()[k] == 0,
        (masks.a | masks.b | masks.c) & masks.entries()[k] == 0,
{
    let e = masks.entries();
    let m = e[k];
    lemma_or_set(0, m);
    let a = if row & 1 != 0 {
        masks.a
    } else {
        0u16
    };
    let b = if row & 2 != 0 {
        masks.b
    } else {
        0u16
    };
    let c = if row & 4 != 0 {
        masks.c
    } else {
        0u16
    };
    assert(e[6] & e[k] == 0 && e[7] & e[k] == 0 && e[8] & e[k] == 0);
    lemma_or_clear(a, b, m);
    lemma_or_clear(a | b, c, m);
    lemma_or_clear(masks.a, masks.b, m);
    lemma_or_clear(masks.a | masks.b, masks.c, m);
}

/// The latch sequence and the word that ends a pass leave the clock low.
proof fn lemma_latch_words_clock(masks: Pins, last: u16, row: usize)
    requires
        apart(masks),
        last & masks.clock == 0,
    ensures
        blanked_word(masks, last) & masks.clock == 0,
        latched_word(masks, last) & masks.clock == 0,
        shown_word(masks, last, row) & masks.clock == 0,
        (shown_word(masks, last, row) | masks.oe) & masks.clock == 0,
{
    let e = masks.entries();
    let m = masks.clock;
    assert(m == e[9]);
    assert(e[11] & e[9] == 0 && e[10] & e[9] == 0);
    lemma_select_clear(masks, row, 9);
    lemma_or_clear(last, masks.oe, m);
    lemma_and_clear(last | masks.oe, !masks.latch, m);
    let blanked = blanked_word(masks, last);
    lemma_or_clear(blanked, masks.latch, m);
    let latched = latched_word(masks, last);
    lemma_and_clear(latched, !(masks.a | masks.b | masks.c), m);
    lemma_or_clear(latched & !(masks.a | masks.b | masks.c), select_bits(masks, row), m);
    lemma_and_clear(
        (latched & !(masks.a | masks.b | masks.c)) | select_bits(masks, row),
        !masks.oe,
        m,
    );
    lemma_or_clear(shown_word(masks, last, row), masks.oe, m);
}

/// The latch sequence raises the latch with its second word and keeps it
/// high until the pass ends or the next column is shifted.
proof fn lemma_latch_words_latch(masks: Pins, last: u16, row: usize)
    requires
        apart(masks),
    ensures
        blanked_word(masks, last) & masks.latch == 0,
        latched_word(masks, last) & masks.latch != 0,
        shown_word(masks, last, row) & masks.latch != 0,
        (shown_word(masks, last, row) | masks.oe) & masks.latch != 0,
{
    let e = masks.entries();
    let m = masks.latch;
    assert(m == e[10]);
    assert(e[10] != 0);
    assert(e[11] & e[10] == 0);
    lemma_select_clear(masks, row, 10);
    lemma_or_set(last | masks.oe, m);
    lemma_or_set(blanked_word(masks, last), m);
    let latched = latched_word(masks, last);
    lemma_keep_set(latched, masks.a | masks.b | masks.c, select_bits(masks, row), m);
    let selected = latched & !(masks.a | masks.b | masks.c);
    lemma_keep_set(selected, 0, select_bits(masks, row), m);
    lemma_keep_set(selected | select_bits(masks, row), masks.oe, masks.oe, m);
    lemma_keep_set(shown_word(masks, last, row), 0, masks.oe, m);
}

proof fn lemma_or_outside(x: u16, y: u16, m: u16)
    by (bit_vector)
    requires
        y & m == 0,
    ensures
        (x | y) & m == x & m,
        (y | x) & m == x & m,
        (x & !y) & m == x & m,
{
}

proof fn lemma_and_commutes(x: u16, y: u16)
    by (bit_vector)
    ensures
        x & y == y & x,
{
}

proof fn lemma_or_inside(x: u16, y: u16, m: u16)
    by (bit_vector)
    requires
        x & m == x,
        y & m == y,
    ensures
        (x | y) & m == (x | y),
{
}

proof fn lemma_line_inside(a: u16, b: u16, c: u16)
    by (bit_vector)
    ensures
        a & (a | b | c) == a,
        b & (a | b | c) == b,
        c & (a | b | c) == c,
        0u16 & (a | b | c) == 0,
{
}

proof fn lemma_replace(x: u16, s: u16, m: u16)
    by (bit_vector)
    requires
        s & m == s,
    ensures
        ((x & !m) | s) & m == s,
{
}

/// The row-select bits of a row lie on the lines A, B and C.
proof fn lemma_select_inside(masks: Pins, row: usize)
    ensures
        select_bits(masks, row) & (masks.a | masks.b | masks.c) == select_bits(masks, row),
{
    let lines = masks.a | masks.b | masks.c;
    let a = if row & 1 != 0 {
        masks.a
    } else {
        0u16
    };
    let b = if row & 2 != 0 {
        masks.b
    } else {
        0u16
    };
    let c = if row & 4 != 0 {
        masks.c
    } else {
        0u16
    };
    lemma_line_inside(masks.a, masks.b, masks.c);
    lemma_or_inside(a, b, lines);
    lemma_or_inside(a | b, c, lines);
}

/// The row-select lines change only after a latch. While a row is shifted in
/// and latched, they stay at the row that was latched before; the word that
/// follows the latch selects the new row, which stays selected when the pass
/// ends.
pub proof fn lemma_row_select_is_steady(
    masks: Pins,
    cell: PixelCell,
    threshold: u8,
    blank: bool,
    before: usize,
    row: usize,
    last: u16,
)
    requires
        apart(masks),
    ensures
        ({
            let lines = masks.a | masks.b | masks.c;
            let held = select_bits(masks, before);
            &&& column_word(masks, cell, threshold, blank, held) & lines == held
            &&& (column_word(masks, cell, threshold, blank, held) | masks.clock) & lines == held
            &&& blanked_word(masks, last) & lines == last & lines
            &&& latched_word(masks, last) & lines == last & lines
            &&& shown_word(masks, last, row) & lines == select_bits(masks, row)
            &&& (shown_word(masks, last, row) | masks.oe) & lines == select_bits(masks, row)
        }),
{
    let e = masks.entries();
    let lines = masks.a | masks.b | masks.c;
    let held = select_bits(masks, before);
    assert(masks.r1 == e[0] && masks.g1 == e[1] && masks.b1 == e[2] && masks.r2 == e[3]
        && masks.g2 == e[4] && masks.b2 == e[5] && masks.clock == e[9] && masks.latch == e[10]
        && masks.oe == e[11]);
    lemma_select_clear(masks, row, 0);
    lemma_select_clear(masks, row, 1);
    lemma_select_clear(masks, row, 2);
    lemma_select_clear(masks, row, 3);
    lemma_select_clear(masks, row, 4);
    lemma_select_clear(masks, row, 5);
    lemma_select_clear(masks, row, 9);
    lemma_select_clear(masks, row, 10);
    lemma_select_clear(masks, row, 11);
    lemma_select_inside(masks, before);
    lemma_select_inside(masks, row);
    lemma_line_inside(masks.a, masks.b, masks.c);
    lemma_and_commutes(lines, masks.r1);
    lemma_and_commutes(lines, masks.g1);
    lemma_and_commutes(lines, masks.b1);
    lemma_and_commutes(lines, masks.r2);
    lemma_and_commutes(lines, masks.g2);
    lemma_and_commutes(lines, masks.b2);
    lemma_and_commutes(lines, masks.clock);
    lemma_and_commutes(lines, masks.latch);
    lemma_and_commutes(lines, masks.oe);
    let enable = if blank {
        masks.oe
    } else {
        0u16
    };
    let red_top = lit(cell.r1, threshold, masks.r1);
    let green_top = lit(cell.g1, threshold, masks.g1);
    let blue_top = lit(cell.b1, threshold, masks.b1);
    let red_bottom = lit(cell.r2, threshold, masks.r2);
    let green_bottom = lit(cell.g2, threshold, masks.g2);
    let blue_bottom = lit(cell.b2, threshold, masks.b2);
    let control = enable | held;
    lemma_or_outside(held, enable, lines);
    lemma_or_outside(control, red_top, lines);
    lemma_or_outside(control | red_top, green_top, lines);
    lemma_or_outside(control | red_top | green_top, blue_top, lines);
    lemma_or_outside(control | red_top | green_top | blue_top, red_bottom, lines);
    lemma_or_outside(control | red_top | green_top | blue_top | red_bottom, green_bottom, lines);
    lemma_or_outside(
        control | red_top | green_top | blue_top | red_bottom | green_bottom,
        blue_bottom,
        lines,
    );
    let word = column_word(masks, cell, threshold, blank, held);
    lemma_or_outside(word, masks.clock, lines);
    lemma_or_outside(last, masks.oe, lines);
    lemma_or_outside(last | masks.oe, masks.latch, lines);
    lemma_or_outside(blanked_word(masks, last), masks.latch, lines);
    let latched = latched_word(masks, last);
    lemma_replace(latched, select_bits(masks, row), lines);
    lemma_or_outside((latched & !lines) | select_bits(masks, row), masks.oe, lines);
    lemma_or_outside(shown_word(masks, last, row), masks.oe, lines);
}

/// Level and edges of a sequence with one more step.
proof fn lemma_edges_push(ops: Seq<PortOp>, op: PortOp, mask: u16, start: bool)
    ensures
        final_level(ops.push(op), mask, start) == level_after(
            op,
            mask,
            final_level(ops, mask, start),
        ),
        rising_edges(ops.push(op), mask, start) == rising_edges(ops, mask, start) + if !final_level(
            ops,
            mask,
            start,
        ) && level_after(op, mask, final_level(ops, mask, start)) {
            1nat
        } else {
            0nat
        },
{
    assert(ops.push(op).drop_last() =~= ops);
    assert(ops.push(op).last() == op);
}

/// A clock pulse is one rising edge of the clock if the clock was low, and
/// leaves it low. It leaves the latch low without raising it.
proof fn lemma_pulse(masks: Pins, word: u16, start: bool)
    requires
        apart(masks),
        word & masks.clock == 0,
        word & masks.latch == 0,
    ensures
        !final_level(pulse(word, masks.clock), masks.clock, start),
        !start ==> rising_edges(pulse(word, masks.clock), masks.clock, start) == 1,
        !final_level(pulse(word, masks.clock), masks.latch, start),
        rising_edges(pulse(word, masks.clock), masks.latch, start) == 0,
{
    let e = masks.entries();
    assert(masks.clock == e[9] && masks.latch == e[10]);
    assert(e[9] != 0);
    assert(e[9] & e[10] == 0);
    let high = PortOp::Write(word | masks.clock);
    let low = PortOp::Write(word);
    let none = Seq::<PortOp>::empty();
    assert(pulse(word, masks.clock) =~= none.push(high).push(low));
    lemma_or_set(word, masks.clock);
    lemma_or_clear(word, masks.clock, masks.latch);
    lemma_edges_push(none, high, masks.clock, start);
    lemma_edges_push(none.push(high), low, masks.clock, start);
    lemma_edges_push(none, high, masks.latch, start);
    lemma_edges_push(none.push(high), low, masks.latch, start);
}

/// Shifting the first `n` columns of a row raises the clock `n` times and
/// leaves it low; it never raises the latch.
proof fn lemma_columns_edges(
    masks: Pins,
    cells: Seq<PixelCell>,
    threshold: u8,
    lead: bool,
    held: u16,
    n: int,
    latch_start: bool,
)
    requires
        apart(masks),
        held & masks.clock == 0,
        held & masks.latch == 0,
        0 <= n,
    ensures
        rising_edges(columns_ops(masks, cells, threshold, lead, held, n), masks.clock, false)
            == n,
        !final_level(columns_ops(masks, cells, threshold, lead, held, n), masks.clock, false),
        rising_edges(
            columns_ops(masks, cells, threshold, lead, held, n),
            masks.latch,
            latch_start,
        ) == 0,
        final_level(columns_ops(masks, cells, threshold, lead, held, n), masks.latch, latch_start)
            == (n == 0 && latch_start),
    decreases n,
{
    if n > 0 {
        let before = columns_ops(masks, cells, threshold, lead, held, n - 1);
        let word = column_word(masks, cells[n - 1], threshold, column_blank(lead, n - 1), held);
        lemma_columns_edges(masks, cells, threshold, lead, held, n - 1, latch_start);
        assert(masks.clock == masks.entries()[9] && masks.latch == masks.entries()[10]);
        lemma_column_word_clear(
            masks,
            cells[n - 1],
            threshold,
            column_blank(lead, n - 1),
            held,
            9,
        );
        lemma_column_word_clear(
            masks,
            cells[n - 1],
            threshold,
            column_blank(lead, n - 1),
            held,
            10,
        );
        lemma_pulse(masks, word, false);
        lemma_pulse(masks, word, final_level(before, masks.latch, latch_start));
        lemma_edges_concat(before, pulse(word, masks.clock), masks.clock, false);
        lemma_edges_concat(before, pulse(word, masks.clock), masks.latch, latch_start);
    }
}

/// The word on the port after the columns of a row leaves clock and latch low.
proof fn lemma_last_word_clear(
    masks: Pins,
    cells: Seq<PixelCell>,
    threshold: u8,
    lead: bool,
    held: u16,
)
    requires
        apart(masks),
        held & masks.clock == 0,
        held & masks.latch == 0,
    ensures
        last_word(masks, cells, threshold, lead, held) & masks.clock == 0,
        last_word(masks, cells, threshold, lead, held) & masks.latch == 0,
{
    assert(masks.clock == masks.entries()[9] && masks.latch == masks.entries()[10]);
    assert(masks.entries()[9] != 0 && masks.entries()[10] != 0);
    if cells.len() == 0 {
        lemma_or_set(0, masks.clock);
        lemma_or_set(0, masks.latch);
    } else {
        let column = cells.len() - 1;
        lemma_column_word_clear(
            masks,
            cells[column],
            threshold,
            column_blank(lead, column),
            held,
            9,
        );
        lemma_column_word_clear(
            masks,
            cells[column],
            threshold,
            column_blank(lead, column),
            held,
            10,
        );
    }
}

/// One row raises the clock once for every column and leaves it low, and
/// raises the latch exactly once and leaves it high.
proof fn lemma_row_edges(
    masks: Pins,
    cells: Seq<PixelCell>,
    threshold: u8,
    lead: bool,
    held: u16,
    row: usize,
    latch_start: bool,
)
    requires
        apart(masks),
        held & masks.clock == 0,
        held & masks.latch == 0,
    ensures
        rising_edges(row_ops(masks, cells, threshold, lead, held, row), masks.clock, false)
            == cells.len(),
        !final_level(row_ops(masks, cells, threshold, lead, held, row), masks.clock, false),
        rising_edges(row_ops(masks, cells, threshold, lead, held, row), masks.latch, latch_start)
            == 1,
        final_level(row_ops(masks, cells, threshold, lead, held, row), masks.latch, latch_start),
{
    let columns = columns_ops(masks, cells, threshold, lead, held, cells.len() as int);
    let last = last_word(masks, cells, threshold, lead, held);
    let blanked = PortOp::Write(blanked_word(masks, last));
    let latched = PortOp::Write(latched_word(masks, last));
    let shown = PortOp::Write(shown_word(masks, last, row));
    let none = Seq::<PortOp>::empty();
    lemma_columns_edges(masks, cells, threshold, lead, held, cells.len() as int, latch_start);
    lemma_last_word_clear(masks, cells, threshold, lead, held);
    lemma_latch_words_clock(masks, last, row);
    lemma_latch_words_latch(masks, last, row);
    assert(latch_ops(masks, last, row) =~= none.push(blanked).push(latched).push(shown));
    let clock_start = final_level(columns, masks.clock, false);
    lemma_edges_push(none, blanked, masks.clock, clock_start);
    lemma_edges_push(none.push(blanked), latched, masks.clock, clock_start);
    lemma_edges_push(none.push(blanked).push(latched), shown, masks.clock, clock_start);
    let latch_mid = final_level(columns, masks.latch, latch_start);
    lemma_edges_push(none, blanked, masks.latch, latch_mid);
    lemma_edges_push(none.push(blanked), latched, masks.latch, latch_mid);
    lemma_edges_push(none.push(blanked).push(latched), shown, masks.latch, latch_mid);
    lemma_edges_concat(columns, latch_ops(masks, last, row), masks.clock, false);
    lemma_edges_concat(columns, latch_ops(masks, last, row), masks.latch, latch_start);
}

/// The first `n` rows of a pass raise the clock once for every cell and leave
/// it low, and raise the latch once for every row.
proof fn lemma_rows_edges(
    masks: Pins,
    cells: Seq<Seq<PixelCell>>,
    threshold: u8,
    opening: bool,
    n: int,
    row_length: int,
    latch_start: bool,
)
    requires
        apart(masks),
        0 <= n <= cells.len(),
        forall|r: int| 0 <= r < cells.len() ==> (#[trigger] cells[r]).len() == row_length,
    ensures
        rising_edges(rows_ops(masks, cells, threshold, opening, n), masks.clock, false) == n
            * row_length,
        !final_level(rows_ops(masks, cells, threshold, opening, n), masks.clock, false),
        rising_edges(rows_ops(masks, cells, threshold, opening, n), masks.latch, latch_start)
            == n,
        final_level(rows_ops(masks, cells, threshold, opening, n), masks.latch, latch_start) == (
        n > 0 || latch_start),
    decreases n,
{
    if n > 0 {
        let before = rows_ops(masks, cells, threshold, opening, n - 1);
        let held = held_bits(masks, n - 1, cells.len() as int);
        let row = row_ops(
            masks,
            cells[n - 1],
            threshold,
            opening && n - 1 == 0,
            held,
            (n - 1) as usize,
        );
        lemma_rows_edges(masks, cells, threshold, opening, n - 1, row_length, latch_start);
        lemma_select_clear(masks, row_before(n - 1, cells.len() as int) as usize, 9);
        lemma_select_clear(masks, row_before(n - 1, cells.len() as int) as usize, 10);
        assert(masks.clock == masks.entries()[9] && masks.latch == masks.entries()[10]);
        lemma_row_edges(
            masks,
            cells[n - 1],
            threshold,
            opening && n - 1 == 0,
            held,
            (n - 1) as usize,
            final_level(before, masks.latch, latch_start),
        );
        lemma_edges_concat(before, row, masks.clock, false);
        lemma_edges_concat(before, row, masks.latch, latch_start);
        assert((n - 1) * row_length + row_length == n * row_length) by (nonlinear_arith);
    } else {
        assert(0 * row_length == 0) by (nonlinear_arith);
    }
}

/// In one pass over a panel of `rows` rows of `row_length` cells, the clock
/// rises once for every cell and ends low, and the latch rises once for every
/// row, whatever its level was before.
pub proof fn lemma_pass_edges(
    masks: Pins,
    cells: Seq<Seq<PixelCell>>,
    threshold: u8,
    opening: bool,
    row_length: int,
    latch_start: bool,
)
    requires
        apart(masks),
        cells.len() > 0,
        forall|r: int| 0 <= r < cells.len() ==> (#[trigger] cells[r]).len() == row_length,
    ensures
        rising_edges(pass_ops(masks, cells, threshold, opening), masks.clock, false)
            == cells.len() * row_length,
        !final_level(pass_ops(masks, cells, threshold, opening), masks.clock, false),
        rising_edges(pass_ops(masks, cells, threshold, opening), masks.latch, latch_start)
            == cells.len(),
        final_level(pass_ops(masks, cells, threshold, opening), masks.latch, latch_start),
{
    let rows = rows_ops(masks, cells, threshold, opening, cells.len() as int);
    let pause = PortOp::DelayUs(LAST_ROW_DELAY_US);
    let park = PortOp::Write(park_word(masks, cells, threshold, opening));
    let none = Seq::<PortOp>::empty();
    let tail = none.push(pause).push(park);
    assert(pass_ops(masks, cells, threshold, opening) =~= rows + tail);
    lemma_rows_edges(masks, cells, threshold, opening, cells.len() as int, row_length, latch_start);
    let row = cells.len() - 1;
    let held = held_bits(masks, row, cells.len() as int);
    let last = last_word(masks, cells[row], threshold, opening && row == 0, held);
    lemma_select_clear(masks, row_before(row, cells.len() as int) as usize, 9);
    lemma_select_clear(masks, row_before(row, cells.len() as int) as usize, 10);
    assert(masks.clock == masks.entries()[9] && masks.latch == masks.entries()[10]);
    lemma_last_word_clear(masks, cells[row], threshold, opening && row == 0, held);
    lemma_latch_words_clock(masks, last, row as usize);
    lemma_latch_words_latch(masks, last, row as usize);
    lemma_edges_push(none, pause, masks.clock, false);
    lemma_edges_push(none.push(pause), park, masks.clock, false);
    lemma_edges_push(none, pause, masks.latch, true);
    lemma_edges_push(none.push(pause), park, masks.latch, true);
    lemma_edges_concat(rows, tail, masks.clock, false);
    lemma_edges_concat(rows, tail, masks.latch, latch_start);
}

/// In the first `n` passes of a refresh the clock rises once for every cell
/// in every pass and ends low, and the latch rises once for every row in
/// every pass.
pub proof fn lemma_refresh_edges(
    masks: Pins,
    cells: Seq<Seq<PixelCell>>,
    n: int,
    row_length: int,
    latch_start: bool,
)
    requires
        apart(masks),
        0 <= n <= 16,
        cells.len() > 0,
        forall|r: int| 0 <= r < cells.len() ==> (#[trigger] cells[r]).len() == row_length,
    ensures
        rising_edges(refresh_ops(masks, cells, n), masks.clock, false) == n * (cells.len()
            * row_length),
        !final_level(refresh_ops(masks, cells, n), masks.clock, false),
        rising_edges(refresh_ops(masks, cells, n), masks.latch, latch_start) == n * cells.len(),
        n > 0 ==> final_level(refresh_ops(masks, cells, n), masks.latch, latch_start),
        n == 0 ==> final_level(refresh_ops(masks, cells, n), masks.latch, latch_start)
            == latch_start,
    decreases n,
{
    let per_pass = cells.len() * row_length;
    if n > 0 {
        let before = refresh_ops(masks, cells, n - 1);
        let pass = pass_ops(masks, cells, THRESHOLDS@[n - 1], n - 1 == 0);
        lemma_refresh_edges(masks, cells, n - 1, row_length, latch_start);
        lemma_pass_edges(
            masks,
            cells,
            THRESHOLDS@[n - 1],
            n - 1 == 0,
            row_length,
            final_level(before, masks.latch, latch_start),
        );
        lemma_edges_concat(before, pass, masks.clock, false);
        lemma_edges_concat(before, pass, masks.latch, latch_start);
        assert((n - 1) * per_pass + per_pass == n * per_pass) by (nonlinear_arith);
        assert((n - 1) * cells.len() + cells.len() == n * cells.len()) by (nonlinear_arith);
    } else {
        assert(0 * per_pass == 0) by (nonlinear_arith);
        assert(0 * cells.len() == 0) by (nonlinear_arith);
    }
}

/// How the shifting into the panel and the latching have kept pace: the
/// levels of clock and latch, how often the clock rose since the latch last
/// rose, and whether the clock had risen exactly as often as a row is long
/// every time the latch rose.
pub ghost struct Pace {
    pub clock: bool,
    pub latch: bool,
    pub shifted: nat,
    pub steady: bool,
}

impl Pace {
    /// The pace between two rows: the clock is low, nothing was shifted since
    /// the latch last rose, and no latch came too early or too late.
    pub open spec fn rest(latch: bool) -> Pace {
        Pace { clock: false, latch, shifted: 0, steady: true }
    }
}

/// The pace after one more step. A rising edge of the clock is one more
/// shift. A rising edge of the latch is in step if `per_latch` shifts were
/// counted since the one before, itself included where the clock rises with
/// it, and starts the count again.
pub open spec fn pace_after(op: PortOp, masks: Pins, per_latch: nat, before: Pace) -> Pace {
    let clock = level_after(op, masks.clock, before.clock);
    let latch = level_after(op, masks.latch, before.latch);
    let shifted = if !before.clock && clock {
        before.shifted + 1
    } else {
        before.shifted
    };
    if !before.latch && latch {
        Pace { clock, latch, shifted: 0, steady: before.steady && shifted == per_latch }
    } else {
        Pace { clock, latch, shifted, steady: before.steady }
    }
}

/// The pace after a sequence of steps that starts at the pace `start`. It is
/// steady if it was at the start and exactly `per_latch` rising edges of the
/// clock lie between every two successive rising edges of the latch, the
/// first of them counted from the start.
pub open spec fn pace(ops: Seq<PortOp>, masks: Pins, per_latch: nat, start: Pace) -> Pace
    decreases ops.len(),
{
    if ops.len() == 0 {
        start
    } else {
        pace_after(ops.last(), masks, per_latch, pace(ops.drop_last(), masks, per_latch, start))
    }
}

/// The pace of two sequences one after the other.
pub proof fn lemma_pace_concat(
    a: Seq<PortOp>,
    b: Seq<PortOp>,
    masks: Pins,
    per_latch: nat,
    start: Pace,
)
    ensures
        pace(a + b, masks, per_latch, start) == pace(
            b,
            masks,
            per_latch,
            pace(a, masks, per_latch, start),
        ),
    decreases b.len(),
{
    if b.len() == 0 {
        assert(a + b =~= a);
    } else {
        lemma_pace_concat(a, b.drop_last(), masks, per_latch, start);
        assert((a + b).drop_last() =~= a + b.drop_last());
        assert((a + b).last() == b.last());
    }
}

/// The pace of a sequence with one more step.
proof fn lemma_pace_push(ops: Seq<PortOp>, op: PortOp, masks: Pins, per_latch: nat, start: Pace)
    ensures
        pace(ops.push(op), masks, per_latch, start) == pace_after(
            op,
            masks,
            per_latch,
            pace(ops, masks, per_latch, start),
        ),
{
    assert(ops.push(op).drop_last() =~= ops);
    assert(ops.push(op).last() == op);
}

/// A clock pulse is one more shift, and leaves clock and latch low.
proof fn lemma_pulse_pace(masks: Pins, word: u16, per_latch: nat, start: Pace)
    requires
        apart(masks),
        word & masks.clock == 0,
        word & masks.latch == 0,
        !start.clock,
    ensures
        pace(pulse(word, masks.clock), masks, per_latch, start) == (Pace {
            clock: false,
            latch: false,
            shifted: start.shifted + 1,
            steady: start.steady,
        }),
{
    let e = masks.entries();
    assert(masks.clock == e[9] && masks.latch == e[10]);
    assert(e[9] != 0);
    assert(e[9] & e[10] == 0);
    let high = PortOp::Write(word | masks.clock);
    let low = PortOp::Write(word);
    let none = Seq::<PortOp>::empty();
    assert(pulse(word, masks.clock) =~= none.push(high).push(low));
    lemma_or_set(word, masks.clock);
    lemma_or_clear(word, masks.clock, masks.latch);
    lemma_pace_push(none, high, masks, per_latch, start);
    lemma_pace_push(none.push(high), low, masks, per_latch, start);
}

/// Shifting the first `n` columns of a row is `n` more shifts without a latch.
proof fn lemma_columns_pace(
    masks: Pins,
    cells: Seq<PixelCell>,
    threshold: u8,
    lead: bool,
    held: u16,
    n: int,
    per_latch: nat,
    start: Pace,
)
    requires
        apart(masks),
        held & masks.clock == 0,
        held & masks.latch == 0,
        0 <= n,
        !start.clock,
    ensures
        pace(columns_ops(masks, cells, threshold, lead, held, n), masks, per_latch, start) == (Pace {
            clock: false,
            latch: n == 0 && start.latch,
            shifted: start.shifted + n as nat,
            steady: start.steady,
        }),
    decreases n,
{
    if n > 0 {
        let before = columns_ops(masks, cells, threshold, lead, held, n - 1);
        let word = column_word(masks, cells[n - 1], threshold, column_blank(lead, n - 1), held);
        lemma_columns_pace(masks, cells, threshold, lead, held, n - 1, per_latch, start);
        assert(masks.clock == masks.entries()[9] && masks.latch == masks.entries()[10]);
        lemma_column_word_clear(
            masks,
            cells[n - 1],
            threshold,
            column_blank(lead, n - 1),
            held,
            9,
        );
        lemma_column_word_clear(
            masks,
            cells[n - 1],
            threshold,
            column_blank(lead, n - 1),
            held,
            10,
        );
        lemma_pulse_pace(masks, word, per_latch, pace(before, masks, per_latch, start));
        lemma_pace_concat(before, pulse(word, masks.clock), masks, per_latch, start);
    }
}

/// One row shifts once for every column and then latches once: the latch is
/// in step if the row is as long as asked.
proof fn lemma_row_pace(
    masks: Pins,
    cells: Seq<PixelCell>,
    threshold: u8,
    lead: bool,
    held: u16,
    row: usize,
    per_latch: nat,
    start: Pace,
)
    requires
        apart(masks),
        held & masks.clock == 0,
        held & masks.latch == 0,
        !start.clock,
    ensures
        pace(row_ops(masks, cells, threshold, lead, held, row), masks, per_latch, start) == (Pace {
            clock: false,
            latch: true,
            shifted: 0,
            steady: start.steady && start.shifted + cells.len() == per_latch,
        }),
{
    let columns = columns_ops(masks, cells, threshold, lead, held, cells.len() as int);
    let last = last_word(masks, cells, threshold, lead, held);
    let blanked = PortOp::Write(blanked_word(masks, last));
    let latched = PortOp::Write(latched_word(masks, last));
    let shown = PortOp::Write(shown_word(masks, last, row));
    let none = Seq::<PortOp>::empty();
    lemma_columns_pace(masks, cells, threshold, lead, held, cells.len() as int, per_latch, start);
    lemma_last_word_clear(masks, cells, threshold, lead, held);
    lemma_latch_words_clock(masks, last, row);
    lemma_latch_words_latch(masks, last, row);
    assert(latch_ops(masks, last, row) =~= none.push(blanked).push(latched).push(shown));
    let mid = pace(columns, masks, per_latch, start);
    lemma_pace_push(none, blanked, masks, per_latch, mid);
    lemma_pace_push(none.push(blanked), latched, masks, per_latch, mid);
    lemma_pace_push(none.push(blanked).push(latched), shown, masks, per_latch, mid);
    lemma_pace_concat(columns, latch_ops(masks, last, row), masks, per_latch, start);
}

/// The first `n` rows of a pass keep the pace.
proof fn lemma_rows_pace(
    masks: Pins,
    cells: Seq<Seq<PixelCell>>,
    threshold: u8,
    opening: bool,
    n: int,
    row_length: nat,
    latch_start: bool,
)
    requires
        apart(masks),
        0 <= n <= cells.len(),
        forall|r: int| 0 <= r < cells.len() ==> (#[trigger] cells[r]).len() == row_length,
    ensures
        pace(
            rows_ops(masks, cells, threshold, opening, n),
            masks,
            row_length,
            Pace::rest(latch_start),
        ) == Pace::rest(n > 0 || latch_start),
    decreases n,
{
    if n > 0 {
        let before = rows_ops(masks, cells, threshold, opening, n - 1);
        let held = held_bits(masks, n - 1, cells.len() as int);
        let row = row_ops(
            masks,
            cells[n - 1],
            threshold,
            opening && n - 1 == 0,
            held,
            (n - 1) as usize,
        );
        lemma_rows_pace(masks, cells, threshold, opening, n - 1, row_length, latch_start);
        lemma_select_clear(masks, row_before(n - 1, cells.len() as int) as usize, 9);
        lemma_select_clear(masks, row_before(n - 1, cells.len() as int) as usize, 10);
        assert(masks.clock == masks.entries()[9] && masks.latch == masks.entries()[10]);
        lemma_row_pace(
            masks,
            cells[n - 1],
            threshold,
            opening && n - 1 == 0,
            held,
            (n - 1) as usize,
            row_length,
            pace(before, masks, row_length, Pace::rest(latch_start)),
        );
        lemma_pace_concat(before, row, masks, row_length, Pace::rest(latch_start));
    }
}

/// In one pass over a panel whose rows are `row_length` cells long, exactly
/// `row_length` rising edges of the clock lie between every two successive
/// rising edges of the latch, and before the first of them. After the last
/// the clock does not rise again, so that the next pass goes on in step.
pub proof fn lemma_pass_pace(
    masks: Pins,
    cells: Seq<Seq<PixelCell>>,
    threshold: u8,
    opening: bool,
    row_length: nat,
    latch_start: bool,
)
    requires
        apart(masks),
        cells.len() > 0,
        forall|r: int| 0 <= r < cells.len() ==> (#[trigger] cells[r]).len() == row_length,
    ensures
        pace(pass_ops(masks, cells, threshold, opening), masks, row_length, Pace::rest(latch_start))
            == Pace::rest(true),
{
    let rows = rows_ops(masks, cells, threshold, opening, cells.len() as int);
    let pause = PortOp::DelayUs(LAST_ROW_DELAY_US);
    let park = PortOp::Write(park_word(masks, cells, threshold, opening));
    let none = Seq::<PortOp>::empty();
    let tail = none.push(pause).push(park);
    assert(pass_ops(masks, cells, threshold, opening) =~= rows + tail);
    lemma_rows_pace(masks, cells, threshold, opening, cells.len() as int, row_length, latch_start);
    let row = cells.len() - 1;
    let held = held_bits(masks, row, cells.len() as int);
    let last = last_word(masks, cells[row], threshold, opening && row == 0, held);
    lemma_select_clear(masks, row_before(row, cells.len() as int) as usize, 9);
    lemma_select_clear(masks, row_before(row, cells.len() as int) as usize, 10);
    assert(masks.clock == masks.entries()[9] && masks.latch == masks.entries()[10]);
    lemma_last_word_clear(masks, cells[row], threshold, opening && row == 0, held);
    lemma_latch_words_clock(masks, last, row as usize);
    lemma_latch_words_latch(masks, last, row as usize);
    lemma_pace_push(none, pause, masks, row_length, Pace::rest(true));
    lemma_pace_push(none.push(pause), park, masks, row_length, Pace::rest(true));
    lemma_pace_concat(rows, tail, masks, row_length, Pace::rest(latch_start));
}

/// The first `n` passes of a refresh keep the pace: exactly `row_length`
/// rising edges of the clock lie between every two successive rising edges
/// of the latch, within a pass and from one pass to the next.
pub proof fn lemma_refresh_pace(
    masks: Pins,
    cells: Seq<Seq<PixelCell>>,
    n: int,
    row_length: nat,
    latch_start: bool,
)
    requires
        apart(masks),
        0 <= n <= 16,
        cells.len() > 0,
        forall|r: int| 0 <= r < cells.len() ==> (#[trigger] cells[r]).len() == row_length,
    ensures
        pace(refresh_ops(masks, cells, n), masks, row_length, Pace::rest(latch_start))
            == Pace::rest(n > 0 || latch_start),
    decreases n,
{
    if n > 0 {
        let before = refresh_ops(masks, cells, n - 1);
        let pass = pass_ops(masks, cells, THRESHOLDS@[n - 1], n - 1 == 0);
        lemma_refresh_pace(masks, cells, n - 1, row_length, latch_start);
        lemma_pass_pace(
            masks,
            cells,
            THRESHOLDS@[n - 1],
            n - 1 == 0,
            row_length,
            n - 1 > 0 || latch_start,
        );
        lemma_pace_concat(before, pass, masks, row_length, Pace::rest(latch_start));
    }
}

impl<const ROW_LENGTH: usize, const ROWS: usize, const STRIPE: bool> Hub75<
    ROW_LENGTH,
    ROWS,
    STRIPE,
> {
    /// In every refresh of a well-formed panel the clock rises exactly
    /// `ROW_LENGTH * ROWS * 16` times, once for every cell in each of the 16
    /// passes, and the latch rises exactly `ROWS * 16` times, once for every
    /// addressable row in each pass. So between two latches of the same row
    /// at the same threshold, that is from one refresh to the next, the clock
    /// rises `ROW_LENGTH * ROWS * 16` times. The clock is low before and after.
    pub proof fn lemma_refresh_clock_count(&self, latch_start: bool)
        requires
            self.wf(),
        ensures
            rising_edges(
                refresh_ops(self.pin_masks(), self@.cells, 16),
                self.pin_masks().clock,
                false,
            ) == 16 * (ROWS * ROW_LENGTH),
            !final_level(
                refresh_ops(self.pin_masks(), self@.cells, 16),
                self.pin_masks().clock,
                false,
            ),
            rising_edges(
                refresh_ops(self.pin_masks(), self@.cells, 16),
                self.pin_masks().latch,
                latch_start,
            ) == 16 * ROWS,
    {
        lemma_masks_apart(self@.pins);
        lemma_refresh_edges(
            self.pin_masks(),
            self@.cells,
            16,
            ROW_LENGTH as int,
            latch_start,
        );
    }

    /// In every refresh of a well-formed panel, exactly `ROW_LENGTH` rising
    /// edges of the clock lie between every two successive rising edges of
    /// the latch, and before the first of them: every row is latched when
    /// all its columns, and no others, were shifted in. The refresh ends as
    /// it starts, with the clock low and nothing shifted since the last
    /// latch, so that the same holds from one refresh to the next.
    pub proof fn lemma_refresh_is_paced(&self, latch_start: bool)
        requires
            self.wf(),
        ensures
            pace(
                refresh_ops(self.pin_masks(), self@.cells, 16),
                self.pin_masks(),
                ROW_LENGTH as nat,
                Pace::rest(latch_start),
            ) == Pace::rest(true),
    {
        lemma_masks_apart(self@.pins);
        lemma_refresh_pace(
            self.pin_masks(),
            self@.cells,
            16,
            ROW_LENGTH as nat,
            latch_start,
        );
    }
}

} // verus!
