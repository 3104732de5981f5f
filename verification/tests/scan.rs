use uart_matrix::hub75::scan::{PortOp, LAST_ROW_DELAY_US, THRESHOLDS};
use uart_matrix::hub75::{Hub75, Pins};
use uart_matrix::orchestrator::{scan_pass, scan_step, PASSES};

fn pins() -> Pins {
    Pins { r1: 0, g1: 1, b1: 5, r2: 6, g2: 7, b2: 8, a: 9, b: 10, c: 11, clock: 12, latch: 13, oe: 14 }
}

const R1: u16 = 1 << 0;
const G1: u16 = 1 << 1;
const B2: u16 = 1 << 8;
const A: u16 = 1 << 9;
const B: u16 = 1 << 10;
const C: u16 = 1 << 11;
const CLK: u16 = 1 << 12;
const LAT: u16 = 1 << 13;
const OE: u16 = 1 << 14;

fn rising_edges(ops: &[PortOp], mask: u16, start: bool) -> usize {
    let mut level = start;
    let mut edges = 0;
    for op in ops {
        if let PortOp::Write(word) = op {
            let next = word & mask != 0;
            if !level && next {
                edges += 1;
            }
            level = next;
        }
    }
    edges
}

#[test]
fn thresholds_of_a_refresh() {
    assert_eq!(
        THRESHOLDS,
        [16, 32, 48, 64, 80, 96, 112, 128, 144, 160, 176, 192, 208, 224, 240, 255]
    );
    assert_eq!(LAST_ROW_DELAY_US, 60);
}

#[test]
fn pass_over_a_tiny_panel() {
    let mut panel = Hub75::<2, 2, false>::new(pins());
    panel.draw_pixel(0, 0, (255, 0, 0));
    panel.draw_pixel(1, 3, (0, 0, 128));
    let ops = panel.output_single(64, false);
    let expected = vec![
        // row 0: two columns, then the latch sequence; while the columns are
        // shifted, the row that was latched last stays selected
        PortOp::Write(OE | A | R1 | CLK),
        PortOp::Write(OE | A | R1),
        PortOp::Write(OE | A | CLK),
        PortOp::Write(OE | A),
        PortOp::Write(OE | A),
        PortOp::Write(OE | A | LAT),
        PortOp::Write(LAT),
        // row 1
        PortOp::Write(OE | CLK),
        PortOp::Write(OE),
        PortOp::Write(OE | B2 | CLK),
        PortOp::Write(OE | B2),
        PortOp::Write(OE | B2),
        PortOp::Write(OE | B2 | LAT),
        PortOp::Write(B2 | LAT | A),
        // the last row stays lit for a while, then the output is disabled
        PortOp::DelayUs(60),
        PortOp::Write(B2 | LAT | A | OE),
    ];
    assert_eq!(ops, expected);
}

#[test]
fn channel_below_the_threshold_stays_dark() {
    let mut panel = Hub75::<1, 1, false>::new(pins());
    panel.draw_pixel(0, 0, (128, 255, 0));
    // gamma(128) is 64 and gamma(255) is 255
    assert_eq!(panel.output_single(64, false)[1], PortOp::Write(OE | R1 | G1));
    assert_eq!(panel.output_single(65, false)[1], PortOp::Write(OE | G1));
    assert_eq!(panel.output_single(255, false)[1], PortOp::Write(OE | G1));
}

#[test]
fn only_the_first_column_of_a_refresh_leaves_the_output_enabled() {
    let panel = Hub75::<3, 2, false>::new(pins());
    let opening = panel.output_single(16, true);
    assert_eq!(opening[0], PortOp::Write(A | CLK));
    assert_eq!(opening[1], PortOp::Write(A));
    assert_eq!(opening[2], PortOp::Write(OE | A | CLK));
    let later = panel.output_single(16, false);
    assert_eq!(later[0], PortOp::Write(OE | A | CLK));
    assert_eq!(&opening[2..], &later[2..]);

    let refresh = panel.output();
    let per_pass = opening.len();
    assert_eq!(refresh.len(), 16 * per_pass);
    assert_eq!(&refresh[..per_pass], &opening[..]);
    for pass in 1..16 {
        assert_eq!(refresh[pass * per_pass], PortOp::Write(OE | A | CLK));
    }
}

#[test]
fn row_select_follows_the_low_three_bits() {
    let panel = Hub75::<1, 16, false>::new(pins());
    let ops = panel.output_single(16, false);
    // every row is five steps: one clock pulse and three latch words
    let select = |row: usize| {
        let mut bits = 0;
        if row & 1 != 0 {
            bits |= A;
        }
        if row & 2 != 0 {
            bits |= B;
        }
        if row & 4 != 0 {
            bits |= C;
        }
        bits
    };
    for row in 0..16usize {
        let held = select((row + 15) % 16);
        assert_eq!(ops[row * 5], PortOp::Write(OE | held | CLK));
        assert_eq!(ops[row * 5 + 1], PortOp::Write(OE | held));
        assert_eq!(ops[row * 5 + 2], PortOp::Write(OE | held));
        assert_eq!(ops[row * 5 + 3], PortOp::Write(OE | held | LAT));
        assert_eq!(ops[row * 5 + 4], PortOp::Write(LAT | select(row)));
    }
    assert_eq!(ops[80], PortOp::DelayUs(60));
    assert_eq!(ops[81], PortOp::Write(LAT | A | B | C | OE));
    assert_eq!(ops.len(), 16 * 5 + 2);
}

#[test]
fn refresh_is_sixteen_passes_in_threshold_order() {
    let mut panel = Hub75::<4, 2, false>::new(pins());
    panel.clear((100, 150, 200));
    panel.draw_pixel(2, 1, (255, 3, 77));
    let refresh = panel.output();
    let mut expected = Vec::new();
    for (pass, threshold) in THRESHOLDS.iter().enumerate() {
        expected.extend(panel.output_single(*threshold, pass == 0));
    }
    assert_eq!(refresh, expected);
}

#[test]
fn clock_rises_once_per_cell_and_pass() {
    let mut panel = Hub75::<8, 4, false>::new(pins());
    panel.clear((90, 180, 255));
    let refresh = panel.output();
    assert_eq!(rising_edges(&refresh, CLK, false), 8 * 4 * 16);
    assert_eq!(rising_edges(&refresh, LAT, false), 4 * 16);
    assert_eq!(rising_edges(&refresh, LAT, true), 4 * 16);
    let pass = panel.output_single(128, false);
    assert_eq!(rising_edges(&pass, CLK, false), 8 * 4);
    assert_eq!(rising_edges(&pass, LAT, true), 4);
}

#[test]
fn clock_count_of_the_full_size_panel() {
    let panel = Hub75::<128, 16, false>::new(pins());
    let refresh = panel.output();
    assert_eq!(rising_edges(&refresh, CLK, false), 128 * 16 * 16);
    let striped = Hub75::<128, 8, true>::new(pins());
    assert_eq!(rising_edges(&striped.output(), CLK, false), 128 * 8 * 16);
}

#[test]
fn between_two_latches_every_column_is_clocked_once() {
    let panel = Hub75::<5, 3, false>::new(pins());
    let ops = panel.output_single(16, false);
    let mut clocks = 0;
    let mut level = false;
    let mut latch = true;
    let mut per_row = Vec::new();
    for op in &ops {
        if let PortOp::Write(word) = op {
            let clk = word & CLK != 0;
            if clk && !level {
                clocks += 1;
            }
            level = clk;
            let lat = word & LAT != 0;
            if lat && !latch {
                per_row.push(clocks);
                clocks = 0;
            }
            latch = lat;
        }
    }
    assert_eq!(per_row, vec![5, 5, 5]);
}

#[test]
fn scan_step_honours_output_enable() {
    let mut panel = Hub75::<4, 2, false>::new(pins());
    panel.draw_pixel(1, 1, (255, 255, 255));
    assert_eq!(scan_step(&panel, true), panel.output());
    assert_eq!(scan_step(&panel, false), Vec::new());
}

#[test]
fn row_select_changes_only_after_a_latch() {
    let mut panel = Hub75::<3, 16, false>::new(pins());
    panel.clear((255, 128, 64));
    let refresh = panel.output();
    let mut writes = refresh.iter().filter_map(|op| match op {
        PortOp::Write(word) => Some(*word),
        PortOp::DelayUs(_) => None,
    });
    let first = writes.next().unwrap();
    let (mut before, mut last) = (first, first);
    let mut changes = 0;
    for word in writes {
        if word & (A | B | C) != last & (A | B | C) {
            // the word before raised the latch
            assert_eq!(last & LAT, LAT);
            assert_eq!(before & LAT, 0);
            changes += 1;
        }
        before = last;
        last = word;
    }
    // every row has other row-select bits than the row before it
    assert_eq!(changes, 16 * 16);
}

#[test]
fn passes_in_turn_are_the_refresh() {
    let mut panel = Hub75::<4, 2, false>::new(pins());
    panel.clear((100, 150, 200));
    panel.draw_pixel(2, 1, (255, 3, 77));
    assert_eq!(PASSES, 16);
    let mut refresh = Vec::new();
    for pass in 0..PASSES {
        let ops = scan_pass(&panel, true, pass);
        assert_eq!(ops, panel.output_single(THRESHOLDS[pass], pass == 0));
        refresh.extend(ops);
        assert_eq!(scan_pass(&panel, false, pass), Vec::new());
    }
    assert_eq!(refresh, scan_step(&panel, true));
    assert_eq!(scan_pass(&panel, true, 16), Vec::new());
    assert_eq!(scan_pass(&panel, true, usize::MAX), Vec::new());
}
