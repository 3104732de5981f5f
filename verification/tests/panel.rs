use uart_matrix::gamma::{gamma, GAMMA8};
use uart_matrix::hub75::{Hub75, Pins, PixelCell};

fn pins() -> Pins {
    Pins { r1: 0, g1: 1, b1: 5, r2: 6, g2: 7, b2: 8, a: 9, b: 10, c: 11, clock: 12, latch: 13, oe: 14 }
}

const DARK: PixelCell = PixelCell { r1: 0, g1: 0, b1: 0, r2: 0, g2: 0, b2: 0 };

fn all_dark<const W: usize, const R: usize, const S: bool>(panel: &Hub75<W, R, S>) -> bool {
    (0..R).all(|row| (0..W).all(|column| panel.cell(row, column) == Some(DARK)))
}

#[test]
fn gamma_table_is_monotonic_with_fixed_ends() {
    assert_eq!(gamma(0), 0);
    assert_eq!(gamma(255), 255);
    for raw in 0..255u8 {
        assert!(gamma(raw) <= gamma(raw + 1), "curve falls at {}", raw);
    }
}

#[test]
fn gamma_is_the_table_lookup() {
    assert_eq!(GAMMA8.len(), 256);
    assert_eq!(gamma(11), 0);
    assert_eq!(gamma(12), 1);
    assert_eq!(gamma(64), 16);
    assert_eq!(gamma(128), 64);
    assert_eq!(gamma(200), 157);
    assert_eq!(gamma(254), 253);
}

#[test]
fn pin_map_validity() {
    assert!(pins().is_valid());
    let mut twice = pins();
    twice.oe = 12;
    assert!(!twice.is_valid());
    let mut outside = pins();
    outside.r1 = 16;
    assert!(!outside.is_valid());
}

#[test]
fn pin_masks_are_single_bits() {
    let masks = pins().masks();
    assert_eq!(masks.r1, 1 << 0);
    assert_eq!(masks.b1, 1 << 5);
    assert_eq!(masks.c, 1 << 11);
    assert_eq!(masks.clock, 1 << 12);
    assert_eq!(masks.latch, 1 << 13);
    assert_eq!(masks.oe, 1 << 14);
}

#[test]
fn geometry_is_checked() {
    assert!(Hub75::<128, 16, false>::geometry_fits());
    assert!(Hub75::<128, 8, true>::geometry_fits());
    assert!(Hub75::<100, 16, false>::geometry_fits());
    assert!(!Hub75::<100, 8, true>::geometry_fits());
    assert!(!Hub75::<128, 0, false>::geometry_fits());
}

#[test]
fn new_panel_is_dark() {
    let panel = Hub75::<16, 4, false>::new(pins());
    assert!(all_dark(&panel));
    assert_eq!(panel.cell(4, 0), None);
    assert_eq!(panel.cell(0, 16), None);
}

#[test]
fn size_reports_the_image() {
    assert_eq!(Hub75::<128, 16, false>::new(pins()).size(), (128, 32));
    assert_eq!(Hub75::<128, 8, true>::new(pins()).size(), (64, 32));
    assert_eq!(Hub75::<64, 32, false>::new(pins()).size(), (64, 64));
}

#[test]
fn draw_pixel_stores_gamma_in_the_upper_half() {
    let mut panel = Hub75::<128, 16, false>::new(pins());
    panel.draw_pixel(3, 5, (128, 10, 255));
    assert_eq!(
        panel.cell(5, 3),
        Some(PixelCell { r1: 64, g1: 0, b1: 255, r2: 0, g2: 0, b2: 0 })
    );
    assert_eq!(panel.cell(5, 3).unwrap().r1, gamma(128));
    assert_eq!(panel.cell(5, 3).unwrap().g1, gamma(10));
}

#[test]
fn draw_pixel_stores_gamma_in_the_lower_half() {
    let mut panel = Hub75::<128, 16, false>::new(pins());
    panel.draw_pixel(127, 31, (200, 100, 50));
    assert_eq!(
        panel.cell(15, 127),
        Some(PixelCell { r1: 0, g1: 0, b1: 0, r2: gamma(200), g2: gamma(100), b2: gamma(50) })
    );
    panel.draw_pixel(127, 15, (1, 2, 30));
    assert_eq!(
        panel.cell(15, 127),
        Some(PixelCell {
            r1: gamma(1),
            g1: gamma(2),
            b1: gamma(30),
            r2: gamma(200),
            g2: gamma(100),
            b2: gamma(50)
        })
    );
}

#[test]
fn draw_pixel_discards_what_is_outside() {
    let mut panel = Hub75::<128, 16, false>::new(pins());
    for (x, y) in [(-1, 0), (0, -1), (128, 0), (0, 32), (200, 200), (i32::MAX, i32::MIN)] {
        panel.draw_pixel(x, y, (255, 255, 255));
    }
    assert!(all_dark(&panel));
}

#[test]
fn draw_pixel_with_stripe_multiplexing() {
    let mut panel = Hub75::<128, 8, true>::new(pins());
    panel.draw_pixel(0, 0, (255, 0, 0));
    assert_eq!(panel.cell(0, 32).unwrap().r1, 255);
    panel.draw_pixel(40, 20, (0, 255, 0));
    assert_eq!(panel.cell(4, 104).unwrap().g2, 255);
    panel.draw_pixel(5, 9, (0, 0, 255));
    assert_eq!(panel.cell(1, 5).unwrap().b1, 255);
    panel.draw_pixel(63, 31, (255, 255, 255));
    assert_eq!(
        panel.cell(7, 95),
        Some(PixelCell { r1: 0, g1: 0, b1: 0, r2: 255, g2: 255, b2: 255 })
    );
    let lit = (0..8)
        .flat_map(|row| (0..128).map(move |column| (row, column)))
        .filter(|&(row, column)| panel.cell(row, column) != Some(DARK))
        .count();
    assert_eq!(lit, 4);
}

#[test]
fn stripe_multiplexing_discards_what_is_outside() {
    let mut panel = Hub75::<128, 8, true>::new(pins());
    panel.draw_pixel(64, 0, (255, 255, 255));
    panel.draw_pixel(0, 32, (255, 255, 255));
    assert!(all_dark(&panel));
}

#[test]
fn clear_fills_both_halves_with_gamma() {
    let mut panel = Hub75::<8, 4, false>::new(pins());
    panel.clear((128, 0, 255));
    let cell = PixelCell { r1: 64, g1: 0, b1: 255, r2: 64, g2: 0, b2: 255 };
    for row in 0..4 {
        for column in 0..8 {
            assert_eq!(panel.cell(row, column), Some(cell));
        }
    }
}

#[test]
fn clear_display_switches_everything_off() {
    let mut panel = Hub75::<8, 4, false>::new(pins());
    panel.clear((255, 255, 255));
    panel.draw_pixel(1, 1, (3, 4, 5));
    panel.clear_display();
    assert!(all_dark(&panel));
}

#[test]
fn draw_iter_draws_in_order() {
    let mut panel = Hub75::<8, 4, false>::new(pins());
    panel.draw_iter(&[(1, 1, 255, 0, 0), (2, 6, 0, 255, 0), (1, 1, 0, 0, 255), (9, 9, 1, 1, 1)]);
    assert_eq!(
        panel.cell(1, 1),
        Some(PixelCell { r1: 0, g1: 0, b1: 255, r2: 0, g2: 0, b2: 0 })
    );
    assert_eq!(
        panel.cell(2, 2),
        Some(PixelCell { r1: 0, g1: 0, b1: 0, r2: 0, g2: 255, b2: 0 })
    );
}
