use uart_matrix::command_interpreter::{DrawCircle, DrawLine, DrawRectangle, DrawTriangle};
use uart_matrix::display::font::Font;
use uart_matrix::display::glyphs::{MAX_TEXT_LENGTH, TEXT_MARGIN, TEXT_REACH};
use uart_matrix::display::text_display::{RowDraw, RowStyle};
use uart_matrix::display::DisplayError;
use uart_matrix::hub75::{Hub75, Pins};
use uart_matrix::shapes::{line_is_drawable, triangle_is_drawable};

type Panel = Hub75<128, 16, false>;

fn pins() -> Pins {
    Pins { r1: 0, g1: 1, b1: 5, r2: 6, g2: 7, b2: 8, a: 9, b: 10, c: 11, clock: 12, latch: 13, oe: 14 }
}

/// A small generator of numbers that look random and are the same in every run.
struct Numbers(u64);

impl Numbers {
    fn next(&mut self) -> u64 {
        self.0 = self.0.wrapping_mul(6364136223846793005).wrapping_add(1442695040888963407);
        self.0 >> 33
    }

    fn byte(&mut self) -> u8 {
        (self.next() % 256) as u8
    }

    fn below(&mut self, bound: u8) -> u8 {
        (self.next() % u64::from(bound)) as u8
    }

    fn point(&mut self) -> (u8, u8) {
        (self.byte(), self.byte())
    }
}

#[test]
fn every_line_is_drawn_or_refused() {
    let mut numbers = Numbers(1);
    let mut panel = Panel::new(pins());
    let (mut drawn, mut refused) = (0, 0);
    for round in 0..600 {
        let thickness = match round % 3 {
            0 => numbers.below(8),
            1 => numbers.below(80),
            _ => numbers.byte(),
        };
        let line = DrawLine {
            point_a: numbers.point(),
            point_b: numbers.point(),
            thickness,
            color: (255, 255, 255),
        };
        let fits = line_is_drawable(line.point_a, line.point_b, line.thickness);
        match line.execute(&mut panel) {
            Ok(()) => {
                assert!(fits);
                drawn += 1;
            }
            Err(error) => {
                assert_eq!(error, DisplayError::DrawError);
                assert!(!fits);
                refused += 1;
            }
        }
    }
    assert!(drawn > 200 && refused > 50, "{} drawn, {} refused", drawn, refused);
}

#[test]
fn lines_at_the_limit_are_drawn() {
    let mut panel = Panel::new(pins());
    // for every length along an axis and along the diagonal, the widest
    // stroke that fits
    for length in [1u8, 2, 3, 10, 64, 65, 100, 128, 181, 200, 254, 255] {
        for (to, diagonal) in [((length, 0), false), ((0, length), false), ((length, length), true)] {
            let widest = (0..=255u8)
                .rev()
                .find(|&thickness| line_is_drawable((0, 0), to, thickness))
                .unwrap();
            let squared = u64::from(length) * u64::from(length) * if diagonal { 2 } else { 1 };
            let weight = 4 * u64::from(widest) * u64::from(widest) * squared;
            let root = 46_340 - 2 * u64::from(length);
            assert!(weight <= root * root);
            if widest < 255 {
                let next = u64::from(widest) + 1;
                assert!(4 * next * next * squared > root * root);
            }
            for (from, to) in [((0, 0), to), (to, (0, 0)), ((255 - to.0, 255 - to.1), (255, 255))] {
                let line = DrawLine { point_a: from, point_b: to, thickness: widest, color: (1, 2, 3) };
                assert_eq!(line.execute(&mut panel), Ok(()));
            }
        }
    }
    // a line without length takes every stroke
    for thickness in [0, 1, 2, 100, 255] {
        let line = DrawLine { point_a: (7, 7), point_b: (7, 7), thickness, color: (1, 2, 3) };
        assert_eq!(line.execute(&mut panel), Ok(()));
    }
    // a stroke as wide as the line is long
    let line = DrawLine { point_a: (0, 0), point_b: (129, 0), thickness: 128, color: (1, 2, 3) };
    assert_eq!(line.execute(&mut panel), Ok(()));
    // the longest line, with the widest stroke it takes and the next one
    assert!(line_is_drawable((0, 0), (255, 255), 63));
    assert!(!line_is_drawable((0, 0), (255, 255), 64));
    assert!(line_is_drawable((0, 0), (255, 0), 89));
    assert!(!line_is_drawable((0, 0), (255, 0), 90));
}

#[test]
fn thin_triangles_are_drawn_up_to_the_largest_area() {
    let mut panel = Panel::new(pins());
    let mut numbers = Numbers(7);
    let mut drawn = 0;
    for round in 0..400 {
        let corners = if round % 2 == 0 {
            (numbers.point(), numbers.point(), numbers.point())
        } else {
            // a pointed one: the third corner close to the first edge
            let a = numbers.point();
            let b = numbers.point();
            let c = (
                ((u16::from(a.0) + u16::from(b.0)) / 2) as u8,
                (((u16::from(a.1) + u16::from(b.1)) / 2) as u8).saturating_add(numbers.below(4)),
            );
            (a, b, c)
        };
        let (a, b, c) = corners;
        let cross = (i64::from(b.0) - i64::from(a.0)) * (i64::from(c.1) - i64::from(b.1))
            - (i64::from(b.1) - i64::from(a.1)) * (i64::from(c.0) - i64::from(b.0));
        for thickness in [0, 1] {
            assert_eq!(triangle_is_drawable(corners, thickness), cross.abs() <= 46_340);
            let triangle = DrawTriangle {
                point_a: a,
                point_b: b,
                point_c: c,
                thickness,
                color: (255, 255, 255),
                filled: round % 3 == 0,
            };
            if cross.abs() <= 46_340 {
                assert_eq!(triangle.execute(&mut panel), Ok(()));
                drawn += 1;
            } else {
                assert_eq!(triangle.execute(&mut panel), Err(DisplayError::DrawError));
            }
        }
    }
    assert!(drawn > 300, "{} drawn", drawn);
    // a flat triangle under a thin stroke
    let flat = DrawTriangle {
        point_a: (0, 0),
        point_b: (30, 0),
        point_c: (15, 4),
        thickness: 1,
        color: (255, 255, 255),
        filled: false,
    };
    assert_eq!(flat.execute(&mut panel), Ok(()));
    // doubled areas of 46 340 and of 46 341
    for thickness in [0, 1] {
        for (corners, fits) in [
            (((0, 0), (255, 7), (10, 182)), true),
            (((10, 182), (255, 7), (0, 0)), true),
            (((0, 0), (255, 3), (23, 182)), false),
            (((0, 0), (255, 0), (0, 181)), true),
            (((0, 0), (255, 0), (0, 182)), false),
        ] {
            assert_eq!(triangle_is_drawable(corners, thickness), fits);
            let triangle = DrawTriangle {
                point_a: corners.0,
                point_b: corners.1,
                point_c: corners.2,
                thickness,
                color: (255, 255, 255),
                filled: true,
            };
            let expected = if fits { Ok(()) } else { Err(DisplayError::DrawError) };
            assert_eq!(triangle.execute(&mut panel), expected);
        }
    }
}

#[test]
fn every_triangle_is_drawn_or_refused() {
    let mut numbers = Numbers(2);
    let mut panel = Panel::new(pins());
    let (mut drawn, mut refused) = (0, 0);
    for round in 0..500 {
        let small = round % 2 == 0;
        let mut corner = |numbers: &mut Numbers| {
            if small {
                (numbers.below(140), numbers.below(70))
            } else {
                numbers.point()
            }
        };
        let triangle = DrawTriangle {
            point_a: corner(&mut numbers),
            point_b: corner(&mut numbers),
            point_c: corner(&mut numbers),
            thickness: match round % 5 {
                0 => 0,
                1 => 1,
                2 => numbers.below(6),
                3 => numbers.below(40),
                _ => numbers.byte(),
            },
            color: (255, 255, 255),
            filled: round % 3 == 0,
        };
        let fits = triangle_is_drawable(
            (triangle.point_a, triangle.point_b, triangle.point_c),
            triangle.thickness,
        );
        match triangle.execute(&mut panel) {
            Ok(()) => {
                assert!(fits);
                drawn += 1;
            }
            Err(error) => {
                assert_eq!(error, DisplayError::DrawError);
                assert!(!fits);
                refused += 1;
            }
        }
    }
    assert!(drawn > 150 && refused > 20, "{} drawn, {} refused", drawn, refused);
}

#[test]
fn pointed_triangles_at_the_limit_are_drawn() {
    let mut panel = Panel::new(pins());
    let mut drawn = 0;
    for base in [1u8, 3, 10, 31, 64, 100, 127, 200, 255] {
        // the flattest triangles over this base that fit, with the third
        // corner above either end and above the middle
        for third in [0, base / 2, base] {
            for thickness in [0u8, 1, 2, 3, 5, 8, 20, 50, 255] {
                let flattest = (1..=255u8).find(|&height| {
                    triangle_is_drawable(((0, 0), (base, 0), (third, height)), thickness)
                });
                let height = match flattest {
                    Some(height) => height,
                    None => continue,
                };
                for corners in [
                    ((0, 0), (base, 0), (third, height)),
                    ((base, 0), (0, 0), (third, height)),
                    ((0, 0), (0, base), (height, third)),
                    ((255, 255), (255 - base, 255), (255 - third, 255 - height)),
                ] {
                    assert!(triangle_is_drawable(corners, thickness));
                    for filled in [false, true] {
                        let triangle = DrawTriangle {
                            point_a: corners.0,
                            point_b: corners.1,
                            point_c: corners.2,
                            thickness,
                            color: (255, 255, 255),
                            filled,
                        };
                        assert_eq!(triangle.execute(&mut panel), Ok(()));
                        drawn += 1;
                    }
                }
            }
        }
    }
    assert!(drawn > 300, "{} drawn", drawn);
}

#[test]
fn triangles_without_area_are_drawn_or_refused() {
    let mut panel = Panel::new(pins());
    let mut drawn = 0;
    for corners in [
        ((5, 5), (5, 5), (5, 5)),
        ((5, 5), (5, 5), (9, 5)),
        ((0, 0), (10, 10), (20, 20)),
        ((0, 0), (20, 0), (10, 0)),
        ((20, 0), (0, 0), (10, 0)),
        ((0, 0), (0, 30), (0, 7)),
        ((0, 0), (255, 255), (128, 128)),
        ((0, 0), (3, 1), (6, 2)),
        ((0, 0), (30, 10), (60, 20)),
        ((0, 0), (30, 10), (61, 20)),
        ((0, 0), (61, 20), (30, 10)),
    ] {
        for thickness in [0, 1, 2, 9, 40, 255] {
            let triangle = DrawTriangle {
                point_a: corners.0,
                point_b: corners.1,
                point_c: corners.2,
                thickness,
                color: (255, 255, 255),
                filled: true,
            };
            match triangle.execute(&mut panel) {
                Ok(()) => {
                    assert!(triangle_is_drawable(corners, thickness));
                    drawn += 1;
                }
                Err(error) => {
                    assert_eq!(error, DisplayError::DrawError);
                    assert!(!triangle_is_drawable(corners, thickness));
                }
            }
        }
    }
    assert!(drawn > 10, "{} drawn", drawn);
}

#[test]
fn every_rectangle_and_circle_is_drawn() {
    let mut numbers = Numbers(3);
    let mut panel = Panel::new(pins());
    for round in 0..150 {
        let thickness = if round % 2 == 0 { numbers.below(5) } else { numbers.byte() };
        let rectangle = DrawRectangle {
            point_a: numbers.point(),
            point_b: numbers.point(),
            thickness,
            color: (255, 255, 255),
            filled: round % 3 == 0,
        };
        assert_eq!(rectangle.execute(&mut panel), Ok(()));
        let circle = DrawCircle {
            center: numbers.point(),
            radius: if round % 4 == 0 { numbers.byte() } else { numbers.below(40) },
            thickness,
            color: (255, 255, 255),
            filled: round % 3 == 1,
        };
        assert_eq!(circle.execute(&mut panel), Ok(()));
    }
    for (radius, thickness) in [(0, 0), (0, 255), (255, 0), (255, 1), (255, 255), (1, 255)] {
        for center in [(0, 0), (255, 255), (0, 255), (128, 16)] {
            for filled in [false, true] {
                let circle = DrawCircle { center, radius, thickness, color: (9, 9, 9), filled };
                assert_eq!(circle.execute(&mut panel), Ok(()));
            }
        }
    }
    for (a, b) in [((0, 0), (255, 255)), ((255, 255), (0, 0)), ((0, 255), (255, 0)), ((3, 3), (3, 3))] {
        for thickness in [0, 1, 2, 127, 128, 255] {
            for filled in [false, true] {
                let rectangle =
                    DrawRectangle { point_a: a, point_b: b, thickness, color: (9, 9, 9), filled };
                assert_eq!(rectangle.execute(&mut panel), Ok(()));
            }
        }
    }
}

#[test]
fn text_at_the_ends_of_its_reach_is_handled() {
    let mut panel = Panel::new(pins());
    let long: String = "Wj\n".repeat(MAX_TEXT_LENGTH / 3);
    let lowest = -TEXT_REACH + TEXT_MARGIN;
    for font in [Font::Default, Font::ProFont, Font::Ibm] {
        let style = RowStyle { font, color: (255, 255, 255) };
        for text in ["", "A", "zażółć\ngęślą", long.as_str()] {
            for x in [lowest, lowest + 1, -1, 0, 127, TEXT_REACH - 1, TEXT_REACH] {
                for y in [lowest, lowest + 1, -1, 0, 31, TEXT_REACH - 1, TEXT_REACH] {
                    panel.draw_text(&RowDraw { text: text.into(), x, y, style });
                }
            }
        }
    }
    // beyond its reach a text is left out
    let mut panel = Panel::new(pins());
    let style = RowStyle { font: Font::Default, color: (255, 255, 255) };
    for (x, y) in [
        (lowest - 1, 8),
        (0, lowest - 1),
        (TEXT_REACH + 1, 8),
        (0, TEXT_REACH + 1),
        (i32::MIN, i32::MIN),
        (i32::MAX, i32::MAX),
    ] {
        panel.draw_text(&RowDraw { text: "A".into(), x, y, style });
    }
    panel.draw_text(&RowDraw { text: "A".repeat(MAX_TEXT_LENGTH + 1), x: 0, y: 8, style });
    for row in 0..16 {
        for column in 0..128 {
            assert_eq!(panel.cell(row, column), Panel::new(pins()).cell(row, column));
        }
    }
    // and within it, it is drawn
    panel.draw_text(&RowDraw { text: "A".repeat(MAX_TEXT_LENGTH), x: 0, y: 8, style });
    assert!((0..128).any(|column| panel.cell(4, column).unwrap().r1 != 0));
}

/// Draws, for edges that look random, the most pointed triangles over them
/// that fit, and tells how many.
fn most_pointed(seed: u64, rounds: usize) -> usize {
    let mut numbers = Numbers(seed);
    let mut panel = Panel::new(pins());
    let mut drawn = 0;
    for _ in 0..rounds {
        let a = numbers.point();
        let b = numbers.point();
        let t = i32::from(numbers.below(160)) - 30;
        let on_line = (
            a.0 as i32 + (b.0 as i32 - a.0 as i32) * t / 100,
            a.1 as i32 + (b.1 as i32 - a.1 as i32) * t / 100,
        );
        let sideways = if numbers.below(2) == 0 { (1, 0) } else { (0, 1) };
        let sign = if numbers.below(2) == 0 { 1 } else { -1 };
        for thickness in [0u8, 1, 2, 3, 5, 9, 17, 33, 64] {
            // the first point beside the line that makes a triangle that fits
            let c = (0..256).find_map(|away| {
                let x = on_line.0 + sign * sideways.0 * away;
                let y = on_line.1 + sign * sideways.1 * away;
                if !(0..256).contains(&x) || !(0..256).contains(&y) {
                    return None;
                }
                let c = (x as u8, y as u8);
                if triangle_is_drawable((a, b, c), thickness) {
                    Some(c)
                } else {
                    None
                }
            });
            if let Some(c) = c {
                for corners in [(a, b, c), (b, c, a), (c, b, a)] {
                    assert!(triangle_is_drawable(corners, thickness));
                    let triangle = DrawTriangle {
                        point_a: corners.0,
                        point_b: corners.1,
                        point_c: corners.2,
                        thickness,
                        color: (255, 255, 255),
                        filled: false,
                    };
                    assert_eq!(triangle.execute(&mut panel), Ok(()));
                    drawn += 1;
                }
            }
        }
    }
    drawn
}


#[test]
fn most_pointed_triangles_over_an_edge_are_drawn() {
    assert!(most_pointed(31, 40) > 100);
    assert!(most_pointed(32, 40) > 100);
}
