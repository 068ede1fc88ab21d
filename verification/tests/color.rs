use vga_buffer::{Color, ColorCode};

const ALL_COLORS: [Color; 16] = [
    Color::Black,
    Color::Blue,
    Color::Green,
    Color::Cyan,
    Color::Red,
    Color::Magenta,
    Color::Brown,
    Color::LightGray,
    Color::DarkGray,
    Color::LightBlue,
    Color::LightGreen,
    Color::LightCyan,
    Color::LightRed,
    Color::Pink,
    Color::Yellow,
    Color::White,
];

#[test]
fn color_codes_count_up_from_zero() {
    for (expected, color) in ALL_COLORS.iter().enumerate() {
        assert_eq!(color.code() as usize, expected);
    }
}

#[test]
fn color_codes_of_named_colors() {
    assert_eq!(Color::Black.code(), 0);
    assert_eq!(Color::LightGray.code(), 7);
    assert_eq!(Color::DarkGray.code(), 8);
    assert_eq!(Color::Yellow.code(), 14);
    assert_eq!(Color::White.code(), 15);
}

#[test]
fn color_code_packs_background_high_and_foreground_low() {
    assert_eq!(ColorCode::new(Color::Yellow, Color::Black).bits(), 0x0e);
    assert_eq!(ColorCode::new(Color::White, Color::Blue).bits(), 0x1f);
    assert_eq!(ColorCode::new(Color::Black, Color::White).bits(), 0xf0);
    assert_eq!(ColorCode::new(Color::LightRed, Color::Green).bits(), 0x2c);
    assert_eq!(ColorCode::new(Color::Black, Color::Black).bits(), 0x00);
    assert_eq!(ColorCode::new(Color::White, Color::White).bits(), 0xff);
}

#[test]
fn color_code_is_sixteen_times_background_plus_foreground() {
    for background in ALL_COLORS {
        for foreground in ALL_COLORS {
            let bits = ColorCode::new(foreground, background).bits();
            assert_eq!(bits, 16 * background.code() + foreground.code());
            assert_eq!(bits & 0x0f, foreground.code());
            assert_eq!(bits >> 4, background.code());
        }
    }
}

#[test]
fn color_code_tells_foreground_from_background() {
    let one = ColorCode::new(Color::Red, Color::Blue);
    let other = ColorCode::new(Color::Blue, Color::Red);
    assert_ne!(one, other);
    assert_eq!(one, ColorCode::new(Color::Red, Color::Blue));
}

#[test]
fn every_pair_of_colors_has_its_own_code() {
    let mut seen = [false; 256];
    for background in ALL_COLORS {
        for foreground in ALL_COLORS {
            let bits = ColorCode::new(foreground, background).bits() as usize;
            assert!(!seen[bits]);
            seen[bits] = true;
        }
    }
    assert!(seen.iter().all(|&s| s));
}
