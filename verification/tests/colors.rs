use alacritty_terminal::term::color::{Colors, COUNT};
use alacritty_terminal::vte::ansi::{NamedColor as VteColor, Rgb as VteRgb};
use cce_terminal::colors::{
    ansi_name, default_color, indexed, overridden, resolve, scale, Color, ColorConfig, NamedColor,
    Palette, Rgb, COLOR_COUNT,
};

const NAMES: [(NamedColor, VteColor); 29] = [
    (NamedColor::Black, VteColor::Black),
    (NamedColor::Red, VteColor::Red),
    (NamedColor::Green, VteColor::Green),
    (NamedColor::Yellow, VteColor::Yellow),
    (NamedColor::Blue, VteColor::Blue),
    (NamedColor::Magenta, VteColor::Magenta),
    (NamedColor::Cyan, VteColor::Cyan),
    (NamedColor::White, VteColor::White),
    (NamedColor::BrightBlack, VteColor::BrightBlack),
    (NamedColor::BrightRed, VteColor::BrightRed),
    (NamedColor::BrightGreen, VteColor::BrightGreen),
    (NamedColor::BrightYellow, VteColor::BrightYellow),
    (NamedColor::BrightBlue, VteColor::BrightBlue),
    (NamedColor::BrightMagenta, VteColor::BrightMagenta),
    (NamedColor::BrightCyan, VteColor::BrightCyan),
    (NamedColor::BrightWhite, VteColor::BrightWhite),
    (NamedColor::Foreground, VteColor::Foreground),
    (NamedColor::Background, VteColor::Background),
    (NamedColor::Cursor, VteColor::Cursor),
    (NamedColor::DimBlack, VteColor::DimBlack),
    (NamedColor::DimRed, VteColor::DimRed),
    (NamedColor::DimGreen, VteColor::DimGreen),
    (NamedColor::DimYellow, VteColor::DimYellow),
    (NamedColor::DimBlue, VteColor::DimBlue),
    (NamedColor::DimMagenta, VteColor::DimMagenta),
    (NamedColor::DimCyan, VteColor::DimCyan),
    (NamedColor::DimWhite, VteColor::DimWhite),
    (NamedColor::BrightForeground, VteColor::BrightForeground),
    (NamedColor::DimForeground, VteColor::DimForeground),
];

fn no_config() -> ColorConfig {
    ColorConfig {
        foreground: None,
        background: None,
        cursor: None,
        selection: None,
        ansi: [None; 16],
    }
}

#[test]
fn cube_and_gray_ramp() {
    let p = Palette::default();
    // 16 = cube (0,0,0); 231 = cube (255,255,255); 244 = mid gray.
    assert_eq!(default_color(16, &p), Rgb { r: 0, g: 0, b: 0 });
    assert_eq!(default_color(231, &p), Rgb { r: 255, g: 255, b: 255 });
    assert_eq!(default_color(196, &p), Rgb { r: 255, g: 0, b: 0 }); // cube (5,0,0)
    assert_eq!(default_color(244, &p), Rgb { r: 128, g: 128, b: 128 });
}

#[test]
fn named_specials() {
    let p = Palette::default();
    let foreground = Rgb { r: 0xd8, g: 0xd8, b: 0xde };
    let background = Rgb { r: 0x22, g: 0x26, b: 0x2e };
    let red = Rgb { r: 0xac, g: 0x42, b: 0x42 };
    assert_eq!(default_color(NamedColor::Foreground.index(), &p), foreground);
    assert_eq!(default_color(NamedColor::Background.index(), &p), background);
    assert_eq!(default_color(NamedColor::DimRed.index(), &p), scale(red));
}

#[test]
fn resolve_respects_overrides_and_palette() {
    let mut overrides = Colors::default();
    overrides[VteColor::Red as usize] = Some(VteRgb { r: 1, g: 2, b: 3 });
    let custom = Rgb { r: 1, g: 2, b: 3 };
    let mut p = Palette::default();
    p.ansi[2] = Rgb { r: 9, g: 9, b: 9 }; // configured green
    // An override wins over the configured palette; the palette wins over the
    // compiled default.
    assert_eq!(resolve(Color::Named(NamedColor::Red), &overrides, false, &p), custom);
    assert_eq!(
        resolve(Color::Named(NamedColor::Green), &overrides, false, &p),
        Rgb { r: 9, g: 9, b: 9 }
    );
    assert_eq!(resolve(Color::Indexed(1), &overrides, false, &p), custom);
}

#[test]
fn slots_are_those_of_the_color_table() {
    assert_eq!(COLOR_COUNT, COUNT);
    for (name, vte) in NAMES {
        assert_eq!(name.index(), vte as usize);
    }
}

#[test]
fn dim_names_go_where_the_terminal_dims_them() {
    let mut overrides = Colors::default();
    for i in 0..COUNT {
        overrides[i] = Some(VteRgb { r: (i / 256) as u8, g: (i % 256) as u8, b: 7 });
    }
    let p = Palette::default();
    for (name, vte) in NAMES {
        let slot = vte.to_dim() as usize;
        assert_eq!(
            resolve(Color::Named(name), &overrides, true, &p),
            Rgb { r: (slot / 256) as u8, g: (slot % 256) as u8, b: 7 }
        );
    }
}

#[test]
fn scaling_is_by_two_thirds_or_so() {
    for v in 0..=255u8 {
        let expected = (v as f32 * 0.66) as u8;
        assert_eq!(
            scale(Rgb { r: v, g: v, b: v }),
            Rgb { r: expected, g: expected, b: expected }
        );
    }
    assert_eq!(scale(Rgb { r: 100, g: 200, b: 50 }), Rgb { r: 66, g: 132, b: 33 });
}

#[test]
fn every_slot_reads_its_own_override() {
    let p = Palette::default();
    for i in 0..COUNT {
        let mut overrides = Colors::default();
        overrides[i] = Some(VteRgb { r: 11, g: 22, b: 33 });
        assert_eq!(indexed(i, &overrides, &p), Rgb { r: 11, g: 22, b: 33 });
        assert_eq!(indexed(i, &Colors::default(), &p), default_color(i, &p));
    }
    assert_eq!(overridden(Some((1, 2, 3)), 0, &p), Rgb { r: 1, g: 2, b: 3 });
    assert_eq!(overridden(None, 0, &p), p.ansi[0]);
}

#[test]
fn direct_and_indexed_colors_scale_when_dim() {
    let p = Palette::default();
    let none = Colors::default();
    let rgb = Rgb { r: 100, g: 150, b: 200 };
    assert_eq!(resolve(Color::Spec(rgb), &none, false, &p), rgb);
    assert_eq!(resolve(Color::Spec(rgb), &none, true, &p), Rgb { r: 66, g: 99, b: 132 });
    assert_eq!(resolve(Color::Indexed(231), &none, true, &p), Rgb { r: 168, g: 168, b: 168 });
    assert_eq!(resolve(Color::Named(NamedColor::Red), &none, true, &p), scale(p.ansi[1]));
    assert_eq!(resolve(Color::Named(NamedColor::BrightRed), &none, true, &p), p.ansi[1]);
    assert_eq!(
        resolve(Color::Named(NamedColor::BrightForeground), &none, true, &p),
        p.foreground
    );
    assert_eq!(
        resolve(Color::Named(NamedColor::Foreground), &none, true, &p),
        scale(p.foreground)
    );
}

#[test]
fn cube_holds_all_combinations_and_the_ramp_climbs() {
    let p = Palette::default();
    let levels = [0u8, 95, 135, 175, 215, 255];
    for r in 0..6 {
        for g in 0..6 {
            for b in 0..6 {
                assert_eq!(
                    default_color(16 + 36 * r + 6 * g + b, &p),
                    Rgb { r: levels[r], g: levels[g], b: levels[b] }
                );
            }
        }
    }
    assert_eq!(default_color(232, &p), Rgb { r: 8, g: 8, b: 8 });
    assert_eq!(default_color(255, &p), Rgb { r: 238, g: 238, b: 238 });
    assert_eq!(default_color(NamedColor::Cursor.index(), &p), p.cursor);
    assert_eq!(default_color(NamedColor::BrightForeground.index(), &p), p.foreground);
    assert_eq!(default_color(5000, &p), p.foreground);
}

#[test]
fn configuration_falls_back_to_the_defaults() {
    assert_eq!(Palette::from_config(&no_config()), Palette::default());
    let red = Palette::default().ansi[1];
    assert_eq!(red, Rgb { r: 0xac, g: 0x42, b: 0x42 });
}

#[test]
fn configured_entries_win() {
    let mut config = no_config();
    config.foreground = Some([1, 2, 3, 4]);
    config.background = Some([5, 6, 7, 255]);
    config.selection = Some([8, 9, 10, 0]);
    config.ansi[15] = Some([11, 12, 13, 14]);
    let p = Palette::from_config(&config);
    assert_eq!(p.foreground, Rgb { r: 1, g: 2, b: 3 });
    // The cursor follows the foreground.
    assert_eq!(p.cursor, Rgb { r: 1, g: 2, b: 3 });
    assert_eq!(p.background, Rgb { r: 5, g: 6, b: 7 });
    assert_eq!(p.selection, Rgb { r: 8, g: 9, b: 10 });
    assert_eq!(p.ansi[15], Rgb { r: 11, g: 12, b: 13 });
    assert_eq!(p.ansi[14], Palette::default().ansi[14]);
    config.cursor = Some([20, 21, 22, 23]);
    assert_eq!(Palette::from_config(&config).cursor, Rgb { r: 20, g: 21, b: 22 });
}

#[test]
fn ansi_slots_have_names() {
    assert_eq!(ansi_name(0), "black");
    assert_eq!(ansi_name(3), "yellow");
    assert_eq!(ansi_name(8), "bright_black");
    assert_eq!(ansi_name(15), "bright_white");
}
