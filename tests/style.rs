use sereal::ansi_formatter::{parse_to_colorset, AnsiFormatter, ColorSet, StyledText};
use sereal::colors::{default_text_color, palette_color, Color};

fn rgb(red: u8, green: u8, blue: u8) -> Color {
    Color { red, green, blue, transparent: 255 }
}

fn fragment(text: &str, color: Color, background_color: Option<Color>) -> StyledText {
    StyledText { text: text.to_string(), color, background_color }
}

#[test]
fn palette_entries() {
    assert_eq!(palette_color(0, false), rgb(0, 0, 0));
    assert_eq!(palette_color(1, false), rgb(255, 60, 60));
    assert_eq!(palette_color(4, false), rgb(0, 130, 255));
    assert_eq!(palette_color(7, false), rgb(235, 235, 235));
    assert_eq!(palette_color(0, true), rgb(128, 128, 128));
    assert_eq!(palette_color(3, true), rgb(255, 255, 120));
    assert_eq!(palette_color(7, true), rgb(255, 255, 255));
    assert_eq!(default_text_color(), rgb(235, 235, 235));
}

#[test]
fn colorset_from_parameters() {
    let red_on_green = parse_to_colorset(vec![31, 42]);
    assert_eq!(
        red_on_green,
        ColorSet {
            text_color: Some(rgb(255, 60, 60)),
            background_color: Some(rgb(60, 255, 60)),
            is_reset: false
        }
    );
    let bright = parse_to_colorset(vec![96, 105]);
    assert_eq!(bright.text_color, Some(rgb(130, 255, 255)));
    assert_eq!(bright.background_color, Some(rgb(255, 100, 255)));
    let ignored = parse_to_colorset(vec![1, 38, 200, 34]);
    assert_eq!(ignored.text_color, Some(rgb(0, 130, 255)));
    assert_eq!(ignored.background_color, None);
    assert!(!ignored.is_reset);
    let empty = parse_to_colorset(vec![]);
    assert_eq!(empty, ColorSet { text_color: None, background_color: None, is_reset: false });
}

#[test]
fn zero_resets_and_ends_the_sequence() {
    let reset = ColorSet { text_color: None, background_color: None, is_reset: true };
    assert_eq!(parse_to_colorset(vec![0]), reset);
    assert_eq!(parse_to_colorset(vec![31, 0]), reset);
    assert_eq!(parse_to_colorset(vec![0, 31]), reset);
}

#[test]
fn red_then_reset() {
    let mut formatter = AnsiFormatter::default();
    let out = formatter.to_rich_text(&"\x1b[31mRED\x1b[0mPLAIN".to_string());
    assert_eq!(
        out,
        vec![
            fragment("RED", rgb(255, 60, 60), None),
            fragment("PLAIN", default_text_color(), None),
        ]
    );
}

#[test]
fn colour_carries_across_chunks_until_reset() {
    let mut formatter = AnsiFormatter::default();
    let first = formatter.to_rich_text(&"\x1b[31mABC".to_string());
    assert_eq!(first, vec![fragment("ABC", rgb(255, 60, 60), None)]);
    let second = formatter.to_rich_text(&"DEF".to_string());
    assert_eq!(second, vec![fragment("DEF", rgb(255, 60, 60), None)]);
    formatter.reset();
    let third = formatter.to_rich_text(&"GHI".to_string());
    assert_eq!(third, vec![fragment("GHI", default_text_color(), None)]);
}

#[test]
fn background_and_text_colours_merge() {
    let mut formatter = AnsiFormatter::default();
    let out = formatter.to_rich_text(&"\x1b[44mA\x1b[93mB\x1b[mC".to_string());
    assert_eq!(
        out,
        vec![
            fragment("A", default_text_color(), Some(rgb(0, 130, 255))),
            fragment("B", rgb(255, 255, 120), Some(rgb(0, 130, 255))),
            fragment("C", rgb(255, 255, 120), Some(rgb(0, 130, 255))),
        ]
    );
}

#[test]
fn plain_text_is_one_fragment_and_empty_text_none() {
    let mut formatter = AnsiFormatter::default();
    assert_eq!(
        formatter.to_rich_text(&"hello world".to_string()),
        vec![fragment("hello world", default_text_color(), None)]
    );
    assert_eq!(formatter.to_rich_text(&String::new()), vec![]);
    assert_eq!(formatter.to_rich_text(&"\x1b[32m".to_string()), vec![]);
    assert_eq!(
        formatter.to_rich_text(&"x".to_string()),
        vec![fragment("x", rgb(60, 255, 60), None)]
    );
}

#[test]
fn other_control_sequences_are_dropped() {
    let mut formatter = AnsiFormatter::default();
    let out = formatter.to_rich_text(&"a\x1b[2Jb\x1b[Kc".to_string());
    assert_eq!(
        out,
        vec![
            fragment("a", default_text_color(), None),
            fragment("b", default_text_color(), None),
            fragment("c", default_text_color(), None),
        ]
    );
}
