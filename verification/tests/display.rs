use lifelinetty::display::icon_bank::{GlyphWriter, IconBank, IconPalette, PaletteRequest};
use lifelinetty::display::overlays::{
    advance_offset, line_needs_scroll, mark_last_column, render_bar, truncate_to_width,
    truncate_with_ellipsis, view_line, view_with_scroll, SCROLL_GAP,
};
use lifelinetty::payload::Icon;

#[derive(Default)]
struct TestWriter {
    writes: Vec<(u8, [u8; 8])>,
}

impl GlyphWriter for TestWriter {
    fn write_glyph(&mut self, slot: u8, bitmap: &[u8; 8]) -> lifelinetty::Result<()> {
        self.writes.push((slot, *bitmap));
        Ok(())
    }
}

#[test]
fn reuses_slots_for_repeated_icons() {
    let mut bank = IconBank::new();
    let mut writer = TestWriter::default();
    let icon_list = [Icon::Battery];
    let request = PaletteRequest {
        bar_required: false,
        heartbeat: false,
        icons: &icon_list,
    };

    let palette = bank.build_palette(&mut writer, request).unwrap();
    assert_eq!(palette.missing_icons.len(), 0);
    assert_eq!(palette.icon_char(Icon::Battery).map(|c| c as u8), Some(0));
    let first_writes = writer.writes.len();
    assert!(first_writes > 0, "initial glyph write should occur");

    let palette = bank.build_palette(&mut writer, request).unwrap();
    assert_eq!(palette.missing_icons.len(), 0);
    assert_eq!(
        writer.writes.len(),
        first_writes,
        "subsequent call should reuse slot"
    );
    assert_eq!(palette.icon_char(Icon::Battery).map(|c| c as u8), Some(0));
}

#[test]
fn reports_missing_icons_when_capacity_exceeded() {
    let mut bank = IconBank::new();
    let mut writer = TestWriter::default();
    let icons = [
        Icon::Arrow,
        Icon::Bell,
        Icon::Note,
        Icon::Clockface,
        Icon::Duck,
    ];
    let palette = bank
        .build_palette(
            &mut writer,
            PaletteRequest {
                bar_required: true,
                heartbeat: true,
                icons: &icons,
            },
        )
        .unwrap();

    assert!(palette.icon_char(icons[0]).is_some());
    assert_eq!(palette.missing_icons.len(), icons.len() - 1);
    assert!(palette
        .missing_icons
        .iter()
        .all(|icon| icons[1..].contains(icon)));
}

#[test]
fn bar_and_heartbeat_take_the_first_slots() {
    let mut bank = IconBank::new();
    let mut writer = TestWriter::default();
    let palette = bank
        .build_palette(
            &mut writer,
            PaletteRequest { bar_required: true, heartbeat: true, icons: &[] },
        )
        .unwrap();
    assert_eq!(writer.writes.len(), 7);
    assert_eq!(palette.heartbeat_char() as u8, 6);
    assert_eq!(palette.bar_char(0) as u8, 0);
    assert_eq!(palette.bar_char(5) as u8, 5);
}

#[test]
fn empty_palette_falls_back_to_ascii() {
    let palette = IconPalette::new();
    assert_eq!(palette.icon_char(Icon::Battery), None);
    assert!(palette.missing_icons.is_empty());
}

#[test]
fn view_with_scroll_wraps_through_gap() {
    let text = "HELLOWORLD";
    let width = 4;
    let len = text.chars().count();

    let start = view_with_scroll(text, width, 0);
    let before_gap = view_with_scroll(text, width, len - 1);
    let after_gap = view_with_scroll(text, width, len + SCROLL_GAP.chars().count() + len);

    assert_ne!(before_gap, start, "should advance before wrap");
    assert_eq!(after_gap, start, "should wrap around after gap");
}

#[test]
fn view_with_scroll_shows_gap_marker() {
    let text = "HELLOWORLD";
    let width = 5;
    let offset = text.chars().count() + SCROLL_GAP.chars().position(|c| c == '|').unwrap_or(0);
    let view = view_with_scroll(text, width, offset);
    assert!(
        view.contains('|'),
        "gap marker '|' should appear during scroll"
    );
}

#[test]
fn view_line_truncates_with_ellipsis_when_scroll_disabled() {
    let text = "THIS STRING IS LONG";
    let view = view_line(text, 6, 0, false);
    assert_eq!(view, "THI...");
}

#[test]
fn short_text_is_not_scrolled() {
    assert!(!line_needs_scroll("HI", 16));
    assert!(line_needs_scroll("THIS LINE IS TOO LONG", 16));
    assert_eq!(view_with_scroll("HI", 16, 7), "HI");
    assert_eq!(advance_offset("HI", 16, 3), 0);
}

#[test]
fn scroll_offset_wraps_after_gap() {
    let text = "HELLOWORLD";
    let cycle = 2 * text.chars().count() + SCROLL_GAP.chars().count();
    assert_eq!(advance_offset(text, 4, 0), 1);
    assert_eq!(advance_offset(text, 4, cycle - 1), 0);
}

#[test]
fn truncation_helpers() {
    assert_eq!(truncate_to_width("ABCDEFG", 3), "ABC");
    assert_eq!(truncate_with_ellipsis("ABCDEFG", 5), "AB...");
    assert_eq!(truncate_with_ellipsis("ABC", 5), "ABC");
    assert_eq!(truncate_with_ellipsis("ABCDEFG", 2), "AB");
}

#[test]
fn bar_uses_ascii_without_glyphs() {
    let palette = IconPalette::new();
    let bar = render_bar(50, 10, &palette);
    assert_eq!(bar.chars().count(), 10);
}

#[test]
fn mark_last_column_replaces_final_char() {
    assert_eq!(mark_last_column("ABCD", 4, '*'), "ABC*");
    assert_eq!(mark_last_column("AB", 4, '*'), "AB *");
}
