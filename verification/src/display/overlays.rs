//! What each row of the display shows: scrolled or truncated text, the bar
//! graph, and the heartbeat and icon overlays in the last column.
use vstd::prelude::*;
use vstd::string::{StringExecFns, StrSliceExecFns};
use crate::display::icon_bank::{IconPalette, bar_fallback, palette_bar_char, palette_heartbeat_char, palette_icon_char};
use crate::payload::{Icon, RenderFrame, icon_ascii};
use crate::text::{chars_of, string_of, trim, trim_vec, slice_vec};

verus! {

/// The gap shown between the end of a scrolling line and its next start.
pub const SCROLL_GAP: &'static str = "    |    ";

/// The characters of the scroll gap.
pub open spec fn scroll_gap() -> Seq<char> {
    seq![' ', ' ', ' ', ' ', '|', ' ', ' ', ' ', ' ']
}

fn gap_chars() -> (r: Vec<char>)
    ensures
        r@ == scroll_gap(),
{
    let mut v: Vec<char> = Vec::new();
    v.push(' ');
    v.push(' ');
    v.push(' ');
    v.push(' ');
    v.push('|');
    v.push(' ');
    v.push(' ');
    v.push(' ');
    v.push(' ');
    assert(v@ =~= scroll_gap());
    v
}

/// The scroll cycle of a line: the text, the gap, the text again.
pub open spec fn scroll_cycle(text: Seq<char>) -> Seq<char> {
    text + scroll_gap() + text
}

/// A window of `width` characters into a scrolling line, starting at
/// `offset` (modulo the cycle) and wrapping around the cycle; a line that
/// fits is shown as it is.
pub open spec fn scroll_view(text: Seq<char>, width: nat, offset: nat) -> Seq<char> {
    if text.len() <= width {
        text
    } else {
        let c = scroll_cycle(text);
        let start = offset % c.len();
        Seq::new(width, |k: int| c[(start + k) % (c.len() as int)])
    }
}

/// The first `width` characters.
pub open spec fn truncated(text: Seq<char>, width: nat) -> Seq<char> {
    if text.len() <= width {
        text
    } else {
        text.take(width as int)
    }
}

/// A line cut to `width`, ending in `...` when cut (and there is room for it).
pub open spec fn ellipsized(text: Seq<char>, width: nat) -> Seq<char> {
    if text.len() <= width {
        text
    } else if width <= 3 {
        text.take(width as int)
    } else {
        text.take(width - 3) + seq!['.', '.', '.']
    }
}

/// A text row: scrolled when scrolling is on, cut with an ellipsis otherwise.
pub open spec fn line_view(text: Seq<char>, width: nat, offset: nat, scroll: bool) -> Seq<char> {
    if scroll {
        scroll_view(text, width, offset)
    } else {
        ellipsized(text, width)
    }
}

/// Whether a line is longer than the display is wide.
pub fn line_needs_scroll(text: &str, width: usize) -> (r: bool)
    ensures
        r == (text@.len() > width),
{
    text.unicode_len() > width
}

/// The scroll offset after one step: 0 for a line that fits, otherwise the
/// next position in the cycle.
pub fn advance_offset(text: &str, width: usize, current: usize) -> (r: usize)
    requires
        current < usize::MAX,
    ensures
        r == if text@.len() <= width {
            0
        } else {
            (current + 1) % (2 * text@.len() as int + 9)
        },
{
    let len = text.unicode_len();
    if len <= width {
        return 0;
    }
    let cycle: u128 = 2 * (len as u128) + 9;
    let next: u128 = current as u128 + 1;
    if next < cycle {
        proof {
            vstd::arithmetic::div_mod::lemma_small_mod(next as nat, cycle as nat);
        }
        return next as usize;
    }
    let m: u128 = next % cycle;
    proof {
        vstd::arithmetic::div_mod::lemma_mod_pos_bound(next as int, cycle as int);
    }
    m as usize
}

/// A window of `width` characters into a scrolling line.
pub fn view_with_scroll(text: &str, width: usize, offset: usize) -> (r: String)
    ensures
        r@ == scroll_view(text@, width as nat, offset as nat),
{
    let chars = chars_of(text);
    if chars.len() <= width {
        return String::from_str(text);
    }
    let mut cycle: Vec<char> = chars_of(text);
    let gap = gap_chars();
    crate::text::extend_chars(&mut cycle, gap.as_slice());
    crate::text::extend_chars(&mut cycle, chars.as_slice());
    assert(cycle@ == scroll_cycle(text@));
    let n = cycle.len();
    let start = offset % n;
    let mut out: Vec<char> = Vec::new();
    let mut k: usize = 0;
    while k < width
        invariant
            n == cycle@.len(),
            n > 0,
            start < n,
            k <= width,
            out@ == Seq::new(k as nat, |j: int| cycle@[(start + j) % (n as int)]),
        decreases width - k,
    {
        let idx = ((start as u128 + k as u128) % (n as u128)) as usize;
        out.push(cycle[idx]);
        assert(out@ =~= Seq::new((k + 1) as nat, |j: int| cycle@[(start + j) % (n as int)]));
        k = k + 1;
    }
    string_of(out.as_slice())
}

/// The first `width` characters of `text`.
pub fn truncate_to_width(text: &str, width: usize) -> (r: String)
    ensures
        r@ == truncated(text@, width as nat),
{
    let chars = chars_of(text);
    if chars.len() <= width {
        return string_of(chars.as_slice());
    }
    let head = slice_vec(chars.as_slice(), 0, width);
    string_of(head.as_slice())
}

/// `text` cut to `width`, ending in `...` when cut.
pub fn truncate_with_ellipsis(text: &str, width: usize) -> (r: String)
    ensures
        r@ == ellipsized(text@, width as nat),
{
    let chars = chars_of(text);
    if chars.len() <= width {
        return String::from_str(text);
    }
    if width <= 3 {
        return truncate_to_width(text, width);
    }
    let mut head = slice_vec(chars.as_slice(), 0, width - 3);
    head.push('.');
    head.push('.');
    head.push('.');
    assert(head@ =~= text@.take(width - 3) + seq!['.', '.', '.']);
    string_of(head.as_slice())
}

/// A text row: scrolled when scrolling is on, cut with an ellipsis otherwise.
pub fn view_line(text: &str, width: usize, offset: usize, scroll_enabled: bool) -> (r: String)
    ensures
        r@ == line_view(text@, width as nat, offset as nat, scroll_enabled),
{
    if scroll_enabled {
        view_with_scroll(text, width, offset)
    } else {
        truncate_with_ellipsis(text, width)
    }
}

/// Fill level (0 to 5) of column `col` of a bar `width` columns wide at
/// `percent`.
pub open spec fn bar_level(percent: nat, width: nat, col: int) -> nat {
    let filled: int = ((percent * width * 5) / 100) as int;
    let remaining: int = if filled > col * 5 {
        filled - col * 5
    } else {
        0
    };
    if remaining > 5 {
        5
    } else {
        remaining as nat
    }
}

/// A bar graph `width` columns wide, each column a glyph of its fill level.
pub open spec fn bar_view(p: IconPalette, percent: nat, width: nat) -> Seq<char> {
    Seq::new(width, |col: int| palette_bar_char(p, bar_level(percent, width, col)))
}

/// A bar `width` columns wide at `percent` lights `percent` hundredths of
/// its `5 * width` fifth-columns, rounded down, from the left: with
/// `n = percent * width * 5 / 100` lit fifths, the first `n / 5` columns
/// are full, the next shows the `n % 5` fifths left over, and every column
/// from the fifth-column `n` on is empty. (At 50% on ten columns: five full
/// columns, then five empty ones.)
pub proof fn lemma_bar_lights_its_share(p: IconPalette, percent: nat, width: nat)
    ensures
        bar_view(p, percent, width).len() == width,
        forall|col: int|
            0 <= col < width && col < (percent * width * 5 / 100) / 5 ==> #[trigger] bar_view(
                p,
                percent,
                width,
            )[col] == palette_bar_char(p, 5),
        forall|col: int|
            0 <= col < width && col == (percent * width * 5 / 100) / 5 && (percent * width * 5
                / 100) % 5 != 0 ==> #[trigger] bar_view(p, percent, width)[col] == palette_bar_char(
                p,
                (percent * width * 5 / 100) % 5,
            ),
        forall|col: int|
            0 <= col < width && col * 5 >= percent * width * 5 / 100 ==> #[trigger] bar_view(
                p,
                percent,
                width,
            )[col] == palette_bar_char(p, 0),
{
    let n: int = (percent * width * 5 / 100) as int;
    assert(n == 5 * (n / 5) + n % 5 && 0 <= n % 5 < 5) by {
        vstd::arithmetic::div_mod::lemma_fundamental_div_mod(n, 5);
    }
    assert forall|col: int|
        0 <= col < width && col < (percent * width * 5 / 100) / 5 implies #[trigger] bar_view(
            p,
            percent,
            width,
        )[col] == palette_bar_char(p, 5) by {
        assert(n - col * 5 >= 5);
        assert(bar_level(percent, width, col) == 5);
    }
    assert forall|col: int|
        0 <= col < width && col == (percent * width * 5 / 100) / 5 && (percent * width * 5 / 100)
            % 5 != 0 implies #[trigger] bar_view(p, percent, width)[col] == palette_bar_char(
            p,
            (percent * width * 5 / 100) % 5,
        ) by {
        assert(n - col * 5 == n % 5);
        assert(bar_level(percent, width, col) == (percent * width * 5 / 100) % 5);
    }
    assert forall|col: int|
        0 <= col < width && col * 5 >= percent * width * 5 / 100 implies #[trigger] bar_view(
            p,
            percent,
            width,
        )[col] == palette_bar_char(p, 0) by {
        assert(bar_level(percent, width, col) == 0);
    }
}

/// A bar graph `width` columns wide at `percent`.
pub fn render_bar(percent: u8, width: usize, palette: &IconPalette) -> (r: String)
    requires
        width <= 255,
    ensures
        r@ == bar_view(*palette, percent as nat, width as nat),
{
    if width == 0 {
        assert(bar_view(*palette, percent as nat, 0) =~= Seq::<char>::empty());
        return String::new();
    }
    let total: u64 = (width as u64) * 5;
    assert(percent as u64 * total <= 255 * 1275) by (nonlinear_arith)
        requires
            percent <= 255,
            total <= 1275,
    ;
    let filled: u64 = (percent as u64 * total) / 100;
    assert(filled == ((percent as nat * width as nat * 5) / 100)) by (nonlinear_arith)
        requires
            total == width * 5,
            filled == (percent * total) / 100,
    ;
    let mut out: Vec<char> = Vec::new();
    let mut col: usize = 0;
    while col < width
        invariant
            col <= width,
            width <= 255,
            filled == ((percent as nat * width as nat * 5) / 100),
            out@ == Seq::new(
                col as nat,
                |c: int| palette_bar_char(*palette, bar_level(percent as nat, width as nat, c)),
            ),
        decreases width - col,
    {
        let used: u64 = col as u64 * 5;
        let remaining: u64 = if filled > used {
            filled - used
        } else {
            0
        };
        let level: usize = if remaining > 5 {
            5
        } else {
            remaining as usize
        };
        let ch = palette.bar_char(level);
        out.push(ch);
        assert(out@ =~= Seq::new(
            (col + 1) as nat,
            |c: int| palette_bar_char(*palette, bar_level(percent as nat, width as nat, c)),
        ));
        col = col + 1;
    }
    string_of(out.as_slice())
}

/// `text` padded with spaces or cut to exactly `width` characters, with its
/// last character replaced by `mark`.
pub open spec fn marked(text: Seq<char>, width: nat, mark: char) -> Seq<char>
    recommends
        width > 0,
{
    let fitted = if text.len() >= width {
        text.take(width as int)
    } else {
        text + Seq::new((width - text.len()) as nat, |k: int| ' ')
    };
    fitted.update(width - 1, mark)
}

/// `text` fitted to `width` with `mark` in the last column.
pub fn mark_last_column(text: &str, width: usize, mark: char) -> (r: String)
    requires
        width > 0,
    ensures
        r@ == marked(text@, width as nat, mark),
{
    let chars = chars_of(text);
    let mut fitted: Vec<char> = if chars.len() >= width {
        slice_vec(chars.as_slice(), 0, width)
    } else {
        let mut v = chars_of(text);
        let mut i: usize = chars.len();
        while i < width
            invariant
                chars@ == text@,
                chars@.len() <= i <= width,
                v@ == text@ + Seq::new((i - text@.len()) as nat, |k: int| ' '),
            decreases width - i,
        {
            v.push(' ');
            assert(v@ =~= text@ + Seq::new((i + 1 - text@.len()) as nat, |k: int| ' '));
            i = i + 1;
        }
        v
    };
    let last = width - 1;
    fitted.set(last, mark);
    string_of(fitted.as_slice())
}

/// The heartbeat in the last column of a row.
pub fn overlay_heartbeat(text: &mut String, width: usize, palette: &IconPalette)
    ensures
        width == 0 ==> final(text)@ == old(text)@,
        width > 0 ==> final(text)@ == marked(old(text)@, width as nat, palette_heartbeat_char(*palette)),
{
    if width == 0 {
        return;
    }
    let mark = palette.heartbeat_char();
    let next = mark_last_column(text.as_str(), width, mark);
    *text = next;
}

/// The character that shows `icon`: its glyph slot, else its plain character.
pub open spec fn icon_display_char(p: IconPalette, icon: Icon) -> char {
    match palette_icon_char(p, icon) {
        Some(c) => c,
        None => icon_ascii(icon),
    }
}

/// The rows after the first icon is put in the last column of the row that
/// does not hold the bar at the bottom.
pub open spec fn icons_overlay(
    line1: Seq<char>,
    line2: Seq<char>,
    width: nat,
    icons: Seq<Icon>,
    bar_row: Option<u8>,
    p: IconPalette,
) -> (Seq<char>, Seq<char>) {
    if icons.len() == 0 || width == 0 {
        (line1, line2)
    } else if bar_row == Some(1u8) {
        (marked(line1, width, icon_display_char(p, icons[0])), line2)
    } else {
        (line1, marked(line2, width, icon_display_char(p, icons[0])))
    }
}

/// Puts the first icon in the last column of the row that does not hold a
/// bottom bar.
pub fn overlay_icons(
    line1: &mut String,
    line2: &mut String,
    width: usize,
    icons: &[Icon],
    bar_row: Option<u8>,
    palette: &IconPalette,
)
    ensures
        (final(line1)@, final(line2)@) == icons_overlay(
            old(line1)@,
            old(line2)@,
            width as nat,
            icons@,
            bar_row,
            *palette,
        ),
{
    if icons.len() == 0 || width == 0 {
        return;
    }
    let icon = icons[0];
    let mark = match palette.icon_char(icon) {
        Some(c) => c,
        None => match icon.ascii_fallback() {
            Some(c) => c,
            None => {
                return;
            },
        },
    };
    if bar_row == Some(1u8) {
        let next = mark_last_column(line1.as_str(), width, mark);
        *line1 = next;
    } else {
        let next = mark_last_column(line2.as_str(), width, mark);
        *line2 = next;
    }
}

/// Whether a row shows nothing but blanks.
pub open spec fn is_blank(s: Seq<char>) -> bool {
    trim(s).len() == 0
}

/// The two rows the display shows for a frame, once its glyphs are in
/// `palette`: bar or text in each row, the heartbeat in the last column of
/// the row without a top bar, the first icon in the last column of the row
/// without a bottom bar; a blank text row is sent empty.
pub open spec fn frame_rows(
    frame: crate::payload::RenderFrameView,
    width: nat,
    offsets: (nat, nat),
    heartbeat_on: bool,
    p: IconPalette,
) -> (Seq<char>, Seq<char>) {
    let bar = frame.bar_percent;
    let row1 = if frame.bar_row == Some(0u8) && bar is Some {
        bar_view(p, bar->0 as nat, width)
    } else {
        line_view(frame.line1, width, offsets.0, frame.scroll_enabled)
    };
    let row2 = if frame.bar_row == Some(1u8) && bar is Some {
        bar_view(p, bar->0 as nat, width)
    } else {
        line_view(frame.line2, width, offsets.1, frame.scroll_enabled)
    };
    let (hb1, hb2) = if heartbeat_on && width > 0 {
        if frame.bar_row == Some(0u8) {
            (row1, marked(row2, width, palette_heartbeat_char(p)))
        } else {
            (marked(row1, width, palette_heartbeat_char(p)), row2)
        }
    } else {
        (row1, row2)
    };
    let (i1, i2) = icons_overlay(hb1, hb2, width, frame.icons, frame.bar_row, p);
    (
        if is_blank(i1) && frame.bar_row != Some(0u8) {
            Seq::empty()
        } else {
            i1
        },
        if is_blank(i2) && frame.bar_row != Some(1u8) {
            Seq::empty()
        } else {
            i2
        },
    )
}

fn blank_or(s: String, keep: bool) -> (r: String)
    ensures
        r@ == if is_blank(s@) && !keep {
            Seq::empty()
        } else {
            s@
        },
{
    let v = chars_of(s.as_str());
    let t = trim_vec(v.as_slice());
    if t.len() == 0 && !keep {
        String::new()
    } else {
        s
    }
}

/// The two rows the display shows for `frame`.
pub fn compose_rows(
    frame: &RenderFrame,
    width: usize,
    offsets: (usize, usize),
    heartbeat_on: bool,
    palette: &IconPalette,
) -> (r: (String, String))
    requires
        width <= 255,
    ensures
        (r.0@, r.1@) == frame_rows(
            frame@,
            width as nat,
            (offsets.0 as nat, offsets.1 as nat),
            heartbeat_on,
            *palette,
        ),
{
    let bar_row = frame.bar_row;
    let mut line1 = if bar_row == Some(0u8) && frame.bar_percent.is_some() {
        render_bar(frame.bar_percent.unwrap(), width, palette)
    } else {
        view_line(frame.line1.as_str(), width, offsets.0, frame.scroll_enabled)
    };
    let mut line2 = if bar_row == Some(1u8) && frame.bar_percent.is_some() {
        render_bar(frame.bar_percent.unwrap(), width, palette)
    } else {
        view_line(frame.line2.as_str(), width, offsets.1, frame.scroll_enabled)
    };
    if heartbeat_on && width > 0 {
        if bar_row == Some(0u8) {
            overlay_heartbeat(&mut line2, width, palette);
        } else {
            overlay_heartbeat(&mut line1, width, palette);
        }
    }
    overlay_icons(&mut line1, &mut line2, width, frame.icons.as_slice(), bar_row, palette);
    let out1 = blank_or(line1, bar_row == Some(0u8));
    let out2 = blank_or(line2, bar_row == Some(1u8));
    (out1, out2)
}

} // verus!
