//! The render loop's decisions, as functions of the clock reading and the
//! loop's state: when the heartbeat shows, when a page rotates, when a line
//! scrolls, how a blinking frame toggles the backlight, when the serial link
//! is retried, and which lines look like tunnel frames.
use vstd::prelude::*;
use vstd::string::{StringExecFns, StrSliceExecFns};
use crate::display::overlays::{line_needs_scroll, advance_offset, scroll_view};
use crate::events::ScrollOffsets;
use crate::payload::{RenderFrame, RenderFrameView};
use crate::text::{chars_of, dec, string_of, slice_vec};

verus! {

/// How long without a frame before the heartbeat shows, in milliseconds.
pub const HEARTBEAT_GRACE_MS: u64 = 5_000;
/// How long the heartbeat stays on or off, in milliseconds.
pub const HEARTBEAT_BLINK_MS: u64 = 1_000;
/// How long a blinking frame keeps the backlight on or off, in milliseconds.
pub const BLINK_INTERVAL_MS: u64 = 500;
/// Least time between two renders, in milliseconds.
pub const MIN_RENDER_INTERVAL_MS: u64 = 200;
/// Least time between two polling overlays of the same snapshot, in milliseconds.
pub const POLLING_OVERLAY_MIN_INTERVAL_MS: u64 = 1_500;

/// `a + b`, at most `u64::MAX`.
pub open spec fn sat_add(a: u64, b: u64) -> u64 {
    if a + b > u64::MAX {
        u64::MAX
    } else {
        (a + b) as u64
    }
}

/// The heartbeat's state: whether it shows now and when it next toggles.
#[derive(Debug, Clone, Copy, PartialEq, Eq, Structural)]
pub struct Heartbeat {
    pub visible: bool,
    pub next_toggle_ms: u64,
}

/// The heartbeat after a loop pass at `now_ms`, the last frame having come
/// at `last_frame_ms`: once frames stay away for the grace period it toggles
/// every blink interval; while they come it stays hidden.
pub open spec fn heartbeat_after(h: Heartbeat, last_frame_ms: u64, now_ms: u64) -> Heartbeat {
    let active = now_ms >= last_frame_ms && now_ms - last_frame_ms >= HEARTBEAT_GRACE_MS;
    if active && now_ms >= h.next_toggle_ms {
        Heartbeat { visible: !h.visible, next_toggle_ms: sat_add(now_ms, HEARTBEAT_BLINK_MS) }
    } else if !active {
        Heartbeat { visible: false, next_toggle_ms: sat_add(now_ms, HEARTBEAT_BLINK_MS) }
    } else {
        h
    }
}

/// Whether the heartbeat is drawn: frames stayed away long enough and it is
/// in its visible half.
pub open spec fn heartbeat_on(h: Heartbeat, last_frame_ms: u64, now_ms: u64) -> bool {
    now_ms >= last_frame_ms && now_ms - last_frame_ms >= HEARTBEAT_GRACE_MS && h.visible
}

impl Heartbeat {
    /// Advances the heartbeat to `now_ms`; returns whether it is drawn.
    pub fn step(&mut self, last_frame_ms: u64, now_ms: u64) -> (on: bool)
        ensures
            *final(self) == heartbeat_after(*old(self), last_frame_ms, now_ms),
            on == heartbeat_on(*final(self), last_frame_ms, now_ms),
    {
        let active = now_ms >= last_frame_ms && now_ms - last_frame_ms >= HEARTBEAT_GRACE_MS;
        if active && now_ms >= self.next_toggle_ms {
            self.visible = !self.visible;
            self.next_toggle_ms = now_ms.saturating_add(HEARTBEAT_BLINK_MS);
        } else if !active {
            self.visible = false;
            self.next_toggle_ms = now_ms.saturating_add(HEARTBEAT_BLINK_MS);
        }
        active && self.visible
    }
}

/// Whether a frame has a row that scrolls on a display `width` wide: the
/// text rows not holding the bar, when scrolling is on.
pub open spec fn frame_scrolls(f: RenderFrameView, width: nat) -> bool {
    f.scroll_enabled && if f.bar_row == Some(0u8) {
        f.line2.len() > width
    } else if f.bar_row == Some(1u8) {
        f.line1.len() > width
    } else {
        f.line1.len() > width || f.line2.len() > width
    }
}

/// A frame scrolls exactly when scrolling is on and a text row on show is
/// longer than the display: the top row shows `line1` unless the bar is
/// there, the bottom row `line2` unless the bar is there.
pub proof fn lemma_long_shown_row_scrolls(f: RenderFrameView, width: nat)
    ensures
        frame_scrolls(f, width) == (f.scroll_enabled && ((f.bar_row != Some(0u8) && f.line1.len()
            > width) || (f.bar_row != Some(1u8) && f.line2.len() > width))),
{
}

/// Whether a frame has a row that scrolls.
pub fn frame_needs_scroll(frame: &RenderFrame, width: usize) -> (r: bool)
    ensures
        r == frame_scrolls(frame@, width as nat),
{
    if !frame.scroll_enabled {
        return false;
    }
    if frame.bar_row == Some(0u8) {
        line_needs_scroll(frame.line2.as_str(), width)
    } else if frame.bar_row == Some(1u8) {
        line_needs_scroll(frame.line1.as_str(), width)
    } else {
        line_needs_scroll(frame.line1.as_str(), width) || line_needs_scroll(frame.line2.as_str(), width)
    }
}

/// The offsets after one scroll step of both rows.
pub fn advance_scroll(frame: &RenderFrame, width: usize, offsets: ScrollOffsets) -> (r: ScrollOffsets)
    requires
        offsets.top < usize::MAX,
        offsets.bottom < usize::MAX,
    ensures
        r.top == if frame.line1@.len() <= width {
            0
        } else {
            (offsets.top + 1) % (2 * frame.line1@.len() as int + 9)
        },
        r.bottom == if frame.line2@.len() <= width {
            0
        } else {
            (offsets.bottom + 1) % (2 * frame.line2@.len() as int + 9)
        },
{
    offsets.update(
        advance_offset(frame.line1.as_str(), width, offsets.top),
        advance_offset(frame.line2.as_str(), width, offsets.bottom),
    )
}

/// The backlight of a frame on show: a blinking frame toggles it every
/// blink interval; otherwise it follows the frame.
#[derive(Debug, Clone, Copy, PartialEq, Eq, Structural)]
pub struct BacklightState {
    pub on: bool,
    pub next_blink_ms: u64,
}

/// The backlight after a loop pass at `now_ms`.
pub open spec fn backlight_after(s: BacklightState, frame_blink: bool, frame_backlight: bool, now_ms: u64) -> BacklightState {
    if frame_blink {
        if now_ms >= s.next_blink_ms {
            BacklightState { on: !s.on, next_blink_ms: sat_add(now_ms, BLINK_INTERVAL_MS) }
        } else {
            s
        }
    } else {
        BacklightState { on: frame_backlight, ..s }
    }
}

impl BacklightState {
    /// Advances the backlight to `now_ms`; returns whether it changed.
    pub fn step(&mut self, frame_blink: bool, frame_backlight: bool, now_ms: u64) -> (changed: bool)
        ensures
            *final(self) == backlight_after(*old(self), frame_blink, frame_backlight, now_ms),
            changed == (final(self).on != old(self).on),
    {
        if frame_blink {
            if now_ms >= self.next_blink_ms {
                self.on = !self.on;
                self.next_blink_ms = now_ms.saturating_add(BLINK_INTERVAL_MS);
                return true;
            }
            false
        } else if self.on != frame_backlight {
            self.on = frame_backlight;
            true
        } else {
            false
        }
    }
}

/// Whether the next page is due: more than one page queued and its time has come.
pub fn page_due(page_count: usize, now_ms: u64, next_page_ms: u64) -> (r: bool)
    ensures
        r == (page_count > 1 && now_ms >= next_page_ms),
{
    page_count > 1 && now_ms >= next_page_ms
}

/// Whether a render may happen now: the least interval since the last one
/// has passed.
pub fn render_allowed(last_render_ms: u64, now_ms: u64) -> (r: bool)
    ensures
        r == !(now_ms >= last_render_ms && now_ms - last_render_ms < MIN_RENDER_INTERVAL_MS),
{
    !(now_ms >= last_render_ms && now_ms - last_render_ms < MIN_RENDER_INTERVAL_MS)
}

/// Whether the polling overlay is drawn: a snapshot exists; with the link up
/// only when no frame is on show or queued; and not again for the same
/// snapshot within the overlay interval.
pub fn polling_overlay_due(
    has_snapshot: bool,
    serial_active: bool,
    has_frame: bool,
    no_frames_available: bool,
    latest_seq: u64,
    last_rendered_seq: u64,
    since_last_overlay_ms: u64,
) -> (r: bool)
    ensures
        r == (has_snapshot && (!serial_active || (no_frames_available && !has_frame)) && !(
        last_rendered_seq == latest_seq && since_last_overlay_ms < POLLING_OVERLAY_MIN_INTERVAL_MS)),
{
    if !has_snapshot {
        return false;
    }
    let should_render = if serial_active {
        no_frames_available && !has_frame
    } else {
        true
    };
    if !should_render {
        return false;
    }
    !(last_rendered_seq == latest_seq && since_last_overlay_ms < POLLING_OVERLAY_MIN_INTERVAL_MS)
}

/// `text` cut or padded with spaces to exactly `width` characters.
pub open spec fn fitted(text: Seq<char>, width: nat) -> Seq<char> {
    if text.len() >= width {
        text.take(width as int)
    } else {
        text + Seq::new((width - text.len()) as nat, |k: int| ' ')
    }
}

/// `text` cut or padded with spaces to exactly `width` characters.
pub fn fit_line(text: &str, width: usize) -> (r: String)
    ensures
        r@ == fitted(text@, width as nat),
{
    let chars = chars_of(text);
    if chars.len() >= width {
        let head = slice_vec(chars.as_slice(), 0, width);
        return string_of(head.as_slice());
    }
    let mut v = chars_of(text);
    let mut i: usize = chars.len();
    while i < width
        invariant
            chars@ == text@,
            chars@.len() <= i <= width,
            v@ == text@ + Seq::new((i - text@.len()) as nat, |k: int| ' '),
        decreases width - i,
    {
        v.push(' ');
        assert(v@ =~= text@ + Seq::new((i + 1 - text@.len()) as nat, |k: int| ' '));
        i = i + 1;
    }
    string_of(v.as_slice())
}

/// Whether `s` occurs in `line`.
pub open spec fn occurs(s: Seq<char>, line: Seq<char>) -> bool {
    exists|i: int| 0 <= i <= line.len() - s.len() && #[trigger] line.subrange(i, i + s.len()) == s
}

fn contains_text(line: &[char], s: &str) -> (r: bool)
    ensures
        r == occurs(s@, line@),
{
    let p = chars_of(s);
    if p.len() > line.len() {
        return false;
    }
    let last: usize = line.len() - p.len();
    let mut i: usize = 0;
    while i <= last
        invariant
            p@ == s@,
            p@.len() <= line@.len(),
            last == line@.len() - p@.len(),
            i <= last + 1,
            forall|k: int| 0 <= k < i ==> #[trigger] line@.subrange(k, k + p@.len()) != p@,
        decreases last + 1 - i,
    {
        let end: usize = i + (line.len() - last);
        let window = slice_vec(line, i, end);
        if crate::text::eq_chars(window.as_slice(), p.as_slice()) {
            return true;
        }
        if i == last {
            assert forall|k: int| 0 <= k <= line@.len() - s@.len() implies #[trigger] line@.subrange(k, k + s@.len()) != s@ by {
                if k < i {
                } else {
                    assert(k == i);
                }
            }
            return false;
        }
        i = i + 1;
    }
    false
}

/// Whether a line looks like a command frame.
pub fn looks_like_command_frame(line: &str) -> (r: bool)
    ensures
        r == (occurs("\"channel\":\"command\""@, line@) && occurs("\"crc32\""@, line@)),
{
    let v = chars_of(line);
    contains_text(v.as_slice(), "\"channel\":\"command\"") && contains_text(v.as_slice(), "\"crc32\"")
}

/// Reconnect pacing: after a failure the link is retried once the current
/// delay has passed, the delay doubling up to the maximum; a success resets
/// it.
pub struct BackoffController {
    initial_ms: u64,
    max_ms: u64,
    current_ms: u64,
    next_retry_ms: Option<u64>,
}

/// The model of the reconnect pacing.
pub struct BackoffView {
    pub initial_ms: u64,
    pub max_ms: u64,
    pub current_ms: u64,
    pub next_retry_ms: Option<u64>,
}

/// `a`, at most `b`.
pub open spec fn min_u64(a: u64, b: u64) -> u64 {
    if a <= b {
        a
    } else {
        b
    }
}

impl BackoffController {
    pub closed spec fn view_of(&self) -> BackoffView {
        BackoffView {
            initial_ms: self.initial_ms,
            max_ms: self.max_ms,
            current_ms: self.current_ms,
            next_retry_ms: self.next_retry_ms,
        }
    }

    /// Pacing from `initial_ms` up to `max_ms` (at least the initial delay);
    /// nothing to wait for yet.
    pub fn new(initial_ms: u64, max_ms: u64) -> (r: BackoffController)
        ensures
            r.view_of() == (BackoffView {
                initial_ms,
                max_ms: if max_ms < initial_ms {
                    initial_ms
                } else {
                    max_ms
                },
                current_ms: initial_ms,
                next_retry_ms: None,
            }),
    {
        BackoffController {
            initial_ms,
            max_ms: if max_ms < initial_ms {
                initial_ms
            } else {
                max_ms
            },
            current_ms: initial_ms,
            next_retry_ms: None,
        }
    }

    /// Whether a retry is due at `now_ms`.
    pub fn should_retry(&self, now_ms: u64) -> (r: bool)
        ensures
            r == match self.view_of().next_retry_ms {
                Some(t) => now_ms >= t,
                None => true,
            },
    {
        match self.next_retry_ms {
            Some(t) => now_ms >= t,
            None => true,
        }
    }

    /// The delay that the next failure waits.
    pub fn current_delay_ms(&self) -> (r: u64)
        ensures
            r == self.view_of().current_ms,
    {
        self.current_ms
    }

    /// The longest delay.
    pub fn max_delay_ms(&self) -> (r: u64)
        ensures
            r == self.view_of().max_ms,
    {
        self.max_ms
    }

    /// A failure at `now_ms`: wait the current delay, then double it (at
    /// most the maximum).
    pub fn mark_failure(&mut self, now_ms: u64)
        ensures
            final(self).view_of() == (BackoffView {
                current_ms: min_u64(sat_add(old(self).view_of().current_ms, old(self).view_of().current_ms), old(self).view_of().max_ms),
                next_retry_ms: Some(sat_add(now_ms, old(self).view_of().current_ms)),
                ..old(self).view_of()
            }),
    {
        self.next_retry_ms = Some(now_ms.saturating_add(self.current_ms));
        let doubled = self.current_ms.saturating_add(self.current_ms);
        self.current_ms = if doubled <= self.max_ms {
            doubled
        } else {
            self.max_ms
        };
    }

    /// A success: the delay starts over and nothing is waited for.
    pub fn mark_success(&mut self, now_ms: u64)
        ensures
            final(self).view_of() == (BackoffView {
                current_ms: old(self).view_of().initial_ms,
                next_retry_ms: None,
                ..old(self).view_of()
            }),
    {
        self.current_ms = self.initial_ms;
        self.next_retry_ms = None;
    }

    /// New limits: the delay starts over from `initial_ms`.
    pub fn update(&mut self, initial_ms: u64, max_ms: u64)
        ensures
            final(self).view_of() == (BackoffView {
                initial_ms,
                max_ms: if max_ms < initial_ms {
                    initial_ms
                } else {
                    max_ms
                },
                current_ms: initial_ms,
                next_retry_ms: old(self).view_of().next_retry_ms,
            }),
    {
        self.initial_ms = initial_ms;
        self.max_ms = if max_ms < initial_ms {
            initial_ms
        } else {
            max_ms
        };
        self.current_ms = initial_ms;
    }
}

/// The reconnect delay stays between the initial delay and the maximum:
/// pacing starts within those bounds, a failure doubles the delay without
/// passing the maximum or shrinking it, a success goes back to the initial
/// delay, and new limits start over within their own bounds.
pub proof fn lemma_backoff_bounded(v: BackoffView, now_ms: u64, initial_ms: u64, max_ms: u64)
    requires
        v.initial_ms <= v.current_ms <= v.max_ms,
    ensures
        ({
            let max = if max_ms < initial_ms { initial_ms } else { max_ms };
            initial_ms <= max
        }),
        v.current_ms <= min_u64(sat_add(v.current_ms, v.current_ms), v.max_ms) <= v.max_ms,
        v.initial_ms <= min_u64(sat_add(v.current_ms, v.current_ms), v.max_ms),
        v.initial_ms <= v.max_ms,
{
}

/// `text` right-aligned in `width` columns: spaces in front when it is
/// shorter, unchanged when it is not.
pub open spec fn right_aligned(text: Seq<char>, width: nat) -> Seq<char> {
    if text.len() >= width {
        text
    } else {
        Seq::new((width - text.len()) as nat, |k: int| ' ') + text
    }
}

/// The polling overlay's top row: CPU and memory use in percent, marked
/// `RC ` while the link is down.
pub open spec fn polling_top(cpu: nat, mem: nat, serial_active: bool) -> Seq<char> {
    (if serial_active {
        Seq::empty()
    } else {
        "RC "@
    }) + "CPU"@ + right_aligned(dec(cpu), 3) + "% MEM"@ + right_aligned(dec(mem), 3) + "%"@
}

/// The polling overlay's bottom row: disk use in percent, the temperature
/// text and the free space in MiB (`--` where unknown).
pub open spec fn polling_bottom(disk: nat, temperature: Option<Seq<char>>, free_kb: Option<u64>) -> Seq<char> {
    "DSK"@ + right_aligned(dec(disk), 3) + "% TMP"@ + right_aligned(
        match temperature {
            Some(t) => t,
            None => "--"@,
        },
        4,
    ) + " FREE"@ + right_aligned(
        match free_kb {
            Some(kb) => dec((kb / 1024) as nat) + "M"@,
            None => "--"@,
        },
        4,
    )
}

fn right_align(text: &[char], width: usize) -> (r: Vec<char>)
    ensures
        r@ == right_aligned(text@, width as nat),
{
    let mut v: Vec<char> = Vec::new();
    if text.len() < width {
        let pad = width - text.len();
        let mut i: usize = 0;
        while i < pad
            invariant
                i <= pad,
                v@ == Seq::new(i as nat, |k: int| ' '),
            decreases pad - i,
        {
            v.push(' ');
            assert(v@ =~= Seq::new((i + 1) as nat, |k: int| ' '));
            i = i + 1;
        }
    }
    let ghost before = v@;
    crate::text::extend_chars(&mut v, text);
    proof {
        if text@.len() >= width {
            assert(before =~= Seq::<char>::empty());
            assert(v@ =~= text@);
        }
    }
    v
}

/// The two rows of the polling overlay, each cut or padded to `width`:
/// CPU, memory and disk use are whole percentages, `temperature` is the
/// temperature's text, `free_kb` the free disk space in KiB.
pub fn polling_lines(
    cpu: u64,
    mem: u64,
    disk: u64,
    temperature: Option<&str>,
    free_kb: Option<u64>,
    width: usize,
    serial_active: bool,
) -> (r: (String, String))
    ensures
        r.0@ == fitted(polling_top(cpu as nat, mem as nat, serial_active), width as nat),
        r.1@ == fitted(
            polling_bottom(
                disk as nat,
                match temperature {
                    Some(t) => Some(t@),
                    None => None,
                },
                free_kb,
            ),
            width as nat,
        ),
{
    let mut top: Vec<char> = Vec::new();
    let ghost t0 = top@;
    if !serial_active {
        crate::text::extend_str(&mut top, "RC ");
    }
    let ghost lead = top@;
    crate::text::extend_str(&mut top, "CPU");
    let c = right_align(crate::text::dec_chars(cpu).as_slice(), 3);
    crate::text::extend_chars(&mut top, c.as_slice());
    crate::text::extend_str(&mut top, "% MEM");
    let m = right_align(crate::text::dec_chars(mem).as_slice(), 3);
    crate::text::extend_chars(&mut top, m.as_slice());
    crate::text::extend_str(&mut top, "%");
    proof {
        if serial_active {
            assert(lead =~= Seq::<char>::empty());
        } else {
            assert(lead =~= "RC "@);
        }
        assert(top@ =~= polling_top(cpu as nat, mem as nat, serial_active));
    }
    let mut bottom: Vec<char> = Vec::new();
    crate::text::extend_str(&mut bottom, "DSK");
    let d = right_align(crate::text::dec_chars(disk).as_slice(), 3);
    crate::text::extend_chars(&mut bottom, d.as_slice());
    crate::text::extend_str(&mut bottom, "% TMP");
    let tv = match temperature {
        Some(t) => chars_of(t),
        None => chars_of("--"),
    };
    let tp = right_align(tv.as_slice(), 4);
    crate::text::extend_chars(&mut bottom, tp.as_slice());
    crate::text::extend_str(&mut bottom, " FREE");
    let fv = match free_kb {
        Some(kb) => {
            let mut x = crate::text::dec_chars(kb / 1024);
            crate::text::extend_str(&mut x, "M");
            x
        },
        None => chars_of("--"),
    };
    let fp = right_align(fv.as_slice(), 4);
    crate::text::extend_chars(&mut bottom, fp.as_slice());
    let ghost tview = match temperature {
        Some(t) => Some(t@),
        None => None,
    };
    assert(bottom@ =~= polling_bottom(disk as nat, tview, free_kb));
    let ts = string_of(top.as_slice());
    let bs = string_of(bottom.as_slice());
    (fit_line(ts.as_str(), width), fit_line(bs.as_str(), width))
}


} // verus!
