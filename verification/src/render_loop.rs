//! The daemon's render loop as a state machine: the frame on show, its
//! timers, the notices, the reconnect pacing and the counters. Each event of
//! a loop pass (a clock reading, a button press, a line from the link, a
//! connection attempt's outcome) goes through a method here, which says
//! what the display is to do; the caller reads the clock and the link and
//! drives the display.
use vstd::prelude::*;
use vstd::string::StringExecFns;
use crate::display::overlays::{ellipsized, truncate_to_width, truncate_with_ellipsis, truncated};
use crate::events::ScrollOffsets;
use crate::payload::{Defaults, RenderFrame, RenderFrameView};
use crate::render::{
    frame_scrolls, sat_add, BackoffController, BackoffView, BacklightState, Heartbeat,
    BLINK_INTERVAL_MS, HEARTBEAT_BLINK_MS, MIN_RENDER_INTERVAL_MS,
};
use crate::serial::SerialFailureKind;
use crate::state::{EntryView, RenderState};

verus! {

/// What the display is to do.
#[derive(Debug, PartialEq)]
pub enum LoopAction {
    /// Clear it.
    Clear,
    /// Switch the backlight on or off.
    Backlight(bool),
    /// Switch the blinking cursor on or off.
    Blink(bool),
    /// Write a row.
    Row(u8, String),
    /// Draw the frame on show at these scroll offsets, with or without the
    /// heartbeat.
    Render(ScrollOffsets, bool),
}

/// `LoopAction` with the row text taken as a character sequence.
pub enum ActionView {
    Clear,
    Backlight(bool),
    Blink(bool),
    Row(u8, Seq<char>),
    Render(ScrollOffsets, bool),
}

pub open spec fn action_view(a: LoopAction) -> ActionView {
    match a {
        LoopAction::Clear => ActionView::Clear,
        LoopAction::Backlight(b) => ActionView::Backlight(b),
        LoopAction::Blink(b) => ActionView::Blink(b),
        LoopAction::Row(r, t) => ActionView::Row(r, t@),
        LoopAction::Render(o, h) => ActionView::Render(o, h),
    }
}

pub open spec fn actions_view(v: Seq<LoopAction>) -> Seq<ActionView> {
    v.map_values(|a: LoopAction| action_view(a))
}

/// The loop's counters.
#[derive(Debug, Clone, Copy, PartialEq, Eq, Structural)]
pub struct LoopStats {
    pub frames_accepted: u64,
    pub frames_rejected: u64,
    pub checksum_failures: u64,
    pub duplicates: u64,
    pub reconnects: u64,
}

/// `n + 1`, at most `u64::MAX`.
pub open spec fn bump(n: u64) -> u64 {
    sat_add(n, 1)
}

/// The render loop between two events.
pub struct LoopController {
    queue: RenderState,
    current: Option<RenderFrame>,
    offsets: ScrollOffsets,
    next_page_ms: u64,
    next_scroll_ms: u64,
    backlight: BacklightState,
    heartbeat: Heartbeat,
    last_frame_ms: u64,
    last_render_ms: u64,
    scroll_speed_ms: u64,
    width: u8,
    reconnect_shown: bool,
    offline_shown: bool,
    backoff_warned: bool,
    last_failure: Option<SerialFailureKind>,
    backoff: BackoffController,
    stats: LoopStats,
}

/// What the render loop's state is made of.
pub struct LoopView {
    pub pages: Seq<EntryView>,
    pub last_crc: Option<u32>,
    pub defaults: Defaults,
    pub current: Option<RenderFrameView>,
    pub offsets: ScrollOffsets,
    pub next_page_ms: u64,
    pub next_scroll_ms: u64,
    pub backlight: BacklightState,
    pub heartbeat: Heartbeat,
    pub last_frame_ms: u64,
    pub last_render_ms: u64,
    pub scroll_speed_ms: u64,
    pub width: u8,
    pub reconnect_shown: bool,
    pub offline_shown: bool,
    pub backoff_warned: bool,
    pub last_failure: Option<SerialFailureKind>,
    pub backoff: BackoffView,
    pub stats: LoopStats,
}

impl LoopController {
    pub closed spec fn view(&self) -> LoopView {
        LoopView {
            pages: self.queue.pages_view(),
            last_crc: self.queue.last_crc_view(),
            defaults: self.queue.defaults_view(),
            current: match self.current {
                Some(f) => Some(f@),
                None => None,
            },
            offsets: self.offsets,
            next_page_ms: self.next_page_ms,
            next_scroll_ms: self.next_scroll_ms,
            backlight: self.backlight,
            heartbeat: self.heartbeat,
            last_frame_ms: self.last_frame_ms,
            last_render_ms: self.last_render_ms,
            scroll_speed_ms: self.scroll_speed_ms,
            width: self.width,
            reconnect_shown: self.reconnect_shown,
            offline_shown: self.offline_shown,
            backoff_warned: self.backoff_warned,
            last_failure: self.last_failure,
            backoff: self.backoff.view_of(),
            stats: self.stats,
        }
    }

    /// The offsets stay below `usize::MAX`, so a scroll step can add one.
    pub closed spec fn well_formed(&self) -> bool {
        self.offsets.top < usize::MAX && self.offsets.bottom < usize::MAX
    }
}

/// The notice shown while the link is down and being retried.
pub open spec fn reconnecting_notice(width: nat) -> Seq<ActionView> {
    seq![
        ActionView::Clear,
        ActionView::Backlight(true),
        ActionView::Blink(false),
        ActionView::Row(0, truncated("RECONNECTING"@, width)),
        ActionView::Row(1, truncated("retrying..."@, width)),
    ]
}

/// The notice shown once the link has dropped.
pub open spec fn offline_notice(width: nat) -> Seq<ActionView> {
    seq![
        ActionView::Clear,
        ActionView::Backlight(true),
        ActionView::Blink(true),
        ActionView::Row(0, truncated("SERIAL OFFLINE"@, width)),
        ActionView::Row(1, truncated("will retry..."@, width)),
    ]
}

/// The notice shown for a frame that was refused, with the error's text.
pub open spec fn parse_error_notice(message: Seq<char>, width: nat) -> Seq<ActionView> {
    seq![
        ActionView::Backlight(true),
        ActionView::Blink(true),
        ActionView::Row(0, "ERR PARSE"@),
        ActionView::Row(1, ellipsized(message, width)),
    ]
}

/// Whether a render may happen at `now`: the least interval since the last
/// one has passed.
pub open spec fn may_render(last_render_ms: u64, now: u64) -> bool {
    !(now >= last_render_ms && now - last_render_ms < MIN_RENDER_INTERVAL_MS)
}

/// A render of the frame on show at `now`, when one may happen.
pub open spec fn render_step(v: LoopView, now: u64, heartbeat: bool) -> (LoopView, Seq<ActionView>) {
    if may_render(v.last_render_ms, now) {
        (LoopView { last_render_ms: now, ..v }, seq![ActionView::Render(v.offsets, heartbeat)])
    } else {
        (v, Seq::empty())
    }
}

/// The loop as it starts at `now`.
pub open spec fn loop_start(
    defaults: Defaults,
    scroll_speed_ms: u64,
    width: u8,
    backoff: BackoffView,
    connected: bool,
    last_failure: Option<SerialFailureKind>,
    now: u64,
) -> LoopView {
    LoopView {
        pages: Seq::empty(),
        last_crc: None,
        defaults,
        current: None,
        offsets: ScrollOffsets { top: 0, bottom: 0 },
        next_page_ms: now,
        next_scroll_ms: now,
        backlight: BacklightState { on: true, next_blink_ms: now },
        heartbeat: Heartbeat { visible: false, next_toggle_ms: sat_add(now, HEARTBEAT_BLINK_MS) },
        last_frame_ms: now,
        last_render_ms: now,
        scroll_speed_ms,
        width,
        reconnect_shown: !connected,
        offline_shown: false,
        backoff_warned: false,
        last_failure,
        backoff,
        stats: LoopStats { frames_accepted: 0, frames_rejected: 0, checksum_failures: 0, duplicates: 0, reconnects: 0 },
    }
}

fn push_notice_rows(out: &mut Vec<LoopAction>, top: &str, bottom: &str, width: u8)
    ensures
        actions_view(final(out)@) == actions_view(old(out)@) + seq![
            ActionView::Row(0, truncated(top@, width as nat)),
            ActionView::Row(1, truncated(bottom@, width as nat)),
        ],
{
    let ghost before = actions_view(out@);
    out.push(LoopAction::Row(0, truncate_to_width(top, width as usize)));
    out.push(LoopAction::Row(1, truncate_to_width(bottom, width as usize)));
    assert(actions_view(out@) =~= before + seq![
        ActionView::Row(0, truncated(top@, width as nat)),
        ActionView::Row(1, truncated(bottom@, width as nat)),
    ]);
}

fn reconnecting_actions(width: u8) -> (r: Vec<LoopAction>)
    ensures
        actions_view(r@) == reconnecting_notice(width as nat),
{
    let mut out: Vec<LoopAction> = Vec::new();
    out.push(LoopAction::Clear);
    out.push(LoopAction::Backlight(true));
    out.push(LoopAction::Blink(false));
    let ghost head = actions_view(out@);
    assert(head =~= seq![ActionView::Clear, ActionView::Backlight(true), ActionView::Blink(false)]);
    push_notice_rows(&mut out, "RECONNECTING", "retrying...", width);
    assert(actions_view(out@) =~= reconnecting_notice(width as nat));
    out
}

fn offline_actions(width: u8) -> (r: Vec<LoopAction>)
    ensures
        actions_view(r@) == offline_notice(width as nat),
{
    let mut out: Vec<LoopAction> = Vec::new();
    out.push(LoopAction::Clear);
    out.push(LoopAction::Backlight(true));
    out.push(LoopAction::Blink(true));
    let ghost head = actions_view(out@);
    assert(head =~= seq![ActionView::Clear, ActionView::Backlight(true), ActionView::Blink(true)]);
    push_notice_rows(&mut out, "SERIAL OFFLINE", "will retry...", width);
    assert(actions_view(out@) =~= offline_notice(width as nat));
    out
}

fn parse_error_actions(message: &str, width: u8) -> (r: Vec<LoopAction>)
    ensures
        actions_view(r@) == parse_error_notice(message@, width as nat),
{
    let mut out: Vec<LoopAction> = Vec::new();
    out.push(LoopAction::Backlight(true));
    out.push(LoopAction::Blink(true));
    out.push(LoopAction::Row(0, String::from_str("ERR PARSE")));
    out.push(LoopAction::Row(1, truncate_with_ellipsis(message, width as usize)));
    assert(actions_view(out@) =~= parse_error_notice(message@, width as nat));
    out
}

impl LoopController {
    /// The loop at its start at `now`: nothing on show, the link connected
    /// or not; the reconnect notice is shown when it is not.
    pub fn new(
        defaults: Defaults,
        scroll_speed_ms: u64,
        width: u8,
        backoff: BackoffController,
        connected: bool,
        last_failure: Option<SerialFailureKind>,
        now: u64,
    ) -> (r: (LoopController, Vec<LoopAction>))
        ensures
            r.0.well_formed(),
            r.0@ == loop_start(defaults, scroll_speed_ms, width, backoff.view_of(), connected, last_failure, now),
            actions_view(r.1@) == if connected {
                Seq::<ActionView>::empty()
            } else {
                reconnecting_notice(width as nat)
            },
    {
        let c = LoopController {
            queue: RenderState::new(Some(defaults)),
            current: None,
            offsets: ScrollOffsets { top: 0, bottom: 0 },
            next_page_ms: now,
            next_scroll_ms: now,
            backlight: BacklightState { on: true, next_blink_ms: now },
            heartbeat: Heartbeat { visible: false, next_toggle_ms: now.saturating_add(HEARTBEAT_BLINK_MS) },
            last_frame_ms: now,
            last_render_ms: now,
            scroll_speed_ms,
            width,
            reconnect_shown: !connected,
            offline_shown: false,
            backoff_warned: false,
            last_failure,
            backoff,
            stats: LoopStats { frames_accepted: 0, frames_rejected: 0, checksum_failures: 0, duplicates: 0, reconnects: 0 },
        };
        let actions = if connected {
            Vec::new()
        } else {
            reconnecting_actions(width)
        };
        proof {
            if connected {
                assert(actions_view(actions@) =~= Seq::<ActionView>::empty());
            }
        }
        (c, actions)
    }

    /// The frame on show.
    pub fn current(&self) -> (r: Option<&RenderFrame>)
        ensures
            match r {
                Some(f) => self@.current == Some(f@),
                None => self@.current is None,
            },
    {
        self.current.as_ref()
    }

    /// The counters.
    pub fn stats(&self) -> (r: LoopStats)
        ensures
            r == self@.stats,
    {
        self.stats
    }

    /// The reason the link last failed, if it is down.
    pub fn last_failure(&self) -> (r: Option<SerialFailureKind>)
        ensures
            r == self@.last_failure,
    {
        self.last_failure
    }

    /// The reconnect pacing.
    pub fn backoff(&self) -> (r: &BackoffController)
        ensures
            r.view_of() == self@.backoff,
    {
        &self.backoff
    }

    fn render(&mut self, now: u64, heartbeat: bool, out: &mut Vec<LoopAction>)
        ensures
            final(self)@ == render_step(old(self)@, now, heartbeat).0,
            final(self).well_formed() == old(self).well_formed(),
            actions_view(final(out)@) == actions_view(old(out)@) + render_step(old(self)@, now, heartbeat).1,
    {
        let ghost before = actions_view(out@);
        if !(now >= self.last_render_ms && now - self.last_render_ms < MIN_RENDER_INTERVAL_MS) {
            self.last_render_ms = now;
            out.push(LoopAction::Render(self.offsets, heartbeat));
            assert(actions_view(out@) =~= before + seq![ActionView::Render(old(self)@.offsets, heartbeat)]);
        } else {
            assert(actions_view(out@) =~= before + Seq::<ActionView>::empty());
        }
    }
}

/// The front frame after pruning at `now`, if any.
pub open spec fn next_front(pages: Seq<EntryView>, now: u64) -> Option<RenderFrameView> {
    let p = crate::state::prune_front(pages, now);
    if p.len() == 0 {
        None
    } else {
        Some(p[0].0)
    }
}

/// The pages after rotating at `now`: pruned, the front moved to the back.
pub open spec fn rotated_pages(pages: Seq<EntryView>, now: u64) -> Seq<EntryView> {
    let p = crate::state::prune_front(pages, now);
    if p.len() == 0 {
        p
    } else {
        p.drop_first().push(p[0])
    }
}

/// The queue after rotating at `now`.
pub open spec fn with_rotation(v: LoopView, now: u64) -> LoopView {
    LoopView {
        pages: rotated_pages(v.pages, now),
        last_crc: crate::state::crc_after_prune(v.pages, v.last_crc, now),
        ..v
    }
}

/// A button press at `now`: the next page goes on show (the display is
/// cleared and the frame drawn, when a render may happen).
pub open spec fn button_step(v: LoopView, now: u64, heartbeat: bool) -> (LoopView, Seq<ActionView>) {
    let w = with_rotation(v, now);
    match next_front(v.pages, now) {
        None => (w, Seq::empty()),
        Some(f) => {
            let shown = LoopView {
                current: Some(f),
                offsets: ScrollOffsets { top: 0, bottom: 0 },
                next_scroll_ms: sat_add(now, v.scroll_speed_ms),
                next_page_ms: sat_add(now, f.page_timeout_ms),
                ..w
            };
            let (x, r) = render_step(shown, now, heartbeat);
            (x, seq![ActionView::Clear] + r)
        },
    }
}

/// A frame going on show at `now` by rotation: timers restart, the display
/// is cleared and set to the frame's backlight and blink, and the frame is
/// drawn when a render may happen.
pub open spec fn rotation_shows(w: LoopView, f: RenderFrameView, now: u64, heartbeat: bool) -> (LoopView, Seq<ActionView>) {
    let shown = LoopView {
        current: Some(f),
        offsets: ScrollOffsets { top: 0, bottom: 0 },
        next_page_ms: sat_add(now, f.page_timeout_ms),
        backlight: BacklightState { on: f.backlight_on, next_blink_ms: sat_add(now, BLINK_INTERVAL_MS) },
        ..w
    };
    let (x, r) = render_step(shown, now, heartbeat);
    (x, seq![ActionView::Clear, ActionView::Backlight(f.backlight_on), ActionView::Blink(f.blink)] + r)
}

/// Page rotation at `now`: when more than one page is queued and the page
/// timeout has passed, the next page goes on show.
pub open spec fn rotate_step(v: LoopView, now: u64, heartbeat: bool) -> (LoopView, Seq<ActionView>) {
    let pruned = LoopView {
        pages: crate::state::prune_front(v.pages, now),
        last_crc: crate::state::crc_after_prune(v.pages, v.last_crc, now),
        ..v
    };
    if pruned.pages.len() > 1 && now >= v.next_page_ms {
        match next_front(pruned.pages, now) {
            Some(f) => rotation_shows(with_rotation(pruned, now), f, now, heartbeat),
            None => (with_rotation(pruned, now), Seq::empty()),
        }
    } else {
        (pruned, Seq::empty())
    }
}

/// The scroll offset of a row `len` long after one step on a display
/// `width` wide (back to 0 should it ever reach `usize::MAX`).
pub open spec fn scroll_next(len: nat, width: nat, o: usize) -> usize {
    if len <= width {
        0
    } else {
        let n = (o + 1) % (2 * len as int + 9);
        if n >= usize::MAX {
            0
        } else {
            n as usize
        }
    }
}

/// The frame on show after a pass at `now`: a scroll step (and a render)
/// when its rows scroll and the scroll time has come, then the backlight
/// toggled for a blinking frame or set to the frame's.
pub open spec fn animate_step(v: LoopView, now: u64, heartbeat: bool) -> (LoopView, Seq<ActionView>) {
    match v.current {
        None => (v, Seq::empty()),
        Some(f) => {
            let (s, r) = if frame_scrolls(f, v.width as nat) && now >= v.next_scroll_ms {
                render_step(
                    LoopView {
                        offsets: ScrollOffsets {
                            top: scroll_next(f.line1.len(), v.width as nat, v.offsets.top),
                            bottom: scroll_next(f.line2.len(), v.width as nat, v.offsets.bottom),
                        },
                        next_scroll_ms: sat_add(now, f.scroll_speed_ms),
                        ..v
                    },
                    now,
                    heartbeat,
                )
            } else {
                (v, Seq::empty())
            };
            let b = crate::render::backlight_after(s.backlight, f.blink, f.backlight_on, now);
            (
                LoopView { backlight: b, ..s },
                if b.on != s.backlight.on {
                    r.push(ActionView::Backlight(b.on))
                } else {
                    r
                },
            )
        },
    }
}

proof fn lemma_prune_idempotent(pages: Seq<EntryView>, now: u64)
    ensures
        crate::state::prune_front(crate::state::prune_front(pages, now), now) == crate::state::prune_front(pages, now),
    decreases pages.len(),
{
    if pages.len() > 0 && (pages[0].1 matches Some(e) && e <= now) {
        lemma_prune_idempotent(pages.drop_first(), now);
    }
}

fn scroll_offset(text: &str, width: usize, o: usize) -> (r: usize)
    requires
        o < usize::MAX,
    ensures
        r == scroll_next(text@.len(), width as nat, o),
        r < usize::MAX,
{
    let n = crate::display::overlays::advance_offset(text, width, o);
    if n == usize::MAX {
        0
    } else {
        n
    }
}

impl LoopController {
    /// Advances the heartbeat to `now`; returns whether it is drawn.
    pub fn heartbeat_tick(&mut self, now: u64) -> (on: bool)
        ensures
            final(self).well_formed() == old(self).well_formed(),
            final(self)@ == (LoopView {
                heartbeat: crate::render::heartbeat_after(old(self)@.heartbeat, old(self)@.last_frame_ms, now),
                ..old(self)@
            }),
            on == crate::render::heartbeat_on(final(self)@.heartbeat, old(self)@.last_frame_ms, now),
    {
        let last = self.last_frame_ms;
        self.heartbeat.step(last, now)
    }

    /// The button was pressed at `now`.
    pub fn button_pressed(&mut self, now: u64, heartbeat: bool) -> (r: Vec<LoopAction>)
        requires
            old(self).well_formed(),
        ensures
            final(self).well_formed(),
            final(self)@ == button_step(old(self)@, now, heartbeat).0,
            actions_view(r@) == button_step(old(self)@, now, heartbeat).1,
    {
        let mut out: Vec<LoopAction> = Vec::new();
        match self.queue.next_page_at(now) {
            None => {
                assert(actions_view(out@) =~= Seq::<ActionView>::empty());
            },
            Some(frame) => {
                self.next_scroll_ms = now.saturating_add(self.scroll_speed_ms);
                self.next_page_ms = now.saturating_add(frame.page_timeout_ms);
                self.current = Some(frame);
                self.offsets = ScrollOffsets { top: 0, bottom: 0 };
                out.push(LoopAction::Clear);
                assert(actions_view(out@) =~= seq![ActionView::Clear]);
                self.render(now, heartbeat, &mut out);
            },
        }
        out
    }

    /// Page rotation at `now`.
    pub fn rotate(&mut self, now: u64, heartbeat: bool) -> (r: Vec<LoopAction>)
        requires
            old(self).well_formed(),
        ensures
            final(self).well_formed(),
            final(self)@ == rotate_step(old(self)@, now, heartbeat).0,
            actions_view(r@) == rotate_step(old(self)@, now, heartbeat).1,
    {
        let mut out: Vec<LoopAction> = Vec::new();
        proof {
            lemma_prune_idempotent(old(self)@.pages, now);
        }
        let n = self.queue.len_at(now);
        if n > 1 && now >= self.next_page_ms {
            match self.queue.next_page_at(now) {
                None => {
                    assert(actions_view(out@) =~= Seq::<ActionView>::empty());
                },
                Some(frame) => {
                    self.next_page_ms = now.saturating_add(frame.page_timeout_ms);
                    self.backlight = BacklightState {
                        on: frame.backlight_on,
                        next_blink_ms: now.saturating_add(BLINK_INTERVAL_MS),
                    };
                    out.push(LoopAction::Clear);
                    out.push(LoopAction::Backlight(frame.backlight_on));
                    out.push(LoopAction::Blink(frame.blink));
                    assert(actions_view(out@) =~= seq![
                        ActionView::Clear,
                        ActionView::Backlight(frame.backlight_on),
                        ActionView::Blink(frame.blink),
                    ]);
                    self.current = Some(frame);
                    self.offsets = ScrollOffsets { top: 0, bottom: 0 };
                    self.render(now, heartbeat, &mut out);
                },
            }
        } else {
            assert(actions_view(out@) =~= Seq::<ActionView>::empty());
        }
        out
    }

    /// The frame on show at `now`: scrolling and blinking.
    pub fn animate(&mut self, now: u64, heartbeat: bool) -> (r: Vec<LoopAction>)
        requires
            old(self).well_formed(),
        ensures
            final(self).well_formed(),
            final(self)@ == animate_step(old(self)@, now, heartbeat).0,
            actions_view(r@) == animate_step(old(self)@, now, heartbeat).1,
    {
        let mut out: Vec<LoopAction> = Vec::new();
        let (blink, backlight_on, scrolled) = match &self.current {
            None => {
                assert(actions_view(out@) =~= Seq::<ActionView>::empty());
                return out;
            },
            Some(f) => {
                let width = self.width as usize;
                if crate::render::frame_needs_scroll(f, width) && now >= self.next_scroll_ms {
                    let top = scroll_offset(f.line1.as_str(), width, self.offsets.top);
                    let bottom = scroll_offset(f.line2.as_str(), width, self.offsets.bottom);
                    self.offsets = ScrollOffsets { top, bottom };
                    self.next_scroll_ms = now.saturating_add(f.scroll_speed_ms);
                    (f.blink, f.backlight_on, true)
                } else {
                    (f.blink, f.backlight_on, false)
                }
            },
        };
        assert(actions_view(out@) =~= Seq::<ActionView>::empty());
        if scrolled {
            self.render(now, heartbeat, &mut out);
        }
        let ghost before = actions_view(out@);
        if self.backlight.step(blink, backlight_on, now) {
            out.push(LoopAction::Backlight(self.backlight.on));
            assert(actions_view(out@) =~= before.push(ActionView::Backlight(self.backlight.on)));
        }
        out
    }
}


/// What came of a line from the link.
#[derive(Debug)]
pub enum LineOutcome {
    /// A new frame, now on show; the display's part.
    Shown(Vec<LoopAction>),
    /// A frame asking for the configuration to be read again.
    Reload,
    /// The last frame's text again: nothing changes on the display.
    Duplicate,
    /// A refused frame: the error, whether it belongs in the protocol error
    /// log, and the notice to show.
    Refused(crate::Error, bool, Vec<LoopAction>),
}

/// A new frame going on show at `now`: it is counted, its timers start, the
/// heartbeat hides, the display is cleared and set to its backlight and
/// blink, and it is drawn when a render may happen.
pub open spec fn frame_shows(w: LoopView, f: RenderFrameView, now: u64, heartbeat: bool) -> (LoopView, Seq<ActionView>) {
    let shown = LoopView {
        current: Some(f),
        offsets: ScrollOffsets { top: 0, bottom: 0 },
        next_scroll_ms: sat_add(now, w.scroll_speed_ms),
        backlight: BacklightState { on: f.backlight_on, next_blink_ms: sat_add(now, BLINK_INTERVAL_MS) },
        last_frame_ms: now,
        heartbeat: Heartbeat { visible: false, ..w.heartbeat },
        next_page_ms: sat_add(now, f.page_timeout_ms),
        stats: LoopStats { frames_accepted: bump(w.stats.frames_accepted), ..w.stats },
        ..w
    };
    let (x, r) = render_step(shown, now, heartbeat);
    (x, seq![ActionView::Clear, ActionView::Backlight(f.backlight_on), ActionView::Blink(f.blink)] + r)
}

/// Whether `post` and `r` are what the loop owes after taking in a line at
/// `now` whose queue result was `res`, the queue then holding `pages` and
/// `crc`.
pub open spec fn line_taken(
    v: LoopView,
    now: u64,
    heartbeat: bool,
    pages: Seq<EntryView>,
    crc: Option<u32>,
    res: Result<Option<RenderFrame>, crate::Error>,
    r: LineOutcome,
    post: LoopView,
) -> bool {
    let w = LoopView { pages, last_crc: crc, ..v };
    match res {
        Ok(Some(f)) => if f.config_reload {
            &&& r is Reload
            &&& post == LoopView { stats: LoopStats { frames_accepted: bump(v.stats.frames_accepted), ..v.stats }, ..w }
        } else {
            r matches LineOutcome::Shown(a) && (post, actions_view(a@)) == frame_shows(w, f@, now, heartbeat)
        },
        Ok(None) => {
            &&& r is Duplicate
            &&& post == LoopView { stats: LoopStats { duplicates: bump(v.stats.duplicates), ..v.stats }, ..w }
        },
        Err(e) => {
            &&& r matches LineOutcome::Refused(e2, log, a) && e2 == e && log == (e is Parse)
                && actions_view(a@) == parse_error_notice(crate::error_text(e), v.width as nat)
            &&& post == LoopView {
                backlight: BacklightState { on: true, next_blink_ms: sat_add(now, BLINK_INTERVAL_MS) },
                stats: LoopStats {
                    frames_rejected: bump(v.stats.frames_rejected),
                    checksum_failures: if e is ChecksumMismatch {
                        bump(v.stats.checksum_failures)
                    } else {
                        v.stats.checksum_failures
                    },
                    ..v.stats
                },
                ..w
            }
        },
    }
}

/// The pacing after a failed attempt at `now`.
pub open spec fn backoff_failed(b: BackoffView, now: u64) -> BackoffView {
    BackoffView {
        current_ms: crate::render::min_u64(sat_add(b.current_ms, b.current_ms), b.max_ms),
        next_retry_ms: Some(sat_add(now, b.current_ms)),
        ..b
    }
}

/// The pacing after a success.
pub open spec fn backoff_succeeded(b: BackoffView) -> BackoffView {
    BackoffView { current_ms: b.initial_ms, next_retry_ms: None, ..b }
}

/// Whether the pacing lets a retry happen at `now`.
pub open spec fn retry_due(b: BackoffView, now: u64) -> bool {
    match b.next_retry_ms {
        Some(t) => now >= t,
        None => true,
    }
}

/// A read from the link failed at `now` for `reason`: the link is dropped,
/// a retry waits, and the offline notice shows once.
pub open spec fn read_failed_step(v: LoopView, now: u64, reason: SerialFailureKind) -> (LoopView, Seq<ActionView>) {
    let w = LoopView {
        backoff: backoff_failed(v.backoff, now),
        reconnect_shown: false,
        last_failure: Some(reason),
        ..v
    };
    if !v.offline_shown {
        (LoopView { offline_shown: true, ..w }, offline_notice(v.width as nat))
    } else {
        (w, Seq::empty())
    }
}

/// A connection attempt to make.
#[derive(Debug, Clone, Copy, PartialEq, Eq)]
pub struct ReconnectAttempt {
    /// Its number since the loop started.
    pub number: u64,
    /// The delay the pacing is at.
    pub delay_ms: u64,
    /// Whether the delay has reached the maximum for the first time since
    /// the last success (a warning is due).
    pub saturated: bool,
}

/// The reconnect part of a pass at `now`, the link up or not: the notice
/// (once), and an attempt when the pacing allows one, as
/// `(number, delay, saturated)`.
pub open spec fn reconnect_step(v: LoopView, now: u64, link_up: bool) -> (LoopView, Seq<ActionView>, Option<(u64, u64, bool)>) {
    let (v1, n) = if !link_up && !v.reconnect_shown {
        (LoopView { reconnect_shown: true, ..v }, reconnecting_notice(v.width as nat))
    } else {
        (v, Seq::empty())
    };
    if !link_up && retry_due(v.backoff, now) {
        let delay = v.backoff.current_ms;
        let warn = delay >= v.backoff.max_ms && !v.backoff_warned;
        (
            LoopView {
                stats: LoopStats { reconnects: bump(v.stats.reconnects), ..v.stats },
                backoff_warned: v.backoff_warned || warn,
                ..v1
            },
            n,
            Some((bump(v.stats.reconnects), delay, warn)),
        )
    } else {
        (v1, n, None)
    }
}

/// The link came up at `now`: the pacing starts over, the notices and the
/// heartbeat are cleared, and so is the display.
pub open spec fn connected_step(v: LoopView) -> LoopView {
    LoopView {
        backoff: backoff_succeeded(v.backoff),
        reconnect_shown: false,
        offline_shown: false,
        heartbeat: Heartbeat { visible: false, ..v.heartbeat },
        backoff_warned: false,
        last_failure: None,
        ..v
    }
}

/// The serial settings a configuration gives.
pub open spec fn link_of(c: crate::config::ConfigView) -> crate::serial::SerialOptions {
    crate::serial::SerialOptions {
        baud: c.baud,
        timeout_ms: c.serial_timeout_ms,
        flow_control: c.flow_control,
        parity: c.parity,
        stop_bits: c.stop_bits,
        dtr: c.dtr_on_open,
    }
}

impl LoopController {
    fn show_new_frame(&mut self, now: u64, heartbeat: bool, frame: RenderFrame) -> (r: Vec<LoopAction>)
        requires
            old(self).well_formed(),
        ensures
            final(self).well_formed(),
            (final(self)@, actions_view(r@)) == frame_shows(old(self)@, frame@, now, heartbeat),
    {
        self.stats.frames_accepted = self.stats.frames_accepted.saturating_add(1);
        self.next_scroll_ms = now.saturating_add(self.scroll_speed_ms);
        self.backlight = BacklightState { on: frame.backlight_on, next_blink_ms: now.saturating_add(BLINK_INTERVAL_MS) };
        self.last_frame_ms = now;
        self.heartbeat.visible = false;
        self.next_page_ms = now.saturating_add(frame.page_timeout_ms);
        let mut out: Vec<LoopAction> = Vec::new();
        out.push(LoopAction::Clear);
        out.push(LoopAction::Backlight(frame.backlight_on));
        out.push(LoopAction::Blink(frame.blink));
        assert(actions_view(out@) =~= seq![
            ActionView::Clear,
            ActionView::Backlight(frame.backlight_on),
            ActionView::Blink(frame.blink),
        ]);
        self.current = Some(frame);
        self.offsets = ScrollOffsets { top: 0, bottom: 0 };
        self.render(now, heartbeat, &mut out);
        out
    }

    fn refuse(&mut self, now: u64, e: crate::Error) -> (r: LineOutcome)
        requires
            old(self).well_formed(),
        ensures
            final(self).well_formed(),
            line_taken(old(self)@, now, false, old(self)@.pages, old(self)@.last_crc, Err(e), r, final(self)@),
    {
        self.stats.frames_rejected = self.stats.frames_rejected.saturating_add(1);
        if matches!(e, crate::Error::ChecksumMismatch) {
            self.stats.checksum_failures = self.stats.checksum_failures.saturating_add(1);
        }
        self.backlight = BacklightState { on: true, next_blink_ms: now.saturating_add(BLINK_INTERVAL_MS) };
        let log = matches!(e, crate::Error::Parse(_));
        let message = e.message();
        let actions = parse_error_actions(message.as_str(), self.width);
        LineOutcome::Refused(e, log, actions)
    }

    fn settle(&mut self, now: u64, heartbeat: bool, res: Result<Option<RenderFrame>, crate::Error>) -> (r: LineOutcome)
        requires
            old(self).well_formed(),
        ensures
            final(self).well_formed(),
            line_taken(old(self)@, now, heartbeat, old(self)@.pages, old(self)@.last_crc, res, r, final(self)@),
    {
        match res {
            Ok(Some(frame)) => {
                if frame.config_reload {
                    self.stats.frames_accepted = self.stats.frames_accepted.saturating_add(1);
                    LineOutcome::Reload
                } else {
                    LineOutcome::Shown(self.show_new_frame(now, heartbeat, frame))
                }
            },
            Ok(None) => {
                self.stats.duplicates = self.stats.duplicates.saturating_add(1);
                LineOutcome::Duplicate
            },
            Err(e) => self.refuse(now, e),
        }
    }

    /// Takes in a line from the link at `now`.
    pub fn take_line(&mut self, now: u64, line: &str, heartbeat: bool) -> (r: LineOutcome)
        requires
            old(self).well_formed(),
        ensures
            final(self).well_formed(),
            exists|res: Result<Option<RenderFrame>, crate::Error>|
                crate::state::ingest_post(
                    old(self)@.pages,
                    old(self)@.last_crc,
                    old(self)@.defaults,
                    line@,
                    now,
                    final(self)@.pages,
                    final(self)@.last_crc,
                    res,
                ) && line_taken(old(self)@, now, heartbeat, final(self)@.pages, final(self)@.last_crc, res, r, final(self)@),
    {
        let res = self.queue.ingest_at(line, now);
        let ghost g = res;
        let ghost mid = self@;
        assert(mid == LoopView { pages: mid.pages, last_crc: mid.last_crc, ..old(self)@ });
        let r = self.settle(now, heartbeat, res);
        assert(line_taken(old(self)@, now, heartbeat, mid.pages, mid.last_crc, g, r, self@));
        assert(self@.pages == mid.pages && self@.last_crc == mid.last_crc) by {
            match g {
                Ok(Some(f)) => {},
                Ok(None) => {},
                Err(e) => {},
            }
        }
        assert(crate::state::ingest_post(
            old(self)@.pages,
            old(self)@.last_crc,
            old(self)@.defaults,
            line@,
            now,
            self@.pages,
            self@.last_crc,
            g,
        ) && line_taken(old(self)@, now, heartbeat, self@.pages, self@.last_crc, g, r, self@));
        r
    }

    /// The configuration was read again (the frame asked for it): the
    /// timing, the pacing limits, the device and the serial settings follow
    /// it. Returns whether the device or the serial settings changed, in
    /// which case the link is to be dropped and the notices may show again.
    pub fn reload(&mut self, config: &mut crate::daemon::AppConfig, link: &mut crate::serial::SerialOptions, new: &crate::config::Config) -> (changed: bool)
        requires
            old(self).well_formed(),
        ensures
            final(self).well_formed(),
            final(config)@ == (crate::daemon::AppConfigView {
                scroll_speed_ms: new@.scroll_speed_ms,
                page_timeout_ms: new@.page_timeout_ms,
                backoff_initial_ms: new@.backoff_initial_ms,
                backoff_max_ms: new@.backoff_max_ms,
                device: new@.device,
                baud: new@.baud,
                ..old(config)@
            }),
            *final(link) == link_of(new@),
            changed == (old(config)@.device != new@.device || *old(link) != link_of(new@)),
            final(self)@ == (LoopView {
                defaults: Defaults { scroll_speed_ms: new@.scroll_speed_ms, page_timeout_ms: new@.page_timeout_ms },
                scroll_speed_ms: new@.scroll_speed_ms,
                backoff: BackoffView {
                    initial_ms: new@.backoff_initial_ms,
                    max_ms: if new@.backoff_max_ms < new@.backoff_initial_ms {
                        new@.backoff_initial_ms
                    } else {
                        new@.backoff_max_ms
                    },
                    current_ms: new@.backoff_initial_ms,
                    next_retry_ms: old(self)@.backoff.next_retry_ms,
                },
                reconnect_shown: !changed && old(self)@.reconnect_shown,
                offline_shown: !changed && old(self)@.offline_shown,
                ..old(self)@
            }),
    {
        let new_link = crate::serial::SerialOptions {
            baud: new.baud,
            timeout_ms: new.serial_timeout_ms,
            flow_control: new.flow_control,
            parity: new.parity,
            stop_bits: new.stop_bits,
            dtr: new.dtr_on_open,
        };
        let same_link = link.baud == new_link.baud && link.timeout_ms == new_link.timeout_ms
            && link.flow_control == new_link.flow_control && link.parity == new_link.parity
            && link.stop_bits == new_link.stop_bits && link.dtr == new_link.dtr;
        let changed = !crate::text::same_text(config.device.as_str(), new.device.as_str()) || !same_link;
        config.scroll_speed_ms = new.scroll_speed_ms;
        config.page_timeout_ms = new.page_timeout_ms;
        config.backoff_initial_ms = new.backoff_initial_ms;
        config.backoff_max_ms = new.backoff_max_ms;
        config.device = new.device.clone();
        config.baud = new.baud;
        *link = new_link;
        if changed {
            self.reconnect_shown = false;
            self.offline_shown = false;
        }
        self.backoff.update(new.backoff_initial_ms, new.backoff_max_ms);
        self.queue.set_defaults(Defaults { scroll_speed_ms: new.scroll_speed_ms, page_timeout_ms: new.page_timeout_ms });
        self.scroll_speed_ms = new.scroll_speed_ms;
        changed
    }

    /// A read from the link failed at `now` for `reason`.
    pub fn read_failed(&mut self, now: u64, reason: SerialFailureKind) -> (r: Vec<LoopAction>)
        requires
            old(self).well_formed(),
        ensures
            final(self).well_formed(),
            final(self)@ == read_failed_step(old(self)@, now, reason).0,
            actions_view(r@) == read_failed_step(old(self)@, now, reason).1,
    {
        self.backoff.mark_failure(now);
        self.reconnect_shown = false;
        self.last_failure = Some(reason);
        if !self.offline_shown {
            self.offline_shown = true;
            offline_actions(self.width)
        } else {
            let out: Vec<LoopAction> = Vec::new();
            assert(actions_view(out@) =~= Seq::<ActionView>::empty());
            out
        }
    }

    /// The reconnect part of a pass at `now`, the link up or not.
    pub fn reconnect(&mut self, now: u64, link_up: bool) -> (r: (Vec<LoopAction>, Option<ReconnectAttempt>))
        requires
            old(self).well_formed(),
        ensures
            final(self).well_formed(),
            final(self)@ == reconnect_step(old(self)@, now, link_up).0,
            actions_view(r.0@) == reconnect_step(old(self)@, now, link_up).1,
            match reconnect_step(old(self)@, now, link_up).2 {
                Some((n, d, w)) => r.1 matches Some(a) && a.number == n && a.delay_ms == d && a.saturated == w,
                None => r.1 is None,
            },
    {
        let notice = if !link_up && !self.reconnect_shown {
            self.reconnect_shown = true;
            reconnecting_actions(self.width)
        } else {
            let out: Vec<LoopAction> = Vec::new();
            assert(actions_view(out@) =~= Seq::<ActionView>::empty());
            out
        };
        if !link_up && self.backoff.should_retry(now) {
            let delay = self.backoff.current_delay_ms();
            let warn = delay >= self.backoff.max_delay_ms() && !self.backoff_warned;
            self.stats.reconnects = self.stats.reconnects.saturating_add(1);
            self.backoff_warned = self.backoff_warned || warn;
            (notice, Some(ReconnectAttempt { number: self.stats.reconnects, delay_ms: delay, saturated: warn }))
        } else {
            (notice, None)
        }
    }

    /// The link came up at `now`; the display is to be cleared.
    pub fn connected(&mut self, now: u64) -> (r: Vec<LoopAction>)
        requires
            old(self).well_formed(),
        ensures
            final(self).well_formed(),
            final(self)@ == connected_step(old(self)@),
            actions_view(r@) == seq![ActionView::Clear],
    {
        self.backoff.mark_success(now);
        self.reconnect_shown = false;
        self.offline_shown = false;
        self.heartbeat.visible = false;
        self.backoff_warned = false;
        self.last_failure = None;
        let mut out: Vec<LoopAction> = Vec::new();
        out.push(LoopAction::Clear);
        assert(actions_view(out@) =~= seq![ActionView::Clear]);
        out
    }

    /// A connection attempt at `now` failed for `reason`.
    pub fn connect_failed(&mut self, now: u64, reason: SerialFailureKind)
        requires
            old(self).well_formed(),
        ensures
            final(self).well_formed(),
            final(self)@ == (LoopView {
                backoff: backoff_failed(old(self)@.backoff, now),
                last_failure: Some(reason),
                ..old(self)@
            }),
    {
        self.backoff.mark_failure(now);
        self.last_failure = Some(reason);
    }
}


impl LoopController {
    /// Whether no page is queued at `now`, expired pages dropped first.
    pub fn no_pages(&mut self, now: u64) -> (r: bool)
        requires
            old(self).well_formed(),
        ensures
            final(self).well_formed(),
            final(self)@ == (LoopView {
                pages: crate::state::prune_front(old(self)@.pages, now),
                last_crc: crate::state::crc_after_prune(old(self)@.pages, old(self)@.last_crc, now),
                ..old(self)@
            }),
            r == (final(self)@.pages.len() == 0),
    {
        self.queue.len_at(now) == 0
    }
}


} // verus!
