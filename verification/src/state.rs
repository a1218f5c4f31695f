//! The queue of pages on show: frames join at the back, rotate front to
//! back, and leave once their display duration has passed; a frame equal to
//! the last one taken in (by the CRC of its text) is ignored.
use std::collections::VecDeque;
use vstd::prelude::*;
use vstd::string::StringExecFns;
use vstd::utf8::encode_utf8;
use crate::payload::{Defaults, RenderFrame, RenderFrameView, DEFAULT_SCROLL_MS, DEFAULT_PAGE_TIMEOUT_MS};
use crate::payload::canonical::{crc32, crc32_of};
use crate::payload::frame::payload_text_result_is;
use crate::Error;

verus! {

#[verifier::external_type_specification]
#[verifier::external_body]
pub struct ExInstant(std::time::Instant);

/// Largest frame text, in bytes, that the queue takes in.
pub const MAX_FRAME_BYTES: usize = 512;

/// A queued frame and the clock reading (milliseconds since the queue was
/// made) at which it leaves.
pub struct FrameEntry {
    pub frame: RenderFrame,
    pub expires_at: Option<u64>,
}

/// The model of a queued frame.
pub type EntryView = (RenderFrameView, Option<u64>);

/// Maintains a queue of render frames and deduplicates identical payloads.
pub struct RenderState {
    pages: VecDeque<FrameEntry>,
    last_crc: Option<u32>,
    defaults: Defaults,
    started: std::time::Instant,
    clock: u64,
}

/// `std::time::Instant::now`.
#[verifier::external_body]
fn instant_now() -> std::time::Instant {
    std::time::Instant::now()
}

/// Milliseconds that have passed since `start` on the monotonic clock,
/// `u64::MAX` once they no longer fit. The reading depends on the clock:
/// nothing is stated of it.
#[verifier::external_body]
fn millis_since(start: &std::time::Instant) -> u64 {
    u64::try_from(start.elapsed().as_millis()).unwrap_or(u64::MAX)
}

/// The pages with every expired frame at the front removed.
pub open spec fn prune_front(pages: Seq<EntryView>, now: u64) -> Seq<EntryView>
    decreases pages.len(),
{
    if pages.len() > 0 && (pages[0].1 matches Some(e) && e <= now) {
        prune_front(pages.drop_first(), now)
    } else {
        pages
    }
}

/// The last CRC after pruning: forgotten once no page is left.
pub open spec fn crc_after_prune(pages: Seq<EntryView>, last: Option<u32>, now: u64) -> Option<u32> {
    if prune_front(pages, now).len() == 0 {
        None
    } else {
        last
    }
}

/// When a frame shown from `now` expires.
pub open spec fn expiry_of(f: RenderFrameView, now: u64) -> Option<u64> {
    match f.duration_ms {
        Some(ms) => Some(if now + ms > u64::MAX {
            u64::MAX
        } else {
            (now + ms) as u64
        }),
        None => None,
    }
}

/// Whether `r` and the state after taking in `raw` at clock reading `now`
/// are what the queue owes: pruning first, then the size limit, then the
/// duplicate check, then the payload rules.
pub open spec fn ingest_post(
    pre_pages: Seq<EntryView>,
    pre_crc: Option<u32>,
    defaults: Defaults,
    raw: Seq<char>,
    now: u64,
    post_pages: Seq<EntryView>,
    post_crc: Option<u32>,
    r: Result<Option<RenderFrame>, Error>,
) -> bool {
    let pages = prune_front(pre_pages, now);
    let last = crc_after_prune(pre_pages, pre_crc, now);
    let crc = crc32_of(encode_utf8(raw));
    if encode_utf8(raw).len() > MAX_FRAME_BYTES {
        &&& r matches Err(Error::Parse(m)) && m@ == "frame exceeds 512 bytes"@
        &&& post_pages == pages && post_crc == last
    } else if last == Some(crc) {
        &&& r matches Ok(None)
        &&& post_pages == pages && post_crc == last
    } else {
        &&& !(r matches Ok(None))
        &&& (r matches Ok(Some(f)) ==> payload_text_result_is(Ok(f), raw, defaults)
            && post_pages == pages.push((f@, expiry_of(f@, now))) && post_crc == Some(crc))
        &&& (r matches Err(e) ==> payload_text_result_is(Err(e), raw, defaults)
            && post_pages == pages && post_crc == last)
    }
}

/// A copy of a frame.
pub fn copy_frame(f: &RenderFrame) -> (r: RenderFrame)
    ensures
        r@ == f@,
{
    let mut icons: Vec<crate::payload::Icon> = Vec::new();
    let mut i: usize = 0;
    while i < f.icons.len()
        invariant
            i <= f.icons@.len(),
            icons@ == f.icons@.subrange(0, i as int),
        decreases f.icons@.len() - i,
    {
        icons.push(f.icons[i]);
        assert(icons@ =~= f.icons@.subrange(0, i + 1));
        i = i + 1;
    }
    assert(icons@ =~= f.icons@);
    let bar_label = match &f.bar_label {
        Some(s) => Some(s.clone()),
        None => None,
    };
    RenderFrame {
        line1: f.line1.clone(),
        line2: f.line2.clone(),
        backlight_on: f.backlight_on,
        blink: f.blink,
        bar_percent: f.bar_percent,
        bar_label,
        bar_row: f.bar_row,
        scroll_speed_ms: f.scroll_speed_ms,
        scroll_enabled: f.scroll_enabled,
        duration_ms: f.duration_ms,
        page_timeout_ms: f.page_timeout_ms,
        clear: f.clear,
        test: f.test,
        mode: f.mode,
        icons,
        config_reload: f.config_reload,
    }
}

/// Whether `r` and the pages after rotating at clock reading `now` are what
/// the queue owes.
pub open spec fn next_page_post(
    pre_pages: Seq<EntryView>,
    now: u64,
    post_pages: Seq<EntryView>,
    r: Option<RenderFrame>,
) -> bool {
    let pages = prune_front(pre_pages, now);
    if pages.len() == 0 {
        r is None && post_pages == pages
    } else {
        r matches Some(f) && f@ == pages[0].0 && post_pages == pages.drop_first().push(pages[0])
    }
}

/// Whether `r` (the front frame's model) and the pages after looking at
/// the front at clock reading `now` are what the queue owes.
pub open spec fn current_post(
    pre_pages: Seq<EntryView>,
    now: u64,
    post_pages: Seq<EntryView>,
    r: Option<RenderFrameView>,
) -> bool {
    let pages = prune_front(pre_pages, now);
    &&& post_pages == pages
    &&& if pages.len() == 0 {
        r is None
    } else {
        r == Some(pages[0].0)
    }
}

/// Whether the pages after pruning at clock reading `now` are what the
/// queue owes.
pub open spec fn pruned_post(pre_pages: Seq<EntryView>, now: u64, post_pages: Seq<EntryView>) -> bool {
    post_pages == prune_front(pre_pages, now)
}

pub open spec fn frame_ref_view(r: Option<&RenderFrame>) -> Option<RenderFrameView> {
    match r {
        Some(f) => Some(f@),
        None => None,
    }
}

impl RenderState {
    /// The queued frames, front first, with their expiry.
    pub closed spec fn pages_view(&self) -> Seq<EntryView> {
        self.pages@.map_values(|e: FrameEntry| (e.frame@, e.expires_at))
    }

    /// The CRC of the last frame text taken in, while pages remain.
    pub closed spec fn last_crc_view(&self) -> Option<u32> {
        self.last_crc
    }

    /// The timing that frames fall back on.
    pub closed spec fn defaults_view(&self) -> Defaults {
        self.defaults
    }

    /// The latest clock reading the queue went by (milliseconds since it
    /// was made); readings never go back.
    pub closed spec fn clock_view(&self) -> u64 {
        self.clock
    }

    /// An empty queue; `defaults` (the built-in timing when `None`) fill in
    /// what frames leave out.
    pub fn new(defaults: Option<Defaults>) -> (r: RenderState)
        ensures
            r.pages_view() == Seq::<EntryView>::empty(),
            r.last_crc_view() is None,
            r.clock_view() == 0,
            r.defaults_view() == match defaults {
                Some(d) => d,
                None => Defaults { scroll_speed_ms: 250, page_timeout_ms: 4000 },
            },
    {
        let d = match defaults {
            Some(d) => d,
            None => Defaults { scroll_speed_ms: DEFAULT_SCROLL_MS, page_timeout_ms: DEFAULT_PAGE_TIMEOUT_MS },
        };
        let r = RenderState {
            pages: VecDeque::new(),
            last_crc: None,
            defaults: d,
            started: instant_now(),
            clock: 0,
        };
        assert(r.pages_view() =~= Seq::<EntryView>::empty());
        r
    }

    /// Drops the expired frames at the front; forgets the last CRC once the
    /// queue is empty.
    pub fn prune_expired_at(&mut self, now: u64)
        ensures
            final(self).pages_view() == prune_front(old(self).pages_view(), now),
            final(self).last_crc_view() == crc_after_prune(
                old(self).pages_view(),
                old(self).last_crc_view(),
                now,
            ),
            final(self).defaults_view() == old(self).defaults_view(),
            final(self).clock_view() == old(self).clock_view(),
    {
        loop
            invariant
                prune_front(self.pages_view(), now) == prune_front(old(self).pages_view(), now),
                self.last_crc == old(self).last_crc,
                self.defaults == old(self).defaults,
                self.clock == old(self).clock,
            ensures
                self.pages_view() == prune_front(old(self).pages_view(), now),
                self.last_crc == old(self).last_crc,
                self.defaults == old(self).defaults,
                self.clock == old(self).clock,
            decreases self.pages@.len(),
        {
            if self.pages.len() == 0 {
                break;
            }
            let expired = match self.pages[0].expires_at {
                Some(e) => e <= now,
                None => false,
            };
            if !expired {
                break;
            }
            let ghost before = self.pages_view();
            let _ = self.pages.pop_front();
            assert(self.pages_view() =~= before.drop_first());
        }
        if self.pages.len() == 0 {
            self.last_crc = None;
        }
    }

    /// Takes in frame text at clock reading `now`: `Ok(Some(frame))` for a
    /// new frame, now at the back of the queue; `Ok(None)` for the text of
    /// the last frame again.
    pub fn ingest_at(&mut self, raw: &str, now: u64) -> (r: Result<Option<RenderFrame>, Error>)
        ensures
            ingest_post(
                old(self).pages_view(),
                old(self).last_crc_view(),
                old(self).defaults_view(),
                raw@,
                now,
                final(self).pages_view(),
                final(self).last_crc_view(),
                r,
            ),
            final(self).defaults_view() == old(self).defaults_view(),
            final(self).clock_view() == old(self).clock_view(),
    {
        self.prune_expired_at(now);
        let bytes = raw.as_bytes();
        if bytes.len() > MAX_FRAME_BYTES {
            return Err(Error::Parse(String::from_str("frame exceeds 512 bytes")));
        }
        let crc = crc32(bytes);
        if self.last_crc == Some(crc) {
            return Ok(None);
        }
        let frame = match RenderFrame::from_payload_json_with_defaults(raw, self.defaults) {
            Ok(f) => f,
            Err(e) => {
                return Err(e);
            },
        };
        let expires_at = match frame.duration_ms {
            Some(ms) => Some(now.saturating_add(ms)),
            None => None,
        };
        self.last_crc = Some(crc);
        let ghost before = self.pages_view();
        self.pages.push_back(FrameEntry { frame: copy_frame(&frame), expires_at });
        assert(self.pages_view() =~= before.push((frame@, expiry_of(frame@, now))));
        Ok(Some(frame))
    }

    /// Moves the front frame to the back and hands out a copy of it, after
    /// pruning at clock reading `now`; `None` when no page is left.
    pub fn next_page_at(&mut self, now: u64) -> (r: Option<RenderFrame>)
        ensures
            next_page_post(old(self).pages_view(), now, final(self).pages_view(), r),
            final(self).last_crc_view() == crc_after_prune(
                old(self).pages_view(),
                old(self).last_crc_view(),
                now,
            ),
            final(self).defaults_view() == old(self).defaults_view(),
            final(self).clock_view() == old(self).clock_view(),
    {
        self.prune_expired_at(now);
        let ghost before = self.pages_view();
        match self.pages.pop_front() {
            None => None,
            Some(front) => {
                let frame = copy_frame(&front.frame);
                self.pages.push_back(front);
                assert(self.pages_view() =~= before.drop_first().push(before[0]));
                Some(frame)
            },
        }
    }

    /// The front frame after pruning at clock reading `now`.
    pub fn current_at(&mut self, now: u64) -> (r: Option<&RenderFrame>)
        ensures
            current_post(old(self).pages_view(), now, final(self).pages_view(), frame_ref_view(r)),
            final(self).last_crc_view() == crc_after_prune(
                old(self).pages_view(),
                old(self).last_crc_view(),
                now,
            ),
            final(self).defaults_view() == old(self).defaults_view(),
            final(self).clock_view() == old(self).clock_view(),
    {
        self.prune_expired_at(now);
        if self.pages.len() == 0 {
            None
        } else {
            Some(&self.pages[0].frame)
        }
    }

    /// The number of pages after pruning at clock reading `now`.
    pub fn len_at(&mut self, now: u64) -> (r: usize)
        ensures
            final(self).pages_view() == prune_front(old(self).pages_view(), now),
            r == final(self).pages_view().len(),
            final(self).last_crc_view() == crc_after_prune(
                old(self).pages_view(),
                old(self).last_crc_view(),
                now,
            ),
            final(self).defaults_view() == old(self).defaults_view(),
            final(self).clock_view() == old(self).clock_view(),
    {
        self.prune_expired_at(now);
        self.pages.len()
    }

    /// The clock reading: milliseconds since the queue was made, never
    /// earlier than the one before.
    fn now(&mut self) -> (r: u64)
        ensures
            r >= old(self).clock_view(),
            final(self).clock_view() == r,
            final(self).pages_view() == old(self).pages_view(),
            final(self).last_crc_view() == old(self).last_crc_view(),
            final(self).defaults_view() == old(self).defaults_view(),
    {
        let reading = millis_since(&self.started);
        if reading > self.clock {
            self.clock = reading;
        }
        self.clock
    }

    /// `ingest_at` at the current clock reading.
    pub fn ingest(&mut self, raw: &str) -> (r: Result<Option<RenderFrame>, Error>)
        ensures
            exists|now: u64|
                now >= old(self).clock_view() && final(self).clock_view() == now && ingest_post(
                    old(self).pages_view(),
                    old(self).last_crc_view(),
                    old(self).defaults_view(),
                    raw@,
                    now,
                    final(self).pages_view(),
                    final(self).last_crc_view(),
                    r,
                ),
            final(self).defaults_view() == old(self).defaults_view(),
    {
        let now = self.now();
        self.ingest_at(raw, now)
    }

    /// `next_page_at` at the current clock reading.
    pub fn next_page(&mut self) -> (r: Option<RenderFrame>)
        ensures
            exists|now: u64|
                now >= old(self).clock_view() && final(self).clock_view() == now && next_page_post(old(self).pages_view(), now, final(self).pages_view(), r),
            final(self).defaults_view() == old(self).defaults_view(),
    {
        let now = self.now();
        self.next_page_at(now)
    }

    /// `current_at` at the current clock reading.
    pub fn current(&mut self) -> (r: Option<&RenderFrame>)
        ensures
            exists|now: u64|
                now >= old(self).clock_view() && final(self).clock_view() == now && current_post(old(self).pages_view(), now, final(self).pages_view(), frame_ref_view(r)),
            final(self).defaults_view() == old(self).defaults_view(),
    {
        let now = self.now();
        self.current_at(now)
    }

    /// `len_at` at the current clock reading.
    pub fn len(&mut self) -> (r: usize)
        ensures
            exists|now: u64|
                now >= old(self).clock_view() && final(self).clock_view() == now && pruned_post(
                    old(self).pages_view(),
                    now,
                    final(self).pages_view(),
                ),
            r == final(self).pages_view().len(),
            final(self).defaults_view() == old(self).defaults_view(),
    {
        let ghost pre = self.pages_view();
        let now = self.now();
        let n = self.len_at(now);
        assert(pruned_post(pre, now, self.pages_view()));
        n
    }

    /// Whether no page is left at the current clock reading.
    pub fn is_empty(&mut self) -> (r: bool)
        ensures
            exists|now: u64|
                now >= old(self).clock_view() && final(self).clock_view() == now && pruned_post(
                    old(self).pages_view(),
                    now,
                    final(self).pages_view(),
                ),
            r == (final(self).pages_view().len() == 0),
            final(self).defaults_view() == old(self).defaults_view(),
    {
        let ghost pre = self.pages_view();
        let now = self.now();
        let n = self.len_at(now);
        assert(pruned_post(pre, now, self.pages_view()));
        n == 0
    }

    /// Replaces the timing that later frames fall back on.
    pub fn set_defaults(&mut self, defaults: Defaults)
        ensures
            final(self).defaults_view() == defaults,
            final(self).pages_view() == old(self).pages_view(),
            final(self).last_crc_view() == old(self).last_crc_view(),
            final(self).clock_view() == old(self).clock_view(),
    {
        self.defaults = defaults;
    }
}

/// The pages after `k` rotations: the first `k` moved, in order, to the back.
pub open spec fn rotated(pages: Seq<EntryView>, k: int) -> Seq<EntryView> {
    pages.subrange(k, pages.len() as int) + pages.subrange(0, k)
}

/// Taking the same frame text twice in a row: once a frame has been taken
/// in, the same text is ignored as long as some page is still on show.
pub proof fn lemma_repeat_is_ignored(
    pre_pages: Seq<EntryView>,
    pre_crc: Option<u32>,
    defaults: Defaults,
    raw: Seq<char>,
    t1: u64,
    mid_pages: Seq<EntryView>,
    mid_crc: Option<u32>,
    first: RenderFrame,
    t2: u64,
    post_pages: Seq<EntryView>,
    post_crc: Option<u32>,
    second: Result<Option<RenderFrame>, Error>,
)
    requires
        ingest_post(pre_pages, pre_crc, defaults, raw, t1, mid_pages, mid_crc, Ok(Some(first))),
        ingest_post(mid_pages, mid_crc, defaults, raw, t2, post_pages, post_crc, second),
        prune_front(mid_pages, t2).len() > 0,
    ensures
        second matches Ok(None),
        post_pages == prune_front(mid_pages, t2),
{
}

/// Rotating once more moves the next page to the back.
pub proof fn lemma_rotation_step(pages: Seq<EntryView>, k: int)
    requires
        0 <= k < pages.len(),
    ensures
        rotated(pages, k).drop_first().push(rotated(pages, k)[0]) == rotated(pages, k + 1),
{
    assert(rotated(pages, k).drop_first().push(rotated(pages, k)[0]) =~= rotated(pages, k + 1));
}

/// Rotating through every page brings the queue back to where it started.
pub proof fn lemma_rotation_cycle(pages: Seq<EntryView>)
    ensures
        rotated(pages, pages.len() as int) == pages,
        rotated(pages, 0) == pages,
{
    assert(rotated(pages, pages.len() as int) =~= pages);
    assert(rotated(pages, 0) =~= pages);
}

/// Whether the front page of `pages` has expired at clock reading `now`.
pub open spec fn front_expired(pages: Seq<EntryView>, now: u64) -> bool {
    pages.len() > 0 && (pages[0].1 matches Some(e) && e <= now)
}

/// Looking at the front page twice, with the front not expiring in
/// between, gives the same page and leaves the queue as it was.
pub proof fn lemma_current_twice(
    p: Seq<EntryView>,
    t1: u64,
    q: Seq<EntryView>,
    f1: Option<RenderFrameView>,
    t2: u64,
    q2: Seq<EntryView>,
    f2: Option<RenderFrameView>,
)
    requires
        current_post(p, t1, q, f1),
        current_post(q, t2, q2, f2),
        !front_expired(q, t2),
    ensures
        q2 == q,
        f2 == f1,
{
}

/// Rotating right after looking at the front page, with the front not
/// expiring in between, hands out that same page and keeps every page.
pub proof fn lemma_current_then_next(
    p: Seq<EntryView>,
    t1: u64,
    q: Seq<EntryView>,
    f1: Option<RenderFrameView>,
    t2: u64,
    q3: Seq<EntryView>,
    r: Option<RenderFrame>,
)
    requires
        current_post(p, t1, q, f1),
        next_page_post(q, t2, q3, r),
        !front_expired(q, t2),
    ensures
        match r {
            Some(x) => f1 == Some(x@),
            None => f1 is None,
        },
        q3.len() == q.len(),
{
}

/// Once the only page has expired, the queue is empty and forgets the last
/// text: taking in that same text again is no duplicate.
pub proof fn lemma_expired_page_resets(
    pages: Seq<EntryView>,
    crc: Option<u32>,
    defaults: Defaults,
    raw: Seq<char>,
    now: u64,
    post_pages: Seq<EntryView>,
    post_crc: Option<u32>,
    r: Result<Option<RenderFrame>, Error>,
)
    requires
        pages.len() == 1,
        front_expired(pages, now),
        ingest_post(pages, crc, defaults, raw, now, post_pages, post_crc, r),
    ensures
        prune_front(pages, now).len() == 0,
        crc_after_prune(pages, crc, now) is None,
        encode_utf8(raw).len() <= MAX_FRAME_BYTES ==> !(r matches Ok(None)),
{
    assert(pages.drop_first().len() == 0);
    assert(prune_front(pages.drop_first(), now) == pages.drop_first());
    assert(prune_front(pages, now) == prune_front(pages.drop_first(), now));
}

} // verus!

