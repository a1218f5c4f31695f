//! The eight CGRAM glyph slots of the display, shared by the bar graph, the
//! heartbeat and the icons: a glyph already loaded is reused, a new one goes
//! to a free slot or else evicts the least recently used glyph that the
//! current frame does not need.
use vstd::prelude::*;
use crate::payload::{Icon, icon_bitmap};
use crate::{Error, Result};

verus! {

/// Writes a glyph bitmap into a CGRAM slot.
pub trait GlyphWriter {
    fn write_glyph(&mut self, slot: u8, bitmap: &[u8; 8]) -> Result<()>;
}

/// Number of CGRAM slots.
pub const MAX_SLOTS: usize = 8;
/// Number of bar fill levels (0 to 5 fifths of a column).
pub const BAR_LEVEL_COUNT: usize = 6;
/// Shown for the heartbeat when no slot holds its glyph.
pub const HEARTBEAT_FALLBACK_CHAR: char = 'h';

/// What a slot holds.
#[derive(Debug, Clone, Copy, PartialEq, Eq, Structural)]
pub enum GlyphKind {
    Bar(u8),
    Heartbeat,
    Icon(Icon),
}

/// A loaded slot and when it was last used.
#[derive(Debug, Clone, Copy, PartialEq, Eq, Structural)]
pub struct SlotEntry {
    pub kind: GlyphKind,
    pub stamp: u64,
}

/// The plain character shown for a bar level without a glyph.
pub open spec fn bar_fallback(level: nat) -> char {
    if level == 0 {
        ' '
    } else if level == 1 {
        '.'
    } else if level == 2 {
        ':'
    } else if level == 3 {
        '-'
    } else if level == 4 {
        '='
    } else {
        '#'
    }
}

/// The glyph rows of a bar level: the left `level` of five columns lit.
pub open spec fn bar_bitmap(level: nat) -> Option<Seq<u8>> {
    if level < 6 {
        let row: u8 = if level == 0 {
            0x00
        } else if level == 1 {
            0x10
        } else if level == 2 {
            0x18
        } else if level == 3 {
            0x1c
        } else if level == 4 {
            0x1e
        } else {
            0x1f
        };
        Some(Seq::new(8, |k: int| row))
    } else {
        None
    }
}

/// The glyph rows for a kind of glyph; the heartbeat uses the heart icon.
pub open spec fn glyph_bitmap(kind: GlyphKind) -> Option<Seq<u8>> {
    match kind {
        GlyphKind::Bar(level) => bar_bitmap(level as nat),
        GlyphKind::Heartbeat => icon_bitmap(Icon::Heart),
        GlyphKind::Icon(i) => icon_bitmap(i),
    }
}

/// The characters a frame uses for its glyphs, and the icons that got no
/// slot.
pub struct IconPalette {
    bar_chars: [Option<char>; 6],
    heartbeat_char: Option<char>,
    icon_chars: Vec<(Icon, char)>,
    pub missing_icons: Vec<Icon>,
}

/// The character registered last for `icon`.
pub open spec fn icon_lookup(entries: Seq<(Icon, char)>, icon: Icon) -> Option<char>
    decreases entries.len(),
{
    if entries.len() == 0 {
        None
    } else if entries.last().0 == icon {
        Some(entries.last().1)
    } else {
        icon_lookup(entries.drop_last(), icon)
    }
}

/// The character a palette shows for bar level `level`.
pub closed spec fn palette_bar_char(p: IconPalette, level: nat) -> char {
    let slot: Option<char> = if level < 6 {
        p.bar_chars@[level as int]
    } else {
        None
    };
    match slot {
        Some(c) => c,
        None => bar_fallback(if level > 5 {
            5
        } else {
            level
        }),
    }
}

/// The character a palette shows for the heartbeat.
pub closed spec fn palette_heartbeat_char(p: IconPalette) -> char {
    match p.heartbeat_char {
        Some(c) => c,
        None => 'h',
    }
}

/// The slot character a palette has for `icon`, if any.
pub closed spec fn palette_icon_char(p: IconPalette, icon: Icon) -> Option<char> {
    icon_lookup(p.icon_chars@, icon)
}

/// The model of a palette.
pub struct PaletteView {
    pub bar: Seq<Option<char>>,
    pub heartbeat: Option<char>,
    pub icons: Seq<(Icon, char)>,
    pub missing: Seq<Icon>,
}

impl IconPalette {
    pub closed spec fn view_of(self) -> PaletteView {
        PaletteView {
            bar: self.bar_chars@,
            heartbeat: self.heartbeat_char,
            icons: self.icon_chars@,
            missing: self.missing_icons@,
        }
    }

    /// A palette with no glyph registered.
    pub fn new() -> (r: IconPalette)
        ensures
            r.view_of() == empty_palette(),
    {
        let r = IconPalette {
            bar_chars: [None; 6],
            heartbeat_char: None,
            icon_chars: Vec::new(),
            missing_icons: Vec::new(),
        };
        assert(r.bar_chars@ =~= Seq::new(6, |k: int| None::<char>));
        r
    }

    /// The character shown for bar level `level`.
    pub fn bar_char(&self, level: usize) -> (r: char)
        ensures
            r == palette_bar_char(*self, level as nat),
    {
        let slot = if level < 6 {
            self.bar_chars[level]
        } else {
            None
        };
        match slot {
            Some(c) => c,
            None => {
                let l = if level > 5 {
                    5
                } else {
                    level
                };
                if l == 0 {
                    ' '
                } else if l == 1 {
                    '.'
                } else if l == 2 {
                    ':'
                } else if l == 3 {
                    '-'
                } else if l == 4 {
                    '='
                } else {
                    '#'
                }
            },
        }
    }

    /// The character shown for the heartbeat.
    pub fn heartbeat_char(&self) -> (r: char)
        ensures
            r == palette_heartbeat_char(*self),
    {
        match self.heartbeat_char {
            Some(c) => c,
            None => HEARTBEAT_FALLBACK_CHAR,
        }
    }

    /// The slot character for `icon`, if it got a slot.
    pub fn icon_char(&self, icon: Icon) -> (r: Option<char>)
        ensures
            r == palette_icon_char(*self, icon),
    {
        let mut i: usize = self.icon_chars.len();
        assert(self.icon_chars@.take(i as int) =~= self.icon_chars@);
        while i > 0
            invariant
                i <= self.icon_chars@.len(),
                icon_lookup(self.icon_chars@, icon) == icon_lookup(
                    self.icon_chars@.take(i as int),
                    icon,
                ),
            decreases i,
        {
            let entry = self.icon_chars[i - 1];
            assert(self.icon_chars@.take(i as int).drop_last() =~= self.icon_chars@.take(i - 1));
            if entry.0 == icon {
                return Some(entry.1);
            }
            i = i - 1;
        }
        None
    }

    fn register(&mut self, kind: GlyphKind, ch: char)
        ensures
            final(self).view_of() == register_view(old(self).view_of(), kind, ch),
    {
        match kind {
            GlyphKind::Bar(level) => {
                if (level as usize) < 6 {
                    self.bar_chars.set(level as usize, Some(ch));
                }
            },
            GlyphKind::Heartbeat => {
                self.heartbeat_char = Some(ch);
            },
            GlyphKind::Icon(icon) => {
                self.icon_chars.push((icon, ch));
            },
        }
    }

    fn record_missing(&mut self, kind: GlyphKind)
        ensures
            final(self).view_of() == missing_view(old(self).view_of(), kind),
    {
        match kind {
            GlyphKind::Icon(icon) => {
                self.missing_icons.push(icon);
            },
            _ => {},
        }
    }
}

pub open spec fn empty_palette() -> PaletteView {
    PaletteView {
        bar: Seq::new(6, |k: int| None::<char>),
        heartbeat: None,
        icons: Seq::empty(),
        missing: Seq::empty(),
    }
}

/// A palette with the glyph of `kind` shown as `ch`.
pub open spec fn register_view(p: PaletteView, kind: GlyphKind, ch: char) -> PaletteView {
    match kind {
        GlyphKind::Bar(level) => if level < 6 {
            PaletteView { bar: p.bar.update(level as int, Some(ch)), ..p }
        } else {
            p
        },
        GlyphKind::Heartbeat => PaletteView { heartbeat: Some(ch), ..p },
        GlyphKind::Icon(i) => PaletteView { icons: p.icons.push((i, ch)), ..p },
    }
}

/// A palette noting that the glyph of `kind` got no slot (kept for icons).
pub open spec fn missing_view(p: PaletteView, kind: GlyphKind) -> PaletteView {
    match kind {
        GlyphKind::Icon(i) => PaletteView { missing: p.missing.push(i), ..p },
        _ => p,
    }
}

/// What a frame needs from the glyph slots.
#[derive(Clone, Copy)]
pub struct PaletteRequest<'a> {
    pub bar_required: bool,
    pub heartbeat: bool,
    pub icons: &'a [Icon],
}

/// The state of the slots.
pub struct BankView {
    pub slots: Seq<Option<SlotEntry>>,
    pub stamp: u64,
}

/// Whether slot `i` is the first one holding `kind`.
pub open spec fn first_holding(slots: Seq<Option<SlotEntry>>, kind: GlyphKind, i: int) -> bool {
    &&& 0 <= i < slots.len()
    &&& slots[i] matches Some(e) && e.kind == kind
    &&& forall|j: int| 0 <= j < i ==> !((#[trigger] slots[j]) matches Some(f) && f.kind == kind)
}

/// Whether slot `i` is the first free slot.
pub open spec fn first_free(slots: Seq<Option<SlotEntry>>, i: int) -> bool {
    &&& 0 <= i < slots.len()
    &&& slots[i] is None
    &&& forall|j: int| 0 <= j < i ==> (#[trigger] slots[j]) is Some
}

/// Whether slot `i` may be evicted: it holds a glyph the frame does not need.
pub open spec fn evictable(slots: Seq<Option<SlotEntry>>, required: Seq<GlyphKind>, i: int) -> bool {
    0 <= i < slots.len() && (slots[i] matches Some(e) && !required.contains(e.kind))
}

/// Whether slot `i` is the evictable slot used longest ago (the first such
/// slot on a tie).
pub open spec fn oldest_evictable(slots: Seq<Option<SlotEntry>>, required: Seq<GlyphKind>, i: int) -> bool {
    &&& evictable(slots, required, i)
    &&& forall|j: int| #[trigger] evictable(slots, required, j) ==> slots[i]->0.stamp <= slots[j]->0.stamp
    &&& forall|j: int| 0 <= j < i && #[trigger] evictable(slots, required, j) ==> slots[i]->0.stamp < slots[j]->0.stamp
}

/// The slot character for slot `i`.
pub open spec fn slot_char(i: int) -> char {
    (i as u32) as char
}

/// Loading `kind` into slot `i` at `stamp`, when it has a bitmap.
pub open spec fn load_into(b: BankView, i: int, kind: GlyphKind) -> (BankView, Option<char>, Seq<(u8, Seq<u8>)>) {
    match glyph_bitmap(kind) {
        Some(bits) => (
            BankView {
                slots: b.slots.update(i, Some(SlotEntry { kind, stamp: b.stamp })),
                stamp: (if b.stamp == u64::MAX {
                    0
                } else {
                    b.stamp + 1
                }) as u64,
            },
            Some(slot_char(i)),
            seq![(i as u8, bits)],
        ),
        None => (b, None, Seq::empty()),
    }
}

/// Whether `(after, ch, writes)` is what making `kind` available does to
/// the slots: reuse the slot holding it (refreshing its stamp), else load
/// it into the first free slot, else into the oldest evictable slot, else
/// give up.
pub open spec fn ensure_post(
    b: BankView,
    kind: GlyphKind,
    required: Seq<GlyphKind>,
    after: BankView,
    ch: Option<char>,
    writes: Seq<(u8, Seq<u8>)>,
) -> bool {
    if exists|i: int| first_holding(b.slots, kind, i) {
        exists|i: int|
            first_holding(b.slots, kind, i) && after == (BankView {
                slots: b.slots.update(i, Some(SlotEntry { kind, stamp: b.stamp })),
                stamp: (if b.stamp == u64::MAX {
                    0
                } else {
                    b.stamp + 1
                }) as u64,
            }) && ch == Some(slot_char(i)) && writes == Seq::<(u8, Seq<u8>)>::empty()
    } else if exists|i: int| first_free(b.slots, i) {
        exists|i: int| first_free(b.slots, i) && (after, ch, writes) == load_into(b, i, kind)
    } else if exists|i: int| evictable(b.slots, required, i) {
        exists|i: int|
            oldest_evictable(b.slots, required, i) && (after, ch, writes) == load_into(b, i, kind)
    } else {
        after == b && ch is None && writes == Seq::<(u8, Seq<u8>)>::empty()
    }
}

/// Whether `f1` is `f0` with one more refusal: the write (with error `e`)
/// that making `kind` available to the slots `b` needed.
pub open spec fn glyph_refused(
    b: BankView,
    kind: GlyphKind,
    required: Seq<GlyphKind>,
    e: Error,
    f0: Seq<((u8, Seq<u8>), Error)>,
    f1: Seq<((u8, Seq<u8>), Error)>,
) -> bool {
    exists|after: BankView, ch: Option<char>, w: Seq<(u8, Seq<u8>)>|
        #[trigger] ensure_post(b, kind, required, after, ch, w) && w.len() == 1 && f1 == f0.push(
            (w[0], e),
        )
}

/// The slots of the display.
pub struct IconBank {
    slots: [Option<SlotEntry>; 8],
    next_stamp: u64,
    written: Ghost<Seq<(u8, Seq<u8>)>>,
    refused: Ghost<Seq<((u8, Seq<u8>), Error)>>,
}

/// The icons of a list that have a bitmap, as glyph kinds, in order.
pub open spec fn icon_kinds(icons: Seq<Icon>) -> Seq<GlyphKind>
    decreases icons.len(),
{
    if icons.len() == 0 {
        Seq::empty()
    } else if icon_bitmap(icons.last()) is Some {
        icon_kinds(icons.drop_last()).push(GlyphKind::Icon(icons.last()))
    } else {
        icon_kinds(icons.drop_last())
    }
}

/// The icons of a list that have no bitmap, in order.
pub open spec fn icons_without_bitmap(icons: Seq<Icon>) -> Seq<Icon>
    decreases icons.len(),
{
    if icons.len() == 0 {
        Seq::empty()
    } else if icon_bitmap(icons.last()) is Some {
        icons_without_bitmap(icons.drop_last())
    } else {
        icons_without_bitmap(icons.drop_last()).push(icons.last())
    }
}

/// The glyph kinds a request needs, in order: the bar levels, the
/// heartbeat, then the icons that have a bitmap.
pub open spec fn required_kinds(bar: bool, heartbeat: bool, icons: Seq<Icon>) -> Seq<GlyphKind> {
    (if bar {
        Seq::new(6, |k: int| GlyphKind::Bar(k as u8))
    } else {
        Seq::empty()
    }) + (if heartbeat {
        seq![GlyphKind::Heartbeat]
    } else {
        Seq::empty()
    }) + icon_kinds(icons)
}

/// One step of building a palette: the slots, the palette so far, and the
/// glyphs written.
pub struct BuildState {
    pub bank: BankView,
    pub palette: PaletteView,
    pub writes: Seq<(u8, Seq<u8>)>,
}

/// Whether `t` follows from `s` by making `kind` available.
pub open spec fn build_step(s: BuildState, kind: GlyphKind, required: Seq<GlyphKind>, t: BuildState) -> bool {
    exists|ch: Option<char>, w: Seq<(u8, Seq<u8>)>|
        ensure_post(s.bank, kind, required, t.bank, ch, w) && t.writes == s.writes + w
            && t.palette == match ch {
            Some(c) => register_view(s.palette, kind, c),
            None => missing_view(s.palette, kind),
        }
}

/// Whether `run` goes through `kinds` in order from `start`.
pub open spec fn build_run(start: BuildState, kinds: Seq<GlyphKind>, run: Seq<BuildState>) -> bool {
    &&& run.len() == kinds.len() + 1
    &&& run[0] == start
    &&& forall|k: int| 0 <= k < kinds.len() ==> #[trigger] build_step(run[k], kinds[k], kinds, run[k + 1])
}

/// Where building a palette starts: the slots as they are, the icons without
/// a bitmap listed as missing, nothing written.
pub open spec fn build_start(bank: BankView, icons: Seq<Icon>) -> BuildState {
    BuildState {
        bank,
        palette: PaletteView { missing: icons_without_bitmap(icons), ..empty_palette() },
        writes: Seq::empty(),
    }
}

/// Whether building from `start` through `kinds` went along `run` and then
/// stopped: the writer refused, with error `e`, the write that the next kind
/// needed (`f1` is `f0` with that refusal).
pub open spec fn build_stopped(
    start: BuildState,
    kinds: Seq<GlyphKind>,
    run: Seq<BuildState>,
    e: Error,
    f0: Seq<((u8, Seq<u8>), Error)>,
    f1: Seq<((u8, Seq<u8>), Error)>,
) -> bool {
    &&& 1 <= run.len() <= kinds.len()
    &&& run[0] == start
    &&& forall|k: int| 0 <= k < run.len() - 1 ==> #[trigger] build_step(run[k], kinds[k], kinds, run[k + 1])
    &&& glyph_refused(run.last().bank, kinds[run.len() - 1], kinds, e, f0, f1)
}

impl IconBank {
    /// The slots and the next stamp.
    pub closed spec fn bank_view(&self) -> BankView {
        BankView { slots: self.slots@, stamp: self.next_stamp }
    }

    /// Every glyph written so far: slot and rows, in order.
    pub closed spec fn written(&self) -> Seq<(u8, Seq<u8>)> {
        self.written@
    }

    /// Every glyph write the writer refused so far, with the error it gave,
    /// in order.
    pub closed spec fn refused(&self) -> Seq<((u8, Seq<u8>), Error)> {
        self.refused@
    }

    /// All slots free.
    pub fn new() -> (r: IconBank)
        ensures
            r.bank_view().slots == Seq::new(8, |k: int| None::<SlotEntry>),
            r.bank_view().stamp == 0,
            r.written() == Seq::<(u8, Seq<u8>)>::empty(),
            r.refused() == Seq::<((u8, Seq<u8>), Error)>::empty(),
    {
        let r = IconBank {
            slots: [None; 8],
            next_stamp: 0,
            written: Ghost(Seq::empty()),
            refused: Ghost(Seq::empty()),
        };
        assert(r.slots@ =~= Seq::new(8, |k: int| None::<SlotEntry>));
        r
    }

    fn bump_stamp(&mut self) -> (r: u64)
        ensures
            r == old(self).next_stamp,
            final(self).next_stamp == (if old(self).next_stamp == u64::MAX {
                0
            } else {
                old(self).next_stamp + 1
            }) as u64,
            final(self).slots == old(self).slots,
            final(self).written == old(self).written,
            final(self).refused == old(self).refused,
    {
        let current = self.next_stamp;
        self.next_stamp = if current == u64::MAX {
            0
        } else {
            current + 1
        };
        current
    }

    fn slot_for_kind(&self, kind: GlyphKind) -> (r: Option<usize>)
        ensures
            match r {
                Some(i) => first_holding(self.slots@, kind, i as int),
                None => !exists|i: int| first_holding(self.slots@, kind, i),
            },
    {
        let mut i: usize = 0;
        while i < 8
            invariant
                i <= 8,
                self.slots@.len() == 8,
                forall|j: int| 0 <= j < i ==> !((#[trigger] self.slots@[j]) matches Some(f) && f.kind == kind),
            decreases 8 - i,
        {
            match self.slots[i] {
                Some(e) => if e.kind == kind {
                    return Some(i);
                },
                None => {},
            }
            i = i + 1;
        }
        None
    }

    fn find_free_slot(&self) -> (r: Option<usize>)
        ensures
            match r {
                Some(i) => first_free(self.slots@, i as int),
                None => !exists|i: int| first_free(self.slots@, i),
            },
    {
        let mut i: usize = 0;
        while i < 8
            invariant
                i <= 8,
                self.slots@.len() == 8,
                forall|j: int| 0 <= j < i ==> (#[trigger] self.slots@[j]) is Some,
            decreases 8 - i,
        {
            if self.slots[i].is_none() {
                return Some(i);
            }
            i = i + 1;
        }
        assert forall|k: int| !first_free(self.slots@, k) by {
            if 0 <= k < 8 {
                assert(self.slots@[k] is Some);
            }
        }
        None
    }

    fn find_evict_slot(&self, required: &Vec<GlyphKind>) -> (r: Option<usize>)
        ensures
            match r {
                Some(i) => oldest_evictable(self.slots@, required@, i as int),
                None => !exists|i: int| evictable(self.slots@, required@, i),
            },
    {
        let mut best: Option<usize> = None;
        let mut i: usize = 0;
        while i < 8
            invariant
                i <= 8,
                self.slots@.len() == 8,
                match best {
                    Some(b) => b < i && evictable(self.slots@, required@, b as int) && (forall|j: int|
                        0 <= j < i && #[trigger] evictable(self.slots@, required@, j)
                            ==> self.slots@[b as int]->0.stamp <= self.slots@[j]->0.stamp) && (forall|j: int|
                        0 <= j < b && #[trigger] evictable(self.slots@, required@, j)
                            ==> self.slots@[b as int]->0.stamp < self.slots@[j]->0.stamp),
                    None => forall|j: int| 0 <= j < i ==> !#[trigger] evictable(self.slots@, required@, j),
                },
            decreases 8 - i,
        {
            match self.slots[i] {
                Some(e) => {
                    let needed = contains_kind(required, e.kind);
                    if !needed {
                        match best {
                            None => {
                                best = Some(i);
                            },
                            Some(b) => {
                                let bs = self.slots[b].unwrap().stamp;
                                if e.stamp < bs {
                                    best = Some(i);
                                }
                            },
                        }
                    }
                },
                None => {},
            }
            i = i + 1;
        }
        match best {
            Some(b) => {
                assert forall|j: int| #[trigger] evictable(self.slots@, required@, j) implies self.slots@[b as int]->0.stamp <= self.slots@[j]->0.stamp by {}
            },
            None => {},
        }
        best
    }

    fn load_slot<W: GlyphWriter>(&mut self, idx: usize, kind: GlyphKind, writer: &mut W) -> (r: Result<Option<char>>)
        requires
            idx < 8,
        ensures
            r matches Ok(ch) ==> ({
                let (after, c, w) = load_into(old(self).bank_view(), idx as int, kind);
                final(self).bank_view() == after && ch == c && final(self).written() == old(self).written() + w
            }),
            r is Ok ==> final(self).refused() == old(self).refused(),
            r matches Err(e) ==> ({
                let w = load_into(old(self).bank_view(), idx as int, kind).2;
                &&& final(self).bank_view() == old(self).bank_view()
                &&& final(self).written() == old(self).written()
                &&& w.len() == 1
                &&& final(self).refused() == old(self).refused().push((w[0], e))
            }),
    {
        let bitmap = match bitmap_for(kind) {
            Some(b) => b,
            None => {
                return Ok(None);
            },
        };
        match writer.write_glyph(idx as u8, &bitmap) {
            Ok(()) => {},
            Err(e) => {
                proof {
                    self.refused@ = self.refused@.push(((idx as u8, bitmap@), e));
                }
                return Err(e);
            },
        }
        proof {
            self.written@ = self.written@ + seq![(idx as u8, bitmap@)];
        }
        let stamp = self.bump_stamp();
        self.slots.set(idx, Some(SlotEntry { kind, stamp }));
        Ok(Some(slot_to_char(idx)))
    }

    fn ensure_glyph<W: GlyphWriter>(
        &mut self,
        kind: GlyphKind,
        required: &Vec<GlyphKind>,
        writer: &mut W,
    ) -> (r: Result<Option<char>>)
        ensures
            r matches Ok(ch) ==> exists|w: Seq<(u8, Seq<u8>)>|
                ensure_post(old(self).bank_view(), kind, required@, final(self).bank_view(), ch, w)
                    && final(self).written() == old(self).written() + w,
            r is Ok ==> final(self).refused() == old(self).refused(),
            r matches Err(e) ==> final(self).bank_view() == old(self).bank_view() && final(self).written()
                == old(self).written() && glyph_refused(
                old(self).bank_view(),
                kind,
                required@,
                e,
                old(self).refused(),
                final(self).refused(),
            ),
    {
        let ghost b = self.bank_view();
        match self.slot_for_kind(kind) {
            Some(idx) => {
                let stamp = self.bump_stamp();
                self.slots.set(idx, Some(SlotEntry { kind, stamp }));
                assert(self.written() =~= old(self).written() + Seq::<(u8, Seq<u8>)>::empty());
                assert(ensure_post(b, kind, required@, self.bank_view(), Some(slot_char(idx as int)), Seq::empty()));
                return Ok(Some(slot_to_char(idx)));
            },
            None => {},
        }
        match self.find_free_slot() {
            Some(idx) => {
                let r = self.load_slot(idx, kind, writer);
                match r {
                    Ok(ch) => {
                        let ghost w = load_into(b, idx as int, kind).2;
                        assert(ensure_post(b, kind, required@, self.bank_view(), ch, w));
                        return Ok(ch);
                    },
                    Err(e) => {
                        proof {
                            let la = load_into(b, idx as int, kind);
                            assert(ensure_post(b, kind, required@, la.0, la.1, la.2));
                        }
                        return Err(e);
                    },
                }
            },
            None => {},
        }
        match self.find_evict_slot(required) {
            Some(idx) => {
                let r = self.load_slot(idx, kind, writer);
                match r {
                    Ok(ch) => {
                        let ghost w = load_into(b, idx as int, kind).2;
                        assert(ensure_post(b, kind, required@, self.bank_view(), ch, w));
                        Ok(ch)
                    },
                    Err(e) => {
                        proof {
                            let la = load_into(b, idx as int, kind);
                            assert(ensure_post(b, kind, required@, la.0, la.1, la.2));
                        }
                        Err(e)
                    },
                }
            },
            None => {
                assert(self.written() =~= old(self).written() + Seq::<(u8, Seq<u8>)>::empty());
                assert(ensure_post(b, kind, required@, self.bank_view(), None, Seq::empty()));
                Ok(None)
            },
        }
    }

    /// Makes the glyphs a frame needs available and returns the characters
    /// to show them with: the bar levels, the heartbeat, then each icon with
    /// a bitmap, in that order, each reusing its slot, else a free slot, else
    /// the evictable slot used longest ago; glyphs that get no slot fall back
    /// to plain characters, and icons among them (and icons without a
    /// bitmap) are listed as missing.
    pub fn build_palette<W: GlyphWriter>(&mut self, writer: &mut W, request: PaletteRequest<'_>) -> (r: Result<IconPalette>)
        ensures
            r matches Ok(p) ==> exists|run: Seq<BuildState>|
                build_run(
                    BuildState {
                        bank: old(self).bank_view(),
                        palette: PaletteView { missing: icons_without_bitmap(request.icons@), ..empty_palette() },
                        writes: Seq::empty(),
                    },
                    required_kinds(request.bar_required, request.heartbeat, request.icons@),
                    run,
                ) && final(self).bank_view() == run.last().bank && p.view_of() == run.last().palette
                    && final(self).written() == old(self).written() + run.last().writes,
            r is Ok ==> final(self).refused() == old(self).refused(),
            r matches Err(e) ==> exists|run: Seq<BuildState>|
                #[trigger] build_stopped(
                    build_start(old(self).bank_view(), request.icons@),
                    required_kinds(request.bar_required, request.heartbeat, request.icons@),
                    run,
                    e,
                    old(self).refused(),
                    final(self).refused(),
                ) && final(self).bank_view() == run.last().bank && final(self).written() == old(
                    self,
                ).written() + run.last().writes,
    {
        let mut palette = IconPalette::new();
        let mut required: Vec<GlyphKind> = Vec::new();
        if request.bar_required {
            let mut level: u8 = 0;
            while level < 6
                invariant
                    level <= 6,
                    required@ == Seq::new(level as nat, |k: int| GlyphKind::Bar(k as u8)),
                decreases 6 - level,
            {
                required.push(GlyphKind::Bar(level));
                assert(required@ =~= Seq::new((level + 1) as nat, |k: int| GlyphKind::Bar(k as u8)));
                level = level + 1;
            }
        }
        if request.heartbeat {
            required.push(GlyphKind::Heartbeat);
        }
        let ghost head = required@;
        assert(head =~= (if request.bar_required {
            Seq::new(6, |k: int| GlyphKind::Bar(k as u8))
        } else {
            Seq::empty()
        }) + (if request.heartbeat {
            seq![GlyphKind::Heartbeat]
        } else {
            Seq::empty()
        }));
        let mut i: usize = 0;
        while i < request.icons.len()
            invariant
                i <= request.icons@.len(),
                required@ == head + icon_kinds(request.icons@.take(i as int)),
                palette.view_of() == (PaletteView { missing: icons_without_bitmap(request.icons@.take(i as int)), ..empty_palette() }),
            decreases request.icons@.len() - i,
        {
            let icon = request.icons[i];
            assert(request.icons@.take(i + 1).drop_last() =~= request.icons@.take(i as int));
            if icon.bitmap().is_some() {
                required.push(GlyphKind::Icon(icon));
            } else {
                palette.missing_icons.push(icon);
            }
            i = i + 1;
        }
        assert(request.icons@.take(request.icons@.len() as int) =~= request.icons@);
        let ghost kinds = required@;
        let ghost start = BuildState {
            bank: self.bank_view(),
            palette: palette.view_of(),
            writes: Seq::empty(),
        };
        let ghost mut run: Seq<BuildState> = seq![start];
        let ghost w0 = self.written();
        let mut k: usize = 0;
        while k < required.len()
            invariant
                kinds == required@,
                k <= kinds.len(),
                run.len() == k + 1,
                run[0] == start,
                forall|j: int| 0 <= j < k ==> #[trigger] build_step(run[j], kinds[j], kinds, run[j + 1]),
                run.last().bank == self.bank_view(),
                run.last().palette == palette.view_of(),
                self.written() == w0 + run.last().writes,
                self.refused() == old(self).refused(),
                w0 == old(self).written(),
                start == (BuildState {
                    bank: old(self).bank_view(),
                    palette: PaletteView { missing: icons_without_bitmap(request.icons@), ..empty_palette() },
                    writes: Seq::empty(),
                }),
                kinds == required_kinds(request.bar_required, request.heartbeat, request.icons@),
            decreases kinds.len() - k,
        {
            let kind = required[k];
            let ghost s = run.last();
            let ghost before_written = self.written();
            let got = match self.ensure_glyph(kind, &required, writer) {
                Ok(g) => g,
                Err(e) => {
                    proof {
                        assert(build_stopped(start, kinds, run, e, old(self).refused(), self.refused()));
                    }
                    return Err(e);
                },
            };
            let ghost w = choose|w: Seq<(u8, Seq<u8>)>|
                ensure_post(s.bank, kind, kinds, self.bank_view(), got, w) && self.written() == before_written + w;
            match got {
                Some(ch) => palette.register(kind, ch),
                None => palette.record_missing(kind),
            }
            let ghost t = BuildState { bank: self.bank_view(), palette: palette.view_of(), writes: s.writes + w };
            assert(self.written() =~= w0 + t.writes);
            assert(ensure_post(s.bank, kind, kinds, t.bank, got, w));
            assert(t.palette == match got {
                Some(c) => register_view(s.palette, kind, c),
                None => missing_view(s.palette, kind),
            });
            assert(build_step(s, kind, kinds, t));
            proof {
                run = run.push(t);
            }
            k = k + 1;
        }
        assert(build_run(start, kinds, run));
        Ok(palette)
    }
}

/// Whether `kinds` holds `kind`.
fn contains_kind(kinds: &Vec<GlyphKind>, kind: GlyphKind) -> (r: bool)
    ensures
        r == kinds@.contains(kind),
{
    let mut i: usize = 0;
    while i < kinds.len()
        invariant
            i <= kinds@.len(),
            forall|j: int| 0 <= j < i ==> kinds@[j] != kind,
        decreases kinds@.len() - i,
    {
        if kinds[i] == kind {
            return true;
        }
        i = i + 1;
    }
    false
}

/// The glyph rows for a kind of glyph.
fn bitmap_for(kind: GlyphKind) -> (r: Option<[u8; 8]>)
    ensures
        match r {
            Some(b) => glyph_bitmap(kind) == Some(b@),
            None => glyph_bitmap(kind) is None,
        },
{
    match kind {
        GlyphKind::Bar(level) => {
            if level >= 6 {
                return None;
            }
            let row: u8 = if level == 0 {
                0x00
            } else if level == 1 {
                0x10
            } else if level == 2 {
                0x18
            } else if level == 3 {
                0x1c
            } else if level == 4 {
                0x1e
            } else {
                0x1f
            };
            let b: [u8; 8] = [row, row, row, row, row, row, row, row];
            assert(b@ =~= Seq::new(8, |k: int| row));
            Some(b)
        },
        GlyphKind::Heartbeat => Icon::Heart.bitmap(),
        GlyphKind::Icon(i) => i.bitmap(),
    }
}

/// The character that shows CGRAM slot `idx`.
fn slot_to_char(idx: usize) -> (r: char)
    requires
        idx < 8,
    ensures
        r == slot_char(idx as int),
{
    let b: u8 = idx as u8;
    b as char
}

/// Whether some slot holds `kind`.
pub open spec fn holds(slots: Seq<Option<SlotEntry>>, kind: GlyphKind) -> bool {
    exists|i: int| 0 <= i < slots.len() && (#[trigger] slots[i] matches Some(e) && e.kind == kind)
}

proof fn lemma_first_holding_exists(slots: Seq<Option<SlotEntry>>, kind: GlyphKind, i: int)
    requires
        0 <= i < slots.len(),
        slots[i] matches Some(e) && e.kind == kind,
    ensures
        exists|k: int| first_holding(slots, kind, k),
    decreases i,
{
    if forall|j: int| 0 <= j < i ==> !((#[trigger] slots[j]) matches Some(f) && f.kind == kind) {
        assert(first_holding(slots, kind, i));
    } else {
        let j = choose|j: int| 0 <= j < i && ((#[trigger] slots[j]) matches Some(f) && f.kind == kind);
        lemma_first_holding_exists(slots, kind, j);
    }
}

/// One step of a build for a glyph that is already held writes nothing
/// and keeps every held glyph held.
proof fn lemma_held_step(s: BuildState, kind: GlyphKind, required: Seq<GlyphKind>, t: BuildState)
    requires
        build_step(s, kind, required, t),
        holds(s.bank.slots, kind),
    ensures
        t.writes == s.writes,
        t.bank.slots.len() == s.bank.slots.len(),
        forall|k: GlyphKind| holds(s.bank.slots, k) ==> #[trigger] holds(t.bank.slots, k),
{
    let (ch, w) = choose|ch: Option<char>, w: Seq<(u8, Seq<u8>)>|
        ensure_post(s.bank, kind, required, t.bank, ch, w) && t.writes == s.writes + w
            && t.palette == match ch {
            Some(c) => register_view(s.palette, kind, c),
            None => missing_view(s.palette, kind),
        };
    let i0 = choose|i: int| 0 <= i < s.bank.slots.len() && (#[trigger] s.bank.slots[i] matches Some(e) && e.kind == kind);
    lemma_first_holding_exists(s.bank.slots, kind, i0);
    let i = choose|i: int|
        first_holding(s.bank.slots, kind, i) && t.bank == (BankView {
            slots: s.bank.slots.update(i, Some(SlotEntry { kind, stamp: s.bank.stamp })),
            stamp: (if s.bank.stamp == u64::MAX {
                0
            } else {
                s.bank.stamp + 1
            }) as u64,
        }) && ch == Some(slot_char(i)) && w == Seq::<(u8, Seq<u8>)>::empty();
    assert(s.writes + w =~= s.writes);
    assert forall|k: GlyphKind| holds(s.bank.slots, k) implies #[trigger] holds(t.bank.slots, k) by {
        let j = choose|j: int| 0 <= j < s.bank.slots.len() && (#[trigger] s.bank.slots[j] matches Some(e) && e.kind == k);
        if j == i {
            assert(t.bank.slots[i] matches Some(e) && e.kind == k);
        } else {
            assert(t.bank.slots[j] == s.bank.slots[j]);
        }
    }
}

proof fn lemma_held_prefix(start: BuildState, kinds: Seq<GlyphKind>, run: Seq<BuildState>, k: int)
    requires
        build_run(start, kinds, run),
        forall|q: int| 0 <= q < kinds.len() ==> holds(start.bank.slots, #[trigger] kinds[q]),
        0 <= k <= kinds.len(),
    ensures
        run[k].writes == start.writes,
        forall|g: GlyphKind| holds(start.bank.slots, g) ==> #[trigger] holds(run[k].bank.slots, g),
    decreases k,
{
    if k > 0 {
        let j = k - 1;
        lemma_held_prefix(start, kinds, run, j);
        assert(0 <= j < kinds.len());
        assert(build_step(run[j], kinds[j], kinds, run[j + 1]));
        assert(holds(start.bank.slots, kinds[j]));
        lemma_held_step(run[j], kinds[j], kinds, run[j + 1]);
        assert(j + 1 == k);
    }
}

/// A request whose glyphs all sit in the slots already is served without
/// writing a single glyph, and every glyph in the slots stays there.
pub proof fn lemma_held_glyphs_are_reused(start: BuildState, kinds: Seq<GlyphKind>, run: Seq<BuildState>)
    requires
        build_run(start, kinds, run),
        forall|k: int| 0 <= k < kinds.len() ==> holds(start.bank.slots, #[trigger] kinds[k]),
    ensures
        run.last().writes == start.writes,
        forall|g: GlyphKind| holds(start.bank.slots, g) ==> #[trigger] holds(run.last().bank.slots, g),
{
    lemma_held_prefix(start, kinds, run, kinds.len() as int);
}

/// One step of a build never takes a slot from a glyph that the request
/// needs.
proof fn lemma_step_keeps_required(s: BuildState, kind: GlyphKind, required: Seq<GlyphKind>, t: BuildState)
    requires
        build_step(s, kind, required, t),
    ensures
        forall|g: GlyphKind|
            required.contains(g) && holds(s.bank.slots, g) ==> #[trigger] holds(t.bank.slots, g),
{
    let (ch, w) = choose|ch: Option<char>, w: Seq<(u8, Seq<u8>)>|
        ensure_post(s.bank, kind, required, t.bank, ch, w) && t.writes == s.writes + w
            && t.palette == match ch {
            Some(c) => register_view(s.palette, kind, c),
            None => missing_view(s.palette, kind),
        };
    let b = s.bank;
    if exists|i: int| first_holding(b.slots, kind, i) {
        let i0 = choose|i: int| first_holding(b.slots, kind, i);
        assert(holds(b.slots, kind)) by {
            assert(b.slots[i0] matches Some(e) && e.kind == kind);
        }
        lemma_held_step(s, kind, required, t);
    } else if exists|i: int| first_free(b.slots, i) {
        let i = choose|i: int| first_free(b.slots, i) && (t.bank, ch, w) == load_into(b, i, kind);
        assert forall|g: GlyphKind| required.contains(g) && holds(b.slots, g) implies #[trigger] holds(t.bank.slots, g) by {
            let j = choose|j: int| 0 <= j < b.slots.len() && (#[trigger] b.slots[j] matches Some(e) && e.kind == g);
            assert(j != i);
            assert(t.bank.slots[j] == b.slots[j]);
        }
    } else if exists|i: int| evictable(b.slots, required, i) {
        let i = choose|i: int| oldest_evictable(b.slots, required, i) && (t.bank, ch, w) == load_into(b, i, kind);
        assert forall|g: GlyphKind| required.contains(g) && holds(b.slots, g) implies #[trigger] holds(t.bank.slots, g) by {
            let j = choose|j: int| 0 <= j < b.slots.len() && (#[trigger] b.slots[j] matches Some(e) && e.kind == g);
            if j == i {
                assert(!required.contains(b.slots[i]->0.kind));
            }
            assert(t.bank.slots[j] == b.slots[j]);
        }
    } else {
        assert(t.bank == b);
    }
}

proof fn lemma_slot_kept(start: BuildState, kinds: Seq<GlyphKind>, run: Seq<BuildState>, q: int, j: int)
    requires
        build_run(start, kinds, run),
        0 <= q < kinds.len(),
        q + 1 <= j <= kinds.len(),
        holds(run[q + 1].bank.slots, kinds[q]),
    ensures
        holds(run[j].bank.slots, kinds[q]),
    decreases j,
{
    if j > q + 1 {
        let p = j - 1;
        lemma_slot_kept(start, kinds, run, q, p);
        assert(build_step(run[p], kinds[p], kinds, run[p + 1]));
        lemma_step_keeps_required(run[p], kinds[p], kinds, run[p + 1]);
        assert(kinds.contains(kinds[q]));
        assert(p + 1 == j);
    }
}

/// A glyph that a build gives a slot keeps it to the end of the build: so
/// when every glyph of a request got a slot, building the same request
/// again on the slots it left writes no glyph at all.
pub proof fn lemma_rebuild_writes_nothing(
    start: BuildState,
    kinds: Seq<GlyphKind>,
    run: Seq<BuildState>,
    again: BuildState,
    rerun: Seq<BuildState>,
)
    requires
        build_run(start, kinds, run),
        forall|q: int| 0 <= q < kinds.len() ==> holds(run[q + 1].bank.slots, #[trigger] kinds[q]),
        again.bank == run.last().bank,
        build_run(again, kinds, rerun),
    ensures
        rerun.last().writes == again.writes,
{
    let n = kinds.len() as int;
    assert forall|q: int| 0 <= q < kinds.len() implies holds(again.bank.slots, #[trigger] kinds[q]) by {
        assert(holds(run[q + 1].bank.slots, kinds[q]));
        lemma_slot_kept(start, kinds, run, q, n);
        assert(run.last() == run[n]);
    }
    lemma_held_glyphs_are_reused(again, kinds, rerun);
}

} // verus!
