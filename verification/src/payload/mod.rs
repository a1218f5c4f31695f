//! Display payloads: the JSON frame a host sends, and the frame the display
//! renders from it.
use vstd::prelude::*;
use vstd::string::StringExecFns;
use crate::text::{same_text, chars_of, string_of, is_ws, lower_char, trim_vec, lower_char_exec};

pub mod decode;
pub mod canonical;
pub mod envelope;
pub mod frame;
pub mod unversioned;
pub mod command;
pub mod exchange;

verus! {

/// Scroll step used when neither the payload nor the configuration sets one.
pub const DEFAULT_SCROLL_MS: u64 = 250;
/// Page timeout used when neither the payload nor the configuration sets one.
pub const DEFAULT_PAGE_TIMEOUT_MS: u64 = 4000;
/// Longest line a versioned payload may carry (the widest supported display).
pub const MAX_LINE_LENGTH: usize = 40;
/// Most icons a versioned payload may request.
pub const MAX_ICONS: usize = 4;
/// Longest bar label a versioned payload may carry.
pub const MAX_BAR_LABEL_LENGTH: usize = 40;

/// Display modes for the LCD.
#[derive(Debug, Clone, Copy, PartialEq, Eq, Structural)]
pub enum DisplayMode {
    Normal,
    Dashboard,
    Banner,
}

/// The characters of an optional string.
pub open spec fn opt_text(o: Option<String>) -> Option<Seq<char>> {
    match o {
        Some(s) => Some(s@),
        None => None,
    }
}

/// The characters of each string of a list.
pub open spec fn texts(v: Seq<String>) -> Seq<Seq<char>> {
    v.map_values(|s: String| s@)
}

/// The mode a payload's `mode` field selects: exact names, `Normal` otherwise.
pub open spec fn display_mode_of(raw: Option<Seq<char>>) -> DisplayMode {
    match raw {
        Some(s) => if s == "dashboard"@ {
            DisplayMode::Dashboard
        } else if s == "banner"@ {
            DisplayMode::Banner
        } else {
            DisplayMode::Normal
        },
        None => DisplayMode::Normal,
    }
}

impl DisplayMode {
    /// Reads a payload's `mode` field.
    pub fn parse(raw: Option<String>) -> (r: DisplayMode)
        ensures
            r == display_mode_of(opt_text(raw)),
    {
        match raw {
            Some(s) => if same_text(s.as_str(), "dashboard") {
                DisplayMode::Dashboard
            } else if same_text(s.as_str(), "banner") {
                DisplayMode::Banner
            } else {
                DisplayMode::Normal
            },
            None => DisplayMode::Normal,
        }
    }
}

/// Supported icon glyphs.
#[derive(Debug, Clone, Copy, PartialEq, Eq, Hash, Structural)]
pub enum Icon {
    Battery,
    Heart,
    Wifi,
    Arrow,
    Bell,
    Note,
    Clockface,
    Duck,
    Check,
    Cross,
    Smile,
    OpenHeart,
    UpArrow,
    UpArrowRight,
    UpArrowLeft,
    DownArrow,
    DownArrowRight,
    DownArrowLeft,
    ReturnArrow,
    Hourglass,
    DegreeSymbol,
    DegreeC,
    DegreeF,
}

/// How an icon name is compared: ASCII letters lowered, and spaces and
/// hyphens read as underscores.
pub open spec fn icon_name_char(c: char) -> char {
    if c == ' ' || c == '-' {
        '_'
    } else {
        lower_char(c)
    }
}

/// An icon name with surrounding whitespace removed and its characters
/// normalised.
pub open spec fn normalized_icon_name(name: Seq<char>) -> Seq<char> {
    let t = crate::text::trim(name);
    Seq::new(t.len(), |k: int| icon_name_char(t[k]))
}

/// The icon a normalised name stands for.
pub open spec fn icon_named(n: Seq<char>) -> Option<Icon> {
    if n == "battery"@ {
        Some(Icon::Battery)
    } else if n == "heart"@ {
        Some(Icon::Heart)
    } else if n == "wifi"@ {
        Some(Icon::Wifi)
    } else if n == "arrow"@ {
        Some(Icon::Arrow)
    } else if n == "bell"@ {
        Some(Icon::Bell)
    } else if n == "note"@ {
        Some(Icon::Note)
    } else if n == "clockface"@ {
        Some(Icon::Clockface)
    } else if n == "duck"@ {
        Some(Icon::Duck)
    } else if n == "check"@ {
        Some(Icon::Check)
    } else if n == "cross"@ {
        Some(Icon::Cross)
    } else if n == "smile"@ {
        Some(Icon::Smile)
    } else if n == "open_heart"@ {
        Some(Icon::OpenHeart)
    } else if n == "up_arrow"@ {
        Some(Icon::UpArrow)
    } else if n == "up_arrow_right"@ {
        Some(Icon::UpArrowRight)
    } else if n == "up_arrow_left"@ {
        Some(Icon::UpArrowLeft)
    } else if n == "down_arrow"@ {
        Some(Icon::DownArrow)
    } else if n == "down_arrow_right"@ {
        Some(Icon::DownArrowRight)
    } else if n == "down_arrow_left"@ {
        Some(Icon::DownArrowLeft)
    } else if n == "return_arrow"@ {
        Some(Icon::ReturnArrow)
    } else if n == "hourglass"@ {
        Some(Icon::Hourglass)
    } else if n == "degree_symbol"@ {
        Some(Icon::DegreeSymbol)
    } else if n == "degree_c"@ {
        Some(Icon::DegreeC)
    } else if n == "degree_f"@ {
        Some(Icon::DegreeF)
    } else {
        None
    }
}

/// The icon a payload name requests, if any.
pub open spec fn icon_from_name(name: Seq<char>) -> Option<Icon> {
    icon_named(normalized_icon_name(name))
}

/// The icons that a list of names requests, in order; unknown names are
/// skipped.
pub open spec fn icons_from_names(names: Seq<Seq<char>>) -> Seq<Icon>
    decreases names.len(),
{
    if names.len() == 0 {
        Seq::empty()
    } else {
        let prev = icons_from_names(names.drop_last());
        match icon_from_name(names.last()) {
            Some(i) => prev.push(i),
            None => prev,
        }
    }
}

/// Glyph rows of an icon; `Wifi` has none and shows as a plain character.
pub open spec fn icon_bitmap(i: Icon) -> Option<Seq<u8>> {
    match i {
        Icon::Battery => Some(seq![0x0eu8, 0x1b, 0x11, 0x11, 0x1f, 0x1f, 0x1f, 0x1f]),
        Icon::Heart => Some(seq![0x00u8, 0x0a, 0x1f, 0x1f, 0x0e, 0x04, 0x00, 0x00]),
        Icon::Wifi => None,
        Icon::Arrow => Some(seq![0x00u8, 0x04, 0x02, 0x1f, 0x02, 0x04, 0x00, 0x00]),
        Icon::Bell => Some(seq![0x04u8, 0x0e, 0x0e, 0x0e, 0x1f, 0x00, 0x04, 0x00]),
        Icon::Note => Some(seq![0x02u8, 0x03, 0x02, 0x0e, 0x1e, 0x0c, 0x00, 0x00]),
        Icon::Clockface => Some(seq![0x00u8, 0x0e, 0x15, 0x17, 0x11, 0x0e, 0x00, 0x00]),
        Icon::Duck => Some(seq![0x00u8, 0x0c, 0x1d, 0x0f, 0x0f, 0x06, 0x00, 0x00]),
        Icon::Check => Some(seq![0x00u8, 0x01, 0x03, 0x16, 0x1c, 0x08, 0x00, 0x00]),
        Icon::Cross => Some(seq![0x00u8, 0x1b, 0x0e, 0x04, 0x0e, 0x1b, 0x00, 0x00]),
        Icon::Smile => Some(seq![0x00u8, 0x0a, 0x00, 0x11, 0x0e, 0x00, 0x00, 0x00]),
        Icon::OpenHeart => Some(seq![0x00u8, 0x0a, 0x15, 0x11, 0x0a, 0x04, 0x00, 0x00]),
        Icon::UpArrow => Some(seq![0x04u8, 0x0e, 0x15, 0x04, 0x04, 0x04, 0x04, 0x00]),
        Icon::UpArrowRight => Some(seq![0x00u8, 0x0f, 0x03, 0x05, 0x09, 0x10, 0x00, 0x00]),
        Icon::UpArrowLeft => Some(seq![0x00u8, 0x1e, 0x18, 0x14, 0x12, 0x01, 0x00, 0x00]),
        Icon::DownArrow => Some(seq![0x04u8, 0x04, 0x04, 0x04, 0x15, 0x0e, 0x04, 0x00]),
        Icon::DownArrowRight => Some(seq![0x00u8, 0x10, 0x09, 0x05, 0x03, 0x0f, 0x00, 0x00]),
        Icon::DownArrowLeft => Some(seq![0x00u8, 0x01, 0x12, 0x14, 0x18, 0x1e, 0x00, 0x00]),
        Icon::ReturnArrow => Some(seq![0x01u8, 0x01, 0x05, 0x09, 0x1f, 0x08, 0x04, 0x00]),
        Icon::Hourglass => Some(seq![0x1fu8, 0x11, 0x0a, 0x04, 0x0a, 0x11, 0x1f, 0x00]),
        Icon::DegreeSymbol => Some(seq![0x0cu8, 0x12, 0x12, 0x0c, 0x00, 0x00, 0x00, 0x00]),
        Icon::DegreeC => Some(seq![0x18u8, 0x18, 0x03, 0x04, 0x04, 0x04, 0x03, 0x00]),
        Icon::DegreeF => Some(seq![0x18u8, 0x18, 0x07, 0x04, 0x06, 0x04, 0x04, 0x00]),
    }
}

/// The plain character shown for an icon when no glyph slot holds it.
pub open spec fn icon_ascii(i: Icon) -> char {
    match i {
        Icon::Battery => 'B',
        Icon::Heart => 'H',
        Icon::Wifi => 'w',
        Icon::Arrow => '>',
        Icon::Bell => 'b',
        Icon::Note => 'n',
        Icon::Clockface => 'o',
        Icon::Duck => 'd',
        Icon::Check => 'v',
        Icon::Cross => 'x',
        Icon::Smile => 's',
        Icon::OpenHeart => 'h',
        Icon::UpArrow => '^',
        Icon::UpArrowRight => '/',
        Icon::UpArrowLeft => '\\',
        Icon::DownArrow => 'V',
        Icon::DownArrowRight => '\\',
        Icon::DownArrowLeft => '/',
        Icon::ReturnArrow => '<',
        Icon::Hourglass => 'X',
        Icon::DegreeSymbol => 'o',
        Icon::DegreeC => 'C',
        Icon::DegreeF => 'F',
    }
}

impl Icon {
    /// The icon's glyph rows, `None` for an icon shown as a plain character.
    pub fn bitmap(&self) -> (r: Option<[u8; 8]>)
        ensures
            match r {
                Some(b) => icon_bitmap(*self) == Some(b@),
                None => icon_bitmap(*self) is None,
            },
    {
        let rows: [u8; 8] = match self {
            Icon::Battery => [0x0e, 0x1b, 0x11, 0x11, 0x1f, 0x1f, 0x1f, 0x1f],
            Icon::Heart => [0x00, 0x0a, 0x1f, 0x1f, 0x0e, 0x04, 0x00, 0x00],
            Icon::Wifi => {
                return None;
            },
            Icon::Arrow => [0x00, 0x04, 0x02, 0x1f, 0x02, 0x04, 0x00, 0x00],
            Icon::Bell => [0x04, 0x0e, 0x0e, 0x0e, 0x1f, 0x00, 0x04, 0x00],
            Icon::Note => [0x02, 0x03, 0x02, 0x0e, 0x1e, 0x0c, 0x00, 0x00],
            Icon::Clockface => [0x00, 0x0e, 0x15, 0x17, 0x11, 0x0e, 0x00, 0x00],
            Icon::Duck => [0x00, 0x0c, 0x1d, 0x0f, 0x0f, 0x06, 0x00, 0x00],
            Icon::Check => [0x00, 0x01, 0x03, 0x16, 0x1c, 0x08, 0x00, 0x00],
            Icon::Cross => [0x00, 0x1b, 0x0e, 0x04, 0x0e, 0x1b, 0x00, 0x00],
            Icon::Smile => [0x00, 0x0a, 0x00, 0x11, 0x0e, 0x00, 0x00, 0x00],
            Icon::OpenHeart => [0x00, 0x0a, 0x15, 0x11, 0x0a, 0x04, 0x00, 0x00],
            Icon::UpArrow => [0x04, 0x0e, 0x15, 0x04, 0x04, 0x04, 0x04, 0x00],
            Icon::UpArrowRight => [0x00, 0x0f, 0x03, 0x05, 0x09, 0x10, 0x00, 0x00],
            Icon::UpArrowLeft => [0x00, 0x1e, 0x18, 0x14, 0x12, 0x01, 0x00, 0x00],
            Icon::DownArrow => [0x04, 0x04, 0x04, 0x04, 0x15, 0x0e, 0x04, 0x00],
            Icon::DownArrowRight => [0x00, 0x10, 0x09, 0x05, 0x03, 0x0f, 0x00, 0x00],
            Icon::DownArrowLeft => [0x00, 0x01, 0x12, 0x14, 0x18, 0x1e, 0x00, 0x00],
            Icon::ReturnArrow => [0x01, 0x01, 0x05, 0x09, 0x1f, 0x08, 0x04, 0x00],
            Icon::Hourglass => [0x1f, 0x11, 0x0a, 0x04, 0x0a, 0x11, 0x1f, 0x00],
            Icon::DegreeSymbol => [0x0c, 0x12, 0x12, 0x0c, 0x00, 0x00, 0x00, 0x00],
            Icon::DegreeC => [0x18, 0x18, 0x03, 0x04, 0x04, 0x04, 0x03, 0x00],
            Icon::DegreeF => [0x18, 0x18, 0x07, 0x04, 0x06, 0x04, 0x04, 0x00],
        };
        assert(icon_bitmap(*self) == Some(rows@));
        Some(rows)
    }

    /// The plain character shown for the icon when no glyph slot holds it.
    pub fn ascii_fallback(&self) -> (r: Option<char>)
        ensures
            r == Some(icon_ascii(*self)),
    {
        let c = match self {
            Icon::Battery => 'B',
            Icon::Heart => 'H',
            Icon::Wifi => 'w',
            Icon::Arrow => '>',
            Icon::Bell => 'b',
            Icon::Note => 'n',
            Icon::Clockface => 'o',
            Icon::Duck => 'd',
            Icon::Check => 'v',
            Icon::Cross => 'x',
            Icon::Smile => 's',
            Icon::OpenHeart => 'h',
            Icon::UpArrow => '^',
            Icon::UpArrowRight => '/',
            Icon::UpArrowLeft => '\\',
            Icon::DownArrow => 'V',
            Icon::DownArrowRight => '\\',
            Icon::DownArrowLeft => '/',
            Icon::ReturnArrow => '<',
            Icon::Hourglass => 'X',
            Icon::DegreeSymbol => 'o',
            Icon::DegreeC => 'C',
            Icon::DegreeF => 'F',
        };
        Some(c)
    }

    /// The icon a payload name requests, if any.
    pub fn from_name(name: &str) -> (r: Option<Icon>)
        ensures
            r == icon_from_name(name@),
    {
        let raw = chars_of(name);
        let t = trim_vec(raw.as_slice());
        let mut norm: Vec<char> = Vec::new();
        let mut i: usize = 0;
        while i < t.len()
            invariant
                i <= t@.len(),
                t@ == crate::text::trim(name@),
                norm@ == Seq::new(i as nat, |k: int| icon_name_char(t@[k])),
            decreases t@.len() - i,
        {
            let c = t[i];
            let d = if c == ' ' || c == '-' {
                '_'
            } else {
                lower_char_exec(c)
            };
            norm.push(d);
            assert(norm@ =~= Seq::new((i + 1) as nat, |k: int| icon_name_char(t@[k])));
            i = i + 1;
        }
        assert(norm@ =~= normalized_icon_name(name@));
        let n = string_of(norm.as_slice());
        let s = n.as_str();
        if same_text(s, "battery") {
            Some(Icon::Battery)
        } else if same_text(s, "heart") {
            Some(Icon::Heart)
        } else if same_text(s, "wifi") {
            Some(Icon::Wifi)
        } else if same_text(s, "arrow") {
            Some(Icon::Arrow)
        } else if same_text(s, "bell") {
            Some(Icon::Bell)
        } else if same_text(s, "note") {
            Some(Icon::Note)
        } else if same_text(s, "clockface") {
            Some(Icon::Clockface)
        } else if same_text(s, "duck") {
            Some(Icon::Duck)
        } else if same_text(s, "check") {
            Some(Icon::Check)
        } else if same_text(s, "cross") {
            Some(Icon::Cross)
        } else if same_text(s, "smile") {
            Some(Icon::Smile)
        } else if same_text(s, "open_heart") {
            Some(Icon::OpenHeart)
        } else if same_text(s, "up_arrow") {
            Some(Icon::UpArrow)
        } else if same_text(s, "up_arrow_right") {
            Some(Icon::UpArrowRight)
        } else if same_text(s, "up_arrow_left") {
            Some(Icon::UpArrowLeft)
        } else if same_text(s, "down_arrow") {
            Some(Icon::DownArrow)
        } else if same_text(s, "down_arrow_right") {
            Some(Icon::DownArrowRight)
        } else if same_text(s, "down_arrow_left") {
            Some(Icon::DownArrowLeft)
        } else if same_text(s, "return_arrow") {
            Some(Icon::ReturnArrow)
        } else if same_text(s, "hourglass") {
            Some(Icon::Hourglass)
        } else if same_text(s, "degree_symbol") {
            Some(Icon::DegreeSymbol)
        } else if same_text(s, "degree_c") {
            Some(Icon::DegreeC)
        } else if same_text(s, "degree_f") {
            Some(Icon::DegreeF)
        } else {
            None
        }
    }
}

/// The icons a payload's `icons` field requests, in order; unknown names
/// are skipped.
pub fn parse_icons(raw: Option<Vec<String>>) -> (r: Vec<Icon>)
    ensures
        r@ == match raw {
            Some(names) => icons_from_names(texts(names@)),
            None => Seq::<Icon>::empty(),
        },
{
    let mut out: Vec<Icon> = Vec::new();
    match raw {
        None => out,
        Some(names) => {
            let ghost all = texts(names@);
            let mut i: usize = 0;
            while i < names.len()
                invariant
                    i <= names@.len(),
                    all == texts(names@),
                    out@ == icons_from_names(all.take(i as int)),
                decreases names@.len() - i,
            {
                assert(all.take(i + 1).drop_last() =~= all.take(i as int));
                assert(all.take(i + 1).last() == names@[i as int]@);
                match Icon::from_name(names[i].as_str()) {
                    Some(icon) => out.push(icon),
                    None => {},
                }
                i = i + 1;
            }
            assert(all.take(names@.len() as int) =~= all);
            out
        },
    }
}

/// Scroll and page timing used where a payload leaves them out.
#[derive(Debug, Clone, Copy, PartialEq, Eq, Structural)]
pub struct Defaults {
    pub scroll_speed_ms: u64,
    pub page_timeout_ms: u64,
}

/// A display payload, field for field as the host sends it.
#[derive(Debug, Clone, PartialEq)]
pub struct Payload {
    pub line1: String,
    pub line2: String,
    pub schema_version: Option<u8>,
    pub bar: Option<u8>,
    pub bar_value: Option<u32>,
    pub bar_max: Option<u32>,
    pub bar_label: Option<String>,
    pub bar_line1: Option<bool>,
    pub bar_line2: Option<bool>,
    pub backlight: Option<bool>,
    pub blink: Option<bool>,
    pub scroll: Option<bool>,
    pub scroll_speed_ms: Option<u64>,
    pub duration_ms: Option<u64>,
    pub page_timeout_ms: Option<u64>,
    pub clear: Option<bool>,
    pub test: Option<bool>,
    pub mode: Option<String>,
    pub icons: Option<Vec<String>>,
    pub checksum: Option<String>,
    pub config_reload: Option<bool>,
}

/// The model of a payload.
pub struct PayloadView {
    pub line1: Seq<char>,
    pub line2: Seq<char>,
    pub schema_version: Option<u8>,
    pub bar: Option<u8>,
    pub bar_value: Option<u32>,
    pub bar_max: Option<u32>,
    pub bar_label: Option<Seq<char>>,
    pub bar_line1: Option<bool>,
    pub bar_line2: Option<bool>,
    pub backlight: Option<bool>,
    pub blink: Option<bool>,
    pub scroll: Option<bool>,
    pub scroll_speed_ms: Option<u64>,
    pub duration_ms: Option<u64>,
    pub page_timeout_ms: Option<u64>,
    pub clear: Option<bool>,
    pub test: Option<bool>,
    pub mode: Option<Seq<char>>,
    pub icons: Option<Seq<Seq<char>>>,
    pub checksum: Option<Seq<char>>,
    pub config_reload: Option<bool>,
}

impl View for Payload {
    type V = PayloadView;

    open spec fn view(&self) -> PayloadView {
        PayloadView {
            line1: self.line1@,
            line2: self.line2@,
            schema_version: self.schema_version,
            bar: self.bar,
            bar_value: self.bar_value,
            bar_max: self.bar_max,
            bar_label: opt_text(self.bar_label),
            bar_line1: self.bar_line1,
            bar_line2: self.bar_line2,
            backlight: self.backlight,
            blink: self.blink,
            scroll: self.scroll,
            scroll_speed_ms: self.scroll_speed_ms,
            duration_ms: self.duration_ms,
            page_timeout_ms: self.page_timeout_ms,
            clear: self.clear,
            test: self.test,
            mode: opt_text(self.mode),
            icons: match self.icons {
                Some(v) => Some(texts(v@)),
                None => None,
            },
            checksum: opt_text(self.checksum),
            config_reload: self.config_reload,
        }
    }
}

/// A frame ready to be drawn.
#[derive(Debug, Clone, PartialEq)]
pub struct RenderFrame {
    pub line1: String,
    pub line2: String,
    pub backlight_on: bool,
    pub blink: bool,
    pub bar_percent: Option<u8>,
    pub bar_label: Option<String>,
    /// 0 = top row, 1 = bottom row.
    pub bar_row: Option<u8>,
    pub scroll_speed_ms: u64,
    pub scroll_enabled: bool,
    pub duration_ms: Option<u64>,
    pub page_timeout_ms: u64,
    pub clear: bool,
    pub test: bool,
    pub mode: DisplayMode,
    pub icons: Vec<Icon>,
    pub config_reload: bool,
}

/// The model of a frame.
pub struct RenderFrameView {
    pub line1: Seq<char>,
    pub line2: Seq<char>,
    pub backlight_on: bool,
    pub blink: bool,
    pub bar_percent: Option<u8>,
    pub bar_label: Option<Seq<char>>,
    pub bar_row: Option<u8>,
    pub scroll_speed_ms: u64,
    pub scroll_enabled: bool,
    pub duration_ms: Option<u64>,
    pub page_timeout_ms: u64,
    pub clear: bool,
    pub test: bool,
    pub mode: DisplayMode,
    pub icons: Seq<Icon>,
    pub config_reload: bool,
}

impl View for RenderFrame {
    type V = RenderFrameView;

    open spec fn view(&self) -> RenderFrameView {
        RenderFrameView {
            line1: self.line1@,
            line2: self.line2@,
            backlight_on: self.backlight_on,
            blink: self.blink,
            bar_percent: self.bar_percent,
            bar_label: opt_text(self.bar_label),
            bar_row: self.bar_row,
            scroll_speed_ms: self.scroll_speed_ms,
            scroll_enabled: self.scroll_enabled,
            duration_ms: self.duration_ms,
            page_timeout_ms: self.page_timeout_ms,
            clear: self.clear,
            test: self.test,
            mode: self.mode,
            icons: self.icons@,
            config_reload: self.config_reload,
        }
    }
}

/// The halves `k + 0.5` that double-precision `value / max * 100` lands
/// just below, so that rounding it gives `k`: the quotient `(2k + 1) / 200`
/// is stored a little under its value for these `k` below 100, and only
/// for these.
pub open spec fn half_rounds_down(k: int) -> bool {
    k == 14 || k == 28 || k == 56 || k == 57
}

/// `value * 100 / max` rounded as `((value as f64 / max as f64) * 100.0).round()`
/// rounds it, capped at 100: to the nearest integer, a half upwards except
/// the halves in `half_rounds_down`. (Short of a half, the double-precision
/// error, below 1e-13, cannot cross a rounding boundary: the exact value
/// is then at least `1 / (2 * max)` away from one.)
pub open spec fn rounded_percent(value: nat, max: nat) -> u8
    recommends
        max >= 1,
{
    let t: int = 200 * (value as int);
    let m: int = max as int;
    let p: int = if t % m == 0 && (t / m) % 2 == 1 && half_rounds_down((t / m - 1) / 2) {
        (t / m - 1) / 2
    } else {
        (t + m) / (2 * m)
    };
    if p > 100 {
        100
    } else {
        p as u8
    }
}

/// The bar a payload asks for: `bar` itself (capped at 100) wins; otherwise
/// `bar_value` against `bar_max` (100 when absent, at least 1).
pub open spec fn bar_percent_of(p: PayloadView) -> Option<u8> {
    match p.bar {
        Some(b) => Some(if b > 100 {
            100u8
        } else {
            b
        }),
        None => match p.bar_value {
            Some(v) => {
                let m: nat = match p.bar_max {
                    Some(m) => if m >= 1 {
                        m as nat
                    } else {
                        1
                    },
                    None => 100,
                };
                Some(rounded_percent(v as nat, m))
            },
            None => None,
        },
    }
}

/// The frame a payload describes, with `d` filling in the timing it leaves out.
pub open spec fn render_view(p: PayloadView, d: Defaults) -> RenderFrameView {
    let bar = bar_percent_of(p);
    let mode = display_mode_of(p.mode);
    let row: Option<u8> = if bar is Some {
        if mode == DisplayMode::Dashboard {
            Some(1u8)
        } else if p.bar_line1 == Some(true) {
            Some(0u8)
        } else {
            Some(1u8)
        }
    } else {
        None
    };
    RenderFrameView {
        line1: p.line1,
        line2: if mode == DisplayMode::Banner {
            Seq::empty()
        } else {
            p.line2
        },
        backlight_on: p.backlight != Some(false),
        blink: p.blink == Some(true),
        bar_percent: bar,
        bar_label: p.bar_label,
        bar_row: row,
        scroll_speed_ms: match p.scroll_speed_ms {
            Some(v) => v,
            None => d.scroll_speed_ms,
        },
        scroll_enabled: p.scroll != Some(false),
        duration_ms: p.duration_ms,
        page_timeout_ms: match p.page_timeout_ms {
            Some(v) => v,
            None => d.page_timeout_ms,
        },
        clear: p.clear == Some(true),
        test: p.test == Some(true),
        mode,
        icons: match p.icons {
            Some(names) => icons_from_names(names),
            None => Seq::empty(),
        },
        config_reload: p.config_reload == Some(true),
    }
}

/// `value * 100 / max` rounded as the payload format rounds it (see
/// `rounded_percent`), capped at 100.
pub fn percent_of(value: u32, max: u64) -> (r: u8)
    requires
        1 <= max <= u32::MAX,
    ensures
        r == rounded_percent(value as nat, max as nat),
{
    let t: u64 = 200 * (value as u64);
    let mut q: u64 = (t + max) / (2 * max);
    if t % max == 0 {
        let h = t / max;
        if h % 2 == 1 {
            let k = (h - 1) / 2;
            if k == 14 || k == 28 || k == 56 || k == 57 {
                q = k;
            }
        }
    }
    if q > 100 {
        100
    } else {
        q as u8
    }
}

/// The bar a payload asks for, as a percentage.
fn compute_bar_percent(p: &Payload) -> (r: Option<u8>)
    ensures
        r == bar_percent_of(p@),
{
    match p.bar {
        Some(b) => Some(if b > 100 {
            100
        } else {
            b
        }),
        None => match p.bar_value {
            Some(v) => {
                let m: u64 = match p.bar_max {
                    Some(m) => if m >= 1 {
                        m as u64
                    } else {
                        1
                    },
                    None => 100,
                };
                Some(percent_of(v, m))
            },
            None => None,
        },
    }
}

impl RenderFrame {
    /// The frame a payload describes; `defaults` fill in the timing that the
    /// payload leaves out.
    pub fn from_payload_with_defaults(payload: Payload, defaults: Defaults) -> (r: RenderFrame)
        ensures
            r@ == render_view(payload@, defaults),
    {
        let ghost pv = payload@;
        let bar_percent = compute_bar_percent(&payload);
        let mode = DisplayMode::parse(payload.mode);
        let icons = parse_icons(payload.icons);
        let bar_row: Option<u8> = if bar_percent.is_some() {
            if matches!(mode, DisplayMode::Dashboard) {
                Some(1)
            } else if payload.bar_line1 == Some(true) {
                Some(0)
            } else {
                Some(1)
            }
        } else {
            None
        };
        let line2 = if matches!(mode, DisplayMode::Banner) {
            String::new()
        } else {
            payload.line2
        };
        let r = RenderFrame {
            line1: payload.line1,
            line2,
            backlight_on: payload.backlight != Some(false),
            blink: payload.blink == Some(true),
            bar_percent,
            bar_label: payload.bar_label,
            bar_row,
            scroll_speed_ms: match payload.scroll_speed_ms {
                Some(v) => v,
                None => defaults.scroll_speed_ms,
            },
            scroll_enabled: payload.scroll != Some(false),
            duration_ms: payload.duration_ms,
            page_timeout_ms: match payload.page_timeout_ms {
                Some(v) => v,
                None => defaults.page_timeout_ms,
            },
            clear: payload.clear == Some(true),
            test: payload.test == Some(true),
            mode,
            icons,
            config_reload: payload.config_reload == Some(true),
        };
        assert(r@.line2 =~= render_view(pv, defaults).line2);
        r
    }
}

/// Every frame keeps its bar within 0..=100 percent, has a bar row exactly
/// when it has a bar, and shows a dashboard's bar on the bottom row.
pub proof fn lemma_frame_bar_shape(p: PayloadView, d: Defaults)
    ensures
        render_view(p, d).bar_percent matches Some(x) ==> x <= 100,
        render_view(p, d).bar_row is Some <==> render_view(p, d).bar_percent is Some,
        render_view(p, d).bar_row matches Some(r) ==> r <= 1,
        render_view(p, d).mode == DisplayMode::Dashboard && render_view(p, d).bar_percent is Some
            ==> render_view(p, d).bar_row == Some(1u8),
{
}

} // verus!
