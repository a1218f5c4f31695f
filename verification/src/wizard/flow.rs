//! The wizard's questions as a state machine: which question comes next,
//! with which default, what an answer does to the collected settings, and
//! the configuration those settings make. The caller asks the questions and
//! runs the rehearsal; every decision is taken here.
use vstd::prelude::*;
use vstd::string::StringExecFns;
use crate::config::{Config, ConfigView, NegotiationConfig, RolePreference, MIN_BAUD, MIN_COLS, MAX_COLS, MIN_ROWS, MAX_ROWS};
use crate::text::{ascii_lower, ascii_lower_vec, chars_of, dec, string_of, trim, trim_vec, text_with_number};
use crate::wizard::{
    baud_answer, device_answer, dimension_answer, intent_answer, parse_baud_answer,
    parse_device_answer, parse_dimension_answer, parse_role, parse_usage_intent, parse_yes_no,
    rehearsal_candidates, rehearsal_rates, role_answer, yes_no_answer, Answer, DeviceSelection,
    UsageIntent, DEFAULT_DEVICE,
};

verus! {

/// Where the wizard is.
#[derive(Debug, Clone, Copy, PartialEq, Eq, Structural)]
pub enum WizardStep {
    /// How this end of the link is used.
    Intent,
    /// Whether a display is attached.
    LcdPresence,
    /// Which serial device carries the link.
    Device,
    /// The link-speed rehearsal picks the baud rate.
    Rehearsal,
    /// The baud rate, asked.
    Baud,
    /// Whether to probe the device once the settings are saved.
    Probe,
    /// The display's width.
    Columns,
    /// The display's height.
    Rows,
    /// The preferred role on the link.
    Role,
    /// Whether to print the helper snippets.
    Helpers,
    /// Whether to write the settings.
    Confirm,
    /// The settings are to be written.
    Saved,
    /// The user declined to write the settings.
    Aborted,
}

/// The settings the wizard collects.
pub struct WizardAnswers {
    pub device: String,
    pub baud: u32,
    pub cols: u8,
    pub rows: u8,
    pub preference: RolePreference,
    pub lcd_present: bool,
    pub intent: UsageIntent,
    pub run_probe: bool,
    pub run_link_rehearsal: bool,
    pub show_helpers: bool,
}

/// `WizardAnswers` with the device taken as a character sequence.
pub struct AnswersView {
    pub device: Seq<char>,
    pub baud: u32,
    pub cols: u8,
    pub rows: u8,
    pub preference: RolePreference,
    pub lcd_present: bool,
    pub intent: UsageIntent,
    pub run_probe: bool,
    pub run_link_rehearsal: bool,
    pub show_helpers: bool,
}

impl WizardAnswers {
    pub open spec fn view(&self) -> AnswersView {
        AnswersView {
            device: self.device@,
            baud: self.baud,
            cols: self.cols,
            rows: self.rows,
            preference: self.preference,
            lcd_present: self.lcd_present,
            intent: self.intent,
            run_probe: self.run_probe,
            run_link_rehearsal: self.run_link_rehearsal,
            show_helpers: self.show_helpers,
        }
    }
}

/// The wizard between two questions.
pub struct WizardFlow {
    step: WizardStep,
    interactive: bool,
    default_intent: UsageIntent,
    default_lcd: bool,
    default_baud: u32,
    default_cols: u8,
    default_rows: u8,
    candidates: Vec<String>,
    answers: WizardAnswers,
}

/// What the wizard's state is made of.
pub struct FlowView {
    pub step: WizardStep,
    pub interactive: bool,
    pub default_intent: UsageIntent,
    pub default_lcd: bool,
    pub default_baud: u32,
    pub default_cols: u8,
    pub default_rows: u8,
    pub candidates: Seq<Seq<char>>,
    pub answers: AnswersView,
}

impl WizardFlow {
    pub closed spec fn view(&self) -> FlowView {
        FlowView {
            step: self.step,
            interactive: self.interactive,
            default_intent: self.default_intent,
            default_lcd: self.default_lcd,
            default_baud: self.default_baud,
            default_cols: self.default_cols,
            default_rows: self.default_rows,
            candidates: self.candidates@.map_values(|s: String| s@),
            answers: self.answers@,
        }
    }
}

/// How an answer was taken.
pub enum WizardReply {
    /// The answer was used; the wizard has moved on.
    Accepted,
    /// The answer meant nothing here; the message says what to type, and the
    /// same question comes again.
    Retry(String),
    /// The user asked for a new scan of the serial devices.
    Rescan,
}

/// `WizardReply` with the message taken as a character sequence.
pub enum ReplyView {
    Accepted,
    Retry(Seq<char>),
    Rescan,
}

pub open spec fn reply_is(r: WizardReply, v: ReplyView) -> bool {
    match v {
        ReplyView::Accepted => r is Accepted,
        ReplyView::Retry(m) => r matches WizardReply::Retry(s) && s@ == m,
        ReplyView::Rescan => r is Rescan,
    }
}

/// The wizard at its first question.
pub open spec fn flow_start(defaults: ConfigView, interactive: bool, candidates: Seq<Seq<char>>) -> FlowView {
    FlowView {
        step: WizardStep::Intent,
        interactive,
        default_intent: intent_of_preference(defaults.negotiation.preference),
        default_lcd: defaults.lcd_present,
        default_baud: defaults.baud,
        default_cols: defaults.cols,
        default_rows: defaults.rows,
        candidates,
        answers: AnswersView {
            device: defaults.device,
            baud: defaults.baud,
            cols: defaults.cols,
            rows: defaults.rows,
            preference: defaults.negotiation.preference,
            lcd_present: defaults.lcd_present,
            intent: intent_of_preference(defaults.negotiation.preference),
            run_probe: false,
            run_link_rehearsal: false,
            show_helpers: false,
        },
    }
}

pub open spec fn intent_of_preference(p: RolePreference) -> UsageIntent {
    match p {
        RolePreference::PreferServer => UsageIntent::Server,
        RolePreference::PreferClient => UsageIntent::Client,
        RolePreference::NoPreference => UsageIntent::Standalone,
    }
}

pub open spec fn preference_of_intent(i: UsageIntent) -> RolePreference {
    match i {
        UsageIntent::Server => RolePreference::PreferServer,
        UsageIntent::Client => RolePreference::PreferClient,
        UsageIntent::Standalone => RolePreference::NoPreference,
    }
}

pub open spec fn yes_no_label(b: bool) -> Seq<char> {
    if b {
        "y"@
    } else {
        "n"@
    }
}

pub open spec fn role_label(p: RolePreference) -> Seq<char> {
    match p {
        RolePreference::PreferServer => "server"@,
        RolePreference::PreferClient => "client"@,
        RolePreference::NoPreference => "standalone"@,
    }
}

/// The device offered first: the best-ranked candidate, else the usual one.
pub open spec fn device_default(candidates: Seq<Seq<char>>) -> Seq<char> {
    if candidates.len() > 0 {
        candidates[0]
    } else {
        DEFAULT_DEVICE@
    }
}

/// The baud rate offered: the configured one, at least 9600.
pub open spec fn baud_default(f: FlowView) -> u32 {
    if f.default_baud > 9600 {
        f.default_baud
    } else {
        9600
    }
}

/// The question asked at a step and its default answer; `None` where the
/// step asks nothing.
pub open spec fn question_at(f: FlowView) -> Option<(Seq<char>, Seq<char>)> {
    match f.step {
        WizardStep::Intent => Some(
            ("Usage intent (1=server, 2=client, 3=standalone)"@, crate::wizard::intent_name(f.default_intent)),
        ),
        WizardStep::LcdPresence => Some(("Is an LCD connected (y/n)"@, yes_no_label(f.default_lcd))),
        WizardStep::Device => Some(("Serial device path or index"@, device_default(f.candidates))),
        WizardStep::Baud => Some(("Target baud rate (>= 9600)"@, dec(baud_default(f) as nat))),
        WizardStep::Probe => Some(
            ("Probe the selected device at 9600 and the target baud (y/n)"@, yes_no_label(f.interactive)),
        ),
        WizardStep::Columns => Some(("LCD columns (between 8 and 40)"@, dec(f.default_cols as nat))),
        WizardStep::Rows => Some(("LCD rows (between 1 and 4)"@, dec(f.default_rows as nat))),
        WizardStep::Role => Some(
            ("Preferred role (1=server, 2=client, 3=auto)"@, role_label(preference_of_intent(f.answers.intent))),
        ),
        WizardStep::Helpers => Some(("Show helper snippets (ssh/scp/tmux) (y/n)"@, yes_no_label(f.interactive))),
        WizardStep::Confirm => Some(("Write these settings to disk (y/n)"@, "y"@)),
        _ => None,
    }
}

/// What the display shows at a step, top line then bottom line.
pub open spec fn banner_at(f: FlowView) -> Option<(Seq<char>, Seq<char>)> {
    match f.step {
        WizardStep::Device => Some(("Select device"@, device_default(f.candidates))),
        WizardStep::Rehearsal => Some(("Rehearsal"@, "testing bauds"@)),
        WizardStep::Baud => Some(("Target baud"@, dec(baud_default(f) as nat) + " bps"@)),
        WizardStep::Probe => Some(("Probe serial"@, "optional"@)),
        WizardStep::Columns => Some(("LCD columns"@, dec(f.default_cols as nat) + " cols"@)),
        WizardStep::Rows => Some(("LCD rows"@, dec(f.default_rows as nat) + " rows"@)),
        WizardStep::Role => Some(("Role preference"@, "server/client/auto"@)),
        _ => None,
    }
}

/// Once the baud rate and the probe are settled: the display's size is
/// asked when there is a display, else its width stays and it has two rows.
pub open spec fn after_link(f: FlowView) -> FlowView {
    if f.answers.lcd_present {
        FlowView { step: WizardStep::Columns, ..f }
    } else {
        FlowView { step: WizardStep::Role, answers: AnswersView { cols: f.default_cols, rows: 2, ..f.answers }, ..f }
    }
}

pub open spec fn not_yes_no(lower: Seq<char>) -> Seq<char> {
    "'"@ + lower + "' is not a yes or no answer. Try y/n."@
}

/// What an answer does at the current step, and how it is taken.
pub open spec fn answered(f: FlowView, response: Seq<char>) -> (FlowView, ReplyView) {
    let lower = ascii_lower(trim(response));
    let a = f.answers;
    match f.step {
        WizardStep::Intent => match intent_answer(response, f.default_intent) {
            Answer::Value(i) => (
                FlowView { step: WizardStep::LcdPresence, answers: AnswersView { intent: i, ..a }, ..f },
                ReplyView::Accepted,
            ),
            Answer::Help => (f, ReplyView::Retry("Choose 1=server, 2=client, 3=standalone."@)),
            Answer::Invalid => (
                f,
                ReplyView::Retry("Unknown intent '"@ + lower + "', choose server, client, or standalone."@),
            ),
        },
        WizardStep::LcdPresence => match yes_no_answer(response, f.default_lcd) {
            Some(b) => (
                FlowView { step: WizardStep::Device, answers: AnswersView { lcd_present: b, ..a }, ..f },
                ReplyView::Accepted,
            ),
            None => (f, ReplyView::Retry(not_yes_no(lower))),
        },
        WizardStep::Device => match device_answer(response, f.candidates, device_default(f.candidates)) {
            Some(Some(d)) => {
                let rehearse = f.interactive && a.intent != UsageIntent::Standalone;
                (
                    FlowView {
                        step: if rehearse {
                            WizardStep::Rehearsal
                        } else {
                            WizardStep::Baud
                        },
                        answers: AnswersView { device: d, run_link_rehearsal: rehearse, ..a },
                        ..f
                    },
                    ReplyView::Accepted,
                )
            },
            Some(None) => (f, ReplyView::Rescan),
            None => (
                f,
                ReplyView::Retry(
                    "Input '"@ + trim(response)
                        + "' was not a /dev path or a device index; enter a full path (e.g., /dev/ttyUSB0) or one of the listed numbers."@,
                ),
            ),
        },
        WizardStep::Baud => match baud_answer(response) {
            Some(b) => (
                FlowView { step: WizardStep::Probe, answers: AnswersView { baud: b, ..a }, ..f },
                ReplyView::Accepted,
            ),
            None => (f, ReplyView::Retry("Enter a baud rate of at least 9600 (e.g., 9600, 19200, 115200)."@)),
        },
        WizardStep::Probe => match yes_no_answer(response, f.interactive) {
            Some(b) => (after_link(FlowView { answers: AnswersView { run_probe: b, ..a }, ..f }), ReplyView::Accepted),
            None => (f, ReplyView::Retry(not_yes_no(lower))),
        },
        WizardStep::Columns => match dimension_answer(response, 8, 40) {
            Some(c) => (
                FlowView { step: WizardStep::Rows, answers: AnswersView { cols: c, ..a }, ..f },
                ReplyView::Accepted,
            ),
            None => (f, ReplyView::Retry("Enter a value between 8 and 40."@)),
        },
        WizardStep::Rows => match dimension_answer(response, 1, 4) {
            Some(r) => (
                FlowView { step: WizardStep::Role, answers: AnswersView { rows: r, ..a }, ..f },
                ReplyView::Accepted,
            ),
            None => (f, ReplyView::Retry("Enter a value between 1 and 4."@)),
        },
        WizardStep::Role => match role_answer(response) {
            Answer::Value(p) => (
                FlowView { step: WizardStep::Helpers, answers: AnswersView { preference: p, ..a }, ..f },
                ReplyView::Accepted,
            ),
            Answer::Help => (f, ReplyView::Retry("Choose 1=server, 2=client, 3=auto."@)),
            Answer::Invalid => (
                f,
                ReplyView::Retry("Unknown role '"@ + lower + "', choose server, client, standalone, or auto."@),
            ),
        },
        WizardStep::Helpers => match yes_no_answer(response, f.interactive) {
            Some(b) => (
                FlowView { step: WizardStep::Confirm, answers: AnswersView { show_helpers: b, ..a }, ..f },
                ReplyView::Accepted,
            ),
            None => (f, ReplyView::Retry(not_yes_no(lower))),
        },
        WizardStep::Confirm => match yes_no_answer(response, true) {
            Some(b) => (
                FlowView {
                    step: if b {
                        WizardStep::Saved
                    } else {
                        WizardStep::Aborted
                    },
                    ..f
                },
                ReplyView::Accepted,
            ),
            None => (f, ReplyView::Retry(not_yes_no(lower))),
        },
        _ => (f, ReplyView::Accepted),
    }
}

/// The rehearsal's result taken as the baud rate: no probe follows.
pub open spec fn rehearsed_at(f: FlowView, chosen: u32) -> FlowView {
    if f.step == WizardStep::Rehearsal {
        after_link(FlowView { answers: AnswersView { baud: chosen, run_probe: false, ..f.answers }, ..f })
    } else {
        f
    }
}


/// One question: its text and what a blank answer stands for.
pub struct WizardQuestion {
    pub question: String,
    pub default: String,
}

/// Two lines for the display.
pub struct WizardBanner {
    pub top: String,
    pub bottom: String,
}

fn yes_no_text(b: bool) -> (r: String)
    ensures
        r@ == yes_no_label(b),
{
    if b {
        String::from_str("y")
    } else {
        String::from_str("n")
    }
}

fn number_text(n: u32) -> (r: String)
    ensures
        r@ == dec(n as nat),
{
    let d = crate::text::dec_chars(n as u64);
    string_of(d.as_slice())
}

fn number_then(n: u32, tail: &str) -> (r: String)
    ensures
        r@ == dec(n as nat) + tail@,
{
    let mut v = crate::text::dec_chars(n as u64);
    crate::text::extend_str(&mut v, tail);
    string_of(v.as_slice())
}

fn retry(a: &str, mid: &[char], b: &str) -> (r: WizardReply)
    ensures
        r matches WizardReply::Retry(m) && m@ == a@ + mid@ + b@,
{
    let m = string_of(mid);
    WizardReply::Retry(crate::concat3(a, m.as_str(), b))
}

fn retry_text(m: &str) -> (r: WizardReply)
    ensures
        r matches WizardReply::Retry(s) && s@ == m@,
{
    WizardReply::Retry(String::from_str(m))
}

impl WizardFlow {
    /// The wizard at its first question, offering `candidates` as devices.
    pub fn new(defaults: &Config, interactive: bool, candidates: Vec<String>) -> (r: WizardFlow)
        ensures
            r@ == flow_start(defaults@, interactive, candidates@.map_values(|s: String| s@)),
    {
        let intent = UsageIntent::from_role_preference(defaults.negotiation.preference);
        WizardFlow {
            step: WizardStep::Intent,
            interactive,
            default_intent: intent,
            default_lcd: defaults.lcd_present,
            default_baud: defaults.baud,
            default_cols: defaults.cols,
            default_rows: defaults.rows,
            candidates,
            answers: WizardAnswers {
                device: defaults.device.clone(),
                baud: defaults.baud,
                cols: defaults.cols,
                rows: defaults.rows,
                preference: defaults.negotiation.preference,
                lcd_present: defaults.lcd_present,
                intent,
                run_probe: false,
                run_link_rehearsal: false,
                show_helpers: false,
            },
        }
    }

    /// Where the wizard is.
    pub fn step(&self) -> (r: WizardStep)
        ensures
            r == self@.step,
    {
        self.step
    }

    /// The devices on offer.
    pub fn candidates(&self) -> (r: &Vec<String>)
        ensures
            r@.map_values(|s: String| s@) == self@.candidates,
    {
        &self.candidates
    }

    /// The settings collected so far.
    pub fn answers(&self) -> (r: WizardAnswers)
        ensures
            r@ == self@.answers,
    {
        WizardAnswers {
            device: self.answers.device.clone(),
            baud: self.answers.baud,
            cols: self.answers.cols,
            rows: self.answers.rows,
            preference: self.answers.preference,
            lcd_present: self.answers.lcd_present,
            intent: self.answers.intent,
            run_probe: self.answers.run_probe,
            run_link_rehearsal: self.answers.run_link_rehearsal,
            show_helpers: self.answers.show_helpers,
        }
    }

    fn default_device(&self) -> (r: String)
        ensures
            r@ == device_default(self@.candidates),
    {
        if self.candidates.len() > 0 {
            self.candidates[0].clone()
        } else {
            String::from_str(DEFAULT_DEVICE)
        }
    }

    fn default_baud_now(&self) -> (r: u32)
        ensures
            r == baud_default(self@),
    {
        if self.default_baud > MIN_BAUD {
            self.default_baud
        } else {
            MIN_BAUD
        }
    }

    /// The question to ask now, with its default; `None` where nothing is
    /// asked (the rehearsal, and once the wizard is done).
    pub fn question(&self) -> (r: Option<WizardQuestion>)
        ensures
            match question_at(self@) {
                Some((q, d)) => r matches Some(w) && w.question@ == q && w.default@ == d,
                None => r is None,
            },
    {
        let (q, d) = match self.step {
            WizardStep::Intent => (
                String::from_str("Usage intent (1=server, 2=client, 3=standalone)"),
                String::from_str(self.default_intent.as_str()),
            ),
            WizardStep::LcdPresence => (String::from_str("Is an LCD connected (y/n)"), yes_no_text(self.default_lcd)),
            WizardStep::Device => (String::from_str("Serial device path or index"), self.default_device()),
            WizardStep::Baud => (String::from_str("Target baud rate (>= 9600)"), number_text(self.default_baud_now())),
            WizardStep::Probe => (
                String::from_str("Probe the selected device at 9600 and the target baud (y/n)"),
                yes_no_text(self.interactive),
            ),
            WizardStep::Columns => (
                String::from_str("LCD columns (between 8 and 40)"),
                number_text(self.default_cols as u32),
            ),
            WizardStep::Rows => (String::from_str("LCD rows (between 1 and 4)"), number_text(self.default_rows as u32)),
            WizardStep::Role => (
                String::from_str("Preferred role (1=server, 2=client, 3=auto)"),
                String::from_str(crate::wizard::role_default_label(self.answers.intent.to_role_preference())),
            ),
            WizardStep::Helpers => (
                String::from_str("Show helper snippets (ssh/scp/tmux) (y/n)"),
                yes_no_text(self.interactive),
            ),
            WizardStep::Confirm => (String::from_str("Write these settings to disk (y/n)"), String::from_str("y")),
            _ => {
                return None;
            },
        };
        Some(WizardQuestion { question: q, default: d })
    }

    /// What the display shows now, if anything.
    pub fn banner(&self) -> (r: Option<WizardBanner>)
        ensures
            match banner_at(self@) {
                Some((t, b)) => r matches Some(w) && w.top@ == t && w.bottom@ == b,
                None => r is None,
            },
    {
        let (t, b) = match self.step {
            WizardStep::Device => (String::from_str("Select device"), self.default_device()),
            WizardStep::Rehearsal => (String::from_str("Rehearsal"), String::from_str("testing bauds")),
            WizardStep::Baud => (String::from_str("Target baud"), number_then(self.default_baud_now(), " bps")),
            WizardStep::Probe => (String::from_str("Probe serial"), String::from_str("optional")),
            WizardStep::Columns => (String::from_str("LCD columns"), number_then(self.default_cols as u32, " cols")),
            WizardStep::Rows => (String::from_str("LCD rows"), number_then(self.default_rows as u32, " rows")),
            WizardStep::Role => (String::from_str("Role preference"), String::from_str("server/client/auto")),
            _ => {
                return None;
            },
        };
        Some(WizardBanner { top: t, bottom: b })
    }

    /// The baud rates the rehearsal is to try.
    pub fn rates_to_rehearse(&self) -> (r: Vec<u32>)
        ensures
            r@ == rehearsal_rates(self@.default_baud),
    {
        rehearsal_candidates(self.default_baud)
    }

    /// Offers `candidates` as the devices from now on.
    pub fn set_candidates(&mut self, candidates: Vec<String>)
        ensures
            final(self)@ == (FlowView { candidates: candidates@.map_values(|s: String| s@), ..old(self)@ }),
    {
        self.candidates = candidates;
    }

    fn link_settled(&mut self)
        ensures
            final(self)@ == after_link(old(self)@),
    {
        if self.answers.lcd_present {
            self.step = WizardStep::Columns;
        } else {
            self.answers.cols = self.default_cols;
            self.answers.rows = 2;
            self.step = WizardStep::Role;
        }
    }

    /// Takes the rate the rehearsal settled on as the baud rate.
    pub fn rehearsed(&mut self, chosen: u32)
        ensures
            final(self)@ == rehearsed_at(old(self)@, chosen),
    {
        if self.step == WizardStep::Rehearsal {
            self.answers.baud = chosen;
            self.answers.run_probe = false;
            self.link_settled();
        }
    }
}


impl WizardFlow {
    fn answer_intent(&mut self, response: &str, t: &Vec<char>, lower: &Vec<char>) -> (r: WizardReply)
        requires
            old(self)@.step == WizardStep::Intent,
            t@ == trim(response@),
            lower@ == ascii_lower(trim(response@)),
        ensures
            final(self)@ == answered(old(self)@, response@).0,
            reply_is(r, answered(old(self)@, response@).1),
    {
        match parse_usage_intent(response, self.default_intent) {
            Answer::Value(i) => {
                self.answers.intent = i;
                self.step = WizardStep::LcdPresence;
                WizardReply::Accepted
            },
            Answer::Help => retry_text("Choose 1=server, 2=client, 3=standalone."),
            Answer::Invalid => retry("Unknown intent '", lower.as_slice(), "', choose server, client, or standalone."),
        }
    }

    fn answer_lcd_presence(&mut self, response: &str, t: &Vec<char>, lower: &Vec<char>) -> (r: WizardReply)
        requires
            old(self)@.step == WizardStep::LcdPresence,
            t@ == trim(response@),
            lower@ == ascii_lower(trim(response@)),
        ensures
            final(self)@ == answered(old(self)@, response@).0,
            reply_is(r, answered(old(self)@, response@).1),
    {
        match parse_yes_no(response, self.default_lcd) {
            Some(b) => {
                self.answers.lcd_present = b;
                self.step = WizardStep::Device;
                WizardReply::Accepted
            },
            None => retry("'", lower.as_slice(), "' is not a yes or no answer. Try y/n."),
        }
    }

    fn answer_device(&mut self, response: &str, t: &Vec<char>, lower: &Vec<char>) -> (r: WizardReply)
        requires
            old(self)@.step == WizardStep::Device,
            t@ == trim(response@),
            lower@ == ascii_lower(trim(response@)),
        ensures
            final(self)@ == answered(old(self)@, response@).0,
            reply_is(r, answered(old(self)@, response@).1),
    {
        let d = self.default_device();
        match parse_device_answer(response, &self.candidates, d.as_str()) {
            DeviceSelection::Selected(dev) => {
                let rehearse = self.interactive && self.answers.intent != UsageIntent::Standalone;
                self.answers.device = dev;
                self.answers.run_link_rehearsal = rehearse;
                self.step = if rehearse {
                    WizardStep::Rehearsal
                } else {
                    WizardStep::Baud
                };
                WizardReply::Accepted
            },
            DeviceSelection::Rescan => WizardReply::Rescan,
            DeviceSelection::Invalid => retry(
                "Input '",
                t.as_slice(),
                "' was not a /dev path or a device index; enter a full path (e.g., /dev/ttyUSB0) or one of the listed numbers.",
            ),
        }
    }

    fn answer_baud(&mut self, response: &str, t: &Vec<char>, lower: &Vec<char>) -> (r: WizardReply)
        requires
            old(self)@.step == WizardStep::Baud,
            t@ == trim(response@),
            lower@ == ascii_lower(trim(response@)),
        ensures
            final(self)@ == answered(old(self)@, response@).0,
            reply_is(r, answered(old(self)@, response@).1),
    {
        match parse_baud_answer(response) {
            Some(b) => {
                self.answers.baud = b;
                self.step = WizardStep::Probe;
                WizardReply::Accepted
            },
            None => retry_text("Enter a baud rate of at least 9600 (e.g., 9600, 19200, 115200)."),
        }
    }

    fn answer_probe(&mut self, response: &str, t: &Vec<char>, lower: &Vec<char>) -> (r: WizardReply)
        requires
            old(self)@.step == WizardStep::Probe,
            t@ == trim(response@),
            lower@ == ascii_lower(trim(response@)),
        ensures
            final(self)@ == answered(old(self)@, response@).0,
            reply_is(r, answered(old(self)@, response@).1),
    {
        match parse_yes_no(response, self.interactive) {
            Some(b) => {
                self.answers.run_probe = b;
                self.link_settled();
                WizardReply::Accepted
            },
            None => retry("'", lower.as_slice(), "' is not a yes or no answer. Try y/n."),
        }
    }

    fn answer_columns(&mut self, response: &str, t: &Vec<char>, lower: &Vec<char>) -> (r: WizardReply)
        requires
            old(self)@.step == WizardStep::Columns,
            t@ == trim(response@),
            lower@ == ascii_lower(trim(response@)),
        ensures
            final(self)@ == answered(old(self)@, response@).0,
            reply_is(r, answered(old(self)@, response@).1),
    {
        match parse_dimension_answer(response, MIN_COLS, MAX_COLS) {
            Some(c) => {
                self.answers.cols = c;
                self.step = WizardStep::Rows;
                WizardReply::Accepted
            },
            None => retry_text("Enter a value between 8 and 40."),
        }
    }

    fn answer_rows(&mut self, response: &str, t: &Vec<char>, lower: &Vec<char>) -> (r: WizardReply)
        requires
            old(self)@.step == WizardStep::Rows,
            t@ == trim(response@),
            lower@ == ascii_lower(trim(response@)),
        ensures
            final(self)@ == answered(old(self)@, response@).0,
            reply_is(r, answered(old(self)@, response@).1),
    {
        match parse_dimension_answer(response, MIN_ROWS, MAX_ROWS) {
            Some(r) => {
                self.answers.rows = r;
                self.step = WizardStep::Role;
                WizardReply::Accepted
            },
            None => retry_text("Enter a value between 1 and 4."),
        }
    }

    fn answer_role(&mut self, response: &str, t: &Vec<char>, lower: &Vec<char>) -> (r: WizardReply)
        requires
            old(self)@.step == WizardStep::Role,
            t@ == trim(response@),
            lower@ == ascii_lower(trim(response@)),
        ensures
            final(self)@ == answered(old(self)@, response@).0,
            reply_is(r, answered(old(self)@, response@).1),
    {
        match parse_role(response) {
            Answer::Value(p) => {
                self.answers.preference = p;
                self.step = WizardStep::Helpers;
                WizardReply::Accepted
            },
            Answer::Help => retry_text("Choose 1=server, 2=client, 3=auto."),
            Answer::Invalid => retry("Unknown role '", lower.as_slice(), "', choose server, client, standalone, or auto."),
        }
    }

    fn answer_helpers(&mut self, response: &str, t: &Vec<char>, lower: &Vec<char>) -> (r: WizardReply)
        requires
            old(self)@.step == WizardStep::Helpers,
            t@ == trim(response@),
            lower@ == ascii_lower(trim(response@)),
        ensures
            final(self)@ == answered(old(self)@, response@).0,
            reply_is(r, answered(old(self)@, response@).1),
    {
        match parse_yes_no(response, self.interactive) {
            Some(b) => {
                self.answers.show_helpers = b;
                self.step = WizardStep::Confirm;
                WizardReply::Accepted
            },
            None => retry("'", lower.as_slice(), "' is not a yes or no answer. Try y/n."),
        }
    }

    fn answer_confirm(&mut self, response: &str, t: &Vec<char>, lower: &Vec<char>) -> (r: WizardReply)
        requires
            old(self)@.step == WizardStep::Confirm,
            t@ == trim(response@),
            lower@ == ascii_lower(trim(response@)),
        ensures
            final(self)@ == answered(old(self)@, response@).0,
            reply_is(r, answered(old(self)@, response@).1),
    {
        match parse_yes_no(response, true) {
            Some(b) => {
                self.step = if b {
                    WizardStep::Saved
                } else {
                    WizardStep::Aborted
                };
                WizardReply::Accepted
            },
            None => retry("'", lower.as_slice(), "' is not a yes or no answer. Try y/n."),
        }
    }

    /// Takes `response` (the answer, or the default where the user gave
    /// none) to the current question.
    pub fn answer(&mut self, response: &str) -> (r: WizardReply)
        ensures
            final(self)@ == answered(old(self)@, response@).0,
            reply_is(r, answered(old(self)@, response@).1),
    {
        let t = trim_vec(chars_of(response).as_slice());
        let lower = ascii_lower_vec(t.as_slice());
        match self.step {
            WizardStep::Intent => self.answer_intent(response, &t, &lower),
            WizardStep::LcdPresence => self.answer_lcd_presence(response, &t, &lower),
            WizardStep::Device => self.answer_device(response, &t, &lower),
            WizardStep::Baud => self.answer_baud(response, &t, &lower),
            WizardStep::Probe => self.answer_probe(response, &t, &lower),
            WizardStep::Columns => self.answer_columns(response, &t, &lower),
            WizardStep::Rows => self.answer_rows(response, &t, &lower),
            WizardStep::Role => self.answer_role(response, &t, &lower),
            WizardStep::Helpers => self.answer_helpers(response, &t, &lower),
            WizardStep::Confirm => self.answer_confirm(response, &t, &lower),
            _ => WizardReply::Accepted,
        }
    }
}

/// The configuration with the wizard's settings in it.
pub open spec fn with_answers(c: ConfigView, a: AnswersView) -> ConfigView {
    ConfigView {
        device: a.device,
        baud: a.baud,
        cols: a.cols,
        rows: a.rows,
        lcd_present: a.lcd_present,
        negotiation: NegotiationConfig { preference: a.preference, ..c.negotiation },
        ..c
    }
}

/// Puts the wizard's settings into `cfg`: device, baud rate, display size
/// and presence, role preference; the rest stays as it was.
pub fn apply_answers(cfg: Config, answers: &WizardAnswers) -> (r: Config)
    ensures
        r@ == with_answers(cfg@, answers@),
{
    let mut cfg = cfg;
    cfg.device = answers.device.clone();
    cfg.baud = answers.baud;
    cfg.cols = answers.cols;
    cfg.rows = answers.rows;
    cfg.lcd_present = answers.lcd_present;
    cfg.negotiation.preference = answers.preference;
    cfg
}

/// What was found where the configuration file should be.
pub enum ExistingConfig {
    /// No file.
    Missing,
    /// A file that could not be read, with the reason.
    Unreadable(String),
    /// The file's text.
    Contents(String),
}

/// What the wizard makes of an existing configuration: the configuration
/// when it is usable, whether it needs repair, and why.
pub struct ConfigInspection {
    pub config: Option<Config>,
    pub requires_repair: bool,
    pub reason: Option<String>,
}

/// The inspection of what was found at `path`: `(config, repair, reason)`.
pub open spec fn inspection_of(path: Seq<char>, found: ExistingConfig) -> (Option<ConfigView>, bool, Option<Seq<char>>) {
    match found {
        ExistingConfig::Missing => (None, false, None),
        ExistingConfig::Unreadable(e) => (
            None,
            true,
            Some("failed to read existing config at "@ + path + ": "@ + e@ + "; running wizard to repair"@),
        ),
        ExistingConfig::Contents(raw) => if trim(raw@).len() == 0 {
            (None, true, Some("existing config at "@ + path + " is empty; running wizard to initialize"@))
        } else {
            match crate::config::format::config_from_text(raw@) {
                Ok(c) => (Some(c), false, None),
                Err(e) => (
                    None,
                    true,
                    Some(
                        "existing config at "@ + path + " is invalid ("@ + "invalid arguments: "@ + e
                            + "); running wizard to repair"@,
                    ),
                ),
            }
        },
    }
}

fn message5(a: &str, b: &str, c: &str, d: &str, e: &str) -> (r: String)
    ensures
        r@ == a@ + b@ + c@ + d@ + e@,
{
    let mut s = crate::concat3(a, b, c);
    s.append(d);
    s.append(e);
    s
}

/// Inspects what was found at `path`: a missing file needs no repair; an
/// unreadable, blank or invalid one does, and the reason says which.
pub fn inspect_existing_config(path: &str, found: &ExistingConfig) -> (r: ConfigInspection)
    ensures
        ({
            let (c, repair, reason) = inspection_of(path@, *found);
            &&& r.requires_repair == repair
            &&& match c {
                Some(cv) => r.config matches Some(x) && x@ == cv,
                None => r.config is None,
            }
            &&& match reason {
                Some(m) => r.reason matches Some(x) && x@ == m,
                None => r.reason is None,
            }
        }),
{
    match found {
        ExistingConfig::Missing => ConfigInspection { config: None, requires_repair: false, reason: None },
        ExistingConfig::Unreadable(e) => ConfigInspection {
            config: None,
            requires_repair: true,
            reason: Some(
                message5("failed to read existing config at ", path, ": ", e.as_str(), "; running wizard to repair"),
            ),
        },
        ExistingConfig::Contents(raw) => {
            let t = trim_vec(chars_of(raw.as_str()).as_slice());
            if t.len() == 0 {
                return ConfigInspection {
                    config: None,
                    requires_repair: true,
                    reason: Some(crate::concat3("existing config at ", path, " is empty; running wizard to initialize")),
                };
            }
            match crate::config::format::parse_config_text(raw.as_str()) {
                Ok(c) => ConfigInspection { config: Some(c), requires_repair: false, reason: None },
                Err(e) => {
                    let m = e.message();
                    let ghost a = "existing config at "@ + path@ + " is invalid ("@;
                    proof {
                        if let crate::Error::InvalidArgs(x) = e {
                            assert(a + m@ + "); running wizard to repair"@ =~= a + "invalid arguments: "@ + x@
                                + "); running wizard to repair"@);
                        }
                    }
                    ConfigInspection {
                        config: None,
                        requires_repair: true,
                        reason: Some(
                            message5("existing config at ", path, " is invalid (", m.as_str(), "); running wizard to repair"),
                        ),
                    }
                },
            }
        },
    }
}

/// Whether the wizard runs: when asked to, when there is no configuration
/// file, or when the one there needs repair.
pub fn wizard_should_run(forced: bool, config_exists: bool, requires_repair: bool) -> (r: bool)
    ensures
        r == (forced || !config_exists || requires_repair),
{
    forced || !config_exists || requires_repair
}

/// Whether the wizard runs at start-up: never when a configuration file was
/// named on the command line, unless `--wizard` or the environment asks for
/// it; otherwise as `wizard_should_run` says, `--wizard` and the
/// environment both counting as asking.
pub fn wizard_wanted(
    config_file_given: bool,
    wizard_flag: bool,
    forced_env: bool,
    config_exists: bool,
    requires_repair: bool,
) -> (r: bool)
    ensures
        r == (!(config_file_given && !wizard_flag && !forced_env) && (wizard_flag || forced_env
            || !config_exists || requires_repair)),
{
    if config_file_given && !wizard_flag && !forced_env {
        return false;
    }
    wizard_should_run(wizard_flag || forced_env, config_exists, requires_repair)
}

/// Where the answers come from.
#[derive(Debug, Clone, Copy, PartialEq, Eq, Structural)]
pub enum PromptMode {
    /// A person at the terminal.
    Interactive,
    /// Lines of a script.
    Scripted,
    /// Nobody: every question takes its default.
    AutoDefaults,
}

pub open spec fn mode_label(m: PromptMode) -> Seq<char> {
    match m {
        PromptMode::Interactive => "interactive"@,
        PromptMode::Scripted => "scripted"@,
        PromptMode::AutoDefaults => "auto_defaults"@,
    }
}

impl PromptMode {
    /// The name the logs give the mode.
    pub fn label(&self) -> (r: &'static str)
        ensures
            r@ == mode_label(*self),
    {
        match self {
            PromptMode::Interactive => "interactive",
            PromptMode::Scripted => "scripted",
            PromptMode::AutoDefaults => "auto_defaults",
        }
    }
}

/// The answer a question gets: the line given, trimmed, or the default when
/// there is no line or it is blank.
pub open spec fn resolved_answer(line: Option<Seq<char>>, default: Seq<char>) -> Seq<char> {
    match line {
        Some(l) => if trim(l).len() == 0 {
            default
        } else {
            trim(l)
        },
        None => default,
    }
}

/// The answer a question gets from `line` (`None`: no line, as when a
/// script has run out or nobody is there to answer).
pub fn resolve_answer(line: Option<&str>, default: &str) -> (r: String)
    ensures
        r@ == resolved_answer(
            match line {
                Some(l) => Some(l@),
                None => None,
            },
            default@,
        ),
{
    match line {
        Some(l) => {
            let t = trim_vec(chars_of(l).as_slice());
            if t.len() == 0 {
                String::from_str(default)
            } else {
                string_of(t.as_slice())
            }
        },
        None => String::from_str(default),
    }
}

/// How a question is put to a person: the default in brackets when there
/// is one, then ` > `.
pub open spec fn prompt_line(question: Seq<char>, default: Seq<char>) -> Seq<char> {
    if default.len() == 0 {
        question + " > "@
    } else {
        question + " ["@ + default + "]"@ + " > "@
    }
}

/// How a question is put to a person.
pub fn prompt_text(question: &str, default: &str) -> (r: String)
    ensures
        r@ == prompt_line(question@, default@),
{
    if default.unicode_len() == 0 {
        crate::concat2(question, " > ")
    } else {
        let mut s = crate::concat3(question, " [", default);
        s.append("]");
        s.append(" > ");
        s
    }
}

/// The transcript's record of one question and its answer.
pub open spec fn transcript_line(question: Seq<char>, default: Seq<char>, answer: Seq<char>) -> Seq<char> {
    "Q: "@ + question + " [default="@ + default + "] A: "@ + answer
}

/// The transcript's record of one question and its answer.
pub fn transcript_entry(question: &str, default: &str, answer: &str) -> (r: String)
    ensures
        r@ == transcript_line(question@, default@, answer@),
{
    let mut s = crate::concat3("Q: ", question, " [default=");
    s.append(default);
    s.append("] A: ");
    s.append(answer);
    s
}

/// The lines of a wizard script that count: trimmed, without blank lines
/// and `#` comments.
pub open spec fn script_lines_of(ls: Seq<Seq<char>>) -> Seq<Seq<char>>
    decreases ls.len(),
{
    if ls.len() == 0 {
        Seq::empty()
    } else {
        let prev = script_lines_of(ls.drop_last());
        let t = trim(ls.last());
        if t.len() == 0 || t[0] == '#' {
            prev
        } else {
            prev.push(t)
        }
    }
}

/// The answers a wizard script gives, in order.
pub fn script_lines(contents: &str) -> (r: Vec<String>)
    ensures
        r@.map_values(|s: String| s@) == script_lines_of(crate::text::lines(contents@)),
{
    let chars = chars_of(contents);
    let ls = crate::text::split_lines(chars.as_slice());
    let ghost lv = ls@.map_values(|l: Vec<char>| l@);
    let mut out: Vec<String> = Vec::new();
    let mut i: usize = 0;
    while i < ls.len()
        invariant
            i <= ls@.len(),
            lv == ls@.map_values(|l: Vec<char>| l@),
            out@.map_values(|s: String| s@) == script_lines_of(lv.take(i as int)),
        decreases ls@.len() - i,
    {
        assert(lv.take(i + 1).drop_last() =~= lv.take(i as int));
        let t = trim_vec(ls[i].as_slice());
        if !(t.len() == 0 || t[0] == '#') {
            let ghost before = out@.map_values(|s: String| s@);
            out.push(string_of(t.as_slice()));
            assert(out@.map_values(|s: String| s@) =~= before.push(t@));
        }
        i = i + 1;
    }
    assert(lv.take(lv.len() as int) =~= lv);
    out
}


/// One probe of the serial device at one rate.
pub struct ProbeResult {
    pub baud: u32,
    pub attempts: u8,
    pub success: bool,
    pub message: String,
}

/// The rates the device is probed at: 9600, then the target rate when it
/// differs.
pub fn probe_rates(target: u32) -> (r: Vec<u32>)
    ensures
        r@ == if target == 9600 {
            seq![9600u32]
        } else {
            seq![9600u32, target]
        },
{
    let mut v: Vec<u32> = Vec::new();
    v.push(MIN_BAUD);
    if target != MIN_BAUD {
        v.push(target);
    }
    v
}

/// The pause before the next attempt: the initial delay after the first
/// failure, then twice the last one (saturating), at most `max`.
pub open spec fn next_delay(delay: u64, initial: u64, max: u64) -> u64 {
    if delay == 0 {
        initial
    } else {
        let doubled = if delay * 2 > u64::MAX {
            u64::MAX
        } else {
            (delay * 2) as u64
        };
        if doubled < max {
            doubled
        } else {
            max
        }
    }
}

/// The probe of one rate, between attempts.
pub struct ProbeSession {
    baud: u32,
    max_attempts: u8,
    attempts: u8,
    delay_ms: u64,
    initial_ms: u64,
    max_ms: u64,
    last_error: Option<String>,
}

/// What a probe session is made of.
pub struct ProbeView {
    pub baud: u32,
    pub max_attempts: u8,
    pub attempts: u8,
    pub delay_ms: u64,
    pub initial_ms: u64,
    pub max_ms: u64,
    pub last_error: Option<Seq<char>>,
}

impl ProbeSession {
    pub closed spec fn view(&self) -> ProbeView {
        ProbeView {
            baud: self.baud,
            max_attempts: self.max_attempts,
            attempts: self.attempts,
            delay_ms: self.delay_ms,
            initial_ms: self.initial_ms,
            max_ms: self.max_ms,
            last_error: match self.last_error {
                Some(e) => Some(e@),
                None => None,
            },
        }
    }

    pub closed spec fn well_formed(&self) -> bool {
        1 <= self.max_attempts && self.attempts <= self.max_attempts
    }

    /// A probe of `baud` that makes at most `attempts` attempts (at least
    /// one), pausing `initial_ms` after the first failure and doubling the
    /// pause up to `max_ms`.
    pub fn new(baud: u32, initial_ms: u64, max_ms: u64, attempts: u8) -> (r: ProbeSession)
        ensures
            r.well_formed(),
            r@ == (ProbeView {
                baud,
                max_attempts: if attempts == 0 {
                    1
                } else {
                    attempts
                },
                attempts: 0,
                delay_ms: 0,
                initial_ms,
                max_ms,
                last_error: None,
            }),
    {
        ProbeSession {
            baud,
            max_attempts: if attempts == 0 {
                1
            } else {
                attempts
            },
            attempts: 0,
            delay_ms: 0,
            initial_ms,
            max_ms,
            last_error: None,
        }
    }

    /// Starts the next attempt: the pause to take before it, or `None`
    /// when every attempt has been made.
    pub fn next_attempt(&mut self) -> (r: Option<u64>)
        requires
            old(self).well_formed(),
        ensures
            final(self).well_formed(),
            old(self)@.attempts < old(self)@.max_attempts ==> r == Some(old(self)@.delay_ms) && final(self)@
                == (ProbeView { attempts: (old(self)@.attempts + 1) as u8, ..old(self)@ }),
            old(self)@.attempts >= old(self)@.max_attempts ==> r is None && final(self)@ == old(self)@,
    {
        if self.attempts < self.max_attempts {
            self.attempts = self.attempts + 1;
            Some(self.delay_ms)
        } else {
            None
        }
    }

    /// Records a failed attempt.
    pub fn failed(&mut self, error: String)
        requires
            old(self).well_formed(),
        ensures
            final(self).well_formed(),
            final(self)@ == (ProbeView {
                last_error: Some(error@),
                delay_ms: next_delay(old(self)@.delay_ms, old(self)@.initial_ms, old(self)@.max_ms),
                ..old(self)@
            }),
    {
        self.last_error = Some(error);
        self.delay_ms = if self.delay_ms == 0 {
            self.initial_ms
        } else {
            let doubled = if self.delay_ms > u64::MAX / 2 {
                u64::MAX
            } else {
                self.delay_ms * 2
            };
            if doubled < self.max_ms {
                doubled
            } else {
                self.max_ms
            }
        };
    }

    /// The result once the port opened.
    pub fn opened(&self) -> (r: ProbeResult)
        ensures
            r.baud == self@.baud,
            r.attempts == self@.attempts,
            r.success,
            r.message@ == "port opened successfully"@,
    {
        ProbeResult {
            baud: self.baud,
            attempts: self.attempts,
            success: true,
            message: String::from_str("port opened successfully"),
        }
    }

    /// The result once every attempt failed: the last error, if any.
    pub fn gave_up(&self) -> (r: ProbeResult)
        ensures
            r.baud == self@.baud,
            r.attempts == self@.attempts,
            !r.success,
            r.message@ == match self@.last_error {
                Some(e) => e,
                None => "unknown error"@,
            },
    {
        ProbeResult {
            baud: self.baud,
            attempts: self.attempts,
            success: false,
            message: match &self.last_error {
                Some(e) => e.clone(),
                None => String::from_str("unknown error"),
            },
        }
    }
}


pub open spec fn bool_name(b: bool) -> Seq<char> {
    if b {
        "true"@
    } else {
        "false"@
    }
}

/// One `key: value` line of a log record.
pub open spec fn field_line(key: Seq<char>, value: Seq<char>) -> Seq<char> {
    key + ": "@ + value + "\n"@
}

/// The mode note's line, when there is a note.
pub open spec fn note_line(note: Option<Seq<char>>) -> Seq<char> {
    match note {
        Some(n) => field_line("mode_note"@, n),
        None => Seq::empty(),
    }
}

/// The link and display settings, one per line.
pub open spec fn link_lines(a: AnswersView) -> Seq<char> {
    field_line("device"@, a.device) + field_line("baud"@, dec(a.baud as nat)) + field_line(
        "cols"@,
        dec(a.cols as nat),
    ) + field_line("rows"@, dec(a.rows as nat)) + field_line("lcd_present"@, bool_name(a.lcd_present))
}

/// The role and the choices of what to run, one per line.
pub open spec fn choice_lines(a: AnswersView) -> Seq<char> {
    field_line("preference"@, crate::config::role_preference_name(a.preference)) + field_line(
        "run_probe"@,
        bool_name(a.run_probe),
    ) + field_line("run_link_rehearsal"@, bool_name(a.run_link_rehearsal)) + field_line(
        "show_helpers"@,
        bool_name(a.show_helpers),
    )
}

/// What a probe result says: `baud B: ok (attempts=N message)`.
pub open spec fn probe_text(baud: u32, success: bool, attempts: u8, message: Seq<char>) -> Seq<char> {
    "baud "@ + dec(baud as nat) + ": "@ + (if success {
        "ok"@
    } else {
        "error"@
    }) + " (attempts="@ + dec(attempts as nat) + " "@ + message + ")"@
}

/// A probe result as a character sequence.
pub open spec fn probe_view(p: ProbeResult) -> (u32, bool, u8, Seq<char>) {
    (p.baud, p.success, p.attempts, p.message@)
}

/// Each probe result on a line of its own, after `lead`.
pub open spec fn probe_lines(lead: Seq<char>, ps: Seq<(u32, bool, u8, Seq<char>)>) -> Seq<char>
    decreases ps.len(),
{
    if ps.len() == 0 {
        Seq::empty()
    } else {
        let p = ps.last();
        probe_lines(lead, ps.drop_last()) + lead + probe_text(p.0, p.1, p.2, p.3) + "\n"@
    }
}


/// Each of `xs` on a line of its own, after `lead`.
pub open spec fn each_line(lead: Seq<char>, xs: Seq<Seq<char>>) -> Seq<char>
    decreases xs.len(),
{
    if xs.len() == 0 {
        Seq::empty()
    } else {
        each_line(lead, xs.drop_last()) + lead + xs.last() + "\n"@
    }
}

/// The results as character sequences.
pub open spec fn probe_views(ps: Seq<ProbeResult>) -> Seq<(u32, bool, u8, Seq<char>)> {
    ps.map_values(|p: ProbeResult| probe_view(p))
}

/// The summary record of a wizard run.
pub open spec fn summary_record(
    stamp: Seq<char>,
    mode: Seq<char>,
    note: Option<Seq<char>>,
    a: AnswersView,
    ps: Seq<(u32, bool, u8, Seq<char>)>,
) -> Seq<char> {
    field_line("timestamp"@, stamp) + field_line("mode"@, mode) + note_line(note) + link_lines(a) + field_line(
        "intent"@,
        crate::wizard::intent_name(a.intent),
    ) + choice_lines(a) + probe_lines("probe "@, ps) + "\n"@
}

/// The transcript record of a wizard run.
pub open spec fn transcript_record(
    stamp: Seq<char>,
    mode: Seq<char>,
    note: Option<Seq<char>>,
    prompts: Seq<Seq<char>>,
    a: AnswersView,
    candidates: Seq<Seq<char>>,
    ps: Seq<(u32, bool, u8, Seq<char>)>,
) -> Seq<char> {
    "=== lifelinetty wizard run ===\n"@ + field_line("timestamp"@, stamp) + field_line("mode"@, mode) + note_line(
        note,
    ) + field_line("intent"@, crate::wizard::intent_name(a.intent)) + link_lines(a) + choice_lines(a)
        + "candidates:\n"@ + (if candidates.len() == 0 {
        "  (none)\n"@
    } else {
        each_line("  - "@, candidates)
    }) + "prompts:\n"@ + each_line("  "@, prompts) + (if ps.len() == 0 {
        "probes: (skipped)\n"@
    } else {
        "probes:\n"@ + probe_lines("  - "@, ps)
    }) + "\n"@
}

fn bool_text(b: bool) -> (r: &'static str)
    ensures
        r@ == bool_name(b),
{
    if b {
        "true"
    } else {
        "false"
    }
}

fn put(out: &mut Vec<char>, s: &str)
    ensures
        final(out)@ == old(out)@ + s@,
{
    crate::text::extend_str(out, s);
}

fn put_chars(out: &mut Vec<char>, s: &[char])
    ensures
        final(out)@ == old(out)@ + s@,
{
    crate::text::extend_chars(out, s);
}

fn put_number(out: &mut Vec<char>, n: u32)
    ensures
        final(out)@ == old(out)@ + dec(n as nat),
{
    let d = crate::text::dec_chars(n as u64);
    crate::text::extend_chars(out, d.as_slice());
}

fn put_field(out: &mut Vec<char>, key: &str, value: &[char])
    ensures
        final(out)@ == old(out)@ + field_line(key@, value@),
{
    let ghost o = out@;
    put(out, key);
    put(out, ": ");
    put_chars(out, value);
    put(out, "\n");
    assert(out@ =~= o + field_line(key@, value@));
}

fn put_field_str(out: &mut Vec<char>, key: &str, value: &str)
    ensures
        final(out)@ == old(out)@ + field_line(key@, value@),
{
    let v = chars_of(value);
    put_field(out, key, v.as_slice());
}

fn put_field_number(out: &mut Vec<char>, key: &str, n: u32)
    ensures
        final(out)@ == old(out)@ + field_line(key@, dec(n as nat)),
{
    let d = crate::text::dec_chars(n as u64);
    put_field(out, key, d.as_slice());
}

fn put_note(out: &mut Vec<char>, note: Option<&str>)
    ensures
        final(out)@ == old(out)@ + note_line(
            match note {
                Some(n) => Some(n@),
                None => None,
            },
        ),
{
    match note {
        Some(n) => put_field_str(out, "mode_note", n),
        None => {
            assert(out@ + Seq::<char>::empty() =~= out@);
        },
    }
}

fn put_link_lines(out: &mut Vec<char>, a: &WizardAnswers)
    ensures
        final(out)@ == old(out)@ + link_lines(a@),
{
    let ghost o = out@;
    put_field_str(out, "device", a.device.as_str());
    put_field_number(out, "baud", a.baud);
    put_field_number(out, "cols", a.cols as u32);
    put_field_number(out, "rows", a.rows as u32);
    put_field_str(out, "lcd_present", bool_text(a.lcd_present));
    assert(out@ =~= o + link_lines(a@));
}

fn put_choice_lines(out: &mut Vec<char>, a: &WizardAnswers)
    ensures
        final(out)@ == old(out)@ + choice_lines(a@),
{
    let ghost o = out@;
    put_field_str(out, "preference", a.preference.as_str());
    put_field_str(out, "run_probe", bool_text(a.run_probe));
    put_field_str(out, "run_link_rehearsal", bool_text(a.run_link_rehearsal));
    put_field_str(out, "show_helpers", bool_text(a.show_helpers));
    assert(out@ =~= o + choice_lines(a@));
}

fn put_probe_lines(out: &mut Vec<char>, lead: &str, probes: &[ProbeResult])
    ensures
        final(out)@ == old(out)@ + probe_lines(lead@, probe_views(probes@)),
{
    let ghost o = out@;
    let ghost pv = probe_views(probes@);
    let mut i: usize = 0;
    assert(pv.take(0) =~= Seq::<(u32, bool, u8, Seq<char>)>::empty());
    assert(out@ =~= o + probe_lines(lead@, pv.take(0)));
    while i < probes.len()
        invariant
            i <= probes@.len(),
            pv == probe_views(probes@),
            out@ == o + probe_lines(lead@, pv.take(i as int)),
        decreases probes@.len() - i,
    {
        let p = &probes[i];
        let ghost before = out@;
        put(out, lead);
        put(out, "baud ");
        put_number(out, p.baud);
        put(out, ": ");
        put(out, if p.success {
            "ok"
        } else {
            "error"
        });
        put(out, " (attempts=");
        put_number(out, p.attempts as u32);
        put(out, " ");
        put(out, p.message.as_str());
        put(out, ")");
        put(out, "\n");
        proof {
            let t = probe_text(p.baud, p.success, p.attempts, p.message@);
            assert(pv.take(i + 1).drop_last() =~= pv.take(i as int));
            assert(pv[i as int] == probe_view(probes@[i as int]));
            assert(out@ =~= before + (lead@ + t + "\n"@));
            assert(out@ =~= o + probe_lines(lead@, pv.take(i + 1)));
        }
        i = i + 1;
    }
    assert(pv.take(probes@.len() as int) =~= pv);
}

fn put_each_line(out: &mut Vec<char>, lead: &str, xs: &Vec<String>)
    ensures
        final(out)@ == old(out)@ + each_line(lead@, xs@.map_values(|s: String| s@)),
{
    let ghost o = out@;
    let ghost xv = xs@.map_values(|s: String| s@);
    let mut i: usize = 0;
    assert(xv.take(0) =~= Seq::<Seq<char>>::empty());
    assert(out@ =~= o + each_line(lead@, xv.take(0)));
    while i < xs.len()
        invariant
            i <= xs@.len(),
            xv == xs@.map_values(|s: String| s@),
            out@ == o + each_line(lead@, xv.take(i as int)),
        decreases xs@.len() - i,
    {
        let ghost before = out@;
        put(out, lead);
        put(out, xs[i].as_str());
        put(out, "\n");
        proof {
            assert(xv.take(i + 1).drop_last() =~= xv.take(i as int));
            assert(out@ =~= before + (lead@ + xv[i as int] + "\n"@));
            assert(out@ =~= o + each_line(lead@, xv.take(i + 1)));
        }
        i = i + 1;
    }
    assert(xv.take(xs@.len() as int) =~= xv);
}

/// The summary record of a wizard run, stamped `stamp`.
pub fn summary_text(stamp: &str, mode: &str, note: Option<&str>, a: &WizardAnswers, probes: &[ProbeResult]) -> (r: String)
    ensures
        r@ == summary_record(
            stamp@,
            mode@,
            match note {
                Some(n) => Some(n@),
                None => None,
            },
            a@,
            probe_views(probes@),
        ),
{
    let mut out: Vec<char> = Vec::new();
    let ghost o = out@;
    put_field_str(&mut out, "timestamp", stamp);
    put_field_str(&mut out, "mode", mode);
    put_note(&mut out, note);
    put_link_lines(&mut out, a);
    put_field_str(&mut out, "intent", a.intent.as_str());
    put_choice_lines(&mut out, a);
    put_probe_lines(&mut out, "probe ", probes);
    put(&mut out, "\n");
    let ghost nv = match note {
        Some(n) => Some(n@),
        None => None,
    };
    assert(out@ =~= o + summary_record(stamp@, mode@, nv, a@, probe_views(probes@)));
    string_of(out.as_slice())
}

/// The transcript record of a wizard run, stamped `stamp`: the settings,
/// the devices that were offered, every question and answer, the probes.
pub fn transcript_text(
    stamp: &str,
    mode: &str,
    note: Option<&str>,
    prompts: &Vec<String>,
    a: &WizardAnswers,
    candidates: &Vec<String>,
    probes: &[ProbeResult],
) -> (r: String)
    ensures
        r@ == transcript_record(
            stamp@,
            mode@,
            match note {
                Some(n) => Some(n@),
                None => None,
            },
            prompts@.map_values(|s: String| s@),
            a@,
            candidates@.map_values(|s: String| s@),
            probe_views(probes@),
        ),
{
    let mut out: Vec<char> = Vec::new();
    let ghost o = out@;
    put(&mut out, "=== lifelinetty wizard run ===\n");
    put_field_str(&mut out, "timestamp", stamp);
    put_field_str(&mut out, "mode", mode);
    put_note(&mut out, note);
    put_field_str(&mut out, "intent", a.intent.as_str());
    put_link_lines(&mut out, a);
    put_choice_lines(&mut out, a);
    put(&mut out, "candidates:\n");
    if candidates.len() == 0 {
        put(&mut out, "  (none)\n");
    } else {
        put_each_line(&mut out, "  - ", candidates);
    }
    put(&mut out, "prompts:\n");
    put_each_line(&mut out, "  ", prompts);
    if probes.len() == 0 {
        put(&mut out, "probes: (skipped)\n");
    } else {
        let ghost before = out@;
        put(&mut out, "probes:\n");
        put_probe_lines(&mut out, "  - ", probes);
        assert(out@ =~= before + ("probes:\n"@ + probe_lines("  - "@, probe_views(probes@))));
    }
    put(&mut out, "\n");
    let ghost nv = match note {
        Some(n) => Some(n@),
        None => None,
    };
    assert(out@ =~= o + transcript_record(
        stamp@,
        mode@,
        nv,
        prompts@.map_values(|s: String| s@),
        a@,
        candidates@.map_values(|s: String| s@),
        probe_views(probes@),
    ));
    string_of(out.as_slice())
}


/// The wizard after `n` more questions, each answered with its default.
pub open spec fn after_defaults(f: FlowView, n: nat) -> FlowView
    decreases n,
{
    if n == 0 {
        f
    } else {
        match question_at(f) {
            Some((_q, d)) => after_defaults(answered(f, d).0, (n - 1) as nat),
            None => f,
        }
    }
}

proof fn lemma_trim_plain(s: Seq<char>)
    requires
        s.len() > 0,
        !crate::text::is_ws(s[0]),
        !crate::text::is_ws(s.last()),
    ensures
        trim(s) == s,
{
    crate::text::lemma_trim_start_skip(s, 0);
    assert(s.subrange(0, s.len() as int) =~= s);
    crate::text::lemma_trim_end_take(s, s.len() as int);
}

proof fn lemma_number_answer(n: nat, max: nat)
    requires
        n <= max,
    ensures
        trim(dec(n)) == dec(n),
        crate::text::parse_unsigned(trim(dec(n)), max) == Some(n),
{
    crate::text::lemma_dec_shape(n);
    assert(crate::text::is_digit(dec(n)[0]));
    assert(crate::text::is_digit(dec(n).last()));
    lemma_trim_plain(dec(n));
    crate::text::lemma_parse_dec(n, max);
}

proof fn lemma_plain_word(s: Seq<char>)
    requires
        s.len() > 0,
        forall|j: int| 0 <= j < s.len() ==> 'a' <= #[trigger] s[j] <= 'z',
    ensures
        trim(s) == s,
        ascii_lower(s) == s,
{
    lemma_trim_plain(s);
    assert(ascii_lower(s) =~= s);
}

proof fn lemma_intent_default(i: UsageIntent)
    ensures
        intent_answer(crate::wizard::intent_name(i), i) == Answer::Value(i),
{
    reveal_strlit("server");
    reveal_strlit("client");
    reveal_strlit("standalone");
    reveal_strlit("1");
    reveal_strlit("2");
    reveal_strlit("3");
    lemma_plain_word("server"@);
    lemma_plain_word("client"@);
    lemma_plain_word("standalone"@);
    assert("client"@ != "server"@) by {
        assert("client"@[0] != "server"@[0]);
    }
}

proof fn lemma_role_default(p: RolePreference)
    ensures
        role_answer(role_label(p)) == Answer::Value(p),
{
    reveal_strlit("server");
    reveal_strlit("client");
    reveal_strlit("standalone");
    reveal_strlit("1");
    reveal_strlit("2");
    reveal_strlit("3");
    lemma_plain_word("server"@);
    lemma_plain_word("client"@);
    lemma_plain_word("standalone"@);
    assert("client"@ != "server"@) by {
        assert("client"@[0] != "server"@[0]);
    }
}

proof fn lemma_yes_no_default(b: bool, default: bool)
    ensures
        yes_no_answer(yes_no_label(b), default) == Some(b),
{
    reveal_strlit("y");
    reveal_strlit("n");
    reveal_strlit("yes");
    reveal_strlit("no");
    lemma_plain_word("y"@);
    lemma_plain_word("n"@);
}

proof fn lemma_device_default(c: Seq<Seq<char>>, d: Seq<char>)
    requires
        crate::text::is_prefix("/dev/"@, d),
        trim(d) == d,
    ensures
        device_answer(d, c, d) == Some(Some(d)),
{
    reveal_strlit("/dev/");
    reveal_strlit("r");
    reveal_strlit("rescan");
    assert(d.subrange(0, 5) == "/dev/"@);
    assert(d[0] == d.subrange(0, 5)[0]);
    assert(d[0] == '/');
    assert(ascii_lower(d)[0] == '/');
    assert(ascii_lower(d) != "r"@);
    assert(ascii_lower(d) != "rescan"@);
    assert(!crate::text::is_digit(d[0]));
    assert(crate::text::unsigned_body(d) == d);
}

proof fn lemma_unfold_defaults(f: FlowView, d: Seq<char>, n: nat)
    requires
        question_at(f) matches Some((_q, x)) && x == d,
    ensures
        after_defaults(f, n + 1) == after_defaults(answered(f, d).0, n),
{
}

proof fn lemma_intent_step(f: FlowView)
    requires
        f.step == WizardStep::Intent,
    ensures
        question_at(f) matches Some((_q, x)) && x == crate::wizard::intent_name(f.default_intent),
        answered(f, crate::wizard::intent_name(f.default_intent)).0 == (FlowView {
            step: WizardStep::LcdPresence,
            answers: AnswersView { intent: f.default_intent, ..f.answers },
            ..f
        }),
{
    lemma_intent_default(f.default_intent);
}

proof fn lemma_lcd_step(f: FlowView)
    requires
        f.step == WizardStep::LcdPresence,
    ensures
        question_at(f) matches Some((_q, x)) && x == yes_no_label(f.default_lcd),
        answered(f, yes_no_label(f.default_lcd)).0 == (FlowView {
            step: WizardStep::Device,
            answers: AnswersView { lcd_present: f.default_lcd, ..f.answers },
            ..f
        }),
{
    lemma_yes_no_default(f.default_lcd, f.default_lcd);
}

proof fn lemma_device_step(f: FlowView)
    requires
        f.step == WizardStep::Device,
        !f.interactive,
        crate::text::is_prefix("/dev/"@, device_default(f.candidates)),
        trim(device_default(f.candidates)) == device_default(f.candidates),
    ensures
        question_at(f) matches Some((_q, x)) && x == device_default(f.candidates),
        answered(f, device_default(f.candidates)).0 == (FlowView {
            step: WizardStep::Baud,
            answers: AnswersView {
                device: device_default(f.candidates),
                run_link_rehearsal: false,
                ..f.answers
            },
            ..f
        }),
{
    lemma_device_default(f.candidates, device_default(f.candidates));
}

proof fn lemma_baud_step(f: FlowView)
    requires
        f.step == WizardStep::Baud,
    ensures
        question_at(f) matches Some((_q, x)) && x == dec(baud_default(f) as nat),
        answered(f, dec(baud_default(f) as nat)).0 == (FlowView {
            step: WizardStep::Probe,
            answers: AnswersView { baud: baud_default(f), ..f.answers },
            ..f
        }),
{
    lemma_number_answer(baud_default(f) as nat, 0xffff_ffff);
}

proof fn lemma_probe_step(f: FlowView)
    requires
        f.step == WizardStep::Probe,
        !f.interactive,
    ensures
        question_at(f) matches Some((_q, x)) && x == yes_no_label(false),
        answered(f, yes_no_label(false)).0 == after_link(
            FlowView { answers: AnswersView { run_probe: false, ..f.answers }, ..f },
        ),
{
    lemma_yes_no_default(false, false);
}

proof fn lemma_columns_step(f: FlowView)
    requires
        f.step == WizardStep::Columns,
        8 <= f.default_cols <= 40,
    ensures
        question_at(f) matches Some((_q, x)) && x == dec(f.default_cols as nat),
        answered(f, dec(f.default_cols as nat)).0 == (FlowView {
            step: WizardStep::Rows,
            answers: AnswersView { cols: f.default_cols, ..f.answers },
            ..f
        }),
{
    lemma_number_answer(f.default_cols as nat, 255);
}

proof fn lemma_rows_step(f: FlowView)
    requires
        f.step == WizardStep::Rows,
        1 <= f.default_rows <= 4,
    ensures
        question_at(f) matches Some((_q, x)) && x == dec(f.default_rows as nat),
        answered(f, dec(f.default_rows as nat)).0 == (FlowView {
            step: WizardStep::Role,
            answers: AnswersView { rows: f.default_rows, ..f.answers },
            ..f
        }),
{
    lemma_number_answer(f.default_rows as nat, 255);
}

proof fn lemma_role_step(f: FlowView)
    requires
        f.step == WizardStep::Role,
    ensures
        question_at(f) matches Some((_q, x)) && x == role_label(preference_of_intent(f.answers.intent)),
        answered(f, role_label(preference_of_intent(f.answers.intent))).0 == (FlowView {
            step: WizardStep::Helpers,
            answers: AnswersView { preference: preference_of_intent(f.answers.intent), ..f.answers },
            ..f
        }),
{
    lemma_role_default(preference_of_intent(f.answers.intent));
}

proof fn lemma_helpers_step(f: FlowView)
    requires
        f.step == WizardStep::Helpers,
        !f.interactive,
    ensures
        question_at(f) matches Some((_q, x)) && x == yes_no_label(false),
        answered(f, yes_no_label(false)).0 == (FlowView {
            step: WizardStep::Confirm,
            answers: AnswersView { show_helpers: false, ..f.answers },
            ..f
        }),
{
    lemma_yes_no_default(false, false);
}

proof fn lemma_confirm_step(f: FlowView)
    requires
        f.step == WizardStep::Confirm,
    ensures
        question_at(f) matches Some((_q, x)) && x == yes_no_label(true),
        answered(f, yes_no_label(true)).0 == (FlowView { step: WizardStep::Saved, ..f }),
{
    reveal_strlit("y");
    lemma_yes_no_default(true, true);
}

/// With nobody to answer (every question taking its default), the wizard
/// runs to the end and saves the defaults: the offered device, the
/// configured baud rate (at least 9600), the display's size (two rows when
/// there is no display), the configured intent and its role, and no probe,
/// rehearsal or helper snippets. It needs a display width and height the
/// questions accept and a first offered device that is a `/dev/` path.
#[verifier::spinoff_prover]
#[verifier::rlimit(50)]
pub proof fn lemma_defaults_complete(f: FlowView)
    requires
        f.step == WizardStep::Intent,
        !f.interactive,
        8 <= f.default_cols <= 40,
        1 <= f.default_rows <= 4,
        crate::text::is_prefix("/dev/"@, device_default(f.candidates)),
        trim(device_default(f.candidates)) == device_default(f.candidates),
    ensures
        after_defaults(f, 10).step == WizardStep::Saved,
        after_defaults(f, 10).answers == (AnswersView {
            device: device_default(f.candidates),
            baud: baud_default(f),
            cols: f.default_cols,
            rows: if f.default_lcd {
                f.default_rows
            } else {
                2
            },
            preference: preference_of_intent(f.default_intent),
            lcd_present: f.default_lcd,
            intent: f.default_intent,
            run_probe: false,
            run_link_rehearsal: false,
            show_helpers: false,
        }),
{
    lemma_intent_step(f);
    let f1 = answered(f, crate::wizard::intent_name(f.default_intent)).0;
    lemma_unfold_defaults(f, crate::wizard::intent_name(f.default_intent), 9);
    lemma_lcd_step(f1);
    let f2 = answered(f1, yes_no_label(f.default_lcd)).0;
    lemma_unfold_defaults(f1, yes_no_label(f.default_lcd), 8);
    lemma_device_step(f2);
    let f3 = answered(f2, device_default(f.candidates)).0;
    lemma_unfold_defaults(f2, device_default(f.candidates), 7);
    lemma_baud_step(f3);
    let f4 = answered(f3, dec(baud_default(f) as nat)).0;
    lemma_unfold_defaults(f3, dec(baud_default(f) as nat), 6);
    lemma_probe_step(f4);
    let f5 = answered(f4, yes_no_label(false)).0;
    lemma_unfold_defaults(f4, yes_no_label(false), 5);
    if f.default_lcd {
        lemma_columns_step(f5);
        let f6 = answered(f5, dec(f.default_cols as nat)).0;
        lemma_unfold_defaults(f5, dec(f.default_cols as nat), 4);
        lemma_rows_step(f6);
        let f7 = answered(f6, dec(f.default_rows as nat)).0;
        lemma_unfold_defaults(f6, dec(f.default_rows as nat), 3);
        lemma_role_step(f7);
        let f8 = answered(f7, role_label(preference_of_intent(f.default_intent))).0;
        lemma_unfold_defaults(f7, role_label(preference_of_intent(f.default_intent)), 2);
        lemma_helpers_step(f8);
        let f9 = answered(f8, yes_no_label(false)).0;
        lemma_unfold_defaults(f8, yes_no_label(false), 1);
        lemma_confirm_step(f9);
        let f10 = answered(f9, yes_no_label(true)).0;
        lemma_unfold_defaults(f9, yes_no_label(true), 0);
    } else {
        lemma_role_step(f5);
        let f6 = answered(f5, role_label(preference_of_intent(f.default_intent))).0;
        lemma_unfold_defaults(f5, role_label(preference_of_intent(f.default_intent)), 4);
        lemma_helpers_step(f6);
        let f7 = answered(f6, yes_no_label(false)).0;
        lemma_unfold_defaults(f6, yes_no_label(false), 3);
        lemma_confirm_step(f7);
        let f8 = answered(f7, yes_no_label(true)).0;
        lemma_unfold_defaults(f7, yes_no_label(true), 2);
        assert(question_at(f8) is None);
        assert(after_defaults(f8, 2) == f8);
    }
}

/// An answer the wizard refuses, or a request for a new scan, leaves the
/// wizard as it was: the same question comes again.
pub proof fn lemma_refused_answer_changes_nothing(f: FlowView, response: Seq<char>)
    requires
        !(answered(f, response).1 is Accepted),
    ensures
        answered(f, response).0 == f,
{
}


} // verus!
