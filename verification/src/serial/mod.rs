//! Serial link settings, failure classification and line framing.
use vstd::prelude::*;
use vstd::string::StringExecFns;

use crate::text::{ascii_lower, ascii_lower_vec, chars_of, eq_str, string_of};

pub mod errors;
pub mod fake;
pub mod line;

pub use errors::{classify_error, classify_io_error, SerialFailureKind};

verus! {

/// Flow control behavior applied to the UART link.
#[derive(Debug, Clone, Copy, PartialEq, Eq, Structural)]
pub enum FlowControlMode {
    /// Do not use any flow control toggles (`none`).
    NoFlowControl,
    /// Use XON/XOFF software bytes.
    Software,
    /// Use RTS/CTS hardware pins.
    Hardware,
}

/// Parity settings for the UART link.
#[derive(Debug, Clone, Copy, PartialEq, Eq, Structural)]
pub enum ParityMode {
    /// No parity bit (`none`).
    NoParity,
    Odd,
    Even,
}

/// Number of stop bits appended to each frame.
#[derive(Debug, Clone, Copy, PartialEq, Eq, Structural)]
pub enum StopBitsMode {
    One,
    Two,
}

/// Whether to toggle DTR when opening the port.
#[derive(Debug, Clone, Copy, PartialEq, Eq, Structural)]
pub enum DtrBehavior {
    /// Leave the driver behavior unchanged (default).
    Preserve,
    /// Force DTR high when opening.
    Assert,
    /// Force DTR low when opening.
    Deassert,
}

pub open spec fn flow_control_from(s: Seq<char>) -> Option<FlowControlMode> {
    let l = ascii_lower(s);
    if l == "none"@ {
        Some(FlowControlMode::NoFlowControl)
    } else if l == "software"@ || l == "xonxoff"@ || l == "xon"@ || l == "xoff"@ {
        Some(FlowControlMode::Software)
    } else if l == "hardware"@ || l == "rtscts"@ {
        Some(FlowControlMode::Hardware)
    } else {
        None
    }
}

pub open spec fn parity_from(s: Seq<char>) -> Option<ParityMode> {
    let l = ascii_lower(s);
    if l == "none"@ {
        Some(ParityMode::NoParity)
    } else if l == "odd"@ {
        Some(ParityMode::Odd)
    } else if l == "even"@ {
        Some(ParityMode::Even)
    } else {
        None
    }
}

/// Stop bits are matched case-sensitively.
pub open spec fn stop_bits_from(s: Seq<char>) -> Option<StopBitsMode> {
    if s == "1"@ || s == "one"@ {
        Some(StopBitsMode::One)
    } else if s == "2"@ || s == "two"@ {
        Some(StopBitsMode::Two)
    } else {
        None
    }
}

pub open spec fn dtr_from(s: Seq<char>) -> Option<DtrBehavior> {
    let l = ascii_lower(s);
    if l == "preserve"@ || l == "auto"@ {
        Some(DtrBehavior::Preserve)
    } else if l == "assert"@ || l == "on"@ || l == "high"@ {
        Some(DtrBehavior::Assert)
    } else if l == "deassert"@ || l == "off"@ || l == "low"@ {
        Some(DtrBehavior::Deassert)
    } else {
        None
    }
}

pub open spec fn flow_control_error(s: Seq<char>) -> Seq<char> {
    "invalid flow control '"@ + ascii_lower(s) + "', expected none|software|hardware"@
}

pub open spec fn parity_error(s: Seq<char>) -> Seq<char> {
    "invalid parity '"@ + ascii_lower(s) + "', expected none|odd|even"@
}

pub open spec fn stop_bits_error(s: Seq<char>) -> Seq<char> {
    "invalid stop bits '"@ + s + "', expected 1|2"@
}

pub open spec fn dtr_error(s: Seq<char>) -> Seq<char> {
    "invalid dtr behavior '"@ + ascii_lower(s) + "', expected auto|on|off"@
}

pub open spec fn flow_control_name(m: FlowControlMode) -> Seq<char> {
    match m {
        FlowControlMode::NoFlowControl => "none"@,
        FlowControlMode::Software => "software"@,
        FlowControlMode::Hardware => "hardware"@,
    }
}

pub open spec fn parity_name(m: ParityMode) -> Seq<char> {
    match m {
        ParityMode::NoParity => "none"@,
        ParityMode::Odd => "odd"@,
        ParityMode::Even => "even"@,
    }
}

pub open spec fn stop_bits_name(m: StopBitsMode) -> Seq<char> {
    match m {
        StopBitsMode::One => "1"@,
        StopBitsMode::Two => "2"@,
    }
}

pub open spec fn dtr_name(m: DtrBehavior) -> Seq<char> {
    match m {
        DtrBehavior::Preserve => "preserve"@,
        DtrBehavior::Assert => "on"@,
        DtrBehavior::Deassert => "off"@,
    }
}

impl FlowControlMode {
    /// `FromStr`: case-insensitive names and their aliases.
    pub fn parse(s: &str) -> (r: core::result::Result<FlowControlMode, String>)
        ensures
            match r {
                Ok(m) => flow_control_from(s@) == Some(m),
                Err(e) => flow_control_from(s@) is None && e@ == flow_control_error(s@),
            },
    {
        let l = ascii_lower_vec(chars_of(s).as_slice());
        let ls = l.as_slice();
        if eq_str(ls, "none") {
            Ok(FlowControlMode::NoFlowControl)
        } else if eq_str(ls, "software") || eq_str(ls, "xonxoff") || eq_str(ls, "xon") || eq_str(
            ls,
            "xoff",
        ) {
            Ok(FlowControlMode::Software)
        } else if eq_str(ls, "hardware") || eq_str(ls, "rtscts") {
            Ok(FlowControlMode::Hardware)
        } else {
            let mut e = String::from_str("invalid flow control '");
            let lw = string_of(ls);
            e.append(lw.as_str());
            e.append("', expected none|software|hardware");
            Err(e)
        }
    }

    /// The name that `Display` prints.
    pub fn as_str(&self) -> (r: &'static str)
        ensures
            r@ == flow_control_name(*self),
    {
        match self {
            FlowControlMode::NoFlowControl => "none",
            FlowControlMode::Software => "software",
            FlowControlMode::Hardware => "hardware",
        }
    }
}

impl ParityMode {
    /// `FromStr`: case-insensitive `none`, `odd` or `even`.
    pub fn parse(s: &str) -> (r: core::result::Result<ParityMode, String>)
        ensures
            match r {
                Ok(m) => parity_from(s@) == Some(m),
                Err(e) => parity_from(s@) is None && e@ == parity_error(s@),
            },
    {
        let l = ascii_lower_vec(chars_of(s).as_slice());
        let ls = l.as_slice();
        if eq_str(ls, "none") {
            Ok(ParityMode::NoParity)
        } else if eq_str(ls, "odd") {
            Ok(ParityMode::Odd)
        } else if eq_str(ls, "even") {
            Ok(ParityMode::Even)
        } else {
            let mut e = String::from_str("invalid parity '");
            let lw = string_of(ls);
            e.append(lw.as_str());
            e.append("', expected none|odd|even");
            Err(e)
        }
    }

    pub fn as_str(&self) -> (r: &'static str)
        ensures
            r@ == parity_name(*self),
    {
        match self {
            ParityMode::NoParity => "none",
            ParityMode::Odd => "odd",
            ParityMode::Even => "even",
        }
    }
}

impl StopBitsMode {
    /// `FromStr`: `1`/`one` or `2`/`two`.
    pub fn parse(s: &str) -> (r: core::result::Result<StopBitsMode, String>)
        ensures
            match r {
                Ok(m) => stop_bits_from(s@) == Some(m),
                Err(e) => stop_bits_from(s@) is None && e@ == stop_bits_error(s@),
            },
    {
        let v = chars_of(s);
        let vs = v.as_slice();
        if eq_str(vs, "1") || eq_str(vs, "one") {
            Ok(StopBitsMode::One)
        } else if eq_str(vs, "2") || eq_str(vs, "two") {
            Ok(StopBitsMode::Two)
        } else {
            let mut e = String::from_str("invalid stop bits '");
            e.append(s);
            e.append("', expected 1|2");
            Err(e)
        }
    }

    pub fn as_str(&self) -> (r: &'static str)
        ensures
            r@ == stop_bits_name(*self),
    {
        match self {
            StopBitsMode::One => "1",
            StopBitsMode::Two => "2",
        }
    }
}

impl DtrBehavior {
    /// `FromStr`: case-insensitive `auto|on|off` and their aliases.
    pub fn parse(s: &str) -> (r: core::result::Result<DtrBehavior, String>)
        ensures
            match r {
                Ok(m) => dtr_from(s@) == Some(m),
                Err(e) => dtr_from(s@) is None && e@ == dtr_error(s@),
            },
    {
        let l = ascii_lower_vec(chars_of(s).as_slice());
        let ls = l.as_slice();
        if eq_str(ls, "preserve") || eq_str(ls, "auto") {
            Ok(DtrBehavior::Preserve)
        } else if eq_str(ls, "assert") || eq_str(ls, "on") || eq_str(ls, "high") {
            Ok(DtrBehavior::Assert)
        } else if eq_str(ls, "deassert") || eq_str(ls, "off") || eq_str(ls, "low") {
            Ok(DtrBehavior::Deassert)
        } else {
            let mut e = String::from_str("invalid dtr behavior '");
            let lw = string_of(ls);
            e.append(lw.as_str());
            e.append("', expected auto|on|off");
            Err(e)
        }
    }

    pub fn as_str(&self) -> (r: &'static str)
        ensures
            r@ == dtr_name(*self),
    {
        match self {
            DtrBehavior::Preserve => "preserve",
            DtrBehavior::Assert => "on",
            DtrBehavior::Deassert => "off",
        }
    }
}

impl Default for FlowControlMode {
    fn default() -> (r: Self)
        ensures
            r == FlowControlMode::NoFlowControl,
    {
        FlowControlMode::NoFlowControl
    }
}

impl Default for ParityMode {
    fn default() -> (r: Self)
        ensures
            r == ParityMode::NoParity,
    {
        ParityMode::NoParity
    }
}

impl Default for StopBitsMode {
    fn default() -> (r: Self)
        ensures
            r == StopBitsMode::One,
    {
        StopBitsMode::One
    }
}

impl Default for DtrBehavior {
    fn default() -> (r: Self)
        ensures
            r == DtrBehavior::Preserve,
    {
        DtrBehavior::Preserve
    }
}

/// Collection of serial link settings applied whenever a port is opened.
#[derive(Debug, Clone, Copy, PartialEq, Eq, Structural)]
pub struct SerialOptions {
    pub baud: u32,
    pub timeout_ms: u64,
    pub flow_control: FlowControlMode,
    pub parity: ParityMode,
    pub stop_bits: StopBitsMode,
    pub dtr: DtrBehavior,
}

pub open spec fn default_serial_options() -> SerialOptions {
    SerialOptions {
        baud: 9_600,
        timeout_ms: 500,
        flow_control: FlowControlMode::NoFlowControl,
        parity: ParityMode::NoParity,
        stop_bits: StopBitsMode::One,
        dtr: DtrBehavior::Preserve,
    }
}

impl Default for SerialOptions {
    fn default() -> (r: Self)
        ensures
            r == default_serial_options(),
    {
        SerialOptions {
            baud: 9_600,
            timeout_ms: 500,
            flow_control: FlowControlMode::NoFlowControl,
            parity: ParityMode::NoParity,
            stop_bits: StopBitsMode::One,
            dtr: DtrBehavior::Preserve,
        }
    }
}

impl SerialOptions {
    /// Defaults with the given baud rate.
    pub fn new(baud: u32) -> (r: Self)
        ensures
            r == (SerialOptions { baud, ..default_serial_options() }),
    {
        SerialOptions { baud, ..Self::default() }
    }
}

/// The DTR level to force when opening a port, if any.
pub fn desired_dtr(mode: DtrBehavior) -> (r: Option<bool>)
    ensures
        r == match mode {
            DtrBehavior::Preserve => None::<bool>,
            DtrBehavior::Assert => Some(true),
            DtrBehavior::Deassert => Some(false),
        },
{
    match mode {
        DtrBehavior::Preserve => None,
        DtrBehavior::Assert => Some(true),
        DtrBehavior::Deassert => Some(false),
    }
}

/// Line-oriented transport used by the handshake and the serial shell.
pub trait LineIo {
    fn send_command_line(&mut self, line: &str) -> crate::Result<()>;

    fn read_message_line(&mut self, buf: &mut String) -> crate::Result<usize>;
}

/// Refuses a blank device path before a port is opened.
pub fn check_device_path(device: &str) -> (r: crate::Result<()>)
    ensures
        crate::text::trim(device@).len() == 0 ==> (r matches Err(crate::Error::InvalidArgs(m)) && m@
            == "device path cannot be empty"@),
        crate::text::trim(device@).len() > 0 ==> r is Ok,
{
    let t = crate::text::trim_vec(crate::text::chars_of(device).as_slice());
    if t.len() == 0 {
        Err(crate::Error::InvalidArgs(String::from_str("device path cannot be empty")))
    } else {
        Ok(())
    }
}


} // verus!
