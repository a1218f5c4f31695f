//! The daemon's settings, merged from the configuration file and the command
//! line, and the small vocabularies its logging uses.
use vstd::prelude::*;
use vstd::string::StringExecFns;
use crate::cli::RunOptions;
use crate::config::{Config, Pcf8574Addr};
use crate::text::{ascii_lower, ascii_lower_vec, chars_of, eq_str};

verus! {

/// Log verbosity levels, least verbose first.
#[derive(Debug, Clone, Copy, PartialEq, Eq, PartialOrd, Ord, Hash, Structural)]
pub enum LogLevel {
    Error,
    Warn,
    Info,
    Debug,
    Trace,
}

/// The rank of a level: `Error` 0 up to `Trace` 4.
pub open spec fn level_rank(l: LogLevel) -> nat {
    match l {
        LogLevel::Error => 0,
        LogLevel::Warn => 1,
        LogLevel::Info => 2,
        LogLevel::Debug => 3,
        LogLevel::Trace => 4,
    }
}

/// The level a name selects, in any case (`warning` is `Warn`).
pub open spec fn level_from_name(s: Seq<char>) -> Option<LogLevel> {
    let l = ascii_lower(s);
    if l == "error"@ {
        Some(LogLevel::Error)
    } else if l == "warn"@ || l == "warning"@ {
        Some(LogLevel::Warn)
    } else if l == "info"@ {
        Some(LogLevel::Info)
    } else if l == "debug"@ {
        Some(LogLevel::Debug)
    } else if l == "trace"@ {
        Some(LogLevel::Trace)
    } else {
        None
    }
}

impl LogLevel {
    /// The level a name selects.
    pub fn parse(s: &str) -> (r: Option<LogLevel>)
        ensures
            r == level_from_name(s@),
    {
        let l = ascii_lower_vec(chars_of(s).as_slice());
        let ls = l.as_slice();
        if eq_str(ls, "error") {
            Some(LogLevel::Error)
        } else if eq_str(ls, "warn") || eq_str(ls, "warning") {
            Some(LogLevel::Warn)
        } else if eq_str(ls, "info") {
            Some(LogLevel::Info)
        } else if eq_str(ls, "debug") {
            Some(LogLevel::Debug)
        } else if eq_str(ls, "trace") {
            Some(LogLevel::Trace)
        } else {
            None
        }
    }

    /// The level's rank, `Error` 0 up to `Trace` 4.
    pub fn rank(&self) -> (r: u8)
        ensures
            r as nat == level_rank(*self),
    {
        match self {
            LogLevel::Error => 0,
            LogLevel::Warn => 1,
            LogLevel::Info => 2,
            LogLevel::Debug => 3,
            LogLevel::Trace => 4,
        }
    }

    /// Whether a message at level `msg` is shown when logging at `self`.
    pub fn allows(&self, msg: LogLevel) -> (r: bool)
        ensures
            r == (level_rank(msg) <= level_rank(*self)),
    {
        msg.rank() <= self.rank()
    }

    /// The level's name, in capitals.
    pub fn label(&self) -> (r: &'static str)
        ensures
            r@ == level_label(*self),
    {
        match self {
            LogLevel::Error => "ERROR",
            LogLevel::Warn => "WARN",
            LogLevel::Info => "INFO",
            LogLevel::Debug => "DEBUG",
            LogLevel::Trace => "TRACE",
        }
    }
}

pub open spec fn level_label(l: LogLevel) -> Seq<char> {
    match l {
        LogLevel::Error => "ERROR"@,
        LogLevel::Warn => "WARN"@,
        LogLevel::Info => "INFO"@,
        LogLevel::Debug => "DEBUG"@,
        LogLevel::Trace => "TRACE"@,
    }
}

impl Default for LogLevel {
    fn default() -> (r: LogLevel)
        ensures
            r == LogLevel::Info,
    {
        LogLevel::Info
    }
}

/// Phases of a serial reconnect attempt.
#[derive(Debug, Clone, Copy, PartialEq, Eq, Structural)]
pub enum BackoffPhase {
    Attempt,
    Success,
    Failure,
}

impl BackoffPhase {
    /// The phase's name as logged.
    pub fn as_str(&self) -> (r: &'static str)
        ensures
            r@ == match *self {
                BackoffPhase::Attempt => "attempt"@,
                BackoffPhase::Success => "success"@,
                BackoffPhase::Failure => "failure"@,
            },
    {
        match self {
            BackoffPhase::Attempt => "attempt",
            BackoffPhase::Success => "success",
            BackoffPhase::Failure => "failure",
        }
    }
}

/// Settings of the daemon.
#[derive(Debug, Clone, PartialEq, Eq)]
pub struct AppConfig {
    pub device: String,
    pub baud: u32,
    pub cols: u8,
    pub rows: u8,
    pub scroll_speed_ms: u64,
    pub page_timeout_ms: u64,
    pub button_gpio_pin: Option<u8>,
    pub payload_file: Option<String>,
    pub backoff_initial_ms: u64,
    pub backoff_max_ms: u64,
    pub pcf8574_addr: Pcf8574Addr,
    pub log_level: LogLevel,
    pub log_file: Option<String>,
    pub demo: bool,
}

/// The model of the daemon's settings.
pub struct AppConfigView {
    pub device: Seq<char>,
    pub baud: u32,
    pub cols: u8,
    pub rows: u8,
    pub scroll_speed_ms: u64,
    pub page_timeout_ms: u64,
    pub button_gpio_pin: Option<u8>,
    pub payload_file: Option<Seq<char>>,
    pub backoff_initial_ms: u64,
    pub backoff_max_ms: u64,
    pub pcf8574_addr: Pcf8574Addr,
    pub log_level: LogLevel,
    pub log_file: Option<Seq<char>>,
    pub demo: bool,
}

impl View for AppConfig {
    type V = AppConfigView;

    open spec fn view(&self) -> AppConfigView {
        AppConfigView {
            device: self.device@,
            baud: self.baud,
            cols: self.cols,
            rows: self.rows,
            scroll_speed_ms: self.scroll_speed_ms,
            page_timeout_ms: self.page_timeout_ms,
            button_gpio_pin: self.button_gpio_pin,
            payload_file: crate::payload::opt_text(self.payload_file),
            backoff_initial_ms: self.backoff_initial_ms,
            backoff_max_ms: self.backoff_max_ms,
            pcf8574_addr: self.pcf8574_addr,
            log_level: self.log_level,
            log_file: crate::payload::opt_text(self.log_file),
            demo: self.demo,
        }
    }
}

/// The settings the command line and the configuration file give together:
/// each option given on the command line wins over the file; the scroll and
/// page timing and the button pin come from the file; a log level name that
/// is missing or unknown means `Info`.
pub open spec fn merged_settings(config: Config, opts: RunOptions) -> AppConfigView {
    AppConfigView {
        device: match opts.device {
            Some(d) => d@,
            None => config.device@,
        },
        baud: match opts.baud {
            Some(b) => b,
            None => config.baud,
        },
        cols: match opts.cols {
            Some(c) => c,
            None => config.cols,
        },
        rows: match opts.rows {
            Some(r) => r,
            None => config.rows,
        },
        scroll_speed_ms: config.scroll_speed_ms,
        page_timeout_ms: config.page_timeout_ms,
        button_gpio_pin: config.button_gpio_pin,
        payload_file: crate::payload::opt_text(opts.payload_file),
        backoff_initial_ms: match opts.backoff_initial_ms {
            Some(v) => v,
            None => config.backoff_initial_ms,
        },
        backoff_max_ms: match opts.backoff_max_ms {
            Some(v) => v,
            None => config.backoff_max_ms,
        },
        pcf8574_addr: match opts.pcf8574_addr {
            Some(a) => a,
            None => config.pcf8574_addr,
        },
        log_level: match opts.log_level {
            Some(s) => match level_from_name(s@) {
                Some(l) => l,
                None => LogLevel::Info,
            },
            None => LogLevel::Info,
        },
        log_file: crate::payload::opt_text(opts.log_file),
        demo: opts.demo,
    }
}

/// Every option given on the command line wins over the file, and the file
/// fills in each one left out: device, baud, columns, rows, backoff and
/// PCF8574 address; the payload file, log file and demo switch come from
/// the command line alone, and a known log level name given there is the
/// level.
pub proof fn lemma_command_line_wins(config: Config, opts: RunOptions)
    ensures
        ({
            let m = merged_settings(config, opts);
            &&& opts.device matches Some(d) ==> m.device == d@
            &&& opts.device is None ==> m.device == config.device@
            &&& opts.baud matches Some(b) ==> m.baud == b
            &&& opts.baud is None ==> m.baud == config.baud
            &&& opts.cols matches Some(c) ==> m.cols == c
            &&& opts.cols is None ==> m.cols == config.cols
            &&& opts.rows matches Some(r) ==> m.rows == r
            &&& opts.rows is None ==> m.rows == config.rows
            &&& opts.backoff_initial_ms matches Some(v) ==> m.backoff_initial_ms == v
            &&& opts.backoff_initial_ms is None ==> m.backoff_initial_ms == config.backoff_initial_ms
            &&& opts.backoff_max_ms matches Some(v) ==> m.backoff_max_ms == v
            &&& opts.backoff_max_ms is None ==> m.backoff_max_ms == config.backoff_max_ms
            &&& opts.pcf8574_addr matches Some(a) ==> m.pcf8574_addr == a
            &&& opts.pcf8574_addr is None ==> m.pcf8574_addr == config.pcf8574_addr
            &&& m.scroll_speed_ms == config.scroll_speed_ms
            &&& m.page_timeout_ms == config.page_timeout_ms
            &&& m.button_gpio_pin == config.button_gpio_pin
            &&& m.payload_file == crate::payload::opt_text(opts.payload_file)
            &&& m.log_file == crate::payload::opt_text(opts.log_file)
            &&& m.demo == opts.demo
            &&& opts.log_level matches Some(s) ==> (level_from_name(s@) matches Some(l) ==> m.log_level == l)
            &&& opts.log_level is None ==> m.log_level == LogLevel::Info
        }),
{
}

impl AppConfig {
    /// Merges the configuration file and the command line.
    pub fn from_sources(config: Config, opts: RunOptions) -> (r: AppConfig)
        ensures
            r@ == merged_settings(config, opts),
    {
        let log_level = match &opts.log_level {
            Some(s) => match LogLevel::parse(s.as_str()) {
                Some(l) => l,
                None => LogLevel::Info,
            },
            None => LogLevel::Info,
        };
        AppConfig {
            device: match opts.device {
                Some(d) => d,
                None => config.device,
            },
            baud: match opts.baud {
                Some(b) => b,
                None => config.baud,
            },
            cols: match opts.cols {
                Some(c) => c,
                None => config.cols,
            },
            rows: match opts.rows {
                Some(r) => r,
                None => config.rows,
            },
            scroll_speed_ms: config.scroll_speed_ms,
            page_timeout_ms: config.page_timeout_ms,
            button_gpio_pin: config.button_gpio_pin,
            payload_file: opts.payload_file,
            backoff_initial_ms: match opts.backoff_initial_ms {
                Some(v) => v,
                None => config.backoff_initial_ms,
            },
            backoff_max_ms: match opts.backoff_max_ms {
                Some(v) => v,
                None => config.backoff_max_ms,
            },
            pcf8574_addr: match opts.pcf8574_addr {
                Some(a) => a,
                None => config.pcf8574_addr,
            },
            log_level,
            log_file: opts.log_file,
            demo: opts.demo,
        }
    }
}

/// The serial shell in its preview form.
pub struct ShellContext;

impl ShellContext {
    /// A preview shell context.
    pub fn preview() -> (r: ShellContext) {
        ShellContext
    }
}

/// The log file asked for: the one named on the command line, else the one
/// from the environment.
pub open spec fn log_path_asked(flag: Option<Seq<char>>, env: Option<Seq<char>>) -> Option<Seq<char>> {
    match flag {
        Some(p) => Some(p),
        None => env,
    }
}

/// Where the log is written: the path asked for, placed under the cache
/// directory when relative; `None` when none is asked for; an error when
/// the path lies outside the cache directory.
pub fn log_file_path(flag: Option<&str>, env: Option<&str>) -> (r: crate::Result<Option<String>>)
    ensures
        match log_path_asked(
            match flag {
                Some(p) => Some(p@),
                None => None,
            },
            match env {
                Some(p) => Some(p@),
                None => None,
            },
        ) {
            None => r matches Ok(None),
            Some(p) => if crate::payload::command::under_cache_dir(crate::cache_placement(p)) {
                r matches Ok(Some(x)) && x@ == crate::cache_placement(p)
            } else {
                r matches Err(crate::Error::InvalidArgs(m)) && m@ == "log file must live under /run/serial_lcd_cache: "@
                    + crate::cache_placement(p)
            },
        },
{
    let asked = match flag {
        Some(p) => Some(p),
        None => env,
    };
    match asked {
        None => Ok(None),
        Some(p) => {
            let placed = crate::cache_path_for(p);
            if crate::payload::command::is_under_cache_dir(placed.as_str()) {
                Ok(Some(placed))
            } else {
                Err(crate::Error::InvalidArgs(crate::concat2("log file must live under /run/serial_lcd_cache: ", placed.as_str())))
            }
        },
    }
}


/// The serial settings of the link: each one given on the command line wins
/// over the configuration file.
pub open spec fn link_settings(config: crate::config::ConfigView, opts: RunOptions) -> crate::serial::SerialOptions {
    crate::serial::SerialOptions {
        baud: match opts.baud {
            Some(b) => b,
            None => config.baud,
        },
        timeout_ms: match opts.serial_timeout_ms {
            Some(t) => t,
            None => config.serial_timeout_ms,
        },
        flow_control: match opts.flow_control {
            Some(m) => m,
            None => config.flow_control,
        },
        parity: match opts.parity {
            Some(m) => m,
            None => config.parity,
        },
        stop_bits: match opts.stop_bits {
            Some(m) => m,
            None => config.stop_bits,
        },
        dtr: match opts.dtr_on_open {
            Some(m) => m,
            None => config.dtr_on_open,
        },
    }
}

/// The serial settings of the link, from the configuration and the command
/// line.
pub fn link_options(config: &Config, opts: &RunOptions) -> (r: crate::serial::SerialOptions)
    ensures
        r == link_settings(config@, *opts),
{
    crate::serial::SerialOptions {
        baud: match opts.baud {
            Some(b) => b,
            None => config.baud,
        },
        timeout_ms: match opts.serial_timeout_ms {
            Some(t) => t,
            None => config.serial_timeout_ms,
        },
        flow_control: match opts.flow_control {
            Some(m) => m,
            None => config.flow_control,
        },
        parity: match opts.parity {
            Some(m) => m,
            None => config.parity,
        },
        stop_bits: match opts.stop_bits {
            Some(m) => m,
            None => config.stop_bits,
        },
        dtr: match opts.dtr_on_open {
            Some(m) => m,
            None => config.dtr_on_open,
        },
    }
}


} // verus!
