//! Command-line parsing.
use vstd::prelude::*;
use vstd::string::StringExecFns;

use crate::compression::{codec_from_name, CompressionCodec};
use crate::config::{parse_pcf_addr, pcf_addr_from, Pcf8574Addr};
use crate::serial::{
    dtr_error, dtr_from, flow_control_error, flow_control_from, parity_error, parity_from,
    stop_bits_error, stop_bits_from, DtrBehavior, FlowControlMode,
    ParityMode, StopBitsMode,
};
use crate::text::{chars_of, eq_str, parse_unsigned, parse_unsigned_chars, string_of};
use crate::{Error, Result};

verus! {

/// A parse outcome whose error is the text of an `InvalidArgs` message.
pub type Outcome<T> = core::result::Result<T, Seq<char>>;

/// Entry mode for the `run` command.
#[derive(Debug, Clone, Copy, PartialEq, Eq, Structural)]
pub enum RunMode {
    /// Default daemon path that renders onto the LCD.
    Daemon,
    /// Interactive shell over the command tunnel.
    SerialShell,
}

impl Default for RunMode {
    fn default() -> (r: Self)
        ensures
            r == RunMode::Daemon,
    {
        RunMode::Daemon
    }
}

/// Options for the `run` command; values are `None` when not given.
#[derive(Debug, Clone, PartialEq, Eq)]
pub struct RunOptions {
    pub mode: RunMode,
    pub device: Option<String>,
    pub baud: Option<u32>,
    pub flow_control: Option<FlowControlMode>,
    pub parity: Option<ParityMode>,
    pub stop_bits: Option<StopBitsMode>,
    pub dtr_on_open: Option<DtrBehavior>,
    pub serial_timeout_ms: Option<u64>,
    pub cols: Option<u8>,
    pub rows: Option<u8>,
    pub payload_file: Option<String>,
    pub backoff_initial_ms: Option<u64>,
    pub backoff_max_ms: Option<u64>,
    pub pcf8574_addr: Option<Pcf8574Addr>,
    pub log_level: Option<String>,
    pub log_file: Option<String>,
    pub compression_enabled: Option<bool>,
    pub compression_codec: Option<CompressionCodec>,
    pub demo: bool,
    pub polling_enabled: Option<bool>,
    pub poll_interval_ms: Option<u64>,
    pub config_file: Option<String>,
    pub wizard: bool,
}

/// `RunOptions` with its strings taken as character sequences.
pub struct RunOptionsView {
    pub mode: RunMode,
    pub device: Option<Seq<char>>,
    pub baud: Option<u32>,
    pub flow_control: Option<FlowControlMode>,
    pub parity: Option<ParityMode>,
    pub stop_bits: Option<StopBitsMode>,
    pub dtr_on_open: Option<DtrBehavior>,
    pub serial_timeout_ms: Option<u64>,
    pub cols: Option<u8>,
    pub rows: Option<u8>,
    pub payload_file: Option<Seq<char>>,
    pub backoff_initial_ms: Option<u64>,
    pub backoff_max_ms: Option<u64>,
    pub pcf8574_addr: Option<Pcf8574Addr>,
    pub log_level: Option<Seq<char>>,
    pub log_file: Option<Seq<char>>,
    pub compression_enabled: Option<bool>,
    pub compression_codec: Option<CompressionCodec>,
    pub demo: bool,
    pub polling_enabled: Option<bool>,
    pub poll_interval_ms: Option<u64>,
    pub config_file: Option<Seq<char>>,
    pub wizard: bool,
}

pub open spec fn opt_str_view(o: Option<String>) -> Option<Seq<char>> {
    match o {
        Some(s) => Some(s@),
        None => None,
    }
}

impl RunOptions {
    pub open spec fn view(&self) -> RunOptionsView {
        RunOptionsView {
            mode: self.mode,
            device: opt_str_view(self.device),
            baud: self.baud,
            flow_control: self.flow_control,
            parity: self.parity,
            stop_bits: self.stop_bits,
            dtr_on_open: self.dtr_on_open,
            serial_timeout_ms: self.serial_timeout_ms,
            cols: self.cols,
            rows: self.rows,
            payload_file: opt_str_view(self.payload_file),
            backoff_initial_ms: self.backoff_initial_ms,
            backoff_max_ms: self.backoff_max_ms,
            pcf8574_addr: self.pcf8574_addr,
            log_level: opt_str_view(self.log_level),
            log_file: opt_str_view(self.log_file),
            compression_enabled: self.compression_enabled,
            compression_codec: self.compression_codec,
            demo: self.demo,
            polling_enabled: self.polling_enabled,
            poll_interval_ms: self.poll_interval_ms,
            config_file: opt_str_view(self.config_file),
            wizard: self.wizard,
        }
    }
}

pub open spec fn default_run_options() -> RunOptionsView {
    RunOptionsView {
        mode: RunMode::Daemon,
        device: None,
        baud: None,
        flow_control: None,
        parity: None,
        stop_bits: None,
        dtr_on_open: None,
        serial_timeout_ms: None,
        cols: None,
        rows: None,
        payload_file: None,
        backoff_initial_ms: None,
        backoff_max_ms: None,
        pcf8574_addr: None,
        log_level: None,
        log_file: None,
        compression_enabled: None,
        compression_codec: None,
        demo: false,
        polling_enabled: None,
        poll_interval_ms: None,
        config_file: None,
        wizard: false,
    }
}

impl Default for RunOptions {
    fn default() -> (r: Self)
        ensures
            r.view() == default_run_options(),
    {
        RunOptions {
            mode: RunMode::Daemon,
            device: None,
            baud: None,
            flow_control: None,
            parity: None,
            stop_bits: None,
            dtr_on_open: None,
            serial_timeout_ms: None,
            cols: None,
            rows: None,
            payload_file: None,
            backoff_initial_ms: None,
            backoff_max_ms: None,
            pcf8574_addr: None,
            log_level: None,
            log_file: None,
            compression_enabled: None,
            compression_codec: None,
            demo: false,
            polling_enabled: None,
            poll_interval_ms: None,
            config_file: None,
            wizard: false,
        }
    }
}

/// Parsed command-line intent.
#[derive(Debug, Clone, PartialEq, Eq)]
pub enum Command {
    Run(RunOptions),
    ShowHelp,
    ShowVersion,
}

/// Flags that take the next argument as their value.
pub open spec fn takes_value(flag: Seq<char>) -> bool {
    ||| flag == "--device"@
    ||| flag == "--baud"@
    ||| flag == "--flow-control"@
    ||| flag == "--parity"@
    ||| flag == "--stop-bits"@
    ||| flag == "--dtr-on-open"@
    ||| flag == "--serial-timeout-ms"@
    ||| flag == "--cols"@
    ||| flag == "--rows"@
    ||| flag == "--payload-file"@
    ||| flag == "--backoff-initial-ms"@
    ||| flag == "--backoff-max-ms"@
    ||| flag == "--pcf8574-addr"@
    ||| flag == "--log-level"@
    ||| flag == "--log-file"@
    ||| flag == "--poll-interval-ms"@
    ||| flag == "--codec"@
    ||| flag == "--config-file"@
}

pub open spec fn u32_max() -> nat {
    0xffff_ffff
}

pub open spec fn u64_max() -> nat {
    0xffff_ffff_ffff_ffff
}

/// A number for a numeric flag, or the flag's error text.
pub open spec fn number_or(v: Seq<char>, max: nat, err: Seq<char>) -> Outcome<nat> {
    match parse_unsigned(v, max) {
        Some(n) => Ok(n),
        None => Err(err),
    }
}

/// Effect of one value-taking flag on the options.
pub open spec fn apply_value(flag: Seq<char>, v: Seq<char>, o: RunOptionsView) -> Outcome<RunOptionsView> {
    if flag == "--device"@ {
        Ok(RunOptionsView { device: Some(v), ..o })
    } else if flag == "--baud"@ {
        match number_or(v, u32_max(), "baud must be a positive integer"@) {
            Ok(n) => Ok(RunOptionsView { baud: Some(n as u32), ..o }),
            Err(e) => Err(e),
        }
    } else if flag == "--flow-control"@ {
        match flow_control_from(v) {
            Some(m) => Ok(RunOptionsView { flow_control: Some(m), ..o }),
            None => Err(flow_control_error(v)),
        }
    } else if flag == "--parity"@ {
        match parity_from(v) {
            Some(m) => Ok(RunOptionsView { parity: Some(m), ..o }),
            None => Err(parity_error(v)),
        }
    } else if flag == "--stop-bits"@ {
        match stop_bits_from(v) {
            Some(m) => Ok(RunOptionsView { stop_bits: Some(m), ..o }),
            None => Err(stop_bits_error(v)),
        }
    } else if flag == "--dtr-on-open"@ {
        match dtr_from(v) {
            Some(m) => Ok(RunOptionsView { dtr_on_open: Some(m), ..o }),
            None => Err(dtr_error(v)),
        }
    } else if flag == "--serial-timeout-ms"@ {
        match number_or(v, u64_max(), "serial-timeout-ms must be a positive integer"@) {
            Ok(n) => Ok(RunOptionsView { serial_timeout_ms: Some(n as u64), ..o }),
            Err(e) => Err(e),
        }
    } else if flag == "--cols"@ {
        match number_or(v, 255, "cols must be a positive integer"@) {
            Ok(n) => Ok(RunOptionsView { cols: Some(n as u8), ..o }),
            Err(e) => Err(e),
        }
    } else if flag == "--rows"@ {
        match number_or(v, 255, "rows must be a positive integer"@) {
            Ok(n) => Ok(RunOptionsView { rows: Some(n as u8), ..o }),
            Err(e) => Err(e),
        }
    } else if flag == "--payload-file"@ {
        Ok(RunOptionsView { payload_file: Some(v), ..o })
    } else if flag == "--backoff-initial-ms"@ {
        match number_or(v, u64_max(), "backoff-initial-ms must be a positive integer"@) {
            Ok(n) => Ok(RunOptionsView { backoff_initial_ms: Some(n as u64), ..o }),
            Err(e) => Err(e),
        }
    } else if flag == "--backoff-max-ms"@ {
        match number_or(v, u64_max(), "backoff-max-ms must be a positive integer"@) {
            Ok(n) => Ok(RunOptionsView { backoff_max_ms: Some(n as u64), ..o }),
            Err(e) => Err(e),
        }
    } else if flag == "--pcf8574-addr"@ {
        match pcf_addr_from(v) {
            Some(a) => Ok(RunOptionsView { pcf8574_addr: Some(a), ..o }),
            None => Err(PCF_FLAG_ERROR@),
        }
    } else if flag == "--log-level"@ {
        Ok(RunOptionsView { log_level: Some(v), ..o })
    } else if flag == "--log-file"@ {
        Ok(RunOptionsView { log_file: Some(v), ..o })
    } else if flag == "--poll-interval-ms"@ {
        match number_or(v, u64_max(), "poll-interval-ms must be a positive integer"@) {
            Ok(n) => Ok(RunOptionsView { poll_interval_ms: Some(n as u64), ..o }),
            Err(e) => Err(e),
        }
    } else if flag == "--config-file"@ {
        Ok(RunOptionsView { config_file: Some(v), ..o })
    } else {
        // --codec
        match codec_from_name(v) {
            Some(c) => Ok(RunOptionsView { compression_codec: Some(c), ..o }),
            None => Err("codec must be one of: none, lz4, zstd"@),
        }
    }
}

/// Effect of one switch on the options, `None` for an unknown flag.
pub open spec fn apply_switch(flag: Seq<char>, o: RunOptionsView) -> Option<RunOptionsView> {
    if flag == "--polling"@ {
        Some(RunOptionsView { polling_enabled: Some(true), ..o })
    } else if flag == "--no-polling"@ {
        Some(RunOptionsView { polling_enabled: Some(false), ..o })
    } else if flag == "--compressed"@ {
        Some(RunOptionsView { compression_enabled: Some(true), ..o })
    } else if flag == "--no-compressed"@ {
        Some(RunOptionsView { compression_enabled: Some(false), ..o })
    } else if flag == "--demo"@ {
        Some(RunOptionsView { demo: true, ..o })
    } else if flag == "--serialsh"@ {
        Some(RunOptionsView { mode: RunMode::SerialShell, ..o })
    } else if flag == "--wizard"@ {
        Some(RunOptionsView { wizard: true, ..o })
    } else {
        None
    }
}

/// Folds the flags of `args`, left to right, into `o`.
pub open spec fn parse_flags(args: Seq<Seq<char>>, o: RunOptionsView) -> Outcome<RunOptionsView>
    decreases args.len(),
{
    if args.len() == 0 {
        Ok(o)
    } else {
        let flag = args[0];
        let rest = args.drop_first();
        if takes_value(flag) {
            if rest.len() == 0 {
                Err("expected a value after "@ + flag)
            } else {
                match apply_value(flag, rest[0], o) {
                    Ok(o2) => parse_flags(rest.drop_first(), o2),
                    Err(e) => Err(e),
                }
            }
        } else {
            match apply_switch(flag, o) {
                Some(o2) => parse_flags(rest, o2),
                None => Err("unknown flag '"@ + flag + "', try --help"@),
            }
        }
    }
}

/// Options of `run`: the flags folded into the defaults, then the serial
/// shell checked against demo and payload-file mode.
pub open spec fn run_options_from(args: Seq<Seq<char>>) -> Outcome<RunOptionsView> {
    match parse_flags(args, default_run_options()) {
        Ok(o) => if o.mode == RunMode::SerialShell && (o.payload_file is Some || o.demo) {
            Err(SERIALSH_CONFLICT@)
        } else {
            Ok(o)
        },
        Err(e) => Err(e),
    }
}

/// What `Command::parse` yields.
pub enum CommandView {
    Run(RunOptionsView),
    ShowHelp,
    ShowVersion,
}

pub open spec fn command_from(args: Seq<Seq<char>>) -> Outcome<CommandView> {
    if args.len() == 0 {
        Ok(CommandView::Run(default_run_options()))
    } else {
        let first = args[0];
        if first == "run"@ {
            match run_options_from(args.drop_first()) {
                Ok(o) => Ok(CommandView::Run(o)),
                Err(e) => Err(e),
            }
        } else if first == "--help"@ || first == "-h"@ {
            Ok(CommandView::ShowHelp)
        } else if first == "--version"@ || first == "-V"@ {
            Ok(CommandView::ShowVersion)
        } else if first.len() > 0 && first[0] == '-' {
            match run_options_from(args) {
                Ok(o) => Ok(CommandView::Run(o)),
                Err(e) => Err(e),
            }
        } else {
            Err("unknown command '"@ + first + "', try --help"@)
        }
    }
}

/// `run` is the default command: arguments that start with a flag (other
/// than help or version) parse the same with `run` in front of them or
/// without it.
pub proof fn lemma_run_is_the_default(args: Seq<Seq<char>>)
    requires
        args.len() > 0,
        args[0].len() > 0,
        args[0][0] == '-',
        args[0] != "--help"@,
        args[0] != "-h"@,
        args[0] != "--version"@,
        args[0] != "-V"@,
    ensures
        command_from(seq!["run"@] + args) == command_from(args),
{
    reveal_strlit("run");
    let with_run = seq!["run"@] + args;
    assert(with_run[0] == "run"@);
    assert(with_run.drop_first() =~= args);
    assert(args[0] != "run"@) by {
        assert("run"@[0] == 'r');
    }
}

pub open spec fn args_view(args: Seq<String>) -> Seq<Seq<char>> {
    args.map_values(|s: String| s@)
}

pub open spec fn command_matches(c: Command, v: CommandView) -> bool {
    match (c, v) {
        (Command::Run(o), CommandView::Run(ov)) => o.view() == ov,
        (Command::ShowHelp, CommandView::ShowHelp) => true,
        (Command::ShowVersion, CommandView::ShowVersion) => true,
        _ => false,
    }
}

pub const PCF_FLAG_ERROR: &'static str = "pcf8574-addr must be 'auto' or a hex/decimal address (e.g., 0x27)";

pub const SERIALSH_CONFLICT: &'static str = "--serialsh cannot be combined with --demo or --payload-file";

fn invalid(msg: &str) -> (r: Error)
    ensures
        r matches Error::InvalidArgs(m) && m@ == msg@,
{
    Error::InvalidArgs(String::from_str(msg))
}

fn number_value(v: &String, max: u64, err: &str) -> (r: Result<u64>)
    ensures
        match r {
            Ok(n) => number_or(v@, max as nat, err@) == Outcome::<nat>::Ok(n as nat),
            Err(e) => number_or(v@, max as nat, err@) matches Err(m) && e matches Error::InvalidArgs(
                em,
            ) && em@ == m,
        },
{
    let cs = chars_of(v.as_str());
    match parse_unsigned_chars(cs.as_slice(), max) {
        Some(n) => Ok(n),
        None => Err(invalid(err)),
    }
}

fn clone_string(s: &String) -> (r: String)
    ensures
        r@ == s@,
{
    s.clone()
}

/// Applies one value-taking flag.
fn apply_value_exec(flag: &[char], v: &String, o: &mut RunOptions) -> (r: Result<()>)
    requires
        takes_value(flag@),
    ensures
        match apply_value(flag@, v@, old(o).view()) {
            Ok(o2) => r is Ok && final(o).view() == o2,
            Err(e) => r matches Err(Error::InvalidArgs(m)) && m@ == e,
        },
{
    if eq_str(flag, "--device") {
        o.device = Some(clone_string(v));
    } else if eq_str(flag, "--baud") {
        let n = number_value(v, 0xffff_ffff, "baud must be a positive integer")?;
        o.baud = Some(n as u32);
    } else if eq_str(flag, "--flow-control") {
        match FlowControlMode::parse(v.as_str()) {
            Ok(m) => o.flow_control = Some(m),
            Err(e) => return Err(Error::InvalidArgs(e)),
        }
    } else if eq_str(flag, "--parity") {
        match ParityMode::parse(v.as_str()) {
            Ok(m) => o.parity = Some(m),
            Err(e) => return Err(Error::InvalidArgs(e)),
        }
    } else if eq_str(flag, "--stop-bits") {
        match StopBitsMode::parse(v.as_str()) {
            Ok(m) => o.stop_bits = Some(m),
            Err(e) => return Err(Error::InvalidArgs(e)),
        }
    } else if eq_str(flag, "--dtr-on-open") {
        match DtrBehavior::parse(v.as_str()) {
            Ok(m) => o.dtr_on_open = Some(m),
            Err(e) => return Err(Error::InvalidArgs(e)),
        }
    } else if eq_str(flag, "--serial-timeout-ms") {
        let n = number_value(
            v,
            0xffff_ffff_ffff_ffff,
            "serial-timeout-ms must be a positive integer",
        )?;
        o.serial_timeout_ms = Some(n);
    } else if eq_str(flag, "--cols") {
        let n = number_value(v, 255, "cols must be a positive integer")?;
        o.cols = Some(n as u8);
    } else if eq_str(flag, "--rows") {
        let n = number_value(v, 255, "rows must be a positive integer")?;
        o.rows = Some(n as u8);
    } else if eq_str(flag, "--payload-file") {
        o.payload_file = Some(clone_string(v));
    } else if eq_str(flag, "--backoff-initial-ms") {
        let n = number_value(
            v,
            0xffff_ffff_ffff_ffff,
            "backoff-initial-ms must be a positive integer",
        )?;
        o.backoff_initial_ms = Some(n);
    } else if eq_str(flag, "--backoff-max-ms") {
        let n = number_value(v, 0xffff_ffff_ffff_ffff, "backoff-max-ms must be a positive integer")?;
        o.backoff_max_ms = Some(n);
    } else if eq_str(flag, "--pcf8574-addr") {
        match parse_pcf_addr(v.as_str()) {
            Ok(a) => o.pcf8574_addr = Some(a),
            Err(_) => return Err(invalid(PCF_FLAG_ERROR)),
        }
    } else if eq_str(flag, "--log-level") {
        o.log_level = Some(clone_string(v));
    } else if eq_str(flag, "--log-file") {
        o.log_file = Some(clone_string(v));
    } else if eq_str(flag, "--poll-interval-ms") {
        let n = number_value(
            v,
            0xffff_ffff_ffff_ffff,
            "poll-interval-ms must be a positive integer",
        )?;
        o.poll_interval_ms = Some(n);
    } else if eq_str(flag, "--config-file") {
        o.config_file = Some(clone_string(v));
    } else {
        match CompressionCodec::from_name(v.as_str()) {
            Some(c) => o.compression_codec = Some(c),
            None => return Err(invalid("codec must be one of: none, lz4, zstd")),
        }
    }
    Ok(())
}

fn takes_value_exec(flag: &[char]) -> (r: bool)
    ensures
        r == takes_value(flag@),
{
    eq_str(flag, "--device") || eq_str(flag, "--baud") || eq_str(flag, "--flow-control")
        || eq_str(flag, "--parity") || eq_str(flag, "--stop-bits") || eq_str(
        flag,
        "--dtr-on-open",
    ) || eq_str(flag, "--serial-timeout-ms") || eq_str(flag, "--cols") || eq_str(flag, "--rows")
        || eq_str(flag, "--payload-file") || eq_str(flag, "--backoff-initial-ms") || eq_str(
        flag,
        "--backoff-max-ms",
    ) || eq_str(flag, "--pcf8574-addr") || eq_str(flag, "--log-level") || eq_str(
        flag,
        "--log-file",
    ) || eq_str(flag, "--poll-interval-ms") || eq_str(flag, "--codec") || eq_str(
        flag,
        "--config-file",
    )
}

/// Applies one switch; `false` for an unknown flag.
fn apply_switch_exec(flag: &[char], o: &mut RunOptions) -> (r: bool)
    ensures
        match apply_switch(flag@, old(o).view()) {
            Some(o2) => r && final(o).view() == o2,
            None => !r && *final(o) == *old(o),
        },
{
    if eq_str(flag, "--polling") {
        o.polling_enabled = Some(true);
    } else if eq_str(flag, "--no-polling") {
        o.polling_enabled = Some(false);
    } else if eq_str(flag, "--compressed") {
        o.compression_enabled = Some(true);
    } else if eq_str(flag, "--no-compressed") {
        o.compression_enabled = Some(false);
    } else if eq_str(flag, "--demo") {
        o.demo = true;
    } else if eq_str(flag, "--serialsh") {
        o.mode = RunMode::SerialShell;
    } else if eq_str(flag, "--wizard") {
        o.wizard = true;
    } else {
        return false;
    }
    true
}

/// Parses the flags of the `run` command from `args[start..]`.
fn parse_run_options(args: &[String], start: usize) -> (r: Result<RunOptions>)
    requires
        start <= args@.len(),
    ensures
        match run_options_from(args_view(args@).subrange(start as int, args@.len() as int)) {
            Ok(ov) => r matches Ok(o) && o.view() == ov,
            Err(e) => r matches Err(Error::InvalidArgs(m)) && m@ == e,
        },
{
    let ghost all = args_view(args@);
    let ghost whole = all.subrange(start as int, args@.len() as int);
    let mut opts = RunOptions::default();
    let mut i: usize = start;
    while i < args.len()
        invariant
            start <= i <= args@.len(),
            all == args_view(args@),
            whole == all.subrange(start as int, args@.len() as int),
            parse_flags(whole, default_run_options()) == parse_flags(
                all.subrange(i as int, args@.len() as int),
                opts.view(),
            ),
        decreases args@.len() - i,
    {
        let ghost rest = all.subrange(i as int, args@.len() as int);
        assert(rest[0] == args@[i as int]@);
        let flag = chars_of(args[i].as_str());
        if takes_value_exec(flag.as_slice()) {
            if i + 1 >= args.len() {
                let mut m = String::from_str("expected a value after ");
                m.append(args[i].as_str());
                return Err(Error::InvalidArgs(m));
            }
            assert(rest.drop_first()[0] == args@[i + 1]@);
            apply_value_exec(flag.as_slice(), &args[i + 1], &mut opts)?;
            assert(rest.drop_first().drop_first() =~= all.subrange(i + 2, args@.len() as int));
            i = i + 2;
        } else {
            if !apply_switch_exec(flag.as_slice(), &mut opts) {
                let mut m = String::from_str("unknown flag '");
                m.append(args[i].as_str());
                m.append("', try --help");
                return Err(Error::InvalidArgs(m));
            }
            assert(rest.drop_first() =~= all.subrange(i + 1, args@.len() as int));
            i = i + 1;
        }
    }
    assert(all.subrange(i as int, args@.len() as int) =~= Seq::<Seq<char>>::empty());
    if opts.mode == RunMode::SerialShell && (opts.payload_file.is_some() || opts.demo) {
        return Err(invalid(SERIALSH_CONFLICT));
    }
    Ok(opts)
}

impl Command {
    /// Parses the process arguments (without the program name).
    pub fn parse(args: &[String]) -> (r: Result<Command>)
        ensures
            match command_from(args_view(args@)) {
                Ok(cv) => r matches Ok(c) && command_matches(c, cv),
                Err(e) => r matches Err(Error::InvalidArgs(m)) && m@ == e,
            },
    {
        let ghost all = args_view(args@);
        if args.len() == 0 {
            return Ok(Command::Run(RunOptions::default()));
        }
        assert(all[0] == args@[0]@);
        let first = chars_of(args[0].as_str());
        let fs = first.as_slice();
        if eq_str(fs, "run") {
            assert(all.drop_first() =~= all.subrange(1, args@.len() as int));
            let o = parse_run_options(args, 1)?;
            Ok(Command::Run(o))
        } else if eq_str(fs, "--help") || eq_str(fs, "-h") {
            Ok(Command::ShowHelp)
        } else if eq_str(fs, "--version") || eq_str(fs, "-V") {
            Ok(Command::ShowVersion)
        } else if first.len() > 0 && first[0] == '-' {
            assert(all =~= all.subrange(0, args@.len() as int));
            let o = parse_run_options(args, 0)?;
            Ok(Command::Run(o))
        } else {
            let mut m = String::from_str("unknown command '");
            m.append(args[0].as_str());
            m.append("', try --help");
            Err(Error::InvalidArgs(m))
        }
    }

    /// Usage text.
    pub fn help() -> (r: String)
        ensures
            r@ == HELP_TEXT@,
    {
        String::from_str(HELP_TEXT)
    }
}

pub const HELP_TEXT: &'static str = "lifelinetty - Serial-to-LCD daemon\n\nUSAGE:\n  lifelinetty run [--device <path>] [--baud <number>] [--cols <number>] [--rows <number>] [--payload-file <path>]\n  lifelinetty --help\n  lifelinetty --version\n\nOPTIONS:\n  --device <path>   Serial device path (default: /dev/ttyUSB0)\n  --baud <number>   Baud rate (default: 9600)\n  --flow-control <none|software|hardware>  Flow control override (default: none)\n  --parity <none|odd|even>       Parity override (default: none)\n  --stop-bits <1|2>              Stop bits override (default: 1)\n  --dtr-on-open <auto|on|off>    Control DTR state when opening the port (default: auto)\n  --serial-timeout-ms <number>   Read timeout in milliseconds (default: 500)\n  --cols <number>   LCD columns (default: 20)\n  --rows <number>   LCD rows (default: 4)\n  --payload-file <path>  Load a local JSON payload and render it once (testing helper)\n  --backoff-initial-ms <number>  Initial reconnect backoff (default: 500)\n  --backoff-max-ms <number>      Maximum reconnect backoff (default: 10000)\n  --pcf8574-addr <auto|0xNN>     PCF8574 I2C address or 'auto' to probe (default: auto)\n  --log-level <error|warn|info|debug|trace>  Log verbosity (default: info)\n  --log-file <path>              Append logs inside /run/serial_lcd_cache (also honors LIFELINETTY_LOG_PATH)\n  --polling                      Enable hardware polling (default: config)\n  --no-polling                   Disable hardware polling even if config enables it\n  --poll-interval-ms <number>    Polling interval in milliseconds (default: 5000)\n  --compressed                   Enable schema compression (applies to schema_v1 payloads)\n  --no-compressed                Disable compression even if config enables it\n  --codec <lz4|zstd>             Codec to use when compression is enabled (default: lz4)\n  --demo                         Run built-in demo pages on the LCD (no serial input)\n  --serialsh                   Enable the optional serial shell that runs commands over the tunnel and streams remote stdout/stderr + exit codes\n  --config-file <path>           Load the configuration from this file instead of ~/.serial_lcd/config.toml\n  --wizard                       Run the first-run setup wizard even when a configuration exists\n  -h, --help        Show this help\n  -V, --version     Show version\n";

} // verus!
