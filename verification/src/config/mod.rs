//! Daemon configuration: defaults, validation, and the on-disk text format.
use vstd::prelude::*;
use vstd::string::StringExecFns;

use crate::compression::CompressionCodec;
use crate::serial::{DtrBehavior, FlowControlMode, ParityMode, StopBitsMode};
use crate::Error;
use crate::text::{
    ascii_lower, ascii_lower_vec, chars_of, eq_str, is_prefix, parse_hex, parse_hex_chars, parse_unsigned,
    parse_unsigned_chars, slice_vec, string_of, trim, trim_vec,
};

pub mod format;
pub mod roundtrip;

verus! {

pub const DEFAULT_DEVICE: &'static str = "/dev/ttyUSB0";
pub const DEFAULT_BAUD: u32 = 9_600;
pub const MIN_BAUD: u32 = 9_600;
pub const DEFAULT_COLS: u8 = 20;
pub const DEFAULT_ROWS: u8 = 4;
pub const DEFAULT_LCD_PRESENT: bool = true;
pub const MIN_COLS: u8 = 8;
pub const MAX_COLS: u8 = 40;
pub const MIN_ROWS: u8 = 1;
pub const MAX_ROWS: u8 = 4;
pub const DEFAULT_SCROLL_MS: u64 = 250;
pub const DEFAULT_PAGE_TIMEOUT_MS: u64 = 4000;
pub const MIN_SCROLL_MS: u64 = 100;
pub const MIN_PAGE_TIMEOUT_MS: u64 = 500;
pub const DEFAULT_POLLING_ENABLED: bool = false;
pub const DEFAULT_POLL_INTERVAL_MS: u64 = 5000;
pub const MIN_POLL_INTERVAL_MS: u64 = 1000;
pub const MAX_POLL_INTERVAL_MS: u64 = 60000;
pub const DEFAULT_BACKOFF_INITIAL_MS: u64 = 500;
pub const DEFAULT_BACKOFF_MAX_MS: u64 = 10_000;
pub const DEFAULT_SERIAL_TIMEOUT_MS: u64 = 500;
pub const MIN_SERIAL_TIMEOUT_MS: u64 = 50;
pub const MAX_SERIAL_TIMEOUT_MS: u64 = 60_000;
pub const DEFAULT_WATCHDOG_SERIAL_TIMEOUT_MS: u64 = 12_000;
pub const DEFAULT_WATCHDOG_TUNNEL_TIMEOUT_MS: u64 = 5_000;
pub const MIN_WATCHDOG_TIMEOUT_MS: u64 = 1_000;
pub const MAX_WATCHDOG_TIMEOUT_MS: u64 = 120_000;
pub const DEFAULT_NEGOTIATION_NODE_ID: u32 = 42;
pub const DEFAULT_NEGOTIATION_TIMEOUT_MS: u64 = 1_000;
pub const MIN_NEGOTIATION_TIMEOUT_MS: u64 = 250;
pub const MAX_NEGOTIATION_TIMEOUT_MS: u64 = 5_000;
pub const DEFAULT_PROTOCOL_SCHEMA_VERSION: u8 = 1;
pub const DEFAULT_PROTOCOL_COMPRESSION_ENABLED: bool = false;
pub const CONFIG_DIR_NAME: &'static str = ".serial_lcd";
pub const CONFIG_FILE_NAME: &'static str = "config.toml";

/// I2C address of the PCF8574 backpack.
#[derive(Debug, Clone, Copy, PartialEq, Eq, Structural)]
pub enum Pcf8574Addr {
    Auto,
    Addr(u8),
}

pub const DEFAULT_PCF8574_ADDR: Pcf8574Addr = Pcf8574Addr::Auto;

/// Which HD44780 implementation drives the display.
#[derive(Debug, Clone, Copy, PartialEq, Eq, Structural)]
pub enum DisplayDriver {
    Auto,
    InTree,
    Hd44780Driver,
}

pub const DEFAULT_DISPLAY_DRIVER: DisplayDriver = DisplayDriver::Auto;

/// Repeatedly removes the prefix `p` (`str::trim_start_matches` with a string pattern).
pub open spec fn strip_prefix_rep(s: Seq<char>, p: Seq<char>) -> Seq<char>
    decreases s.len(),
{
    if p.len() > 0 && is_prefix(p, s) {
        strip_prefix_rep(s.subrange(p.len() as int, s.len() as int), p)
    } else {
        s
    }
}

/// `Pcf8574Addr::from_str`.
pub open spec fn pcf_addr_from(raw: Seq<char>) -> Option<Pcf8574Addr> {
    if ascii_lower(raw) == "auto"@ {
        Some(Pcf8574Addr::Auto)
    } else {
        match parse_hex(strip_prefix_rep(raw, "0x"@), 255) {
            Some(v) => Some(Pcf8574Addr::Addr(v as u8)),
            None => match parse_unsigned(raw, 255) {
                Some(v) => Some(Pcf8574Addr::Addr(v as u8)),
                None => None,
            },
        }
    }
}

pub open spec fn display_driver_from(raw: Seq<char>) -> Option<DisplayDriver> {
    let l = ascii_lower(trim(raw));
    if l == "auto"@ {
        Some(DisplayDriver::Auto)
    } else if l == "in-tree"@ || l == "intree"@ {
        Some(DisplayDriver::InTree)
    } else if l == "hd44780-driver"@ || l == "hd44780"@ {
        Some(DisplayDriver::Hd44780Driver)
    } else {
        None
    }
}

pub open spec fn display_driver_error(raw: Seq<char>) -> Seq<char> {
    "expected 'auto', 'in-tree', or 'hd44780-driver', got '"@ + ascii_lower(trim(raw)) + "'"@
}

pub open spec fn display_driver_name(d: DisplayDriver) -> Seq<char> {
    match d {
        DisplayDriver::Auto => "auto"@,
        DisplayDriver::InTree => "in-tree"@,
        DisplayDriver::Hd44780Driver => "hd44780-driver"@,
    }
}

/// Removes every leading copy of the two-character prefix `0x`.
pub fn strip_hex_prefixes(v: &[char]) -> (r: Vec<char>)
    ensures
        r@ == strip_prefix_rep(v@, "0x"@),
{
    proof {
        reveal_strlit("0x");
    }
    let mut i: usize = 0;
    assert(v@.subrange(0, v@.len() as int) =~= v@);
    while v.len() - i >= 2 && v[i] == '0' && v[i + 1] == 'x'
        invariant
            i <= v@.len(),
            "0x"@ =~= seq!['0', 'x'],
            strip_prefix_rep(v@, "0x"@) == strip_prefix_rep(v@.subrange(i as int, v@.len() as int), "0x"@),
        decreases v@.len() - i,
    {
        let ghost t = v@.subrange(i as int, v@.len() as int);
        assert(is_prefix("0x"@, t)) by {
            assert(t.subrange(0, 2) =~= "0x"@);
        }
        assert(t.subrange(2, t.len() as int) =~= v@.subrange(i + 2, v@.len() as int));
        i = i + 2;
    }
    proof {
        let t = v@.subrange(i as int, v@.len() as int);
        if is_prefix("0x"@, t) {
            assert(t[0] == '0' && t[1] == 'x') by {
                assert(t.subrange(0, 2)[0] == t[0]);
                assert(t.subrange(0, 2)[1] == t[1]);
            }
            assert(false);
        }
    }
    slice_vec(v, i, v.len())
}

pub const PCF_ADDR_ERROR: &'static str = "expected 'auto' or a hex/decimal address (e.g., 0x27)";

/// `Pcf8574Addr::from_str`: `auto` (any case), a hex byte with optional `0x`
/// prefixes, or failing that a decimal byte.
pub fn parse_pcf_addr(raw: &str) -> (r: core::result::Result<Pcf8574Addr, String>)
    ensures
        match r {
            Ok(a) => pcf_addr_from(raw@) == Some(a),
            Err(e) => pcf_addr_from(raw@) is None && e@ == PCF_ADDR_ERROR@,
        },
{
    let v = chars_of(raw);
    let l = ascii_lower_vec(v.as_slice());
    if eq_str(l.as_slice(), "auto") {
        return Ok(Pcf8574Addr::Auto);
    }
    let cleaned = strip_hex_prefixes(v.as_slice());
    match parse_hex_chars(cleaned.as_slice(), 255) {
        Some(x) => Ok(Pcf8574Addr::Addr(x as u8)),
        None => match parse_unsigned_chars(v.as_slice(), 255) {
            Some(x) => Ok(Pcf8574Addr::Addr(x as u8)),
            None => Err(String::from_str(PCF_ADDR_ERROR)),
        },
    }
}

impl DisplayDriver {
    /// `DisplayDriver::from_str`: trimmed, case-insensitive names.
    pub fn parse(raw: &str) -> (r: core::result::Result<DisplayDriver, String>)
        ensures
            match r {
                Ok(d) => display_driver_from(raw@) == Some(d),
                Err(e) => display_driver_from(raw@) is None && e@ == display_driver_error(raw@),
            },
    {
        let v = chars_of(raw);
        let t = trim_vec(v.as_slice());
        let l = ascii_lower_vec(t.as_slice());
        let ls = l.as_slice();
        if eq_str(ls, "auto") {
            Ok(DisplayDriver::Auto)
        } else if eq_str(ls, "in-tree") || eq_str(ls, "intree") {
            Ok(DisplayDriver::InTree)
        } else if eq_str(ls, "hd44780-driver") || eq_str(ls, "hd44780") {
            Ok(DisplayDriver::Hd44780Driver)
        } else {
            let mut e = String::from_str("expected 'auto', 'in-tree', or 'hd44780-driver', got '");
            let lw = string_of(ls);
            e.append(lw.as_str());
            e.append("'");
            Err(e)
        }
    }

    /// The name that `Display` prints.
    pub fn as_str(&self) -> (r: &'static str)
        ensures
            r@ == display_driver_name(*self),
    {
        match self {
            DisplayDriver::Auto => "auto",
            DisplayDriver::InTree => "in-tree",
            DisplayDriver::Hd44780Driver => "hd44780-driver",
        }
    }
}

impl Default for DisplayDriver {
    fn default() -> (r: Self)
        ensures
            r == DisplayDriver::Auto,
    {
        DisplayDriver::Auto
    }
}

/// How this node prefers to take part in link negotiation.
#[derive(Debug, Clone, Copy, PartialEq, Eq, Structural)]
pub enum RolePreference {
    PreferServer,
    PreferClient,
    NoPreference,
}

impl Default for RolePreference {
    fn default() -> (r: Self)
        ensures
            r == RolePreference::NoPreference,
    {
        RolePreference::NoPreference
    }
}

pub open spec fn role_preference_name(p: RolePreference) -> Seq<char> {
    match p {
        RolePreference::PreferServer => "server"@,
        RolePreference::PreferClient => "client"@,
        RolePreference::NoPreference => "auto"@,
    }
}

/// The role preference a config value names: `server`, `client` or `auto`,
/// trimmed, in any case.
pub open spec fn role_preference_from(raw: Seq<char>) -> Option<RolePreference> {
    let l = ascii_lower(trim(raw));
    if l == "server"@ {
        Some(RolePreference::PreferServer)
    } else if l == "client"@ {
        Some(RolePreference::PreferClient)
    } else if l == "auto"@ {
        Some(RolePreference::NoPreference)
    } else {
        None
    }
}

pub open spec fn role_preference_error(raw: Seq<char>) -> Seq<char> {
    "expected 'server', 'client', or 'auto', got '"@ + ascii_lower(trim(raw)) + "'"@
}

impl RolePreference {
    /// Reads a role preference from its config value.
    pub fn parse(raw: &str) -> (r: core::result::Result<RolePreference, String>)
        ensures
            match r {
                Ok(p) => role_preference_from(raw@) == Some(p),
                Err(e) => role_preference_from(raw@) is None && e@ == role_preference_error(raw@),
            },
    {
        let v = chars_of(raw);
        let t = trim_vec(v.as_slice());
        let l = ascii_lower_vec(t.as_slice());
        let ls = l.as_slice();
        if eq_str(ls, "server") {
            Ok(RolePreference::PreferServer)
        } else if eq_str(ls, "client") {
            Ok(RolePreference::PreferClient)
        } else if eq_str(ls, "auto") {
            Ok(RolePreference::NoPreference)
        } else {
            let mut e = String::from_str("expected 'server', 'client', or 'auto', got '");
            let lw = string_of(ls);
            e.append(lw.as_str());
            e.append("'");
            Err(e)
        }
    }

    pub fn as_str(&self) -> (r: &'static str)
        ensures
            r@ == role_preference_name(*self),
    {
        match self {
            RolePreference::PreferServer => "server",
            RolePreference::PreferClient => "client",
            RolePreference::NoPreference => "auto",
        }
    }
}

#[derive(Debug, Clone, Copy, PartialEq, Eq, Structural)]
pub struct ProtocolConfig {
    pub schema_version: u8,
    pub compression_enabled: bool,
    pub compression_codec: CompressionCodec,
}

pub open spec fn default_protocol() -> ProtocolConfig {
    ProtocolConfig {
        schema_version: 1,
        compression_enabled: false,
        compression_codec: CompressionCodec::Lz4,
    }
}

impl Default for ProtocolConfig {
    fn default() -> (r: Self)
        ensures
            r == default_protocol(),
    {
        ProtocolConfig {
            schema_version: DEFAULT_PROTOCOL_SCHEMA_VERSION,
            compression_enabled: DEFAULT_PROTOCOL_COMPRESSION_ENABLED,
            compression_codec: CompressionCodec::Lz4,
        }
    }
}

/// Settings that control how this node participates in auto-negotiation.
#[derive(Debug, Clone, Copy, PartialEq, Eq, Structural)]
pub struct NegotiationConfig {
    pub node_id: u32,
    pub preference: RolePreference,
    pub timeout_ms: u64,
}

pub open spec fn default_negotiation() -> NegotiationConfig {
    NegotiationConfig { node_id: 42, preference: RolePreference::NoPreference, timeout_ms: 1_000 }
}

impl Default for NegotiationConfig {
    fn default() -> (r: Self)
        ensures
            r == default_negotiation(),
    {
        NegotiationConfig {
            node_id: DEFAULT_NEGOTIATION_NODE_ID,
            preference: RolePreference::NoPreference,
            timeout_ms: DEFAULT_NEGOTIATION_TIMEOUT_MS,
        }
    }
}

#[derive(Debug, Clone, Copy, PartialEq, Eq, Structural)]
pub struct WatchdogConfig {
    pub serial_timeout_ms: u64,
    pub tunnel_timeout_ms: u64,
}

pub open spec fn default_watchdog() -> WatchdogConfig {
    WatchdogConfig { serial_timeout_ms: 12_000, tunnel_timeout_ms: 5_000 }
}

impl Default for WatchdogConfig {
    fn default() -> (r: Self)
        ensures
            r == default_watchdog(),
    {
        WatchdogConfig {
            serial_timeout_ms: DEFAULT_WATCHDOG_SERIAL_TIMEOUT_MS,
            tunnel_timeout_ms: DEFAULT_WATCHDOG_TUNNEL_TIMEOUT_MS,
        }
    }
}

/// User-supplied settings loaded from the config file.
#[derive(Debug, Clone, PartialEq, Eq)]
pub struct Config {
    pub device: String,
    pub baud: u32,
    pub flow_control: FlowControlMode,
    pub parity: ParityMode,
    pub stop_bits: StopBitsMode,
    pub dtr_on_open: DtrBehavior,
    pub serial_timeout_ms: u64,
    pub cols: u8,
    pub rows: u8,
    pub scroll_speed_ms: u64,
    pub page_timeout_ms: u64,
    pub polling_enabled: bool,
    pub poll_interval_ms: u64,
    pub button_gpio_pin: Option<u8>,
    pub pcf8574_addr: Pcf8574Addr,
    pub display_driver: DisplayDriver,
    pub lcd_present: bool,
    pub backoff_initial_ms: u64,
    pub backoff_max_ms: u64,
    pub negotiation: NegotiationConfig,
    pub command_allowlist: Vec<String>,
    pub protocol: ProtocolConfig,
    pub watchdog: WatchdogConfig,
}

/// `Config` with its strings taken as character sequences.
pub struct ConfigView {
    pub device: Seq<char>,
    pub baud: u32,
    pub flow_control: FlowControlMode,
    pub parity: ParityMode,
    pub stop_bits: StopBitsMode,
    pub dtr_on_open: DtrBehavior,
    pub serial_timeout_ms: u64,
    pub cols: u8,
    pub rows: u8,
    pub scroll_speed_ms: u64,
    pub page_timeout_ms: u64,
    pub polling_enabled: bool,
    pub poll_interval_ms: u64,
    pub button_gpio_pin: Option<u8>,
    pub pcf8574_addr: Pcf8574Addr,
    pub display_driver: DisplayDriver,
    pub lcd_present: bool,
    pub backoff_initial_ms: u64,
    pub backoff_max_ms: u64,
    pub negotiation: NegotiationConfig,
    pub command_allowlist: Seq<Seq<char>>,
    pub protocol: ProtocolConfig,
    pub watchdog: WatchdogConfig,
}

pub open spec fn strings_view(v: Seq<String>) -> Seq<Seq<char>> {
    v.map_values(|s: String| s@)
}

impl Config {
    pub open spec fn view(&self) -> ConfigView {
        ConfigView {
            device: self.device@,
            baud: self.baud,
            flow_control: self.flow_control,
            parity: self.parity,
            stop_bits: self.stop_bits,
            dtr_on_open: self.dtr_on_open,
            serial_timeout_ms: self.serial_timeout_ms,
            cols: self.cols,
            rows: self.rows,
            scroll_speed_ms: self.scroll_speed_ms,
            page_timeout_ms: self.page_timeout_ms,
            polling_enabled: self.polling_enabled,
            poll_interval_ms: self.poll_interval_ms,
            button_gpio_pin: self.button_gpio_pin,
            pcf8574_addr: self.pcf8574_addr,
            display_driver: self.display_driver,
            lcd_present: self.lcd_present,
            backoff_initial_ms: self.backoff_initial_ms,
            backoff_max_ms: self.backoff_max_ms,
            negotiation: self.negotiation,
            command_allowlist: strings_view(self.command_allowlist@),
            protocol: self.protocol,
            watchdog: self.watchdog,
        }
    }
}

pub open spec fn default_config() -> ConfigView {
    ConfigView {
        device: DEFAULT_DEVICE@,
        baud: 9_600,
        flow_control: FlowControlMode::NoFlowControl,
        parity: ParityMode::NoParity,
        stop_bits: StopBitsMode::One,
        dtr_on_open: DtrBehavior::Preserve,
        serial_timeout_ms: 500,
        cols: 20,
        rows: 4,
        scroll_speed_ms: 250,
        page_timeout_ms: 4000,
        polling_enabled: false,
        poll_interval_ms: 5000,
        button_gpio_pin: None,
        pcf8574_addr: Pcf8574Addr::Auto,
        display_driver: DisplayDriver::Auto,
        lcd_present: true,
        backoff_initial_ms: 500,
        backoff_max_ms: 10_000,
        negotiation: default_negotiation(),
        command_allowlist: Seq::empty(),
        protocol: default_protocol(),
        watchdog: default_watchdog(),
    }
}

impl Default for Config {
    fn default() -> (r: Self)
        ensures
            r.view() == default_config(),
    {
        let r = Config {
            device: String::from_str(DEFAULT_DEVICE),
            baud: DEFAULT_BAUD,
            flow_control: FlowControlMode::NoFlowControl,
            parity: ParityMode::NoParity,
            stop_bits: StopBitsMode::One,
            dtr_on_open: DtrBehavior::Preserve,
            serial_timeout_ms: DEFAULT_SERIAL_TIMEOUT_MS,
            cols: DEFAULT_COLS,
            rows: DEFAULT_ROWS,
            scroll_speed_ms: DEFAULT_SCROLL_MS,
            page_timeout_ms: DEFAULT_PAGE_TIMEOUT_MS,
            polling_enabled: DEFAULT_POLLING_ENABLED,
            poll_interval_ms: DEFAULT_POLL_INTERVAL_MS,
            button_gpio_pin: None,
            pcf8574_addr: DEFAULT_PCF8574_ADDR,
            display_driver: DEFAULT_DISPLAY_DRIVER,
            lcd_present: DEFAULT_LCD_PRESENT,
            backoff_initial_ms: DEFAULT_BACKOFF_INITIAL_MS,
            backoff_max_ms: DEFAULT_BACKOFF_MAX_MS,
            negotiation: NegotiationConfig::default(),
            command_allowlist: Vec::new(),
            protocol: ProtocolConfig::default(),
            watchdog: WatchdogConfig::default(),
        };
        assert(strings_view(r.command_allowlist@) =~= Seq::<Seq<char>>::empty());
        r
    }
}

/// The first rule that `c` breaks, as its error text; `None` when valid.
pub open spec fn config_violation(c: ConfigView) -> Option<Seq<char>> {
    if c.baud < 9_600 {
        Some("baud must be at least 9600"@)
    } else if c.cols < 8 || c.cols > 40 {
        Some("cols must be between 8 and 40"@)
    } else if c.rows < 1 || c.rows > 4 {
        Some("rows must be between 1 and 4"@)
    } else if c.scroll_speed_ms < 100 {
        Some("scroll_speed_ms must be at least 100"@)
    } else if c.page_timeout_ms < 500 {
        Some("page_timeout_ms must be at least 500"@)
    } else if c.poll_interval_ms < 1000 || c.poll_interval_ms > 60000 {
        Some("poll_interval_ms must be between 1000 and 60000"@)
    } else if exists|i: int|
        0 <= i < c.command_allowlist.len() && #[trigger] trim(c.command_allowlist[i]).len() == 0 {
        Some("command_allowlist entries must be non-empty"@)
    } else if c.protocol.schema_version != 1 {
        Some("protocol.schema_version must be 1"@)
    } else if c.serial_timeout_ms < 50 || c.serial_timeout_ms > 60_000 {
        Some("serial_timeout_ms must be between 50 and 60000"@)
    } else if c.negotiation.timeout_ms < 250 || c.negotiation.timeout_ms > 5_000 {
        Some("negotiation.timeout_ms must be between 250 and 5000"@)
    } else if c.watchdog.serial_timeout_ms < 1_000 || c.watchdog.serial_timeout_ms > 120_000 {
        Some("watchdog.serial_timeout_ms must be between 1000 and 120000"@)
    } else if c.watchdog.tunnel_timeout_ms < 1_000 || c.watchdog.tunnel_timeout_ms > 120_000 {
        Some("watchdog.tunnel_timeout_ms must be between 1000 and 120000"@)
    } else {
        None
    }
}

fn reject(msg: &str) -> (r: crate::Result<()>)
    ensures
        r matches Err(Error::InvalidArgs(m)) && m@ == msg@,
{
    Err(Error::InvalidArgs(String::from_str(msg)))
}

/// Checks every range and shape rule of the configuration.
pub fn validate(cfg: &Config) -> (r: crate::Result<()>)
    ensures
        match config_violation(cfg.view()) {
            None => r is Ok,
            Some(m) => r matches Err(Error::InvalidArgs(e)) && e@ == m,
        },
{
    validate_baud(cfg.baud)?;
    if cfg.cols < MIN_COLS || cfg.cols > MAX_COLS {
        return reject("cols must be between 8 and 40");
    }
    if cfg.rows < MIN_ROWS || cfg.rows > MAX_ROWS {
        return reject("rows must be between 1 and 4");
    }
    if cfg.scroll_speed_ms < MIN_SCROLL_MS {
        return reject("scroll_speed_ms must be at least 100");
    }
    if cfg.page_timeout_ms < MIN_PAGE_TIMEOUT_MS {
        return reject("page_timeout_ms must be at least 500");
    }
    if cfg.poll_interval_ms < MIN_POLL_INTERVAL_MS || cfg.poll_interval_ms > MAX_POLL_INTERVAL_MS {
        return reject("poll_interval_ms must be between 1000 and 60000");
    }
    let ghost entries = strings_view(cfg.command_allowlist@);
    let mut i: usize = 0;
    while i < cfg.command_allowlist.len()
        invariant
            i <= cfg.command_allowlist@.len(),
            entries == strings_view(cfg.command_allowlist@),
            cfg.baud >= 9600,
            8 <= cfg.cols <= 40,
            1 <= cfg.rows <= 4,
            cfg.scroll_speed_ms >= 100,
            cfg.page_timeout_ms >= 500,
            1000 <= cfg.poll_interval_ms <= 60000,
            forall|k: int| 0 <= k < i ==> #[trigger] trim(entries[k]).len() > 0,
        decreases cfg.command_allowlist@.len() - i,
    {
        let t = trim_vec(chars_of(cfg.command_allowlist[i].as_str()).as_slice());
        assert(entries[i as int] == cfg.command_allowlist@[i as int]@);
        if t.len() == 0 {
            assert(cfg.view().command_allowlist == entries);
            assert(trim(cfg.view().command_allowlist[i as int]).len() == 0);
            return reject("command_allowlist entries must be non-empty");
        }
        i = i + 1;
    }
    if cfg.protocol.schema_version != DEFAULT_PROTOCOL_SCHEMA_VERSION {
        return reject("protocol.schema_version must be 1");
    }
    if cfg.serial_timeout_ms < MIN_SERIAL_TIMEOUT_MS || cfg.serial_timeout_ms > MAX_SERIAL_TIMEOUT_MS {
        return reject("serial_timeout_ms must be between 50 and 60000");
    }
    if cfg.negotiation.timeout_ms < MIN_NEGOTIATION_TIMEOUT_MS || cfg.negotiation.timeout_ms
        > MAX_NEGOTIATION_TIMEOUT_MS {
        return reject("negotiation.timeout_ms must be between 250 and 5000");
    }
    if cfg.watchdog.serial_timeout_ms < MIN_WATCHDOG_TIMEOUT_MS || cfg.watchdog.serial_timeout_ms
        > MAX_WATCHDOG_TIMEOUT_MS {
        return reject("watchdog.serial_timeout_ms must be between 1000 and 120000");
    }
    if cfg.watchdog.tunnel_timeout_ms < MIN_WATCHDOG_TIMEOUT_MS || cfg.watchdog.tunnel_timeout_ms
        > MAX_WATCHDOG_TIMEOUT_MS {
        return reject("watchdog.tunnel_timeout_ms must be between 1000 and 120000");
    }
    Ok(())
}

/// The baud rate must not be below the enforced minimum.
pub fn validate_baud(baud: u32) -> (r: crate::Result<()>)
    ensures
        baud >= MIN_BAUD ==> r is Ok,
        baud < MIN_BAUD ==> (r matches Err(Error::InvalidArgs(m)) && m@
            == "baud must be at least 9600"@),
{
    if baud < MIN_BAUD {
        return reject("baud must be at least 9600");
    }
    Ok(())
}

} // verus!
