//! The `key = value` text format of the config file.
use vstd::prelude::*;
use vstd::string::StringExecFns;

use super::{
    config_violation, default_config, display_driver_error, display_driver_from, display_driver_name, parse_pcf_addr,
    pcf_addr_from, strings_view, validate, Config, ConfigView, DisplayDriver, Pcf8574Addr,
    PCF_ADDR_ERROR, NegotiationConfig, RolePreference, role_preference_error, role_preference_from,
    role_preference_name,
};
use crate::serial::{
    dtr_error, dtr_from, dtr_name, flow_control_error, flow_control_from, parity_error, stop_bits_error, flow_control_name, parity_from, parity_name,
    stop_bits_from, stop_bits_name, DtrBehavior, FlowControlMode, ParityMode, StopBitsMode,
};
use crate::text::{
    ascii_lower, chars_of, dec, dec_chars, eq_chars, eq_str, extend_chars, extend_str, lines,
    parse_unsigned, parse_unsigned_chars, slice_vec, split_lines, split_on, split_on_char,
    split_once, find_char, lemma_find_char_bounds, string_of, trim, trim_char, trim_char_vec,
    trim_vec, find_char_from,
};
use crate::Error;

verus! {

pub type Outcome<T> = core::result::Result<T, Seq<char>>;

/// `bool::from_str`.
pub open spec fn bool_from(s: Seq<char>) -> Option<bool> {
    if s == "true"@ {
        Some(true)
    } else if s == "false"@ {
        Some(false)
    } else {
        None
    }
}

pub open spec fn bool_text(b: bool) -> Seq<char> {
    if b {
        "true"@
    } else {
        "false"@
    }
}

pub open spec fn num_or(v: Seq<char>, max: nat, err: Seq<char>) -> Outcome<nat> {
    match parse_unsigned(v, max) {
        Some(n) => Ok(n),
        None => Err(err),
    }
}

pub open spec fn on_line(what: Seq<char>, n: nat) -> Seq<char> {
    what + " on line "@ + dec(n)
}

/// An item of an array literal without its matching quotes.
pub open spec fn unquote(item: Seq<char>) -> Seq<char> {
    if item.len() >= 2 && ((item[0] == '"' && item.last() == '"') || (item[0] == '\'' && item.last()
        == '\'')) {
        item.subrange(1, item.len() - 1)
    } else {
        item
    }
}

/// Folds the comma-separated pieces of an array literal into entries.
pub open spec fn collect_items(parts: Seq<Seq<char>>, acc: Seq<Seq<char>>) -> Outcome<
    Seq<Seq<char>>,
>
    decreases parts.len(),
{
    if parts.len() == 0 {
        Ok(acc)
    } else {
        let item = trim(parts[0]);
        if item.len() == 0 {
            collect_items(parts.drop_first(), acc)
        } else {
            let cleaned = trim(unquote(item));
            if cleaned.len() == 0 {
                Err("command entries must not be empty"@)
            } else {
                collect_items(parts.drop_first(), acc.push(cleaned))
            }
        }
    }
}

pub open spec fn string_array_from(value: Seq<char>) -> Outcome<Seq<Seq<char>>> {
    let t = trim(value);
    if !(t.len() > 0 && t[0] == '[' && t.last() == ']') {
        Err("expected array literal (e.g., [\"cmd\", \"other\"])"@)
    } else {
        let inner = t.subrange(1, t.len() - 1);
        if trim(inner).len() == 0 {
            Ok(Seq::empty())
        } else {
            collect_items(split_on(inner, ','), Seq::empty())
        }
    }
}

/// Effect of one `key = value` line numbered `n` on the configuration.
pub open spec fn apply_key(key: Seq<char>, v: Seq<char>, n: nat, c: ConfigView) -> Outcome<ConfigView> {
    if key == "device"@ {
        Ok(ConfigView { device: v, ..c })
    } else if key == "baud"@ {
        match num_or(v, 0xffff_ffff, on_line("invalid baud value"@, n)) {
            Ok(x) => Ok(ConfigView { baud: x as u32, ..c }),
            Err(e) => Err(e),
        }
    } else if key == "flow_control"@ {
        match flow_control_from(v) {
            Some(m) => Ok(ConfigView { flow_control: m, ..c }),
            None => Err(on_line("invalid flow_control"@, n) + ": "@ + flow_control_error(v)),
        }
    } else if key == "parity"@ {
        match parity_from(v) {
            Some(m) => Ok(ConfigView { parity: m, ..c }),
            None => Err(on_line("invalid parity"@, n) + ": "@ + parity_error(v)),
        }
    } else if key == "stop_bits"@ {
        match stop_bits_from(v) {
            Some(m) => Ok(ConfigView { stop_bits: m, ..c }),
            None => Err(on_line("invalid stop_bits"@, n) + ": "@ + stop_bits_error(v)),
        }
    } else if key == "dtr_on_open"@ {
        match dtr_from(v) {
            Some(m) => Ok(ConfigView { dtr_on_open: m, ..c }),
            None => Err(on_line("invalid dtr_on_open"@, n) + ": "@ + dtr_error(v)),
        }
    } else if key == "serial_timeout_ms"@ {
        match num_or(v, 0xffff_ffff_ffff_ffff, on_line("invalid serial_timeout_ms"@, n)) {
            Ok(x) => Ok(ConfigView { serial_timeout_ms: x as u64, ..c }),
            Err(e) => Err(e),
        }
    } else if key == "cols"@ {
        match num_or(v, 255, on_line("invalid cols value"@, n)) {
            Ok(x) => Ok(ConfigView { cols: x as u8, ..c }),
            Err(e) => Err(e),
        }
    } else if key == "rows"@ {
        match num_or(v, 255, on_line("invalid rows value"@, n)) {
            Ok(x) => Ok(ConfigView { rows: x as u8, ..c }),
            Err(e) => Err(e),
        }
    } else if key == "scroll_speed_ms"@ {
        match num_or(v, 0xffff_ffff_ffff_ffff, on_line("invalid scroll_speed_ms"@, n)) {
            Ok(x) => Ok(ConfigView { scroll_speed_ms: x as u64, ..c }),
            Err(e) => Err(e),
        }
    } else if key == "page_timeout_ms"@ {
        match num_or(v, 0xffff_ffff_ffff_ffff, on_line("invalid page_timeout_ms"@, n)) {
            Ok(x) => Ok(ConfigView { page_timeout_ms: x as u64, ..c }),
            Err(e) => Err(e),
        }
    } else if key == "lcd_present"@ {
        match bool_from(v) {
            Some(b) => Ok(ConfigView { lcd_present: b, ..c }),
            None => Err(on_line("invalid lcd_present"@, n)),
        }
    } else if key == "polling_enabled"@ {
        match bool_from(v) {
            Some(b) => Ok(ConfigView { polling_enabled: b, ..c }),
            None => Err(on_line("invalid polling_enabled"@, n)),
        }
    } else if key == "poll_interval_ms"@ {
        match num_or(v, 0xffff_ffff_ffff_ffff, on_line("invalid poll_interval_ms"@, n)) {
            Ok(x) => Ok(ConfigView { poll_interval_ms: x as u64, ..c }),
            Err(e) => Err(e),
        }
    } else if key == "pcf8574_addr"@ {
        match pcf_addr_from(v) {
            Some(a) => Ok(ConfigView { pcf8574_addr: a, ..c }),
            None => Err(on_line("invalid pcf8574_addr"@, n) + ": "@ + PCF_ADDR_ERROR@),
        }
    } else if key == "display_driver"@ {
        match display_driver_from(v) {
            Some(d) => Ok(ConfigView { display_driver: d, ..c }),
            None => Err(on_line("invalid display_driver"@, n) + ": "@ + display_driver_error(v)),
        }
    } else if key == "backoff_initial_ms"@ {
        match num_or(v, 0xffff_ffff_ffff_ffff, on_line("invalid backoff_initial_ms"@, n)) {
            Ok(x) => Ok(ConfigView { backoff_initial_ms: x as u64, ..c }),
            Err(e) => Err(e),
        }
    } else if key == "backoff_max_ms"@ {
        match num_or(v, 0xffff_ffff_ffff_ffff, on_line("invalid backoff_max_ms"@, n)) {
            Ok(x) => Ok(ConfigView { backoff_max_ms: x as u64, ..c }),
            Err(e) => Err(e),
        }
    } else if key == "button_gpio_pin"@ {
        if v == "null"@ {
            Ok(ConfigView { button_gpio_pin: None, ..c })
        } else {
            match num_or(v, 255, on_line("invalid button_gpio_pin"@, n)) {
                Ok(x) => Ok(ConfigView { button_gpio_pin: Some(x as u8), ..c }),
                Err(e) => Err(e),
            }
        }
    } else if key == "command_allowlist"@ {
        match string_array_from(v) {
            Ok(list) => Ok(ConfigView { command_allowlist: list, ..c }),
            Err(e) => Err(on_line("invalid command_allowlist"@, n) + ": "@ + e),
        }
    } else if key == "negotiation.node_id"@ {
        match num_or(v, 0xffff_ffff, on_line("invalid negotiation.node_id"@, n)) {
            Ok(x) => Ok(ConfigView { negotiation: NegotiationConfig { node_id: x as u32, ..c.negotiation }, ..c }),
            Err(e) => Err(e),
        }
    } else if key == "negotiation.preference"@ {
        match role_preference_from(v) {
            Some(p) => Ok(ConfigView { negotiation: NegotiationConfig { preference: p, ..c.negotiation }, ..c }),
            None => Err(on_line("invalid negotiation.preference"@, n) + ": "@ + role_preference_error(v)),
        }
    } else if key == "negotiation.timeout_ms"@ {
        match num_or(v, 0xffff_ffff_ffff_ffff, on_line("invalid negotiation.timeout_ms"@, n)) {
            Ok(x) => Ok(ConfigView { negotiation: NegotiationConfig { timeout_ms: x as u64, ..c.negotiation }, ..c }),
            Err(e) => Err(e),
        }
    } else {
        Err("unknown config key '"@ + key + "' on line "@ + dec(n))
    }
}

/// Effect of the raw line numbered `n` on the configuration.
pub open spec fn apply_line(line: Seq<char>, n: nat, c: ConfigView) -> Outcome<ConfigView> {
    let t = trim(line);
    if t.len() == 0 || t[0] == '#' {
        Ok(c)
    } else {
        match split_once(t, '=') {
            None => Err("invalid config line "@ + dec(n) + ": '"@ + line + "'"@),
            Some((k, v)) => apply_key(trim(k), trim_char(trim(v), '"'), n, c),
        }
    }
}

/// Folds the lines `ls`, the first of them numbered `first`, into `c`.
pub open spec fn apply_lines(ls: Seq<Seq<char>>, first: nat, c: ConfigView) -> Outcome<ConfigView>
    decreases ls.len(),
{
    if ls.len() == 0 {
        Ok(c)
    } else {
        match apply_line(ls[0], first, c) {
            Ok(c2) => apply_lines(ls.drop_first(), first + 1, c2),
            Err(e) => Err(e),
        }
    }
}

/// The configuration that the text `raw` describes: its lines applied to the
/// defaults, then validated.
pub open spec fn config_from_text(raw: Seq<char>) -> Outcome<ConfigView> {
    match apply_lines(lines(raw), 1, default_config()) {
        Ok(c) => match config_violation(c) {
            None => Ok(c),
            Some(m) => Err(m),
        },
        Err(e) => Err(e),
    }
}

fn err_text(v: &[char]) -> (r: Error)
    ensures
        r matches Error::InvalidArgs(m) && m@ == v@,
{
    Error::InvalidArgs(string_of(v))
}

/// `what + " on line " + n` as characters.
fn on_line_chars(what: &str, n: u64) -> (r: Vec<char>)
    ensures
        r@ == on_line(what@, n as nat),
{
    let mut out: Vec<char> = Vec::new();
    extend_str(&mut out, what);
    extend_str(&mut out, " on line ");
    let d = dec_chars(n);
    extend_chars(&mut out, d.as_slice());
    out
}

fn num_value(v: &[char], max: u64, what: &str, n: u64) -> (r: crate::Result<u64>)
    ensures
        match num_or(v@, max as nat, on_line(what@, n as nat)) {
            Ok(x) => r == crate::Result::<u64>::Ok(x as u64) && x <= max,
            Err(e) => r matches Err(Error::InvalidArgs(m)) && m@ == e,
        },
{
    match parse_unsigned_chars(v, max) {
        Some(x) => Ok(x),
        None => Err(err_text(on_line_chars(what, n).as_slice())),
    }
}

/// Error text `on_line(what, n) + ": " + detail`.
fn detail_error(what: &str, n: u64, detail: &str) -> (r: Error)
    ensures
        r matches Error::InvalidArgs(m) && m@ == on_line(what@, n as nat) + ": "@ + detail@,
{
    let mut out = on_line_chars(what, n);
    extend_str(&mut out, ": ");
    extend_str(&mut out, detail);
    err_text(out.as_slice())
}

fn unquote_vec(item: &[char]) -> (r: Vec<char>)
    ensures
        r@ == unquote(item@),
{
    let n = item.len();
    if n >= 2 && ((item[0] == '"' && item[n - 1] == '"') || (item[0] == '\'' && item[n - 1]
        == '\'')) {
        slice_vec(item, 1, n - 1)
    } else {
        slice_vec(item, 0, n)
    }
}

/// Parses an array literal such as `["ls", "uptime"]`.
pub fn parse_string_array(value: &[char]) -> (r: core::result::Result<Vec<String>, String>)
    ensures
        match string_array_from(value@) {
            Ok(list) => r matches Ok(v) && strings_view(v@) == list,
            Err(e) => r matches Err(m) && m@ == e,
        },
{
    let t = trim_vec(value);
    if !(t.len() > 0 && t[0] == '[' && t[t.len() - 1] == ']') {
        return Err(String::from_str("expected array literal (e.g., [\"cmd\", \"other\"])"));
    }
    let inner = slice_vec(t.as_slice(), 1, t.len() - 1);
    let ti = trim_vec(inner.as_slice());
    if ti.len() == 0 {
        let empty: Vec<String> = Vec::new();
        assert(strings_view(empty@) =~= Seq::<Seq<char>>::empty());
        return Ok(empty);
    }
    let parts = split_on_char(inner.as_slice(), ',');
    let ghost pv = parts@.map_values(|l: Vec<char>| l@);
    let mut out: Vec<String> = Vec::new();
    let mut i: usize = 0;
    assert(pv.subrange(0, pv.len() as int) =~= pv);
    assert(strings_view(out@) =~= Seq::<Seq<char>>::empty());
    while i < parts.len()
        invariant
            i <= parts@.len(),
            pv == parts@.map_values(|l: Vec<char>| l@),
            pv == split_on(inner@, ','),
            string_array_from(value@) == collect_items(pv, Seq::empty()),
            collect_items(pv, Seq::empty()) == collect_items(
                pv.subrange(i as int, pv.len() as int),
                strings_view(out@),
            ),
        decreases parts@.len() - i,
    {
        let ghost rest = pv.subrange(i as int, pv.len() as int);
        assert(rest[0] == parts@[i as int]@);
        assert(rest.drop_first() =~= pv.subrange(i + 1, pv.len() as int));
        let item = trim_vec(parts[i].as_slice());
        if item.len() != 0 {
            let uq = unquote_vec(item.as_slice());
            let cleaned = trim_vec(uq.as_slice());
            if cleaned.len() == 0 {
                return Err(String::from_str("command entries must not be empty"));
            }
            let s = string_of(cleaned.as_slice());
            let ghost before = strings_view(out@);
            out.push(s);
            assert(strings_view(out@) =~= before.push(cleaned@));
        }
        i = i + 1;
    }
    assert(pv.subrange(i as int, pv.len() as int) =~= Seq::<Seq<char>>::empty());
    Ok(out)
}

fn bool_value(v: &[char]) -> (r: Option<bool>)
    ensures
        r == bool_from(v@),
{
    if eq_str(v, "true") {
        Some(true)
    } else if eq_str(v, "false") {
        Some(false)
    } else {
        None
    }
}

/// Applies one `key = value` line numbered `n`.
fn apply_key_exec(key: &[char], v: &[char], n: u64, cfg: &mut Config) -> (r: crate::Result<()>)
    ensures
        match apply_key(key@, v@, n as nat, old(cfg).view()) {
            Ok(c2) => r is Ok && final(cfg).view() == c2,
            Err(e) => r matches Err(Error::InvalidArgs(m)) && m@ == e,
        },
{
    let vs = string_of(v);
    if eq_str(key, "device") {
        cfg.device = vs;
    } else if eq_str(key, "baud") {
        let x = num_value(v, 0xffff_ffff, "invalid baud value", n)?;
        cfg.baud = x as u32;
    } else if eq_str(key, "flow_control") {
        match FlowControlMode::parse(vs.as_str()) {
            Ok(m) => cfg.flow_control = m,
            Err(e) => return Err(detail_error("invalid flow_control", n, e.as_str())),
        }
    } else if eq_str(key, "parity") {
        match ParityMode::parse(vs.as_str()) {
            Ok(m) => cfg.parity = m,
            Err(e) => return Err(detail_error("invalid parity", n, e.as_str())),
        }
    } else if eq_str(key, "stop_bits") {
        match StopBitsMode::parse(vs.as_str()) {
            Ok(m) => cfg.stop_bits = m,
            Err(e) => return Err(detail_error("invalid stop_bits", n, e.as_str())),
        }
    } else if eq_str(key, "dtr_on_open") {
        match DtrBehavior::parse(vs.as_str()) {
            Ok(m) => cfg.dtr_on_open = m,
            Err(e) => return Err(detail_error("invalid dtr_on_open", n, e.as_str())),
        }
    } else if eq_str(key, "serial_timeout_ms") {
        let x = num_value(v, 0xffff_ffff_ffff_ffff, "invalid serial_timeout_ms", n)?;
        cfg.serial_timeout_ms = x;
    } else if eq_str(key, "cols") {
        let x = num_value(v, 255, "invalid cols value", n)?;
        cfg.cols = x as u8;
    } else if eq_str(key, "rows") {
        let x = num_value(v, 255, "invalid rows value", n)?;
        cfg.rows = x as u8;
    } else if eq_str(key, "scroll_speed_ms") {
        let x = num_value(v, 0xffff_ffff_ffff_ffff, "invalid scroll_speed_ms", n)?;
        cfg.scroll_speed_ms = x;
    } else if eq_str(key, "page_timeout_ms") {
        let x = num_value(v, 0xffff_ffff_ffff_ffff, "invalid page_timeout_ms", n)?;
        cfg.page_timeout_ms = x;
    } else if eq_str(key, "lcd_present") {
        match bool_value(v) {
            Some(b) => cfg.lcd_present = b,
            None => return Err(err_text(on_line_chars("invalid lcd_present", n).as_slice())),
        }
    } else if eq_str(key, "polling_enabled") {
        match bool_value(v) {
            Some(b) => cfg.polling_enabled = b,
            None => return Err(err_text(on_line_chars("invalid polling_enabled", n).as_slice())),
        }
    } else if eq_str(key, "poll_interval_ms") {
        let x = num_value(v, 0xffff_ffff_ffff_ffff, "invalid poll_interval_ms", n)?;
        cfg.poll_interval_ms = x;
    } else if eq_str(key, "pcf8574_addr") {
        match parse_pcf_addr(vs.as_str()) {
            Ok(a) => cfg.pcf8574_addr = a,
            Err(e) => return Err(detail_error("invalid pcf8574_addr", n, e.as_str())),
        }
    } else if eq_str(key, "display_driver") {
        match DisplayDriver::parse(vs.as_str()) {
            Ok(d) => cfg.display_driver = d,
            Err(e) => return Err(detail_error("invalid display_driver", n, e.as_str())),
        }
    } else if eq_str(key, "backoff_initial_ms") {
        let x = num_value(v, 0xffff_ffff_ffff_ffff, "invalid backoff_initial_ms", n)?;
        cfg.backoff_initial_ms = x;
    } else if eq_str(key, "backoff_max_ms") {
        let x = num_value(v, 0xffff_ffff_ffff_ffff, "invalid backoff_max_ms", n)?;
        cfg.backoff_max_ms = x;
    } else if eq_str(key, "button_gpio_pin") {
        if eq_str(v, "null") {
            cfg.button_gpio_pin = None;
        } else {
            let x = num_value(v, 255, "invalid button_gpio_pin", n)?;
            cfg.button_gpio_pin = Some(x as u8);
        }
    } else if eq_str(key, "command_allowlist") {
        match parse_string_array(v) {
            Ok(list) => cfg.command_allowlist = list,
            Err(e) => return Err(detail_error("invalid command_allowlist", n, e.as_str())),
        }
    } else if eq_str(key, "negotiation.node_id") {
        let x = num_value(v, 0xffff_ffff, "invalid negotiation.node_id", n)?;
        cfg.negotiation.node_id = x as u32;
    } else if eq_str(key, "negotiation.preference") {
        match RolePreference::parse(vs.as_str()) {
            Ok(p) => cfg.negotiation.preference = p,
            Err(e) => return Err(detail_error("invalid negotiation.preference", n, e.as_str())),
        }
    } else if eq_str(key, "negotiation.timeout_ms") {
        let x = num_value(v, 0xffff_ffff_ffff_ffff, "invalid negotiation.timeout_ms", n)?;
        cfg.negotiation.timeout_ms = x;
    } else {
        let mut out: Vec<char> = Vec::new();
        extend_str(&mut out, "unknown config key '");
        extend_chars(&mut out, key);
        extend_str(&mut out, "' on line ");
        let d = dec_chars(n);
        extend_chars(&mut out, d.as_slice());
        return Err(err_text(out.as_slice()));
    }
    Ok(())
}

/// Applies the raw line numbered `n`.
fn apply_line_exec(line: &[char], n: u64, cfg: &mut Config) -> (r: crate::Result<()>)
    ensures
        match apply_line(line@, n as nat, old(cfg).view()) {
            Ok(c2) => r is Ok && final(cfg).view() == c2,
            Err(e) => r matches Err(Error::InvalidArgs(m)) && m@ == e,
        },
{
    let t = trim_vec(line);
    if t.len() == 0 || t[0] == '#' {
        return Ok(());
    }
    let k = find_char_from(t.as_slice(), '=', 0);
    assert(t@.subrange(0, t@.len() as int) =~= t@);
    if k == t.len() {
        let mut out: Vec<char> = Vec::new();
        extend_str(&mut out, "invalid config line ");
        let d = dec_chars(n);
        extend_chars(&mut out, d.as_slice());
        extend_str(&mut out, ": '");
        extend_chars(&mut out, line);
        extend_str(&mut out, "'");
        return Err(err_text(out.as_slice()));
    }
    let key_raw = slice_vec(t.as_slice(), 0, k);
    let val_raw = slice_vec(t.as_slice(), k + 1, t.len());
    let key = trim_vec(key_raw.as_slice());
    let vt = trim_vec(val_raw.as_slice());
    let value = trim_char_vec(vt.as_slice(), '"');
    apply_key_exec(key.as_slice(), value.as_slice(), n, cfg)
}

/// Parses the text of a config file and validates the result.
pub fn parse_config_text(raw: &str) -> (r: crate::Result<Config>)
    ensures
        match config_from_text(raw@) {
            Ok(cv) => r matches Ok(c) && c.view() == cv,
            Err(e) => r matches Err(Error::InvalidArgs(m)) && m@ == e,
        },
{
    let chars = chars_of(raw);
    let ls = split_lines(chars.as_slice());
    let ghost lv = ls@.map_values(|l: Vec<char>| l@);
    let mut cfg = Config::default();
    let mut i: usize = 0;
    assert(lv.subrange(0, lv.len() as int) =~= lv);
    while i < ls.len()
        invariant
            i <= ls@.len(),
            lv == ls@.map_values(|l: Vec<char>| l@),
            lv == lines(raw@),
            apply_lines(lv, 1, default_config()) == apply_lines(
                lv.subrange(i as int, lv.len() as int),
                (i + 1) as nat,
                cfg.view(),
            ),
        decreases ls@.len() - i,
    {
        let ghost rest = lv.subrange(i as int, lv.len() as int);
        assert(rest[0] == ls@[i as int]@);
        assert(rest.drop_first() =~= lv.subrange(i + 1, lv.len() as int));
        let n: u64 = i as u64 + 1;
        apply_line_exec(ls[i].as_slice(), n, &mut cfg)?;
        i = i + 1;
    }
    assert(lv.subrange(i as int, lv.len() as int) =~= Seq::<Seq<char>>::empty());
    validate(&cfg)?;
    Ok(cfg)
}

/// The configuration to use when the file holds `existing`, or the validated
/// defaults when there is no file.
pub fn load_from_contents(existing: Option<&str>) -> (r: crate::Result<Config>)
    ensures
        match existing {
            Some(raw) => match config_from_text(raw@) {
                Ok(cv) => r matches Ok(c) && c.view() == cv,
                Err(e) => r matches Err(Error::InvalidArgs(m)) && m@ == e,
            },
            None => r matches Ok(c) && c.view() == default_config(),
        },
{
    match existing {
        Some(raw) => parse_config_text(raw),
        None => {
            let cfg = Config::default();
            validate(&cfg)?;
            Ok(cfg)
        },
    }
}

pub open spec fn escape_char(c: char) -> Seq<char> {
    if c == '\\' {
        seq!['\\', '\\']
    } else if c == '"' {
        seq!['\\', '"']
    } else {
        seq![c]
    }
}

/// Backslashes and double quotes escaped with a backslash.
pub open spec fn escaped(s: Seq<char>) -> Seq<char>
    decreases s.len(),
{
    if s.len() == 0 {
        Seq::empty()
    } else {
        escaped(s.drop_last()) + escape_char(s.last())
    }
}

pub open spec fn quoted_items(list: Seq<Seq<char>>) -> Seq<char>
    decreases list.len(),
{
    if list.len() == 0 {
        Seq::empty()
    } else if list.len() == 1 {
        seq!['"'] + escaped(list[0]) + seq!['"']
    } else {
        quoted_items(list.drop_last()) + ", "@ + seq!['"'] + escaped(list.last()) + seq!['"']
    }
}

/// The array literal that the file stores for `list`.
pub open spec fn array_text(list: Seq<Seq<char>>) -> Seq<char> {
    if list.len() == 0 {
        "[]"@
    } else {
        seq!['['] + quoted_items(list) + seq![']']
    }
}

pub open spec fn hex_lower_digit(d: nat) -> char {
    if d < 10 {
        ((d + 48) as u32) as char
    } else {
        ((d + 87) as u32) as char
    }
}

pub open spec fn pcf_text(a: Pcf8574Addr) -> Seq<char> {
    match a {
        Pcf8574Addr::Auto => "\"auto\""@,
        Pcf8574Addr::Addr(x) => "0x"@ + seq![hex_lower_digit(x as nat / 16), hex_lower_digit(x as nat % 16)],
    }
}

pub open spec fn pin_text(p: Option<u8>) -> Seq<char> {
    match p {
        Some(x) => dec(x as nat),
        None => "null"@,
    }
}

pub open spec fn kv(key: Seq<char>, value: Seq<char>) -> Seq<char> {
    key + " = "@ + value + seq!['\n']
}

pub open spec fn kq(key: Seq<char>, value: Seq<char>) -> Seq<char> {
    key + " = "@ + seq!['"'] + value + seq!['"', '\n']
}

/// The text that saving `c` writes.
pub open spec fn config_text(c: ConfigView) -> Seq<char> {
    "# lifelinetty config\n"@
    + kq("device"@, c.device)
    + kv("baud"@, dec(c.baud as nat))
    + kq("flow_control"@, flow_control_name(c.flow_control))
    + kq("parity"@, parity_name(c.parity))
    + kq("stop_bits"@, stop_bits_name(c.stop_bits))
    + kq("dtr_on_open"@, dtr_name(c.dtr_on_open))
    + kv("serial_timeout_ms"@, dec(c.serial_timeout_ms as nat))
    + kv("cols"@, dec(c.cols as nat))
    + kv("rows"@, dec(c.rows as nat))
    + kv("scroll_speed_ms"@, dec(c.scroll_speed_ms as nat))
    + kv("page_timeout_ms"@, dec(c.page_timeout_ms as nat))
    + kv("lcd_present"@, bool_text(c.lcd_present))
    + kv("polling_enabled"@, bool_text(c.polling_enabled))
    + kv("poll_interval_ms"@, dec(c.poll_interval_ms as nat))
    + kv("button_gpio_pin"@, pin_text(c.button_gpio_pin))
    + kv("pcf8574_addr"@, pcf_text(c.pcf8574_addr))
    + kq("display_driver"@, display_driver_name(c.display_driver))
    + kv("backoff_initial_ms"@, dec(c.backoff_initial_ms as nat))
    + kv("backoff_max_ms"@, dec(c.backoff_max_ms as nat))
    + kv("command_allowlist"@, array_text(c.command_allowlist))
    + kv("negotiation.node_id"@, dec(c.negotiation.node_id as nat))
    + kq("negotiation.preference"@, role_preference_name(c.negotiation.preference))
    + kv("negotiation.timeout_ms"@, dec(c.negotiation.timeout_ms as nat))
}

fn push_escaped(out: &mut Vec<char>, v: &[char])
    ensures
        final(out)@ == old(out)@ + escaped(v@),
{
    let ghost start = out@;
    let mut i: usize = 0;
    assert(escaped(v@.subrange(0, 0)) =~= Seq::<char>::empty());
    while i < v.len()
        invariant
            i <= v@.len(),
            out@ == start + escaped(v@.subrange(0, i as int)),
        decreases v@.len() - i,
    {
        let c = v[i];
        let ghost pre = out@;
        if c == '\\' {
            out.push('\\');
            out.push('\\');
        } else if c == '"' {
            out.push('\\');
            out.push('"');
        } else {
            out.push(c);
        }
        assert(v@.subrange(0, i + 1).drop_last() =~= v@.subrange(0, i as int));
        assert(out@ =~= pre + escape_char(c));
        i = i + 1;
    }
    assert(v@.subrange(0, v@.len() as int) =~= v@);
}

/// The array literal for `values`, each entry quoted and escaped.
pub fn format_string_array(values: &[String]) -> (r: String)
    ensures
        r@ == array_text(strings_view(values@)),
{
    let ghost sv = strings_view(values@);
    if values.len() == 0 {
        return String::from_str("[]");
    }
    let mut out: Vec<char> = Vec::new();
    out.push('[');
    let mut i: usize = 0;
    while i < values.len()
        invariant
            i <= values@.len(),
            values@.len() > 0,
            sv == strings_view(values@),
            out@ == seq!['['] + quoted_items(sv.subrange(0, i as int)),
        decreases values@.len() - i,
    {
        let ghost pre = out@;
        if i > 0 {
            extend_str(&mut out, ", ");
        }
        out.push('"');
        let cs = chars_of(values[i].as_str());
        push_escaped(&mut out, cs.as_slice());
        out.push('"');
        proof {
            let sub = sv.subrange(0, i + 1);
            assert(sub.drop_last() =~= sv.subrange(0, i as int));
            assert(sub.last() == values@[i as int]@);
            if i == 0 {
                assert(sub.len() == 1);
                assert(sub[0] == sub.last());
                assert(quoted_items(sv.subrange(0, 0)) =~= Seq::<char>::empty());
                assert(out@ =~= seq!['['] + quoted_items(sub));
            } else {
                assert(out@ =~= seq!['['] + quoted_items(sub));
            }
        }
        i = i + 1;
    }
    out.push(']');
    assert(sv.subrange(0, values@.len() as int) =~= sv);
    string_of(out.as_slice())
}

fn hex_lower_digit_exec(d: u8) -> (r: char)
    requires
        d < 16,
    ensures
        r == hex_lower_digit(d as nat),
{
    if d < 10 {
        (d + 48) as char
    } else {
        (d + 87) as char
    }
}

fn push_kv_num(out: &mut Vec<char>, key: &str, value: u64)
    ensures
        final(out)@ == old(out)@ + kv(key@, dec(value as nat)),
{
    let ghost start = out@;
    extend_str(out, key);
    extend_str(out, " = ");
    let d = dec_chars(value);
    extend_chars(out, d.as_slice());
    out.push('\n');
    assert(out@ =~= start + kv(key@, dec(value as nat)));
}

fn push_kv(out: &mut Vec<char>, key: &str, value: &[char])
    ensures
        final(out)@ == old(out)@ + kv(key@, value@),
{
    let ghost start = out@;
    extend_str(out, key);
    extend_str(out, " = ");
    extend_chars(out, value);
    out.push('\n');
    assert(out@ =~= start + kv(key@, value@));
}

fn push_kq(out: &mut Vec<char>, key: &str, value: &[char])
    ensures
        final(out)@ == old(out)@ + kq(key@, value@),
{
    let ghost start = out@;
    extend_str(out, key);
    extend_str(out, " = ");
    out.push('"');
    extend_chars(out, value);
    out.push('"');
    out.push('\n');
    assert(out@ =~= start + kq(key@, value@));
}

fn bool_chars(b: bool) -> (r: Vec<char>)
    ensures
        r@ == bool_text(b),
{
    if b {
        chars_of("true")
    } else {
        chars_of("false")
    }
}

fn pcf_chars(a: Pcf8574Addr) -> (r: Vec<char>)
    ensures
        r@ == pcf_text(a),
{
    match a {
        Pcf8574Addr::Auto => chars_of("\"auto\""),
        Pcf8574Addr::Addr(x) => {
            let mut v = chars_of("0x");
            v.push(hex_lower_digit_exec(x / 16));
            v.push(hex_lower_digit_exec(x % 16));
            v
        },
    }
}

fn pin_chars(p: Option<u8>) -> (r: Vec<char>)
    ensures
        r@ == pin_text(p),
{
    match p {
        Some(x) => dec_chars(x as u64),
        None => chars_of("null"),
    }
}

impl Config {
    /// The text that saving this configuration writes.
    pub fn to_text(&self) -> (r: String)
        ensures
            r@ == config_text(self.view()),
    {
        let mut out: Vec<char> = Vec::new();
        extend_str(&mut out, "# lifelinetty config\n");
        let dev = chars_of(self.device.as_str());
        push_kq(&mut out, "device", dev.as_slice());
        push_kv_num(&mut out, "baud", self.baud as u64);
        push_kq(&mut out, "flow_control", chars_of(self.flow_control.as_str()).as_slice());
        push_kq(&mut out, "parity", chars_of(self.parity.as_str()).as_slice());
        push_kq(&mut out, "stop_bits", chars_of(self.stop_bits.as_str()).as_slice());
        push_kq(&mut out, "dtr_on_open", chars_of(self.dtr_on_open.as_str()).as_slice());
        push_kv_num(&mut out, "serial_timeout_ms", self.serial_timeout_ms);
        push_kv_num(&mut out, "cols", self.cols as u64);
        push_kv_num(&mut out, "rows", self.rows as u64);
        push_kv_num(&mut out, "scroll_speed_ms", self.scroll_speed_ms);
        push_kv_num(&mut out, "page_timeout_ms", self.page_timeout_ms);
        push_kv(&mut out, "lcd_present", bool_chars(self.lcd_present).as_slice());
        push_kv(&mut out, "polling_enabled", bool_chars(self.polling_enabled).as_slice());
        push_kv_num(&mut out, "poll_interval_ms", self.poll_interval_ms);
        push_kv(&mut out, "button_gpio_pin", pin_chars(self.button_gpio_pin).as_slice());
        push_kv(&mut out, "pcf8574_addr", pcf_chars(self.pcf8574_addr).as_slice());
        push_kq(&mut out, "display_driver", chars_of(self.display_driver.as_str()).as_slice());
        push_kv_num(&mut out, "backoff_initial_ms", self.backoff_initial_ms);
        push_kv_num(&mut out, "backoff_max_ms", self.backoff_max_ms);
        let arr = format_string_array(self.command_allowlist.as_slice());
        push_kv(&mut out, "command_allowlist", chars_of(arr.as_str()).as_slice());
        push_kv_num(&mut out, "negotiation.node_id", self.negotiation.node_id as u64);
        push_kq(&mut out, "negotiation.preference", chars_of(self.negotiation.preference.as_str()).as_slice());
        push_kv_num(&mut out, "negotiation.timeout_ms", self.negotiation.timeout_ms);
        assert(out@ =~= config_text(self.view()));
        string_of(out.as_slice())
    }

    /// Parses and validates the text of a config file.
    pub fn parse(raw: &str) -> (r: crate::Result<Config>)
        ensures
            match config_from_text(raw@) {
                Ok(cv) => r matches Ok(c) && c.view() == cv,
                Err(e) => r matches Err(Error::InvalidArgs(m)) && m@ == e,
            },
    {
        parse_config_text(raw)
    }
}

} // verus!
