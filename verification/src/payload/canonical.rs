//! The canonical JSON text of a payload, and the CRC-32 check a payload may
//! carry over it.
//!
//! The canonical text lists every field in declaration order, `null` for an
//! absent one, with no whitespace; strings are escaped as `serde_json`
//! writes them (quote, backslash and control characters only).
use vstd::prelude::*;
use vstd::string::StringExecFns;
use crate::config::{strip_prefix_rep, strip_hex_prefixes};
use crate::payload::{Payload, PayloadView};
use crate::text::{chars_of, dec, dec_chars, parse_hex, parse_hex_chars, string_of};
use crate::Error;

verus! {

/// Lower-case hexadecimal digit of `d < 16`.
pub open spec fn hex_lower(d: nat) -> char {
    if d < 10 {
        ((d + 48) as u32) as char
    } else {
        ((d + 87) as u32) as char
    }
}

/// How one character is written inside a JSON string.
pub open spec fn json_escape_char(c: char) -> Seq<char> {
    if c == '"' {
        seq!['\\', '"']
    } else if c == '\\' {
        seq!['\\', '\\']
    } else if c == '\n' {
        seq!['\\', 'n']
    } else if c == '\r' {
        seq!['\\', 'r']
    } else if c == '\t' {
        seq!['\\', 't']
    } else if c == '\x08' {
        seq!['\\', 'b']
    } else if c == '\x0c' {
        seq!['\\', 'f']
    } else if (c as u32) < 0x20 {
        seq!['\\', 'u', '0', '0', hex_lower(((c as u32) / 16) as nat), hex_lower(((c as u32) % 16) as nat)]
    } else {
        seq![c]
    }
}

/// The escaped characters of `s`.
pub open spec fn json_escaped(s: Seq<char>) -> Seq<char>
    decreases s.len(),
{
    if s.len() == 0 {
        Seq::empty()
    } else {
        json_escaped(s.drop_last()) + json_escape_char(s.last())
    }
}

/// `s` as a JSON string.
pub open spec fn json_string(s: Seq<char>) -> Seq<char> {
    seq!['"'] + json_escaped(s) + seq!['"']
}

/// `"name":value`.
pub open spec fn json_member(name: Seq<char>, value: Seq<char>) -> Seq<char> {
    json_string(name) + seq![':'] + value
}

pub open spec fn json_null() -> Seq<char> {
    seq!['n', 'u', 'l', 'l']
}

pub open spec fn json_bool(b: bool) -> Seq<char> {
    if b {
        seq!['t', 'r', 'u', 'e']
    } else {
        seq!['f', 'a', 'l', 's', 'e']
    }
}

pub open spec fn json_opt_bool(o: Option<bool>) -> Seq<char> {
    match o {
        Some(b) => json_bool(b),
        None => json_null(),
    }
}

pub open spec fn json_opt_num(o: Option<nat>) -> Seq<char> {
    match o {
        Some(n) => dec(n),
        None => json_null(),
    }
}

pub open spec fn json_opt_string(o: Option<Seq<char>>) -> Seq<char> {
    match o {
        Some(s) => json_string(s),
        None => json_null(),
    }
}

/// The items of a string array, each a JSON string, separated by commas.
pub open spec fn json_string_items(items: Seq<Seq<char>>) -> Seq<char>
    decreases items.len(),
{
    if items.len() == 0 {
        Seq::empty()
    } else if items.len() == 1 {
        json_string(items[0])
    } else {
        json_string_items(items.drop_last()) + seq![','] + json_string(items.last())
    }
}

pub open spec fn json_opt_string_list(o: Option<Seq<Seq<char>>>) -> Seq<char> {
    match o {
        Some(items) => seq!['['] + json_string_items(items) + seq![']'],
        None => json_null(),
    }
}

pub open spec fn nat_u8(o: Option<u8>) -> Option<nat> {
    match o {
        Some(x) => Some(x as nat),
        None => None,
    }
}

pub open spec fn nat_u32(o: Option<u32>) -> Option<nat> {
    match o {
        Some(x) => Some(x as nat),
        None => None,
    }
}

pub open spec fn nat_u64(o: Option<u64>) -> Option<nat> {
    match o {
        Some(x) => Some(x as nat),
        None => None,
    }
}

/// `,"name":value`: a member after the first.
pub open spec fn json_field(name: Seq<char>, value: Seq<char>) -> Seq<char> {
    seq![','] + json_member(name, value)
}

/// The JSON text of a payload: every field, in declaration order.
pub open spec fn payload_json(p: PayloadView) -> Seq<char> {
    seq!['{'] + json_member("line1"@, json_string(p.line1)) + json_field(
        "line2"@,
        json_string(p.line2),
    ) + json_field("schema_version"@, json_opt_num(nat_u8(p.schema_version))) + json_field(
        "bar"@,
        json_opt_num(nat_u8(p.bar)),
    ) + json_field("bar_value"@, json_opt_num(nat_u32(p.bar_value))) + json_field(
        "bar_max"@,
        json_opt_num(nat_u32(p.bar_max)),
    ) + json_field("bar_label"@, json_opt_string(p.bar_label)) + json_field(
        "bar_line1"@,
        json_opt_bool(p.bar_line1),
    ) + json_field("bar_line2"@, json_opt_bool(p.bar_line2)) + json_field(
        "backlight"@,
        json_opt_bool(p.backlight),
    ) + json_field("blink"@, json_opt_bool(p.blink)) + json_field(
        "scroll"@,
        json_opt_bool(p.scroll),
    ) + json_field("scroll_speed_ms"@, json_opt_num(nat_u64(p.scroll_speed_ms))) + json_field(
        "duration_ms"@,
        json_opt_num(nat_u64(p.duration_ms)),
    ) + json_field("page_timeout_ms"@, json_opt_num(nat_u64(p.page_timeout_ms))) + json_field(
        "clear"@,
        json_opt_bool(p.clear),
    ) + json_field("test"@, json_opt_bool(p.test)) + json_field(
        "mode"@,
        json_opt_string(p.mode),
    ) + json_field("icons"@, json_opt_string_list(p.icons)) + json_field(
        "checksum"@,
        json_opt_string(p.checksum),
    ) + json_field("config_reload"@, json_opt_bool(p.config_reload)) + seq!['}']
}

/// The text a payload's checksum covers: the payload without its checksum.
pub open spec fn payload_checksum_text(p: PayloadView) -> Seq<char> {
    payload_json(PayloadView { checksum: None, ..p })
}

/// `n` steps of the bitwise CRC-32 register update (reflected, polynomial
/// `0xEDB88320`).
pub open spec fn crc_shift(c: u32, n: nat) -> u32
    decreases n,
{
    if n == 0 {
        c
    } else {
        let next: u32 = if c & 1u32 == 1u32 {
            (c >> 1u32) ^ 0xEDB8_8320u32
        } else {
            c >> 1u32
        };
        crc_shift(next, (n - 1) as nat)
    }
}

/// The CRC-32 register after taking in `data`, from `c`.
pub open spec fn crc_update(c: u32, data: Seq<u8>) -> u32
    decreases data.len(),
{
    if data.len() == 0 {
        c
    } else {
        crc_update(crc_shift(c ^ (data[0] as u32), 8), data.drop_first())
    }
}

/// The CRC-32 (IEEE 802.3: reflected, polynomial `0x04C11DB7`, register
/// starting at and finally XORed with `0xFFFFFFFF`) of `bytes`.
pub open spec fn crc32_of(bytes: Seq<u8>) -> u32 {
    crc_update(0xFFFF_FFFFu32, bytes) ^ 0xFFFF_FFFFu32
}

/// `crc32fast::hash`: the standard CRC-32 (IEEE) of `bytes`, as
/// `crc32_of` defines it.
#[verifier::external_body]
pub(crate) fn crc32(bytes: &[u8]) -> (r: u32)
    ensures
        r == crc32_of(bytes@),
{
    crc32fast::hash(bytes)
}

/// The value a checksum field holds: hexadecimal after any run of leading
/// `0x`, as `u32::from_str_radix` reads it.
pub open spec fn checksum_value(hex: Seq<char>) -> Option<nat> {
    parse_hex(strip_prefix_rep(hex, "0x"@), 0xffff_ffff)
}

/// Checks a payload's checksum field against the CRC computed over its
/// canonical text.
pub fn verify_checksum(checksum_hex: &str, computed: u32) -> (r: Result<(), Error>)
    ensures
        match checksum_value(checksum_hex@) {
            None => r matches Err(Error::Parse(m)) && m@ == "invalid checksum hex"@,
            Some(x) => if x == computed as nat {
                r is Ok
            } else {
                r matches Err(Error::ChecksumMismatch)
            },
        },
{
    let v = chars_of(checksum_hex);
    let cleaned = strip_hex_prefixes(v.as_slice());
    match parse_hex_chars(cleaned.as_slice(), 0xffff_ffff) {
        None => Err(Error::Parse(String::from_str("invalid checksum hex"))),
        Some(x) => if x == computed as u64 {
            Ok(())
        } else {
            Err(Error::ChecksumMismatch)
        },
    }
}

fn hex_lower_exec(d: u32) -> (r: char)
    requires
        d < 16,
    ensures
        r == hex_lower(d as nat),
{
    if d < 10 {
        let b: u8 = (d + 48) as u8;
        b as char
    } else {
        let b: u8 = (d + 87) as u8;
        b as char
    }
}

fn push_seq3(out: &mut Vec<char>, a: char, b: char)
    ensures
        final(out)@ == old(out)@ + seq![a, b],
{
    out.push(a);
    out.push(b);
    assert(final(out)@ =~= old(out)@ + seq![a, b]);
}

/// Appends `s` escaped for a JSON string.
pub(crate) fn push_escaped(out: &mut Vec<char>, s: &[char])
    ensures
        final(out)@ == old(out)@ + json_escaped(s@),
{
    let ghost start = out@;
    let mut i: usize = 0;
    while i < s.len()
        invariant
            i <= s@.len(),
            out@ == start + json_escaped(s@.take(i as int)),
        decreases s@.len() - i,
    {
        let c = s[i];
        let ghost before = out@;
        assert(s@.take(i + 1).drop_last() =~= s@.take(i as int));
        assert(s@.take(i + 1).last() == c);
        if c == '"' {
            push_seq3(out, '\\', '"');
        } else if c == '\\' {
            push_seq3(out, '\\', '\\');
        } else if c == '\n' {
            push_seq3(out, '\\', 'n');
        } else if c == '\r' {
            push_seq3(out, '\\', 'r');
        } else if c == '\t' {
            push_seq3(out, '\\', 't');
        } else if c == '\x08' {
            push_seq3(out, '\\', 'b');
        } else if c == '\x0c' {
            push_seq3(out, '\\', 'f');
        } else if (c as u32) < 0x20 {
            let code = c as u32;
            out.push('\\');
            out.push('u');
            out.push('0');
            out.push('0');
            let hi = hex_lower_exec(code / 16);
            let lo = hex_lower_exec(code % 16);
            out.push(hi);
            out.push(lo);
            assert(json_escape_char(c) == seq!['\\', 'u', '0', '0', hi, lo]);
            assert(out@ =~= before + json_escape_char(c));
        } else {
            out.push(c);
            assert(out@ =~= before + json_escape_char(c));
        }
        assert(out@ =~= start + json_escaped(s@.take(i + 1)));
        i = i + 1;
    }
    assert(s@.take(s@.len() as int) =~= s@);
}

/// Appends `s` as a JSON string.
pub(crate) fn push_json_string(out: &mut Vec<char>, s: &[char])
    ensures
        final(out)@ == old(out)@ + json_string(s@),
{
    let ghost start = out@;
    out.push('"');
    push_escaped(out, s);
    out.push('"');
    assert(out@ =~= start + json_string(s@));
}

/// Appends `,"name":` (the comma left out for the first member).
pub(crate) fn push_key(out: &mut Vec<char>, name: &str, first: bool)
    ensures
        final(out)@ == old(out)@ + (if first {
            Seq::empty()
        } else {
            seq![',']
        }) + json_string(name@) + seq![':'],
{
    let ghost start = out@;
    if !first {
        out.push(',');
    }
    let ghost mid = out@;
    let v = chars_of(name);
    push_json_string(out, v.as_slice());
    out.push(':');
    assert(out@ =~= mid + json_string(name@) + seq![':']);
    assert(out@ =~= start + (if first {
        Seq::empty()
    } else {
        seq![',']
    }) + json_string(name@) + seq![':']);
}

pub(crate) fn push_all(out: &mut Vec<char>, s: &[char])
    ensures
        final(out)@ == old(out)@ + s@,
{
    crate::text::extend_chars(out, s);
}

pub(crate) fn push_null(out: &mut Vec<char>)
    ensures
        final(out)@ == old(out)@ + json_null(),
{
    let ghost start = out@;
    out.push('n');
    out.push('u');
    out.push('l');
    out.push('l');
    assert(out@ =~= start + json_null());
}

fn push_opt_bool(out: &mut Vec<char>, o: Option<bool>)
    ensures
        final(out)@ == old(out)@ + json_opt_bool(o),
{
    let ghost start = out@;
    match o {
        Some(true) => {
            out.push('t');
            out.push('r');
            out.push('u');
            out.push('e');
        },
        Some(false) => {
            out.push('f');
            out.push('a');
            out.push('l');
            out.push('s');
            out.push('e');
        },
        None => {
            push_null(out);
        },
    }
    assert(out@ =~= start + json_opt_bool(o));
}

pub(crate) fn push_opt_num(out: &mut Vec<char>, o: Option<u64>)
    ensures
        final(out)@ == old(out)@ + json_opt_num(nat_u64(o)),
{
    match o {
        Some(n) => {
            let d = dec_chars(n);
            push_all(out, d.as_slice());
        },
        None => push_null(out),
    }
}

fn widen_u8(o: Option<u8>) -> (r: Option<u64>)
    ensures
        nat_u64(r) == nat_u8(o),
{
    match o {
        Some(x) => Some(x as u64),
        None => None,
    }
}

fn widen_u32(o: Option<u32>) -> (r: Option<u64>)
    ensures
        nat_u64(r) == nat_u32(o),
{
    match o {
        Some(x) => Some(x as u64),
        None => None,
    }
}

pub(crate) fn push_opt_string(out: &mut Vec<char>, o: &Option<String>)
    ensures
        final(out)@ == old(out)@ + json_opt_string(crate::payload::opt_text(*o)),
{
    match o {
        Some(s) => {
            let v = chars_of(s.as_str());
            push_json_string(out, v.as_slice());
        },
        None => push_null(out),
    }
}

fn push_opt_string_list(out: &mut Vec<char>, o: &Option<Vec<String>>)
    ensures
        final(out)@ == old(out)@ + json_opt_string_list(
            match *o {
                Some(v) => Some(crate::payload::texts(v@)),
                None => None,
            },
        ),
{
    let ghost start = out@;
    match o {
        None => push_null(out),
        Some(items) => {
            let ghost all = crate::payload::texts(items@);
            out.push('[');
            let mut i: usize = 0;
            while i < items.len()
                invariant
                    i <= items@.len(),
                    all == crate::payload::texts(items@),
                    out@ == start + seq!['['] + json_string_items(all.take(i as int)),
                decreases items@.len() - i,
            {
                let ghost before = out@;
                assert(all.take(i + 1).drop_last() =~= all.take(i as int));
                assert(all.take(i + 1).last() == items@[i as int]@);
                if i > 0 {
                    out.push(',');
                }
                let v = chars_of(items[i].as_str());
                push_json_string(out, v.as_slice());
                if i == 0 {
                    assert(all.take(1) =~= seq![all[0]]);
                    assert(json_string_items(all.take(1)) == json_string(all[0]));
                    assert(out@ =~= start + seq!['['] + json_string_items(all.take(i + 1)));
                } else {
                    assert(out@ =~= start + seq!['['] + json_string_items(all.take(i + 1)));
                }
                i = i + 1;
            }
            assert(all.take(items@.len() as int) =~= all);
            out.push(']');
            assert(out@ =~= start + json_opt_string_list(Some(all)));
        },
    }
}

fn push_field_text(out: &mut Vec<char>, name: &str, s: &[char])
    ensures
        final(out)@ == old(out)@ + json_field(name@, json_string(s@)),
{
    let ghost start = out@;
    push_key(out, name, false);
    push_json_string(out, s);
    assert(out@ =~= start + json_field(name@, json_string(s@)));
}

fn push_field_opt_num(out: &mut Vec<char>, name: &str, o: Option<u64>)
    ensures
        final(out)@ == old(out)@ + json_field(name@, json_opt_num(nat_u64(o))),
{
    let ghost start = out@;
    push_key(out, name, false);
    push_opt_num(out, o);
    assert(out@ =~= start + json_field(name@, json_opt_num(nat_u64(o))));
}

fn push_field_opt_bool(out: &mut Vec<char>, name: &str, o: Option<bool>)
    ensures
        final(out)@ == old(out)@ + json_field(name@, json_opt_bool(o)),
{
    let ghost start = out@;
    push_key(out, name, false);
    push_opt_bool(out, o);
    assert(out@ =~= start + json_field(name@, json_opt_bool(o)));
}

fn push_field_opt_string(out: &mut Vec<char>, name: &str, o: &Option<String>)
    ensures
        final(out)@ == old(out)@ + json_field(name@, json_opt_string(crate::payload::opt_text(*o))),
{
    let ghost start = out@;
    push_key(out, name, false);
    push_opt_string(out, o);
    assert(out@ =~= start + json_field(name@, json_opt_string(crate::payload::opt_text(*o))));
}

fn push_field_opt_string_list(out: &mut Vec<char>, name: &str, o: &Option<Vec<String>>)
    ensures
        final(out)@ == old(out)@ + json_field(
            name@,
            json_opt_string_list(
                match *o {
                    Some(v) => Some(crate::payload::texts(v@)),
                    None => None,
                },
            ),
        ),
{
    let ghost start = out@;
    push_key(out, name, false);
    push_opt_string_list(out, o);
    assert(out@ =~= start + json_field(
        name@,
        json_opt_string_list(
            match *o {
                Some(v) => Some(crate::payload::texts(v@)),
                None => None,
            },
        ),
    ));
}

fn push_field_null(out: &mut Vec<char>, name: &str)
    ensures
        final(out)@ == old(out)@ + json_field(name@, json_null()),
{
    let ghost start = out@;
    push_key(out, name, false);
    push_null(out);
    assert(out@ =~= start + json_field(name@, json_null()));
}

/// The text a payload's checksum covers.
pub fn checksum_text(p: &Payload) -> (r: String)
    ensures
        r@ == payload_checksum_text(p@),
{
    let mut out: Vec<char> = Vec::new();
    out.push('{');
    let l1 = chars_of(p.line1.as_str());
    let l2 = chars_of(p.line2.as_str());
    push_key(&mut out, "line1", true);
    push_json_string(&mut out, l1.as_slice());
    assert(out@ =~= seq!['{'] + json_member("line1"@, json_string(p.line1@)));
    push_field_text(&mut out, "line2", l2.as_slice());
    push_field_opt_num(&mut out, "schema_version", widen_u8(p.schema_version));
    push_field_opt_num(&mut out, "bar", widen_u8(p.bar));
    push_field_opt_num(&mut out, "bar_value", widen_u32(p.bar_value));
    push_field_opt_num(&mut out, "bar_max", widen_u32(p.bar_max));
    push_field_opt_string(&mut out, "bar_label", &p.bar_label);
    push_field_opt_bool(&mut out, "bar_line1", p.bar_line1);
    push_field_opt_bool(&mut out, "bar_line2", p.bar_line2);
    push_field_opt_bool(&mut out, "backlight", p.backlight);
    push_field_opt_bool(&mut out, "blink", p.blink);
    push_field_opt_bool(&mut out, "scroll", p.scroll);
    push_field_opt_num(&mut out, "scroll_speed_ms", p.scroll_speed_ms);
    push_field_opt_num(&mut out, "duration_ms", p.duration_ms);
    push_field_opt_num(&mut out, "page_timeout_ms", p.page_timeout_ms);
    push_field_opt_bool(&mut out, "clear", p.clear);
    push_field_opt_bool(&mut out, "test", p.test);
    push_field_opt_string(&mut out, "mode", &p.mode);
    push_field_opt_string_list(&mut out, "icons", &p.icons);
    push_field_null(&mut out, "checksum");
    push_field_opt_bool(&mut out, "config_reload", p.config_reload);
    out.push('}');
    assert(out@ == payload_checksum_text(p@));
    string_of(out.as_slice())
}

} // verus!
