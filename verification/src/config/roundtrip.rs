//! Saving a configuration and loading it back.
use vstd::prelude::*;

use super::format::{on_line, apply_lines, config_from_text, config_text, kq, kv, array_text, collect_items, escape_char, escaped, quoted_items, string_array_from, unquote, apply_key, apply_line, bool_from, bool_text, hex_lower_digit, pcf_text, pin_text};
use super::{config_violation, default_config, default_protocol, default_watchdog, ConfigView, NegotiationConfig, RolePreference, role_preference_error, role_preference_from, role_preference_name};
use super::{display_driver_from, display_driver_name, pcf_addr_from, strip_prefix_rep, DisplayDriver, Pcf8574Addr};
use crate::serial::{
    dtr_from, dtr_name, flow_control_from, flow_control_name, parity_from, parity_name,
    stop_bits_from, stop_bits_name, DtrBehavior, FlowControlMode, ParityMode, StopBitsMode,
};
use crate::text::{
    lines, strip_cr, find_char, is_ws, split_on, lemma_find_char_bounds, lemma_find_char_is, lemma_strip_end_take, lemma_strip_start_skip,
    lemma_trim_end_take, lemma_trim_start_skip, split_once, strip_end_char, strip_start_char,
    trim_char, trim_end, trim_start,
    all_digits, all_hex, ascii_lower, hex_val, hex_value, is_hex_digit, is_prefix, lemma_dec_shape,
    lemma_parse_dec, parse_hex, parse_unsigned, trim, dec, is_digit,
};

verus! {

proof fn lemma_flow_control_name(m: FlowControlMode)
    ensures
        flow_control_from(flow_control_name(m)) == Some(m),
{
    reveal_strlit("none");
    reveal_strlit("software");
    reveal_strlit("hardware");
    reveal_strlit("xonxoff");
    reveal_strlit("xon");
    reveal_strlit("xoff");
    reveal_strlit("rtscts");
    assert(ascii_lower("none"@) =~= "none"@);
    assert(ascii_lower("software"@) =~= "software"@);
    assert(ascii_lower("hardware"@) =~= "hardware"@);
    assert("software"@ != "none"@) by { assert("software"@.len() != "none"@.len()); }
    assert("hardware"@ != "none"@) by { assert("hardware"@.len() != "none"@.len()); }
    assert("hardware"@ != "software"@) by { assert("hardware"@[0] != "software"@[0]); }
    assert("hardware"@ != "xonxoff"@) by { assert("hardware"@.len() != "xonxoff"@.len()); }
    assert("hardware"@ != "xon"@) by { assert("hardware"@.len() != "xon"@.len()); }
    assert("hardware"@ != "xoff"@) by { assert("hardware"@.len() != "xoff"@.len()); }
}

proof fn lemma_parity_name(m: ParityMode)
    ensures
        parity_from(parity_name(m)) == Some(m),
{
    reveal_strlit("none");
    reveal_strlit("odd");
    reveal_strlit("even");
    assert(ascii_lower("none"@) =~= "none"@);
    assert(ascii_lower("odd"@) =~= "odd"@);
    assert(ascii_lower("even"@) =~= "even"@);
    assert("odd"@ != "none"@) by { assert("odd"@.len() != "none"@.len()); }
    assert("even"@ != "none"@) by { assert("even"@[0] != "none"@[0]); }
    assert("even"@ != "odd"@) by { assert("even"@.len() != "odd"@.len()); }
}

proof fn lemma_stop_bits_name(m: StopBitsMode)
    ensures
        stop_bits_from(stop_bits_name(m)) == Some(m),
{
    reveal_strlit("1");
    reveal_strlit("2");
    reveal_strlit("one");
    assert("2"@ != "1"@) by { assert("2"@[0] != "1"@[0]); }
    assert("2"@ != "one"@) by { assert("2"@.len() != "one"@.len()); }
}

proof fn lemma_dtr_name(m: DtrBehavior)
    ensures
        dtr_from(dtr_name(m)) == Some(m),
{
    reveal_strlit("preserve");
    reveal_strlit("auto");
    reveal_strlit("assert");
    reveal_strlit("on");
    reveal_strlit("high");
    reveal_strlit("off");
    assert(ascii_lower("preserve"@) =~= "preserve"@);
    assert(ascii_lower("on"@) =~= "on"@);
    assert(ascii_lower("off"@) =~= "off"@);
}

/// Every display driver reads back from the name it is written as:
/// `DisplayDriver::parse(d.as_str())` is `Ok(d)`.
pub proof fn lemma_display_driver_name(d: DisplayDriver)
    ensures
        display_driver_from(display_driver_name(d)) == Some(d),
{
    reveal_strlit("auto");
    reveal_strlit("in-tree");
    reveal_strlit("intree");
    reveal_strlit("hd44780-driver");
    assert(trim("auto"@) =~= "auto"@) by {
        crate::text::lemma_trim_start_skip("auto"@, 0);
        crate::text::lemma_trim_end_take("auto"@, 4);
    }
    assert(trim("in-tree"@) =~= "in-tree"@) by {
        crate::text::lemma_trim_start_skip("in-tree"@, 0);
        crate::text::lemma_trim_end_take("in-tree"@, 7);
    }
    assert(trim("hd44780-driver"@) =~= "hd44780-driver"@) by {
        crate::text::lemma_trim_start_skip("hd44780-driver"@, 0);
        crate::text::lemma_trim_end_take("hd44780-driver"@, 14);
    }
    assert(ascii_lower("auto"@) =~= "auto"@);
    assert(ascii_lower("in-tree"@) =~= "in-tree"@);
    assert(ascii_lower("hd44780-driver"@) =~= "hd44780-driver"@);
}

proof fn lemma_bool_text(b: bool)
    ensures
        bool_from(bool_text(b)) == Some(b),
{
    reveal_strlit("true");
    reveal_strlit("false");
    assert("false"@ != "true"@) by { assert("false"@.len() != "true"@.len()); }
}

proof fn lemma_hex_lower_digit(d: nat)
    requires
        d < 16,
    ensures
        is_hex_digit(hex_lower_digit(d)),
        hex_val(hex_lower_digit(d)) == d,
        hex_lower_digit(d) != 'x',
        hex_lower_digit(d) != '+',
        hex_lower_digit(d) != '"',
{
    if d < 10 {
        let u: u32 = (d + 48) as u32;
        assert((u as char) as u32 == u);
    } else {
        let u: u32 = (d + 87) as u32;
        assert((u as char) as u32 == u);
    }
}

proof fn lemma_pin_text(p: Option<u8>)
    ensures
        p is None ==> pin_text(p) == "null"@,
        p matches Some(x) ==> pin_text(p) != "null"@ && parse_unsigned(pin_text(p), 255) == Some(
            x as nat,
        ),
{
    reveal_strlit("null");
    match p {
        Some(x) => {
            lemma_dec_shape(x as nat);
            lemma_parse_dec(x as nat, 255);
            assert(is_digit(dec(x as nat)[0]));
            assert(!is_digit("null"@[0]));
        },
        None => {},
    }
}

/// The address text `0xHH` reads back as the address.
proof fn lemma_pcf_hex_text(x: u8)
    ensures
        pcf_addr_from(pcf_text(Pcf8574Addr::Addr(x))) == Some(Pcf8574Addr::Addr(x)),
{
    reveal_strlit("0x");
    reveal_strlit("auto");
    let hi = hex_lower_digit(x as nat / 16);
    let lo = hex_lower_digit(x as nat % 16);
    lemma_hex_lower_digit(x as nat / 16);
    lemma_hex_lower_digit(x as nat % 16);
    let hh = seq![hi, lo];
    let t = pcf_text(Pcf8574Addr::Addr(x));
    assert(t =~= "0x"@ + hh);
    assert(ascii_lower(t)[0] == '0');
    assert("auto"@[0] == 'a');
    assert(ascii_lower(t) != "auto"@);
    assert(is_prefix("0x"@, t)) by {
        assert(t.subrange(0, 2) =~= "0x"@);
    }
    assert(t.subrange(2, t.len() as int) =~= hh);
    assert(!is_prefix("0x"@, hh)) by {
        assert(hh[1] != 'x');
        assert("0x"@[1] == 'x');
        if is_prefix("0x"@, hh) {
            assert(hh.subrange(0, 2)[1] == hh[1]);
        }
    }
    assert(strip_prefix_rep(hh, "0x"@) == hh);
    assert(strip_prefix_rep(t, "0x"@) == hh);
    assert(all_hex(hh));
    assert(hh.drop_last() =~= seq![hi]);
    assert(seq![hi].drop_last() =~= Seq::<char>::empty());
    assert(hex_value(Seq::<char>::empty()) == 0);
    assert(hex_value(seq![hi]) == hex_value(seq![hi].drop_last()) * 16 + hex_val(seq![hi].last()));
    assert(hex_value(seq![hi]) == x as nat / 16);
    assert(hex_value(hh) == hex_value(hh.drop_last()) * 16 + hex_val(hh.last()));
    assert(hex_value(hh) == (x as nat / 16) * 16 + x as nat % 16);
    assert(hex_value(hh) == x as nat);
    assert(parse_hex(hh, 255) == Some(x as nat));
}

/// A config line `key = val` is read as the key with the value, outer
/// double quotes removed.
proof fn lemma_key_line(key: Seq<char>, val: Seq<char>, n: nat, c: ConfigView)
    requires
        key.len() > 0,
        key[0] != '#',
        forall|j: int| 0 <= j < key.len() ==> #[trigger] key[j] != '=' && !is_ws(key[j]),
        val.len() > 0,
        !is_ws(val[0]),
        !is_ws(val.last()),
    ensures
        apply_line(key + " = "@ + val, n, c) == apply_key(key, trim_char(val, '"'), n, c),
{
    reveal_strlit(" = ");
    let line = key + " = "@ + val;
    let kl = key.len() as int;
    lemma_trim_start_skip(line, 0);
    assert(line.subrange(0, line.len() as int) =~= line);
    lemma_trim_end_take(line, line.len() as int);
    assert(trim(line) == line);
    assert forall|j: int| 0 <= j < kl + 1 implies #[trigger] line[j] != '=' by {
        if j < kl {
            assert(line[j] == key[j]);
        } else {
            assert(line[j] == ' ');
        }
    }
    assert(line[kl + 1] == '=');
    lemma_find_char_is(line, '=', kl + 1);
    let k = line.subrange(0, kl + 1);
    let v = line.subrange(kl + 2, line.len() as int);
    assert(split_once(line, '=') == Some((k, v)));
    assert(k =~= key.push(' '));
    assert(v =~= seq![' '] + val);
    lemma_trim_start_skip(k, 0);
    assert(k.subrange(0, k.len() as int) =~= k);
    lemma_trim_end_take(k, kl);
    assert(k.subrange(0, kl) =~= key);
    assert(trim(k) == key);
    lemma_trim_start_skip(v, 1);
    assert(v.subrange(1, v.len() as int) =~= val);
    lemma_trim_end_take(val, val.len() as int);
    assert(val.subrange(0, val.len() as int) =~= val);
    assert(trim(v) == val);
}

/// Whether `s` can stand between double quotes as a config value and read
/// back unchanged: no line break, and no double quote at either end.
pub open spec fn quotable(s: Seq<char>) -> bool {
    &&& forall|j: int| 0 <= j < s.len() ==> #[trigger] s[j] != '\n'
    &&& s.len() > 0 ==> s[0] != '"' && s.last() != '"'
}

/// `s` between double quotes.
pub open spec fn quoted(s: Seq<char>) -> Seq<char> {
    seq!['"'] + s + seq!['"']
}

proof fn lemma_unquote_value(s: Seq<char>)
    requires
        quotable(s),
    ensures
        trim_char(quoted(s), '"') == s,
        !is_ws(quoted(s)[0]),
        !is_ws(quoted(s).last()),
{
    let q = quoted(s);
    if s.len() == 0 {
        lemma_strip_start_skip(q, '"', 2);
        assert(q.subrange(2, 2) =~= Seq::<char>::empty());
        assert(strip_end_char(Seq::<char>::empty(), '"') == Seq::<char>::empty());
        assert(s =~= Seq::<char>::empty());
    } else {
        lemma_strip_start_skip(q, '"', 1);
        let r = q.subrange(1, q.len() as int);
        assert(r =~= s.push('"'));
        lemma_strip_end_take(r, '"', s.len() as int);
        assert(r.subrange(0, s.len() as int) =~= s);
    }
}

proof fn lemma_plain_value(s: Seq<char>)
    requires
        s.len() > 0,
        s[0] != '"',
        s.last() != '"',
    ensures
        trim_char(s, '"') == s,
{
    lemma_strip_start_skip(s, '"', 0);
    assert(s.subrange(0, s.len() as int) =~= s);
    lemma_strip_end_take(s, '"', s.len() as int);
}

/// Whether `s` survives as an entry of the stored command list: not empty,
/// no surrounding whitespace, and none of line break, comma, double quote
/// or backslash.
pub open spec fn listable(s: Seq<char>) -> bool {
    &&& s.len() > 0
    &&& trim(s) == s
    &&& forall|j: int|
        0 <= j < s.len() ==> #[trigger] s[j] != '\n' && s[j] != ',' && s[j] != '"' && s[j] != '\\'
}

proof fn lemma_escaped_plain(s: Seq<char>)
    requires
        forall|j: int| 0 <= j < s.len() ==> #[trigger] s[j] != '"' && s[j] != '\\',
    ensures
        escaped(s) == s,
    decreases s.len(),
{
    if s.len() > 0 {
        let d = s.drop_last();
        assert forall|j: int| 0 <= j < d.len() implies #[trigger] d[j] != '"' && d[j] != '\\' by {
            assert(d[j] == s[j]);
        }
        lemma_escaped_plain(d);
        assert(escape_char(s.last()) =~= seq![s.last()]);
        assert(d.push(s.last()) =~= s);
    }
}

proof fn lemma_split_no_sep(s: Seq<char>, c: char)
    requires
        forall|j: int| 0 <= j < s.len() ==> #[trigger] s[j] != c,
    ensures
        split_on(s, c) == seq![s],
{
    lemma_find_char_is(s, c, s.len() as int);
}

proof fn lemma_split_concat(a: Seq<char>, c: char, b: Seq<char>)
    ensures
        split_on(a + seq![c] + b, c) == split_on(a, c) + split_on(b, c),
    decreases a.len(),
{
    let s = a + seq![c] + b;
    lemma_find_char_bounds(a, c);
    match find_char(a, c) {
        None => {
            assert forall|j: int| 0 <= j < a.len() implies #[trigger] s[j] != c by {
                assert(s[j] == a[j]);
            }
            lemma_find_char_is(s, c, a.len() as int);
            assert(s.subrange(0, a.len() as int) =~= a);
            assert(s.subrange(a.len() as int + 1, s.len() as int) =~= b);
            assert(split_on(a, c) == seq![a]);
            assert(split_on(s, c) =~= seq![a] + split_on(b, c));
        },
        Some(k) => {
            assert forall|j: int| 0 <= j < k implies #[trigger] s[j] != c by {
                assert(s[j] == a[j]);
            }
            lemma_find_char_is(s, c, k as int);
            let rest = a.subrange(k as int + 1, a.len() as int);
            assert(s.subrange(0, k as int) =~= a.subrange(0, k as int));
            assert(s.subrange(k as int + 1, s.len() as int) =~= rest + seq![c] + b);
            lemma_split_concat(rest, c, b);
            assert(split_on(s, c) =~= split_on(a, c) + split_on(b, c));
        },
    }
}

/// The pieces that splitting a stored list at commas gives: the first
/// entry quoted, each later one quoted after a space.
pub open spec fn item_parts(list: Seq<Seq<char>>) -> Seq<Seq<char>> {
    Seq::new(
        list.len(),
        |i: int|
            if i == 0 {
                quoted(list[0])
            } else {
                seq![' '] + quoted(list[i])
            },
    )
}

proof fn lemma_split_items(list: Seq<Seq<char>>)
    requires
        list.len() > 0,
        forall|i: int| 0 <= i < list.len() ==> listable(#[trigger] list[i]),
    ensures
        split_on(quoted_items(list), ',') == item_parts(list),
    decreases list.len(),
{
    let e = list.last();
    assert(listable(list[list.len() - 1]));
    lemma_escaped_plain(e);
    let qe = quoted(e);
    assert forall|j: int| 0 <= j < qe.len() implies #[trigger] qe[j] != ',' by {
        if 0 < j < qe.len() - 1 {
            assert(qe[j] == e[j - 1]);
        }
    }
    if list.len() == 1 {
        assert(quoted_items(list) =~= qe);
        lemma_split_no_sep(qe, ',');
        assert(item_parts(list) =~= seq![qe]);
    } else {
        let d = list.drop_last();
        assert forall|i: int| 0 <= i < d.len() implies listable(#[trigger] d[i]) by {
            assert(d[i] == list[i]);
        }
        lemma_split_items(d);
        let tail = seq![' '] + qe;
        reveal_strlit(", ");
        assert(quoted_items(list) =~= quoted_items(d) + seq![','] + tail);
        lemma_split_concat(quoted_items(d), ',', tail);
        assert forall|j: int| 0 <= j < tail.len() implies #[trigger] tail[j] != ',' by {
            if j > 0 {
                assert(tail[j] == qe[j - 1]);
            }
        }
        lemma_split_no_sep(tail, ',');
        assert(item_parts(list) =~= item_parts(d) + seq![tail]);
    }
}

proof fn lemma_collect_items(list: Seq<Seq<char>>, i: int, acc: Seq<Seq<char>>)
    requires
        0 <= i <= list.len(),
        forall|k: int| 0 <= k < list.len() ==> listable(#[trigger] list[k]),
    ensures
        collect_items(item_parts(list).subrange(i, list.len() as int), acc) == Ok::<
            Seq<Seq<char>>,
            Seq<char>,
        >(acc + list.subrange(i, list.len() as int)),
    decreases list.len() - i,
{
    let parts = item_parts(list).subrange(i, list.len() as int);
    if i == list.len() {
        assert(parts =~= Seq::<Seq<char>>::empty());
        assert(acc + list.subrange(i, list.len() as int) =~= acc);
    } else {
        let e = list[i];
        assert(listable(e));
        let qe = quoted(e);
        let part = parts[0];
        assert(part == item_parts(list)[i]);
        if i == 0 {
            assert(part == qe);
            lemma_trim_start_skip(part, 0);
            assert(part.subrange(0, part.len() as int) =~= part);
        } else {
            assert(part == seq![' '] + qe);
            lemma_trim_start_skip(part, 1);
            assert(part.subrange(1, part.len() as int) =~= qe);
        }
        lemma_trim_end_take(qe, qe.len() as int);
        assert(qe.subrange(0, qe.len() as int) =~= qe);
        assert(trim(part) == qe);
        assert(unquote(qe) =~= e);
        assert(parts.drop_first() =~= item_parts(list).subrange(i + 1, list.len() as int));
        lemma_collect_items(list, i + 1, acc.push(e));
        assert(acc.push(e) + list.subrange(i + 1, list.len() as int) =~= acc + list.subrange(
            i,
            list.len() as int,
        ));
    }
}

/// The stored form of a command list reads back as the list.
proof fn lemma_array_text(list: Seq<Seq<char>>)
    requires
        forall|k: int| 0 <= k < list.len() ==> listable(#[trigger] list[k]),
    ensures
        string_array_from(array_text(list)) == Ok::<Seq<Seq<char>>, Seq<char>>(list),
        array_text(list).len() > 0,
        array_text(list)[0] == '[',
        array_text(list).last() == ']',
        forall|j: int| 0 <= j < array_text(list).len() ==> #[trigger] array_text(list)[j] != '\n',
{
    reveal_strlit("[]");
    let t = array_text(list);
    lemma_trim_start_skip(t, 0);
    assert(t.subrange(0, t.len() as int) =~= t);
    lemma_trim_end_take(t, t.len() as int);
    assert(trim(t) == t);
    if list.len() == 0 {
        assert(t.subrange(1, 1) =~= Seq::<char>::empty());
        assert(list =~= Seq::<Seq<char>>::empty());
        assert(trim(Seq::<char>::empty()) == Seq::<char>::empty());
    } else {
        let q = quoted_items(list);
        assert(t =~= seq!['['] + q + seq![']']);
        assert(t.subrange(1, t.len() - 1) =~= q);
        lemma_split_items(list);
        assert(q.len() > 0 && q[0] == '"' && q.last() == '"') by {
            lemma_quoted_items_shape(list);
        }
        lemma_trim_start_skip(q, 0);
        assert(q.subrange(0, q.len() as int) =~= q);
        lemma_trim_end_take(q, q.len() as int);
        assert(trim(q) == q);
        lemma_collect_items(list, 0, Seq::empty());
        assert(item_parts(list).subrange(0, list.len() as int) =~= item_parts(list));
        assert(list.subrange(0, list.len() as int) =~= list);
        assert(Seq::<Seq<char>>::empty() + list =~= list);
        assert(collect_items(split_on(q, ','), Seq::empty()) == Ok::<Seq<Seq<char>>, Seq<char>>(list));
        lemma_quoted_items_shape(list);
        assert forall|j: int| 0 <= j < t.len() implies #[trigger] t[j] != '\n' by {
            if 0 < j < t.len() - 1 {
                assert(t[j] == q[j - 1]);
            }
        }
    }
}

proof fn lemma_quoted_items_shape(list: Seq<Seq<char>>)
    requires
        list.len() > 0,
        forall|k: int| 0 <= k < list.len() ==> listable(#[trigger] list[k]),
    ensures
        quoted_items(list).len() > 0,
        quoted_items(list)[0] == '"',
        quoted_items(list).last() == '"',
        forall|j: int| 0 <= j < quoted_items(list).len() ==> #[trigger] quoted_items(list)[j] != '\n',
    decreases list.len(),
{
    reveal_strlit(", ");
    let e = list.last();
    assert(listable(list[list.len() - 1]));
    lemma_escaped_plain(e);
    let qe = quoted(e);
    assert forall|j: int| 0 <= j < qe.len() implies #[trigger] qe[j] != '\n' by {
        if 0 < j < qe.len() - 1 {
            assert(qe[j] == e[j - 1]);
        }
    }
    if list.len() == 1 {
        assert(quoted_items(list) =~= qe);
    } else {
        let d = list.drop_last();
        assert forall|i: int| 0 <= i < d.len() implies listable(#[trigger] d[i]) by {
            assert(d[i] == list[i]);
        }
        lemma_quoted_items_shape(d);
        let qd = quoted_items(d);
        let all = quoted_items(list);
        assert(all =~= qd + ", "@ + qe);
        assert forall|j: int| 0 <= j < all.len() implies #[trigger] all[j] != '\n' by {
            if j < qd.len() {
                assert(all[j] == qd[j]);
            } else if j < qd.len() + 2 {
            } else {
                assert(all[j] == qe[j - qd.len() - 2]);
            }
        }
    }
}

/// A value text that sits on one line and keeps its shape when the line is
/// trimmed and its quotes stripped: not empty, no line break, no whitespace
/// or double quote at either end, not ending in a carriage return.
pub open spec fn plain_text(s: Seq<char>) -> bool {
    &&& s.len() > 0
    &&& !is_ws(s[0])
    &&& !is_ws(s.last())
    &&& s.last() != '\r'
    &&& forall|j: int| 0 <= j < s.len() ==> #[trigger] s[j] != '\n'
}

/// A line that `lines` hands back as it is.
pub open spec fn line_ok(l: Seq<char>) -> bool {
    &&& l.len() > 0
    &&& l.last() != '\r'
    &&& forall|j: int| 0 <= j < l.len() ==> #[trigger] l[j] != '\n'
}

/// Whether the format can carry every text field of `c`.
pub open spec fn storable(c: ConfigView) -> bool {
    &&& quotable(c.device)
    &&& forall|i: int| 0 <= i < c.command_allowlist.len() ==> listable(#[trigger] c.command_allowlist[i])
}

/// Line `k` of a saved configuration, without its line break.
pub open spec fn saved_line(c: ConfigView, k: int) -> Seq<char> {
    if k == 0 {
        "# lifelinetty config"@
    } else {
        saved_key(k) + " = "@ + saved_value(c, k)
    }
}

/// The saved text from line `k` on.
pub open spec fn saved_tail(c: ConfigView, k: nat) -> Seq<char>
    decreases 24 - k,
{
    if k >= 24 {
        Seq::empty()
    } else {
        saved_line(c, k as int) + seq!['\n'] + saved_tail(c, (k + 1) as nat)
    }
}

/// The configuration after the first `k` saved lines of `c` were read.
pub open spec fn config_after(c: ConfigView, k: nat) -> ConfigView
    decreases k,
{
    if k == 0 {
        default_config()
    } else {
        with_field(config_after(c, (k - 1) as nat), c, k - 1)
    }
}

proof fn lemma_key_line_ok(key: Seq<char>, val: Seq<char>)
    requires
        forall|j: int| 0 <= j < key.len() ==> #[trigger] key[j] != '\n',
        plain_text(val),
    ensures
        line_ok(key + " = "@ + val),
{
    reveal_strlit(" = ");
    let l = key + " = "@ + val;
    assert forall|j: int| 0 <= j < l.len() implies #[trigger] l[j] != '\n' by {
        if j < key.len() {
            assert(l[j] == key[j]);
        } else if j < key.len() + 3 {
        } else {
            assert(l[j] == val[j - key.len() - 3]);
        }
    }
}

proof fn lemma_digits_text(s: Seq<char>)
    requires
        s.len() > 0,
        all_digits(s),
    ensures
        plain_text(s),
        s[0] != '"',
        s.last() != '"',
{
    assert(is_digit(s[0]));
    assert(is_digit(s[s.len() - 1]));
}

proof fn lemma_quoted_text(s: Seq<char>)
    requires
        quotable(s),
    ensures
        plain_text(quoted(s)),
{
    let q = quoted(s);
    assert forall|j: int| 0 <= j < q.len() implies #[trigger] q[j] != '\n' by {
        if 0 < j < q.len() - 1 {
            assert(q[j] == s[j - 1]);
        }
    }
}

proof fn lemma_literal_quotable(s: Seq<char>)
    requires
        s.len() > 0,
        forall|j: int| 0 <= j < s.len() ==> #[trigger] s[j] != '\n' && s[j] != '"',
    ensures
        quotable(s),
{
    assert(s[0] != '"');
    assert(s[s.len() - 1] != '"');
}

proof fn lemma_name_quotable_flow(m: FlowControlMode)
    ensures
        quotable(flow_control_name(m)),
{
    reveal_strlit("none");
    reveal_strlit("software");
    reveal_strlit("hardware");
    lemma_literal_quotable(flow_control_name(m));
}

proof fn lemma_name_quotable_parity(m: ParityMode)
    ensures
        quotable(parity_name(m)),
{
    reveal_strlit("none");
    reveal_strlit("odd");
    reveal_strlit("even");
    lemma_literal_quotable(parity_name(m));
}

proof fn lemma_name_quotable_stop(m: StopBitsMode)
    ensures
        quotable(stop_bits_name(m)),
{
    reveal_strlit("1");
    reveal_strlit("2");
    lemma_literal_quotable(stop_bits_name(m));
}

proof fn lemma_name_quotable_dtr(m: DtrBehavior)
    ensures
        quotable(dtr_name(m)),
{
    reveal_strlit("preserve");
    reveal_strlit("on");
    reveal_strlit("off");
    lemma_literal_quotable(dtr_name(m));
}

proof fn lemma_name_quotable_driver(d: DisplayDriver)
    ensures
        quotable(display_driver_name(d)),
{
    reveal_strlit("auto");
    reveal_strlit("in-tree");
    reveal_strlit("hd44780-driver");
    lemma_literal_quotable(display_driver_name(d));
}

proof fn lemma_bool_text_shape(b: bool)
    ensures
        plain_text(bool_text(b)),
        bool_text(b)[0] != '"',
        bool_text(b).last() != '"',
{
    reveal_strlit("true");
    reveal_strlit("false");
}

proof fn lemma_pin_text_shape(p: Option<u8>)
    ensures
        plain_text(pin_text(p)),
        pin_text(p)[0] != '"',
        pin_text(p).last() != '"',
{
    reveal_strlit("null");
    match p {
        Some(x) => {
            lemma_dec_shape(x as nat);
            lemma_digits_text(dec(x as nat));
        },
        None => {},
    }
}

/// The stored address reads back as the address.
proof fn lemma_pcf_round_trip(a: Pcf8574Addr)
    ensures
        plain_text(pcf_text(a)),
        pcf_addr_from(trim_char(pcf_text(a), '"')) == Some(a),
{
    reveal_strlit("\"auto\"");
    reveal_strlit("auto");
    reveal_strlit("0x");
    match a {
        Pcf8574Addr::Auto => {
            assert(pcf_text(a) =~= quoted("auto"@));
            lemma_literal_quotable("auto"@);
            lemma_unquote_value("auto"@);
            lemma_quoted_text("auto"@);
            assert(ascii_lower("auto"@) =~= "auto"@);
        },
        Pcf8574Addr::Addr(x) => {
            lemma_pcf_hex_text(x);
            lemma_hex_lower_digit(x as nat / 16);
            lemma_hex_lower_digit(x as nat % 16);
            let t = pcf_text(a);
            assert(t =~= "0x"@ + seq![hex_lower_digit(x as nat / 16), hex_lower_digit(x as nat % 16)]);
            assert(t.len() == 4);
            lemma_plain_value(t);
            assert(is_hex_digit(t[3]));
        },
    }
}

proof fn lemma_array_text_plain(list: Seq<Seq<char>>)
    requires
        forall|k: int| 0 <= k < list.len() ==> listable(#[trigger] list[k]),
    ensures
        plain_text(array_text(list)),
{
    lemma_array_text(list);
}

/// The key of line `k` of a saved configuration.
pub open spec fn saved_key(k: int) -> Seq<char> {
    if k == 1 {
        "device"@
    } else if k == 2 {
        "baud"@
    } else if k == 3 {
        "flow_control"@
    } else if k == 4 {
        "parity"@
    } else if k == 5 {
        "stop_bits"@
    } else if k == 6 {
        "dtr_on_open"@
    } else if k == 7 {
        "serial_timeout_ms"@
    } else if k == 8 {
        "cols"@
    } else if k == 9 {
        "rows"@
    } else if k == 10 {
        "scroll_speed_ms"@
    } else if k == 11 {
        "page_timeout_ms"@
    } else if k == 12 {
        "lcd_present"@
    } else if k == 13 {
        "polling_enabled"@
    } else if k == 14 {
        "poll_interval_ms"@
    } else if k == 15 {
        "button_gpio_pin"@
    } else if k == 16 {
        "pcf8574_addr"@
    } else if k == 17 {
        "display_driver"@
    } else if k == 18 {
        "backoff_initial_ms"@
    } else if k == 19 {
        "backoff_max_ms"@
    } else if k == 20 {
        "command_allowlist"@
    } else if k == 21 {
        "negotiation.node_id"@
    } else if k == 22 {
        "negotiation.preference"@
    } else if k == 23 {
        "negotiation.timeout_ms"@
    } else {
        Seq::empty()
    }
}

/// The value text of line `k` of a saved configuration.
pub open spec fn saved_value(c: ConfigView, k: int) -> Seq<char> {
    if k == 1 {
        quoted(c.device)
    } else if k == 2 {
        dec(c.baud as nat)
    } else if k == 3 {
        quoted(flow_control_name(c.flow_control))
    } else if k == 4 {
        quoted(parity_name(c.parity))
    } else if k == 5 {
        quoted(stop_bits_name(c.stop_bits))
    } else if k == 6 {
        quoted(dtr_name(c.dtr_on_open))
    } else if k == 7 {
        dec(c.serial_timeout_ms as nat)
    } else if k == 8 {
        dec(c.cols as nat)
    } else if k == 9 {
        dec(c.rows as nat)
    } else if k == 10 {
        dec(c.scroll_speed_ms as nat)
    } else if k == 11 {
        dec(c.page_timeout_ms as nat)
    } else if k == 12 {
        bool_text(c.lcd_present)
    } else if k == 13 {
        bool_text(c.polling_enabled)
    } else if k == 14 {
        dec(c.poll_interval_ms as nat)
    } else if k == 15 {
        pin_text(c.button_gpio_pin)
    } else if k == 16 {
        pcf_text(c.pcf8574_addr)
    } else if k == 17 {
        quoted(display_driver_name(c.display_driver))
    } else if k == 18 {
        dec(c.backoff_initial_ms as nat)
    } else if k == 19 {
        dec(c.backoff_max_ms as nat)
    } else if k == 20 {
        array_text(c.command_allowlist)
    } else if k == 21 {
        dec(c.negotiation.node_id as nat)
    } else if k == 22 {
        quoted(role_preference_name(c.negotiation.preference))
    } else if k == 23 {
        dec(c.negotiation.timeout_ms as nat)
    } else {
        Seq::empty()
    }
}

/// `cfg` with the field that line `k` of a saved `c` sets taken from `c`.
pub open spec fn with_field(cfg: ConfigView, c: ConfigView, k: int) -> ConfigView {
    if k == 1 {
        ConfigView { device: c.device, ..cfg }
    } else if k == 2 {
        ConfigView { baud: c.baud, ..cfg }
    } else if k == 3 {
        ConfigView { flow_control: c.flow_control, ..cfg }
    } else if k == 4 {
        ConfigView { parity: c.parity, ..cfg }
    } else if k == 5 {
        ConfigView { stop_bits: c.stop_bits, ..cfg }
    } else if k == 6 {
        ConfigView { dtr_on_open: c.dtr_on_open, ..cfg }
    } else if k == 7 {
        ConfigView { serial_timeout_ms: c.serial_timeout_ms, ..cfg }
    } else if k == 8 {
        ConfigView { cols: c.cols, ..cfg }
    } else if k == 9 {
        ConfigView { rows: c.rows, ..cfg }
    } else if k == 10 {
        ConfigView { scroll_speed_ms: c.scroll_speed_ms, ..cfg }
    } else if k == 11 {
        ConfigView { page_timeout_ms: c.page_timeout_ms, ..cfg }
    } else if k == 12 {
        ConfigView { lcd_present: c.lcd_present, ..cfg }
    } else if k == 13 {
        ConfigView { polling_enabled: c.polling_enabled, ..cfg }
    } else if k == 14 {
        ConfigView { poll_interval_ms: c.poll_interval_ms, ..cfg }
    } else if k == 15 {
        ConfigView { button_gpio_pin: c.button_gpio_pin, ..cfg }
    } else if k == 16 {
        ConfigView { pcf8574_addr: c.pcf8574_addr, ..cfg }
    } else if k == 17 {
        ConfigView { display_driver: c.display_driver, ..cfg }
    } else if k == 18 {
        ConfigView { backoff_initial_ms: c.backoff_initial_ms, ..cfg }
    } else if k == 19 {
        ConfigView { backoff_max_ms: c.backoff_max_ms, ..cfg }
    } else if k == 20 {
        ConfigView { command_allowlist: c.command_allowlist, ..cfg }
    } else if k == 21 {
        ConfigView { negotiation: NegotiationConfig { node_id: c.negotiation.node_id, ..cfg.negotiation }, ..cfg }
    } else if k == 22 {
        ConfigView { negotiation: NegotiationConfig { preference: c.negotiation.preference, ..cfg.negotiation }, ..cfg }
    } else if k == 23 {
        ConfigView { negotiation: NegotiationConfig { timeout_ms: c.negotiation.timeout_ms, ..cfg.negotiation }, ..cfg }
    } else {
        cfg
    }
}

proof fn lemma_saved_line_1(c: ConfigView, cfg: ConfigView)
    requires
        storable(c),
    ensures
        apply_line(saved_line(c, 1), 2, cfg) == Ok::<ConfigView, Seq<char>>(with_field(cfg, c, 1)),
        line_ok(saved_line(c, 1)),
{
    reveal_strlit("device");
    let key = "device"@;
    let val = saved_value(c, 1);
    assert(forall|j: int| 0 <= j < key.len() ==> #[trigger] key[j] != '=' && !is_ws(key[j]) && key[j] != '\n');
    lemma_unquote_value(c.device);
    lemma_key_line(key, val, 2, cfg);
    assert(plain_text(val));
    lemma_key_line_ok(key, val);
}

proof fn lemma_saved_line_2(c: ConfigView, cfg: ConfigView)
    requires
        storable(c),
    ensures
        apply_line(saved_line(c, 2), 3, cfg) == Ok::<ConfigView, Seq<char>>(with_field(cfg, c, 2)),
        line_ok(saved_line(c, 2)),
{
    reveal_strlit("baud");
    reveal_strlit("device");
    assert("baud"@.len() != "device"@.len());
    let key = "baud"@;
    let val = saved_value(c, 2);
    assert(forall|j: int| 0 <= j < key.len() ==> #[trigger] key[j] != '=' && !is_ws(key[j]) && key[j] != '\n');
    lemma_dec_shape(c.baud as nat);
    lemma_parse_dec(c.baud as nat, 0xffff_ffff);
    lemma_digits_text(dec(c.baud as nat));
    lemma_plain_value(val);
    lemma_key_line(key, val, 3, cfg);
    assert(plain_text(val));
    lemma_key_line_ok(key, val);
}

proof fn lemma_saved_line_3(c: ConfigView, cfg: ConfigView)
    requires
        storable(c),
    ensures
        apply_line(saved_line(c, 3), 4, cfg) == Ok::<ConfigView, Seq<char>>(with_field(cfg, c, 3)),
        line_ok(saved_line(c, 3)),
{
    reveal_strlit("flow_control");
    reveal_strlit("device");
    assert("flow_control"@.len() != "device"@.len());
    reveal_strlit("baud");
    assert("flow_control"@.len() != "baud"@.len());
    let key = "flow_control"@;
    let val = saved_value(c, 3);
    assert(forall|j: int| 0 <= j < key.len() ==> #[trigger] key[j] != '=' && !is_ws(key[j]) && key[j] != '\n');
    lemma_name_quotable_flow(c.flow_control);
    lemma_unquote_value(flow_control_name(c.flow_control));
    lemma_flow_control_name(c.flow_control);
    lemma_key_line(key, val, 4, cfg);
    assert(plain_text(val));
    lemma_key_line_ok(key, val);
}

proof fn lemma_saved_line_4(c: ConfigView, cfg: ConfigView)
    requires
        storable(c),
    ensures
        apply_line(saved_line(c, 4), 5, cfg) == Ok::<ConfigView, Seq<char>>(with_field(cfg, c, 4)),
        line_ok(saved_line(c, 4)),
{
    reveal_strlit("parity");
    reveal_strlit("device");
    assert("parity"@[0] != "device"@[0]);
    reveal_strlit("baud");
    assert("parity"@.len() != "baud"@.len());
    reveal_strlit("flow_control");
    assert("parity"@.len() != "flow_control"@.len());
    let key = "parity"@;
    let val = saved_value(c, 4);
    assert(forall|j: int| 0 <= j < key.len() ==> #[trigger] key[j] != '=' && !is_ws(key[j]) && key[j] != '\n');
    lemma_name_quotable_parity(c.parity);
    lemma_unquote_value(parity_name(c.parity));
    lemma_parity_name(c.parity);
    lemma_key_line(key, val, 5, cfg);
    assert(plain_text(val));
    lemma_key_line_ok(key, val);
}

proof fn lemma_saved_line_5(c: ConfigView, cfg: ConfigView)
    requires
        storable(c),
    ensures
        apply_line(saved_line(c, 5), 6, cfg) == Ok::<ConfigView, Seq<char>>(with_field(cfg, c, 5)),
        line_ok(saved_line(c, 5)),
{
    reveal_strlit("stop_bits");
    reveal_strlit("device");
    assert("stop_bits"@.len() != "device"@.len());
    reveal_strlit("baud");
    assert("stop_bits"@.len() != "baud"@.len());
    reveal_strlit("flow_control");
    assert("stop_bits"@.len() != "flow_control"@.len());
    reveal_strlit("parity");
    assert("stop_bits"@.len() != "parity"@.len());
    let key = "stop_bits"@;
    let val = saved_value(c, 5);
    assert(forall|j: int| 0 <= j < key.len() ==> #[trigger] key[j] != '=' && !is_ws(key[j]) && key[j] != '\n');
    lemma_name_quotable_stop(c.stop_bits);
    lemma_unquote_value(stop_bits_name(c.stop_bits));
    lemma_stop_bits_name(c.stop_bits);
    lemma_key_line(key, val, 6, cfg);
    assert(plain_text(val));
    lemma_key_line_ok(key, val);
}

proof fn lemma_saved_line_6(c: ConfigView, cfg: ConfigView)
    requires
        storable(c),
    ensures
        apply_line(saved_line(c, 6), 7, cfg) == Ok::<ConfigView, Seq<char>>(with_field(cfg, c, 6)),
        line_ok(saved_line(c, 6)),
{
    reveal_strlit("dtr_on_open");
    reveal_strlit("device");
    assert("dtr_on_open"@.len() != "device"@.len());
    reveal_strlit("baud");
    assert("dtr_on_open"@.len() != "baud"@.len());
    reveal_strlit("flow_control");
    assert("dtr_on_open"@.len() != "flow_control"@.len());
    reveal_strlit("parity");
    assert("dtr_on_open"@.len() != "parity"@.len());
    reveal_strlit("stop_bits");
    assert("dtr_on_open"@.len() != "stop_bits"@.len());
    let key = "dtr_on_open"@;
    let val = saved_value(c, 6);
    assert(forall|j: int| 0 <= j < key.len() ==> #[trigger] key[j] != '=' && !is_ws(key[j]) && key[j] != '\n');
    lemma_name_quotable_dtr(c.dtr_on_open);
    lemma_unquote_value(dtr_name(c.dtr_on_open));
    lemma_dtr_name(c.dtr_on_open);
    lemma_key_line(key, val, 7, cfg);
    assert(plain_text(val));
    lemma_key_line_ok(key, val);
}

proof fn lemma_saved_line_7(c: ConfigView, cfg: ConfigView)
    requires
        storable(c),
    ensures
        apply_line(saved_line(c, 7), 8, cfg) == Ok::<ConfigView, Seq<char>>(with_field(cfg, c, 7)),
        line_ok(saved_line(c, 7)),
{
    reveal_strlit("serial_timeout_ms");
    reveal_strlit("device");
    assert("serial_timeout_ms"@.len() != "device"@.len());
    reveal_strlit("baud");
    assert("serial_timeout_ms"@.len() != "baud"@.len());
    reveal_strlit("flow_control");
    assert("serial_timeout_ms"@.len() != "flow_control"@.len());
    reveal_strlit("parity");
    assert("serial_timeout_ms"@.len() != "parity"@.len());
    reveal_strlit("stop_bits");
    assert("serial_timeout_ms"@.len() != "stop_bits"@.len());
    reveal_strlit("dtr_on_open");
    assert("serial_timeout_ms"@.len() != "dtr_on_open"@.len());
    let key = "serial_timeout_ms"@;
    let val = saved_value(c, 7);
    assert(forall|j: int| 0 <= j < key.len() ==> #[trigger] key[j] != '=' && !is_ws(key[j]) && key[j] != '\n');
    lemma_dec_shape(c.serial_timeout_ms as nat);
    lemma_parse_dec(c.serial_timeout_ms as nat, 0xffff_ffff_ffff_ffff);
    lemma_digits_text(dec(c.serial_timeout_ms as nat));
    lemma_plain_value(val);
    lemma_key_line(key, val, 8, cfg);
    assert(plain_text(val));
    lemma_key_line_ok(key, val);
}

proof fn lemma_saved_line_8(c: ConfigView, cfg: ConfigView)
    requires
        storable(c),
    ensures
        apply_line(saved_line(c, 8), 9, cfg) == Ok::<ConfigView, Seq<char>>(with_field(cfg, c, 8)),
        line_ok(saved_line(c, 8)),
{
    reveal_strlit("cols");
    reveal_strlit("device");
    assert("cols"@.len() != "device"@.len());
    reveal_strlit("baud");
    assert("cols"@[0] != "baud"@[0]);
    reveal_strlit("flow_control");
    assert("cols"@.len() != "flow_control"@.len());
    reveal_strlit("parity");
    assert("cols"@.len() != "parity"@.len());
    reveal_strlit("stop_bits");
    assert("cols"@.len() != "stop_bits"@.len());
    reveal_strlit("dtr_on_open");
    assert("cols"@.len() != "dtr_on_open"@.len());
    reveal_strlit("serial_timeout_ms");
    assert("cols"@.len() != "serial_timeout_ms"@.len());
    let key = "cols"@;
    let val = saved_value(c, 8);
    assert(forall|j: int| 0 <= j < key.len() ==> #[trigger] key[j] != '=' && !is_ws(key[j]) && key[j] != '\n');
    lemma_dec_shape(c.cols as nat);
    lemma_parse_dec(c.cols as nat, 255);
    lemma_digits_text(dec(c.cols as nat));
    lemma_plain_value(val);
    lemma_key_line(key, val, 9, cfg);
    assert(plain_text(val));
    lemma_key_line_ok(key, val);
}

proof fn lemma_saved_line_9(c: ConfigView, cfg: ConfigView)
    requires
        storable(c),
    ensures
        apply_line(saved_line(c, 9), 10, cfg) == Ok::<ConfigView, Seq<char>>(with_field(cfg, c, 9)),
        line_ok(saved_line(c, 9)),
{
    reveal_strlit("rows");
    reveal_strlit("device");
    assert("rows"@.len() != "device"@.len());
    reveal_strlit("baud");
    assert("rows"@[0] != "baud"@[0]);
    reveal_strlit("flow_control");
    assert("rows"@.len() != "flow_control"@.len());
    reveal_strlit("parity");
    assert("rows"@.len() != "parity"@.len());
    reveal_strlit("stop_bits");
    assert("rows"@.len() != "stop_bits"@.len());
    reveal_strlit("dtr_on_open");
    assert("rows"@.len() != "dtr_on_open"@.len());
    reveal_strlit("serial_timeout_ms");
    assert("rows"@.len() != "serial_timeout_ms"@.len());
    reveal_strlit("cols");
    assert("rows"@[0] != "cols"@[0]);
    let key = "rows"@;
    let val = saved_value(c, 9);
    assert(forall|j: int| 0 <= j < key.len() ==> #[trigger] key[j] != '=' && !is_ws(key[j]) && key[j] != '\n');
    lemma_dec_shape(c.rows as nat);
    lemma_parse_dec(c.rows as nat, 255);
    lemma_digits_text(dec(c.rows as nat));
    lemma_plain_value(val);
    lemma_key_line(key, val, 10, cfg);
    assert(plain_text(val));
    lemma_key_line_ok(key, val);
}

proof fn lemma_saved_line_10(c: ConfigView, cfg: ConfigView)
    requires
        storable(c),
    ensures
        apply_line(saved_line(c, 10), 11, cfg) == Ok::<ConfigView, Seq<char>>(with_field(cfg, c, 10)),
        line_ok(saved_line(c, 10)),
{
    reveal_strlit("scroll_speed_ms");
    reveal_strlit("device");
    assert("scroll_speed_ms"@.len() != "device"@.len());
    reveal_strlit("baud");
    assert("scroll_speed_ms"@.len() != "baud"@.len());
    reveal_strlit("flow_control");
    assert("scroll_speed_ms"@.len() != "flow_control"@.len());
    reveal_strlit("parity");
    assert("scroll_speed_ms"@.len() != "parity"@.len());
    reveal_strlit("stop_bits");
    assert("scroll_speed_ms"@.len() != "stop_bits"@.len());
    reveal_strlit("dtr_on_open");
    assert("scroll_speed_ms"@.len() != "dtr_on_open"@.len());
    reveal_strlit("serial_timeout_ms");
    assert("scroll_speed_ms"@.len() != "serial_timeout_ms"@.len());
    reveal_strlit("cols");
    assert("scroll_speed_ms"@.len() != "cols"@.len());
    reveal_strlit("rows");
    assert("scroll_speed_ms"@.len() != "rows"@.len());
    let key = "scroll_speed_ms"@;
    let val = saved_value(c, 10);
    assert(forall|j: int| 0 <= j < key.len() ==> #[trigger] key[j] != '=' && !is_ws(key[j]) && key[j] != '\n');
    lemma_dec_shape(c.scroll_speed_ms as nat);
    lemma_parse_dec(c.scroll_speed_ms as nat, 0xffff_ffff_ffff_ffff);
    lemma_digits_text(dec(c.scroll_speed_ms as nat));
    lemma_plain_value(val);
    lemma_key_line(key, val, 11, cfg);
    assert(plain_text(val));
    lemma_key_line_ok(key, val);
}

proof fn lemma_saved_line_11(c: ConfigView, cfg: ConfigView)
    requires
        storable(c),
    ensures
        apply_line(saved_line(c, 11), 12, cfg) == Ok::<ConfigView, Seq<char>>(with_field(cfg, c, 11)),
        line_ok(saved_line(c, 11)),
{
    reveal_strlit("page_timeout_ms");
    reveal_strlit("device");
    assert("page_timeout_ms"@.len() != "device"@.len());
    reveal_strlit("baud");
    assert("page_timeout_ms"@.len() != "baud"@.len());
    reveal_strlit("flow_control");
    assert("page_timeout_ms"@.len() != "flow_control"@.len());
    reveal_strlit("parity");
    assert("page_timeout_ms"@.len() != "parity"@.len());
    reveal_strlit("stop_bits");
    assert("page_timeout_ms"@.len() != "stop_bits"@.len());
    reveal_strlit("dtr_on_open");
    assert("page_timeout_ms"@.len() != "dtr_on_open"@.len());
    reveal_strlit("serial_timeout_ms");
    assert("page_timeout_ms"@.len() != "serial_timeout_ms"@.len());
    reveal_strlit("cols");
    assert("page_timeout_ms"@.len() != "cols"@.len());
    reveal_strlit("rows");
    assert("page_timeout_ms"@.len() != "rows"@.len());
    reveal_strlit("scroll_speed_ms");
    assert("page_timeout_ms"@[0] != "scroll_speed_ms"@[0]);
    let key = "page_timeout_ms"@;
    let val = saved_value(c, 11);
    assert(forall|j: int| 0 <= j < key.len() ==> #[trigger] key[j] != '=' && !is_ws(key[j]) && key[j] != '\n');
    lemma_dec_shape(c.page_timeout_ms as nat);
    lemma_parse_dec(c.page_timeout_ms as nat, 0xffff_ffff_ffff_ffff);
    lemma_digits_text(dec(c.page_timeout_ms as nat));
    lemma_plain_value(val);
    lemma_key_line(key, val, 12, cfg);
    assert(plain_text(val));
    lemma_key_line_ok(key, val);
}

proof fn lemma_saved_line_12(c: ConfigView, cfg: ConfigView)
    requires
        storable(c),
    ensures
        apply_line(saved_line(c, 12), 13, cfg) == Ok::<ConfigView, Seq<char>>(with_field(cfg, c, 12)),
        line_ok(saved_line(c, 12)),
{
    reveal_strlit("lcd_present");
    reveal_strlit("device");
    assert("lcd_present"@.len() != "device"@.len());
    reveal_strlit("baud");
    assert("lcd_present"@.len() != "baud"@.len());
    reveal_strlit("flow_control");
    assert("lcd_present"@.len() != "flow_control"@.len());
    reveal_strlit("parity");
    assert("lcd_present"@.len() != "parity"@.len());
    reveal_strlit("stop_bits");
    assert("lcd_present"@.len() != "stop_bits"@.len());
    reveal_strlit("dtr_on_open");
    assert("lcd_present"@[0] != "dtr_on_open"@[0]);
    reveal_strlit("serial_timeout_ms");
    assert("lcd_present"@.len() != "serial_timeout_ms"@.len());
    reveal_strlit("cols");
    assert("lcd_present"@.len() != "cols"@.len());
    reveal_strlit("rows");
    assert("lcd_present"@.len() != "rows"@.len());
    reveal_strlit("scroll_speed_ms");
    assert("lcd_present"@.len() != "scroll_speed_ms"@.len());
    reveal_strlit("page_timeout_ms");
    assert("lcd_present"@.len() != "page_timeout_ms"@.len());
    let key = "lcd_present"@;
    let val = saved_value(c, 12);
    assert(forall|j: int| 0 <= j < key.len() ==> #[trigger] key[j] != '=' && !is_ws(key[j]) && key[j] != '\n');
    lemma_bool_text(c.lcd_present);
    lemma_bool_text_shape(c.lcd_present);
    lemma_plain_value(val);
    lemma_key_line(key, val, 13, cfg);
    assert(plain_text(val));
    lemma_key_line_ok(key, val);
}

proof fn lemma_saved_line_13(c: ConfigView, cfg: ConfigView)
    requires
        storable(c),
    ensures
        apply_line(saved_line(c, 13), 14, cfg) == Ok::<ConfigView, Seq<char>>(with_field(cfg, c, 13)),
        line_ok(saved_line(c, 13)),
{
    reveal_strlit("polling_enabled");
    reveal_strlit("device");
    assert("polling_enabled"@.len() != "device"@.len());
    reveal_strlit("baud");
    assert("polling_enabled"@.len() != "baud"@.len());
    reveal_strlit("flow_control");
    assert("polling_enabled"@.len() != "flow_control"@.len());
    reveal_strlit("parity");
    assert("polling_enabled"@.len() != "parity"@.len());
    reveal_strlit("stop_bits");
    assert("polling_enabled"@.len() != "stop_bits"@.len());
    reveal_strlit("dtr_on_open");
    assert("polling_enabled"@.len() != "dtr_on_open"@.len());
    reveal_strlit("serial_timeout_ms");
    assert("polling_enabled"@.len() != "serial_timeout_ms"@.len());
    reveal_strlit("cols");
    assert("polling_enabled"@.len() != "cols"@.len());
    reveal_strlit("rows");
    assert("polling_enabled"@.len() != "rows"@.len());
    reveal_strlit("scroll_speed_ms");
    assert("polling_enabled"@[0] != "scroll_speed_ms"@[0]);
    reveal_strlit("page_timeout_ms");
    assert("polling_enabled"@[1] != "page_timeout_ms"@[1]);
    reveal_strlit("lcd_present");
    assert("polling_enabled"@.len() != "lcd_present"@.len());
    let key = "polling_enabled"@;
    let val = saved_value(c, 13);
    assert(forall|j: int| 0 <= j < key.len() ==> #[trigger] key[j] != '=' && !is_ws(key[j]) && key[j] != '\n');
    lemma_bool_text(c.polling_enabled);
    lemma_bool_text_shape(c.polling_enabled);
    lemma_plain_value(val);
    lemma_key_line(key, val, 14, cfg);
    assert(plain_text(val));
    lemma_key_line_ok(key, val);
}

proof fn lemma_saved_line_14(c: ConfigView, cfg: ConfigView)
    requires
        storable(c),
    ensures
        apply_line(saved_line(c, 14), 15, cfg) == Ok::<ConfigView, Seq<char>>(with_field(cfg, c, 14)),
        line_ok(saved_line(c, 14)),
{
    reveal_strlit("poll_interval_ms");
    reveal_strlit("device");
    assert("poll_interval_ms"@.len() != "device"@.len());
    reveal_strlit("baud");
    assert("poll_interval_ms"@.len() != "baud"@.len());
    reveal_strlit("flow_control");
    assert("poll_interval_ms"@.len() != "flow_control"@.len());
    reveal_strlit("parity");
    assert("poll_interval_ms"@.len() != "parity"@.len());
    reveal_strlit("stop_bits");
    assert("poll_interval_ms"@.len() != "stop_bits"@.len());
    reveal_strlit("dtr_on_open");
    assert("poll_interval_ms"@.len() != "dtr_on_open"@.len());
    reveal_strlit("serial_timeout_ms");
    assert("poll_interval_ms"@.len() != "serial_timeout_ms"@.len());
    reveal_strlit("cols");
    assert("poll_interval_ms"@.len() != "cols"@.len());
    reveal_strlit("rows");
    assert("poll_interval_ms"@.len() != "rows"@.len());
    reveal_strlit("scroll_speed_ms");
    assert("poll_interval_ms"@.len() != "scroll_speed_ms"@.len());
    reveal_strlit("page_timeout_ms");
    assert("poll_interval_ms"@.len() != "page_timeout_ms"@.len());
    reveal_strlit("lcd_present");
    assert("poll_interval_ms"@.len() != "lcd_present"@.len());
    reveal_strlit("polling_enabled");
    assert("poll_interval_ms"@.len() != "polling_enabled"@.len());
    let key = "poll_interval_ms"@;
    let val = saved_value(c, 14);
    assert(forall|j: int| 0 <= j < key.len() ==> #[trigger] key[j] != '=' && !is_ws(key[j]) && key[j] != '\n');
    lemma_dec_shape(c.poll_interval_ms as nat);
    lemma_parse_dec(c.poll_interval_ms as nat, 0xffff_ffff_ffff_ffff);
    lemma_digits_text(dec(c.poll_interval_ms as nat));
    lemma_plain_value(val);
    lemma_key_line(key, val, 15, cfg);
    assert(plain_text(val));
    lemma_key_line_ok(key, val);
}

proof fn lemma_saved_line_15(c: ConfigView, cfg: ConfigView)
    requires
        storable(c),
    ensures
        apply_line(saved_line(c, 15), 16, cfg) == Ok::<ConfigView, Seq<char>>(with_field(cfg, c, 15)),
        line_ok(saved_line(c, 15)),
{
    reveal_strlit("button_gpio_pin");
    reveal_strlit("device");
    assert("button_gpio_pin"@.len() != "device"@.len());
    reveal_strlit("baud");
    assert("button_gpio_pin"@.len() != "baud"@.len());
    reveal_strlit("flow_control");
    assert("button_gpio_pin"@.len() != "flow_control"@.len());
    reveal_strlit("parity");
    assert("button_gpio_pin"@.len() != "parity"@.len());
    reveal_strlit("stop_bits");
    assert("button_gpio_pin"@.len() != "stop_bits"@.len());
    reveal_strlit("dtr_on_open");
    assert("button_gpio_pin"@.len() != "dtr_on_open"@.len());
    reveal_strlit("serial_timeout_ms");
    assert("button_gpio_pin"@.len() != "serial_timeout_ms"@.len());
    reveal_strlit("cols");
    assert("button_gpio_pin"@.len() != "cols"@.len());
    reveal_strlit("rows");
    assert("button_gpio_pin"@.len() != "rows"@.len());
    reveal_strlit("scroll_speed_ms");
    assert("button_gpio_pin"@[0] != "scroll_speed_ms"@[0]);
    reveal_strlit("page_timeout_ms");
    assert("button_gpio_pin"@[0] != "page_timeout_ms"@[0]);
    reveal_strlit("lcd_present");
    assert("button_gpio_pin"@.len() != "lcd_present"@.len());
    reveal_strlit("polling_enabled");
    assert("button_gpio_pin"@[0] != "polling_enabled"@[0]);
    reveal_strlit("poll_interval_ms");
    assert("button_gpio_pin"@.len() != "poll_interval_ms"@.len());
    reveal_strlit("pcf8574_addr");
    assert("button_gpio_pin"@.len() != "pcf8574_addr"@.len());
    reveal_strlit("display_driver");
    assert("button_gpio_pin"@.len() != "display_driver"@.len());
    reveal_strlit("backoff_initial_ms");
    assert("button_gpio_pin"@.len() != "backoff_initial_ms"@.len());
    reveal_strlit("backoff_max_ms");
    assert("button_gpio_pin"@.len() != "backoff_max_ms"@.len());
    let key = "button_gpio_pin"@;
    let val = saved_value(c, 15);
    assert(forall|j: int| 0 <= j < key.len() ==> #[trigger] key[j] != '=' && !is_ws(key[j]) && key[j] != '\n');
    lemma_pin_text(c.button_gpio_pin);
    lemma_pin_text_shape(c.button_gpio_pin);
    lemma_plain_value(val);
    lemma_key_line(key, val, 16, cfg);
    assert(plain_text(val));
    lemma_key_line_ok(key, val);
}

proof fn lemma_saved_line_16(c: ConfigView, cfg: ConfigView)
    requires
        storable(c),
    ensures
        apply_line(saved_line(c, 16), 17, cfg) == Ok::<ConfigView, Seq<char>>(with_field(cfg, c, 16)),
        line_ok(saved_line(c, 16)),
{
    reveal_strlit("pcf8574_addr");
    reveal_strlit("device");
    assert("pcf8574_addr"@.len() != "device"@.len());
    reveal_strlit("baud");
    assert("pcf8574_addr"@.len() != "baud"@.len());
    reveal_strlit("flow_control");
    assert("pcf8574_addr"@[0] != "flow_control"@[0]);
    reveal_strlit("parity");
    assert("pcf8574_addr"@.len() != "parity"@.len());
    reveal_strlit("stop_bits");
    assert("pcf8574_addr"@.len() != "stop_bits"@.len());
    reveal_strlit("dtr_on_open");
    assert("pcf8574_addr"@.len() != "dtr_on_open"@.len());
    reveal_strlit("serial_timeout_ms");
    assert("pcf8574_addr"@.len() != "serial_timeout_ms"@.len());
    reveal_strlit("cols");
    assert("pcf8574_addr"@.len() != "cols"@.len());
    reveal_strlit("rows");
    assert("pcf8574_addr"@.len() != "rows"@.len());
    reveal_strlit("scroll_speed_ms");
    assert("pcf8574_addr"@.len() != "scroll_speed_ms"@.len());
    reveal_strlit("page_timeout_ms");
    assert("pcf8574_addr"@.len() != "page_timeout_ms"@.len());
    reveal_strlit("lcd_present");
    assert("pcf8574_addr"@.len() != "lcd_present"@.len());
    reveal_strlit("polling_enabled");
    assert("pcf8574_addr"@.len() != "polling_enabled"@.len());
    reveal_strlit("poll_interval_ms");
    assert("pcf8574_addr"@.len() != "poll_interval_ms"@.len());
    let key = "pcf8574_addr"@;
    let val = saved_value(c, 16);
    assert(forall|j: int| 0 <= j < key.len() ==> #[trigger] key[j] != '=' && !is_ws(key[j]) && key[j] != '\n');
    lemma_pcf_round_trip(c.pcf8574_addr);
    lemma_key_line(key, val, 17, cfg);
    assert(plain_text(val));
    lemma_key_line_ok(key, val);
}

proof fn lemma_saved_line_17(c: ConfigView, cfg: ConfigView)
    requires
        storable(c),
    ensures
        apply_line(saved_line(c, 17), 18, cfg) == Ok::<ConfigView, Seq<char>>(with_field(cfg, c, 17)),
        line_ok(saved_line(c, 17)),
{
    reveal_strlit("display_driver");
    reveal_strlit("device");
    assert("display_driver"@.len() != "device"@.len());
    reveal_strlit("baud");
    assert("display_driver"@.len() != "baud"@.len());
    reveal_strlit("flow_control");
    assert("display_driver"@.len() != "flow_control"@.len());
    reveal_strlit("parity");
    assert("display_driver"@.len() != "parity"@.len());
    reveal_strlit("stop_bits");
    assert("display_driver"@.len() != "stop_bits"@.len());
    reveal_strlit("dtr_on_open");
    assert("display_driver"@.len() != "dtr_on_open"@.len());
    reveal_strlit("serial_timeout_ms");
    assert("display_driver"@.len() != "serial_timeout_ms"@.len());
    reveal_strlit("cols");
    assert("display_driver"@.len() != "cols"@.len());
    reveal_strlit("rows");
    assert("display_driver"@.len() != "rows"@.len());
    reveal_strlit("scroll_speed_ms");
    assert("display_driver"@.len() != "scroll_speed_ms"@.len());
    reveal_strlit("page_timeout_ms");
    assert("display_driver"@.len() != "page_timeout_ms"@.len());
    reveal_strlit("lcd_present");
    assert("display_driver"@.len() != "lcd_present"@.len());
    reveal_strlit("polling_enabled");
    assert("display_driver"@.len() != "polling_enabled"@.len());
    reveal_strlit("poll_interval_ms");
    assert("display_driver"@.len() != "poll_interval_ms"@.len());
    reveal_strlit("pcf8574_addr");
    assert("display_driver"@.len() != "pcf8574_addr"@.len());
    let key = "display_driver"@;
    let val = saved_value(c, 17);
    assert(forall|j: int| 0 <= j < key.len() ==> #[trigger] key[j] != '=' && !is_ws(key[j]) && key[j] != '\n');
    lemma_name_quotable_driver(c.display_driver);
    lemma_unquote_value(display_driver_name(c.display_driver));
    lemma_display_driver_name(c.display_driver);
    lemma_key_line(key, val, 18, cfg);
    assert(plain_text(val));
    lemma_key_line_ok(key, val);
}

proof fn lemma_saved_line_18(c: ConfigView, cfg: ConfigView)
    requires
        storable(c),
    ensures
        apply_line(saved_line(c, 18), 19, cfg) == Ok::<ConfigView, Seq<char>>(with_field(cfg, c, 18)),
        line_ok(saved_line(c, 18)),
{
    reveal_strlit("backoff_initial_ms");
    reveal_strlit("device");
    assert("backoff_initial_ms"@.len() != "device"@.len());
    reveal_strlit("baud");
    assert("backoff_initial_ms"@.len() != "baud"@.len());
    reveal_strlit("flow_control");
    assert("backoff_initial_ms"@.len() != "flow_control"@.len());
    reveal_strlit("parity");
    assert("backoff_initial_ms"@.len() != "parity"@.len());
    reveal_strlit("stop_bits");
    assert("backoff_initial_ms"@.len() != "stop_bits"@.len());
    reveal_strlit("dtr_on_open");
    assert("backoff_initial_ms"@.len() != "dtr_on_open"@.len());
    reveal_strlit("serial_timeout_ms");
    assert("backoff_initial_ms"@.len() != "serial_timeout_ms"@.len());
    reveal_strlit("cols");
    assert("backoff_initial_ms"@.len() != "cols"@.len());
    reveal_strlit("rows");
    assert("backoff_initial_ms"@.len() != "rows"@.len());
    reveal_strlit("scroll_speed_ms");
    assert("backoff_initial_ms"@.len() != "scroll_speed_ms"@.len());
    reveal_strlit("page_timeout_ms");
    assert("backoff_initial_ms"@.len() != "page_timeout_ms"@.len());
    reveal_strlit("lcd_present");
    assert("backoff_initial_ms"@.len() != "lcd_present"@.len());
    reveal_strlit("polling_enabled");
    assert("backoff_initial_ms"@.len() != "polling_enabled"@.len());
    reveal_strlit("poll_interval_ms");
    assert("backoff_initial_ms"@.len() != "poll_interval_ms"@.len());
    reveal_strlit("pcf8574_addr");
    assert("backoff_initial_ms"@.len() != "pcf8574_addr"@.len());
    reveal_strlit("display_driver");
    assert("backoff_initial_ms"@.len() != "display_driver"@.len());
    let key = "backoff_initial_ms"@;
    let val = saved_value(c, 18);
    assert(forall|j: int| 0 <= j < key.len() ==> #[trigger] key[j] != '=' && !is_ws(key[j]) && key[j] != '\n');
    lemma_dec_shape(c.backoff_initial_ms as nat);
    lemma_parse_dec(c.backoff_initial_ms as nat, 0xffff_ffff_ffff_ffff);
    lemma_digits_text(dec(c.backoff_initial_ms as nat));
    lemma_plain_value(val);
    lemma_key_line(key, val, 19, cfg);
    assert(plain_text(val));
    lemma_key_line_ok(key, val);
}

proof fn lemma_saved_line_19(c: ConfigView, cfg: ConfigView)
    requires
        storable(c),
    ensures
        apply_line(saved_line(c, 19), 20, cfg) == Ok::<ConfigView, Seq<char>>(with_field(cfg, c, 19)),
        line_ok(saved_line(c, 19)),
{
    reveal_strlit("backoff_max_ms");
    reveal_strlit("device");
    assert("backoff_max_ms"@.len() != "device"@.len());
    reveal_strlit("baud");
    assert("backoff_max_ms"@.len() != "baud"@.len());
    reveal_strlit("flow_control");
    assert("backoff_max_ms"@.len() != "flow_control"@.len());
    reveal_strlit("parity");
    assert("backoff_max_ms"@.len() != "parity"@.len());
    reveal_strlit("stop_bits");
    assert("backoff_max_ms"@.len() != "stop_bits"@.len());
    reveal_strlit("dtr_on_open");
    assert("backoff_max_ms"@.len() != "dtr_on_open"@.len());
    reveal_strlit("serial_timeout_ms");
    assert("backoff_max_ms"@.len() != "serial_timeout_ms"@.len());
    reveal_strlit("cols");
    assert("backoff_max_ms"@.len() != "cols"@.len());
    reveal_strlit("rows");
    assert("backoff_max_ms"@.len() != "rows"@.len());
    reveal_strlit("scroll_speed_ms");
    assert("backoff_max_ms"@.len() != "scroll_speed_ms"@.len());
    reveal_strlit("page_timeout_ms");
    assert("backoff_max_ms"@.len() != "page_timeout_ms"@.len());
    reveal_strlit("lcd_present");
    assert("backoff_max_ms"@.len() != "lcd_present"@.len());
    reveal_strlit("polling_enabled");
    assert("backoff_max_ms"@.len() != "polling_enabled"@.len());
    reveal_strlit("poll_interval_ms");
    assert("backoff_max_ms"@.len() != "poll_interval_ms"@.len());
    reveal_strlit("pcf8574_addr");
    assert("backoff_max_ms"@.len() != "pcf8574_addr"@.len());
    reveal_strlit("display_driver");
    assert("backoff_max_ms"@[0] != "display_driver"@[0]);
    reveal_strlit("backoff_initial_ms");
    assert("backoff_max_ms"@.len() != "backoff_initial_ms"@.len());
    let key = "backoff_max_ms"@;
    let val = saved_value(c, 19);
    assert(forall|j: int| 0 <= j < key.len() ==> #[trigger] key[j] != '=' && !is_ws(key[j]) && key[j] != '\n');
    lemma_dec_shape(c.backoff_max_ms as nat);
    lemma_parse_dec(c.backoff_max_ms as nat, 0xffff_ffff_ffff_ffff);
    lemma_digits_text(dec(c.backoff_max_ms as nat));
    lemma_plain_value(val);
    lemma_key_line(key, val, 20, cfg);
    assert(plain_text(val));
    lemma_key_line_ok(key, val);
}

proof fn lemma_saved_line_20(c: ConfigView, cfg: ConfigView)
    requires
        storable(c),
    ensures
        apply_line(saved_line(c, 20), 21, cfg) == Ok::<ConfigView, Seq<char>>(with_field(cfg, c, 20)),
        line_ok(saved_line(c, 20)),
{
    reveal_strlit("command_allowlist");
    reveal_strlit("device");
    assert("command_allowlist"@.len() != "device"@.len());
    reveal_strlit("baud");
    assert("command_allowlist"@.len() != "baud"@.len());
    reveal_strlit("flow_control");
    assert("command_allowlist"@.len() != "flow_control"@.len());
    reveal_strlit("parity");
    assert("command_allowlist"@.len() != "parity"@.len());
    reveal_strlit("stop_bits");
    assert("command_allowlist"@.len() != "stop_bits"@.len());
    reveal_strlit("dtr_on_open");
    assert("command_allowlist"@.len() != "dtr_on_open"@.len());
    reveal_strlit("serial_timeout_ms");
    assert("command_allowlist"@[0] != "serial_timeout_ms"@[0]);
    reveal_strlit("cols");
    assert("command_allowlist"@.len() != "cols"@.len());
    reveal_strlit("rows");
    assert("command_allowlist"@.len() != "rows"@.len());
    reveal_strlit("scroll_speed_ms");
    assert("command_allowlist"@.len() != "scroll_speed_ms"@.len());
    reveal_strlit("page_timeout_ms");
    assert("command_allowlist"@.len() != "page_timeout_ms"@.len());
    reveal_strlit("lcd_present");
    assert("command_allowlist"@.len() != "lcd_present"@.len());
    reveal_strlit("polling_enabled");
    assert("command_allowlist"@.len() != "polling_enabled"@.len());
    reveal_strlit("poll_interval_ms");
    assert("command_allowlist"@.len() != "poll_interval_ms"@.len());
    reveal_strlit("pcf8574_addr");
    assert("command_allowlist"@.len() != "pcf8574_addr"@.len());
    reveal_strlit("display_driver");
    assert("command_allowlist"@.len() != "display_driver"@.len());
    reveal_strlit("backoff_initial_ms");
    assert("command_allowlist"@.len() != "backoff_initial_ms"@.len());
    reveal_strlit("backoff_max_ms");
    assert("command_allowlist"@.len() != "backoff_max_ms"@.len());
    reveal_strlit("button_gpio_pin");
    assert("command_allowlist"@.len() != "button_gpio_pin"@.len());
    let key = "command_allowlist"@;
    let val = saved_value(c, 20);
    assert(forall|j: int| 0 <= j < key.len() ==> #[trigger] key[j] != '=' && !is_ws(key[j]) && key[j] != '\n');
    lemma_array_text(c.command_allowlist);
    lemma_array_text_plain(c.command_allowlist);
    lemma_plain_value(val);
    lemma_key_line(key, val, 21, cfg);
    assert(plain_text(val));
    lemma_key_line_ok(key, val);
}

proof fn lemma_role_name(p: RolePreference)
    ensures
        role_preference_from(role_preference_name(p)) == Some(p),
{
    reveal_strlit("server");
    reveal_strlit("client");
    reveal_strlit("auto");
    assert(trim("server"@) =~= "server"@) by {
        crate::text::lemma_trim_start_skip("server"@, 0);
        crate::text::lemma_trim_end_take("server"@, 6);
    }
    assert(trim("client"@) =~= "client"@) by {
        crate::text::lemma_trim_start_skip("client"@, 0);
        crate::text::lemma_trim_end_take("client"@, 6);
    }
    assert(trim("auto"@) =~= "auto"@) by {
        crate::text::lemma_trim_start_skip("auto"@, 0);
        crate::text::lemma_trim_end_take("auto"@, 4);
    }
    assert(ascii_lower("server"@) =~= "server"@);
    assert(ascii_lower("client"@) =~= "client"@);
    assert(ascii_lower("auto"@) =~= "auto"@);
    assert("client"@ != "server"@) by { assert("client"@[0] != "server"@[0]); }
    assert("auto"@ != "server"@) by { assert("auto"@.len() != "server"@.len()); }
    assert("auto"@ != "client"@) by { assert("auto"@.len() != "client"@.len()); }
}

proof fn lemma_name_quotable_role(p: RolePreference)
    ensures
        quotable(role_preference_name(p)),
{
    reveal_strlit("server");
    reveal_strlit("client");
    reveal_strlit("auto");
    lemma_literal_quotable(role_preference_name(p));
}

proof fn lemma_saved_line_21(c: ConfigView, cfg: ConfigView)
    requires
        storable(c),
    ensures
        apply_line(saved_line(c, 21), 22, cfg) == Ok::<ConfigView, Seq<char>>(with_field(cfg, c, 21)),
        line_ok(saved_line(c, 21)),
{
    reveal_strlit("negotiation.node_id");
    reveal_strlit("device");
    assert("negotiation.node_id"@.len() != "device"@.len());
    reveal_strlit("baud");
    assert("negotiation.node_id"@.len() != "baud"@.len());
    reveal_strlit("flow_control");
    assert("negotiation.node_id"@.len() != "flow_control"@.len());
    reveal_strlit("parity");
    assert("negotiation.node_id"@.len() != "parity"@.len());
    reveal_strlit("stop_bits");
    assert("negotiation.node_id"@.len() != "stop_bits"@.len());
    reveal_strlit("dtr_on_open");
    assert("negotiation.node_id"@.len() != "dtr_on_open"@.len());
    reveal_strlit("serial_timeout_ms");
    assert("negotiation.node_id"@.len() != "serial_timeout_ms"@.len());
    reveal_strlit("cols");
    assert("negotiation.node_id"@.len() != "cols"@.len());
    reveal_strlit("rows");
    assert("negotiation.node_id"@.len() != "rows"@.len());
    reveal_strlit("scroll_speed_ms");
    assert("negotiation.node_id"@.len() != "scroll_speed_ms"@.len());
    reveal_strlit("page_timeout_ms");
    assert("negotiation.node_id"@.len() != "page_timeout_ms"@.len());
    reveal_strlit("lcd_present");
    assert("negotiation.node_id"@.len() != "lcd_present"@.len());
    reveal_strlit("polling_enabled");
    assert("negotiation.node_id"@.len() != "polling_enabled"@.len());
    reveal_strlit("poll_interval_ms");
    assert("negotiation.node_id"@.len() != "poll_interval_ms"@.len());
    reveal_strlit("pcf8574_addr");
    assert("negotiation.node_id"@.len() != "pcf8574_addr"@.len());
    reveal_strlit("display_driver");
    assert("negotiation.node_id"@.len() != "display_driver"@.len());
    reveal_strlit("backoff_initial_ms");
    assert("negotiation.node_id"@.len() != "backoff_initial_ms"@.len());
    reveal_strlit("backoff_max_ms");
    assert("negotiation.node_id"@.len() != "backoff_max_ms"@.len());
    reveal_strlit("button_gpio_pin");
    assert("negotiation.node_id"@.len() != "button_gpio_pin"@.len());
    reveal_strlit("command_allowlist");
    assert("negotiation.node_id"@.len() != "command_allowlist"@.len());
    let key = "negotiation.node_id"@;
    let val = saved_value(c, 21);
    assert(forall|j: int| 0 <= j < key.len() ==> #[trigger] key[j] != '=' && !is_ws(key[j]) && key[j] != '\n');
    lemma_dec_shape(c.negotiation.node_id as nat);
    lemma_parse_dec(c.negotiation.node_id as nat, 0xffff_ffff);
    lemma_digits_text(dec(c.negotiation.node_id as nat));
    lemma_plain_value(val);
    lemma_key_line(key, val, 22, cfg);
    assert(plain_text(val));
    lemma_key_line_ok(key, val);
}

proof fn lemma_preference_key(v: Seq<char>, n: nat, c: ConfigView)
    ensures
        apply_key("negotiation.preference"@, v, n, c) == match role_preference_from(v) {
            Some(p) => Ok(ConfigView { negotiation: NegotiationConfig { preference: p, ..c.negotiation }, ..c }),
            None => Err(on_line("invalid negotiation.preference"@, n) + ": "@ + role_preference_error(v)),
        },
{
    reveal_strlit("negotiation.preference");
    reveal_strlit("device");
    assert("negotiation.preference"@.len() != "device"@.len());
    reveal_strlit("baud");
    assert("negotiation.preference"@.len() != "baud"@.len());
    reveal_strlit("flow_control");
    assert("negotiation.preference"@.len() != "flow_control"@.len());
    reveal_strlit("parity");
    assert("negotiation.preference"@.len() != "parity"@.len());
    reveal_strlit("stop_bits");
    assert("negotiation.preference"@.len() != "stop_bits"@.len());
    reveal_strlit("dtr_on_open");
    assert("negotiation.preference"@.len() != "dtr_on_open"@.len());
    reveal_strlit("serial_timeout_ms");
    assert("negotiation.preference"@.len() != "serial_timeout_ms"@.len());
    reveal_strlit("cols");
    assert("negotiation.preference"@.len() != "cols"@.len());
    reveal_strlit("rows");
    assert("negotiation.preference"@.len() != "rows"@.len());
    reveal_strlit("scroll_speed_ms");
    assert("negotiation.preference"@.len() != "scroll_speed_ms"@.len());
    reveal_strlit("page_timeout_ms");
    assert("negotiation.preference"@.len() != "page_timeout_ms"@.len());
    reveal_strlit("lcd_present");
    assert("negotiation.preference"@.len() != "lcd_present"@.len());
    reveal_strlit("polling_enabled");
    assert("negotiation.preference"@.len() != "polling_enabled"@.len());
    reveal_strlit("poll_interval_ms");
    assert("negotiation.preference"@.len() != "poll_interval_ms"@.len());
    reveal_strlit("pcf8574_addr");
    assert("negotiation.preference"@.len() != "pcf8574_addr"@.len());
    reveal_strlit("display_driver");
    assert("negotiation.preference"@.len() != "display_driver"@.len());
    reveal_strlit("backoff_initial_ms");
    assert("negotiation.preference"@.len() != "backoff_initial_ms"@.len());
    reveal_strlit("backoff_max_ms");
    assert("negotiation.preference"@.len() != "backoff_max_ms"@.len());
    reveal_strlit("button_gpio_pin");
    assert("negotiation.preference"@.len() != "button_gpio_pin"@.len());
    reveal_strlit("command_allowlist");
    assert("negotiation.preference"@.len() != "command_allowlist"@.len());
    reveal_strlit("negotiation.node_id");
    assert("negotiation.preference"@.len() != "negotiation.node_id"@.len());
}

proof fn lemma_saved_line_22(c: ConfigView, cfg: ConfigView)
    requires
        storable(c),
    ensures
        apply_line(saved_line(c, 22), 23, cfg) == Ok::<ConfigView, Seq<char>>(with_field(cfg, c, 22)),
        line_ok(saved_line(c, 22)),
{
    reveal_strlit("negotiation.preference");
    let key = "negotiation.preference"@;
    let val = saved_value(c, 22);
    assert(forall|j: int| 0 <= j < key.len() ==> #[trigger] key[j] != '=' && !is_ws(key[j]) && key[j] != '\n');
    lemma_name_quotable_role(c.negotiation.preference);
    lemma_unquote_value(role_preference_name(c.negotiation.preference));
    lemma_role_name(c.negotiation.preference);
    lemma_key_line(key, val, 23, cfg);
    lemma_preference_key(role_preference_name(c.negotiation.preference), 23, cfg);
    assert(plain_text(val));
    lemma_key_line_ok(key, val);
}

proof fn lemma_saved_line_23(c: ConfigView, cfg: ConfigView)
    requires
        storable(c),
    ensures
        apply_line(saved_line(c, 23), 24, cfg) == Ok::<ConfigView, Seq<char>>(with_field(cfg, c, 23)),
        line_ok(saved_line(c, 23)),
{
    reveal_strlit("negotiation.timeout_ms");
    reveal_strlit("device");
    assert("negotiation.timeout_ms"@.len() != "device"@.len());
    reveal_strlit("baud");
    assert("negotiation.timeout_ms"@.len() != "baud"@.len());
    reveal_strlit("flow_control");
    assert("negotiation.timeout_ms"@.len() != "flow_control"@.len());
    reveal_strlit("parity");
    assert("negotiation.timeout_ms"@.len() != "parity"@.len());
    reveal_strlit("stop_bits");
    assert("negotiation.timeout_ms"@.len() != "stop_bits"@.len());
    reveal_strlit("dtr_on_open");
    assert("negotiation.timeout_ms"@.len() != "dtr_on_open"@.len());
    reveal_strlit("serial_timeout_ms");
    assert("negotiation.timeout_ms"@.len() != "serial_timeout_ms"@.len());
    reveal_strlit("cols");
    assert("negotiation.timeout_ms"@.len() != "cols"@.len());
    reveal_strlit("rows");
    assert("negotiation.timeout_ms"@.len() != "rows"@.len());
    reveal_strlit("scroll_speed_ms");
    assert("negotiation.timeout_ms"@.len() != "scroll_speed_ms"@.len());
    reveal_strlit("page_timeout_ms");
    assert("negotiation.timeout_ms"@.len() != "page_timeout_ms"@.len());
    reveal_strlit("lcd_present");
    assert("negotiation.timeout_ms"@.len() != "lcd_present"@.len());
    reveal_strlit("polling_enabled");
    assert("negotiation.timeout_ms"@.len() != "polling_enabled"@.len());
    reveal_strlit("poll_interval_ms");
    assert("negotiation.timeout_ms"@.len() != "poll_interval_ms"@.len());
    reveal_strlit("pcf8574_addr");
    assert("negotiation.timeout_ms"@.len() != "pcf8574_addr"@.len());
    reveal_strlit("display_driver");
    assert("negotiation.timeout_ms"@.len() != "display_driver"@.len());
    reveal_strlit("backoff_initial_ms");
    assert("negotiation.timeout_ms"@.len() != "backoff_initial_ms"@.len());
    reveal_strlit("backoff_max_ms");
    assert("negotiation.timeout_ms"@.len() != "backoff_max_ms"@.len());
    reveal_strlit("button_gpio_pin");
    assert("negotiation.timeout_ms"@.len() != "button_gpio_pin"@.len());
    reveal_strlit("command_allowlist");
    assert("negotiation.timeout_ms"@.len() != "command_allowlist"@.len());
    reveal_strlit("negotiation.node_id");
    assert("negotiation.timeout_ms"@.len() != "negotiation.node_id"@.len());
    reveal_strlit("negotiation.preference");
    assert("negotiation.timeout_ms"@[12] != "negotiation.preference"@[12]);
    let key = "negotiation.timeout_ms"@;
    let val = saved_value(c, 23);
    assert(forall|j: int| 0 <= j < key.len() ==> #[trigger] key[j] != '=' && !is_ws(key[j]) && key[j] != '\n');
    lemma_dec_shape(c.negotiation.timeout_ms as nat);
    lemma_parse_dec(c.negotiation.timeout_ms as nat, 0xffff_ffff_ffff_ffff);
    lemma_digits_text(dec(c.negotiation.timeout_ms as nat));
    lemma_plain_value(val);
    lemma_key_line(key, val, 24, cfg);
    assert(plain_text(val));
    lemma_key_line_ok(key, val);
}

proof fn lemma_saved_header(cfg: ConfigView)
    ensures
        apply_line(saved_line(cfg, 0), 1, cfg) == Ok::<ConfigView, Seq<char>>(cfg),
        line_ok(saved_line(cfg, 0)),
{
    reveal_strlit("# lifelinetty config");
    let l = "# lifelinetty config"@;
    lemma_trim_start_skip(l, 0);
    assert(l.subrange(0, l.len() as int) =~= l);
    lemma_trim_end_take(l, l.len() as int);
    assert(trim(l) == l);
}

proof fn lemma_saved_line(c: ConfigView, k: int, cfg: ConfigView)
    requires
        storable(c),
        0 <= k <= 23,
    ensures
        apply_line(saved_line(c, k), (k + 1) as nat, cfg) == Ok::<ConfigView, Seq<char>>(
            with_field(cfg, c, k),
        ),
        line_ok(saved_line(c, k)),
{
    if k == 0 {
        lemma_saved_header(cfg);
        assert(saved_line(c, 0) == saved_line(cfg, 0));
    } else if k == 1 {
        lemma_saved_line_1(c, cfg);
    } else if k == 2 {
        lemma_saved_line_2(c, cfg);
    } else if k == 3 {
        lemma_saved_line_3(c, cfg);
    } else if k == 4 {
        lemma_saved_line_4(c, cfg);
    } else if k == 5 {
        lemma_saved_line_5(c, cfg);
    } else if k == 6 {
        lemma_saved_line_6(c, cfg);
    } else if k == 7 {
        lemma_saved_line_7(c, cfg);
    } else if k == 8 {
        lemma_saved_line_8(c, cfg);
    } else if k == 9 {
        lemma_saved_line_9(c, cfg);
    } else if k == 10 {
        lemma_saved_line_10(c, cfg);
    } else if k == 11 {
        lemma_saved_line_11(c, cfg);
    } else if k == 12 {
        lemma_saved_line_12(c, cfg);
    } else if k == 13 {
        lemma_saved_line_13(c, cfg);
    } else if k == 14 {
        lemma_saved_line_14(c, cfg);
    } else if k == 15 {
        lemma_saved_line_15(c, cfg);
    } else if k == 16 {
        lemma_saved_line_16(c, cfg);
    } else if k == 17 {
        lemma_saved_line_17(c, cfg);
    } else if k == 18 {
        lemma_saved_line_18(c, cfg);
    } else if k == 19 {
        lemma_saved_line_19(c, cfg);
    } else if k == 20 {
        lemma_saved_line_20(c, cfg);
    } else if k == 21 {
        lemma_saved_line_21(c, cfg);
    } else if k == 22 {
        lemma_saved_line_22(c, cfg);
    } else {
        lemma_saved_line_23(c, cfg);
    }
}

/// `lines` of a line break-terminated line followed by more text.
proof fn lemma_lines_cons(l: Seq<char>, rest: Seq<char>)
    requires
        line_ok(l),
    ensures
        lines(l + seq!['\n'] + rest) == seq![l] + lines(rest),
{
    let s = l + seq!['\n'] + rest;
    assert forall|j: int| 0 <= j < l.len() implies #[trigger] s[j] != '\n' by {
        assert(s[j] == l[j]);
    }
    lemma_find_char_is(s, '\n', l.len() as int);
    assert(s.subrange(0, l.len() as int) =~= l);
    assert(s.subrange(l.len() as int + 1, s.len() as int) =~= rest);
    assert(strip_cr(l) == l);
}

proof fn lemma_saved_tail(c: ConfigView, k: nat)
    requires
        storable(c),
        k <= 24,
    ensures
        apply_lines(lines(saved_tail(c, k)), k + 1, config_after(c, k)) == Ok::<
            ConfigView,
            Seq<char>,
        >(config_after(c, 24)),
    decreases 24 - k,
{
    if k == 24 {
        assert(saved_tail(c, 24) =~= Seq::<char>::empty());
        assert(lines(Seq::<char>::empty()) =~= Seq::<Seq<char>>::empty());
    } else {
        let l = saved_line(c, k as int);
        let rest = saved_tail(c, (k + 1) as nat);
        lemma_saved_line(c, k as int, config_after(c, k));
        lemma_lines_cons(l, rest);
        let ls = seq![l] + lines(rest);
        assert(ls[0] == l);
        assert(ls.drop_first() =~= lines(rest));
        assert(config_after(c, (k + 1) as nat) == with_field(config_after(c, k), c, k as int));
        lemma_saved_tail(c, (k + 1) as nat);
    }
}

/// Line `k` of a saved configuration with its line break.
pub open spec fn saved_piece(c: ConfigView, k: int) -> Seq<char> {
    saved_line(c, k) + seq!['\n']
}

/// The saved text before line `k`.
pub open spec fn saved_prefix(c: ConfigView, k: nat) -> Seq<char>
    decreases k,
{
    if k == 0 {
        Seq::empty()
    } else {
        saved_prefix(c, (k - 1) as nat) + saved_piece(c, k - 1)
    }
}

proof fn lemma_prefix_tail(c: ConfigView, k: nat)
    requires
        k <= 24,
    ensures
        saved_prefix(c, k) + saved_tail(c, k) == saved_tail(c, 0),
    decreases k,
{
    if k == 0 {
        assert(Seq::<char>::empty() + saved_tail(c, 0) =~= saved_tail(c, 0));
    } else {
        lemma_prefix_tail(c, (k - 1) as nat);
        let j = (k - 1) as nat;
        assert(saved_tail(c, j) == saved_line(c, j as int) + seq!['\n'] + saved_tail(c, k));
        assert(saved_prefix(c, k) + saved_tail(c, k) =~= saved_prefix(c, j) + saved_tail(c, j));
    }
}

proof fn lemma_config_text_is_tail(c: ConfigView)
    ensures
        config_text(c) == saved_tail(c, 0),
{
    reveal_strlit("# lifelinetty config\n");
    reveal_strlit("# lifelinetty config");
    let t0 = "# lifelinetty config\n"@;
    assert(t0 =~= saved_piece(c, 0));
    assert(saved_prefix(c, 0) == Seq::<char>::empty());
    assert(saved_prefix(c, 1) =~= saved_piece(c, 0));
    let t1 = t0 + kq("device"@, c.device);
    assert(kq("device"@, c.device) =~= saved_piece(c, 1));
    assert(t1 == saved_prefix(c, 2));
    let t2 = t1 + kv("baud"@, dec(c.baud as nat));
    assert(kv("baud"@, dec(c.baud as nat)) =~= saved_piece(c, 2));
    assert(t2 == saved_prefix(c, 3));
    let t3 = t2 + kq("flow_control"@, flow_control_name(c.flow_control));
    assert(kq("flow_control"@, flow_control_name(c.flow_control)) =~= saved_piece(c, 3));
    assert(t3 == saved_prefix(c, 4));
    let t4 = t3 + kq("parity"@, parity_name(c.parity));
    assert(kq("parity"@, parity_name(c.parity)) =~= saved_piece(c, 4));
    assert(t4 == saved_prefix(c, 5));
    let t5 = t4 + kq("stop_bits"@, stop_bits_name(c.stop_bits));
    assert(kq("stop_bits"@, stop_bits_name(c.stop_bits)) =~= saved_piece(c, 5));
    assert(t5 == saved_prefix(c, 6));
    let t6 = t5 + kq("dtr_on_open"@, dtr_name(c.dtr_on_open));
    assert(kq("dtr_on_open"@, dtr_name(c.dtr_on_open)) =~= saved_piece(c, 6));
    assert(t6 == saved_prefix(c, 7));
    let t7 = t6 + kv("serial_timeout_ms"@, dec(c.serial_timeout_ms as nat));
    assert(kv("serial_timeout_ms"@, dec(c.serial_timeout_ms as nat)) =~= saved_piece(c, 7));
    assert(t7 == saved_prefix(c, 8));
    let t8 = t7 + kv("cols"@, dec(c.cols as nat));
    assert(kv("cols"@, dec(c.cols as nat)) =~= saved_piece(c, 8));
    assert(t8 == saved_prefix(c, 9));
    let t9 = t8 + kv("rows"@, dec(c.rows as nat));
    assert(kv("rows"@, dec(c.rows as nat)) =~= saved_piece(c, 9));
    assert(t9 == saved_prefix(c, 10));
    let t10 = t9 + kv("scroll_speed_ms"@, dec(c.scroll_speed_ms as nat));
    assert(kv("scroll_speed_ms"@, dec(c.scroll_speed_ms as nat)) =~= saved_piece(c, 10));
    assert(t10 == saved_prefix(c, 11));
    let t11 = t10 + kv("page_timeout_ms"@, dec(c.page_timeout_ms as nat));
    assert(kv("page_timeout_ms"@, dec(c.page_timeout_ms as nat)) =~= saved_piece(c, 11));
    assert(t11 == saved_prefix(c, 12));
    let t12 = t11 + kv("lcd_present"@, bool_text(c.lcd_present));
    assert(kv("lcd_present"@, bool_text(c.lcd_present)) =~= saved_piece(c, 12));
    assert(t12 == saved_prefix(c, 13));
    let t13 = t12 + kv("polling_enabled"@, bool_text(c.polling_enabled));
    assert(kv("polling_enabled"@, bool_text(c.polling_enabled)) =~= saved_piece(c, 13));
    assert(t13 == saved_prefix(c, 14));
    let t14 = t13 + kv("poll_interval_ms"@, dec(c.poll_interval_ms as nat));
    assert(kv("poll_interval_ms"@, dec(c.poll_interval_ms as nat)) =~= saved_piece(c, 14));
    assert(t14 == saved_prefix(c, 15));
    let t15 = t14 + kv("button_gpio_pin"@, pin_text(c.button_gpio_pin));
    assert(kv("button_gpio_pin"@, pin_text(c.button_gpio_pin)) =~= saved_piece(c, 15));
    assert(t15 == saved_prefix(c, 16));
    let t16 = t15 + kv("pcf8574_addr"@, pcf_text(c.pcf8574_addr));
    assert(kv("pcf8574_addr"@, pcf_text(c.pcf8574_addr)) =~= saved_piece(c, 16));
    assert(t16 == saved_prefix(c, 17));
    let t17 = t16 + kq("display_driver"@, display_driver_name(c.display_driver));
    assert(kq("display_driver"@, display_driver_name(c.display_driver)) =~= saved_piece(c, 17));
    assert(t17 == saved_prefix(c, 18));
    let t18 = t17 + kv("backoff_initial_ms"@, dec(c.backoff_initial_ms as nat));
    assert(kv("backoff_initial_ms"@, dec(c.backoff_initial_ms as nat)) =~= saved_piece(c, 18));
    assert(t18 == saved_prefix(c, 19));
    let t19 = t18 + kv("backoff_max_ms"@, dec(c.backoff_max_ms as nat));
    assert(kv("backoff_max_ms"@, dec(c.backoff_max_ms as nat)) =~= saved_piece(c, 19));
    assert(t19 == saved_prefix(c, 20));
    let t20 = t19 + kv("command_allowlist"@, array_text(c.command_allowlist));
    assert(kv("command_allowlist"@, array_text(c.command_allowlist)) =~= saved_piece(c, 20));
    assert(t20 == saved_prefix(c, 21));
    let t21 = t20 + kv("negotiation.node_id"@, dec(c.negotiation.node_id as nat));
    assert(kv("negotiation.node_id"@, dec(c.negotiation.node_id as nat)) =~= saved_piece(c, 21));
    assert(t21 == saved_prefix(c, 22));
    let t22 = t21 + kq("negotiation.preference"@, role_preference_name(c.negotiation.preference));
    assert(kq("negotiation.preference"@, role_preference_name(c.negotiation.preference)) =~= saved_piece(c, 22));
    assert(t22 == saved_prefix(c, 23));
    let t23 = t22 + kv("negotiation.timeout_ms"@, dec(c.negotiation.timeout_ms as nat));
    assert(kv("negotiation.timeout_ms"@, dec(c.negotiation.timeout_ms as nat)) =~= saved_piece(c, 23));
    assert(t23 == saved_prefix(c, 24));
    assert(config_text(c) == t23);
    lemma_prefix_tail(c, 24);
    assert(saved_tail(c, 24) =~= Seq::<char>::empty());
    assert(saved_prefix(c, 24) + Seq::<char>::empty() =~= saved_prefix(c, 24));
}

proof fn lemma_config_after_all(c: ConfigView)
    requires
        c.protocol == default_protocol(),
        c.watchdog == default_watchdog(),
    ensures
        config_after(c, 24) == c,
{
    assert(config_after(c, 0) == default_config());
    assert(config_after(c, 1) == with_field(config_after(c, 0), c, 0));
    assert(config_after(c, 2) == with_field(config_after(c, 1), c, 1));
    assert(config_after(c, 3) == with_field(config_after(c, 2), c, 2));
    assert(config_after(c, 4) == with_field(config_after(c, 3), c, 3));
    assert(config_after(c, 5) == with_field(config_after(c, 4), c, 4));
    assert(config_after(c, 6) == with_field(config_after(c, 5), c, 5));
    assert(config_after(c, 7) == with_field(config_after(c, 6), c, 6));
    assert(config_after(c, 8) == with_field(config_after(c, 7), c, 7));
    assert(config_after(c, 9) == with_field(config_after(c, 8), c, 8));
    assert(config_after(c, 10) == with_field(config_after(c, 9), c, 9));
    assert(config_after(c, 11) == with_field(config_after(c, 10), c, 10));
    assert(config_after(c, 12) == with_field(config_after(c, 11), c, 11));
    assert(config_after(c, 13) == with_field(config_after(c, 12), c, 12));
    assert(config_after(c, 14) == with_field(config_after(c, 13), c, 13));
    assert(config_after(c, 15) == with_field(config_after(c, 14), c, 14));
    assert(config_after(c, 16) == with_field(config_after(c, 15), c, 15));
    assert(config_after(c, 17) == with_field(config_after(c, 16), c, 16));
    assert(config_after(c, 18) == with_field(config_after(c, 17), c, 17));
    assert(config_after(c, 19) == with_field(config_after(c, 18), c, 18));
    assert(config_after(c, 20) == with_field(config_after(c, 19), c, 19));
    assert(config_after(c, 21) == with_field(config_after(c, 20), c, 20));
    assert(config_after(c, 22) == with_field(config_after(c, 21), c, 21));
    assert(config_after(c, 23) == with_field(config_after(c, 22), c, 22));
    assert(config_after(c, 24) == with_field(config_after(c, 23), c, 23));
    let r = config_after(c, 24);
    assert(r.device == c.device);
    assert(r.baud == c.baud);
    assert(r.flow_control == c.flow_control);
    assert(r.parity == c.parity);
    assert(r.stop_bits == c.stop_bits);
    assert(r.dtr_on_open == c.dtr_on_open);
    assert(r.serial_timeout_ms == c.serial_timeout_ms);
    assert(r.cols == c.cols);
    assert(r.rows == c.rows);
    assert(r.scroll_speed_ms == c.scroll_speed_ms);
    assert(r.page_timeout_ms == c.page_timeout_ms);
    assert(r.lcd_present == c.lcd_present);
    assert(r.polling_enabled == c.polling_enabled);
    assert(r.poll_interval_ms == c.poll_interval_ms);
    assert(r.button_gpio_pin == c.button_gpio_pin);
    assert(r.pcf8574_addr == c.pcf8574_addr);
    assert(r.display_driver == c.display_driver);
    assert(r.backoff_initial_ms == c.backoff_initial_ms);
    assert(r.backoff_max_ms == c.backoff_max_ms);
    assert(r.command_allowlist == c.command_allowlist);
    assert(r.negotiation == c.negotiation);
    assert(r.protocol == c.protocol);
    assert(r.watchdog == c.watchdog);
}

/// Saving a configuration and loading the saved text gives the same
/// configuration back, for every valid configuration whose device path and
/// command entries the format can carry (see `quotable` and `listable`)
/// and whose protocol and watchdog settings, which the file does not store,
/// are the defaults.
pub proof fn lemma_saved_config_loads_back(c: ConfigView)
    requires
        config_violation(c) is None,
        quotable(c.device),
        forall|i: int| 0 <= i < c.command_allowlist.len() ==> listable(#[trigger] c.command_allowlist[i]),
        c.protocol == default_protocol(),
        c.watchdog == default_watchdog(),
    ensures
        config_from_text(config_text(c)) == Ok::<ConfigView, Seq<char>>(c),
{
    lemma_config_text_is_tail(c);
    lemma_saved_tail(c, 0);
    lemma_config_after_all(c);
}

/// The first start: with no file the defaults are used, and saving them
/// gives a file that loads back as the defaults, so every later start
/// sees the same configuration.
pub proof fn lemma_defaults_load_back()
    ensures
        config_from_text(config_text(default_config())) == Ok::<ConfigView, Seq<char>>(default_config()),
{
    let c = default_config();
    reveal_strlit("/dev/ttyUSB0");
    assert(c.device =~= "/dev/ttyUSB0"@);
    assert(config_violation(c) is None);
    assert(quotable(c.device));
    lemma_saved_config_loads_back(c);
}

} // verus!
