//! Reading a payload out of a JSON document: an object whose members are
//! the payload's fields, each of its own type; unknown and repeated fields
//! are refused, `line1` and `line2` must be present (a reload request may leave
//! them out, and they are then empty), the rest may be absent
//! or `null`.
use vstd::prelude::*;
use vstd::string::StringExecFns;
use crate::json::{
    JsonDoc, JsonNode, value_document, split_value, reversed_members, doc_text, doc_opt_text,
    doc_opt_bool, doc_opt_uint, doc_opt_text_list, read_text, read_opt_text, read_opt_bool,
    read_opt_uint, read_opt_text_list,
};
use crate::payload::{Payload, PayloadView, texts};
use crate::text::same_text;

verus! {

/// Number of fields of a payload.
pub const PAYLOAD_FIELD_COUNT: usize = 21;

/// The position of a payload field, by its JSON name, in declaration order.
pub open spec fn payload_field_index(key: Seq<char>) -> Option<int> {
    if key == "line1"@ {
        Some(0)
    } else if key == "line2"@ {
        Some(1)
    } else if key == "schema_version"@ {
        Some(2)
    } else if key == "bar"@ {
        Some(3)
    } else if key == "bar_value"@ {
        Some(4)
    } else if key == "bar_max"@ {
        Some(5)
    } else if key == "bar_label"@ {
        Some(6)
    } else if key == "bar_line1"@ {
        Some(7)
    } else if key == "bar_line2"@ {
        Some(8)
    } else if key == "backlight"@ {
        Some(9)
    } else if key == "blink"@ {
        Some(10)
    } else if key == "scroll"@ {
        Some(11)
    } else if key == "scroll_speed_ms"@ {
        Some(12)
    } else if key == "duration_ms"@ {
        Some(13)
    } else if key == "page_timeout_ms"@ {
        Some(14)
    } else if key == "clear"@ {
        Some(15)
    } else if key == "test"@ {
        Some(16)
    } else if key == "mode"@ {
        Some(17)
    } else if key == "icons"@ {
        Some(18)
    } else if key == "checksum"@ {
        Some(19)
    } else if key == "config_reload"@ {
        Some(20)
    } else {
        None
    }
}

/// A payload with `line1` and `line2` empty and every other field absent.
pub open spec fn empty_payload() -> PayloadView {
    PayloadView {
        line1: Seq::empty(),
        line2: Seq::empty(),
        schema_version: None,
        bar: None,
        bar_value: None,
        bar_max: None,
        bar_label: None,
        bar_line1: None,
        bar_line2: None,
        backlight: None,
        blink: None,
        scroll: None,
        scroll_speed_ms: None,
        duration_ms: None,
        page_timeout_ms: None,
        clear: None,
        test: None,
        mode: None,
        icons: None,
        checksum: None,
        config_reload: None,
    }
}

pub open spec fn opt_u8(o: Option<u64>) -> Option<u8> {
    match o {
        Some(x) => Some(x as u8),
        None => None,
    }
}

pub open spec fn opt_u32(o: Option<u64>) -> Option<u32> {
    match o {
        Some(x) => Some(x as u32),
        None => None,
    }
}

/// `p` with field `k` read from `d`; `None` where `d` does not have the
/// field's type.
pub open spec fn apply_payload_field(p: PayloadView, k: int, d: JsonDoc) -> Option<PayloadView> {
    if k == 0 {
        match doc_text(d) {
            Some(s) => Some(PayloadView { line1: s, ..p }),
            None => None,
        }
    } else if k == 1 {
        match doc_text(d) {
            Some(s) => Some(PayloadView { line2: s, ..p }),
            None => None,
        }
    } else if k == 2 {
        match doc_opt_uint(d, 255) {
            Some(x) => Some(PayloadView { schema_version: opt_u8(x), ..p }),
            None => None,
        }
    } else if k == 3 {
        match doc_opt_uint(d, 255) {
            Some(x) => Some(PayloadView { bar: opt_u8(x), ..p }),
            None => None,
        }
    } else if k == 4 {
        match doc_opt_uint(d, 0xffff_ffff) {
            Some(x) => Some(PayloadView { bar_value: opt_u32(x), ..p }),
            None => None,
        }
    } else if k == 5 {
        match doc_opt_uint(d, 0xffff_ffff) {
            Some(x) => Some(PayloadView { bar_max: opt_u32(x), ..p }),
            None => None,
        }
    } else if k == 6 {
        match doc_opt_text(d) {
            Some(x) => Some(PayloadView { bar_label: x, ..p }),
            None => None,
        }
    } else if k == 7 {
        match doc_opt_bool(d) {
            Some(x) => Some(PayloadView { bar_line1: x, ..p }),
            None => None,
        }
    } else if k == 8 {
        match doc_opt_bool(d) {
            Some(x) => Some(PayloadView { bar_line2: x, ..p }),
            None => None,
        }
    } else if k == 9 {
        match doc_opt_bool(d) {
            Some(x) => Some(PayloadView { backlight: x, ..p }),
            None => None,
        }
    } else if k == 10 {
        match doc_opt_bool(d) {
            Some(x) => Some(PayloadView { blink: x, ..p }),
            None => None,
        }
    } else if k == 11 {
        match doc_opt_bool(d) {
            Some(x) => Some(PayloadView { scroll: x, ..p }),
            None => None,
        }
    } else if k == 12 {
        match doc_opt_uint(d, 0xffff_ffff_ffff_ffff) {
            Some(x) => Some(PayloadView { scroll_speed_ms: x, ..p }),
            None => None,
        }
    } else if k == 13 {
        match doc_opt_uint(d, 0xffff_ffff_ffff_ffff) {
            Some(x) => Some(PayloadView { duration_ms: x, ..p }),
            None => None,
        }
    } else if k == 14 {
        match doc_opt_uint(d, 0xffff_ffff_ffff_ffff) {
            Some(x) => Some(PayloadView { page_timeout_ms: x, ..p }),
            None => None,
        }
    } else if k == 15 {
        match doc_opt_bool(d) {
            Some(x) => Some(PayloadView { clear: x, ..p }),
            None => None,
        }
    } else if k == 16 {
        match doc_opt_bool(d) {
            Some(x) => Some(PayloadView { test: x, ..p }),
            None => None,
        }
    } else if k == 17 {
        match doc_opt_text(d) {
            Some(x) => Some(PayloadView { mode: x, ..p }),
            None => None,
        }
    } else if k == 18 {
        match doc_opt_text_list(d) {
            Some(x) => Some(PayloadView { icons: x, ..p }),
            None => None,
        }
    } else if k == 19 {
        match doc_opt_text(d) {
            Some(x) => Some(PayloadView { checksum: x, ..p }),
            None => None,
        }
    } else {
        match doc_opt_bool(d) {
            Some(x) => Some(PayloadView { config_reload: x, ..p }),
            None => None,
        }
    }
}

/// What has been read of an object so far: the fields and which of them
/// were present.
pub struct DecodeState {
    pub payload: PayloadView,
    pub seen: Set<int>,
}

pub open spec fn field_message(head: Seq<char>, key: Seq<char>) -> Seq<char> {
    head + key + "`"@
}

/// Reads one member into the state.
pub open spec fn decode_step(st: DecodeState, m: (Seq<char>, JsonDoc)) -> Result<
    DecodeState,
    Seq<char>,
> {
    match payload_field_index(m.0) {
        None => Err(field_message("json: unknown field `"@, m.0)),
        Some(k) => if st.seen.contains(k) {
            Err(field_message("json: duplicate field `"@, m.0))
        } else {
            match apply_payload_field(st.payload, k, m.1) {
                Some(p) => Ok(DecodeState { payload: p, seen: st.seen.insert(k) }),
                None => Err(field_message("json: invalid type for field `"@, m.0)),
            }
        },
    }
}

/// Reads the members in order, stopping at the first one refused.
pub open spec fn decode_members(ms: Seq<(Seq<char>, JsonDoc)>) -> Result<DecodeState, Seq<char>>
    decreases ms.len(),
{
    if ms.len() == 0 {
        Ok(DecodeState { payload: empty_payload(), seen: Set::empty() })
    } else {
        match decode_members(ms.drop_last()) {
            Ok(st) => decode_step(st, ms.last()),
            Err(e) => Err(e),
        }
    }
}

/// The payload a JSON document holds, or the reason it holds none.
pub open spec fn payload_from_doc(d: JsonDoc) -> Result<PayloadView, Seq<char>> {
    match d {
        JsonDoc::Object(ms) => match decode_members(ms) {
            Ok(st) => if st.payload.config_reload == Some(true) {
                Ok(st.payload)
            } else if !st.seen.contains(0) {
                Err("json: missing field `line1`"@)
            } else if !st.seen.contains(1) {
                Err("json: missing field `line2`"@)
            } else {
                Ok(st.payload)
            },
            Err(e) => Err(e),
        },
        _ => Err("json: invalid type: expected a payload object"@),
    }
}

/// A reload request may leave out its lines: the object
/// `{"schema_version":1,"config_reload":true}` is read as a payload with
/// empty lines, schema version 1 and the reload flag set.
pub proof fn lemma_reload_request_needs_no_lines()
    ensures
        payload_from_doc(
            JsonDoc::Object(
                seq![
                    ("schema_version"@, JsonDoc::Number(Some(1u64), Some(1i64))),
                    ("config_reload"@, JsonDoc::Bool(true)),
                ],
            ),
        ) == Ok::<PayloadView, Seq<char>>(
            PayloadView { schema_version: Some(1u8), config_reload: Some(true), ..empty_payload() },
        ),
{
    reveal_strlit("line1");
    reveal_strlit("line2");
    reveal_strlit("schema_version");
    reveal_strlit("bar");
    reveal_strlit("bar_value");
    reveal_strlit("bar_max");
    reveal_strlit("bar_label");
    reveal_strlit("bar_line1");
    reveal_strlit("bar_line2");
    reveal_strlit("backlight");
    reveal_strlit("blink");
    reveal_strlit("scroll");
    reveal_strlit("scroll_speed_ms");
    reveal_strlit("duration_ms");
    reveal_strlit("page_timeout_ms");
    reveal_strlit("clear");
    reveal_strlit("test");
    reveal_strlit("mode");
    reveal_strlit("icons");
    reveal_strlit("checksum");
    reveal_strlit("config_reload");
    let ms = seq![
        ("schema_version"@, JsonDoc::Number(Some(1u64), Some(1i64))),
        ("config_reload"@, JsonDoc::Bool(true)),
    ];
    assert("schema_version"@.len() == 14 && "line1"@.len() == 5 && "line2"@.len() == 5);
    assert("schema_version"@ != "line1"@ && "schema_version"@ != "line2"@);
    assert(payload_field_index("schema_version"@) == Some(2int));
    let c = "config_reload"@;
    assert(c.len() == 13);
    assert(c != "line1"@ && c != "line2"@ && c != "schema_version"@ && c != "bar"@);
    assert(c != "bar_value"@ && c != "bar_max"@ && c != "bar_label"@ && c != "bar_line1"@);
    assert(c != "bar_line2"@ && c != "backlight"@ && c != "blink"@ && c != "scroll"@);
    assert(c != "scroll_speed_ms"@ && c != "duration_ms"@ && c != "page_timeout_ms"@);
    assert(c != "clear"@ && c != "test"@ && c != "mode"@ && c != "icons"@ && c != "checksum"@);
    assert(payload_field_index("config_reload"@) == Some(20int));
    let ms1 = ms.drop_last();
    assert(ms1.drop_last() =~= Seq::<(Seq<char>, JsonDoc)>::empty());
    let st0 = DecodeState { payload: empty_payload(), seen: Set::<int>::empty() };
    assert(decode_members(ms1.drop_last()) == Ok::<DecodeState, Seq<char>>(st0));
    assert(doc_opt_uint(JsonDoc::Number(Some(1u64), Some(1i64)), 255) == Some(Some(1u64)));
    let st1 = DecodeState {
        payload: PayloadView { schema_version: Some(1u8), ..empty_payload() },
        seen: Set::<int>::empty().insert(2int),
    };
    assert(decode_step(st0, ms1.last()) == Ok::<DecodeState, Seq<char>>(st1));
    assert(decode_members(ms1) == Ok::<DecodeState, Seq<char>>(st1));
    assert(!st1.seen.contains(20));
    assert(decode_members(ms) == decode_step(st1, ms.last()));
}

/// Once a member is refused, reading more members changes nothing.
pub proof fn lemma_decode_error_sticks(ms: Seq<(Seq<char>, JsonDoc)>, i: int)
    requires
        0 <= i <= ms.len(),
        decode_members(ms.take(i)) is Err,
    ensures
        decode_members(ms) == decode_members(ms.take(i)),
    decreases ms.len() - i,
{
    if i == ms.len() {
        assert(ms.take(i) =~= ms);
    } else {
        assert(ms.take(i + 1).drop_last() =~= ms.take(i));
        lemma_decode_error_sticks(ms, i + 1);
    }
}

/// The position of a payload field, by its JSON name.
pub fn payload_field_position(key: &str) -> (r: Option<usize>)
    ensures
        match r {
            Some(k) => payload_field_index(key@) == Some(k as int),
            None => payload_field_index(key@) is None,
        },
{
    if same_text(key, "line1") {
        Some(0)
    } else if same_text(key, "line2") {
        Some(1)
    } else if same_text(key, "schema_version") {
        Some(2)
    } else if same_text(key, "bar") {
        Some(3)
    } else if same_text(key, "bar_value") {
        Some(4)
    } else if same_text(key, "bar_max") {
        Some(5)
    } else if same_text(key, "bar_label") {
        Some(6)
    } else if same_text(key, "bar_line1") {
        Some(7)
    } else if same_text(key, "bar_line2") {
        Some(8)
    } else if same_text(key, "backlight") {
        Some(9)
    } else if same_text(key, "blink") {
        Some(10)
    } else if same_text(key, "scroll") {
        Some(11)
    } else if same_text(key, "scroll_speed_ms") {
        Some(12)
    } else if same_text(key, "duration_ms") {
        Some(13)
    } else if same_text(key, "page_timeout_ms") {
        Some(14)
    } else if same_text(key, "clear") {
        Some(15)
    } else if same_text(key, "test") {
        Some(16)
    } else if same_text(key, "mode") {
        Some(17)
    } else if same_text(key, "icons") {
        Some(18)
    } else if same_text(key, "checksum") {
        Some(19)
    } else if same_text(key, "config_reload") {
        Some(20)
    } else {
        None
    }
}

fn narrow_u8(o: Option<u64>) -> (r: Option<u8>)
    requires
        o matches Some(x) ==> x <= 255,
    ensures
        r == opt_u8(o),
{
    match o {
        Some(x) => Some(x as u8),
        None => None,
    }
}

fn narrow_u32(o: Option<u64>) -> (r: Option<u32>)
    requires
        o matches Some(x) ==> x <= 0xffff_ffff,
    ensures
        r == opt_u32(o),
{
    match o {
        Some(x) => Some(x as u32),
        None => None,
    }
}

/// Reads field `k` of `p` from `v`; `false`, and `p` untouched, where `v`
/// does not have the field's type.
fn apply_field(p: &mut Payload, k: usize, v: serde_json::Value) -> (ok: bool)
    requires
        k < PAYLOAD_FIELD_COUNT,
    ensures
        match apply_payload_field(old(p)@, k as int, value_document(v)) {
            Some(q) => ok && final(p)@ == q,
            None => !ok && final(p)@ == old(p)@,
        },
{
    let ghost d = value_document(v);
    if k == 0 {
        match read_text(v) {
            Some(s) => {
                p.line1 = s;
                true
            },
            None => false,
        }
    } else if k == 1 {
        match read_text(v) {
            Some(s) => {
                p.line2 = s;
                true
            },
            None => false,
        }
    } else if k == 2 || k == 3 {
        match read_opt_uint(v, 255) {
            Some(x) => {
                let y = narrow_u8(x);
                if k == 2 {
                    p.schema_version = y;
                } else {
                    p.bar = y;
                }
                true
            },
            None => false,
        }
    } else if k == 4 || k == 5 {
        match read_opt_uint(v, 0xffff_ffff) {
            Some(x) => {
                let y = narrow_u32(x);
                if k == 4 {
                    p.bar_value = y;
                } else {
                    p.bar_max = y;
                }
                true
            },
            None => false,
        }
    } else if k == 12 || k == 13 || k == 14 {
        match read_opt_uint(v, 0xffff_ffff_ffff_ffff) {
            Some(x) => {
                if k == 12 {
                    p.scroll_speed_ms = x;
                } else if k == 13 {
                    p.duration_ms = x;
                } else {
                    p.page_timeout_ms = x;
                }
                true
            },
            None => false,
        }
    } else if k == 6 || k == 17 || k == 19 {
        match read_opt_text(v) {
            Some(x) => {
                if k == 6 {
                    p.bar_label = x;
                } else if k == 17 {
                    p.mode = x;
                } else {
                    p.checksum = x;
                }
                true
            },
            None => false,
        }
    } else if k == 18 {
        match read_opt_text_list(v) {
            Some(x) => {
                p.icons = x;
                true
            },
            None => false,
        }
    } else {
        match read_opt_bool(v) {
            Some(x) => {
                if k == 7 {
                    p.bar_line1 = x;
                } else if k == 8 {
                    p.bar_line2 = x;
                } else if k == 9 {
                    p.backlight = x;
                } else if k == 10 {
                    p.blink = x;
                } else if k == 11 {
                    p.scroll = x;
                } else if k == 15 {
                    p.clear = x;
                } else if k == 16 {
                    p.test = x;
                } else {
                    p.config_reload = x;
                }
                true
            },
            None => false,
        }
    }
}

/// The fields marked in `seen`.
pub open spec fn seen_set(seen: Seq<bool>) -> Set<int> {
    Set::new(|k: int| 0 <= k < seen.len() && seen[k])
}

fn blank_payload() -> (r: Payload)
    ensures
        r@ == empty_payload(),
{
    Payload {
        line1: String::new(),
        line2: String::new(),
        schema_version: None,
        bar: None,
        bar_value: None,
        bar_max: None,
        bar_label: None,
        bar_line1: None,
        bar_line2: None,
        backlight: None,
        blink: None,
        scroll: None,
        scroll_speed_ms: None,
        duration_ms: None,
        page_timeout_ms: None,
        clear: None,
        test: None,
        mode: None,
        icons: None,
        checksum: None,
        config_reload: None,
    }
}

/// Reads a payload out of a parsed JSON value.
pub fn decode_payload(v: serde_json::Value) -> (r: Result<Payload, String>)
    ensures
        match payload_from_doc(value_document(v)) {
            Ok(pv) => r matches Ok(p) && p@ == pv,
            Err(m) => r matches Err(e) && e@ == m,
        },
{
    let ghost doc = value_document(v);
    let members = match split_value(v) {
        JsonNode::Object(members) => members,
        _ => {
            return Err(String::from_str("json: invalid type: expected a payload object"));
        },
    };
    let ghost ms = members@.map_values(
        |m: (String, serde_json::Value)| (m.0@, value_document(m.1)),
    );
    assert(doc == JsonDoc::Object(ms));
    let ghost n = ms.len();
    assert(n == members@.len());
    let mut stack = reversed_members(members);
    let total: usize = stack.len();
    assert(n == total);
    let mut p = blank_payload();
    let mut seen: Vec<bool> = Vec::new();
    let mut j: usize = 0;
    while j < PAYLOAD_FIELD_COUNT
        invariant
            j <= PAYLOAD_FIELD_COUNT,
            seen@.len() == j,
            forall|k: int| 0 <= k < j ==> !(#[trigger] seen@[k]),
        decreases PAYLOAD_FIELD_COUNT - j,
    {
        seen.push(false);
        j = j + 1;
    }
    assert(seen_set(seen@) =~= Set::<int>::empty());
    assert(ms.take(0) =~= Seq::<(Seq<char>, JsonDoc)>::empty());
    let mut i: usize = 0;
    while stack.len() > 0
        invariant
            n == ms.len(),
            n <= usize::MAX,
            doc == JsonDoc::Object(ms),
            doc == value_document(v),
            stack@.len() + i == n,
            forall|k: int|
                0 <= k < stack@.len() ==> (#[trigger] stack@[k]).0@ == ms[n - 1 - k].0
                    && value_document(stack@[k].1) == ms[n - 1 - k].1,
            seen@.len() == PAYLOAD_FIELD_COUNT,
            decode_members(ms.take(i as int)) == Ok::<DecodeState, Seq<char>>(
                DecodeState { payload: p@, seen: seen_set(seen@) },
            ),
        decreases stack@.len(),
    {
        let ghost before = stack@;
        let ghost st = DecodeState { payload: p@, seen: seen_set(seen@) };
        let (key, value) = stack.pop().unwrap();
        assert(before[before.len() - 1] == (key, value));
        let ghost m = ms[i as int];
        assert(m.0 == key@ && m.1 == value_document(value));
        assert(ms.take(i + 1).drop_last() =~= ms.take(i as int));
        assert(ms.take(i + 1).last() == m);
        match payload_field_position(key.as_str()) {
            None => {
                assert(decode_step(st, m) == Err::<DecodeState, Seq<char>>(
                    field_message("json: unknown field `"@, key@),
                ));
                assert(decode_members(ms.take(i + 1)) == decode_step(st, m));
                proof {
                    lemma_decode_error_sticks(ms, i + 1);
                }
                let msg = crate::concat3("json: unknown field `", key.as_str(), "`");
                assert(msg@ == field_message("json: unknown field `"@, m.0));
                return Err(msg);
            },
            Some(k) => {
                assert(k < PAYLOAD_FIELD_COUNT);
                if seen[k] {
                    assert(st.seen.contains(k as int));
                    proof {
                        lemma_decode_error_sticks(ms, i + 1);
                    }
                    let msg = crate::concat3("json: duplicate field `", key.as_str(), "`");
                assert(msg@ == field_message("json: duplicate field `"@, m.0));
                return Err(msg);
                }
                assert(!st.seen.contains(k as int));
                let ok = apply_field(&mut p, k, value);
                if !ok {
                    proof {
                        lemma_decode_error_sticks(ms, i + 1);
                    }
                    return Err(crate::concat3("json: invalid type for field `", key.as_str(), "`"));
                }
                seen.set(k, true);
                assert(seen_set(seen@) =~= st.seen.insert(k as int));
            },
        }
        i = i + 1;
    }
    assert(ms.take(n as int) =~= ms);
    let reload = match p.config_reload {
        Some(b) => b,
        None => false,
    };
    if reload {
        return Ok(p);
    }
    if !seen[0] {
        return Err(String::from_str("json: missing field `line1`"));
    }
    if !seen[1] {
        return Err(String::from_str("json: missing field `line2`"));
    }
    assert(seen_set(seen@).contains(0) && seen_set(seen@).contains(1));
    Ok(p)
}

} // verus!
