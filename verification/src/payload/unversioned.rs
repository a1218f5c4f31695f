//! Payloads without a schema version: the earlier, smaller frame format.
//!
//! Fields it does not define are ignored, and no schema limits apply; the
//! checksum, when present, covers the canonical text of its fifteen fields.
use vstd::prelude::*;
use vstd::string::StringExecFns;
use vstd::utf8::encode_utf8;
use crate::json::{
    JsonDoc, json_text_document, value_document, parse_value, member_doc, object_members, slot_docs,
    collect_members, take_slot, doc_opt_bool, doc_opt_uint, read_opt_bool, read_opt_uint,
};
use crate::payload::{Defaults, opt_text, bar_percent_of, rounded_percent};
use crate::payload::canonical::{
    json_string, json_member, json_field, json_opt_string, json_opt_num, json_opt_bool, nat_u32, nat_u64,
    crc32_of, crc32, checksum_value, verify_checksum, push_key, push_json_string, push_opt_num,
    push_opt_string, push_null,
};
use crate::payload::command::{req_text, opt_u32, opt_string, invalid};
use crate::payload::frame::{Failure, error_is};
use crate::text::{chars_of, string_of, is_prefix, lemma_prefix_concat};
use crate::Error;

verus! {

/// A payload without a schema version.
#[derive(Debug, Clone, PartialEq)]
pub struct Payload {
    pub line1: String,
    pub line2: String,
    pub bar_value: Option<u32>,
    pub bar_max: Option<u32>,
    pub bar_label: Option<String>,
    pub bar_line1: Option<bool>,
    pub bar_line2: Option<bool>,
    pub backlight: Option<bool>,
    pub blink: Option<bool>,
    pub scroll_speed_ms: Option<u64>,
    pub ttl_ms: Option<u64>,
    pub page_timeout_ms: Option<u64>,
    pub clear: Option<bool>,
    pub test: Option<bool>,
    pub checksum: Option<String>,
}

/// The model of a payload without a schema version.
pub struct PayloadView {
    pub line1: Seq<char>,
    pub line2: Seq<char>,
    pub bar_value: Option<u32>,
    pub bar_max: Option<u32>,
    pub bar_label: Option<Seq<char>>,
    pub bar_line1: Option<bool>,
    pub bar_line2: Option<bool>,
    pub backlight: Option<bool>,
    pub blink: Option<bool>,
    pub scroll_speed_ms: Option<u64>,
    pub ttl_ms: Option<u64>,
    pub page_timeout_ms: Option<u64>,
    pub clear: Option<bool>,
    pub test: Option<bool>,
    pub checksum: Option<Seq<char>>,
}

impl View for Payload {
    type V = PayloadView;

    open spec fn view(&self) -> PayloadView {
        PayloadView {
            line1: self.line1@,
            line2: self.line2@,
            bar_value: self.bar_value,
            bar_max: self.bar_max,
            bar_label: opt_text(self.bar_label),
            bar_line1: self.bar_line1,
            bar_line2: self.bar_line2,
            backlight: self.backlight,
            blink: self.blink,
            scroll_speed_ms: self.scroll_speed_ms,
            ttl_ms: self.ttl_ms,
            page_timeout_ms: self.page_timeout_ms,
            clear: self.clear,
            test: self.test,
            checksum: opt_text(self.checksum),
        }
    }
}

/// A frame drawn from a payload without a schema version.
#[derive(Debug, Clone, PartialEq)]
pub struct RenderFrame {
    pub line1: String,
    pub line2: String,
    pub backlight_on: bool,
    pub blink: bool,
    pub bar_percent: Option<u8>,
    pub bar_label: Option<String>,
    /// 0 = top row, 1 = bottom row.
    pub bar_row: Option<u8>,
    pub scroll_speed_ms: u64,
    pub ttl_ms: Option<u64>,
    pub page_timeout_ms: u64,
    pub clear: bool,
    pub test: bool,
}

/// The model of such a frame.
pub struct RenderFrameView {
    pub line1: Seq<char>,
    pub line2: Seq<char>,
    pub backlight_on: bool,
    pub blink: bool,
    pub bar_percent: Option<u8>,
    pub bar_label: Option<Seq<char>>,
    pub bar_row: Option<u8>,
    pub scroll_speed_ms: u64,
    pub ttl_ms: Option<u64>,
    pub page_timeout_ms: u64,
    pub clear: bool,
    pub test: bool,
}

impl View for RenderFrame {
    type V = RenderFrameView;

    open spec fn view(&self) -> RenderFrameView {
        RenderFrameView {
            line1: self.line1@,
            line2: self.line2@,
            backlight_on: self.backlight_on,
            blink: self.blink,
            bar_percent: self.bar_percent,
            bar_label: opt_text(self.bar_label),
            bar_row: self.bar_row,
            scroll_speed_ms: self.scroll_speed_ms,
            ttl_ms: self.ttl_ms,
            page_timeout_ms: self.page_timeout_ms,
            clear: self.clear,
            test: self.test,
        }
    }
}

/// The bar a payload asks for: `bar_value` against `bar_max` (100 when
/// absent, at least 1).
pub open spec fn legacy_bar_percent(p: PayloadView) -> Option<u8> {
    match p.bar_value {
        Some(v) => {
            let m: nat = match p.bar_max {
                Some(m) => if m >= 1 {
                    m as nat
                } else {
                    1
                },
                None => 100,
            };
            Some(rounded_percent(v as nat, m))
        },
        None => None,
    }
}

/// The frame a payload describes.
pub open spec fn legacy_frame(p: PayloadView, d: Defaults) -> RenderFrameView {
    let bar = legacy_bar_percent(p);
    RenderFrameView {
        line1: p.line1,
        line2: p.line2,
        backlight_on: p.backlight != Some(false),
        blink: p.blink == Some(true),
        bar_percent: bar,
        bar_label: p.bar_label,
        bar_row: if bar is Some {
            if p.bar_line1 == Some(true) {
                Some(0u8)
            } else {
                Some(1u8)
            }
        } else {
            None
        },
        scroll_speed_ms: match p.scroll_speed_ms {
            Some(v) => v,
            None => d.scroll_speed_ms,
        },
        ttl_ms: p.ttl_ms,
        page_timeout_ms: match p.page_timeout_ms {
            Some(v) => v,
            None => d.page_timeout_ms,
        },
        clear: p.clear == Some(true),
        test: p.test == Some(true),
    }
}

impl RenderFrame {
    /// The frame a payload describes; `defaults` fill in the timing it
    /// leaves out.
    pub fn from_payload_with_defaults(payload: Payload, defaults: Defaults) -> (r: RenderFrame)
        ensures
            r@ == legacy_frame(payload@, defaults),
    {
        let bar_percent = match payload.bar_value {
            Some(v) => {
                let m: u64 = match payload.bar_max {
                    Some(m) => if m >= 1 {
                        m as u64
                    } else {
                        1
                    },
                    None => 100,
                };
                Some(crate::payload::percent_of(v, m))
            },
            None => None,
        };
        let bar_row: Option<u8> = if bar_percent.is_some() {
            if payload.bar_line1 == Some(true) {
                Some(0)
            } else {
                Some(1)
            }
        } else {
            None
        };
        RenderFrame {
            line1: payload.line1,
            line2: payload.line2,
            backlight_on: payload.backlight != Some(false),
            blink: payload.blink == Some(true),
            bar_percent,
            bar_label: payload.bar_label,
            bar_row,
            scroll_speed_ms: match payload.scroll_speed_ms {
                Some(v) => v,
                None => defaults.scroll_speed_ms,
            },
            ttl_ms: payload.ttl_ms,
            page_timeout_ms: match payload.page_timeout_ms {
                Some(v) => v,
                None => defaults.page_timeout_ms,
            },
            clear: payload.clear == Some(true),
            test: payload.test == Some(true),
        }
    }
}

/// An optional boolean member.
pub open spec fn opt_flag(ms: Seq<(Seq<char>, JsonDoc)>, key: Seq<char>) -> Result<Option<bool>, Seq<char>> {
    match member_doc(ms, key) {
        None => Ok(None),
        Some(d) => match doc_opt_bool(d) {
            Some(x) => Ok(x),
            None => Err(invalid(key)),
        },
    }
}

/// An optional `u64` member.
pub open spec fn opt_millis(ms: Seq<(Seq<char>, JsonDoc)>, key: Seq<char>) -> Result<Option<u64>, Seq<char>> {
    match member_doc(ms, key) {
        None => Ok(None),
        Some(d) => match doc_opt_uint(d, 0xffff_ffff_ffff_ffff) {
            Some(x) => Ok(x),
            None => Err(invalid(key)),
        },
    }
}

/// The payload a document holds: an object with `line1` and `line2`
/// strings, the other fields optional, unknown members ignored; fields are
/// read in declaration order and the first one refused names the error.
pub open spec fn legacy_payload_from_doc(d: JsonDoc) -> Result<PayloadView, Seq<char>> {
    match object_members(d) {
        None => Err("json: invalid type: expected a payload object"@),
        Some(ms) => {
            let l1 = req_text(ms, "line1"@);
            let l2 = req_text(ms, "line2"@);
            let bv = opt_u32(ms, "bar_value"@);
            let bm = opt_u32(ms, "bar_max"@);
            let bl = opt_string(ms, "bar_label"@);
            let b1 = opt_flag(ms, "bar_line1"@);
            let b2 = opt_flag(ms, "bar_line2"@);
            let bk = opt_flag(ms, "backlight"@);
            let bn = opt_flag(ms, "blink"@);
            let ss = opt_millis(ms, "scroll_speed_ms"@);
            let tt = opt_millis(ms, "ttl_ms"@);
            let pt = opt_millis(ms, "page_timeout_ms"@);
            let cl = opt_flag(ms, "clear"@);
            let ts = opt_flag(ms, "test"@);
            let ck = opt_string(ms, "checksum"@);
            if l1 is Err { Err(l1->Err_0) }
            else if l2 is Err { Err(l2->Err_0) }
            else if bv is Err { Err(bv->Err_0) }
            else if bm is Err { Err(bm->Err_0) }
            else if bl is Err { Err(bl->Err_0) }
            else if b1 is Err { Err(b1->Err_0) }
            else if b2 is Err { Err(b2->Err_0) }
            else if bk is Err { Err(bk->Err_0) }
            else if bn is Err { Err(bn->Err_0) }
            else if ss is Err { Err(ss->Err_0) }
            else if tt is Err { Err(tt->Err_0) }
            else if pt is Err { Err(pt->Err_0) }
            else if cl is Err { Err(cl->Err_0) }
            else if ts is Err { Err(ts->Err_0) }
            else if ck is Err { Err(ck->Err_0) }
            else {
                Ok(PayloadView {
                    line1: l1->Ok_0,
                    line2: l2->Ok_0,
                    bar_value: bv->Ok_0,
                    bar_max: bm->Ok_0,
                    bar_label: bl->Ok_0,
                    bar_line1: b1->Ok_0,
                    bar_line2: b2->Ok_0,
                    backlight: bk->Ok_0,
                    blink: bn->Ok_0,
                    scroll_speed_ms: ss->Ok_0,
                    ttl_ms: tt->Ok_0,
                    page_timeout_ms: pt->Ok_0,
                    clear: cl->Ok_0,
                    test: ts->Ok_0,
                    checksum: ck->Ok_0,
                })
            }
        },
    }
}

/// The canonical text of a payload: all fifteen fields in order.
pub open spec fn legacy_json(p: PayloadView) -> Seq<char> {
    seq!['{'] + json_member("line1"@, json_string(p.line1)) + json_field("line2"@, json_string(p.line2))
        + json_field("bar_value"@, json_opt_num(nat_u32(p.bar_value))) + json_field("bar_max"@, json_opt_num(nat_u32(p.bar_max)))
        + json_field("bar_label"@, json_opt_string(p.bar_label)) + json_field("bar_line1"@, json_opt_bool(p.bar_line1))
        + json_field("bar_line2"@, json_opt_bool(p.bar_line2)) + json_field("backlight"@, json_opt_bool(p.backlight))
        + json_field("blink"@, json_opt_bool(p.blink)) + json_field("scroll_speed_ms"@, json_opt_num(nat_u64(p.scroll_speed_ms)))
        + json_field("ttl_ms"@, json_opt_num(nat_u64(p.ttl_ms))) + json_field("page_timeout_ms"@, json_opt_num(nat_u64(p.page_timeout_ms)))
        + json_field("clear"@, json_opt_bool(p.clear)) + json_field("test"@, json_opt_bool(p.test))
        + json_field("checksum"@, json_opt_string(p.checksum)) + seq!['}']
}

/// What payload text becomes.
pub open spec fn legacy_outcome(raw: Seq<char>, d: Defaults) -> Option<Result<RenderFrameView, Failure>> {
    match json_text_document(raw) {
        None => None,
        Some(doc) => Some(
            match legacy_payload_from_doc(doc) {
                Err(m) => Err(Failure::Parse(m)),
                Ok(p) => match p.checksum {
                    None => Ok(legacy_frame(p, d)),
                    Some(hex) => match checksum_value(hex) {
                        None => Err(Failure::Parse("invalid checksum hex"@)),
                        Some(x) => if x == crc32_of(encode_utf8(legacy_json(PayloadView { checksum: None, ..p }))) as nat {
                            Ok(legacy_frame(p, d))
                        } else {
                            Err(Failure::Checksum)
                        },
                    },
                },
            },
        ),
    }
}

/// Whether `r` is what payload text `raw` becomes.
pub open spec fn legacy_result_is(r: Result<RenderFrame, Error>, raw: Seq<char>, d: Defaults) -> bool {
    match legacy_outcome(raw, d) {
        None => r matches Err(Error::Parse(m)) && is_prefix("json: "@, m@),
        Some(Ok(f)) => r matches Ok(x) && x@ == f,
        Some(Err(fl)) => r matches Err(e) && error_is(e, fl),
    }
}

fn get_text(o: Option<serde_json::Value>, key: &str, Ghost(ms): Ghost<Seq<(Seq<char>, JsonDoc)>>) -> (r: Result<String, String>)
    requires
        slot_docs(seq![o])[0] == member_doc(ms, key@),
    ensures
        match req_text(ms, key@) {
            Ok(s) => r matches Ok(x) && x@ == s,
            Err(m) => r matches Err(e) && e@ == m,
        },
{
    match o {
        None => Err(crate::concat3("json: missing field `", key, "`")),
        Some(v) => match crate::json::read_text(v) {
            Some(s) => Ok(s),
            None => Err(crate::concat3("json: invalid type for field `", key, "`")),
        },
    }
}

fn get_flag(o: Option<serde_json::Value>, key: &str, Ghost(ms): Ghost<Seq<(Seq<char>, JsonDoc)>>) -> (r: Result<Option<bool>, String>)
    requires
        slot_docs(seq![o])[0] == member_doc(ms, key@),
    ensures
        match opt_flag(ms, key@) {
            Ok(x) => r == Ok::<Option<bool>, String>(x),
            Err(m) => r matches Err(e) && e@ == m,
        },
{
    match o {
        None => Ok(None),
        Some(v) => match read_opt_bool(v) {
            Some(x) => Ok(x),
            None => Err(crate::concat3("json: invalid type for field `", key, "`")),
        },
    }
}

fn get_num(o: Option<serde_json::Value>, key: &str, max: u64, Ghost(ms): Ghost<Seq<(Seq<char>, JsonDoc)>>) -> (r: Result<Option<u64>, String>)
    requires
        slot_docs(seq![o])[0] == member_doc(ms, key@),
    ensures
        match member_doc(ms, key@) {
            None => r == Ok::<Option<u64>, String>(None),
            Some(d) => match doc_opt_uint(d, max as nat) {
                Some(x) => r == Ok::<Option<u64>, String>(x),
                None => r matches Err(e) && e@ == invalid(key@),
            },
        },
{
    match o {
        None => Ok(None),
        Some(v) => match read_opt_uint(v, max) {
            Some(x) => Ok(x),
            None => Err(crate::concat3("json: invalid type for field `", key, "`")),
        },
    }
}

fn get_string(o: Option<serde_json::Value>, key: &str, Ghost(ms): Ghost<Seq<(Seq<char>, JsonDoc)>>) -> (r: Result<Option<String>, String>)
    requires
        slot_docs(seq![o])[0] == member_doc(ms, key@),
    ensures
        match opt_string(ms, key@) {
            Ok(s) => r matches Ok(x) && opt_text(x) == s,
            Err(m) => r matches Err(e) && e@ == m,
        },
{
    match o {
        None => Ok(None),
        Some(v) => match crate::json::read_opt_text(v) {
            Some(x) => Ok(x),
            None => Err(crate::concat3("json: invalid type for field `", key, "`")),
        },
    }
}

proof fn lemma_keys_distinct(keys: [&str; 15])
    requires
        keys@ == seq!["line1", "line2", "bar_value", "bar_max", "bar_label", "bar_line1", "bar_line2", "backlight", "blink", "scroll_speed_ms", "ttl_ms", "page_timeout_ms", "clear", "test", "checksum"],
    ensures
        forall|a: int, b: int|
            0 <= a < keys@.len() && 0 <= b < keys@.len() && a != b ==> (#[trigger] keys@[a])@
                != (#[trigger] keys@[b])@,
{
    reveal_strlit("line1");
    reveal_strlit("line2");
    reveal_strlit("bar_value");
    reveal_strlit("bar_max");
    reveal_strlit("bar_label");
    reveal_strlit("bar_line1");
    reveal_strlit("bar_line2");
    reveal_strlit("backlight");
    reveal_strlit("blink");
    reveal_strlit("scroll_speed_ms");
    reveal_strlit("ttl_ms");
    reveal_strlit("page_timeout_ms");
    reveal_strlit("clear");
    reveal_strlit("test");
    reveal_strlit("checksum");
    assert forall|a: int, b: int|
        0 <= a < keys@.len() && 0 <= b < keys@.len() && a != b implies (#[trigger] keys@[a])@
            != (#[trigger] keys@[b])@ by {
        let x = keys@[a]@;
        let y = keys@[b]@;
        if x == y {
            assert(x.len() == y.len());
            assert(x[0] == y[0]);
            assert(x[1] == y[1]);
            if x.len() > 4 {
                assert(x[4] == y[4]);
            }
            if x.len() > 5 {
                assert(x[5] == y[5]);
            }
            if x.len() > 8 {
                assert(x[8] == y[8]);
            }
        }
    }
}

/// Reads a payload out of a parsed value.
pub fn decode_payload(v: serde_json::Value) -> (r: Result<Payload, String>)
    ensures
        match legacy_payload_from_doc(value_document(v)) {
            Ok(p) => r matches Ok(x) && x@ == p,
            Err(e) => r matches Err(x) && x@ == e,
        },
{
    let ghost doc = value_document(v);
    let keys: [&str; 15] = ["line1", "line2", "bar_value", "bar_max", "bar_label", "bar_line1", "bar_line2", "backlight", "blink", "scroll_speed_ms", "ttl_ms", "page_timeout_ms", "clear", "test", "checksum"];
    proof {
        lemma_keys_distinct(keys);
    }
    let mut slots = match collect_members(v, keys.as_slice()) {
        Some(s) => s,
        None => {
            return Err(String::from_str("json: invalid type: expected a payload object"));
        },
    };
    let ghost ms = object_members(doc)->0;
    assert forall|j: int| 0 <= j < 15 implies slot_docs(slots@)[j] == member_doc(ms, keys@[j]@) by {}
    assert(keys@[0] == "line1" && keys@[1] == "line2" && keys@[2] == "bar_value" && keys@[3] == "bar_max" && keys@[4] == "bar_label");
    assert(keys@[5] == "bar_line1" && keys@[6] == "bar_line2" && keys@[7] == "backlight" && keys@[8] == "blink" && keys@[9] == "scroll_speed_ms");
    assert(keys@[10] == "ttl_ms" && keys@[11] == "page_timeout_ms" && keys@[12] == "clear" && keys@[13] == "test" && keys@[14] == "checksum");
    let ghost s0 = slots@;
    let o14 = slots.pop().unwrap();
    assert(o14 == s0[14]);
    let o13 = slots.pop().unwrap();
    assert(o13 == s0[13]);
    let o12 = slots.pop().unwrap();
    assert(o12 == s0[12]);
    let o11 = slots.pop().unwrap();
    assert(o11 == s0[11]);
    let o10 = slots.pop().unwrap();
    assert(o10 == s0[10]);
    let o9 = slots.pop().unwrap();
    assert(o9 == s0[9]);
    let o8 = slots.pop().unwrap();
    assert(o8 == s0[8]);
    let o7 = slots.pop().unwrap();
    assert(o7 == s0[7]);
    let o6 = slots.pop().unwrap();
    assert(o6 == s0[6]);
    let o5 = slots.pop().unwrap();
    assert(o5 == s0[5]);
    let o4 = slots.pop().unwrap();
    assert(o4 == s0[4]);
    let o3 = slots.pop().unwrap();
    assert(o3 == s0[3]);
    let o2 = slots.pop().unwrap();
    assert(o2 == s0[2]);
    let o1 = slots.pop().unwrap();
    assert(o1 == s0[1]);
    let o0 = slots.pop().unwrap();
    assert(o0 == s0[0]);
    assert(slot_docs(seq![o0])[0] == slot_docs(s0)[0]);
    let line1 = get_text(o0, "line1", Ghost(ms))?;
    assert(slot_docs(seq![o1])[0] == slot_docs(s0)[1]);
    let line2 = get_text(o1, "line2", Ghost(ms))?;
    assert(slot_docs(seq![o2])[0] == slot_docs(s0)[2]);
    let bar_value = get_num(o2, "bar_value", 0xffff_ffff, Ghost(ms))?;
    assert(slot_docs(seq![o3])[0] == slot_docs(s0)[3]);
    let bar_max = get_num(o3, "bar_max", 0xffff_ffff, Ghost(ms))?;
    assert(slot_docs(seq![o4])[0] == slot_docs(s0)[4]);
    let bar_label = get_string(o4, "bar_label", Ghost(ms))?;
    assert(slot_docs(seq![o5])[0] == slot_docs(s0)[5]);
    let bar_line1 = get_flag(o5, "bar_line1", Ghost(ms))?;
    assert(slot_docs(seq![o6])[0] == slot_docs(s0)[6]);
    let bar_line2 = get_flag(o6, "bar_line2", Ghost(ms))?;
    assert(slot_docs(seq![o7])[0] == slot_docs(s0)[7]);
    let backlight = get_flag(o7, "backlight", Ghost(ms))?;
    assert(slot_docs(seq![o8])[0] == slot_docs(s0)[8]);
    let blink = get_flag(o8, "blink", Ghost(ms))?;
    assert(slot_docs(seq![o9])[0] == slot_docs(s0)[9]);
    let scroll_speed_ms = get_num(o9, "scroll_speed_ms", 0xffff_ffff_ffff_ffff, Ghost(ms))?;
    assert(slot_docs(seq![o10])[0] == slot_docs(s0)[10]);
    let ttl_ms = get_num(o10, "ttl_ms", 0xffff_ffff_ffff_ffff, Ghost(ms))?;
    assert(slot_docs(seq![o11])[0] == slot_docs(s0)[11]);
    let page_timeout_ms = get_num(o11, "page_timeout_ms", 0xffff_ffff_ffff_ffff, Ghost(ms))?;
    assert(slot_docs(seq![o12])[0] == slot_docs(s0)[12]);
    let clear = get_flag(o12, "clear", Ghost(ms))?;
    assert(slot_docs(seq![o13])[0] == slot_docs(s0)[13]);
    let test = get_flag(o13, "test", Ghost(ms))?;
    assert(slot_docs(seq![o14])[0] == slot_docs(s0)[14]);
    let checksum = get_string(o14, "checksum", Ghost(ms))?;
    let bv: Option<u32> = match bar_value {
        Some(x) => Some(x as u32),
        None => None,
    };
    let bm: Option<u32> = match bar_max {
        Some(x) => Some(x as u32),
        None => None,
    };
    Ok(Payload {
        line1,
        line2,
        bar_value: bv,
        bar_max: bm,
        bar_label,
        bar_line1,
        bar_line2,
        backlight,
        blink,
        scroll_speed_ms,
        ttl_ms,
        page_timeout_ms,
        clear,
        test,
        checksum,
    })
}

fn field_text(out: &mut Vec<char>, name: &str, s: &String)
    ensures
        final(out)@ == old(out)@ + json_field(name@, json_string(s@)),
{
    let ghost start = out@;
    push_key(out, name, false);
    let v = chars_of(s.as_str());
    push_json_string(out, v.as_slice());
    assert(out@ =~= start + json_field(name@, json_string(s@)));
}

fn field_num(out: &mut Vec<char>, name: &str, o: Option<u64>)
    ensures
        final(out)@ == old(out)@ + json_field(name@, json_opt_num(nat_u64(o))),
{
    let ghost start = out@;
    push_key(out, name, false);
    push_opt_num(out, o);
    assert(out@ =~= start + json_field(name@, json_opt_num(nat_u64(o))));
}

fn field_num32(out: &mut Vec<char>, name: &str, o: Option<u32>)
    ensures
        final(out)@ == old(out)@ + json_field(name@, json_opt_num(nat_u32(o))),
{
    let w: Option<u64> = match o {
        Some(x) => Some(x as u64),
        None => None,
    };
    assert(nat_u64(w) == nat_u32(o));
    field_num(out, name, w);
}

fn field_flag(out: &mut Vec<char>, name: &str, o: Option<bool>)
    ensures
        final(out)@ == old(out)@ + json_field(name@, json_opt_bool(o)),
{
    let ghost start = out@;
    push_key(out, name, false);
    match o {
        Some(true) => {
            out.push('t');
            out.push('r');
            out.push('u');
            out.push('e');
        },
        Some(false) => {
            out.push('f');
            out.push('a');
            out.push('l');
            out.push('s');
            out.push('e');
        },
        None => push_null(out),
    }
    assert(out@ =~= start + json_field(name@, json_opt_bool(o)));
}

fn field_string(out: &mut Vec<char>, name: &str, o: &Option<String>)
    ensures
        final(out)@ == old(out)@ + json_field(name@, json_opt_string(opt_text(*o))),
{
    let ghost start = out@;
    push_key(out, name, false);
    push_opt_string(out, o);
    assert(out@ =~= start + json_field(name@, json_opt_string(opt_text(*o))));
}

/// The text a payload's checksum covers: the payload without its checksum.
pub fn checksum_text(p: &Payload) -> (r: String)
    ensures
        r@ == legacy_json(PayloadView { checksum: None, ..p@ }),
{
    let mut out: Vec<char> = Vec::new();
    out.push('{');
    push_key(&mut out, "line1", true);
    let l1 = chars_of(p.line1.as_str());
    push_json_string(&mut out, l1.as_slice());
    assert(out@ =~= seq!['{'] + json_member("line1"@, json_string(p.line1@)));
    field_text(&mut out, "line2", &p.line2);
    field_num32(&mut out, "bar_value", p.bar_value);
    field_num32(&mut out, "bar_max", p.bar_max);
    field_string(&mut out, "bar_label", &p.bar_label);
    field_flag(&mut out, "bar_line1", p.bar_line1);
    field_flag(&mut out, "bar_line2", p.bar_line2);
    field_flag(&mut out, "backlight", p.backlight);
    field_flag(&mut out, "blink", p.blink);
    field_num(&mut out, "scroll_speed_ms", p.scroll_speed_ms);
    field_num(&mut out, "ttl_ms", p.ttl_ms);
    field_num(&mut out, "page_timeout_ms", p.page_timeout_ms);
    field_flag(&mut out, "clear", p.clear);
    field_flag(&mut out, "test", p.test);
    let none: Option<String> = None;
    field_string(&mut out, "checksum", &none);
    out.push('}');
    assert(out@ == legacy_json(PayloadView { checksum: None, ..p@ }));
    string_of(out.as_slice())
}

impl RenderFrame {
    /// Parses payload text with the given timing defaults.
    pub fn from_payload_json_with_defaults(raw: &str, defaults: Defaults) -> (r: Result<RenderFrame, Error>)
        ensures
            legacy_result_is(r, raw@, defaults),
    {
        let value = match parse_value(raw) {
            Ok(v) => v,
            Err(e) => {
                proof {
                    lemma_prefix_concat("json: "@, e@);
                }
                return Err(Error::Parse(crate::concat2("json: ", e.as_str())));
            },
        };
        let payload = match decode_payload(value) {
            Ok(p) => p,
            Err(m) => {
                return Err(Error::Parse(m));
            },
        };
        match &payload.checksum {
            None => {},
            Some(hex) => {
                let text = checksum_text(&payload);
                let computed = crc32(text.as_str().as_bytes());
                match verify_checksum(hex.as_str(), computed) {
                    Ok(()) => {},
                    Err(e) => {
                        return Err(e);
                    },
                }
            },
        }
        Ok(RenderFrame::from_payload_with_defaults(payload, defaults))
    }

    /// Parses payload text with the built-in timing.
    pub fn from_payload_json(raw: &str) -> (r: Result<RenderFrame, Error>)
        ensures
            legacy_result_is(r, raw@, Defaults { scroll_speed_ms: 250, page_timeout_ms: 4000 }),
    {
        RenderFrame::from_payload_json_with_defaults(
            raw,
            Defaults { scroll_speed_ms: crate::payload::DEFAULT_SCROLL_MS, page_timeout_ms: crate::payload::DEFAULT_PAGE_TIMEOUT_MS },
        )
    }
}

} // verus!
