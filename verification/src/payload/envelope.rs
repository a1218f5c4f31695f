//! Compressed envelopes: a JSON object whose `type` is `compressed` carries
//! a payload compressed with a named codec.
//!
//! The envelope is an object with exactly the fields `type`,
//! `schema_version`, `codec`, `original_len` and `data` (the compressed
//! bytes, as an array of byte values or as a string).
use vstd::prelude::*;
use vstd::string::StringExecFns;
use vstd::utf8::{encode_utf8, valid_utf8, decode_utf8};
use crate::compression::{
    codec_from_name, decoded_form, decompress, CompressionCodec, MAX_DECOMPRESSED_SIZE, copy_bytes,
};
use crate::json::{
    JsonDoc, JsonNode, json_text_document, value_document, parse_value, split_value,
    reversed_members, reversed_values, doc_text, doc_opt_text, doc_uint, read_text, read_opt_text,
    read_uint,
};
use crate::payload::frame::{Failure, error_is};
use crate::text::{dec, is_prefix, same_text, text_with_number, lemma_prefix_concat};
use crate::Error;

verus! {

/// What normalising payload text yields.
pub enum NormalizeOutcome {
    /// Not an envelope: the text itself is the payload.
    Plain,
    /// An envelope whose contents decode to this text.
    Unpacked(Seq<char>),
    /// Refused, with this error.
    Refused(Failure),
    /// The text is not JSON: a parse error whose message starts with `json: `.
    BadJson,
    /// An envelope whose data the codec does not accept as well formed;
    /// what the decoder makes of it is not stated.
    Unknown,
}

/// Reads the `type` member of one object member into what has been read.
pub open spec fn probe_step(st: Option<Option<Seq<char>>>, m: (Seq<char>, JsonDoc)) -> Result<
    Option<Option<Seq<char>>>,
    Seq<char>,
> {
    if m.0 == "type"@ {
        if st is Some {
            Err("json: duplicate field `type`"@)
        } else {
            match doc_opt_text(m.1) {
                Some(x) => Ok(Some(x)),
                None => Err("json: invalid type for field `type`"@),
            }
        }
    } else {
        Ok(st)
    }
}

pub open spec fn probe_members(ms: Seq<(Seq<char>, JsonDoc)>) -> Result<
    Option<Option<Seq<char>>>,
    Seq<char>,
>
    decreases ms.len(),
{
    if ms.len() == 0 {
        Ok(None)
    } else {
        match probe_members(ms.drop_last()) {
            Ok(st) => probe_step(st, ms.last()),
            Err(e) => Err(e),
        }
    }
}

/// The `type` of a document: any object, whose `type` member, if present, is
/// a string or `null`.
pub open spec fn probe_kind(d: JsonDoc) -> Result<Option<Seq<char>>, Seq<char>> {
    match d {
        JsonDoc::Object(ms) => match probe_members(ms) {
            Ok(Some(x)) => Ok(x),
            Ok(None) => Ok(None),
            Err(e) => Err(e),
        },
        _ => Err("json: invalid type: expected an object"@),
    }
}

/// The fields of an envelope read so far.
pub struct EnvelopeDraft {
    pub frame_type: Option<Seq<char>>,
    pub schema_version: Option<u8>,
    pub codec: Option<Seq<char>>,
    pub original_len: Option<u32>,
    pub data: Option<Seq<u8>>,
}

/// A byte value.
pub open spec fn doc_byte(d: JsonDoc) -> u8 {
    match doc_uint(d, 255) {
        Some(u) => u as u8,
        None => 0,
    }
}

/// Bytes: a string (its UTF-8 encoding) or an array of byte values.
pub open spec fn doc_bytes(d: JsonDoc) -> Option<Seq<u8>> {
    match d {
        JsonDoc::Str(s) => Some(encode_utf8(s)),
        JsonDoc::Array(items) => if forall|i: int|
            0 <= i < items.len() ==> (#[trigger] doc_uint(items[i], 255)) is Some {
            Some(items.map_values(|x: JsonDoc| doc_byte(x)))
        } else {
            None
        },
        _ => None,
    }
}

pub open spec fn envelope_field_index(key: Seq<char>) -> Option<int> {
    if key == "type"@ {
        Some(0)
    } else if key == "schema_version"@ {
        Some(1)
    } else if key == "codec"@ {
        Some(2)
    } else if key == "original_len"@ {
        Some(3)
    } else if key == "data"@ {
        Some(4)
    } else {
        None
    }
}

pub open spec fn draft_has(st: EnvelopeDraft, k: int) -> bool {
    if k == 0 {
        st.frame_type is Some
    } else if k == 1 {
        st.schema_version is Some
    } else if k == 2 {
        st.codec is Some
    } else if k == 3 {
        st.original_len is Some
    } else {
        st.data is Some
    }
}

pub open spec fn apply_envelope_field(st: EnvelopeDraft, k: int, d: JsonDoc) -> Option<
    EnvelopeDraft,
> {
    if k == 0 {
        match doc_text(d) {
            Some(s) => Some(EnvelopeDraft { frame_type: Some(s), ..st }),
            None => None,
        }
    } else if k == 1 {
        match doc_uint(d, 255) {
            Some(u) => Some(EnvelopeDraft { schema_version: Some(u as u8), ..st }),
            None => None,
        }
    } else if k == 2 {
        match doc_text(d) {
            Some(s) => Some(EnvelopeDraft { codec: Some(s), ..st }),
            None => None,
        }
    } else if k == 3 {
        match doc_uint(d, 0xffff_ffff) {
            Some(u) => Some(EnvelopeDraft { original_len: Some(u as u32), ..st }),
            None => None,
        }
    } else {
        match doc_bytes(d) {
            Some(b) => Some(EnvelopeDraft { data: Some(b), ..st }),
            None => None,
        }
    }
}

pub open spec fn envelope_message(head: Seq<char>, key: Seq<char>) -> Seq<char> {
    head + key + "`"@
}

pub open spec fn envelope_step(st: EnvelopeDraft, m: (Seq<char>, JsonDoc)) -> Result<
    EnvelopeDraft,
    Seq<char>,
> {
    match envelope_field_index(m.0) {
        None => Err(envelope_message("compressed envelope: unknown field `"@, m.0)),
        Some(k) => if draft_has(st, k) {
            Err(envelope_message("compressed envelope: duplicate field `"@, m.0))
        } else {
            match apply_envelope_field(st, k, m.1) {
                Some(n) => Ok(n),
                None => Err(envelope_message("compressed envelope: invalid type for field `"@, m.0)),
            }
        },
    }
}

pub open spec fn empty_draft() -> EnvelopeDraft {
    EnvelopeDraft { frame_type: None, schema_version: None, codec: None, original_len: None, data: None }
}

pub open spec fn envelope_members(ms: Seq<(Seq<char>, JsonDoc)>) -> Result<EnvelopeDraft, Seq<char>>
    decreases ms.len(),
{
    if ms.len() == 0 {
        Ok(empty_draft())
    } else {
        match envelope_members(ms.drop_last()) {
            Ok(st) => envelope_step(st, ms.last()),
            Err(e) => Err(e),
        }
    }
}

/// The envelope a document holds: every field present, no other.
pub open spec fn envelope_from_doc(d: JsonDoc) -> Result<EnvelopeDraft, Seq<char>> {
    match d {
        JsonDoc::Object(ms) => match envelope_members(ms) {
            Ok(st) => if st.frame_type is None {
                Err("compressed envelope: missing field `type`"@)
            } else if st.schema_version is None {
                Err("compressed envelope: missing field `schema_version`"@)
            } else if st.codec is None {
                Err("compressed envelope: missing field `codec`"@)
            } else if st.original_len is None {
                Err("compressed envelope: missing field `original_len`"@)
            } else if st.data is None {
                Err("compressed envelope: missing field `data`"@)
            } else {
                Ok(st)
            },
            Err(e) => Err(e),
        },
        _ => Err("compressed envelope: invalid type: expected an object"@),
    }
}

/// What a complete envelope unpacks to.
pub open spec fn envelope_outcome(env: EnvelopeDraft) -> NormalizeOutcome {
    let v = env.schema_version->0;
    let t = env.frame_type->0;
    let c = env.codec->0;
    let o = env.original_len->0;
    let data = env.data->0;
    if v != 1 {
        NormalizeOutcome::Refused(
            Failure::Parse(
                "unsupported compressed schema_version="@ + dec(v as nat) + " expected=1"@,
            ),
        )
    } else if t != "compressed"@ {
        NormalizeOutcome::Refused(Failure::Parse("unsupported envelope type '"@ + t + "'"@))
    } else {
        match codec_from_name(c) {
            None => NormalizeOutcome::Refused(
                Failure::Parse("unsupported compression codec '"@ + c + "'"@),
            ),
            Some(codec) => match decoded_form(data, codec) {
                None => NormalizeOutcome::Unknown,
                Some(full) => if codec != CompressionCodec::Uncompressed && full.len()
                    > MAX_DECOMPRESSED_SIZE {
                    NormalizeOutcome::Refused(
                        Failure::Parse("decompressed payload exceeded 1048576 bytes limit"@),
                    )
                } else if full.len() != o as nat {
                    NormalizeOutcome::Refused(
                        Failure::Parse(
                            "compressed original_len="@ + dec(o as nat) + " but decoded="@ + dec(
                                full.len(),
                            ),
                        ),
                    )
                } else if !valid_utf8(full) {
                    NormalizeOutcome::Refused(Failure::Parse("decompressed payload not utf-8"@))
                } else {
                    NormalizeOutcome::Unpacked(decode_utf8(full))
                },
            },
        }
    }
}

/// What normalising payload text yields: an object whose `type` is
/// `compressed` is unpacked, any other JSON passes through unchanged.
pub open spec fn normalize_outcome(raw: Seq<char>) -> NormalizeOutcome {
    match json_text_document(raw) {
        None => NormalizeOutcome::BadJson,
        Some(doc) => match probe_kind(doc) {
            Err(m) => NormalizeOutcome::Refused(Failure::Parse(m)),
            Ok(kind) => if kind != Some("compressed"@) {
                NormalizeOutcome::Plain
            } else {
                match envelope_from_doc(doc) {
                    Err(m) => NormalizeOutcome::Refused(Failure::Parse(m)),
                    Ok(env) => envelope_outcome(env),
                }
            },
        },
    }
}

/// Whether `r` is what `normalize_payload_json` owes for `raw`.
pub open spec fn normalize_result_is(r: Result<String, Error>, raw: Seq<char>) -> bool {
    match normalize_outcome(raw) {
        NormalizeOutcome::Plain => r matches Ok(s) && s@ == raw,
        NormalizeOutcome::Unpacked(t) => r matches Ok(s) && s@ == t,
        NormalizeOutcome::Refused(f) => r matches Err(e) && error_is(e, f),
        NormalizeOutcome::BadJson => r matches Err(Error::Parse(m)) && is_prefix("json: "@, m@),
        NormalizeOutcome::Unknown => true,
    }
}

pub proof fn lemma_probe_error_sticks(ms: Seq<(Seq<char>, JsonDoc)>, i: int)
    requires
        0 <= i <= ms.len(),
        probe_members(ms.take(i)) is Err,
    ensures
        probe_members(ms) == probe_members(ms.take(i)),
    decreases ms.len() - i,
{
    if i == ms.len() {
        assert(ms.take(i) =~= ms);
    } else {
        assert(ms.take(i + 1).drop_last() =~= ms.take(i));
        lemma_probe_error_sticks(ms, i + 1);
    }
}

pub proof fn lemma_envelope_error_sticks(ms: Seq<(Seq<char>, JsonDoc)>, i: int)
    requires
        0 <= i <= ms.len(),
        envelope_members(ms.take(i)) is Err,
    ensures
        envelope_members(ms) == envelope_members(ms.take(i)),
    decreases ms.len() - i,
{
    if i == ms.len() {
        assert(ms.take(i) =~= ms);
    } else {
        assert(ms.take(i + 1).drop_last() =~= ms.take(i));
        lemma_envelope_error_sticks(ms, i + 1);
    }
}

/// Reads the `type` of a parsed document.
fn probe_value(v: serde_json::Value) -> (r: Result<Option<String>, String>)
    ensures
        match probe_kind(value_document(v)) {
            Ok(k) => r matches Ok(x) && crate::payload::opt_text(x) == k,
            Err(m) => r matches Err(e) && e@ == m,
        },
{
    let ghost doc = value_document(v);
    let members = match split_value(v) {
        JsonNode::Object(members) => members,
        _ => {
            return Err(String::from_str("json: invalid type: expected an object"));
        },
    };
    let ghost ms = members@.map_values(
        |m: (String, serde_json::Value)| (m.0@, value_document(m.1)),
    );
    let ghost n = ms.len();
    let mut stack = reversed_members(members);
    let total: usize = stack.len();
    assert(n == total);
    let mut seen = false;
    let mut kind: Option<String> = None;
    let mut i: usize = 0;
    assert(ms.take(0) =~= Seq::<(Seq<char>, JsonDoc)>::empty());
    while stack.len() > 0
        invariant
            n == ms.len(),
            n <= usize::MAX,
            doc == JsonDoc::Object(ms),
            doc == value_document(v),
            stack@.len() + i == n,
            !seen ==> kind is None,
            forall|k: int|
                0 <= k < stack@.len() ==> (#[trigger] stack@[k]).0@ == ms[n - 1 - k].0
                    && value_document(stack@[k].1) == ms[n - 1 - k].1,
            probe_members(ms.take(i as int)) == Ok::<Option<Option<Seq<char>>>, Seq<char>>(
                if seen {
                    Some(crate::payload::opt_text(kind))
                } else {
                    None
                },
            ),
        decreases stack@.len(),
    {
        let ghost before = stack@;
        let (key, value) = stack.pop().unwrap();
        assert(before[before.len() - 1] == (key, value));
        let ghost m = ms[i as int];
        assert(m.0 == key@ && m.1 == value_document(value));
        assert(ms.take(i + 1).drop_last() =~= ms.take(i as int));
        assert(ms.take(i + 1).last() == m);
        if same_text(key.as_str(), "type") {
            if seen {
                proof {
                    lemma_probe_error_sticks(ms, i + 1);
                }
                return Err(String::from_str("json: duplicate field `type`"));
            }
            match read_opt_text(value) {
                Some(x) => {
                    kind = x;
                    seen = true;
                },
                None => {
                    proof {
                        lemma_probe_error_sticks(ms, i + 1);
                    }
                    return Err(String::from_str("json: invalid type for field `type`"));
                },
            }
        }
        i = i + 1;
    }
    assert(ms.take(n as int) =~= ms);
    Ok(kind)
}

/// The parts of an envelope.
struct EnvelopeParts {
    frame_type: Option<String>,
    schema_version: Option<u8>,
    codec: Option<String>,
    original_len: Option<u32>,
    data: Option<Vec<u8>>,
}

spec fn parts_view(p: EnvelopeParts) -> EnvelopeDraft {
    EnvelopeDraft {
        frame_type: crate::payload::opt_text(p.frame_type),
        schema_version: p.schema_version,
        codec: crate::payload::opt_text(p.codec),
        original_len: p.original_len,
        data: match p.data {
            Some(d) => Some(d@),
            None => None,
        },
    }
}

/// Reads bytes: a string's UTF-8 encoding or an array of byte values.
pub(crate) fn read_bytes(v: serde_json::Value) -> (r: Option<Vec<u8>>)
    ensures
        match r {
            Some(b) => doc_bytes(value_document(v)) == Some(b@),
            None => doc_bytes(value_document(v)) is None,
        },
{
    match split_value(v) {
        JsonNode::Str(s) => Some(copy_bytes(s.as_str().as_bytes())),
        JsonNode::Array(items) => {
            let ghost docs = items@.map_values(|x: serde_json::Value| value_document(x));
            let ghost n = docs.len();
            let mut stack = reversed_values(items);
            let mut out: Vec<u8> = Vec::new();
            while stack.len() > 0
                invariant
                    n == docs.len(),
                    value_document(v) == JsonDoc::Array(docs),
                    stack@.len() + out@.len() == n,
                    forall|k: int|
                        0 <= k < stack@.len() ==> value_document(#[trigger] stack@[k]) == docs[n
                            - 1 - k],
                    forall|k: int|
                        0 <= k < out@.len() ==> doc_uint(#[trigger] docs[k], 255) is Some && out@[k]
                            == doc_byte(docs[k]),
                decreases stack@.len(),
            {
                let ghost before = stack@;
                let item = stack.pop().unwrap();
                assert(item == before[before.len() - 1]);
                match read_uint(item, 255) {
                    Some(b) => {
                        out.push(b as u8);
                    },
                    None => {
                        assert(doc_uint(docs[out@.len() as int], 255) is None);
                        return None;
                    },
                }
            }
            assert(docs.map_values(|x: JsonDoc| doc_byte(x)) =~= out@);
            Some(out)
        },
        _ => None,
    }
}

fn apply_envelope(p: &mut EnvelopeParts, k: usize, v: serde_json::Value) -> (ok: bool)
    requires
        k < 5,
    ensures
        match apply_envelope_field(parts_view(*old(p)), k as int, value_document(v)) {
            Some(q) => ok && parts_view(*final(p)) == q,
            None => !ok,
        },
{
    if k == 0 {
        match read_text(v) {
            Some(s) => {
                p.frame_type = Some(s);
                true
            },
            None => false,
        }
    } else if k == 1 {
        match read_uint(v, 255) {
            Some(u) => {
                p.schema_version = Some(u as u8);
                true
            },
            None => false,
        }
    } else if k == 2 {
        match read_text(v) {
            Some(s) => {
                p.codec = Some(s);
                true
            },
            None => false,
        }
    } else if k == 3 {
        match read_uint(v, 0xffff_ffff) {
            Some(u) => {
                p.original_len = Some(u as u32);
                true
            },
            None => false,
        }
    } else {
        match read_bytes(v) {
            Some(b) => {
                p.data = Some(b);
                true
            },
            None => false,
        }
    }
}

fn envelope_position(key: &str) -> (r: Option<usize>)
    ensures
        match r {
            Some(k) => envelope_field_index(key@) == Some(k as int),
            None => envelope_field_index(key@) is None,
        },
{
    if same_text(key, "type") {
        Some(0)
    } else if same_text(key, "schema_version") {
        Some(1)
    } else if same_text(key, "codec") {
        Some(2)
    } else if same_text(key, "original_len") {
        Some(3)
    } else if same_text(key, "data") {
        Some(4)
    } else {
        None
    }
}

fn parts_have(p: &EnvelopeParts, k: usize) -> (r: bool)
    ensures
        r == draft_has(parts_view(*p), k as int),
{
    if k == 0 {
        p.frame_type.is_some()
    } else if k == 1 {
        p.schema_version.is_some()
    } else if k == 2 {
        p.codec.is_some()
    } else if k == 3 {
        p.original_len.is_some()
    } else {
        p.data.is_some()
    }
}

/// Reads an envelope out of a parsed document.
fn decode_envelope(v: serde_json::Value) -> (r: Result<EnvelopeParts, String>)
    ensures
        match envelope_from_doc(value_document(v)) {
            Ok(env) => r matches Ok(p) && parts_view(p) == env,
            Err(m) => r matches Err(e) && e@ == m,
        },
{
    let ghost doc = value_document(v);
    let members = match split_value(v) {
        JsonNode::Object(members) => members,
        _ => {
            return Err(String::from_str("compressed envelope: invalid type: expected an object"));
        },
    };
    let ghost ms = members@.map_values(
        |m: (String, serde_json::Value)| (m.0@, value_document(m.1)),
    );
    let ghost n = ms.len();
    let mut stack = reversed_members(members);
    let total: usize = stack.len();
    assert(n == total);
    let mut parts = EnvelopeParts {
        frame_type: None,
        schema_version: None,
        codec: None,
        original_len: None,
        data: None,
    };
    let mut i: usize = 0;
    assert(ms.take(0) =~= Seq::<(Seq<char>, JsonDoc)>::empty());
    while stack.len() > 0
        invariant
            n == ms.len(),
            n <= usize::MAX,
            doc == JsonDoc::Object(ms),
            doc == value_document(v),
            stack@.len() + i == n,
            forall|k: int|
                0 <= k < stack@.len() ==> (#[trigger] stack@[k]).0@ == ms[n - 1 - k].0
                    && value_document(stack@[k].1) == ms[n - 1 - k].1,
            envelope_members(ms.take(i as int)) == Ok::<EnvelopeDraft, Seq<char>>(
                parts_view(parts),
            ),
        decreases stack@.len(),
    {
        let ghost before = stack@;
        let ghost st = parts_view(parts);
        let (key, value) = stack.pop().unwrap();
        assert(before[before.len() - 1] == (key, value));
        let ghost m = ms[i as int];
        assert(m.0 == key@ && m.1 == value_document(value));
        assert(ms.take(i + 1).drop_last() =~= ms.take(i as int));
        assert(ms.take(i + 1).last() == m);
        match envelope_position(key.as_str()) {
            None => {
                proof {
                    lemma_envelope_error_sticks(ms, i + 1);
                }
                let msg = crate::concat3("compressed envelope: unknown field `", key.as_str(), "`");
                return Err(msg);
            },
            Some(k) => {
                if parts_have(&parts, k) {
                    proof {
                        lemma_envelope_error_sticks(ms, i + 1);
                    }
                    let msg = crate::concat3(
                        "compressed envelope: duplicate field `",
                        key.as_str(),
                        "`",
                    );
                    return Err(msg);
                }
                let ok = apply_envelope(&mut parts, k, value);
                if !ok {
                    proof {
                        lemma_envelope_error_sticks(ms, i + 1);
                    }
                    let msg = crate::concat3(
                        "compressed envelope: invalid type for field `",
                        key.as_str(),
                        "`",
                    );
                    return Err(msg);
                }
            },
        }
        i = i + 1;
    }
    assert(ms.take(n as int) =~= ms);
    if parts.frame_type.is_none() {
        return Err(String::from_str("compressed envelope: missing field `type`"));
    }
    if parts.schema_version.is_none() {
        return Err(String::from_str("compressed envelope: missing field `schema_version`"));
    }
    if parts.codec.is_none() {
        return Err(String::from_str("compressed envelope: missing field `codec`"));
    }
    if parts.original_len.is_none() {
        return Err(String::from_str("compressed envelope: missing field `original_len`"));
    }
    if parts.data.is_none() {
        return Err(String::from_str("compressed envelope: missing field `data`"));
    }
    Ok(parts)
}

/// `String::from_utf8`: the text that `bytes` encode, `None` where they are
/// not UTF-8.
#[verifier::external_body]
fn utf8_text(bytes: Vec<u8>) -> (r: Option<String>)
    ensures
        match r {
            Some(s) => valid_utf8(bytes@) && s@ == decode_utf8(bytes@),
            None => !valid_utf8(bytes@),
        },
{
    String::from_utf8(bytes).ok()
}

/// Unpacks a complete envelope.
fn unpack(parts: EnvelopeParts) -> (r: Result<String, Error>)
    requires
        parts.frame_type is Some,
        parts.schema_version is Some,
        parts.codec is Some,
        parts.original_len is Some,
        parts.data is Some,
    ensures
        match envelope_outcome(parts_view(parts)) {
            NormalizeOutcome::Unpacked(t) => r matches Ok(s) && s@ == t,
            NormalizeOutcome::Refused(f) => r matches Err(e) && error_is(e, f),
            NormalizeOutcome::Unknown => true,
            _ => false,
        },
{
    let ghost env = parts_view(parts);
    let v = parts.schema_version.unwrap();
    if v != 1 {
        return Err(
            Error::Parse(
                text_with_number("unsupported compressed schema_version=", v as u64, " expected=1"),
            ),
        );
    }
    let t = parts.frame_type.unwrap();
    if !same_text(t.as_str(), "compressed") {
        return Err(Error::Parse(crate::concat3("unsupported envelope type '", t.as_str(), "'")));
    }
    let c = parts.codec.unwrap();
    let codec = match CompressionCodec::from_name(c.as_str()) {
        Some(codec) => codec,
        None => {
            return Err(
                Error::Parse(crate::concat3("unsupported compression codec '", c.as_str(), "'")),
            );
        },
    };
    let data = parts.data.unwrap();
    let decoded = match decompress(data.as_slice(), codec) {
        Ok(d) => d,
        Err(e) => {
            return Err(e);
        },
    };
    let o = parts.original_len.unwrap();
    if decoded.len() != o as usize {
        return Err(
            Error::Parse(
crate::text::text_with_two_numbers(
                    "compressed original_len=",
                    o as u64,
                    " but decoded=",
                    decoded.len() as u64,
                ),
            ),
        );
    }
    match utf8_text(decoded) {
        Some(s) => Ok(s),
        None => Err(Error::Parse(String::from_str("decompressed payload not utf-8"))),
    }
}

/// Unpacks a compressed envelope; any other JSON text is returned as it is.
pub fn normalize_payload_json(raw: &str) -> (r: Result<String, Error>)
    ensures
        normalize_result_is(r, raw@),
{
    let probe = match parse_value(raw) {
        Ok(v) => v,
        Err(e) => {
            proof {
                lemma_prefix_concat("json: "@, e@);
            }
            return Err(Error::Parse(crate::concat2("json: ", e.as_str())));
        },
    };
    let kind = match probe_value(probe) {
        Ok(k) => k,
        Err(m) => {
            return Err(Error::Parse(m));
        },
    };
    let compressed = match &kind {
        Some(k) => same_text(k.as_str(), "compressed"),
        None => false,
    };
    if !compressed {
        return Ok(String::from_str(raw));
    }
    let value = match parse_value(raw) {
        Ok(v) => v,
        Err(e) => {
            return Err(Error::Parse(crate::concat2("json: ", e.as_str())));
        },
    };
    let parts = match decode_envelope(value) {
        Ok(p) => p,
        Err(m) => {
            return Err(Error::Parse(m));
        },
    };
    unpack(parts)
}

} // verus!
