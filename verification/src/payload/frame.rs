//! From payload text to a frame: parse, read the payload, enforce the
//! schema's limits, check the checksum, then build the frame.
use vstd::prelude::*;
use vstd::string::{StringExecFns, StrSliceExecFns};
use vstd::utf8::encode_utf8;
use crate::json::{json_text_document, parse_value};
use crate::payload::{
    Payload, PayloadView, RenderFrame, RenderFrameView, Defaults, render_view, DEFAULT_SCROLL_MS,
    DEFAULT_PAGE_TIMEOUT_MS, MAX_LINE_LENGTH, MAX_ICONS, MAX_BAR_LABEL_LENGTH,
};
use crate::payload::decode::{payload_from_doc, decode_payload};
use crate::payload::canonical::{
    payload_checksum_text, checksum_value, crc32_of, crc32, checksum_text, verify_checksum,
};
use crate::payload::envelope::{normalize_outcome, normalize_payload_json, NormalizeOutcome, normalize_result_is};
use crate::text::is_prefix;
use crate::Error;

verus! {

/// Why a payload was refused, as the library's error reports it.
pub enum Failure {
    Parse(Seq<char>),
    Checksum,
}

/// Whether `e` is the error that `f` describes.
pub open spec fn error_is(e: Error, f: Failure) -> bool {
    match f {
        Failure::Parse(m) => e matches Error::Parse(x) && x@ == m,
        Failure::Checksum => e is ChecksumMismatch,
    }
}

/// Whether `r` is the outcome `o` describes.
pub open spec fn frame_result_is(
    r: Result<RenderFrame, Error>,
    o: Result<RenderFrameView, Failure>,
) -> bool {
    match o {
        Ok(f) => r matches Ok(fr) && fr@ == f,
        Err(fl) => r matches Err(e) && error_is(e, fl),
    }
}

/// The first limit of the payload schema that `p` breaks, if any. Without
/// `schema_version` a payload is refused; from version 1 on, lines and the
/// bar label hold at most 40 characters and at most 4 icons may be named.
pub open spec fn payload_rule_violation(p: PayloadView) -> Option<Seq<char>> {
    match p.schema_version {
        None => Some("schema_version is required"@),
        Some(v) => if v >= 1 && p.line1.len() > 40 {
            Some("line1 must be <= 40 chars"@)
        } else if v >= 1 && p.line2.len() > 40 {
            Some("line2 must be <= 40 chars"@)
        } else if v >= 1 && (p.icons matches Some(l) && l.len() > 4) {
            Some("icons must be <= 4 items"@)
        } else if v >= 1 && (p.bar_label matches Some(l) && l.len() > 40) {
            Some("bar_label must be <= 40 chars"@)
        } else if p.bar_max == Some(0u32) {
            Some("bar_max must be >= 1"@)
        } else if (p.bar_value matches Some(val) && p.bar_max matches Some(m) && val > m) {
            Some("bar_value must be <= bar_max"@)
        } else if p.page_timeout_ms == Some(0u64) {
            Some("page_timeout_ms must be > 0"@)
        } else {
            None
        },
    }
}

/// What a read payload becomes: refused for a broken limit or a wrong
/// checksum, otherwise the frame it describes.
pub open spec fn payload_outcome(p: PayloadView, d: Defaults) -> Result<RenderFrameView, Failure> {
    match payload_rule_violation(p) {
        Some(m) => Err(Failure::Parse(m)),
        None => match p.checksum {
            None => Ok(render_view(p, d)),
            Some(hex) => match checksum_value(hex) {
                None => Err(Failure::Parse("invalid checksum hex"@)),
                Some(x) => if x == crc32_of(encode_utf8(payload_checksum_text(p))) as nat {
                    Ok(render_view(p, d))
                } else {
                    Err(Failure::Checksum)
                },
            },
        },
    }
}

/// What payload text becomes, once its JSON is read.
pub open spec fn text_outcome(raw: Seq<char>, d: Defaults) -> Option<
    Result<RenderFrameView, Failure>,
> {
    match json_text_document(raw) {
        None => None,
        Some(doc) => Some(
            match payload_from_doc(doc) {
                Err(m) => Err(Failure::Parse(m)),
                Ok(p) => payload_outcome(p, d),
            },
        ),
    }
}

/// Whether `r` is what payload text `raw` becomes: a JSON syntax error is a
/// parse error whose message starts with `json: `.
pub open spec fn text_result_is(
    r: Result<RenderFrame, Error>,
    raw: Seq<char>,
    d: Defaults,
) -> bool {
    match text_outcome(raw, d) {
        None => r matches Err(Error::Parse(m)) && is_prefix("json: "@, m@),
        Some(o) => frame_result_is(r, o),
    }
}

/// Whether `r` is what payload text `raw` becomes, once a compressed
/// envelope is unpacked; where the envelope's data is malformed for its
/// codec, nothing is stated.
pub open spec fn payload_text_result_is(
    r: Result<RenderFrame, Error>,
    raw: Seq<char>,
    d: Defaults,
) -> bool {
    match normalize_outcome(raw) {
        NormalizeOutcome::Plain => text_result_is(r, raw, d),
        NormalizeOutcome::Unpacked(text) => text_result_is(r, text, d),
        NormalizeOutcome::Refused(f) => r matches Err(e) && error_is(e, f),
        NormalizeOutcome::BadJson => r matches Err(Error::Parse(m)) && is_prefix("json: "@, m@),
        NormalizeOutcome::Unknown => true,
    }
}

/// The limits' error message for `p`, if any.
fn rule_violation(p: &Payload) -> (r: Option<&'static str>)
    ensures
        match payload_rule_violation(p@) {
            Some(m) => r matches Some(s) && s@ == m,
            None => r is None,
        },
{
    let v = match p.schema_version {
        None => {
            return Some("schema_version is required");
        },
        Some(v) => v,
    };
    if v >= 1 {
        if p.line1.as_str().unicode_len() > MAX_LINE_LENGTH {
            return Some("line1 must be <= 40 chars");
        }
        if p.line2.as_str().unicode_len() > MAX_LINE_LENGTH {
            return Some("line2 must be <= 40 chars");
        }
        match &p.icons {
            Some(l) => if l.len() > MAX_ICONS {
                assert(p@.icons matches Some(x) && x.len() == l@.len());
                return Some("icons must be <= 4 items");
            },
            None => {},
        }
        match &p.bar_label {
            Some(l) => if l.as_str().unicode_len() > MAX_BAR_LABEL_LENGTH {
                return Some("bar_label must be <= 40 chars");
            },
            None => {},
        }
        assert(!(p@.icons matches Some(l) && l.len() > 4));
    }
    if p.bar_max == Some(0u32) {
        return Some("bar_max must be >= 1");
    }
    match (p.bar_value, p.bar_max) {
        (Some(val), Some(m)) => if val > m {
            return Some("bar_value must be <= bar_max");
        },
        _ => {},
    }
    if p.page_timeout_ms == Some(0u64) {
        return Some("page_timeout_ms must be > 0");
    }
    None
}

impl RenderFrame {
    /// The frame a read payload describes, once its limits and its checksum
    /// (over the canonical text, when it carries one) are checked.
    pub fn from_payload_checked(payload: Payload, defaults: Defaults) -> (r: Result<
        RenderFrame,
        Error,
    >)
        ensures
            frame_result_is(r, payload_outcome(payload@, defaults)),
    {
        match rule_violation(&payload) {
            Some(m) => {
                return Err(Error::Parse(String::from_str(m)));
            },
            None => {},
        }
        match &payload.checksum {
            None => {},
            Some(hex) => {
                let text = checksum_text(&payload);
                let computed = crc32(text.as_str().as_bytes());
                match verify_checksum(hex.as_str(), computed) {
                    Ok(()) => {},
                    Err(e) => {
                        return Err(e);
                    },
                }
            },
        }
        Ok(RenderFrame::from_payload_with_defaults(payload, defaults))
    }

    /// Parses payload text that is not a compressed envelope.
    pub fn from_normalized_payload_with_defaults(raw: &str, defaults: Defaults) -> (r: Result<
        RenderFrame,
        Error,
    >)
        ensures
            text_result_is(r, raw@, defaults),
    {
        let value = match parse_value(raw) {
            Ok(v) => v,
            Err(e) => {
                let m = crate::concat2("json: ", e.as_str());
                proof {
                    crate::text::lemma_prefix_concat("json: "@, e@);
                }
                return Err(Error::Parse(m));
            },
        };
        let payload = match decode_payload(value) {
            Ok(p) => p,
            Err(m) => {
                return Err(Error::Parse(m));
            },
        };
        RenderFrame::from_payload_checked(payload, defaults)
    }

    /// Parses payload text, unpacking a compressed envelope first.
    pub fn from_payload_json_with_defaults(raw: &str, defaults: Defaults) -> (r: Result<
        RenderFrame,
        Error,
    >)
        ensures
            payload_text_result_is(r, raw@, defaults),
    {
        let text = match normalize_payload_json(raw) {
            Ok(t) => t,
            Err(e) => {
                return Err(e);
            },
        };
        RenderFrame::from_normalized_payload_with_defaults(text.as_str(), defaults)
    }

    /// Parses payload text with the built-in scroll and page timing.
    pub fn from_payload_json(raw: &str) -> (r: Result<RenderFrame, Error>)
        ensures
            payload_text_result_is(r, raw@, default_timing()),
    {
        RenderFrame::from_payload_json_with_defaults(
            raw,
            Defaults { scroll_speed_ms: DEFAULT_SCROLL_MS, page_timeout_ms: DEFAULT_PAGE_TIMEOUT_MS },
        )
    }
}

/// The built-in scroll and page timing.
pub open spec fn default_timing() -> Defaults {
    Defaults { scroll_speed_ms: 250, page_timeout_ms: 4000 }
}

/// A checksum covers the payload without itself: a payload within the
/// schema's limits whose checksum field reads as the CRC-32 of its
/// canonical text gives the frame that the same payload gives without a
/// checksum.
pub proof fn lemma_matching_checksum_is_transparent(p: PayloadView, d: Defaults)
    requires
        payload_rule_violation(p) is None,
        p.checksum matches Some(h) && checksum_value(h) == Some(
            crc32_of(encode_utf8(payload_checksum_text(p))) as nat,
        ),
    ensures
        payload_outcome(p, d) == payload_outcome(PayloadView { checksum: None, ..p }, d),
        payload_outcome(p, d) is Ok,
{
    let q = PayloadView { checksum: None, ..p };
    assert(payload_rule_violation(q) == payload_rule_violation(p));
    assert(render_view(q, d) == render_view(p, d));
}

/// A payload within the schema's limits whose checksum field reads as any
/// other number than the CRC-32 of its canonical text is refused as a
/// checksum mismatch.
pub proof fn lemma_wrong_checksum_is_refused(p: PayloadView, d: Defaults)
    requires
        payload_rule_violation(p) is None,
        p.checksum matches Some(h) && checksum_value(h) matches Some(x) && x != crc32_of(
            encode_utf8(payload_checksum_text(p)),
        ) as nat,
    ensures
        payload_outcome(p, d) == Err::<RenderFrameView, Failure>(Failure::Checksum),
{
}

} // verus!
