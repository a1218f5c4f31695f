//! Payload compression: LZ4 frames and zstd streams behind one codec switch.
use vstd::prelude::*;
use vstd::string::StringExecFns;

use std::io::{Read, Write};

use crate::text::{ascii_lower, ascii_lower_vec, chars_of, eq_str};
use crate::{Error, Result};

verus! {

/// Largest payload that decompression hands back.
pub const MAX_DECOMPRESSED_SIZE: usize = 1048576;

/// Compression codecs that the protocol knows.
#[derive(Debug, Clone, Copy, PartialEq, Eq, Structural)]
pub enum CompressionCodec {
    /// `none`: bytes pass through unchanged.
    Uncompressed,
    Lz4,
    Zstd,
}

pub open spec fn codec_from_name(name: Seq<char>) -> Option<CompressionCodec> {
    let l = ascii_lower(name);
    if l == "none"@ {
        Some(CompressionCodec::Uncompressed)
    } else if l == "lz4"@ {
        Some(CompressionCodec::Lz4)
    } else if l == "zstd"@ {
        Some(CompressionCodec::Zstd)
    } else {
        None
    }
}

pub open spec fn codec_name(c: CompressionCodec) -> Seq<char> {
    match c {
        CompressionCodec::Uncompressed => "none"@,
        CompressionCodec::Lz4 => "lz4"@,
        CompressionCodec::Zstd => "zstd"@,
    }
}

impl CompressionCodec {
    /// Case-insensitive codec name.
    pub fn from_name(name: &str) -> (r: Option<CompressionCodec>)
        ensures
            r == codec_from_name(name@),
    {
        let l = ascii_lower_vec(chars_of(name).as_slice());
        let ls = l.as_slice();
        if eq_str(ls, "none") {
            Some(CompressionCodec::Uncompressed)
        } else if eq_str(ls, "lz4") {
            Some(CompressionCodec::Lz4)
        } else if eq_str(ls, "zstd") {
            Some(CompressionCodec::Zstd)
        } else {
            None
        }
    }

    pub fn as_str(&self) -> (r: &'static str)
        ensures
            r@ == codec_name(*self),
    {
        match self {
            CompressionCodec::Uncompressed => "none",
            CompressionCodec::Lz4 => "lz4",
            CompressionCodec::Zstd => "zstd",
        }
    }
}

/// The LZ4 frame that `lz4_flex::frame::FrameEncoder` writes for `data`.
pub uninterp spec fn lz4_frame_of(data: Seq<u8>) -> Seq<u8>;

/// The bytes that `lz4_flex::frame::FrameDecoder` reads out of `frame`, or
/// `None` where reading it to the end gives an error (a malformed frame).
pub uninterp spec fn lz4_frame_contents(frame: Seq<u8>) -> Option<Seq<u8>>;

/// The zstd stream that `zstd::stream::Encoder` at the default level writes for `data`.
pub uninterp spec fn zstd_stream_of(data: Seq<u8>) -> Seq<u8>;

/// The bytes that `zstd::stream::Decoder` reads out of `stream`, or `None`
/// where making the decoder or reading it to the end gives an error.
pub uninterp spec fn zstd_stream_contents(stream: Seq<u8>) -> Option<Seq<u8>>;

pub open spec fn bounded_prefix(full: Seq<u8>, limit: nat) -> Seq<u8> {
    if full.len() <= limit {
        full
    } else {
        full.take(limit as int)
    }
}

/// The step of a zstd call that failed.
#[derive(Debug, Clone, Copy, PartialEq, Eq, Structural)]
pub enum ZstdStep {
    /// Making the encoder or decoder.
    Init,
    /// Writing the payload, or reading the output.
    Stream,
    /// Finishing the stream.
    Finish,
}

/// `lz4_flex::frame::FrameEncoder` over a `Vec`: writes `payload` into an
/// in-memory frame. The frame has no declared content size and writing to a
/// `Vec` cannot fail, so the encoder's only error paths are never taken;
/// claims that the frame is the encoder's frame for `payload` and decodes
/// back to `payload`.
#[verifier::external_body]
fn lz4_encode(payload: &[u8]) -> (r: Vec<u8>)
    ensures
        r@ == lz4_frame_of(payload@),
        lz4_frame_contents(r@) == Some(payload@),
{
    let mut encoder = lz4_flex::frame::FrameEncoder::new(Vec::new());
    encoder.write_all(payload).expect("writing into a Vec cannot fail");
    encoder.finish().expect("a frame without declared size finishes into a Vec")
}

/// `zstd::stream::Encoder` at level 0 (zstd's default): writes `payload`
/// into an in-memory stream, telling which step failed. Claims that a stream
/// it returns is the encoder's stream for `payload` and decodes back to
/// `payload`. It does not claim success: the Rust source passes on any error
/// code of the zstd C library (an allocation failure, say).
#[verifier::external_body]
fn zstd_encode(payload: &[u8]) -> (r: core::result::Result<Vec<u8>, (ZstdStep, String)>)
    ensures
        r matches Ok(c) ==> c@ == zstd_stream_of(payload@) && zstd_stream_contents(c@) == Some(
            payload@,
        ),
{
    let mut encoder = zstd::stream::Encoder::new(Vec::new(), 0).map_err(|err| (ZstdStep::Init, err.to_string()))?;
    encoder.write_all(payload).map_err(|err| (ZstdStep::Stream, err.to_string()))?;
    encoder.finish().map_err(|err| (ZstdStep::Finish, err.to_string()))
}

/// `lz4_flex::frame::FrameDecoder`, read to the end but never past `limit`
/// bytes. Claims that for a well-formed frame it returns the frame's
/// contents cut at `limit`; and that for a malformed frame (whose reading
/// ends in an error) it returns that error, or `limit` bytes when the limit
/// comes first. Of those bytes nothing more is claimed.
#[verifier::external_body]
fn lz4_decode_up_to(payload: &[u8], limit: u64) -> (r: core::result::Result<Vec<u8>, String>)
    ensures
        lz4_frame_contents(payload@) is Some ==> r is Ok,
        r matches Ok(v) ==> (lz4_frame_contents(payload@) matches Some(full) ==> v@ == bounded_prefix(
            full,
            limit as nat,
        )),
        r matches Ok(v) ==> (lz4_frame_contents(payload@) is None ==> v@.len() == limit),
{
    let mut out = Vec::new();
    lz4_flex::frame::FrameDecoder::new(payload).take(limit).read_to_end(&mut out).map_err(
        |err| err.to_string(),
    )?;
    Ok(out)
}

/// `zstd::stream::Decoder`, read to the end but never past `limit` bytes,
/// telling which step failed. Same claims as `lz4_decode_up_to`.
#[verifier::external_body]
fn zstd_decode_up_to(payload: &[u8], limit: u64) -> (r: core::result::Result<Vec<u8>, (ZstdStep, String)>)
    ensures
        zstd_stream_contents(payload@) is Some ==> r is Ok,
        r matches Ok(v) ==> (zstd_stream_contents(payload@) matches Some(full) ==> v@ == bounded_prefix(
            full,
            limit as nat,
        )),
        r matches Ok(v) ==> (zstd_stream_contents(payload@) is None ==> v@.len() == limit),
{
    let mut decoder = zstd::stream::Decoder::new(payload).map_err(|err| (ZstdStep::Init, err.to_string()))?;
    let mut out = Vec::new();
    (&mut decoder).take(limit).read_to_end(&mut out).map_err(|err| (ZstdStep::Stream, err.to_string()))?;
    Ok(out)
}

pub fn copy_bytes(payload: &[u8]) -> (r: Vec<u8>)
    ensures
        r@ == payload@,
{
    let mut out: Vec<u8> = Vec::new();
    let mut i: usize = 0;
    while i < payload.len()
        invariant
            i <= payload@.len(),
            out@ == payload@.subrange(0, i as int),
        decreases payload@.len() - i,
    {
        out.push(payload[i]);
        assert(payload@.subrange(0, i as int).push(payload@[i as int]) =~= payload@.subrange(
            0,
            i + 1,
        ));
        i = i + 1;
    }
    assert(payload@.subrange(0, payload@.len() as int) =~= payload@);
    out
}

/// What compression yields when the codec's encoder succeeds.
pub open spec fn compressed_form(payload: Seq<u8>, codec: CompressionCodec) -> Seq<u8> {
    match codec {
        CompressionCodec::Uncompressed => payload,
        CompressionCodec::Lz4 => lz4_frame_of(payload),
        CompressionCodec::Zstd => zstd_stream_of(payload),
    }
}

/// The decoded contents of `data` under `codec`, `None` when malformed.
pub open spec fn decoded_form(data: Seq<u8>, codec: CompressionCodec) -> Option<Seq<u8>> {
    match codec {
        CompressionCodec::Uncompressed => Some(data),
        CompressionCodec::Lz4 => lz4_frame_contents(data),
        CompressionCodec::Zstd => zstd_stream_contents(data),
    }
}

/// Compresses `payload` with `codec`.
pub fn compress(payload: &[u8], codec: CompressionCodec) -> (r: Result<Vec<u8>>)
    ensures
        codec != CompressionCodec::Zstd ==> r is Ok,
        r matches Ok(c) ==> c@ == compressed_form(payload@, codec) && decoded_form(c@, codec)
            == Some(payload@),
        r matches Err(e) ==> e is Parse,
{
    match codec {
        CompressionCodec::Uncompressed => Ok(copy_bytes(payload)),
        CompressionCodec::Lz4 => Ok(lz4_encode(payload)),
        CompressionCodec::Zstd => match zstd_encode(payload) {
            Ok(c) => Ok(c),
            Err((step, msg)) => {
                let prefix = match step {
                    ZstdStep::Init => "zstd init failed: ",
                    ZstdStep::Stream => "zstd compression failed: ",
                    ZstdStep::Finish => "zstd compression finish failed: ",
                };
                Err(Error::Parse(crate::concat2(prefix, msg.as_str())))
            },
        },
    }
}

/// The message of an oversized decompression.
pub open spec fn oversize_message() -> Seq<char> {
    "decompressed payload exceeded 1048576 bytes limit"@
}

/// What decompressing `payload` with `codec` owes: without a codec the
/// bytes unchanged; with LZ4 or zstd the contents when they fit in
/// `MAX_DECOMPRESSED_SIZE`, the size error when they do not, and an error
/// for a malformed frame; every error a parse error.
pub open spec fn decompress_result_is(payload: Seq<u8>, codec: CompressionCodec, r: Result<Vec<u8>>) -> bool {
    &&& codec == CompressionCodec::Uncompressed ==> (r matches Ok(v) && v@ == payload)
    &&& codec != CompressionCodec::Uncompressed ==> match decoded_form(payload, codec) {
        Some(full) => if full.len() <= MAX_DECOMPRESSED_SIZE {
            r matches Ok(v) && v@ == full
        } else {
            r matches Err(Error::Parse(m)) && m@ == oversize_message()
        },
        None => r is Err,
    }
    &&& r matches Err(e) ==> e is Parse
    &&& codec != CompressionCodec::Uncompressed ==> (r matches Ok(v) ==> v@.len() <= MAX_DECOMPRESSED_SIZE)
}

/// Decompresses `payload` with `codec`. Without a codec the bytes pass
/// through unchanged; LZ4 and zstd output larger than
/// `MAX_DECOMPRESSED_SIZE` is refused, and so is a malformed frame.
pub fn decompress(payload: &[u8], codec: CompressionCodec) -> (r: Result<Vec<u8>>)
    ensures
        decompress_result_is(payload@, codec, r),
{
    let limit: u64 = (MAX_DECOMPRESSED_SIZE as u64) + 1;
    let decoded = match codec {
        CompressionCodec::Uncompressed => {
            return Ok(copy_bytes(payload));
        },
        CompressionCodec::Lz4 => match lz4_decode_up_to(payload, limit) {
            Ok(v) => v,
            Err(msg) => {
                return Err(Error::Parse(crate::concat2("decompression failed: ", msg.as_str())));
            },
        },
        CompressionCodec::Zstd => match zstd_decode_up_to(payload, limit) {
            Ok(v) => v,
            Err((step, msg)) => {
                let prefix = match step {
                    ZstdStep::Init => "zstd decoder init failed: ",
                    _ => "decompression failed: ",
                };
                return Err(Error::Parse(crate::concat2(prefix, msg.as_str())));
            },
        },
    };
    if decoded.len() > MAX_DECOMPRESSED_SIZE {
        Err(Error::Parse(String::from_str("decompressed payload exceeded 1048576 bytes limit")))
    } else {
        Ok(decoded)
    }
}

/// Decompressing what `compress` produced gives back the payload: always
/// without a codec, and with LZ4 or zstd when the payload fits in
/// `MAX_DECOMPRESSED_SIZE`; a larger one is refused with the size error.
/// (`c` is what `compress(payload, codec)` returned, which decodes back to
/// `payload`; `r` is what `decompress(c, codec)` returned.)
pub proof fn lemma_compress_roundtrip(
    payload: Seq<u8>,
    codec: CompressionCodec,
    c: Seq<u8>,
    r: Result<Vec<u8>>,
)
    requires
        c == compressed_form(payload, codec),
        decoded_form(c, codec) == Some(payload),
        decompress_result_is(c, codec, r),
    ensures
        codec == CompressionCodec::Uncompressed || payload.len() <= MAX_DECOMPRESSED_SIZE ==> (
        r matches Ok(v) && v@ == payload),
        codec != CompressionCodec::Uncompressed && payload.len() > MAX_DECOMPRESSED_SIZE ==> (
        r matches Err(Error::Parse(m)) && m@ == oversize_message()),
{
}

} // verus!
