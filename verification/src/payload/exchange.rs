//! What decoding a command frame gives back of what encoding wrote.
use vstd::prelude::*;
use vstd::utf8::encode_utf8;

use crate::json::{json_text_document, member_doc, JsonDoc};
use crate::payload::command::{
    decode_outcome, encode_outcome, frame_from_doc, frame_json, message_crc, message_from_doc,
    message_violation, stream_name, CommandStream, DecodeOutcome, FrameView, MessageView,
};
use crate::payload::envelope::{doc_byte, doc_bytes};

verus! {

/// A non-negative integer as `serde_json` reads it.
pub open spec fn uint_doc(n: nat) -> JsonDoc {
    JsonDoc::Number(Some(n as u64), Some(n as i64))
}

/// A signed integer as `serde_json` reads it.
pub open spec fn int_doc(v: int) -> JsonDoc {
    JsonDoc::Number(
        if v >= 0 {
            Some(v as u64)
        } else {
            None
        },
        Some(v as i64),
    )
}

pub open spec fn opt_uint_doc(o: Option<u32>) -> JsonDoc {
    match o {
        Some(u) => uint_doc(u as nat),
        None => JsonDoc::Null,
    }
}

pub open spec fn opt_str_doc(o: Option<Seq<char>>) -> JsonDoc {
    match o {
        Some(s) => JsonDoc::Str(s),
        None => JsonDoc::Null,
    }
}

/// A byte array as `serde_json` reads it.
pub open spec fn bytes_doc(b: Seq<u8>) -> JsonDoc {
    JsonDoc::Array(b.map_values(|x: u8| uint_doc(x as nat)))
}

/// The document that `message_json(m)` spells out, its members in the
/// order of their keys (the order in which a parsed object hands them out).
pub open spec fn message_doc(m: MessageView) -> JsonDoc {
    match m {
        MessageView::Request { request_id, cmd, scratch_path } => JsonDoc::Object(
            seq![
                ("cmd"@, JsonDoc::Str(cmd)),
                ("request_id"@, uint_doc(request_id as nat)),
                ("scratch_path"@, opt_str_doc(scratch_path)),
                ("type"@, JsonDoc::Str("request"@)),
            ],
        ),
        MessageView::Chunk { request_id, stream, seq, data } => JsonDoc::Object(
            seq![
                ("data"@, bytes_doc(data)),
                ("request_id"@, uint_doc(request_id as nat)),
                ("seq"@, uint_doc(seq as nat)),
                ("stream"@, JsonDoc::Str(stream_name(stream))),
                ("type"@, JsonDoc::Str("chunk"@)),
            ],
        ),
        MessageView::Exit { request_id, code } => JsonDoc::Object(
            seq![
                ("code"@, int_doc(code as int)),
                ("request_id"@, uint_doc(request_id as nat)),
                ("type"@, JsonDoc::Str("exit"@)),
            ],
        ),
        MessageView::Ack { request_id } => JsonDoc::Object(
            seq![("request_id"@, uint_doc(request_id as nat)), ("type"@, JsonDoc::Str("ack"@))],
        ),
        MessageView::Busy { request_id } => JsonDoc::Object(
            seq![("request_id"@, uint_doc(request_id as nat)), ("type"@, JsonDoc::Str("busy"@))],
        ),
        MessageView::Error { request_id, message } => JsonDoc::Object(
            seq![
                ("message"@, JsonDoc::Str(message)),
                ("request_id"@, opt_uint_doc(request_id)),
                ("type"@, JsonDoc::Str("error"@)),
            ],
        ),
        MessageView::Heartbeat { request_id } => JsonDoc::Object(
            seq![("request_id"@, opt_uint_doc(request_id)), ("type"@, JsonDoc::Str("heartbeat"@))],
        ),
    }
}

/// The document that `frame_json(m)` spells out.
pub open spec fn frame_doc(m: MessageView) -> JsonDoc {
    frame_doc_with_crc(m, message_crc(m))
}

/// The document of a frame for `m` whose `crc32` field holds `crc`.
pub open spec fn frame_doc_with_crc(m: MessageView, crc: u32) -> JsonDoc {
    JsonDoc::Object(
        seq![
            ("channel"@, JsonDoc::Str("command"@)),
            ("crc32"@, uint_doc(crc as nat)),
            ("message"@, message_doc(m)),
            ("schema_version"@, uint_doc(1)),
        ],
    )
}

/// In members with distinct keys, looking a key up finds its member.
proof fn lemma_member_found(ms: Seq<(Seq<char>, JsonDoc)>, i: int)
    requires
        0 <= i < ms.len(),
        forall|j: int| 0 <= j < ms.len() && j != i ==> (#[trigger] ms[j]).0 != ms[i].0,
    ensures
        member_doc(ms, ms[i].0) == Some(ms[i].1),
    decreases ms.len(),
{
    let d = ms.drop_last();
    if i == ms.len() - 1 {
        lemma_member_absent(d, ms[i].0);
    } else {
        assert forall|j: int| 0 <= j < d.len() && j != i implies (#[trigger] d[j]).0 != d[i].0 by {
            assert(d[j] == ms[j]);
        }
        lemma_member_found(d, i);
    }
}

proof fn lemma_member_absent(ms: Seq<(Seq<char>, JsonDoc)>, key: Seq<char>)
    requires
        forall|j: int| 0 <= j < ms.len() ==> (#[trigger] ms[j]).0 != key,
    ensures
        member_doc(ms, key) is None,
    decreases ms.len(),
{
    if ms.len() > 0 {
        let d = ms.drop_last();
        assert forall|j: int| 0 <= j < d.len() implies (#[trigger] d[j]).0 != key by {
            assert(d[j] == ms[j]);
        }
        lemma_member_absent(d, key);
    }
}

proof fn lemma_bytes_doc(b: Seq<u8>)
    ensures
        doc_bytes(bytes_doc(b)) == Some(b),
{
    let items = b.map_values(|x: u8| uint_doc(x as nat));
    assert forall|i: int| 0 <= i < items.len() implies (#[trigger] crate::json::doc_uint(items[i], 255)) is Some by {
        assert(items[i] == uint_doc(b[i] as nat));
    }
    assert(items.map_values(|x: JsonDoc| doc_byte(x)) =~= b);
}

proof fn lemma_message_doc_request(m: MessageView)
    requires
        m is Request,
    ensures
        message_from_doc(message_doc(m)) == Ok::<MessageView, Seq<char>>(m),
{
    reveal_strlit("cmd");
    reveal_strlit("request_id");
    reveal_strlit("scratch_path");
    reveal_strlit("type");
    reveal_strlit("request");
    reveal_strlit("chunk");
    reveal_strlit("exit");
    reveal_strlit("ack");
    reveal_strlit("busy");
    reveal_strlit("error");
    reveal_strlit("heartbeat");
    let ms = message_doc(m)->Object_0;
    assert("cmd"@.len() != "request_id"@.len());
    assert("cmd"@.len() != "scratch_path"@.len());
    assert("cmd"@.len() != "type"@.len());
    assert("request_id"@.len() != "scratch_path"@.len());
    assert("request_id"@.len() != "type"@.len());
    assert("scratch_path"@.len() != "type"@.len());
    lemma_member_found(ms, 0);
    lemma_member_found(ms, 1);
    lemma_member_found(ms, 2);
    lemma_member_found(ms, 3);
}

proof fn lemma_message_doc_chunk(m: MessageView)
    requires
        m is Chunk,
        m->Chunk_data.len() <= 2048,
    ensures
        message_from_doc(message_doc(m)) == Ok::<MessageView, Seq<char>>(m),
{
    reveal_strlit("data");
    reveal_strlit("request_id");
    reveal_strlit("seq");
    reveal_strlit("stream");
    reveal_strlit("type");
    reveal_strlit("request");
    reveal_strlit("chunk");
    reveal_strlit("exit");
    reveal_strlit("ack");
    reveal_strlit("busy");
    reveal_strlit("error");
    reveal_strlit("heartbeat");
    assert("chunk"@.len() != "request"@.len());
    let ms = message_doc(m)->Object_0;
    assert("data"@.len() != "request_id"@.len());
    assert("data"@.len() != "seq"@.len());
    assert("data"@.len() != "stream"@.len());
    assert("data"@[0] != "type"@[0]);
    assert("request_id"@.len() != "seq"@.len());
    assert("request_id"@.len() != "stream"@.len());
    assert("request_id"@.len() != "type"@.len());
    assert("seq"@.len() != "stream"@.len());
    assert("seq"@.len() != "type"@.len());
    assert("stream"@.len() != "type"@.len());
    lemma_member_found(ms, 0);
    lemma_member_found(ms, 1);
    lemma_member_found(ms, 2);
    lemma_member_found(ms, 3);
    lemma_member_found(ms, 4);
    lemma_bytes_doc(m->Chunk_data);
    reveal_strlit("stdout");
    reveal_strlit("stderr");
    assert("stderr"@[3] != "stdout"@[3]);
}

proof fn lemma_message_doc_exit(m: MessageView)
    requires
        m is Exit,
    ensures
        message_from_doc(message_doc(m)) == Ok::<MessageView, Seq<char>>(m),
{
    reveal_strlit("code");
    reveal_strlit("request_id");
    reveal_strlit("type");
    reveal_strlit("request");
    reveal_strlit("chunk");
    reveal_strlit("exit");
    reveal_strlit("ack");
    reveal_strlit("busy");
    reveal_strlit("error");
    reveal_strlit("heartbeat");
    assert("exit"@.len() != "request"@.len());
    assert("exit"@.len() != "chunk"@.len());
    let ms = message_doc(m)->Object_0;
    assert("code"@.len() != "request_id"@.len());
    assert("code"@[0] != "type"@[0]);
    assert("request_id"@.len() != "type"@.len());
    lemma_member_found(ms, 0);
    lemma_member_found(ms, 1);
    lemma_member_found(ms, 2);
}

proof fn lemma_message_doc_ack(m: MessageView)
    requires
        m is Ack,
    ensures
        message_from_doc(message_doc(m)) == Ok::<MessageView, Seq<char>>(m),
{
    reveal_strlit("request_id");
    reveal_strlit("type");
    reveal_strlit("request");
    reveal_strlit("chunk");
    reveal_strlit("exit");
    reveal_strlit("ack");
    reveal_strlit("busy");
    reveal_strlit("error");
    reveal_strlit("heartbeat");
    assert("ack"@.len() != "request"@.len());
    assert("ack"@.len() != "chunk"@.len());
    assert("ack"@.len() != "exit"@.len());
    let ms = message_doc(m)->Object_0;
    assert("request_id"@.len() != "type"@.len());
    lemma_member_found(ms, 0);
    lemma_member_found(ms, 1);
}

proof fn lemma_message_doc_busy(m: MessageView)
    requires
        m is Busy,
    ensures
        message_from_doc(message_doc(m)) == Ok::<MessageView, Seq<char>>(m),
{
    reveal_strlit("request_id");
    reveal_strlit("type");
    reveal_strlit("request");
    reveal_strlit("chunk");
    reveal_strlit("exit");
    reveal_strlit("ack");
    reveal_strlit("busy");
    reveal_strlit("error");
    reveal_strlit("heartbeat");
    assert("busy"@.len() != "request"@.len());
    assert("busy"@.len() != "chunk"@.len());
    assert("busy"@[0] != "exit"@[0]);
    assert("busy"@.len() != "ack"@.len());
    let ms = message_doc(m)->Object_0;
    assert("request_id"@.len() != "type"@.len());
    lemma_member_found(ms, 0);
    lemma_member_found(ms, 1);
}

proof fn lemma_message_doc_error(m: MessageView)
    requires
        m is Error,
    ensures
        message_from_doc(message_doc(m)) == Ok::<MessageView, Seq<char>>(m),
{
    reveal_strlit("message");
    reveal_strlit("request_id");
    reveal_strlit("type");
    reveal_strlit("request");
    reveal_strlit("chunk");
    reveal_strlit("exit");
    reveal_strlit("ack");
    reveal_strlit("busy");
    reveal_strlit("error");
    reveal_strlit("heartbeat");
    assert("error"@.len() != "request"@.len());
    assert("error"@[0] != "chunk"@[0]);
    assert("error"@.len() != "exit"@.len());
    assert("error"@.len() != "ack"@.len());
    assert("error"@.len() != "busy"@.len());
    let ms = message_doc(m)->Object_0;
    assert("message"@.len() != "request_id"@.len());
    assert("message"@.len() != "type"@.len());
    assert("request_id"@.len() != "type"@.len());
    lemma_member_found(ms, 0);
    lemma_member_found(ms, 1);
    lemma_member_found(ms, 2);
}

proof fn lemma_message_doc_heartbeat(m: MessageView)
    requires
        m is Heartbeat,
    ensures
        message_from_doc(message_doc(m)) == Ok::<MessageView, Seq<char>>(m),
{
    reveal_strlit("request_id");
    reveal_strlit("type");
    reveal_strlit("request");
    reveal_strlit("chunk");
    reveal_strlit("exit");
    reveal_strlit("ack");
    reveal_strlit("busy");
    reveal_strlit("error");
    reveal_strlit("heartbeat");
    assert("heartbeat"@.len() != "request"@.len());
    assert("heartbeat"@.len() != "chunk"@.len());
    assert("heartbeat"@.len() != "exit"@.len());
    assert("heartbeat"@.len() != "ack"@.len());
    assert("heartbeat"@.len() != "busy"@.len());
    assert("heartbeat"@.len() != "error"@.len());
    let ms = message_doc(m)->Object_0;
    assert("request_id"@.len() != "type"@.len());
    lemma_member_found(ms, 0);
    lemma_member_found(ms, 1);
}

proof fn lemma_message_doc(m: MessageView)
    requires
        message_violation(m) is None,
    ensures
        message_from_doc(message_doc(m)) == Ok::<MessageView, Seq<char>>(m),
{
    match m {
        MessageView::Request { .. } => lemma_message_doc_request(m),
        MessageView::Chunk { .. } => lemma_message_doc_chunk(m),
        MessageView::Exit { .. } => lemma_message_doc_exit(m),
        MessageView::Ack { .. } => lemma_message_doc_ack(m),
        MessageView::Busy { .. } => lemma_message_doc_busy(m),
        MessageView::Error { .. } => lemma_message_doc_error(m),
        MessageView::Heartbeat { .. } => lemma_message_doc_heartbeat(m),
    }
}

proof fn lemma_frame_doc(m: MessageView, crc: u32)
    requires
        message_violation(m) is None,
    ensures
        frame_from_doc(frame_doc_with_crc(m, crc)) == Ok::<FrameView, Seq<char>>(
            FrameView { channel: "command"@, schema_version: 1, message: m, crc32: crc },
        ),
{
    reveal_strlit("channel");
    reveal_strlit("crc32");
    reveal_strlit("message");
    reveal_strlit("schema_version");
    assert("channel"@[1] != "crc32"@[1]);
    assert("channel"@[0] != "message"@[0]);
    assert("channel"@[0] != "schema_version"@[0]);
    assert("crc32"@[0] != "message"@[0]);
    assert("crc32"@[0] != "schema_version"@[0]);
    assert("message"@[0] != "schema_version"@[0]);
    let ms = frame_doc_with_crc(m, crc)->Object_0;
    lemma_member_found(ms, 0);
    lemma_member_found(ms, 1);
    lemma_member_found(ms, 2);
    lemma_member_found(ms, 3);
    lemma_message_doc(m);
}

/// Decoding gives back what encoding wrote: a message within the
/// protocol's limits whose frame fits in 4096 bytes is encoded as
/// `frame_json(m)`, and, where `serde_json` reads that text as the document
/// it spells out (`frame_doc`), decoding the text yields the same message.
pub proof fn lemma_frame_decodes_to_message(m: MessageView)
    requires
        message_violation(m) is None,
        encode_utf8(frame_json(m)).len() <= 4096,
        json_text_document(frame_json(m)) == Some(frame_doc(m)),
    ensures
        encode_outcome(m) == Ok::<Seq<char>, Seq<char>>(frame_json(m)),
        decode_outcome(frame_json(m)) == DecodeOutcome::Message(m),
{
    lemma_frame_doc(m, message_crc(m));
}

/// A frame whose `crc32` field was changed to any other number is refused
/// with a checksum mismatch: where `serde_json` reads text `t` as the frame
/// document for `m` with `crc` in its `crc32` field, `crc` not the
/// message's CRC, decoding `t` fails with `ChecksumMismatch`.
pub proof fn lemma_tampered_checksum_is_refused(m: MessageView, crc: u32, t: Seq<char>)
    requires
        message_violation(m) is None,
        crc != message_crc(m),
        encode_utf8(t).len() <= 4096,
        json_text_document(t) == Some(frame_doc_with_crc(m, crc)),
    ensures
        decode_outcome(t) == DecodeOutcome::Refused(crate::payload::frame::Failure::Checksum),
{
    lemma_frame_doc(m, crc);
}

} // verus!
