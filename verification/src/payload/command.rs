//! Command frames: the JSON messages of the command tunnel, each wrapped in
//! a frame that names the channel and schema version and carries the CRC-32
//! of the message's JSON text.
//!
//! A message is an object whose `type` names its kind; a frame is
//! `{"channel":"command","schema_version":1,"message":...,"crc32":...}`.
//! Members a message or frame does not define are ignored.
use vstd::prelude::*;
use vstd::string::{StringExecFns, StrSliceExecFns};
use vstd::utf8::encode_utf8;
use crate::json::{
    JsonDoc, json_text_document, value_document, parse_value, member_doc, object_members, slot_docs,
    collect_members, take_slot, doc_text, doc_uint, doc_opt_uint, doc_opt_text, read_text, read_uint,
    read_opt_uint, read_opt_text,
};
use crate::payload::canonical::{
    json_string, json_member, json_field, json_null, json_opt_string, json_opt_num, nat_u64,
    crc32_of, crc32, push_json_string, push_key, push_all, push_opt_num, push_opt_string,
};
use crate::payload::envelope::doc_bytes;
use crate::text::{chars_of, string_of, dec, dec_chars, trim, trim_vec, same_text, is_prefix, lemma_prefix_concat, split_on, split_on_char, text_with_number};
use crate::{Error, CACHE_DIR};

verus! {

/// Schema version of command frames.
pub const COMMAND_SCHEMA_VERSION: u8 = 1;
/// Largest frame, in bytes of JSON text.
pub const COMMAND_MAX_FRAME_BYTES: usize = 4096;
/// Longest command line, in characters.
pub const COMMAND_MAX_COMMAND_CHARS: usize = 512;
/// Longest scratch path, in bytes.
pub const COMMAND_MAX_SCRATCH_PATH_BYTES: usize = 256;
/// Largest output chunk, in bytes.
pub const COMMAND_MAX_CHUNK_BYTES: usize = 2048;

/// Which output stream a chunk comes from.
#[derive(Debug, Clone, Copy, PartialEq, Eq, Structural)]
pub enum CommandStream {
    Stdout,
    Stderr,
}

/// A message of the command tunnel.
#[derive(Debug, Clone, PartialEq)]
pub enum CommandMessage {
    Request { request_id: u32, cmd: String, scratch_path: Option<String> },
    Chunk { request_id: u32, stream: CommandStream, seq: u32, data: Vec<u8> },
    Exit { request_id: u32, code: i32 },
    Ack { request_id: u32 },
    Busy { request_id: u32 },
    Error { request_id: Option<u32>, message: String },
    Heartbeat { request_id: Option<u32> },
}

/// The model of a message.
pub enum MessageView {
    Request { request_id: u32, cmd: Seq<char>, scratch_path: Option<Seq<char>> },
    Chunk { request_id: u32, stream: CommandStream, seq: u32, data: Seq<u8> },
    Exit { request_id: u32, code: i32 },
    Ack { request_id: u32 },
    Busy { request_id: u32 },
    Error { request_id: Option<u32>, message: Seq<char> },
    Heartbeat { request_id: Option<u32> },
}

impl View for CommandMessage {
    type V = MessageView;

    open spec fn view(&self) -> MessageView {
        match *self {
            CommandMessage::Request { request_id, cmd, scratch_path } => MessageView::Request {
                request_id,
                cmd: cmd@,
                scratch_path: crate::payload::opt_text(scratch_path),
            },
            CommandMessage::Chunk { request_id, stream, seq, data } => MessageView::Chunk {
                request_id,
                stream,
                seq,
                data: data@,
            },
            CommandMessage::Exit { request_id, code } => MessageView::Exit { request_id, code },
            CommandMessage::Ack { request_id } => MessageView::Ack { request_id },
            CommandMessage::Busy { request_id } => MessageView::Busy { request_id },
            CommandMessage::Error { request_id, message } => MessageView::Error {
                request_id,
                message: message@,
            },
            CommandMessage::Heartbeat { request_id } => MessageView::Heartbeat { request_id },
        }
    }
}

pub open spec fn opt_u32_nat(o: Option<u32>) -> Option<nat> {
    match o {
        Some(x) => Some(x as nat),
        None => None,
    }
}

/// A signed integer as JSON writes it.
pub open spec fn int_text(v: int) -> Seq<char> {
    if v < 0 {
        seq!['-'] + dec((-v) as nat)
    } else {
        dec(v as nat)
    }
}

/// The items of a byte array, in decimal, separated by commas.
pub open spec fn byte_items(b: Seq<u8>) -> Seq<char>
    decreases b.len(),
{
    if b.len() == 0 {
        Seq::empty()
    } else if b.len() == 1 {
        dec(b[0] as nat)
    } else {
        byte_items(b.drop_last()) + seq![','] + dec(b.last() as nat)
    }
}

pub open spec fn stream_name(s: CommandStream) -> Seq<char> {
    match s {
        CommandStream::Stdout => "stdout"@,
        CommandStream::Stderr => "stderr"@,
    }
}

/// The JSON text of a message: `type` first, then the fields in order.
pub open spec fn message_json(m: MessageView) -> Seq<char> {
    match m {
        MessageView::Request { request_id, cmd, scratch_path } => seq!['{'] + json_member(
            "type"@,
            json_string("request"@),
        ) + json_field("request_id"@, dec(request_id as nat)) + json_field("cmd"@, json_string(cmd))
            + json_field("scratch_path"@, json_opt_string(scratch_path)) + seq!['}'],
        MessageView::Chunk { request_id, stream, seq, data } => seq!['{'] + json_member(
            "type"@,
            json_string("chunk"@),
        ) + json_field("request_id"@, dec(request_id as nat)) + json_field(
            "stream"@,
            json_string(stream_name(stream)),
        ) + json_field("seq"@, dec(seq as nat)) + json_field(
            "data"@,
            seq!['['] + byte_items(data) + seq![']'],
        ) + seq!['}'],
        MessageView::Exit { request_id, code } => seq!['{'] + json_member(
            "type"@,
            json_string("exit"@),
        ) + json_field("request_id"@, dec(request_id as nat)) + json_field(
            "code"@,
            int_text(code as int),
        ) + seq!['}'],
        MessageView::Ack { request_id } => seq!['{'] + json_member("type"@, json_string("ack"@))
            + json_field("request_id"@, dec(request_id as nat)) + seq!['}'],
        MessageView::Busy { request_id } => seq!['{'] + json_member("type"@, json_string("busy"@))
            + json_field("request_id"@, dec(request_id as nat)) + seq!['}'],
        MessageView::Error { request_id, message } => seq!['{'] + json_member(
            "type"@,
            json_string("error"@),
        ) + json_field("request_id"@, json_opt_num(opt_u32_nat(request_id))) + json_field(
            "message"@,
            json_string(message),
        ) + seq!['}'],
        MessageView::Heartbeat { request_id } => seq!['{'] + json_member(
            "type"@,
            json_string("heartbeat"@),
        ) + json_field("request_id"@, json_opt_num(opt_u32_nat(request_id))) + seq!['}'],
    }
}

/// The CRC-32 a frame carries for a message.
pub open spec fn message_crc(m: MessageView) -> u32 {
    crc32_of(encode_utf8(message_json(m)))
}

/// The JSON text of the frame carrying `m`.
pub open spec fn frame_json(m: MessageView) -> Seq<char> {
    seq!['{'] + json_member("channel"@, json_string("command"@)) + json_field(
        "schema_version"@,
        dec(1),
    ) + json_field("message"@, message_json(m)) + json_field("crc32"@, dec(message_crc(m) as nat))
        + seq!['}']
}

fn push_u64(out: &mut Vec<char>, n: u64)
    ensures
        final(out)@ == old(out)@ + dec(n as nat),
{
    let d = dec_chars(n);
    push_all(out, d.as_slice());
}

fn push_i32(out: &mut Vec<char>, v: i32)
    ensures
        final(out)@ == old(out)@ + int_text(v as int),
{
    let ghost start = out@;
    if v < 0 {
        out.push('-');
        let mag: u64 = (-(v as i64)) as u64;
        push_u64(out, mag);
        assert(out@ =~= start + int_text(v as int));
    } else {
        push_u64(out, v as u64);
    }
}

fn push_bytes(out: &mut Vec<char>, data: &[u8])
    ensures
        final(out)@ == old(out)@ + seq!['['] + byte_items(data@) + seq![']'],
{
    let ghost start = out@;
    out.push('[');
    let mut i: usize = 0;
    while i < data.len()
        invariant
            i <= data@.len(),
            out@ == start + seq!['['] + byte_items(data@.take(i as int)),
        decreases data@.len() - i,
    {
        assert(data@.take(i + 1).drop_last() =~= data@.take(i as int));
        if i > 0 {
            out.push(',');
        }
        push_u64(out, data[i] as u64);
        if i == 0 {
            assert(data@.take(1) =~= seq![data@[0]]);
        }
        assert(out@ =~= start + seq!['['] + byte_items(data@.take(i + 1)));
        i = i + 1;
    }
    assert(data@.take(data@.len() as int) =~= data@);
    out.push(']');
}

fn push_text_field(out: &mut Vec<char>, name: &str, s: &str)
    ensures
        final(out)@ == old(out)@ + json_field(name@, json_string(s@)),
{
    let ghost start = out@;
    push_key(out, name, false);
    let v = chars_of(s);
    push_json_string(out, v.as_slice());
    assert(out@ =~= start + json_field(name@, json_string(s@)));
}

fn push_num_field(out: &mut Vec<char>, name: &str, n: u64)
    ensures
        final(out)@ == old(out)@ + json_field(name@, dec(n as nat)),
{
    let ghost start = out@;
    push_key(out, name, false);
    push_u64(out, n);
    assert(out@ =~= start + json_field(name@, dec(n as nat)));
}

fn push_opt_num_field(out: &mut Vec<char>, name: &str, o: Option<u32>)
    ensures
        final(out)@ == old(out)@ + json_field(name@, json_opt_num(opt_u32_nat(o))),
{
    let ghost start = out@;
    push_key(out, name, false);
    let w: Option<u64> = match o {
        Some(x) => Some(x as u64),
        None => None,
    };
    push_opt_num(out, w);
    assert(out@ =~= start + json_field(name@, json_opt_num(opt_u32_nat(o))));
}

fn start_object(kind: &str) -> (r: Vec<char>)
    ensures
        r@ == seq!['{'] + json_member("type"@, json_string(kind@)),
{
    let mut out: Vec<char> = Vec::new();
    out.push('{');
    push_key(&mut out, "type", true);
    let v = chars_of(kind);
    push_json_string(&mut out, v.as_slice());
    assert(out@ =~= seq!['{'] + json_member("type"@, json_string(kind@)));
    out
}

fn finish(mut out: Vec<char>) -> (r: Vec<char>)
    ensures
        r@ == out@ + seq!['}'],
{
    out.push('}');
    out
}

fn request_chars(request_id: u32, cmd: &String, scratch_path: &Option<String>) -> (r: Vec<char>)
    ensures
        r@ == message_json(MessageView::Request { request_id, cmd: cmd@, scratch_path: crate::payload::opt_text(*scratch_path) }),
{
    let mut out = start_object("request");
    push_num_field(&mut out, "request_id", request_id as u64);
    push_text_field(&mut out, "cmd", cmd.as_str());
    let ghost before = out@;
    push_key(&mut out, "scratch_path", false);
    push_opt_string(&mut out, scratch_path);
    assert(out@ =~= before + json_field(
        "scratch_path"@,
        json_opt_string(crate::payload::opt_text(*scratch_path)),
    ));
    finish(out)
}

fn chunk_chars(request_id: u32, stream: CommandStream, seq: u32, data: &Vec<u8>) -> (r: Vec<char>)
    ensures
        r@ == message_json(MessageView::Chunk { request_id, stream, seq, data: data@ }),
{
    let mut out = start_object("chunk");
    push_num_field(&mut out, "request_id", request_id as u64);
    match stream {
        CommandStream::Stdout => push_text_field(&mut out, "stream", "stdout"),
        CommandStream::Stderr => push_text_field(&mut out, "stream", "stderr"),
    }
    push_num_field(&mut out, "seq", seq as u64);
    let ghost before = out@;
    push_key(&mut out, "data", false);
    push_bytes(&mut out, data.as_slice());
    assert(out@ =~= before + json_field("data"@, seq!['['] + byte_items(data@) + seq![']']));
    finish(out)
}

fn exit_chars(request_id: u32, code: i32) -> (r: Vec<char>)
    ensures
        r@ == message_json(MessageView::Exit { request_id, code }),
{
    let mut out = start_object("exit");
    push_num_field(&mut out, "request_id", request_id as u64);
    let ghost before = out@;
    push_key(&mut out, "code", false);
    push_i32(&mut out, code);
    assert(out@ =~= before + json_field("code"@, int_text(code as int)));
    finish(out)
}

fn id_chars(kind: &str, request_id: u32) -> (r: Vec<char>)
    ensures
        r@ == seq!['{'] + json_member("type"@, json_string(kind@)) + json_field("request_id"@, dec(request_id as nat)) + seq!['}'],
{
    let mut out = start_object(kind);
    push_num_field(&mut out, "request_id", request_id as u64);
    finish(out)
}

fn error_chars(request_id: Option<u32>, message: &String) -> (r: Vec<char>)
    ensures
        r@ == message_json(MessageView::Error { request_id, message: message@ }),
{
    let mut out = start_object("error");
    push_opt_num_field(&mut out, "request_id", request_id);
    push_text_field(&mut out, "message", message.as_str());
    finish(out)
}

fn heartbeat_chars(request_id: Option<u32>) -> (r: Vec<char>)
    ensures
        r@ == message_json(MessageView::Heartbeat { request_id }),
{
    let mut out = start_object("heartbeat");
    push_opt_num_field(&mut out, "request_id", request_id);
    finish(out)
}

/// The JSON text of a message.
pub fn message_text(m: &CommandMessage) -> (r: String)
    ensures
        r@ == message_json(m@),
{
    let out = match m {
        CommandMessage::Request { request_id, cmd, scratch_path } => request_chars(*request_id, cmd, scratch_path),
        CommandMessage::Chunk { request_id, stream, seq, data } => chunk_chars(*request_id, *stream, *seq, data),
        CommandMessage::Exit { request_id, code } => exit_chars(*request_id, *code),
        CommandMessage::Ack { request_id } => id_chars("ack", *request_id),
        CommandMessage::Busy { request_id } => id_chars("busy", *request_id),
        CommandMessage::Error { request_id, message } => error_chars(*request_id, message),
        CommandMessage::Heartbeat { request_id } => heartbeat_chars(*request_id),
    };
    string_of(out.as_slice())
}

/// The first rule of the protocol that a message breaks, if any.
pub open spec fn message_violation(m: MessageView) -> Option<Seq<char>> {
    match m {
        MessageView::Request { cmd, scratch_path, .. } => if trim(cmd).len() == 0 {
            Some("command must not be empty"@)
        } else if cmd.len() > 512 {
            Some("command length must be <= 512 chars"@)
        } else {
            match scratch_path {
                Some(p) => cache_path_violation(p),
                None => None,
            }
        },
        MessageView::Chunk { data, .. } => if data.len() > 2048 {
            Some("chunk exceeds 2048 bytes"@)
        } else {
            None
        },
        MessageView::Error { message, .. } => if trim(message).len() == 0 {
            Some("error message must not be empty"@)
        } else {
            None
        },
        _ => None,
    }
}

/// The named components of a path after its root: empty and `.` parts
/// dropped, as `Path::components` reads them.
pub open spec fn named_components(parts: Seq<Seq<char>>) -> Seq<Seq<char>>
    decreases parts.len(),
{
    if parts.len() == 0 {
        Seq::empty()
    } else {
        let prev = named_components(parts.drop_last());
        let p = parts.last();
        if p.len() == 0 || p == seq!['.'] {
            prev
        } else {
            prev.push(p)
        }
    }
}

/// Whether `path` lies under the cache directory, component by component
/// (`Path::starts_with`): absolute, its first two components `run` and
/// `serial_lcd_cache`.
pub open spec fn under_cache_dir(path: Seq<char>) -> bool {
    let comps = named_components(split_on(path, '/'));
    &&& path.len() > 0 && path[0] == '/'
    &&& comps.len() >= 2
    &&& comps[0] == seq!['r', 'u', 'n']
    &&& comps[1] == "serial_lcd_cache"@
}

/// Why a scratch path is refused, if it is.
pub open spec fn cache_path_violation(path: Seq<char>) -> Option<Seq<char>> {
    if encode_utf8(path).len() > 256 {
        Some("scratch_path must be <= 256 bytes"@)
    } else if !under_cache_dir(path) {
        Some("scratch_path must live under /run/serial_lcd_cache: "@ + path)
    } else {
        None
    }
}

/// Whether `path` names a place under the cache directory.
pub fn is_under_cache_dir(path: &str) -> (r: bool)
    ensures
        r == under_cache_dir(path@),
{
    let v = chars_of(path);
    let parts = split_on_char(v.as_slice(), '/');
    let ghost all = split_on(path@, '/');
    let mut comps: Vec<Vec<char>> = Vec::new();
    let mut i: usize = 0;
    while i < parts.len()
        invariant
            i <= parts@.len(),
            parts@.map_values(|l: Vec<char>| l@) == all,
            comps@.map_values(|l: Vec<char>| l@) == named_components(all.take(i as int)),
        decreases parts@.len() - i,
    {
        assert(all.take(i + 1).drop_last() =~= all.take(i as int));
        assert(all.take(i + 1).last() == parts@[i as int]@);
        let p = &parts[i];
        let dot = p.len() == 1 && p[0] == '.';
        if p.len() == 0 || dot {
            assert(p@ == seq!['.'] <==> dot) by {
                if dot {
                    assert(p@ =~= seq!['.']);
                }
            }
        } else {
            assert(p@ != seq!['.']) by {
                if p@ == seq!['.'] {
                    assert(p@.len() == 1 && p@[0] == '.');
                }
            }
            let copy = crate::text::slice_vec(p.as_slice(), 0, p.len());
            assert(copy@ =~= p@);
            comps.push(copy);
            assert(comps@.map_values(|l: Vec<char>| l@) =~= named_components(all.take(i as int)).push(p@));
        }
        i = i + 1;
    }
    assert(all.take(parts@.len() as int) =~= all);
    let ghost cs = comps@.map_values(|l: Vec<char>| l@);
    let absolute = v.len() > 0 && v[0] == '/';
    let ok = absolute && comps.len() >= 2 && crate::text::eq_str(comps[0].as_slice(), "run")
        && crate::text::eq_str(comps[1].as_slice(), "serial_lcd_cache");
    proof {
        reveal_strlit("run");
        assert("run"@ =~= seq!['r', 'u', 'n']);
        if comps@.len() >= 2 {
            assert(cs[0] == comps@[0]@);
            assert(cs[1] == comps@[1]@);
        }
    }
    ok
}

/// Checks a scratch path: at most 256 bytes, under the cache directory.
pub fn validate_cache_path(path: &str) -> (r: Result<(), Error>)
    ensures
        match cache_path_violation(path@) {
            Some(m) => r matches Err(Error::Parse(x)) && x@ == m,
            None => r is Ok,
        },
{
    if path.as_bytes().len() > COMMAND_MAX_SCRATCH_PATH_BYTES {
        return Err(Error::Parse(String::from_str("scratch_path must be <= 256 bytes")));
    }
    if !is_under_cache_dir(path) {
        return Err(Error::Parse(crate::concat2("scratch_path must live under /run/serial_lcd_cache: ", path)));
    }
    Ok(())
}

/// Checks a message against the protocol's limits.
pub fn validate_command_message(msg: &CommandMessage) -> (r: Result<(), Error>)
    ensures
        match message_violation(msg@) {
            Some(m) => r matches Err(Error::Parse(x)) && x@ == m,
            None => r is Ok,
        },
{
    match msg {
        CommandMessage::Request { cmd, scratch_path, .. } => {
            let v = chars_of(cmd.as_str());
            let t = trim_vec(v.as_slice());
            if t.len() == 0 {
                return Err(Error::Parse(String::from_str("command must not be empty")));
            }
            if v.len() > COMMAND_MAX_COMMAND_CHARS {
                return Err(Error::Parse(String::from_str("command length must be <= 512 chars")));
            }
            match scratch_path {
                Some(p) => validate_cache_path(p.as_str()),
                None => Ok(()),
            }
        },
        CommandMessage::Chunk { data, .. } => {
            if data.len() > COMMAND_MAX_CHUNK_BYTES {
                return Err(Error::Parse(String::from_str("chunk exceeds 2048 bytes")));
            }
            Ok(())
        },
        CommandMessage::Error { message, .. } => {
            let v = chars_of(message.as_str());
            let t = trim_vec(v.as_slice());
            if t.len() == 0 {
                return Err(Error::Parse(String::from_str("error message must not be empty")));
            }
            Ok(())
        },
        _ => Ok(()),
    }
}

/// A required member: its value, or the missing-field message.
pub open spec fn required(ms: Seq<(Seq<char>, JsonDoc)>, key: Seq<char>) -> Result<JsonDoc, Seq<char>> {
    match member_doc(ms, key) {
        Some(d) => Ok(d),
        None => Err("json: missing field `"@ + key + "`"@),
    }
}

pub open spec fn invalid(key: Seq<char>) -> Seq<char> {
    "json: invalid type for field `"@ + key + "`"@
}

/// A required `u32` member.
pub open spec fn req_u32(ms: Seq<(Seq<char>, JsonDoc)>, key: Seq<char>) -> Result<u32, Seq<char>> {
    match required(ms, key) {
        Err(e) => Err(e),
        Ok(d) => match doc_uint(d, 0xffff_ffff) {
            Some(u) => Ok(u as u32),
            None => Err(invalid(key)),
        },
    }
}

/// A required `i32` member.
pub open spec fn req_i32(ms: Seq<(Seq<char>, JsonDoc)>, key: Seq<char>) -> Result<i32, Seq<char>> {
    match required(ms, key) {
        Err(e) => Err(e),
        Ok(d) => match d {
            JsonDoc::Number(_, Some(i)) => if -0x8000_0000 <= i <= 0x7fff_ffff {
                Ok(i as i32)
            } else {
                Err(invalid(key))
            },
            _ => Err(invalid(key)),
        },
    }
}

/// A required string member.
pub open spec fn req_text(ms: Seq<(Seq<char>, JsonDoc)>, key: Seq<char>) -> Result<Seq<char>, Seq<char>> {
    match required(ms, key) {
        Err(e) => Err(e),
        Ok(d) => match doc_text(d) {
            Some(s) => Ok(s),
            None => Err(invalid(key)),
        },
    }
}

/// An optional `u32` member: absent or `null` is `None`.
pub open spec fn opt_u32(ms: Seq<(Seq<char>, JsonDoc)>, key: Seq<char>) -> Result<Option<u32>, Seq<char>> {
    match member_doc(ms, key) {
        None => Ok(None),
        Some(d) => match doc_opt_uint(d, 0xffff_ffff) {
            Some(Some(u)) => Ok(Some(u as u32)),
            Some(None) => Ok(None),
            None => Err(invalid(key)),
        },
    }
}

/// An optional string member: absent or `null` is `None`.
pub open spec fn opt_string(ms: Seq<(Seq<char>, JsonDoc)>, key: Seq<char>) -> Result<Option<Seq<char>>, Seq<char>> {
    match member_doc(ms, key) {
        None => Ok(None),
        Some(d) => match doc_opt_text(d) {
            Some(x) => Ok(x),
            None => Err(invalid(key)),
        },
    }
}

/// The message a document holds.
pub open spec fn message_from_doc(d: JsonDoc) -> Result<MessageView, Seq<char>> {
    match object_members(d) {
        None => Err("json: invalid type: expected a command message object"@),
        Some(ms) => match req_text(ms, "type"@) {
            Err(e) => Err(e),
            Ok(kind) => if kind == "request"@ {
                match (req_u32(ms, "request_id"@), req_text(ms, "cmd"@), opt_string(ms, "scratch_path"@)) {
                    (Ok(id), Ok(cmd), Ok(sp)) => Ok(MessageView::Request { request_id: id, cmd, scratch_path: sp }),
                    (Err(e), _, _) => Err(e),
                    (_, Err(e), _) => Err(e),
                    (_, _, Err(e)) => Err(e),
                }
            } else if kind == "chunk"@ {
                match (req_u32(ms, "request_id"@), req_text(ms, "stream"@), req_u32(ms, "seq"@), required(ms, "data"@)) {
                    (Ok(id), Ok(st), Ok(sq), Ok(dd)) => if st == "stdout"@ || st == "stderr"@ {
                        match doc_bytes(dd) {
                            Some(data) => Ok(MessageView::Chunk {
                                request_id: id,
                                stream: if st == "stdout"@ {
                                    CommandStream::Stdout
                                } else {
                                    CommandStream::Stderr
                                },
                                seq: sq,
                                data,
                            }),
                            None => Err(invalid("data"@)),
                        }
                    } else {
                        Err(invalid("stream"@))
                    },
                    (Err(e), _, _, _) => Err(e),
                    (_, Err(e), _, _) => Err(e),
                    (_, _, Err(e), _) => Err(e),
                    (_, _, _, Err(e)) => Err(e),
                }
            } else if kind == "exit"@ {
                match (req_u32(ms, "request_id"@), req_i32(ms, "code"@)) {
                    (Ok(id), Ok(code)) => Ok(MessageView::Exit { request_id: id, code }),
                    (Err(e), _) => Err(e),
                    (_, Err(e)) => Err(e),
                }
            } else if kind == "ack"@ {
                match req_u32(ms, "request_id"@) {
                    Ok(id) => Ok(MessageView::Ack { request_id: id }),
                    Err(e) => Err(e),
                }
            } else if kind == "busy"@ {
                match req_u32(ms, "request_id"@) {
                    Ok(id) => Ok(MessageView::Busy { request_id: id }),
                    Err(e) => Err(e),
                }
            } else if kind == "error"@ {
                match (opt_u32(ms, "request_id"@), req_text(ms, "message"@)) {
                    (Ok(id), Ok(m)) => Ok(MessageView::Error { request_id: id, message: m }),
                    (Err(e), _) => Err(e),
                    (_, Err(e)) => Err(e),
                }
            } else if kind == "heartbeat"@ {
                match opt_u32(ms, "request_id"@) {
                    Ok(id) => Ok(MessageView::Heartbeat { request_id: id }),
                    Err(e) => Err(e),
                }
            } else {
                Err("json: unknown variant `"@ + kind + "`"@)
            },
        },
    }
}

/// The parts of a frame.
pub struct FrameView {
    pub channel: Seq<char>,
    pub schema_version: u8,
    pub message: MessageView,
    pub crc32: u32,
}

/// The frame a document holds.
pub open spec fn frame_from_doc(d: JsonDoc) -> Result<FrameView, Seq<char>> {
    match object_members(d) {
        None => Err("json: invalid type: expected a command frame object"@),
        Some(ms) => match (req_text(ms, "channel"@), required(ms, "schema_version"@), required(ms, "message"@), req_u32(ms, "crc32"@)) {
            (Ok(ch), Ok(sv), Ok(md), Ok(crc)) => match doc_uint(sv, 255) {
                None => Err(invalid("schema_version"@)),
                Some(v) => match message_from_doc(md) {
                    Err(e) => Err(e),
                    Ok(m) => Ok(FrameView { channel: ch, schema_version: v as u8, message: m, crc32: crc }),
                },
            },
            (Err(e), _, _, _) => Err(e),
            (_, Err(e), _, _) => Err(e),
            (_, _, Err(e), _) => Err(e),
            (_, _, _, Err(e)) => Err(e),
        },
    }
}

/// What decoding frame text yields.
pub enum DecodeOutcome {
    Message(MessageView),
    Refused(crate::payload::frame::Failure),
    BadJson,
}

/// What decoding `raw` yields: the size limit, the JSON, the frame's
/// fields, its channel and version, its checksum, then the message's limits.
pub open spec fn decode_outcome(raw: Seq<char>) -> DecodeOutcome {
    if encode_utf8(raw).len() > 4096 {
        DecodeOutcome::Refused(crate::payload::frame::Failure::Parse("command frame exceeds 4096 bytes"@))
    } else {
        match json_text_document(raw) {
            None => DecodeOutcome::BadJson,
            Some(doc) => match frame_from_doc(doc) {
                Err(m) => DecodeOutcome::Refused(crate::payload::frame::Failure::Parse(m)),
                Ok(f) => if f.channel != "command"@ {
                    DecodeOutcome::Refused(crate::payload::frame::Failure::Parse("unsupported command channel"@))
                } else if f.schema_version != 1 {
                    DecodeOutcome::Refused(
                        crate::payload::frame::Failure::Parse(
                            "unsupported command schema_version="@ + dec(f.schema_version as nat) + " expected=1"@,
                        ),
                    )
                } else if message_crc(f.message) != f.crc32 {
                    DecodeOutcome::Refused(crate::payload::frame::Failure::Checksum)
                } else {
                    match message_violation(f.message) {
                        Some(m) => DecodeOutcome::Refused(crate::payload::frame::Failure::Parse(m)),
                        None => DecodeOutcome::Message(f.message),
                    }
                },
            },
        }
    }
}

/// Whether `r` is what decoding `raw` owes.
pub open spec fn decode_result_is(r: Result<CommandMessage, Error>, raw: Seq<char>) -> bool {
    match decode_outcome(raw) {
        DecodeOutcome::Message(m) => r matches Ok(x) && x@ == m,
        DecodeOutcome::Refused(f) => r matches Err(e) && crate::payload::frame::error_is(e, f),
        DecodeOutcome::BadJson => r matches Err(Error::Parse(m)) && is_prefix("json: "@, m@),
    }
}

proof fn lemma_message_keys_distinct(keys: [&str; 9])
    requires
        keys@ == seq!["type", "request_id", "cmd", "scratch_path", "stream", "seq", "data", "code", "message"],
    ensures
        forall|a: int, b: int|
            0 <= a < keys@.len() && 0 <= b < keys@.len() && a != b ==> (#[trigger] keys@[a])@
                != (#[trigger] keys@[b])@,
{
    reveal_strlit("type");
    reveal_strlit("request_id");
    reveal_strlit("cmd");
    reveal_strlit("scratch_path");
    reveal_strlit("stream");
    reveal_strlit("seq");
    reveal_strlit("data");
    reveal_strlit("code");
    reveal_strlit("message");
    assert forall|a: int, b: int|
        0 <= a < keys@.len() && 0 <= b < keys@.len() && a != b implies (#[trigger] keys@[a])@
            != (#[trigger] keys@[b])@ by {
        let x = keys@[a]@;
        let y = keys@[b]@;
        if x == y {
            assert(x.len() == y.len());
            assert(x[0] == y[0]);
            if x.len() > 1 {
                assert(x[1] == y[1]);
            }
        }
    }
}

proof fn lemma_frame_keys_distinct(keys: [&str; 4])
    requires
        keys@ == seq!["channel", "schema_version", "message", "crc32"],
    ensures
        forall|a: int, b: int|
            0 <= a < keys@.len() && 0 <= b < keys@.len() && a != b ==> (#[trigger] keys@[a])@
                != (#[trigger] keys@[b])@,
{
    reveal_strlit("channel");
    reveal_strlit("schema_version");
    reveal_strlit("message");
    reveal_strlit("crc32");
    assert forall|a: int, b: int|
        0 <= a < keys@.len() && 0 <= b < keys@.len() && a != b implies (#[trigger] keys@[a])@
            != (#[trigger] keys@[b])@ by {
        let x = keys@[a]@;
        let y = keys@[b]@;
        if x == y {
            assert(x.len() == y.len());
            assert(x[0] == y[0]);
        }
    }
}

fn missing(key: &str) -> (r: String)
    ensures
        r@ == "json: missing field `"@ + key@ + "`"@,
{
    crate::concat3("json: missing field `", key, "`")
}

fn invalid_msg(key: &str) -> (r: String)
    ensures
        r@ == invalid(key@),
{
    crate::concat3("json: invalid type for field `", key, "`")
}

fn get_u32(slots: &mut Vec<Option<serde_json::Value>>, j: usize, key: &str, Ghost(ms): Ghost<Seq<(Seq<char>, JsonDoc)>>) -> (r: Result<u32, String>)
    requires
        j < old(slots)@.len(),
        slot_docs(old(slots)@)[j as int] == member_doc(ms, key@),
    ensures
        final(slots)@.len() == old(slots)@.len(),
        forall|q: int| 0 <= q < old(slots)@.len() && q != j ==> #[trigger] final(slots)@[q] == old(slots)@[q],
        match req_u32(ms, key@) {
            Ok(u) => r == Ok::<u32, String>(u),
            Err(m) => r matches Err(e) && e@ == m,
        },
{
    match take_slot(slots, j) {
        None => Err(missing(key)),
        Some(v) => match read_uint(v, 0xffff_ffff) {
            Some(u) => Ok(u as u32),
            None => Err(invalid_msg(key)),
        },
    }
}

fn get_text(slots: &mut Vec<Option<serde_json::Value>>, j: usize, key: &str, Ghost(ms): Ghost<Seq<(Seq<char>, JsonDoc)>>) -> (r: Result<String, String>)
    requires
        j < old(slots)@.len(),
        slot_docs(old(slots)@)[j as int] == member_doc(ms, key@),
    ensures
        final(slots)@.len() == old(slots)@.len(),
        forall|q: int| 0 <= q < old(slots)@.len() && q != j ==> #[trigger] final(slots)@[q] == old(slots)@[q],
        match req_text(ms, key@) {
            Ok(s) => r matches Ok(x) && x@ == s,
            Err(m) => r matches Err(e) && e@ == m,
        },
{
    match take_slot(slots, j) {
        None => Err(missing(key)),
        Some(v) => match read_text(v) {
            Some(s) => Ok(s),
            None => Err(invalid_msg(key)),
        },
    }
}

fn get_opt_u32(slots: &mut Vec<Option<serde_json::Value>>, j: usize, key: &str, Ghost(ms): Ghost<Seq<(Seq<char>, JsonDoc)>>) -> (r: Result<Option<u32>, String>)
    requires
        j < old(slots)@.len(),
        slot_docs(old(slots)@)[j as int] == member_doc(ms, key@),
    ensures
        final(slots)@.len() == old(slots)@.len(),
        forall|q: int| 0 <= q < old(slots)@.len() && q != j ==> #[trigger] final(slots)@[q] == old(slots)@[q],
        match opt_u32(ms, key@) {
            Ok(u) => r == Ok::<Option<u32>, String>(u),
            Err(m) => r matches Err(e) && e@ == m,
        },
{
    match take_slot(slots, j) {
        None => Ok(None),
        Some(v) => match read_opt_uint(v, 0xffff_ffff) {
            Some(Some(u)) => Ok(Some(u as u32)),
            Some(None) => Ok(None),
            None => Err(invalid_msg(key)),
        },
    }
}

fn get_opt_text(slots: &mut Vec<Option<serde_json::Value>>, j: usize, key: &str, Ghost(ms): Ghost<Seq<(Seq<char>, JsonDoc)>>) -> (r: Result<Option<String>, String>)
    requires
        j < old(slots)@.len(),
        slot_docs(old(slots)@)[j as int] == member_doc(ms, key@),
    ensures
        final(slots)@.len() == old(slots)@.len(),
        forall|q: int| 0 <= q < old(slots)@.len() && q != j ==> #[trigger] final(slots)@[q] == old(slots)@[q],
        match opt_string(ms, key@) {
            Ok(s) => r matches Ok(x) && crate::payload::opt_text(x) == s,
            Err(m) => r matches Err(e) && e@ == m,
        },
{
    match take_slot(slots, j) {
        None => Ok(None),
        Some(v) => match read_opt_text(v) {
            Some(x) => Ok(x),
            None => Err(invalid_msg(key)),
        },
    }
}

/// Reads a message out of a parsed value.
pub fn decode_message(v: serde_json::Value) -> (r: Result<CommandMessage, String>)
    ensures
        match message_from_doc(value_document(v)) {
            Ok(m) => r matches Ok(x) && x@ == m,
            Err(e) => r matches Err(x) && x@ == e,
        },
{
    let ghost doc = value_document(v);
    let keys: [&str; 9] = ["type", "request_id", "cmd", "scratch_path", "stream", "seq", "data", "code", "message"];
    proof {
        lemma_message_keys_distinct(keys);
    }
    let mut slots = match collect_members(v, keys.as_slice()) {
        Some(s) => s,
        None => {
            return Err(String::from_str("json: invalid type: expected a command message object"));
        },
    };
    let ghost ms = object_members(doc)->0;
    assert(keys@[0] == "type" && keys@[1] == "request_id" && keys@[2] == "cmd" && keys@[3] == "scratch_path");
    assert(keys@[4] == "stream" && keys@[5] == "seq" && keys@[6] == "data" && keys@[7] == "code" && keys@[8] == "message");
    assert(slot_docs(slots@)[0] == member_doc(ms, keys@[0]@));
    assert(slot_docs(slots@)[1] == member_doc(ms, keys@[1]@));
    assert(slot_docs(slots@)[2] == member_doc(ms, keys@[2]@));
    assert(slot_docs(slots@)[3] == member_doc(ms, keys@[3]@));
    assert(slot_docs(slots@)[4] == member_doc(ms, keys@[4]@));
    assert(slot_docs(slots@)[5] == member_doc(ms, keys@[5]@));
    assert(slot_docs(slots@)[6] == member_doc(ms, keys@[6]@));
    assert(slot_docs(slots@)[7] == member_doc(ms, keys@[7]@));
    assert(slot_docs(slots@)[8] == member_doc(ms, keys@[8]@));
    let kind = get_text(&mut slots, 0, "type", Ghost(ms))?;
    let k = kind.as_str();
    if same_text(k, "request") {
        let id = get_u32(&mut slots, 1, "request_id", Ghost(ms))?;
        let cmd = get_text(&mut slots, 2, "cmd", Ghost(ms))?;
        let sp = get_opt_text(&mut slots, 3, "scratch_path", Ghost(ms))?;
        Ok(CommandMessage::Request { request_id: id, cmd, scratch_path: sp })
    } else if same_text(k, "chunk") {
        let id = get_u32(&mut slots, 1, "request_id", Ghost(ms))?;
        let st = get_text(&mut slots, 4, "stream", Ghost(ms))?;
        let sq = get_u32(&mut slots, 5, "seq", Ghost(ms))?;
        let dv = match take_slot(&mut slots, 6) {
            Some(d) => d,
            None => {
                return Err(missing("data"));
            },
        };
        let stream = if same_text(st.as_str(), "stdout") {
            CommandStream::Stdout
        } else if same_text(st.as_str(), "stderr") {
            CommandStream::Stderr
        } else {
            return Err(invalid_msg("stream"));
        };
        match crate::payload::envelope::read_bytes(dv) {
            Some(data) => Ok(CommandMessage::Chunk { request_id: id, stream, seq: sq, data }),
            None => Err(invalid_msg("data")),
        }
    } else if same_text(k, "exit") {
        let id = get_u32(&mut slots, 1, "request_id", Ghost(ms))?;
        let cv = match take_slot(&mut slots, 7) {
            Some(c) => c,
            None => {
                return Err(missing("code"));
            },
        };
        match crate::json::read_i64(cv) {
            Some(i) => if -0x8000_0000 <= i && i <= 0x7fff_ffff {
                Ok(CommandMessage::Exit { request_id: id, code: i as i32 })
            } else {
                Err(invalid_msg("code"))
            },
            None => Err(invalid_msg("code")),
        }
    } else if same_text(k, "ack") {
        let id = get_u32(&mut slots, 1, "request_id", Ghost(ms))?;
        Ok(CommandMessage::Ack { request_id: id })
    } else if same_text(k, "busy") {
        let id = get_u32(&mut slots, 1, "request_id", Ghost(ms))?;
        Ok(CommandMessage::Busy { request_id: id })
    } else if same_text(k, "error") {
        let id = get_opt_u32(&mut slots, 1, "request_id", Ghost(ms))?;
        let m = get_text(&mut slots, 8, "message", Ghost(ms))?;
        Ok(CommandMessage::Error { request_id: id, message: m })
    } else if same_text(k, "heartbeat") {
        let id = get_opt_u32(&mut slots, 1, "request_id", Ghost(ms))?;
        Ok(CommandMessage::Heartbeat { request_id: id })
    } else {
        Err(crate::concat3("json: unknown variant `", k, "`"))
    }
}

/// The parts of a decoded frame.
pub struct DecodedFrame {
    pub channel: String,
    pub schema_version: u8,
    pub message: CommandMessage,
    pub crc32: u32,
}

/// Reads a frame out of a parsed value.
fn decode_frame(v: serde_json::Value) -> (r: Result<DecodedFrame, String>)
    ensures
        match frame_from_doc(value_document(v)) {
            Ok(f) => r matches Ok(x) && x.channel@ == f.channel && x.schema_version == f.schema_version
                && x.message@ == f.message && x.crc32 == f.crc32,
            Err(e) => r matches Err(x) && x@ == e,
        },
{
    let ghost doc = value_document(v);
    let keys: [&str; 4] = ["channel", "schema_version", "message", "crc32"];
    proof {
        lemma_frame_keys_distinct(keys);
    }
    let mut slots = match collect_members(v, keys.as_slice()) {
        Some(s) => s,
        None => {
            return Err(String::from_str("json: invalid type: expected a command frame object"));
        },
    };
    let ghost ms = object_members(doc)->0;
    assert(keys@[0] == "channel" && keys@[1] == "schema_version" && keys@[2] == "message" && keys@[3] == "crc32");
    assert(slot_docs(slots@)[0] == member_doc(ms, keys@[0]@));
    assert(slot_docs(slots@)[1] == member_doc(ms, keys@[1]@));
    assert(slot_docs(slots@)[2] == member_doc(ms, keys@[2]@));
    assert(slot_docs(slots@)[3] == member_doc(ms, keys@[3]@));
    let channel = get_text(&mut slots, 0, "channel", Ghost(ms))?;
    let sv = match take_slot(&mut slots, 1) {
        Some(x) => x,
        None => {
            return Err(missing("schema_version"));
        },
    };
    let mv = match take_slot(&mut slots, 2) {
        Some(x) => x,
        None => {
            return Err(missing("message"));
        },
    };
    let crc = get_u32(&mut slots, 3, "crc32", Ghost(ms))?;
    let version = match read_uint(sv, 255) {
        Some(u) => u as u8,
        None => {
            return Err(invalid_msg("schema_version"));
        },
    };
    let message = decode_message(mv)?;
    Ok(DecodedFrame { channel, schema_version: version, message, crc32: crc })
}

impl CommandMessage {
    /// The CRC-32 of the message's JSON text.
    pub fn crc32(&self) -> (r: u32)
        ensures
            r == message_crc(self@),
    {
        let text = message_text(self);
        crc32(text.as_str().as_bytes())
    }
}

/// Decodes a command frame: at most 4096 bytes, on the `command` channel,
/// schema version 1, with the message's CRC-32, and a message within the
/// protocol's limits.
pub fn decode_command_frame(raw: &str) -> (r: Result<CommandMessage, Error>)
    ensures
        decode_result_is(r, raw@),
{
    if raw.as_bytes().len() > COMMAND_MAX_FRAME_BYTES {
        return Err(Error::Parse(String::from_str("command frame exceeds 4096 bytes")));
    }
    let value = match parse_value(raw) {
        Ok(v) => v,
        Err(e) => {
            proof {
                lemma_prefix_concat("json: "@, e@);
            }
            return Err(Error::Parse(crate::concat2("json: ", e.as_str())));
        },
    };
    let frame = match decode_frame(value) {
        Ok(f) => f,
        Err(m) => {
            return Err(Error::Parse(m));
        },
    };
    if !same_text(frame.channel.as_str(), "command") {
        return Err(Error::Parse(String::from_str("unsupported command channel")));
    }
    if frame.schema_version != COMMAND_SCHEMA_VERSION {
        return Err(
            Error::Parse(
                text_with_number(
                    "unsupported command schema_version=",
                    frame.schema_version as u64,
                    " expected=1",
                ),
            ),
        );
    }
    let computed = frame.message.crc32();
    if computed != frame.crc32 {
        return Err(Error::ChecksumMismatch);
    }
    match validate_command_message(&frame.message) {
        Ok(()) => Ok(frame.message),
        Err(e) => Err(e),
    }
}

/// What encoding a message yields.
pub open spec fn encode_outcome(m: MessageView) -> Result<Seq<char>, Seq<char>> {
    match message_violation(m) {
        Some(e) => Err(e),
        None => if encode_utf8(frame_json(m)).len() > 4096 {
            Err("command frame exceeds 4096 bytes"@)
        } else {
            Ok(frame_json(m))
        },
    }
}

/// Encodes a message into a frame, refusing a message outside the
/// protocol's limits or a frame over 4096 bytes.
pub fn encode_command_frame(msg: &CommandMessage) -> (r: Result<String, Error>)
    ensures
        match encode_outcome(msg@) {
            Ok(t) => r matches Ok(s) && s@ == t,
            Err(e) => r matches Err(Error::Parse(x)) && x@ == e,
        },
{
    validate_command_message(msg)?;
    let crc = msg.crc32();
    let body = message_text(msg);
    let mut out: Vec<char> = Vec::new();
    out.push('{');
    push_key(&mut out, "channel", true);
    let c = chars_of("command");
    push_json_string(&mut out, c.as_slice());
    push_num_field(&mut out, "schema_version", 1);
    let ghost before = out@;
    push_key(&mut out, "message", false);
    let b = chars_of(body.as_str());
    push_all(&mut out, b.as_slice());
    assert(out@ =~= before + json_field("message"@, message_json(msg@)));
    push_num_field(&mut out, "crc32", crc as u64);
    out.push('}');
    assert(out@ =~= frame_json(msg@));
    let text = string_of(out.as_slice());
    if text.as_str().as_bytes().len() > COMMAND_MAX_FRAME_BYTES {
        return Err(Error::Parse(String::from_str("command frame exceeds 4096 bytes")));
    }
    Ok(text)
}

} // verus!
