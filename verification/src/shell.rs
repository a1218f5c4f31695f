//! The serial shell's decisions: what a typed line asks for, and what a
//! reply line from the link means. The caller owns the terminal and the
//! port and carries the actions out.
use vstd::prelude::*;
use vstd::string::StringExecFns;

use crate::payload::command::{
    decode_command_frame, decode_result_is, encode_command_frame, encode_outcome, CommandMessage,
    CommandStream, MessageView,
};
use crate::render::{looks_like_command_frame, occurs};
use crate::text::{ascii_lower, ascii_lower_vec, chars_of, eq_str, string_of, trim, trim_vec};
use crate::{Error, Result};

verus! {

/// The line the shell sends when it starts.
pub const SHELL_INIT_LINE: &'static str = "INIT";
/// The prompt written before each typed line is read.
pub const SHELL_PROMPT: &'static str = "serialsh> ";
/// What the shell reports when the far end is busy.
pub const REMOTE_BUSY_NOTICE: &'static str = "remote busy";

/// What to do with a typed line.
pub enum ShellInput {
    /// Stop, exiting with this code.
    Finish(i32),
    /// Nothing to send: prompt again.
    Prompt,
    /// Send this frame, then read replies until the command is over.
    Send(String),
}

/// What a reply line from the link means.
pub enum ShellReply {
    /// Not a reply to act on: keep reading.
    Ignore,
    /// Output for standard output; keep reading.
    Stdout(Vec<u8>),
    /// Output for standard error; keep reading.
    Stderr(Vec<u8>),
    /// The command is over with this exit code; `notice`, when present, is
    /// a line for standard error.
    Finished { code: i32, notice: Option<String> },
}

/// The serial shell between typed lines: the id the next request gets, and
/// the exit code of the last command.
pub struct ShellSession {
    next_request: u32,
    last_exit: i32,
}

/// Whether a typed (already trimmed) line asks to leave.
pub open spec fn is_exit_word(t: Seq<char>) -> bool {
    ascii_lower(t) == "exit"@
}

/// The request a typed command becomes.
pub open spec fn request_for(id: u32, cmd: Seq<char>) -> MessageView {
    MessageView::Request { request_id: id, cmd, scratch_path: None }
}

/// Whether a reply line is a command frame worth decoding.
pub open spec fn is_reply_frame(t: Seq<char>) -> bool {
    t.len() > 0 && occurs("\"channel\":\"command\""@, t) && occurs("\"crc32\""@, t)
}

impl ShellSession {
    pub closed spec fn next_id(&self) -> u32 {
        self.next_request
    }

    pub closed spec fn exit_code(&self) -> i32 {
        self.last_exit
    }

    /// A fresh session: first request 1, exit code 0.
    pub fn new() -> (r: ShellSession)
        ensures
            r.next_id() == 1,
            r.exit_code() == 0,
    {
        ShellSession { next_request: 1, last_exit: 0 }
    }

    /// The exit code of the last command (0 before any).
    pub fn last_exit(&self) -> (r: i32)
        ensures
            r == self.exit_code(),
    {
        self.last_exit
    }

    /// Decides on a typed line (`None` at the end of input): the end of
    /// input and `exit` (in any case) finish with the last exit code, a
    /// blank line prompts again, anything else is sent, trimmed, as the
    /// next request.
    pub fn on_input(&mut self, line: Option<&str>) -> (r: Result<ShellInput>)
        ensures
            final(self).exit_code() == old(self).exit_code(),
            match line {
                None => r matches Ok(ShellInput::Finish(c)) && c == old(self).exit_code()
                    && final(self).next_id() == old(self).next_id(),
                Some(l) => {
                    let t = trim(l@);
                    if t.len() == 0 {
                        r matches Ok(ShellInput::Prompt) && final(self).next_id() == old(self).next_id()
                    } else if is_exit_word(t) {
                        r matches Ok(ShellInput::Finish(c)) && c == old(self).exit_code()
                            && final(self).next_id() == old(self).next_id()
                    } else {
                        match encode_outcome(request_for(old(self).next_id(), t)) {
                            Ok(f) => r matches Ok(ShellInput::Send(s)) && s@ == f
                                && final(self).next_id() == (if old(self).next_id() == u32::MAX {
                                    1u32
                                } else {
                                    (old(self).next_id() + 1) as u32
                                }),
                            Err(e) => r matches Err(Error::Parse(x)) && x@ == e
                                && final(self).next_id() == old(self).next_id(),
                        }
                    }
                },
            },
    {
        let l = match line {
            None => {
                return Ok(ShellInput::Finish(self.last_exit));
            },
            Some(l) => l,
        };
        let t = trim_vec(chars_of(l).as_slice());
        if t.len() == 0 {
            return Ok(ShellInput::Prompt);
        }
        let lower = ascii_lower_vec(t.as_slice());
        if eq_str(lower.as_slice(), "exit") {
            return Ok(ShellInput::Finish(self.last_exit));
        }
        let id = self.next_request;
        let msg = CommandMessage::Request { request_id: id, cmd: string_of(t.as_slice()), scratch_path: None };
        assert(msg@ == request_for(id, t@));
        let frame = encode_command_frame(&msg)?;
        self.next_request = if id == u32::MAX {
            1
        } else {
            id + 1
        };
        Ok(ShellInput::Send(frame))
    }

    /// Decides on a line read from the link while a command runs: blank
    /// lines and lines that are not command frames are ignored; a frame
    /// that does not decode is an error; output chunks go to their stream;
    /// an exit ends the command with its code; a busy reply ends it with
    /// code 1 and a notice; any other message is ignored.
    pub fn on_reply(&mut self, line: &str) -> (r: Result<ShellReply>)
        ensures
            final(self).next_id() == old(self).next_id(),
            !is_reply_frame(trim(line@)) ==> (r matches Ok(ShellReply::Ignore)
                && final(self).exit_code() == old(self).exit_code()),
            is_reply_frame(trim(line@)) ==> ({
                let t = trim(line@);
                match r {
                    Err(e) => decode_result_is(Err(e), t) && final(self).exit_code() == old(self).exit_code(),
                    Ok(reply) => exists|m: CommandMessage| decode_result_is(Ok(m), t) && match m@ {
                        MessageView::Chunk { stream, data, .. } => (match stream {
                            CommandStream::Stdout => reply matches ShellReply::Stdout(b) && b@ == data,
                            CommandStream::Stderr => reply matches ShellReply::Stderr(b) && b@ == data,
                        }) && final(self).exit_code() == old(self).exit_code(),
                        MessageView::Exit { code, .. } => reply matches ShellReply::Finished { code: c, notice }
                            && c == code && notice is None && final(self).exit_code() == code,
                        MessageView::Busy { .. } => reply matches ShellReply::Finished { code: c, notice }
                            && c == 1 && final(self).exit_code() == 1 && (notice matches Some(n)
                            && n@ == "remote busy"@),
                        _ => reply matches ShellReply::Ignore && final(self).exit_code() == old(self).exit_code(),
                    },
                }
            }),
    {
        let t = trim_vec(chars_of(line).as_slice());
        let text = string_of(t.as_slice());
        if t.len() == 0 || !looks_like_command_frame(text.as_str()) {
            return Ok(ShellReply::Ignore);
        }
        let msg = match decode_command_frame(text.as_str()) {
            Ok(m) => m,
            Err(e) => {
                return Err(e);
            },
        };
        let ghost m0 = msg;
        match msg {
            CommandMessage::Chunk { stream, data, .. } => match stream {
                CommandStream::Stdout => Ok(ShellReply::Stdout(data)),
                CommandStream::Stderr => Ok(ShellReply::Stderr(data)),
            },
            CommandMessage::Exit { code, .. } => {
                self.last_exit = code;
                Ok(ShellReply::Finished { code, notice: None })
            },
            CommandMessage::Busy { .. } => {
                self.last_exit = 1;
                Ok(ShellReply::Finished { code: 1, notice: Some(String::from_str(REMOTE_BUSY_NOTICE)) })
            },
            _ => Ok(ShellReply::Ignore),
        }
    }
}

} // verus!
