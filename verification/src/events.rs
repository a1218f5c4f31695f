//! Command tunnel events: decoded frames become events, and the decisions a
//! command session makes about a request (busy, refused, or run).
use vstd::prelude::*;
use vstd::string::{StringExecFns, StrSliceExecFns};
use crate::payload::command::{
    CommandMessage, CommandStream, MessageView, decode_command_frame, decode_outcome, DecodeOutcome,
    named_components,
};
use crate::payload::frame::error_is;
use crate::text::{chars_of, string_of, trim, trim_start, trim_end, trim_vec, is_ws, is_ws_char, is_prefix, split_on, split_on_char, eq_chars, same_text};
use crate::{Error, Result};

verus! {

/// Scroll offsets of the two display rows.
#[derive(Debug, Clone, Copy, PartialEq, Eq, Structural)]
pub struct ScrollOffsets {
    pub top: usize,
    pub bottom: usize,
}

impl ScrollOffsets {
    /// Both rows at their start.
    pub fn zero() -> (r: ScrollOffsets)
        ensures
            r == (ScrollOffsets { top: 0, bottom: 0 }),
    {
        ScrollOffsets { top: 0, bottom: 0 }
    }

    /// New offsets for both rows.
    pub fn update(self, top: usize, bottom: usize) -> (r: ScrollOffsets)
        ensures
            r == (ScrollOffsets { top, bottom }),
    {
        ScrollOffsets { top, bottom }
    }
}

/// What arrived on the command tunnel; a chunk carries its length only.
#[derive(Debug, Clone, PartialEq)]
pub enum CommandEvent {
    Request { request_id: u32, cmd: String, scratch_path: Option<String> },
    Chunk { request_id: u32, stream: CommandStream, seq: u32, len: usize },
    Exit { request_id: u32, code: i32 },
    Ack { request_id: u32 },
    Busy { request_id: u32 },
    Error { request_id: Option<u32>, message: String },
    Heartbeat { request_id: Option<u32> },
}

/// The event a message becomes.
pub open spec fn event_of(m: CommandMessage) -> CommandEvent {
    match m {
        CommandMessage::Request { request_id, cmd, scratch_path } => CommandEvent::Request {
            request_id,
            cmd,
            scratch_path,
        },
        CommandMessage::Chunk { request_id, stream, seq, data } => CommandEvent::Chunk {
            request_id,
            stream,
            seq,
            len: data@.len() as usize,
        },
        CommandMessage::Exit { request_id, code } => CommandEvent::Exit { request_id, code },
        CommandMessage::Ack { request_id } => CommandEvent::Ack { request_id },
        CommandMessage::Busy { request_id } => CommandEvent::Busy { request_id },
        CommandMessage::Error { request_id, message } => CommandEvent::Error { request_id, message },
        CommandMessage::Heartbeat { request_id } => CommandEvent::Heartbeat { request_id },
    }
}

/// The name of an event's kind (a chunk is named by its stream).
pub open spec fn event_kind(e: CommandEvent) -> Seq<char> {
    match e {
        CommandEvent::Request { .. } => "request"@,
        CommandEvent::Chunk { stream, .. } => match stream {
            CommandStream::Stdout => "stdout"@,
            CommandStream::Stderr => "stderr"@,
        },
        CommandEvent::Exit { .. } => "exit"@,
        CommandEvent::Ack { .. } => "ack"@,
        CommandEvent::Busy { .. } => "busy"@,
        CommandEvent::Error { .. } => "error"@,
        CommandEvent::Heartbeat { .. } => "heartbeat"@,
    }
}

impl CommandEvent {
    /// The name of the event's kind.
    pub fn kind(&self) -> (r: &'static str)
        ensures
            r@ == event_kind(*self),
    {
        match self {
            CommandEvent::Request { .. } => "request",
            CommandEvent::Chunk { stream, .. } => match stream {
                CommandStream::Stdout => "stdout",
                CommandStream::Stderr => "stderr",
            },
            CommandEvent::Exit { .. } => "exit",
            CommandEvent::Ack { .. } => "ack",
            CommandEvent::Busy { .. } => "busy",
            CommandEvent::Error { .. } => "error",
            CommandEvent::Heartbeat { .. } => "heartbeat",
        }
    }

    /// The event a message becomes.
    pub fn from_message(msg: CommandMessage) -> (r: CommandEvent)
        ensures
            r == event_of(msg),
    {
        match msg {
            CommandMessage::Request { request_id, cmd, scratch_path } => CommandEvent::Request {
                request_id,
                cmd,
                scratch_path,
            },
            CommandMessage::Chunk { request_id, stream, seq, data } => CommandEvent::Chunk {
                request_id,
                stream,
                seq,
                len: data.len(),
            },
            CommandMessage::Exit { request_id, code } => CommandEvent::Exit { request_id, code },
            CommandMessage::Ack { request_id } => CommandEvent::Ack { request_id },
            CommandMessage::Busy { request_id } => CommandEvent::Busy { request_id },
            CommandMessage::Error { request_id, message } => CommandEvent::Error {
                request_id,
                message,
            },
            CommandMessage::Heartbeat { request_id } => CommandEvent::Heartbeat { request_id },
        }
    }
}

/// The request a message refers to, if any.
pub open spec fn request_of(m: MessageView) -> Option<u32> {
    match m {
        MessageView::Request { request_id, .. } => Some(request_id),
        MessageView::Chunk { request_id, .. } => Some(request_id),
        MessageView::Exit { request_id, .. } => Some(request_id),
        MessageView::Ack { request_id } => Some(request_id),
        MessageView::Busy { request_id } => Some(request_id),
        MessageView::Error { request_id, .. } => request_id,
        MessageView::Heartbeat { request_id } => request_id,
    }
}

/// The request a message refers to, if any.
pub fn message_request_id(msg: &CommandMessage) -> (r: Option<u32>)
    ensures
        r == request_of(msg@),
{
    match msg {
        CommandMessage::Request { request_id, .. } => Some(*request_id),
        CommandMessage::Chunk { request_id, .. } => Some(*request_id),
        CommandMessage::Exit { request_id, .. } => Some(*request_id),
        CommandMessage::Ack { request_id } => Some(*request_id),
        CommandMessage::Busy { request_id } => Some(*request_id),
        CommandMessage::Error { request_id, .. } => *request_id,
        CommandMessage::Heartbeat { request_id } => *request_id,
    }
}

/// Turns command frames, one per line, into events, and remembers the last
/// request a frame referred to.
pub struct CommandBridge {
    last_seen_request: Option<u32>,
}

impl CommandBridge {
    /// The last request a frame referred to.
    pub closed spec fn last_seen(&self) -> Option<u32> {
        self.last_seen_request
    }

    /// A bridge that has seen no request.
    pub fn new() -> (r: CommandBridge)
        ensures
            r.last_seen() is None,
    {
        CommandBridge { last_seen_request: None }
    }

    /// Decodes one frame into an event; a frame that refers to a request
    /// makes it the last one seen, a refused frame changes nothing.
    pub fn ingest_line(&mut self, raw: &str) -> (r: Result<Option<CommandEvent>>)
        ensures
            match decode_outcome(raw@) {
                DecodeOutcome::Message(m) => r matches Ok(Some(e)) && (exists|x: CommandMessage|
                    x@ == m && e == event_of(x)) && final(self).last_seen() == match request_of(m) {
                    Some(id) => Some(id),
                    None => old(self).last_seen(),
                },
                DecodeOutcome::Refused(f) => r matches Err(e) && error_is(e, f) && final(self).last_seen()
                    == old(self).last_seen(),
                DecodeOutcome::BadJson => r matches Err(Error::Parse(m)) && is_prefix("json: "@, m@)
                    && final(self).last_seen() == old(self).last_seen(),
            },
    {
        let message = decode_command_frame(raw)?;
        match message_request_id(&message) {
            Some(id) => {
                self.last_seen_request = Some(id);
            },
            None => {},
        }
        let ghost m = message;
        let event = CommandEvent::from_message(message);
        Ok(Some(event))
    }

    /// The last request a frame referred to.
    pub fn last_request_id(&self) -> (r: Option<u32>)
        ensures
            r == self.last_seen(),
    {
        self.last_seen_request
    }
}

/// Where splitting a command line stands: the words so far, the word being
/// read, the open quote, and whether a backslash escapes the next character.
pub struct SplitState {
    pub args: Seq<Seq<char>>,
    pub current: Seq<char>,
    pub quote: Option<char>,
    pub escape: bool,
}

/// Reads one character of a command line.
pub open spec fn split_step(s: SplitState, ch: char) -> SplitState {
    if s.escape {
        SplitState { current: s.current.push(ch), escape: false, ..s }
    } else if ch == '\\' {
        SplitState { escape: true, ..s }
    } else if ch == '\'' || ch == '"' {
        match s.quote {
            Some(m) => if m == ch {
                SplitState { quote: None, ..s }
            } else {
                SplitState { current: s.current.push(ch), ..s }
            },
            None => SplitState { quote: Some(ch), ..s },
        }
    } else if is_ws(ch) && s.quote is None {
        if s.current.len() > 0 {
            SplitState { args: s.args.push(s.current), current: Seq::empty(), ..s }
        } else {
            s
        }
    } else {
        SplitState { current: s.current.push(ch), ..s }
    }
}

/// Reads characters in turn from the empty state.
pub open spec fn split_run(chars: Seq<char>) -> SplitState
    decreases chars.len(),
{
    if chars.len() == 0 {
        SplitState { args: Seq::empty(), current: Seq::empty(), quote: None, escape: false }
    } else {
        split_step(split_run(chars.drop_last()), chars.last())
    }
}

/// The words of a command line, as a shell reads them: whitespace separates
/// words, quotes group them, a backslash escapes the next character.
pub open spec fn split_words(line: Seq<char>) -> core::result::Result<Seq<Seq<char>>, Seq<char>> {
    let t = trim(line);
    if t.len() == 0 {
        Err("empty command"@)
    } else {
        let s = split_run(t);
        if s.escape {
            Err("unterminated escape"@)
        } else if s.quote is Some {
            Err("unterminated quote"@)
        } else {
            let words = if s.current.len() > 0 {
                s.args.push(s.current)
            } else {
                s.args
            };
            if words.len() == 0 {
                Err("empty command"@)
            } else {
                Ok(words)
            }
        }
    }
}

/// A character that stands for itself wherever it is: no whitespace, no
/// quote, no backslash.
pub open spec fn plain_char(c: char) -> bool {
    !is_ws(c) && c != '"' && c != '\'' && c != '\\'
}

proof fn lemma_split_plain(w: Seq<char>)
    requires
        forall|i: int| 0 <= i < w.len() ==> plain_char(#[trigger] w[i]),
    ensures
        split_run(w) == (SplitState { args: Seq::empty(), current: w, quote: None, escape: false }),
    decreases w.len(),
{
    if w.len() > 0 {
        lemma_split_plain(w.drop_last());
        let s0 = split_run(w.drop_last());
        let c = w.last();
        assert(plain_char(c));
        assert(split_run(w) == split_step(s0, c));
        assert(split_step(s0, c) == SplitState { current: s0.current.push(c), ..s0 });
        assert(w.drop_last().push(c) =~= w);
    } else {
        assert(w =~= Seq::<char>::empty());
    }
}

proof fn lemma_split_in_quote(a: Seq<char>, w: Seq<char>, q: char)
    requires
        split_run(a).quote == Some(q),
        !split_run(a).escape,
        forall|i: int| 0 <= i < w.len() ==> #[trigger] w[i] != q && w[i] != '\\',
    ensures
        split_run(a + w) == (SplitState { current: split_run(a).current + w, ..split_run(a) }),
    decreases w.len(),
{
    if w.len() == 0 {
        assert(a + w =~= a);
        assert(split_run(a).current + w =~= split_run(a).current);
    } else {
        lemma_split_in_quote(a, w.drop_last(), q);
        let c = w.last();
        assert((a + w).drop_last() =~= a + w.drop_last());
        assert((a + w).last() == c);
        let s0 = split_run(a + w.drop_last());
        assert(split_run(a + w) == split_step(s0, c));
        assert(s0.quote == Some(q) && !s0.escape);
        assert(c != q && c != '\\');
        assert(split_step(s0, c) == SplitState { current: s0.current.push(c), ..s0 });
        assert(split_run(a).current + w.drop_last() + seq![c] =~= split_run(a).current + w);
        assert(s0.current.push(c) =~= split_run(a).current + w);
    }
}

/// Inside a quoted word everything but the closing quote and a backslash is
/// kept as it is, the other kind of quote and spaces too: a plain program
/// name followed by a non-empty word `w` in double or single quotes (with
/// neither that quote nor a backslash in it) splits into exactly those two
/// words. (`echo "it's fine"` gives `echo` and `it's fine`.)
pub proof fn lemma_quotes_keep_other_quotes(prog: Seq<char>, w: Seq<char>, q: char)
    requires
        q == '"' || q == '\'',
        prog.len() > 0,
        forall|i: int| 0 <= i < prog.len() ==> plain_char(#[trigger] prog[i]),
        w.len() > 0,
        forall|i: int| 0 <= i < w.len() ==> #[trigger] w[i] != q && w[i] != '\\',
    ensures
        split_words(prog + seq![' ', q] + w + seq![q]) == Ok::<Seq<Seq<char>>, Seq<char>>(
            seq![prog, w],
        ),
{
    let line = prog + seq![' ', q] + w + seq![q];
    assert(plain_char(prog[0]));
    assert(line[0] == prog[0]);
    assert(trim_start(line) == line);
    assert(trim_end(line) == line);
    lemma_split_plain(prog);
    let a1 = prog.push(' ');
    assert(a1.drop_last() =~= prog);
    let a2 = a1.push(q);
    assert(a2.drop_last() =~= a1);
    assert(split_run(a1) == split_step(split_run(prog), ' '));
    assert(is_ws(' '));
    assert(split_run(a1) == (SplitState {
        args: seq![prog],
        current: Seq::empty(),
        quote: None,
        escape: false,
    }));
    assert(split_run(a2) == split_step(split_run(a1), q));
    assert(split_run(a2) == (SplitState {
        args: seq![prog],
        current: Seq::empty(),
        quote: Some(q),
        escape: false,
    }));
    lemma_split_in_quote(a2, w, q);
    assert(Seq::<char>::empty() + w =~= w);
    assert(a2 + w =~= prog + seq![' ', q] + w);
    assert(line.drop_last() =~= a2 + w);
    assert(line.last() == q);
    assert(seq![prog].push(w) =~= seq![prog, w]);
}

/// Splits a command line into words.
pub fn split_command_line(line: &str) -> (r: core::result::Result<Vec<String>, String>)
    ensures
        match split_words(line@) {
            Ok(words) => r matches Ok(v) && v@.map_values(|s: String| s@) == words,
            Err(m) => r matches Err(e) && e@ == m,
        },
{
    let raw = chars_of(line);
    let t = trim_vec(raw.as_slice());
    if t.len() == 0 {
        return Err(String::from_str("empty command"));
    }
    let mut args: Vec<String> = Vec::new();
    let mut current: Vec<char> = Vec::new();
    let mut quote: Option<char> = None;
    let mut escape = false;
    let mut i: usize = 0;
    while i < t.len()
        invariant
            i <= t@.len(),
            t@ == trim(line@),
            ({
                let s = split_run(t@.take(i as int));
                &&& args@.map_values(|x: String| x@) == s.args
                &&& current@ == s.current
                &&& quote == s.quote
                &&& escape == s.escape
            }),
        decreases t@.len() - i,
    {
        let ch = t[i];
        assert(t@.take(i + 1).drop_last() =~= t@.take(i as int));
        let ghost before = args@.map_values(|x: String| x@);
        if escape {
            current.push(ch);
            escape = false;
        } else if ch == '\\' {
            escape = true;
        } else if ch == '\'' || ch == '"' {
            match quote {
                Some(m) => if m == ch {
                    quote = None;
                } else {
                    current.push(ch);
                },
                None => {
                    quote = Some(ch);
                },
            }
        } else if is_ws_char(ch) && quote.is_none() {
            if current.len() > 0 {
                let word = string_of(current.as_slice());
                args.push(word);
                assert(args@.map_values(|x: String| x@) =~= before.push(current@));
                current = Vec::new();
            }
        } else {
            current.push(ch);
        }
        i = i + 1;
    }
    assert(t@.take(t@.len() as int) =~= t@);
    if escape {
        return Err(String::from_str("unterminated escape"));
    }
    if quote.is_some() {
        return Err(String::from_str("unterminated quote"));
    }
    if current.len() > 0 {
        let ghost before = args@.map_values(|x: String| x@);
        let word = string_of(current.as_slice());
        args.push(word);
        assert(args@.map_values(|x: String| x@) =~= before.push(current@));
    }
    if args.len() == 0 {
        return Err(String::from_str("empty command"));
    }
    Ok(args)
}

/// The last component of a path, as `Path::file_name` gives it: `None` for
/// a path without one or ending in `..`.
pub open spec fn file_name(path: Seq<char>) -> Option<Seq<char>> {
    let comps = named_components(split_on(path, '/'));
    if comps.len() == 0 || comps.last() == seq!['.', '.'] {
        None
    } else {
        Some(comps.last())
    }
}

/// Whether the allowlist lets `program` run: an empty list allows every
/// program; otherwise an entry must equal the program or its file name.
pub open spec fn program_allowed(program: Seq<char>, allowlist: Seq<Seq<char>>) -> bool {
    let candidate = match file_name(program) {
        Some(n) => n,
        None => program,
    };
    allowlist.len() == 0 || exists|i: int|
        0 <= i < allowlist.len() && (allowlist[i] == program || allowlist[i] == candidate)
}

fn file_name_of(program: &str) -> (r: Vec<char>)
    ensures
        r@ == match file_name(program@) {
            Some(n) => n,
            None => program@,
        },
{
    let v = chars_of(program);
    let parts = split_on_char(v.as_slice(), '/');
    let ghost all = split_on(program@, '/');
    let mut last: Vec<char> = Vec::new();
    let mut count: usize = 0;
    let mut i: usize = 0;
    while i < parts.len()
        invariant
            i <= parts@.len(),
            parts@.map_values(|l: Vec<char>| l@) == all,
            count == 0 <==> named_components(all.take(i as int)).len() == 0,
            count > 0 ==> last@ == named_components(all.take(i as int)).last(),
        decreases parts@.len() - i,
    {
        assert(all.take(i + 1).drop_last() =~= all.take(i as int));
        assert(all.take(i + 1).last() == parts@[i as int]@);
        let p = &parts[i];
        let dot = p.len() == 1 && p[0] == '.';
        if p.len() == 0 || dot {
            assert(p@.len() == 0 || p@ == seq!['.']) by {
                if dot {
                    assert(p@ =~= seq!['.']);
                }
            }
        } else {
            assert(p@ != seq!['.']) by {
                if p@ == seq!['.'] {
                    assert(p@.len() == 1 && p@[0] == '.');
                }
            }
            last = crate::text::slice_vec(p.as_slice(), 0, p.len());
            assert(last@ =~= p@);
            count = 1;
        }
        i = i + 1;
    }
    assert(all.take(parts@.len() as int) =~= all);
    let dotdot = last.len() == 2 && last[0] == '.' && last[1] == '.';
    proof {
        if last@ == seq!['.', '.'] {
            assert(last@.len() == 2 && last@[0] == '.' && last@[1] == '.');
        }
        if dotdot {
            assert(last@ =~= seq!['.', '.']);
        }
    }
    if count == 0 || dotdot {
        v
    } else {
        last
    }
}

/// Whether the allowlist lets `program` run.
pub fn command_allowed(program: &str, allowlist: &[String]) -> (r: bool)
    ensures
        r == program_allowed(program@, allowlist@.map_values(|s: String| s@)),
{
    let ghost list = allowlist@.map_values(|s: String| s@);
    if allowlist.len() == 0 {
        return true;
    }
    let candidate = file_name_of(program);
    let prog = chars_of(program);
    let mut i: usize = 0;
    while i < allowlist.len()
        invariant
            i <= allowlist@.len(),
            list == allowlist@.map_values(|s: String| s@),
            prog@ == program@,
            candidate@ == match file_name(program@) {
                Some(n) => n,
                None => program@,
            },
            forall|j: int| 0 <= j < i ==> !(list[j] == program@ || list[j] == candidate@),
        decreases allowlist@.len() - i,
    {
        let entry = chars_of(allowlist[i].as_str());
        if eq_chars(entry.as_slice(), prog.as_slice()) || eq_chars(entry.as_slice(), candidate.as_slice()) {
            assert(list[i as int] == entry@);
            return true;
        }
        assert(list[i as int] == entry@);
        i = i + 1;
    }
    false
}

/// What a command session does with a request.
pub enum RequestStep {
    /// Answer at once, and queue these messages for later.
    Reply { reply: CommandMessage, queued: Vec<CommandMessage> },
    /// Start `program` with `args`.
    Spawn { program: String, args: Vec<String> },
}

/// The command session: whether a command is running, for which request,
/// and the messages waiting to be sent.
pub struct CommandSession {
    allowlist: Vec<String>,
    session_active: bool,
    current_request: Option<u32>,
}

impl CommandSession {
    pub closed spec fn active(&self) -> bool {
        self.session_active
    }

    pub closed spec fn current(&self) -> Option<u32> {
        self.current_request
    }

    pub closed spec fn allowed(&self) -> Seq<Seq<char>> {
        self.allowlist@.map_values(|s: String| s@)
    }

    /// An idle session with this allowlist.
    pub fn new(allowlist: Vec<String>) -> (r: CommandSession)
        ensures
            !r.active(),
            r.current() is None,
            r.allowed() == allowlist@.map_values(|s: String| s@),
    {
        CommandSession { allowlist, session_active: false, current_request: None }
    }

    /// Decides what to do with request `request_id` for `cmd`: busy while a
    /// command runs; an error and exit code 1 for a line that does not split
    /// or a program the allowlist refuses; otherwise start the program.
    pub fn begin_request(&self, request_id: u32, cmd: &str) -> (r: RequestStep)
        ensures
            self.active() ==> (r matches RequestStep::Reply { reply, queued } && reply@ == (MessageView::Busy { request_id })
                && queued@.len() == 0),
            !self.active() ==> match split_words(cmd@) {
                Err(e) => r matches RequestStep::Reply { reply, queued } && reply@ == (MessageView::Error {
                    request_id: Some(request_id),
                    message: "command parse error: "@ + e,
                }) && queued@.len() == 2 && queued@[0]@ == reply@ && queued@[1]@ == (MessageView::Exit { request_id, code: 1 }),
                Ok(words) => if program_allowed(words[0], self.allowed()) {
                    r matches RequestStep::Spawn { program, args } && program@ == words[0] && args@.map_values(|s: String| s@) == words.drop_first()
                } else {
                    r matches RequestStep::Reply { reply, queued } && reply@ == (MessageView::Error {
                        request_id: Some(request_id),
                        message: "command not allowed: "@ + words[0],
                    }) && queued@.len() == 2 && queued@[0]@ == reply@ && queued@[1]@ == (MessageView::Exit { request_id, code: 1 })
                },
            },
    {
        if self.session_active {
            return RequestStep::Reply { reply: CommandMessage::Busy { request_id }, queued: Vec::new() };
        }
        let mut tokens = match split_command_line(cmd) {
            Ok(t) => t,
            Err(e) => {
                let msg = crate::concat2("command parse error: ", e.as_str());
                return refusal(request_id, msg);
            },
        };
        let ghost words = tokens@.map_values(|s: String| s@);
        let program = tokens.remove(0);
        assert(tokens@.map_values(|s: String| s@) =~= words.drop_first());
        if !command_allowed(program.as_str(), self.allowlist.as_slice()) {
            let msg = crate::concat2("command not allowed: ", program.as_str());
            return refusal(request_id, msg);
        }
        RequestStep::Spawn { program, args: tokens }
    }

    /// The program of request `request_id` started: acknowledge it and mark
    /// the session busy.
    pub fn spawn_succeeded(&mut self, request_id: u32) -> (r: CommandMessage)
        ensures
            r@ == (MessageView::Ack { request_id }),
            final(self).active(),
            final(self).current() == Some(request_id),
            final(self).allowed() == old(self).allowed(),
    {
        self.session_active = true;
        self.current_request = Some(request_id);
        CommandMessage::Ack { request_id }
    }

    /// The program of request `request_id` could not start: an error naming
    /// it, then exit code 1.
    pub fn spawn_failed(&self, request_id: u32, program: &str, reason: &str) -> (r: RequestStep)
        ensures
            r matches RequestStep::Reply { reply, queued } && reply@ == (MessageView::Error {
                request_id: Some(request_id),
                message: "failed to spawn '"@ + program@ + "': "@ + reason@,
            }) && queued@.len() == 2 && queued@[0]@ == reply@ && queued@[1]@ == (MessageView::Exit { request_id, code: 1 }),
    {
        let mut msg = crate::concat3("failed to spawn '", program, "': ");
        msg.append(reason);
        refusal(request_id, msg)
    }

    /// A message is about to be sent: an exit ends the session.
    pub fn note_outgoing(&mut self, msg: &CommandMessage)
        ensures
            msg@ is Exit ==> !final(self).active() && final(self).current() is None,
            !(msg@ is Exit) ==> final(self).active() == old(self).active() && final(self).current() == old(self).current(),
            final(self).allowed() == old(self).allowed(),
    {
        match msg {
            CommandMessage::Exit { .. } => {
                self.session_active = false;
                self.current_request = None;
            },
            _ => {},
        }
    }
}

/// An error reply for `request_id`, queued again with exit code 1 after it.
fn refusal(request_id: u32, message: String) -> (r: RequestStep)
    ensures
        r matches RequestStep::Reply { reply, queued } && reply@ == (MessageView::Error {
            request_id: Some(request_id),
            message: message@,
        }) && queued@.len() == 2 && queued@[0]@ == reply@ && queued@[1]@ == (MessageView::Exit { request_id, code: 1 }),
{
    let copy = message.clone();
    let mut queued: Vec<CommandMessage> = Vec::new();
    queued.push(CommandMessage::Error { request_id: Some(request_id), message: copy });
    queued.push(CommandMessage::Exit { request_id, code: 1 });
    RequestStep::Reply { reply: CommandMessage::Error { request_id: Some(request_id), message }, queued }
}

} // verus!
