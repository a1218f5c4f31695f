use vstd::prelude::*;
use std::collections::VecDeque;

use crate::Result;
use vstd::utf8::encode_utf8;

verus! {

/// Scripted serial port: hands out prepared reads and records writes.
pub struct FakeSerialPort {
    script: VecDeque<Result<String>>,
    writes: Vec<String>,
}

impl FakeSerialPort {
    /// Reads that are still to come, in order.
    pub closed spec fn pending(&self) -> Seq<Result<String>> {
        self.script@
    }

    /// Lines written so far, in order.
    pub closed spec fn written(&self) -> Seq<String> {
        self.writes@
    }

    pub fn new(script: Vec<Result<String>>) -> (r: Self)
        ensures
            r.pending() == script@,
            r.written() == Seq::<String>::empty(),
    {
        let ghost all = script@;
        let mut queue: VecDeque<Result<String>> = VecDeque::new();
        let mut rest = script;
        let mut stack: Vec<Result<String>> = Vec::new();
        // reverse once so that popping from `stack` yields the script in order
        while rest.len() > 0
            invariant
                all == rest@ + stack@.reverse(),
            decreases rest@.len(),
        {
            let item = rest.pop().unwrap();
            stack.push(item);
            assert(all =~= rest@ + stack@.reverse());
        }
        while stack.len() > 0
            invariant
                all == queue@ + stack@.reverse(),
            decreases stack@.len(),
        {
            let item = stack.pop().unwrap();
            queue.push_back(item);
            assert(all =~= queue@ + stack@.reverse());
        }
        assert(queue@ =~= all);
        FakeSerialPort { script: queue, writes: Vec::new() }
    }

    /// Records one outgoing line.
    pub fn send_command_line(&mut self, line: &str) -> (r: Result<()>)
        ensures
            r is Ok,
            final(self).written().len() == old(self).written().len() + 1,
            final(self).written().drop_last() == old(self).written(),
            final(self).written().last()@ == line@,
            final(self).pending() == old(self).pending(),
    {
        let owned = line.to_owned();
        self.writes.push(owned);
        Ok(())
    }

    /// Hands out the next scripted read; `Ok(0)` once the script is used up.
    pub fn read_message_line(&mut self, line_buffer: &mut String) -> (r: Result<usize>)
        ensures
            old(self).pending().len() == 0 ==> r == Ok::<usize, crate::Error>(0usize)
                && final(self).pending() == old(self).pending()
                && *final(line_buffer) == *old(line_buffer),
            old(self).pending().len() > 0 ==> final(self).pending() == old(self).pending().drop_first()
                && match old(self).pending()[0] {
                Ok(line) => *final(line_buffer) == line && r == Ok::<usize, crate::Error>(
                    encode_utf8(line@).len() as usize,
                ),
                Err(e) => r == Err::<usize, crate::Error>(e) && *final(line_buffer) == *old(
                    line_buffer,
                ),
            },
            final(self).written() == old(self).written(),
    {
        match self.script.pop_front() {
            Some(Ok(line)) => {
                *line_buffer = line;
                Ok(line_buffer.as_str().len())
            },
            Some(Err(e)) => Err(e),
            None => Ok(0),
        }
    }

    pub fn writes(&self) -> (r: &[String])
        ensures
            r@ == self.written(),
    {
        self.writes.as_slice()
    }
}

} // verus!
