use vstd::prelude::*;

verus! {

use std::collections::VecDeque;

/// A half-open range of positions, of whatever ordered measure a caller
/// tracks.
pub struct Span<T: PartialEq + PartialOrd> {
    pub start: T,
    pub end: T,
}

impl<T: PartialEq + PartialOrd> Span<T> {
    /// The span from `start` to `end`.
    pub fn new(start: T, end: T) -> (r: Span<T>)
        ensures
            r.start == start,
            r.end == end,
    {
        Span { start, end }
    }
}

/// What the terminal remembers of past input: the lines it can redraw,
/// and the commands the user can recall, each kept under a cap.
pub struct TerminalBackBuffer {
    pub history: (usize, VecDeque<String>),
    pub buffer: (usize, Vec<String>),
}

impl TerminalBackBuffer {
    /// An empty back buffer with the given caps: `history_capacity`
    /// recallable commands, `buffer_capacity` redrawable lines.
    pub fn new(history_capacity: usize, buffer_capacity: usize) -> (r: TerminalBackBuffer)
        ensures
            r.history.0 == history_capacity,
            r.history.1@.len() == 0,
            r.buffer.0 == buffer_capacity,
            r.buffer.1@.len() == 0,
    {
        TerminalBackBuffer {
            history: (history_capacity, VecDeque::new()),
            buffer: (buffer_capacity, Vec::new()),
        }
    }

    /// Records one entered command: the prompt and the command, joined,
    /// go to the back of the line buffer, and the command alone to the
    /// back of the history; when a cap is reached the oldest entry of
    /// that store leaves first.
    pub fn push_command(&mut self, prompt: String, command: String)
        ensures
            final(self).history.0 == old(self).history.0,
            final(self).buffer.0 == old(self).buffer.0,
            ({
                let kept = if old(self).buffer.1@.len() > old(self).buffer.0 {
                    old(self).buffer.1@.skip(1)
                } else {
                    old(self).buffer.1@
                };
                &&& final(self).buffer.1@.len() == kept.len() + 1
                &&& (forall|i: int| 0 <= i < kept.len() ==> final(self).buffer.1@[i] == kept[i])
                &&& final(self).buffer.1@[kept.len() as int]@ == prompt@ + command@
            }),
            ({
                let kept = if old(self).history.1@.len() == old(self).history.0 && old(
                    self,
                ).history.1@.len() > 0 {
                    old(self).history.1@.skip(1)
                } else {
                    old(self).history.1@
                };
                &&& final(self).history.1@ == kept.push(command)
            }),
    {
        if self.buffer.1.len() > self.buffer.0 {
            self.buffer.1.remove(0);
            proof {
                assert(self.buffer.1@ =~= old(self).buffer.1@.skip(1));
            }
        }
        let line = prompt.concat(command.as_str());
        self.buffer.1.push(line);
        if self.history.1.len() == self.history.0 {
            self.history.1.pop_front();
        }
        self.history.1.push_back(command);
    }
}

impl Default for TerminalBackBuffer {
    /// The caps the terminal boots with: 250 commands of history, 50
    /// redrawable lines.
    fn default() -> (r: TerminalBackBuffer)
        ensures
            r.history.0 == 250,
            r.history.1@.len() == 0,
            r.buffer.0 == 50,
            r.buffer.1@.len() == 0,
    {
        TerminalBackBuffer::new(250, 50)
    }
}

} // verus!
