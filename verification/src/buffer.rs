//! A channel buffer: one piece of UI-owned display state.
//!
//! Only the UI thread may touch a buffer. A worker that wants a line shown
//! never writes it here directly: it submits an action, and the drain driver
//! appends during its own turn on the UI thread. The line log is append-only,
//! so it records the order in which submitted work actually ran.

use vstd::prelude::*;

verus! {

/// The display state of one channel: its name and its lines, oldest first.
pub struct ChannelBuffer {
    name: String,
    content: Vec<String>,
}

impl ChannelBuffer {
    /// The buffer's name.
    pub closed spec fn name_spec(&self) -> String {
        self.name
    }

    /// The lines shown, oldest first.
    pub closed spec fn lines(&self) -> Seq<String> {
        self.content@
    }

    /// A new, empty buffer.
    pub fn new(name: String) -> (b: ChannelBuffer)
        ensures
            b.name_spec() == name,
            b.lines() == Seq::<String>::empty(),
    {
        ChannelBuffer { name, content: Vec::new() }
    }

    /// Append a line behind every line already shown. Lines are never
    /// reordered or dropped: what was shown stays, in place.
    pub fn add_line(&mut self, line: String)
        ensures
            final(self).name_spec() == old(self).name_spec(),
            final(self).lines() == old(self).lines().push(line),
    {
        self.content.push(line);
    }

    /// How many lines are shown.
    pub fn line_count(&self) -> (n: usize)
        ensures
            n == self.lines().len(),
    {
        self.content.len()
    }

    /// The line at `i`, oldest first.
    pub fn line_at(&self, i: usize) -> (l: &String)
        requires
            i < self.lines().len(),
        ensures
            *l == self.lines()[i as int],
    {
        &self.content[i]
    }
}

} // verus!
