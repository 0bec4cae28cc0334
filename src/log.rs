//! The replicated log: an ordered, append-only sequence of entries whose
//! indices start at 1.

use vstd::prelude::*;

verus! {

/// One entry of the log: the term in which a leader created it and the
/// command it carries (`None` for a no-op).
#[derive(Clone, Debug)]
pub struct LogEntry {
    pub term: u64,
    pub command: Option<Vec<u8>>,
}

/// Why a read of the log failed.
#[derive(Clone, Copy, Debug, PartialEq, Eq, Structural)]
pub enum LogError {
    /// No entry stands at the index asked for.
    NotFound,
}

/// The term of the entry at 1-based `index` of `entries`, or 0 where no entry
/// stands there (index 0 is the empty prefix).
pub open spec fn term_at(entries: Seq<LogEntry>, index: int) -> u64 {
    if 1 <= index <= entries.len() {
        entries[index - 1].term
    } else {
        0
    }
}

/// The command of an entry as a sequence of bytes.
pub open spec fn command_view(e: LogEntry) -> Option<Seq<u8>> {
    match e.command {
        Some(c) => Some(c@),
        None => None,
    }
}

/// A copy of `bytes`.
fn copy_bytes(bytes: &Vec<u8>) -> (r: Vec<u8>)
    ensures
        r@ == bytes@,
{
    let mut out: Vec<u8> = Vec::new();
    let mut i: usize = 0;
    while i < bytes.len()
        invariant
            i <= bytes@.len(),
            out@ == bytes@.subrange(0, i as int),
        decreases bytes@.len() - i,
    {
        out.push(bytes[i]);
        i = i + 1;
        assert(out@ =~= bytes@.subrange(0, i as int));
    }
    assert(bytes@.subrange(0, i as int) =~= bytes@);
    out
}

/// A copy of entry `e`.
pub fn copy_entry(e: &LogEntry) -> (r: LogEntry)
    ensures
        r.term == e.term,
        command_view(r) == command_view(*e),
{
    match &e.command {
        None => LogEntry { term: e.term, command: None },
        Some(c) => LogEntry { term: e.term, command: Some(copy_bytes(c)) },
    }
}

/// An in-memory log. Entry `i` (1-based) is `self@[i - 1]`.
pub struct Log {
    entries: Vec<LogEntry>,
}

impl View for Log {
    type V = Seq<LogEntry>;

    closed spec fn view(&self) -> Seq<LogEntry> {
        self.entries@
    }
}

impl Log {
    /// Every index of the log fits in a `u64`, with room for one more.
    pub open spec fn wf(&self) -> bool {
        self@.len() < u64::MAX
    }

    /// An empty log.
    pub fn new() -> (r: Log)
        ensures
            r@ == Seq::<LogEntry>::empty(),
            r.wf(),
    {
        Log { entries: Vec::new() }
    }

    /// The index of the last entry, 0 when the log is empty.
    pub fn last_index(&self) -> (r: u64)
        requires
            self.wf(),
        ensures
            r == self@.len(),
    {
        self.entries.len() as u64
    }

    /// The term of the last entry, 0 when the log is empty.
    pub fn last_term(&self) -> (r: u64)
        ensures
            r == term_at(self@, self@.len() as int),
    {
        if self.entries.len() == 0 {
            0
        } else {
            self.entries[self.entries.len() - 1].term
        }
    }

    /// The term of the entry at `index`, 0 where there is none.
    pub fn term_of(&self, index: u64) -> (r: u64)
        ensures
            r == term_at(self@, index as int),
    {
        if 1 <= index && index <= self.entries.len() as u64 {
            self.entries[(index - 1) as usize].term
        } else {
            0
        }
    }

    /// The entry at `index`; `NotFound` where the index is 0 or past the end.
    pub fn read(&self, index: u64) -> (r: Result<&LogEntry, LogError>)
        ensures
            match r {
                Ok(e) => 1 <= index <= self@.len() && *e == self@[index - 1],
                Err(err) => err == LogError::NotFound && !(1 <= index <= self@.len()),
            },
    {
        if 1 <= index && index <= self.entries.len() as u64 {
            Ok(&self.entries[(index - 1) as usize])
        } else {
            Err(LogError::NotFound)
        }
    }

    /// Appends an entry and returns its index, one past the former last index.
    pub fn append(&mut self, term: u64, command: Option<Vec<u8>>) -> (r: u64)
        requires
            old(self)@.len() + 1 < u64::MAX,
        ensures
            final(self)@ == old(self)@.push(LogEntry { term, command }),
            r == final(self)@.len(),
            final(self).wf(),
    {
        self.entries.push(LogEntry { term, command });
        self.entries.len() as u64
    }

    /// Appends `tail`, in order, after the last entry.
    pub fn append_all(&mut self, tail: Vec<LogEntry>)
        requires
            old(self)@.len() + tail@.len() < u64::MAX,
        ensures
            final(self)@ == old(self)@ + tail@,
            final(self).wf(),
    {
        let mut tail = tail;
        self.entries.append(&mut tail);
    }

    /// Drops every entry past index `len`.
    pub fn truncate(&mut self, len: u64)
        requires
            len <= old(self)@.len(),
        ensures
            final(self)@ == old(self)@.subrange(0, len as int),
    {
        self.entries.truncate(len as usize);
    }
}

} // verus!
