//! Recent log lines with absolute sequence numbers.

use vstd::prelude::*;

use crate::text::{texts, texts_push};

verus! {

/// The number of recent log lines kept for each resource of an instance.
pub const LOG_RING: usize = 400;

/// A ring as a mathematical object: the lines kept, and the sequence number of
/// the first of them.
pub struct RingV {
    pub lines: Seq<Seq<char>>,
    pub start: nat,
}

impl RingV {
    /// The sequence number that the next line will get.
    pub open spec fn end(self) -> nat {
        self.start + self.lines.len()
    }

    /// Whether the line with the sequence number is kept.
    pub open spec fn holds(self, n: int) -> bool {
        self.start <= n < self.end()
    }

    /// The line with the sequence number.
    pub open spec fn line(self, n: int) -> Seq<char> {
        self.lines[n - self.start]
    }

    /// The ring after more lines: the newest are kept, as many as fit.
    pub open spec fn appended(self, incoming: Seq<Seq<char>>) -> RingV {
        let all = self.lines + incoming;
        let excess = if all.len() > LOG_RING {
            all.len() - LOG_RING
        } else {
            0
        };
        RingV { lines: all.skip(excess), start: (self.start + excess) as nat }
    }

    /// The kept lines with a sequence number of at least `n`.
    pub open spec fn newer(self, n: nat) -> Seq<Seq<char>> {
        if n <= self.start {
            self.lines
        } else if n < self.end() {
            self.lines.skip(n - self.start)
        } else {
            Seq::empty()
        }
    }

    /// The ring that no line was appended to yet.
    pub open spec fn empty() -> RingV {
        RingV { lines: Seq::empty(), start: 0 }
    }
}

/// A capped ring of recent log lines, so that a reader can fetch only the lines
/// that are newer than a cursor that it holds.
#[derive(Debug)]
pub struct LogRing {
    lines: Vec<String>,
    start: u64,
}

impl View for LogRing {
    type V = RingV;

    closed spec fn view(&self) -> RingV {
        RingV { lines: texts(self.lines@), start: self.start as nat }
    }
}

impl LogRing {
    /// The ring that no line was appended to yet.
    pub fn new() -> (r: LogRing)
        ensures
            r@ == RingV::empty(),
    {
        let r = LogRing { lines: Vec::new(), start: 0 };
        assert(r@.lines =~= Seq::empty());
        r
    }

    /// Appends lines and drops the oldest beyond what the ring holds; the others
    /// keep their sequence numbers.
    pub fn append(&mut self, incoming: Vec<String>)
        requires
            old(self)@.end() + incoming@.len() <= u64::MAX,
        ensures
            final(self)@ == old(self)@.appended(texts(incoming@)),
    {
        let ghost before = self.lines@;
        let mut incoming = incoming;
        let ghost added = incoming@;
        self.lines.append(&mut incoming);
        assert(texts(self.lines@) =~= texts(before) + texts(added));
        if self.lines.len() > LOG_RING {
            let excess: usize = self.lines.len() - LOG_RING;
            let ghost all = self.lines@;
            self.lines = self.lines.split_off(excess);
            self.start = self.start + excess as u64;
            assert(texts(self.lines@) =~= texts(all).skip(excess as int));
        } else {
            assert(texts(self.lines@).skip(0) =~= texts(self.lines@));
        }
    }

    /// The sequence number that the next line will get.
    pub fn end(&self) -> (r: u64)
        requires
            self@.end() <= u64::MAX,
        ensures
            r == self@.end(),
    {
        self.start + self.lines.len() as u64
    }

    /// The sequence number of the first line kept.
    pub fn start(&self) -> (r: u64)
        ensures
            r == self@.start,
    {
        self.start
    }

    /// Whether `n` more lines can be numbered.
    pub fn room(&self, n: u64) -> (r: bool)
        ensures
            r == (self@.end() + n <= u64::MAX),
    {
        let len: usize = self.lines.len();
        (len as u64) <= u64::MAX - n && self.start <= u64::MAX - n - len as u64
    }

    /// The number of lines kept.
    pub fn len(&self) -> (r: usize)
        ensures
            r == self@.lines.len(),
    {
        self.lines.len()
    }

    /// The kept lines with a sequence number of at least `since`, and the cursor
    /// behind them.
    pub fn since(&self, since: u64) -> (r: (Vec<String>, u64))
        requires
            self@.end() <= u64::MAX,
        ensures
            texts(r.0@) == self@.newer(since as nat),
            r.1 == self@.end(),
    {
        broadcast use texts_push;

        let skip: usize = if since <= self.start {
            0
        } else if since - self.start < self.lines.len() as u64 {
            (since - self.start) as usize
        } else {
            self.lines.len()
        };
        let mut r: Vec<String> = Vec::new();
        let mut i: usize = skip;
        assert(texts(r@) =~= self@.lines.subrange(skip as int, skip as int));
        while i < self.lines.len()
            invariant
                skip <= i <= self.lines@.len(),
                self@.lines == texts(self.lines@),
                texts(r@) == self@.lines.subrange(skip as int, i as int),
            decreases self.lines@.len() - i,
        {
            r.push(self.lines[i].clone());
            assert(self@.lines.subrange(skip as int, i as int).push(self.lines@[i as int]@)
                =~= self@.lines.subrange(skip as int, i + 1));
            i += 1;
        }
        assert(self@.lines.subrange(skip as int, i as int) =~= self@.newer(since as nat));
        (r, self.end())
    }
}

/// A line that is still kept after an append has the sequence number that it had.
pub proof fn sequence_stable(ring: RingV, incoming: Seq<Seq<char>>, n: int)
    requires
        ring.holds(n),
        ring.appended(incoming).holds(n),
    ensures
        ring.appended(incoming).line(n) == ring.line(n),
{
}

/// The end counts every line that was ever appended, and no more lines are kept
/// than the ring holds.
pub proof fn appended_counts(ring: RingV, incoming: Seq<Seq<char>>)
    ensures
        ring.appended(incoming).end() == ring.end() + incoming.len(),
        ring.appended(incoming).lines.len() <= LOG_RING,
        ring.appended(incoming).start >= ring.start,
{
}

/// A reader that holds the cursor of its last fetch gets the lines appended since,
/// as far as they are kept, and nothing where there are none.
pub proof fn cursor_reads_new(ring: RingV, incoming: Seq<Seq<char>>)
    ensures
        ring.newer(ring.end()) == Seq::<Seq<char>>::empty(),
        incoming.len() <= LOG_RING ==> ring.appended(incoming).newer(ring.end()) == incoming,
        incoming.len() > LOG_RING ==> ring.appended(incoming).newer(ring.end()) == incoming.skip(
            incoming.len() - LOG_RING,
        ),
{
    let all = ring.lines + incoming;
    let next = ring.appended(incoming);
    if incoming.len() <= LOG_RING {
        assert(next.newer(ring.end()) =~= incoming);
    } else {
        assert(next.newer(ring.end()) =~= incoming.skip(incoming.len() - LOG_RING));
    }
}

} // verus!
