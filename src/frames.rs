//! Reassembles newline-delimited records from the chunks of an unbounded
//! byte stream, and decides what the reading loop does on each stream event.
use vstd::prelude::*;

verus! {

/// The line terminator.
pub const NEWLINE: u8 = 10;

/// Reading `s` after a partial line `cur`: the lines completed, and the
/// partial line left over.
pub open spec fn scan(cur: Seq<u8>, s: Seq<u8>) -> (Seq<Seq<u8>>, Seq<u8>)
    decreases s.len(),
{
    if s.len() == 0 {
        (Seq::empty(), cur)
    } else {
        let (lines, rest) = scan(cur, s.drop_last());
        if s.last() == NEWLINE {
            (lines.push(rest), Seq::empty())
        } else {
            (lines, rest.push(s.last()))
        }
    }
}

/// The chunks one after the other.
pub open spec fn joined(chunks: Seq<Seq<u8>>) -> Seq<u8>
    decreases chunks.len(),
{
    if chunks.len() == 0 {
        Seq::empty()
    } else {
        joined(chunks.drop_last()) + chunks.last()
    }
}

/// Each line followed by a newline.
pub open spec fn framed(lines: Seq<Seq<u8>>) -> Seq<u8>
    decreases lines.len(),
{
    if lines.len() == 0 {
        Seq::empty()
    } else {
        framed(lines.drop_last()) + lines.last().push(NEWLINE)
    }
}

/// Feeding the chunks one by one after a partial line `cur`: every line
/// emitted, and the partial line left over.
pub open spec fn feed(cur: Seq<u8>, chunks: Seq<Seq<u8>>) -> (Seq<Seq<u8>>, Seq<u8>)
    decreases chunks.len(),
{
    if chunks.len() == 0 {
        (Seq::empty(), cur)
    } else {
        let (lines, rest) = feed(cur, chunks.drop_last());
        let (more, left) = scan(rest, chunks.last());
        (lines + more, left)
    }
}

/// The bytes of a vector of lines.
pub open spec fn lines_view(v: Seq<Vec<u8>>) -> Seq<Seq<u8>> {
    v.map_values(|l: Vec<u8>| l@)
}

proof fn lemma_scan_append(cur: Seq<u8>, a: Seq<u8>, b: Seq<u8>)
    ensures
        scan(cur, a + b) == ({
            let (l1, c1) = scan(cur, a);
            let (l2, c2) = scan(c1, b);
            (l1 + l2, c2)
        }),
    decreases b.len(),
{
    if b.len() == 0 {
        assert(a + b =~= a);
        let (l1, c1) = scan(cur, a);
        assert(l1 + Seq::<Seq<u8>>::empty() =~= l1);
    } else {
        lemma_scan_append(cur, a, b.drop_last());
        assert((a + b).drop_last() =~= a + b.drop_last());
        assert((a + b).last() == b.last());
        let (l1, c1) = scan(cur, a);
        let (l2, c2) = scan(c1, b.drop_last());
        assert((l1 + l2).push(c2) =~= l1 + l2.push(c2));
    }
}

proof fn lemma_feed_is_scan(cur: Seq<u8>, chunks: Seq<Seq<u8>>)
    ensures
        feed(cur, chunks) == scan(cur, joined(chunks)),
    decreases chunks.len(),
{
    if chunks.len() > 0 {
        lemma_feed_is_scan(cur, chunks.drop_last());
        lemma_scan_append(cur, joined(chunks.drop_last()), chunks.last());
    }
}

proof fn lemma_scan_line(line: Seq<u8>)
    requires
        !line.contains(NEWLINE),
    ensures
        scan(Seq::empty(), line) == (Seq::<Seq<u8>>::empty(), line),
    decreases line.len(),
{
    if line.len() > 0 {
        assert(!line.drop_last().contains(NEWLINE)) by {
            if line.drop_last().contains(NEWLINE) {
                let i = choose|i: int| 0 <= i < line.drop_last().len() && line.drop_last()[i] == NEWLINE;
                assert(line[i] == NEWLINE);
            }
        }
        lemma_scan_line(line.drop_last());
        assert(line.last() != NEWLINE) by {
            assert(line[line.len() - 1] == line.last());
        }
        assert(line.drop_last().push(line.last()) =~= line);
    }
}

proof fn lemma_scan_framed(lines: Seq<Seq<u8>>)
    requires
        forall|i: int| 0 <= i < lines.len() ==> !(#[trigger] lines[i]).contains(NEWLINE),
    ensures
        scan(Seq::empty(), framed(lines)) == (lines, Seq::<u8>::empty()),
    decreases lines.len(),
{
    if lines.len() == 0 {
        assert(lines =~= Seq::<Seq<u8>>::empty());
    } else {
        let init = lines.drop_last();
        let last = lines.last();
        assert forall|i: int| 0 <= i < init.len() implies !(#[trigger] init[i]).contains(NEWLINE) by {
            assert(init[i] == lines[i]);
        }
        lemma_scan_framed(init);
        lemma_scan_append(Seq::empty(), framed(init), last.push(NEWLINE));
        assert(!lines[lines.len() - 1].contains(NEWLINE));
        lemma_scan_line(last);
        assert(last.push(NEWLINE).drop_last() =~= last);
        assert(init + seq![last] =~= lines);
    }
}

/// Round trip: newline-terminated lines cut into chunks anywhere (inside a
/// line or on a line boundary) come out of the decoder as exactly those
/// lines, in order, with nothing left over.
pub proof fn frames_round_trip(lines: Seq<Seq<u8>>, chunks: Seq<Seq<u8>>)
    requires
        forall|i: int| 0 <= i < lines.len() ==> !(#[trigger] lines[i]).contains(NEWLINE),
        joined(chunks) == framed(lines),
    ensures
        feed(Seq::empty(), chunks) == (lines, Seq::<u8>::empty()),
{
    lemma_feed_is_scan(Seq::empty(), chunks);
    lemma_scan_framed(lines);
}

/// Why the reading loop stopped.
#[derive(Clone, Copy, Debug, PartialEq, Eq, Structural)]
pub enum StopReason {
    /// The byte source has no more chunks.
    StreamTerminated,
    /// The shared scope was cancelled.
    Cancelled,
}

/// What the reading loop observed while it waited.
#[derive(Debug)]
pub enum StreamEvent {
    /// A chunk of payload bytes.
    Chunk(Vec<u8>),
    /// A frame without payload (trailers).
    Trailers,
    /// A frame that could not be read; the stream goes on.
    ReadError,
    /// The source has no more chunks.
    End,
    /// The scope was cancelled.
    Cancelled,
}

/// What the reading loop does next.
#[derive(Debug)]
pub enum DecodeStep {
    /// Decode these complete lines, in order, and wait for more.
    Lines(Vec<Vec<u8>>),
    /// Stop reading.
    Stop(StopReason),
}

/// The decoder's state: the partial line read so far, and whether it stopped.
pub struct EventFrameDecoder {
    buffer: Vec<u8>,
    stopped: Option<StopReason>,
}

impl EventFrameDecoder {
    /// The partial line held.
    pub closed spec fn pending(&self) -> Seq<u8> {
        self.buffer@
    }

    /// Why the decoder stopped, if it did.
    pub closed spec fn stopped_view(&self) -> Option<StopReason> {
        self.stopped
    }

    /// A decoder that holds nothing and has not stopped.
    pub fn new() -> (r: Self)
        ensures
            r.pending() == Seq::<u8>::empty(),
            r.stopped_view() is None,
    {
        EventFrameDecoder { buffer: Vec::new(), stopped: None }
    }

    /// Why the decoder stopped, if it did.
    pub fn stopped(&self) -> (r: Option<StopReason>)
        ensures
            r == self.stopped_view(),
    {
        self.stopped
    }

    /// Appends a chunk and returns the lines it completes, without their
    /// newlines; the rest waits for the next chunk.
    pub fn push_chunk(&mut self, chunk: &[u8]) -> (lines: Vec<Vec<u8>>)
        ensures
            (lines_view(lines@), final(self).pending()) == scan(old(self).pending(), chunk@),
            final(self).stopped_view() == old(self).stopped_view(),
    {
        let mut lines: Vec<Vec<u8>> = Vec::new();
        let mut i: usize = 0;
        assert(chunk@.subrange(0, 0) =~= Seq::<u8>::empty());
        assert(lines_view(lines@) =~= Seq::<Seq<u8>>::empty());
        while i < chunk.len()
            invariant
                i <= chunk@.len(),
                self.stopped == old(self).stopped,
                (lines_view(lines@), self.buffer@) == scan(
                    old(self).buffer@,
                    chunk@.subrange(0, i as int),
                ),
            decreases chunk@.len() - i,
        {
            let b = chunk[i];
            assert(chunk@.subrange(0, i + 1).drop_last() =~= chunk@.subrange(0, i as int));
            if b == NEWLINE {
                let ghost held = self.buffer@;
                let line = self.buffer.split_off(0);
                assert(line@ =~= held);
                assert(self.buffer@ =~= Seq::<u8>::empty());
                let ghost before = lines@;
                lines.push(line);
                assert(lines_view(lines@) =~= lines_view(before).push(line@));
            } else {
                self.buffer.push(b);
            }
            i = i + 1;
        }
        assert(chunk@.subrange(0, chunk@.len() as int) =~= chunk@);
        lines
    }

    /// One turn of the reading loop. A chunk yields the lines it completes;
    /// trailers and unreadable frames yield none; the end of the stream and
    /// cancellation stop the decoder, without lines, for good.
    pub fn on_event(&mut self, event: StreamEvent) -> (r: DecodeStep)
        ensures
            old(self).stopped_view() matches Some(reason) ==> r == DecodeStep::Stop(reason)
                && final(self).stopped_view() == old(self).stopped_view()
                && final(self).pending() == old(self).pending(),
            old(self).stopped_view() is None ==> match event {
                StreamEvent::Chunk(bytes) => r matches DecodeStep::Lines(lines) && (
                    lines_view(lines@),
                    final(self).pending(),
                ) == scan(old(self).pending(), bytes@) && final(self).stopped_view() is None,
                StreamEvent::Trailers | StreamEvent::ReadError => r matches DecodeStep::Lines(
                    lines,
                ) && lines@.len() == 0 && final(self).pending() == old(self).pending()
                    && final(self).stopped_view() is None,
                StreamEvent::End => r == DecodeStep::Stop(StopReason::StreamTerminated)
                    && final(self).stopped_view() == Some(StopReason::StreamTerminated),
                StreamEvent::Cancelled => r == DecodeStep::Stop(StopReason::Cancelled)
                    && final(self).stopped_view() == Some(StopReason::Cancelled),
            },
    {
        if let Some(reason) = self.stopped {
            return DecodeStep::Stop(reason);
        }
        match event {
            StreamEvent::Chunk(bytes) => DecodeStep::Lines(self.push_chunk(bytes.as_slice())),
            StreamEvent::Trailers | StreamEvent::ReadError => DecodeStep::Lines(Vec::new()),
            StreamEvent::End => {
                self.stopped = Some(StopReason::StreamTerminated);
                DecodeStep::Stop(StopReason::StreamTerminated)
            },
            StreamEvent::Cancelled => {
                self.stopped = Some(StopReason::Cancelled);
                DecodeStep::Stop(StopReason::Cancelled)
            },
        }
    }
}

} // verus!
