//! The reader of one command: it drops the chunks to skip, passes on the
//! chunks to take, one at a time, and stops.
//!
//! The reader performs no I/O. It is a state machine: the caller hands it an
//! event ([`ReadEvent`]) and gets back the next thing to do
//! ([`ReadAction`]): read the next chunk of the command's output, send a
//! chunk to the multiplexer, or close the handoff.

use vstd::prelude::*;
use crate::options::{CmdOpts, OptsView};

verus! {

/// The number of chunks that the handoff between a reader and the
/// multiplexer holds: a reader waits until its last chunk has been taken.
pub const HANDOFF_CAPACITY: usize = 1;

/// What the reader is waiting for.
#[derive(Clone, Copy, Debug, PartialEq, Eq)]
pub enum ReadPhase {
    /// Nothing has happened yet.
    Fresh,
    /// The next chunk of the output was asked for.
    Reading,
    /// A chunk was handed out to be sent.
    Sending,
    /// The reader has closed the handoff.
    Closed,
}

/// What the caller reports to the reader.
#[derive(Debug, PartialEq, Eq)]
pub enum ReadEvent {
    /// The command runs.
    Start,
    /// The output gave its next chunk.
    Chunk(Vec<u8>),
    /// Reading the output failed.
    Failed,
    /// The output has ended.
    End,
    /// The chunk that was handed out has been taken over by the handoff.
    Sent,
    /// The chunk that was handed out was refused: the multiplexer no longer
    /// listens.
    Refused,
}

/// Why a reader closed the handoff.
#[derive(Clone, Copy, Debug, PartialEq, Eq)]
pub enum ReadEnd {
    /// The output has ended, or the chunks to take have all been sent.
    Finished,
    /// Reading the output failed.
    ReadFailed,
    /// The multiplexer no longer listens.
    ReceiverGone,
    /// An event came that answers no pending action.
    OutOfTurn,
}

impl ReadEnd {
    /// Whether the reader closed the handoff for a fault, which is worth a
    /// diagnostic, and not because its work was done.
    pub fn is_fault(&self) -> (fault: bool)
        ensures
            fault == !(*self is Finished),
    {
        match self {
            ReadEnd::Finished => false,
            _ => true,
        }
    }
}

/// What the reader asks the caller to do next.
#[derive(Debug, PartialEq, Eq)]
pub enum ReadAction {
    /// Read the next chunk of the output, and report `Chunk`, `Failed` or `End`.
    Read,
    /// Send this chunk to the multiplexer, waiting until the handoff is
    /// free, and report `Sent` or `Refused`.
    Send(Vec<u8>),
    /// Close the handoff; then wait for the command to end.
    Close(ReadEnd),
}

/// A [`ReadAction`] with its bytes as a sequence.
pub enum ReadActionView {
    Read,
    Send(Seq<u8>),
    Close(ReadEnd),
}

impl View for ReadAction {
    type V = ReadActionView;

    open spec fn view(&self) -> ReadActionView {
        match *self {
            ReadAction::Read => ReadActionView::Read,
            ReadAction::Send(chunk) => ReadActionView::Send(chunk@),
            ReadAction::Close(end) => ReadActionView::Close(end),
        }
    }
}

/// The state of a reader as plain values.
pub struct ReaderState {
    /// How many chunks are still to be dropped.
    pub skip: usize,
    /// How many chunks may still be sent, where there is a limit.
    pub take: Option<usize>,
    /// What the reader is waiting for.
    pub phase: ReadPhase,
}

impl ReaderState {
    /// The state before the command runs.
    pub open spec fn initial(opts: OptsView) -> ReaderState {
        ReaderState {
            skip: match opts.skip {
                Some(n) => n,
                None => 0,
            },
            take: opts.take,
            phase: ReadPhase::Fresh,
        }
    }

    /// Nothing is left to drop and nothing may be sent any more.
    pub open spec fn exhausted(self) -> bool {
        self.skip == 0 && self.take == Some(0usize)
    }

    /// Goes on: closes the handoff where nothing is left to do, else reads.
    pub open spec fn proceed(self) -> (ReaderState, ReadActionView) {
        if self.exhausted() {
            (
                ReaderState { phase: ReadPhase::Closed, ..self },
                ReadActionView::Close(ReadEnd::Finished),
            )
        } else {
            (ReaderState { phase: ReadPhase::Reading, ..self }, ReadActionView::Read)
        }
    }

    /// The reader's whole behaviour: the state and the action that follow an
    /// event.
    ///
    /// - `Start`, when nothing has happened yet, goes on.
    /// - `Chunk`, after a read, drops the chunk and goes on while chunks are
    ///   to be skipped; after that it hands the chunk out to be sent and
    ///   counts it against the limit.
    /// - `End` and `Failed`, after a read, close the handoff.
    /// - `Sent`, after a chunk was handed out, goes on; `Refused` closes the
    ///   handoff.
    /// - Any other event closes the handoff as out of turn.
    pub open spec fn step(self, event: ReadEvent) -> (ReaderState, ReadActionView) {
        let closed = ReaderState { phase: ReadPhase::Closed, ..self };
        match event {
            ReadEvent::Start if self.phase == ReadPhase::Fresh => self.proceed(),
            ReadEvent::Chunk(chunk) if self.phase == ReadPhase::Reading => if self.skip > 0 {
                ReaderState { skip: (self.skip - 1) as usize, ..self }.proceed()
            } else {
                match self.take {
                    Some(left) if left == 0 => (closed, ReadActionView::Close(ReadEnd::Finished)),
                    Some(left) => (
                        ReaderState {
                            take: Some((left - 1) as usize),
                            phase: ReadPhase::Sending,
                            ..self
                        },
                        ReadActionView::Send(chunk@),
                    ),
                    None => (
                        ReaderState { phase: ReadPhase::Sending, ..self },
                        ReadActionView::Send(chunk@),
                    ),
                }
            },
            ReadEvent::Failed if self.phase == ReadPhase::Reading => (
                closed,
                ReadActionView::Close(ReadEnd::ReadFailed),
            ),
            ReadEvent::End if self.phase == ReadPhase::Reading => (
                closed,
                ReadActionView::Close(ReadEnd::Finished),
            ),
            ReadEvent::Sent if self.phase == ReadPhase::Sending => self.proceed(),
            ReadEvent::Refused if self.phase == ReadPhase::Sending => (
                closed,
                ReadActionView::Close(ReadEnd::ReceiverGone),
            ),
            _ => (closed, ReadActionView::Close(ReadEnd::OutOfTurn)),
        }
    }
}

/// A chunk that the reader hands out is the chunk that the event brought,
/// and while it is not reported as sent the reader neither reads nor hands
/// out another: whatever comes in place of `Sent` closes the handoff. So a
/// reader never holds more than the one chunk that it is sending.
pub proof fn lemma_one_chunk_in_flight(state: ReaderState, first: ReadEvent, second: ReadEvent)
    ensures
        ({
            let (sending, handed) = state.step(first);
            let (after, next) = sending.step(second);
            handed is Send ==> {
                &&& first is Chunk
                &&& handed == ReadActionView::Send(first->Chunk_0@)
                &&& !(second is Sent) ==> next is Close
                &&& !(next is Send)
            }
        }),
{
}

/// Once a reader has closed the handoff it stays closed: every later event
/// is answered with `Close`.
pub proof fn lemma_closed_stays_closed(state: ReaderState, event: ReadEvent)
    requires
        state.phase == ReadPhase::Closed,
    ensures
        state.step(event).0.phase == ReadPhase::Closed,
        state.step(event).1 is Close,
{
}

/// Where the chunks that are passed on begin: after the chunks to skip, or
/// at the end of an output that has no more than those.
pub open spec fn first_taken(opts: OptsView, chunks: int) -> int {
    match opts.skip {
        Some(n) if n < chunks => n as int,
        Some(_) => chunks,
        None => 0,
    }
}

/// How many chunks of an output the reader reads: all of them, or only as
/// far as the limit on the chunks to take lets it go.
pub open spec fn consumed(opts: OptsView, chunks: int) -> int {
    match opts.take {
        Some(m) if first_taken(opts, chunks) + m < chunks => first_taken(opts, chunks) + m,
        _ => chunks,
    }
}

/// The chunks that the reader passes on, in order, of an output that
/// consists of `chunks`.
pub open spec fn forwarded(opts: OptsView, chunks: Seq<Seq<u8>>) -> Seq<Seq<u8>> {
    chunks.subrange(
        first_taken(opts, chunks.len() as int),
        consumed(opts, chunks.len() as int),
    )
}

/// The reader of one command.
#[derive(Debug)]
pub struct Reader {
    skip: usize,
    take: Option<usize>,
    phase: ReadPhase,
}

impl View for Reader {
    type V = ReaderState;

    closed spec fn view(&self) -> ReaderState {
        ReaderState { skip: self.skip, take: self.take, phase: self.phase }
    }
}

impl Reader {
    /// A reader for a command with these options.
    pub fn new(opts: &CmdOpts) -> (reader: Reader)
        ensures
            reader@ == ReaderState::initial(opts@),
    {
        let skip = match opts.skip() {
            Some(n) => n,
            None => 0,
        };
        Reader { skip, take: opts.take(), phase: ReadPhase::Fresh }
    }

    /// Goes on: closes the handoff where nothing is left to do, else reads.
    fn proceed(&mut self) -> (action: ReadAction)
        ensures
            (final(self)@, action@) == old(self)@.proceed(),
    {
        let exhausted = self.skip == 0 && match self.take {
            Some(left) => left == 0,
            None => false,
        };
        if exhausted {
            self.phase = ReadPhase::Closed;
            ReadAction::Close(ReadEnd::Finished)
        } else {
            self.phase = ReadPhase::Reading;
            ReadAction::Read
        }
    }

    /// Takes an event and says what to do next.
    ///
    /// The reader starts with `Start`. After `Read` it expects `Chunk`,
    /// `Failed` or `End`; after `Send` it expects `Sent` or `Refused`. After
    /// `Close` its work is done.
    pub fn step(&mut self, event: ReadEvent) -> (action: ReadAction)
        ensures
            (final(self)@, action@) == old(self)@.step(event),
    {
        match event {
            ReadEvent::Start => {
                match self.phase {
                    ReadPhase::Fresh => {
                        return self.proceed();
                    },
                    _ => {},
                }
            },
            ReadEvent::Chunk(chunk) => {
                match self.phase {
                    ReadPhase::Reading => {
                        if self.skip > 0 {
                            self.skip = self.skip - 1;
                            return self.proceed();
                        }
                        match self.take {
                            Some(left) => {
                                if left == 0 {
                                    self.phase = ReadPhase::Closed;
                                    return ReadAction::Close(ReadEnd::Finished);
                                }
                                self.take = Some(left - 1);
                            },
                            None => {},
                        }
                        self.phase = ReadPhase::Sending;
                        return ReadAction::Send(chunk);
                    },
                    _ => {},
                }
            },
            ReadEvent::Failed => {
                match self.phase {
                    ReadPhase::Reading => {
                        self.phase = ReadPhase::Closed;
                        return ReadAction::Close(ReadEnd::ReadFailed);
                    },
                    _ => {},
                }
            },
            ReadEvent::End => {
                match self.phase {
                    ReadPhase::Reading => {
                        self.phase = ReadPhase::Closed;
                        return ReadAction::Close(ReadEnd::Finished);
                    },
                    _ => {},
                }
            },
            ReadEvent::Sent => {
                match self.phase {
                    ReadPhase::Sending => {
                        return self.proceed();
                    },
                    _ => {},
                }
            },
            ReadEvent::Refused => {
                match self.phase {
                    ReadPhase::Sending => {
                        self.phase = ReadPhase::Closed;
                        return ReadAction::Close(ReadEnd::ReceiverGone);
                    },
                    _ => {},
                }
            },
        }
        self.phase = ReadPhase::Closed;
        ReadAction::Close(ReadEnd::OutOfTurn)
    }
}

/// The reader's state agrees with `read` chunks having been read.
spec fn after_reading(opts: OptsView, state: ReaderState, read: int) -> bool {
    let skip = ReaderState::initial(opts).skip as int;
    let sent = if read > skip {
        read - skip
    } else {
        0
    };
    &&& state.skip == if read < skip {
        skip - read
    } else {
        0
    }
    &&& match opts.take {
        Some(limit) => sent <= limit && state.take == Some((limit - sent) as usize),
        None => state.take is None,
    }
}

/// Runs a reader over an output that consists of `chunks`. Returns the
/// chunks that it passes on, in order, and the number of chunks that it
/// read before it closed the handoff.
///
/// Each `Read` is answered with the next chunk, or with `End` once there is
/// none left; each `Send` with `Sent`.
pub fn forward(opts: &CmdOpts, chunks: &Vec<Vec<u8>>) -> (r: (Vec<Vec<u8>>, usize))
    ensures
        r.0.deep_view() == forwarded(opts@, chunks.deep_view()),
        r.1 == consumed(opts@, chunks.len() as int),
{
    let n = chunks.len();
    let ghost all = chunks.deep_view();
    let ghost from = first_taken(opts@, n as int);
    let mut reader = Reader::new(opts);
    let mut out: Vec<Vec<u8>> = Vec::new();
    let mut read: usize = 0;
    let mut action = reader.step(ReadEvent::Start);
    loop
        invariant
            n == chunks.len(),
            all == chunks.deep_view(),
            from == first_taken(opts@, n as int),
            read <= n,
            match action@ {
                ReadActionView::Read => {
                    &&& reader@.phase == ReadPhase::Reading
                    &&& !reader@.exhausted()
                    &&& after_reading(opts@, reader@, read as int)
                    &&& out.deep_view() == all.subrange(
                        first_taken(opts@, read as int),
                        read as int,
                    )
                },
                ReadActionView::Send(chunk) => {
                    &&& reader@.phase == ReadPhase::Sending
                    &&& after_reading(opts@, reader@, read as int)
                    &&& read > from
                    &&& chunk == all[read - 1]
                    &&& out.deep_view() == all.subrange(from, read - 1)
                },
                ReadActionView::Close(_) => {
                    &&& out.deep_view() == forwarded(opts@, all)
                    &&& read == consumed(opts@, n as int)
                },
            },
        decreases
            n - read,
            match action@ {
                ReadActionView::Send(_) => 2int,
                ReadActionView::Read => 1int,
                ReadActionView::Close(_) => 0int,
            },
    {
        let event = match action {
            ReadAction::Read => {
                if read < n {
                    let chunk = chunks[read].clone();
                    read += 1;
                    ReadEvent::Chunk(chunk)
                } else {
                    ReadEvent::End
                }
            },
            ReadAction::Send(chunk) => {
                out.push(chunk);
                assert(out@[out.len() - 1].deep_view() =~= chunk@);
                ReadEvent::Sent
            },
            ReadAction::Close(_) => {
                return (out, read);
            },
        };
        action = reader.step(event);
    }
}

} // verus!
