//! The multiplexer: it visits the receivers of the running commands in a
//! fixed order, round after round, and gathers what they deliver into one
//! buffer per round.
//!
//! The multiplexer itself performs no I/O. It is a state machine: the caller
//! hands it an event ([`MuxEvent`]) and gets back the next thing to do
//! ([`MuxAction`]): wait on one receiver, write a round's buffer, or stop.

use vstd::prelude::*;

verus! {

/// What the multiplexer does when a command's output ends before the others.
#[derive(Clone, Copy, Debug, PartialEq, Eq)]
pub enum Finished {
    /// Stop when the first command's output ends.
    Terminate,
    /// Leave commands whose output has ended out of the rounds that follow.
    Ignore,
    /// Write an empty line, round after round, for a command whose output has ended.
    Blank,
}

impl Default for Finished {
    /// The policy of a run that names none.
    fn default() -> (policy: Finished)
        ensures
            policy == Finished::Terminate,
    {
        Finished::Terminate
    }
}

/// What the multiplexer is waiting for.
#[derive(Clone, Copy, Debug, PartialEq, Eq)]
pub enum MuxPhase {
    /// Nothing has happened yet.
    Fresh,
    /// A receiver was asked for its next chunk.
    Receiving,
    /// The buffer of a full round was handed out to be written.
    Writing,
    /// The buffer of the round that `Terminate` cut short was handed out.
    Flushing,
    /// The run is over.
    Stopped,
}

/// What the caller reports to the multiplexer.
#[derive(Debug, PartialEq, Eq)]
pub enum MuxEvent {
    /// The run begins.
    Start,
    /// The receiver that was waited on delivered a chunk.
    Chunk(Vec<u8>),
    /// The receiver that was waited on is closed: its command's output has ended.
    Closed,
    /// The buffer that was handed out has been written.
    Written,
    /// Writing the buffer that was handed out failed.
    WriteFailed,
}

/// What the multiplexer asks the caller to do next.
#[derive(Debug, PartialEq, Eq)]
pub enum MuxAction {
    /// Wait on the receiver with this index, and report `Chunk` or `Closed`.
    Receive(usize),
    /// Write these bytes to the output in one piece, and report `Written` or `WriteFailed`.
    Write(Vec<u8>),
    /// The run is over and ended well.
    Stop,
    /// The run is over and failed: the output could not be written, or an
    /// event came that answers no pending action.
    Abort,
}

/// A [`MuxAction`] with its bytes as a sequence.
pub enum MuxActionView {
    Receive(int),
    Write(Seq<u8>),
    Stop,
    Abort,
}

impl View for MuxAction {
    type V = MuxActionView;

    open spec fn view(&self) -> MuxActionView {
        match *self {
            MuxAction::Receive(i) => MuxActionView::Receive(i as int),
            MuxAction::Write(bytes) => MuxActionView::Write(bytes@),
            MuxAction::Stop => MuxActionView::Stop,
            MuxAction::Abort => MuxActionView::Abort,
        }
    }
}

/// The state of a multiplexer as plain mathematical values.
pub struct MuxState {
    /// The policy for ended streams.
    pub policy: Finished,
    /// The line terminator that follows each chunk.
    pub newline: Seq<u8>,
    /// For each receiver, in input order, whether it was found closed.
    pub done: Seq<bool>,
    /// The receiver that the current round has reached.
    pub cursor: int,
    /// What the current round has gathered so far.
    pub buffer: Seq<u8>,
    /// What the multiplexer is waiting for.
    pub phase: MuxPhase,
}

/// What stands in a round for a receiver that is done.
pub open spec fn placeholder(policy: Finished, newline: Seq<u8>) -> Seq<u8> {
    match policy {
        Finished::Blank => newline,
        _ => Seq::empty(),
    }
}

impl MuxState {
    /// The state before the run, with `receivers` commands, none of them done.
    pub open spec fn initial(receivers: nat, policy: Finished, newline: Seq<u8>) -> MuxState {
        MuxState {
            policy,
            newline,
            done: Seq::new(receivers, |i: int| false),
            cursor: 0,
            buffer: Seq::empty(),
            phase: MuxPhase::Fresh,
        }
    }

    /// Every receiver is done.
    pub open spec fn all_done(self) -> bool {
        forall|i: int| 0 <= i < self.done.len() ==> self.done[i]
    }

    /// Moves the cursor from `from` to the first receiver at or after it that
    /// is not done (or past the last one), leaving in the buffer a
    /// placeholder for each done receiver that is passed.
    pub open spec fn settle(self, from: int) -> MuxState
        decreases self.done.len() - from,
    {
        if from < 0 || from >= self.done.len() {
            MuxState { cursor: self.done.len() as int, ..self }
        } else if !self.done[from] {
            MuxState { cursor: from, ..self }
        } else {
            MuxState {
                buffer: self.buffer + placeholder(self.policy, self.newline),
                ..self
            }.settle(from + 1)
        }
    }

    /// Goes on with the round from receiver `from`: waits on the next
    /// receiver that is not done; at the end of the round hands out the
    /// buffer; stops, writing nothing, once every receiver is done.
    pub open spec fn resume(self, from: int) -> (MuxState, MuxActionView) {
        let t = self.settle(from);
        if t.cursor < t.done.len() {
            (MuxState { phase: MuxPhase::Receiving, ..t }, MuxActionView::Receive(t.cursor))
        } else if t.all_done() {
            (MuxState { phase: MuxPhase::Stopped, ..t }, MuxActionView::Stop)
        } else {
            (
                MuxState { phase: MuxPhase::Writing, buffer: Seq::empty(), ..t },
                MuxActionView::Write(t.buffer),
            )
        }
    }

    /// The state with the receiver under the cursor marked done.
    pub open spec fn close_current(self) -> MuxState {
        MuxState { done: self.done.update(self.cursor, true), ..self }
    }

    /// The multiplexer's whole behaviour: the state and the action that
    /// follow an event.
    ///
    /// - `Start`, when nothing has happened yet, begins the first round.
    /// - `Chunk`, while a receiver is waited on, appends the chunk and the
    ///   line terminator to the buffer and goes on with the round.
    /// - `Closed`, while a receiver is waited on, marks it done. Under
    ///   `Terminate` the run ends: what the round has gathered from the
    ///   receivers before this one is handed out for a last write. Under
    ///   `Ignore` the round goes on; under `Blank` it goes on after a
    ///   placeholder line.
    /// - `Written` after a full round begins the next round; after the last
    ///   write under `Terminate` it stops the run.
    /// - `WriteFailed` after a buffer was handed out aborts the run.
    /// - Any other event aborts the run.
    pub open spec fn step(self, event: MuxEvent) -> (MuxState, MuxActionView) {
        let receiving = self.phase == MuxPhase::Receiving && 0 <= self.cursor < self.done.len();
        match event {
            MuxEvent::Start if self.phase == MuxPhase::Fresh => self.resume(0),
            MuxEvent::Chunk(chunk) if receiving => MuxState {
                buffer: self.buffer + chunk@ + self.newline,
                ..self
            }.resume(self.cursor + 1),
            MuxEvent::Closed if receiving => match self.policy {
                Finished::Terminate => if self.cursor > 0 {
                    (
                        MuxState {
                            phase: MuxPhase::Flushing,
                            buffer: Seq::empty(),
                            ..self.close_current()
                        },
                        MuxActionView::Write(self.buffer),
                    )
                } else {
                    (
                        MuxState { phase: MuxPhase::Stopped, ..self.close_current() },
                        MuxActionView::Stop,
                    )
                },
                _ => MuxState {
                    buffer: self.buffer + placeholder(self.policy, self.newline),
                    ..self.close_current()
                }.resume(self.cursor + 1),
            },
            MuxEvent::Written if self.phase == MuxPhase::Writing => self.resume(0),
            MuxEvent::Written if self.phase == MuxPhase::Flushing => (
                MuxState { phase: MuxPhase::Stopped, ..self },
                MuxActionView::Stop,
            ),
            _ => (MuxState { phase: MuxPhase::Stopped, ..self }, MuxActionView::Abort),
        }
    }
}

/// Settling moves the cursor and leaves placeholders; it changes nothing else.
proof fn lemma_settle_keeps(state: MuxState, from: int)
    ensures
        ({
            let t = state.settle(from);
            &&& t.policy == state.policy
            &&& t.newline == state.newline
            &&& t.done == state.done
            &&& t.phase == state.phase
            &&& t.cursor == state.done.len() || (from <= t.cursor < state.done.len()
                && !state.done[t.cursor])
        }),
    decreases state.done.len() - from,
{
    if 0 <= from < state.done.len() && state.done[from] {
        lemma_settle_keeps(
            MuxState {
                buffer: state.buffer + placeholder(state.policy, state.newline),
                ..state
            },
            from + 1,
        );
    }
}

/// The receivers of a run are fixed: no event changes their number, the
/// policy or the line terminator, and a receiver that is done stays done.
pub proof fn lemma_receivers_are_fixed(state: MuxState, event: MuxEvent)
    ensures
        ({
            let next = state.step(event).0;
            &&& next.policy == state.policy
            &&& next.newline == state.newline
            &&& next.done.len() == state.done.len()
            &&& forall|i: int| 0 <= i < state.done.len() && state.done[i] ==> next.done[i]
        }),
{
    let closed = state.close_current();
    lemma_settle_keeps(state, 0);
    lemma_settle_keeps(MuxState { buffer: Seq::empty(), ..state }, 0);
    match event {
        MuxEvent::Chunk(chunk) => {
            lemma_settle_keeps(
                MuxState { buffer: state.buffer + chunk@ + state.newline, ..state },
                state.cursor + 1,
            );
        },
        _ => {},
    }
    lemma_settle_keeps(
        MuxState { buffer: state.buffer + placeholder(state.policy, state.newline), ..closed },
        state.cursor + 1,
    );
}

/// The multiplexer waits only on receivers that are not done: `Receive`
/// names a receiver of the run that no event has found closed.
pub proof fn lemma_receives_from_open_receivers(state: MuxState, event: MuxEvent)
    ensures
        ({
            let (next, action) = state.step(event);
            action matches MuxActionView::Receive(at) ==> {
                &&& 0 <= at < next.done.len()
                &&& !next.done[at]
                &&& next.cursor == at
                &&& next.phase == MuxPhase::Receiving
            }
        }),
{
    let closed = state.close_current();
    lemma_settle_keeps(state, 0);
    lemma_settle_keeps(MuxState { buffer: Seq::empty(), ..state }, 0);
    match event {
        MuxEvent::Chunk(chunk) => {
            lemma_settle_keeps(
                MuxState { buffer: state.buffer + chunk@ + state.newline, ..state },
                state.cursor + 1,
            );
        },
        _ => {},
    }
    lemma_settle_keeps(
        MuxState { buffer: state.buffer + placeholder(state.policy, state.newline), ..closed },
        state.cursor + 1,
    );
}

/// Once the run is over it stays over: every later event is answered with
/// `Abort`.
pub proof fn lemma_stopped_stays_stopped(state: MuxState, event: MuxEvent)
    requires
        state.phase == MuxPhase::Stopped,
    ensures
        state.step(event).0.phase == MuxPhase::Stopped,
        state.step(event).1 == MuxActionView::Abort,
{
}

/// The multiplexer of one run.
#[derive(Debug)]
pub struct Mux {
    policy: Finished,
    newline: Vec<u8>,
    done: Vec<bool>,
    cursor: usize,
    buffer: Vec<u8>,
    phase: MuxPhase,
}

impl View for Mux {
    type V = MuxState;

    closed spec fn view(&self) -> MuxState {
        MuxState {
            policy: self.policy,
            newline: self.newline@,
            done: self.done@,
            cursor: self.cursor as int,
            buffer: self.buffer@,
            phase: self.phase,
        }
    }
}

/// Appends `bytes` to `buffer`.
fn append_bytes(buffer: &mut Vec<u8>, bytes: &Vec<u8>)
    ensures
        final(buffer)@ == old(buffer)@ + bytes@,
{
    buffer.extend_from_slice(bytes.as_slice());
}

impl Mux {
    /// A multiplexer for `receivers` commands, taken in input order, that
    /// ends each chunk with `newline`.
    pub fn new(receivers: usize, policy: Finished, newline: &[u8]) -> (mux: Mux)
        ensures
            mux@ == MuxState::initial(receivers as nat, policy, newline@),
    {
        let mut done: Vec<bool> = Vec::new();
        let mut i: usize = 0;
        while i < receivers
            invariant
                i <= receivers,
                done@ =~= Seq::new(i as nat, |j: int| false),
            decreases receivers - i,
        {
            done.push(false);
            i += 1;
        }
        let mut terminator: Vec<u8> = Vec::new();
        terminator.extend_from_slice(newline);
        assert(terminator@ =~= newline@);
        Mux {
            policy,
            newline: terminator,
            done,
            cursor: 0,
            buffer: Vec::new(),
            phase: MuxPhase::Fresh,
        }
    }

    /// Whether every receiver is done.
    fn all_done(&self) -> (r: bool)
        ensures
            r == self@.all_done(),
    {
        let mut i: usize = 0;
        while i < self.done.len()
            invariant
                i <= self.done.len(),
                forall|j: int| 0 <= j < i ==> self.done@[j],
            decreases self.done.len() - i,
        {
            if !self.done[i] {
                assert(!self@.done[i as int]);
                return false;
            }
            i += 1;
        }
        true
    }

    /// Goes on with the round from receiver `from`.
    fn resume(&mut self, from: usize) -> (action: MuxAction)
        ensures
            (final(self)@, action@) == old(self)@.resume(from as int),
    {
        let n = self.done.len();
        let mut i: usize = from;
        while i < n && self.done[i]
            invariant
                n == self.done.len(),
                from <= i,
                self@.settle(i as int) == old(self)@.settle(from as int),
            decreases n - i,
        {
            match self.policy {
                Finished::Blank => {
                    append_bytes(&mut self.buffer, &self.newline);
                },
                _ => {},
            }
            i += 1;
        }
        if i < n {
            self.cursor = i;
            self.phase = MuxPhase::Receiving;
            MuxAction::Receive(i)
        } else {
            self.cursor = n;
            if self.all_done() {
                self.phase = MuxPhase::Stopped;
                MuxAction::Stop
            } else {
                self.phase = MuxPhase::Writing;
                let mut bytes: Vec<u8> = Vec::new();
                std::mem::swap(&mut bytes, &mut self.buffer);
                MuxAction::Write(bytes)
            }
        }
    }

    /// Takes an event and says what to do next.
    ///
    /// The multiplexer starts with `Start`. After `Receive(i)` it expects
    /// `Chunk` or `Closed` for receiver `i`; after `Write` it expects
    /// `Written` or `WriteFailed`. After `Stop` or `Abort` the run is over.
    pub fn step(&mut self, event: MuxEvent) -> (action: MuxAction)
        ensures
            (final(self)@, action@) == old(self)@.step(event),
    {
        let receiving = match self.phase {
            MuxPhase::Receiving => self.cursor < self.done.len(),
            _ => false,
        };
        match event {
            MuxEvent::Start => {
                match self.phase {
                    MuxPhase::Fresh => {
                        return self.resume(0);
                    },
                    _ => {},
                }
            },
            MuxEvent::Chunk(chunk) => {
                if receiving {
                    append_bytes(&mut self.buffer, &chunk);
                    append_bytes(&mut self.buffer, &self.newline);
                    let next = self.cursor + 1;
                    return self.resume(next);
                }
            },
            MuxEvent::Closed => {
                if receiving {
                    let at = self.cursor;
                    self.done.set(at, true);
                    match self.policy {
                        Finished::Terminate => {
                            if at > 0 {
                                self.phase = MuxPhase::Flushing;
                                let mut bytes: Vec<u8> = Vec::new();
                                std::mem::swap(&mut bytes, &mut self.buffer);
                                return MuxAction::Write(bytes);
                            } else {
                                self.phase = MuxPhase::Stopped;
                                return MuxAction::Stop;
                            }
                        },
                        Finished::Ignore => {},
                        Finished::Blank => {
                            append_bytes(&mut self.buffer, &self.newline);
                        },
                    }
                    return self.resume(at + 1);
                }
            },
            MuxEvent::Written => {
                match self.phase {
                    MuxPhase::Writing => {
                        return self.resume(0);
                    },
                    MuxPhase::Flushing => {
                        self.phase = MuxPhase::Stopped;
                        return MuxAction::Stop;
                    },
                    _ => {},
                }
            },
            MuxEvent::WriteFailed => {},
        }
        self.phase = MuxPhase::Stopped;
        MuxAction::Abort
    }
}

} // verus!
