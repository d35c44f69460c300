//! What a whole run writes: the rounds that the multiplexer hands out when
//! each command's output is a known, finite list of chunks.
//!
//! [`rounds`] states the result directly; [`zip`] obtains it by driving a
//! [`Mux`] with the events that such commands would cause, and is proved to
//! give exactly [`rounds`].

use vstd::prelude::*;
use crate::mux::{Finished, Mux, MuxAction, MuxActionView, MuxEvent, MuxPhase, MuxState, placeholder};

verus! {

/// What one command adds to round `round`: its chunk of that round and the
/// line terminator, or the policy's placeholder once its output has ended.
pub open spec fn line(stream: Seq<Seq<u8>>, round: int, policy: Finished, newline: Seq<u8>) -> Seq<
    u8,
> {
    if 0 <= round < stream.len() {
        stream[round] + newline
    } else {
        placeholder(policy, newline)
    }
}

/// Round `round` as far as the first `upto` commands fill it, in input order.
pub open spec fn round_upto(
    streams: Seq<Seq<Seq<u8>>>,
    round: int,
    upto: int,
    policy: Finished,
    newline: Seq<u8>,
) -> Seq<u8>
    decreases upto,
{
    if upto <= 0 {
        Seq::empty()
    } else {
        round_upto(streams, round, upto - 1, policy, newline) + line(
            streams[upto - 1],
            round,
            policy,
            newline,
        )
    }
}

/// Round `round` with every command's line.
pub open spec fn full_round(
    streams: Seq<Seq<Seq<u8>>>,
    round: int,
    policy: Finished,
    newline: Seq<u8>,
) -> Seq<u8> {
    round_upto(streams, round, streams.len() as int, policy, newline)
}

/// The number of chunks of the command with the most chunks; 0 without commands.
pub open spec fn longest(streams: Seq<Seq<Seq<u8>>>) -> nat
    decreases streams.len(),
{
    if streams.len() == 0 {
        0
    } else {
        let rest = longest(streams.drop_last());
        if streams.last().len() > rest {
            streams.last().len()
        } else {
            rest
        }
    }
}

/// The number of chunks of the command with the fewest chunks; 0 without commands.
pub open spec fn shortest(streams: Seq<Seq<Seq<u8>>>) -> nat
    decreases streams.len(),
{
    if streams.len() == 0 {
        0
    } else if streams.len() == 1 {
        streams[0].len()
    } else {
        let rest = shortest(streams.drop_last());
        if streams.last().len() < rest {
            streams.last().len()
        } else {
            rest
        }
    }
}

/// The first command, in input order, that has the fewest chunks.
pub open spec fn first_shortest(streams: Seq<Seq<Seq<u8>>>) -> int
    decreases streams.len(),
{
    if streams.len() <= 1 {
        0
    } else if streams.last().len() < shortest(streams.drop_last()) {
        streams.len() - 1
    } else {
        first_shortest(streams.drop_last())
    }
}

/// The buffers that a run writes, one per round, for commands whose outputs
/// are the chunk lists `streams`, in input order.
///
/// - Under `Ignore` and `Blank` there are as many rounds as the longest
///   command has chunks, each with every command's line: a command whose
///   output has ended adds nothing under `Ignore` and a bare line terminator
///   under `Blank`. The round in which the last outputs are found ended
///   brings no chunk and is not written.
/// - Under `Terminate` there are as many full rounds as the shortest command
///   has chunks. The round after them is cut short at the first command that
///   has no chunk left: what the commands before it gave in that round is
///   written as a last buffer, if there is such a command.
pub open spec fn rounds(streams: Seq<Seq<Seq<u8>>>, policy: Finished, newline: Seq<u8>) -> Seq<
    Seq<u8>,
> {
    match policy {
        Finished::Terminate => {
            let full = Seq::new(
                shortest(streams),
                |round: int| full_round(streams, round, policy, newline),
            );
            if first_shortest(streams) > 0 {
                full.push(
                    round_upto(
                        streams,
                        shortest(streams) as int,
                        first_shortest(streams),
                        policy,
                        newline,
                    ),
                )
            } else {
                full
            }
        },
        _ => Seq::new(longest(streams), |round: int| full_round(streams, round, policy, newline)),
    }
}

/// A run without commands writes nothing, whatever the policy.
pub proof fn lemma_no_commands_no_rounds(policy: Finished, newline: Seq<u8>)
    ensures
        rounds(Seq::empty(), policy, newline) == Seq::<Seq<u8>>::empty(),
{
}

/// No command has more chunks than `longest` says, and one has that many.
pub proof fn lemma_longest(streams: Seq<Seq<Seq<u8>>>)
    ensures
        forall|i: int| 0 <= i < streams.len() ==> (#[trigger] streams[i]).len() <= longest(streams),
        streams.len() > 0 ==> exists|i: int|
            0 <= i < streams.len() && (#[trigger] streams[i]).len() == longest(streams),
    decreases streams.len(),
{
    if streams.len() > 0 {
        let rest = streams.drop_last();
        lemma_longest(rest);
        assert forall|i: int| 0 <= i < streams.len() implies (#[trigger] streams[i]).len()
            <= longest(streams) by {
            if i < rest.len() {
                assert(streams[i] == rest[i]);
            }
        }
        if streams.last().len() > longest(rest) || rest.len() == 0 {
            assert(streams[streams.len() - 1].len() == longest(streams));
        } else {
            let i = choose|i: int| 0 <= i < rest.len() && (#[trigger] rest[i]).len() == longest(rest);
        }
    }
}

/// `first_shortest` names a command with as few chunks as any, and every
/// command before it has more.
pub proof fn lemma_shortest(streams: Seq<Seq<Seq<u8>>>)
    requires
        streams.len() > 0,
    ensures
        0 <= first_shortest(streams) < streams.len(),
        streams[first_shortest(streams)].len() == shortest(streams),
        forall|i: int| 0 <= i < streams.len() ==> (#[trigger] streams[i]).len() >= shortest(streams),
        forall|i: int|
            0 <= i < first_shortest(streams) ==> (#[trigger] streams[i]).len() > shortest(streams),
    decreases streams.len(),
{
    if streams.len() > 1 {
        let rest = streams.drop_last();
        lemma_shortest(rest);
        assert forall|i: int| 0 <= i < streams.len() implies (#[trigger] streams[i]).len()
            >= shortest(streams) by {
            if i < rest.len() {
                assert(streams[i] == rest[i]);
            }
        }
        assert forall|i: int| 0 <= i < first_shortest(streams) implies (#[trigger] streams[i]).len()
            > shortest(streams) by {
            assert(streams[i] == rest[i]);
        }
    }
}

/// How often the command `i` has been asked for a chunk when round `round`
/// has reached command `upto`.
spec fn asked(i: int, round: int, upto: int) -> int {
    if i < upto {
        round + 1
    } else {
        round
    }
}

/// The multiplexer's state and the chunks taken from each command agree with
/// round `round` having come as far as command `upto`.
spec fn in_round(
    streams: Seq<Seq<Seq<u8>>>,
    state: MuxState,
    taken: Seq<usize>,
    round: int,
    upto: int,
) -> bool {
    let n = streams.len();
    &&& state.done.len() == n
    &&& taken.len() == n
    &&& 0 <= round
    &&& 0 <= upto <= n
    &&& forall|i: int|
        0 <= i < n ==> (#[trigger] taken[i]) as int == if streams[i].len() < asked(i, round, upto) {
            streams[i].len() as int
        } else {
            asked(i, round, upto)
        }
    &&& forall|i: int|
        0 <= i < n ==> (#[trigger] state.done[i] <==> streams[i].len() < asked(i, round, upto))
    &&& state.buffer == round_upto(streams, round, upto, state.policy, state.newline)
    &&& state.policy is Terminate ==> forall|i: int| 0 <= i < n ==> !#[trigger] state.done[i]
}

proof fn lemma_settle(
    streams: Seq<Seq<Seq<u8>>>,
    state: MuxState,
    taken: Seq<usize>,
    round: int,
    from: int,
)
    requires
        in_round(streams, state, taken, round, from),
    ensures
        ({
            let t = state.settle(from);
            &&& in_round(streams, t, taken, round, t.cursor)
            &&& from <= t.cursor <= streams.len()
            &&& t.cursor < streams.len() ==> !t.done[t.cursor]
            &&& t.policy == state.policy
            &&& t.newline == state.newline
            &&& t.phase == state.phase
        }),
    decreases streams.len() - from,
{
    if from < streams.len() && state.done[from] {
        let next = MuxState {
            buffer: state.buffer + placeholder(state.policy, state.newline),
            ..state
        };
        lemma_settle(streams, next, taken, round, from + 1);
    }
}

/// What `resume` gives in a state that agrees with round `round` at command
/// `from`.
proof fn lemma_resume(
    streams: Seq<Seq<Seq<u8>>>,
    state: MuxState,
    taken: Seq<usize>,
    round: int,
    from: int,
)
    requires
        in_round(streams, state, taken, round, from),
    ensures
        ({
            let (next, action) = state.resume(from);
            &&& next.policy == state.policy
            &&& next.newline == state.newline
            &&& match action {
                MuxActionView::Receive(at) => {
                    &&& from <= at < streams.len()
                    &&& next.phase == MuxPhase::Receiving
                    &&& next.cursor == at
                    &&& !next.done[at]
                    &&& in_round(streams, next, taken, round, at)
                },
                MuxActionView::Write(bytes) => {
                    &&& next.phase == MuxPhase::Writing
                    &&& bytes == full_round(streams, round, state.policy, state.newline)
                    &&& in_round(streams, next, taken, round + 1, 0)
                    &&& round < longest(streams)
                },
                MuxActionView::Stop => {
                    &&& next.phase == MuxPhase::Stopped
                    &&& round >= longest(streams)
                },
                MuxActionView::Abort => false,
            }
        }),
{
    lemma_settle(streams, state, taken, round, from);
    lemma_longest(streams);
    let t = state.settle(from);
    if t.cursor >= streams.len() && t.all_done() && streams.len() > 0 {
        let i = choose|i: int|
            0 <= i < streams.len() && (#[trigger] streams[i]).len() == longest(streams);
        assert(t.done[i]);
    }
}

/// The buffers of a list, taken as sequences of bytes.
proof fn lemma_buffers(out: Vec<Vec<u8>>)
    ensures
        out.deep_view().len() == out.len(),
        forall|k: int| 0 <= k < out.len() ==> #[trigger] out.deep_view()[k] == out@[k]@,
{
    assert forall|k: int| 0 <= k < out.len() implies #[trigger] out.deep_view()[k] == out@[k]@ by {
        assert(out@[k].deep_view() =~= out@[k]@);
    }
}

/// Runs the multiplexer over commands whose outputs are the chunk lists
/// `streams`, in input order, and returns the buffers it hands out for
/// writing, one per round.
///
/// Each `Receive(i)` is answered with command `i`'s next chunk, or with
/// `Closed` once it has none left; each `Write` with `Written`.
pub fn zip(streams: &Vec<Vec<Vec<u8>>>, policy: Finished, newline: &[u8]) -> (out: Vec<Vec<u8>>)
    ensures
        out.deep_view() == rounds(streams.deep_view(), policy, newline@),
{
    let n = streams.len();
    let ghost s = streams.deep_view();
    let mut taken: Vec<usize> = Vec::new();
    while taken.len() < n
        invariant
            taken.len() <= n,
            forall|i: int| 0 <= i < taken.len() ==> taken@[i] == 0,
        decreases n - taken.len(),
    {
        taken.push(0);
    }
    let mut out: Vec<Vec<u8>> = Vec::new();
    let mut mux = Mux::new(n, policy, newline);
    let ghost mut round: int = 0;
    proof {
        lemma_resume(s, mux@, taken@, 0, 0);
    }
    let mut action = mux.step(MuxEvent::Start);
    loop
        invariant
            n == streams.len(),
            s == streams.deep_view(),
            mux@.policy == policy,
            mux@.newline == newline@,
            0 <= round <= longest(s),
            !(action@ is Stop) ==> out.len() == round && forall|k: int|
                0 <= k < round ==> (#[trigger] out@[k])@ == full_round(s, k, policy, newline@),
            match action@ {
                MuxActionView::Receive(at) => {
                    &&& 0 <= at < n
                    &&& mux@.phase == MuxPhase::Receiving
                    &&& mux@.cursor == at
                    &&& !mux@.done[at]
                    &&& in_round(s, mux@, taken@, round, at)
                },
                MuxActionView::Write(bytes) => {
                    ||| {
                        &&& mux@.phase == MuxPhase::Writing
                        &&& bytes == full_round(s, round, policy, newline@)
                        &&& in_round(s, mux@, taken@, round + 1, 0)
                        &&& round < longest(s)
                    }
                    ||| {
                        &&& mux@.phase == MuxPhase::Flushing
                        &&& policy is Terminate
                        &&& n > 0
                        &&& round == shortest(s)
                        &&& first_shortest(s) > 0
                        &&& bytes == round_upto(s, round, first_shortest(s), policy, newline@)
                    }
                },
                MuxActionView::Stop => out.deep_view() == rounds(s, policy, newline@),
                MuxActionView::Abort => false,
            },
        decreases
            longest(s) - round,
            match action@ {
                MuxActionView::Receive(at) => n - at + 1,
                MuxActionView::Write(_) => 1,
                _ => 0,
            },
    {
        let event = match action {
            MuxAction::Receive(at) => {
                let stream = &streams[at];
                let next = taken[at];
                if next < stream.len() {
                    let chunk = stream[next].clone();
                    taken.set(at, next + 1);
                    proof {
                        assert(s[at as int][next as int] =~= stream@[next as int]@);
                        let fed = MuxState {
                            buffer: mux@.buffer + chunk@ + mux@.newline,
                            ..mux@
                        };
                        assert(in_round(s, fed, taken@, round, at + 1)) by {
                            assert(fed.buffer =~= mux@.buffer + (chunk@ + mux@.newline));
                        }
                        lemma_resume(s, fed, taken@, round, at + 1);
                    }
                    MuxEvent::Chunk(chunk)
                } else {
                    proof {
                        lemma_shortest(s);
                        let closed = mux@.close_current();
                        match policy {
                            Finished::Terminate => {
                                assert forall|i: int| 0 <= i < n implies (#[trigger] s[i]).len()
                                    >= round && (i < at ==> s[i].len() > round) by {
                                    assert(!mux@.done[i]);
                                }
                                if at == 0 {
                                    lemma_buffers(out);
                                    assert(out.deep_view() =~= rounds(s, policy, newline@));
                                }
                            },
                            _ => {
                                let fed = MuxState {
                                    buffer: mux@.buffer + placeholder(policy, newline@),
                                    ..closed
                                };
                                lemma_resume(s, fed, taken@, round, at + 1);
                            },
                        }
                    }
                    MuxEvent::Closed
                }
            },
            MuxAction::Write(bytes) => {
                proof {
                    match mux@.phase {
                        MuxPhase::Writing => {
                            lemma_resume(s, mux@, taken@, round + 1, 0);
                        },
                        _ => {},
                    }
                }
                let ghost flushing = mux@.phase == MuxPhase::Flushing;
                out.push(bytes);
                proof {
                    if flushing {
                        lemma_buffers(out);
                        assert(out.deep_view() =~= rounds(s, policy, newline@));
                    } else {
                        round = round + 1;
                    }
                }
                MuxEvent::Written
            },
            MuxAction::Stop => {
                return out;
            },
            MuxAction::Abort => {
                return out;
            },
        };
        action = mux.step(event);
        proof {
            if action@ is Stop && !(mux@.policy is Terminate) {
                lemma_buffers(out);
                assert(out.deep_view() =~= rounds(s, policy, newline@));
            }
        }
    }
}

} // verus!
