//! The decisions of memory consolidation: whether a session needs it, and how its
//! rounds proceed. Counting tokens, choosing where to cut, summarising with the
//! model and archiving happen around these decisions.

use vstd::prelude::*;

use crate::agent::cmd::ConsolidatingSet;

verus! {

/// The most rounds of one consolidation.
pub const MAX_CONSOLIDATION_ROUNDS: usize = 5;

/// After this many failed summaries in a row, the chunk is archived as it is.
pub const MAX_FAILURES_BEFORE_RAW_ARCHIVE: usize = 3;

/// Whether a session needs consolidation: with a token budget, when the
/// unconsolidated messages reach it; without one, when as many unconsolidated
/// messages as the memory window have piled up.
pub open spec fn should_consolidate_spec(
    unconsolidated_tokens: nat,
    max_input_tokens: nat,
    message_count: nat,
    last_consolidated: nat,
    memory_window: nat,
) -> bool {
    if max_input_tokens > 0 {
        unconsolidated_tokens >= max_input_tokens
    } else {
        message_count - last_consolidated >= memory_window
    }
}

/// Whether a session needs consolidation (see `should_consolidate_spec`).
pub fn should_consolidate(
    unconsolidated_tokens: usize,
    max_input_tokens: usize,
    message_count: usize,
    last_consolidated: usize,
    memory_window: usize,
) -> (b: bool)
    requires
        last_consolidated <= message_count,
    ensures
        b == should_consolidate_spec(
            unconsolidated_tokens as nat,
            max_input_tokens as nat,
            message_count as nat,
            last_consolidated as nat,
            memory_window as nat,
        ),
{
    if max_input_tokens > 0 {
        unconsolidated_tokens >= max_input_tokens
    } else {
        message_count - last_consolidated >= memory_window
    }
}

/// The state of one consolidation: rounds done, failures in a row, and the index
/// of the first message not yet consolidated; the aim is half the token budget.
pub struct ConsolidationRun {
    pub round: usize,
    pub consecutive_failures: usize,
    pub last_consolidated: usize,
    pub target: usize,
}

/// What a round does.
pub enum RoundStep {
    /// Stop consolidating.
    Done,
    /// Cut a chunk of at least this many tokens and summarise it.
    Cut(usize),
}

/// The run after one round ended before message `end_idx` with the summary's
/// `outcome`, and whether the chunk is archived as it is (see `finish_round`).
pub open spec fn round_after(run: ConsolidationRun, end_idx: usize, outcome: Option<usize>) -> (ConsolidationRun, bool) {
    let round = (run.round + 1) as usize;
    match outcome {
        Some(new_last) => (
            ConsolidationRun { round, consecutive_failures: 0, last_consolidated: new_last, target: run.target },
            false,
        ),
        None => if run.consecutive_failures + 1 >= MAX_FAILURES_BEFORE_RAW_ARCHIVE {
            (ConsolidationRun { round, consecutive_failures: 0, last_consolidated: end_idx, target: run.target }, true)
        } else {
            (
                ConsolidationRun {
                    round,
                    consecutive_failures: (run.consecutive_failures + 1) as usize,
                    last_consolidated: run.last_consolidated,
                    target: run.target,
                },
                false,
            )
        },
    }
}

/// The run after the rounds `steps` (each the end index of its chunk and the
/// summary's outcome), one after the other.
pub open spec fn rounds_after(run: ConsolidationRun, steps: Seq<(usize, Option<usize>)>) -> ConsolidationRun
    decreases steps.len(),
{
    if steps.len() == 0 {
        run
    } else {
        rounds_after(round_after(run, steps[0].0, steps[0].1).0, steps.drop_first())
    }
}

/// Whether each of the rounds `steps` may be finished: before each, fewer rounds
/// than the most were done (what `finish_round` requires, and what `next_round`
/// answering `Cut` implies).
pub open spec fn rounds_allowed(run: ConsolidationRun, steps: Seq<(usize, Option<usize>)>) -> bool
    decreases steps.len(),
{
    if steps.len() == 0 {
        true
    } else {
        run.round < MAX_CONSOLIDATION_ROUNDS && rounds_allowed(
            round_after(run, steps[0].0, steps[0].1).0,
            steps.drop_first(),
        )
    }
}

/// Rounds taken while allowed count up from the run's round and keep the run
/// well-formed.
proof fn lemma_rounds_counted(run: ConsolidationRun, steps: Seq<(usize, Option<usize>)>)
    requires
        run.wf(),
        rounds_allowed(run, steps),
    ensures
        rounds_after(run, steps).wf(),
        rounds_after(run, steps).round == run.round + steps.len(),
        run.round + steps.len() <= MAX_CONSOLIDATION_ROUNDS,
    decreases steps.len(),
{
    if steps.len() > 0 {
        lemma_rounds_counted(round_after(run, steps[0].0, steps[0].1).0, steps.drop_first());
    }
}

/// One consolidation of a session, as a whole: it starts only when the session is
/// not being consolidated already, so that at most one runs per session; while it
/// runs, another start for the same session is refused and changes nothing, and
/// the other sessions are neither added nor removed; it makes at most
/// `MAX_CONSOLIDATION_ROUNDS` rounds, whatever their outcomes; and its end removes
/// its session again, leaving the set as it was before it started.
pub proof fn law_consolidation_per_session(
    set: ConsolidatingSet,
    key: Seq<char>,
    other: Seq<char>,
    max_input_tokens: usize,
    last_consolidated: usize,
    steps: Seq<(usize, Option<usize>)>,
)
    requires
        !set@.contains(key),
        other != key,
        rounds_allowed(
            ConsolidationRun { round: 0, consecutive_failures: 0, last_consolidated, target: max_input_tokens / 2 },
            steps,
        ),
    ensures
        set@.insert(key).contains(key),
        set@.insert(key).insert(key) == set@.insert(key),
        set@.insert(key).contains(other) == set@.contains(other),
        steps.len() <= MAX_CONSOLIDATION_ROUNDS,
        rounds_after(
            ConsolidationRun { round: 0, consecutive_failures: 0, last_consolidated, target: max_input_tokens / 2 },
            steps,
        ).wf(),
        set@.insert(key).remove(key) == set@,
{
    let running = set@;
    let run = ConsolidationRun { round: 0, consecutive_failures: 0, last_consolidated, target: max_input_tokens / 2 };
    lemma_rounds_counted(run, steps);
    assert(running.insert(key).insert(key) =~= running.insert(key));
    assert(running.insert(key).remove(key) =~= running);
}

/// What happens to consolidations that share one set of running sessions: call
/// `i` tries to start (`ConsolidatingSet::try_begin` with its session key), or,
/// having started, ends (`ConsolidatingSet::finish`).
pub enum ConsolidationEvent {
    Start(usize),
    End(usize),
}

/// The set and the calls that are running rounds, after one event; `keys[i]` is
/// call `i`'s session key. A start inserts the key, and the call runs exactly when
/// the key was not in the set; a refused call ends without touching the set; only
/// a running call's end removes its key.
pub open spec fn consolidation_step(
    keys: Seq<Seq<char>>,
    state: (Set<Seq<char>>, Set<int>),
    e: ConsolidationEvent,
) -> (Set<Seq<char>>, Set<int>) {
    let (set, running) = state;
    match e {
        ConsolidationEvent::Start(i) => if i < keys.len() && !running.contains(i as int) {
            (
                set.insert(keys[i as int]),
                if !set.contains(keys[i as int]) {
                    running.insert(i as int)
                } else {
                    running
                },
            )
        } else {
            state
        },
        ConsolidationEvent::End(i) => if running.contains(i as int) {
            (set.remove(keys[i as int]), running.remove(i as int))
        } else {
            state
        },
    }
}

/// The set and the running calls after `events`, one after the other.
pub open spec fn consolidation_events(
    keys: Seq<Seq<char>>,
    state: (Set<Seq<char>>, Set<int>),
    events: Seq<ConsolidationEvent>,
) -> (Set<Seq<char>>, Set<int>)
    decreases events.len(),
{
    if events.len() == 0 {
        state
    } else {
        consolidation_step(keys, consolidation_events(keys, state, events.drop_last()), events.last())
    }
}

/// The session keys of the calls in `running`.
pub open spec fn held_keys(keys: Seq<Seq<char>>, running: Set<int>) -> Set<Seq<char>> {
    Set::new(|k: Seq<char>| exists|i: int| running.contains(i) && 0 <= i < keys.len() && keys[i] == k)
}

/// The invariant of shared consolidations: the set is what it held before plus the
/// keys of the running calls, and no two running calls share a key.
pub open spec fn consolidations_ok(
    initial: Set<Seq<char>>,
    keys: Seq<Seq<char>>,
    state: (Set<Seq<char>>, Set<int>),
) -> bool {
    &&& state.0 == initial.union(held_keys(keys, state.1))
    &&& forall|i: int| #[trigger] state.1.contains(i) ==> 0 <= i < keys.len()
    &&& forall|i: int, j: int|
        state.1.contains(i) && state.1.contains(j) && i != j ==> #[trigger] keys[i] != #[trigger] keys[j]
}

proof fn lemma_consolidation_step(
    initial: Set<Seq<char>>,
    keys: Seq<Seq<char>>,
    state: (Set<Seq<char>>, Set<int>),
    e: ConsolidationEvent,
)
    requires
        forall|i: int| 0 <= i < keys.len() ==> !initial.contains(#[trigger] keys[i]),
        consolidations_ok(initial, keys, state),
    ensures
        consolidations_ok(initial, keys, consolidation_step(keys, state, e)),
{
    let (set, running) = state;
    let next = consolidation_step(keys, state, e);
    match e {
        ConsolidationEvent::Start(i) => {
            if i < keys.len() && !running.contains(i as int) {
                let k = keys[i as int];
                if !set.contains(k) {
                    assert forall|j: int| running.contains(j) implies keys[j] != k by {
                        if keys[j] == k {
                            assert(held_keys(keys, running).contains(k));
                        }
                    }
                    assert(next.0 =~= initial.union(held_keys(keys, next.1))) by {
                        assert forall|x: Seq<char>| next.0.contains(x) implies initial.union(held_keys(keys, next.1)).contains(x) by {
                            if x == k {
                                assert(next.1.contains(i as int) && keys[i as int] == x);
                            } else if held_keys(keys, running).contains(x) {
                                let j = choose|j: int| running.contains(j) && 0 <= j < keys.len() && keys[j] == x;
                                assert(next.1.contains(j));
                            }
                        }
                        assert forall|x: Seq<char>| initial.union(held_keys(keys, next.1)).contains(x) implies next.0.contains(x) by {
                            if held_keys(keys, next.1).contains(x) {
                                let j = choose|j: int| next.1.contains(j) && 0 <= j < keys.len() && keys[j] == x;
                                if j != i as int {
                                    assert(held_keys(keys, running).contains(x));
                                }
                            }
                        }
                    }
                } else {
                    assert(next.0 =~= set);
                }
            }
        },
        ConsolidationEvent::End(i) => {
            if running.contains(i as int) {
                let k = keys[i as int];
                assert(next.0 =~= initial.union(held_keys(keys, next.1))) by {
                    assert forall|x: Seq<char>| next.0.contains(x) implies initial.union(held_keys(keys, next.1)).contains(x) by {
                        if !initial.contains(x) {
                            assert(held_keys(keys, running).contains(x));
                            let j = choose|j: int| running.contains(j) && 0 <= j < keys.len() && keys[j] == x;
                            assert(j != i as int);
                            assert(next.1.contains(j));
                        }
                    }
                    assert forall|x: Seq<char>| initial.union(held_keys(keys, next.1)).contains(x) implies next.0.contains(x) by {
                        if initial.contains(x) {
                            assert(x != k);
                        } else {
                            let j = choose|j: int| next.1.contains(j) && 0 <= j < keys.len() && keys[j] == x;
                            assert(running.contains(j) && j != i as int);
                            assert(keys[j] != keys[i as int]);
                            assert(held_keys(keys, running).contains(x));
                        }
                    }
                }
            }
        },
    }
}

proof fn lemma_consolidation_events(
    initial: Set<Seq<char>>,
    keys: Seq<Seq<char>>,
    events: Seq<ConsolidationEvent>,
)
    requires
        forall|i: int| 0 <= i < keys.len() ==> !initial.contains(#[trigger] keys[i]),
    ensures
        consolidations_ok(initial, keys, consolidation_events(keys, (initial, Set::empty()), events)),
    decreases events.len(),
{
    if events.len() == 0 {
        assert(initial =~= initial.union(held_keys(keys, Set::<int>::empty())));
    } else {
        lemma_consolidation_events(initial, keys, events.drop_last());
        lemma_consolidation_step(
            initial,
            keys,
            consolidation_events(keys, (initial, Set::empty()), events.drop_last()),
            events.last(),
        );
    }
}

/// Consolidations that run at the same time and share one set, as a whole: after
/// any interleaving of their starts and ends, starting from a set that holds none
/// of their sessions, no two running calls have the same session (at most one runs
/// rounds per session), the set holds exactly what it held before plus the running
/// calls' sessions (no call inserts or removes another session), a running call's
/// end removes its own session, and once none is running the set is as it was
/// before (empty, when it started empty). No way through a consolidation is an
/// error (`begin_consolidation`). Each of them makes at most
/// `MAX_CONSOLIDATION_ROUNDS` rounds (`law_consolidation_per_session`).
pub proof fn law_concurrent_consolidations(
    initial: Set<Seq<char>>,
    keys: Seq<Seq<char>>,
    events: Seq<ConsolidationEvent>,
)
    requires
        forall|i: int| 0 <= i < keys.len() ==> !initial.contains(#[trigger] keys[i]),
    ensures
        ({
            let (set, running) = consolidation_events(keys, (initial, Set::empty()), events);
            &&& forall|i: int, j: int|
                running.contains(i) && running.contains(j) && i != j ==> #[trigger] keys[i] != #[trigger] keys[j]
            &&& set == initial.union(held_keys(keys, running))
            &&& running.is_empty() ==> set == initial
        }),
        forall|i: usize|
            #![trigger consolidation_events(keys, (initial, Set::empty()), events.push(ConsolidationEvent::End(i)))]
            consolidation_events(keys, (initial, Set::empty()), events).1.contains(i as int) ==> {
                let after = consolidation_events(
                    keys,
                    (initial, Set::empty()),
                    events.push(ConsolidationEvent::End(i)),
                );
                &&& !after.0.contains(keys[i as int])
                &&& !after.1.contains(i as int)
            },
{
    lemma_consolidation_events(initial, keys, events);
    let (set, running) = consolidation_events(keys, (initial, Set::empty()), events);
    if running.is_empty() {
        assert(held_keys(keys, running) =~= Set::<Seq<char>>::empty());
        assert(set =~= initial);
    }
    assert forall|i: usize|
        #![trigger consolidation_events(keys, (initial, Set::empty()), events.push(ConsolidationEvent::End(i)))]
        running.contains(i as int) implies {
            let after = consolidation_events(keys, (initial, Set::empty()), events.push(ConsolidationEvent::End(i)));
            &&& !after.0.contains(keys[i as int])
            &&& !after.1.contains(i as int)
        } by {
        let evs = events.push(ConsolidationEvent::End(i));
        assert(evs.drop_last() =~= events);
        let after = consolidation_events(keys, (initial, Set::empty()), evs);
        assert(after == consolidation_step(keys, (set, running), ConsolidationEvent::End(i)));
        lemma_consolidation_events(initial, keys, evs);
        if after.0.contains(keys[i as int]) {
            assert(held_keys(keys, after.1).contains(keys[i as int]));
            let j = choose|j: int| after.1.contains(j) && 0 <= j < keys.len() && keys[j] == keys[i as int];
            assert(running.contains(j) && j != i as int);
        }
    }
}

/// How a consolidation of a session begins.
pub enum ConsolidationStart {
    /// The session does not need it: nothing changes, the session is returned.
    NotNeeded,
    /// The session is being consolidated already: nothing changes, the session is
    /// returned.
    Busy,
    /// The session is marked as being consolidated, and the rounds start with
    /// this run; its end is `ConsolidatingSet::finish` with the same key.
    Started(ConsolidationRun),
}

/// The beginning of a consolidation of the session `key`, given whether it is
/// needed (`should_consolidate`): none when not needed; refused when the session
/// is being consolidated already; otherwise the session is marked and a fresh run
/// starts. No outcome is an error: every way through a consolidation hands the
/// session back.
pub fn begin_consolidation(
    set: &mut ConsolidatingSet,
    key: &str,
    needed: bool,
    max_input_tokens: usize,
    last_consolidated: usize,
) -> (r: ConsolidationStart)
    ensures
        !needed ==> r is NotNeeded && final(set)@ == old(set)@,
        needed && old(set)@.contains(key@) ==> r is Busy && final(set)@ == old(set)@,
        needed && !old(set)@.contains(key@) ==> final(set)@ == old(set)@.insert(key@) && (r matches ConsolidationStart::Started(run) && run.wf() && run.round == 0
            && run.consecutive_failures == 0 && run.last_consolidated == last_consolidated
            && run.target == max_input_tokens / 2),
{
    if !needed {
        return ConsolidationStart::NotNeeded;
    }
    if set.try_begin(key) {
        ConsolidationStart::Started(ConsolidationRun::new(max_input_tokens, last_consolidated))
    } else {
        proof {
            assert(old(set)@.insert(key@) =~= old(set)@);
        }
        ConsolidationStart::Busy
    }
}

impl ConsolidationRun {
    /// The run's invariant: no more rounds than allowed, and fewer failures in a
    /// row than lead to archiving.
    pub open spec fn wf(self) -> bool {
        &&& self.round <= MAX_CONSOLIDATION_ROUNDS
        &&& self.consecutive_failures < MAX_FAILURES_BEFORE_RAW_ARCHIVE
    }

    /// A run for a session consolidated up to `last_consolidated`, aiming at half
    /// of `max_input_tokens`.
    pub fn new(max_input_tokens: usize, last_consolidated: usize) -> (r: Self)
        ensures
            r.wf(),
            r.round == 0,
            r.consecutive_failures == 0,
            r.last_consolidated == last_consolidated,
            r.target == max_input_tokens / 2,
    {
        ConsolidationRun { round: 0, consecutive_failures: 0, last_consolidated, target: max_input_tokens / 2 }
    }

    /// The start of a round, given the estimated tokens of the unconsolidated
    /// messages: done when the rounds are used up or the estimate is within the
    /// aim; otherwise cut at least the excess over the aim, and at least one token.
    pub fn next_round(&self, estimated: usize) -> (r: RoundStep)
        requires
            self.wf(),
        ensures
            self.round >= MAX_CONSOLIDATION_ROUNDS ==> r is Done,
            self.round < MAX_CONSOLIDATION_ROUNDS && estimated <= self.target ==> r is Done,
            self.round < MAX_CONSOLIDATION_ROUNDS && estimated > self.target ==> r == RoundStep::Cut(
                (estimated - self.target) as usize,
            ),
            r matches RoundStep::Cut(n) ==> n >= 1,
    {
        if self.round >= MAX_CONSOLIDATION_ROUNDS {
            return RoundStep::Done;
        }
        if estimated <= self.target {
            return RoundStep::Done;
        }
        let excess = estimated - self.target;
        RoundStep::Cut(if excess > 1 { excess } else { 1 })
    }

    /// The end of a round whose chunk ended before message `end_idx`, given the
    /// summary's outcome (the new first unconsolidated index, or `None` when the
    /// summary failed). A success moves the index and clears the failures; a
    /// failure counts, and the third in a row archives the chunk as it is (the
    /// result is `true`), moves the index to `end_idx` and clears the failures.
    pub fn finish_round(&mut self, end_idx: usize, outcome: Option<usize>) -> (archive: bool)
        requires
            old(self).wf(),
            old(self).round < MAX_CONSOLIDATION_ROUNDS,
        ensures
            (*final(self), archive) == round_after(*old(self), end_idx, outcome),
            final(self).wf(),
            final(self).round == old(self).round + 1,
            final(self).target == old(self).target,
            match outcome {
                Some(new_last) => !archive && final(self).last_consolidated == new_last
                    && final(self).consecutive_failures == 0,
                None => if old(self).consecutive_failures + 1 >= MAX_FAILURES_BEFORE_RAW_ARCHIVE {
                    archive && final(self).last_consolidated == end_idx && final(self).consecutive_failures == 0
                } else {
                    !archive && final(self).last_consolidated == old(self).last_consolidated
                        && final(self).consecutive_failures == old(self).consecutive_failures + 1
                },
            },
    {
        self.round = self.round + 1;
        match outcome {
            Some(new_last) => {
                self.last_consolidated = new_last;
                self.consecutive_failures = 0;
                false
            },
            None => {
                self.consecutive_failures = self.consecutive_failures + 1;
                if self.consecutive_failures >= MAX_FAILURES_BEFORE_RAW_ARCHIVE {
                    self.last_consolidated = end_idx;
                    self.consecutive_failures = 0;
                    true
                } else {
                    false
                }
            },
        }
    }
}

} // verus!
