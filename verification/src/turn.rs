use vstd::prelude::*;

verus! {

/// The shared counter at the heart of the turn-based ordering primitive.
///
/// Parallel workers race to produce results, but each result carries a sequence
/// index, and a worker emits its result downstream only once the counter equals
/// that index, advancing the counter right after. The blocking wait and wake-up
/// live with the caller (a mutex and condition variable around this state); the
/// counter logic and the ordering guarantee it gives are verified here.
pub struct TurnBasedSync {
    /// The index whose turn it is to emit.
    pub turn: usize,
}

impl TurnBasedSync {
    /// A fresh counter: index 0 emits first.
    pub fn new() -> (s: TurnBasedSync)
        ensures
            s.turn == 0,
    {
        TurnBasedSync { turn: 0 }
    }

    /// Whether it is `n`'s turn to emit; a worker holding result `n` waits until
    /// this holds.
    pub fn is_turn(&self, n: usize) -> (r: bool)
        ensures
            r == (self.turn == n),
    {
        self.turn == n
    }

    /// Ends the current turn, waking the worker holding the next index.
    pub fn advance_turn(&mut self)
        requires
            old(self).turn < usize::MAX,
        ensures
            final(self).turn == old(self).turn + 1,
    {
        self.turn = self.turn + 1;
    }
}

/// Law: turn-ordered emission sorts racing workers. `emitted[t]` is the index of
/// the result emitted `t`-th, and `counter[t]` is the shared turn counter at that
/// moment. If every worker emits only when the counter equals its result's index
/// (the wait) and the counter advances by one right after each emission, then the
/// results reach the downstream consumer exactly in index order 0, 1, 2, ... —
/// whatever order the workers produced them in.
pub proof fn lemma_turn_based_emission_order(emitted: Seq<int>, counter: Seq<int>)
    requires
        counter.len() == emitted.len() + 1,
        counter.len() >= 1,
        counter[0] == 0,
        forall|t: int| 0 <= t < emitted.len() ==> #[trigger] emitted[t] == counter[t],
        forall|t: int| 0 <= t < emitted.len() ==> #[trigger] counter[t + 1] == counter[t] + 1,
    ensures
        forall|t: int| 0 <= t < emitted.len() ==> #[trigger] emitted[t] == t,
        forall|t1: int, t2: int|
            0 <= t1 < t2 < emitted.len() ==> #[trigger] emitted[t1] < #[trigger] emitted[t2],
{
    assert forall|t: int| 0 <= t < emitted.len() implies #[trigger] emitted[t] == t by {
        lemma_counter_value(emitted, counter, t);
    }
}

/// The counter counts the emissions made so far.
proof fn lemma_counter_value(emitted: Seq<int>, counter: Seq<int>, t: int)
    requires
        counter.len() == emitted.len() + 1,
        counter[0] == 0,
        forall|u: int| 0 <= u < emitted.len() ==> #[trigger] counter[u + 1] == counter[u] + 1,
        0 <= t < emitted.len(),
        forall|u: int| 0 <= u < emitted.len() ==> #[trigger] emitted[u] == counter[u],
    ensures
        counter[t] == t,
        emitted[t] == t,
    decreases t,
{
    if t > 0 {
        lemma_counter_value(emitted, counter, t - 1);
        assert(counter[(t - 1) + 1] == counter[t - 1] + 1);
    }
}

} // verus!
