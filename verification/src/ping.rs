use vstd::prelude::*;

use crate::c_text::{c_string_bytes, first_nul_char, lemma_c_string_round_trip, lemma_first_nul_char_props, received_text, text_before_nul};
use crate::decimal::{decimal, decimal_string, lemma_decimal_injective};

verus! {

/// The decisions of the ping task: it publishes its counter in decimal,
/// waits for the pong, requires the pong to echo the ping, and then counts
/// one more round.
pub struct PingTask {
    count: i32,
}

impl PingTask {
    /// The counter never goes below zero.
    #[verifier::type_invariant]
    spec fn counter_nonnegative(self) -> bool {
        self.count >= 0
    }
}

impl View for PingTask {
    type V = nat;

    /// The number of completed rounds.
    closed spec fn view(&self) -> nat {
        self.count as nat
    }
}

/// The pings of the first `n` rounds of a run, in order: round `i`
/// publishes `i` in decimal.
pub open spec fn ping_run(n: nat) -> Seq<Seq<char>> {
    Seq::new(n, |i: int| decimal(i as nat))
}

impl PingTask {
    /// The pings of the rounds completed so far, in the order published.
    pub open spec fn published(&self) -> Seq<Seq<char>> {
        ping_run(self@)
    }

    /// A task that has completed no round.
    pub fn new() -> (res: PingTask)
        ensures
            res@ == 0,
            res.published() == Seq::<Seq<char>>::empty(),
    {
        PingTask { count: 0 }
    }

    /// The number of completed rounds.
    pub fn count(&self) -> (res: i32)
        ensures
            res as int == self@,
    {
        proof {
            use_type_invariant(self);
        }
        self.count
    }

    /// The ping to publish next: the round counter in decimal.
    pub fn ping(&self) -> (res: String)
        ensures
            res@ == decimal(self@),
    {
        proof {
            use_type_invariant(self);
        }
        decimal_string(self.count as u32)
    }

    /// Takes the pong received for the current ping. When it echoes the ping
    /// the round is complete and the counter moves on; any other pong is
    /// refused and leaves the task as it was. The counter must have room for
    /// one more round.
    pub fn on_pong(&mut self, pong: &String) -> (echoed: bool)
        requires
            old(self)@ < i32::MAX,
        ensures
            echoed == (pong@ == decimal(old(self)@)),
            final(self)@ == if echoed {
                old(self)@ + 1
            } else {
                old(self)@
            },
            echoed ==> final(self).published() == old(self).published().push(pong@),
            !echoed ==> final(self).published() == old(self).published(),
    {
        proof {
            use_type_invariant(&*self);
            lemma_ping_run_grows(self@);
        }
        let ping = self.ping();
        if ping == *pong {
            self.count = self.count + 1;
            true
        } else {
            false
        }
    }
}

/// A run grows by the ping of its next round.
pub proof fn lemma_ping_run_grows(n: nat)
    ensures
        ping_run(n + 1) == ping_run(n).push(decimal(n)),
{
    assert(ping_run(n + 1) =~= ping_run(n).push(decimal(n)));
}

/// The pings of a run are `0`, `1`, `2`, ... in order, with no gap and no
/// repeat: round `i` published `i` in decimal, and no two rounds published
/// the same text.
pub proof fn lemma_ping_run(n: nat)
    ensures
        ping_run(n).len() == n,
        forall|i: int| 0 <= i < n ==> #[trigger] ping_run(n)[i] == decimal(i as nat),
        forall|i: int, j: int|
            0 <= i < n && 0 <= j < n && i != j ==> #[trigger] ping_run(n)[i] != #[trigger] ping_run(
                n,
            )[j],
{
    assert forall|i: int, j: int|
        0 <= i < n && 0 <= j < n && i != j implies #[trigger] ping_run(n)[i] != #[trigger] ping_run(
        n,
    )[j] by {
        lemma_other_round_refused(i as nat, j as nat);
    }
}

/// A pong that echoes the ping of any other round than the current one is
/// refused: `on_pong` accepts exactly the decimal text of the current round.
pub proof fn lemma_other_round_refused(round: nat, current: nat)
    requires
        round != current,
    ensures
        decimal(round) != decimal(current),
{
    if decimal(round) == decimal(current) {
        lemma_decimal_injective(round, current);
    }
}

/// No decimal notation holds a NUL character.
pub proof fn lemma_decimal_nul_free(n: nat)
    ensures
        forall|j: int| 0 <= j < decimal(n).len() ==> decimal(n)[j] != '\0',
    decreases n,
{
    if n >= 10 {
        lemma_decimal_nul_free(n / 10);
        assert forall|j: int| 0 <= j < decimal(n).len() implies decimal(n)[j] != '\0' by {
            if j < decimal(n / 10).len() {
                assert(decimal(n)[j] == decimal(n / 10)[j]);
            }
        }
    }
}

/// A ping framed for zenoh-pico and read back on the other side is the same
/// text: the pong node receives exactly the ping that was published.
pub proof fn lemma_ping_crosses_unchanged(n: nat)
    ensures
        received_text(c_string_bytes(decimal(n))) == Some(decimal(n)),
{
    lemma_c_string_round_trip(decimal(n));
    lemma_decimal_nul_free(n);
    lemma_first_nul_char_props(decimal(n));
    if first_nul_char(decimal(n)) < decimal(n).len() {
        assert(decimal(n)[first_nul_char(decimal(n))] != '\0');
    }
    assert(text_before_nul(decimal(n)) =~= decimal(n));
}

} // verus!
