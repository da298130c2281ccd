use vstd::prelude::*;

verus! {

/// The phase of the current turn; exactly one is active at a time.
#[derive(Debug, Clone, Copy, PartialEq, Eq, Structural, Hash)]
pub enum TurnPhase {
    /// Waiting for the player's move.
    PlayerTurn,
    /// Running the effect pipeline once.
    WorldUpdate,
    InspectingItems,
    ViewingInventory,
    ThrowingBolt,
    EnteringZone,
    ExitingZone,
    /// Terminal for the session; only a restart leaves it.
    PlayerDead,
}

impl Default for TurnPhase {
    fn default() -> (r: TurnPhase)
        ensures
            r == TurnPhase::PlayerTurn,
    {
        TurnPhase::PlayerTurn
    }
}

/// Number of completed world updates.
#[derive(Debug, Clone, Copy, Default)]
pub struct TurnCounter(pub u32);

/// Turns left before a captured player is crushed.
#[derive(Debug, Clone, Copy, PartialEq, Eq, Structural)]
pub struct GravitationalAnomalyTimer(pub u32);

/// The phase that a tick's transition requests settle on: death first, then the
/// most recent request for any phase but `PlayerTurn`, else `PlayerTurn`.
pub open spec fn resolved_phase(requests: Seq<TurnPhase>) -> TurnPhase
    decreases requests.len(),
{
    if requests.contains(TurnPhase::PlayerDead) {
        TurnPhase::PlayerDead
    } else if requests.len() == 0 {
        TurnPhase::PlayerTurn
    } else if requests.last() != TurnPhase::PlayerTurn {
        requests.last()
    } else {
        resolved_phase(requests.drop_last())
    }
}

/// A tick settles on `PlayerDead` exactly when death was requested during it.
pub proof fn lemma_death_request_wins(requests: Seq<TurnPhase>)
    ensures
        (resolved_phase(requests) == TurnPhase::PlayerDead) <==> requests.contains(TurnPhase::PlayerDead),
    decreases requests.len(),
{
    if !requests.contains(TurnPhase::PlayerDead) && requests.len() > 0 {
        let rest = requests.drop_last();
        assert(!rest.contains(TurnPhase::PlayerDead)) by {
            if rest.contains(TurnPhase::PlayerDead) {
                let j = choose|j: int| 0 <= j < rest.len() && rest[j] == TurnPhase::PlayerDead;
                assert(requests[j] == TurnPhase::PlayerDead);
            }
        }
        assert(requests.last() != TurnPhase::PlayerDead) by {
            if requests.last() == TurnPhase::PlayerDead {
                assert(requests[requests.len() - 1] == TurnPhase::PlayerDead);
            }
        }
        lemma_death_request_wins(rest);
    }
}

/// Settles the transition requests made during one tick.
pub fn resolve_transition(requests: &Vec<TurnPhase>) -> (r: TurnPhase)
    ensures
        r == resolved_phase(requests@),
        requests@.contains(TurnPhase::PlayerDead) ==> r == TurnPhase::PlayerDead,
{
    let mut i: usize = 0;
    while i < requests.len()
        invariant
            i <= requests@.len(),
            forall|j: int| 0 <= j < i ==> requests@[j] != TurnPhase::PlayerDead,
        decreases requests@.len() - i,
    {
        if requests[i] == TurnPhase::PlayerDead {
            return TurnPhase::PlayerDead;
        }
        i += 1;
    }
    assert(!requests@.contains(TurnPhase::PlayerDead));
    let mut k: usize = requests.len();
    assert(requests@.subrange(0, k as int) =~= requests@);
    while k > 0
        invariant
            k <= requests@.len(),
            !requests@.contains(TurnPhase::PlayerDead),
            resolved_phase(requests@) == resolved_phase(requests@.subrange(0, k as int)),
        decreases k,
    {
        let ghost s = requests@.subrange(0, k as int);
        proof {
            assert(!s.contains(TurnPhase::PlayerDead)) by {
                if s.contains(TurnPhase::PlayerDead) {
                    let j = choose|j: int| 0 <= j < s.len() && s[j] == TurnPhase::PlayerDead;
                    assert(requests@[j] == TurnPhase::PlayerDead);
                }
            }
            assert(s.drop_last() =~= requests@.subrange(0, k - 1));
        }
        if requests[k - 1] != TurnPhase::PlayerTurn {
            return requests[k - 1];
        }
        k -= 1;
    }
    assert(requests@.subrange(0, 0) =~= Seq::<TurnPhase>::empty());
    TurnPhase::PlayerTurn
}

} // verus!
