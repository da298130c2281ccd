use vstd::prelude::*;
use rand_pcg::Lcg64Xsh32;
use crate::anomalies::{rust_outcome, stone_outcome};
use crate::effects::{
    beside_anomaly, death_messages, first_pull, is_gravitational, lemma_first_pull, near_anomaly,
    timer_after, timer_messages,
};
use crate::item::ItemView;
use crate::messages::{capture_text, pull_text, texts};
use crate::grid::{EntityType, Position};
use crate::message_log::newest;
use crate::session::Session;
use crate::turn::{GravitationalAnomalyTimer, TurnCounter, TurnPhase, resolve_transition, resolved_phase};

verus! {

/// Where the player stands after the pull step.
pub open spec fn pulled_pos(s: &Session) -> Position {
    match (s.player.capture, first_pull(s.zone.entities@, s.player.pos)) {
        (None, Some(a)) => a,
        _ => s.player.pos,
    }
}

/// The capture timer after the pull step.
pub open spec fn pulled_capture(s: &Session) -> Option<GravitationalAnomalyTimer> {
    match (s.player.capture, first_pull(s.zone.entities@, s.player.pos)) {
        (None, Some(_)) => Some(GravitationalAnomalyTimer(5)),
        _ => s.player.capture,
    }
}

/// The messages of the pull step.
pub open spec fn pull_messages(s: &Session) -> Seq<Seq<char>> {
    match (s.player.capture, first_pull(s.zone.entities@, s.player.pos)) {
        (None, Some(_)) => seq![pull_text(), capture_text()],
        _ => Seq::empty(),
    }
}

/// The capture timer at the end of a world update.
pub open spec fn capture_after_update(s: &Session) -> Option<GravitationalAnomalyTimer> {
    timer_after(pulled_capture(s), near_anomaly(s.zone.entities@, pulled_pos(s)))
}

/// The turn count after one more completed update; it stops at the largest `u32`.
pub open spec fn next_turn(n: u32) -> u32 {
    if n < u32::MAX {
        (n + 1) as u32
    } else {
        n
    }
}

/// The pull moves the player exactly when they are uncaptured and beside a
/// gravitational anomaly; it always lands them on that anomaly's cell, with a
/// fresh five-turn timer.  A captured player is never pulled.
pub proof fn lemma_pull_only_when_free(s: &Session)
    ensures
        (pulled_pos(s) != s.player.pos) <==> (s.player.capture is None && beside_anomaly(
            s.zone.entities@,
            s.player.pos,
        )),
        s.player.capture is Some ==> pulled_pos(s) == s.player.pos && pulled_capture(s)
            == s.player.capture,
        pulled_pos(s) != s.player.pos ==> {
            &&& pulled_capture(s) == Some(GravitationalAnomalyTimer(5))
            &&& exists|i: int|
                0 <= i < s.zone.entities@.len() && is_gravitational(#[trigger] s.zone.entities@[i])
                    && s.zone.entities@[i].pos == pulled_pos(s)
        },
{
    lemma_first_pull(s.zone.entities@, s.player.pos);
}

/// While captured, each update takes exactly one turn off the timer (never
/// below zero) if the player is still on or beside an anomaly, and removes
/// the timer, without counting down, once they are out of range.
pub proof fn lemma_capture_counts_down(s: &Session, t: u32)
    requires
        s.player.capture == Some(GravitationalAnomalyTimer(t)),
    ensures
        pulled_pos(s) == s.player.pos,
        near_anomaly(s.zone.entities@, s.player.pos) ==> capture_after_update(s) == Some(
            GravitationalAnomalyTimer(if t > 0 { (t - 1) as u32 } else { 0 }),
        ),
        !near_anomaly(s.zone.entities@, s.player.pos) ==> capture_after_update(s) is None,
{
}

impl Session {
    /// Runs the world update once, in its fixed order: gravitational pull,
    /// Philosopher's Stone, rust corrosion, capture timer, death check, turn
    /// count, then the hand-back to the player.  A death requested on the way
    /// takes priority over the hand-back.  The messages of the tick are returned
    /// in order and added to the log.  Outside the update phase nothing happens.
    pub fn run_world_update(&mut self, rng: &mut Lcg64Xsh32) -> (events: Vec<String>)
        requires
            old(self).wf(),
        ensures
            final(self).wf(),
            old(self).phase != TurnPhase::WorldUpdate ==> *final(self) == *old(self)
                && events@.len() == 0,
            old(self).phase == TurnPhase::WorldUpdate ==> {
                &&& final(self).zone.grid == old(self).zone.grid
                &&& final(self).zone.entities == old(self).zone.entities
                &&& final(self).player.pos == pulled_pos(old(self))
                &&& final(self).player.capture == capture_after_update(old(self))
                &&& final(self).phase == if capture_after_update(old(self)) == Some(
                    GravitationalAnomalyTimer(0),
                ) {
                    TurnPhase::PlayerDead
                } else {
                    TurnPhase::PlayerTurn
                }
                &&& final(self).turn.0 == next_turn(old(self).turn.0)
                &&& final(self).capacity == old(self).capacity
                &&& final(self).last_direction == old(self).last_direction
                &&& final(self).contracts == old(self).contracts
                &&& forall|q: Position|
                    q != pulled_pos(old(self)) ==> #[trigger] final(self).zone.ground_at(q) == old(
                        self,
                    ).zone.ground_at(q)
                &&& (!old(self).zone.has_entity(EntityType::PhilosopherStone, pulled_pos(old(self)))
                    && !old(self).zone.has_entity(EntityType::RustAnomaly, pulled_pos(old(self))))
                    ==> final(self).zone.ground_at(pulled_pos(old(self))) == old(self).zone.ground_at(
                    pulled_pos(old(self)),
                ) && final(self).player.inventory@ == old(self).player.inventory@
                &&& exists|here1: Seq<ItemView>, e1: Seq<Seq<char>>, e2: Seq<Seq<char>>|
                    #![trigger stone_outcome(
                        old(self).zone.has_entity(EntityType::PhilosopherStone, pulled_pos(old(self))),
                        old(self).zone.ground_at(pulled_pos(old(self))),
                        here1,
                        pull_messages(old(self)),
                        e1,
                    ), rust_outcome(
                        old(self).zone.has_entity(EntityType::RustAnomaly, pulled_pos(old(self))),
                        here1,
                        old(self).player.inventory@,
                        final(self).zone.ground_at(pulled_pos(old(self))),
                        final(self).player.inventory@,
                        e1,
                        e2,
                    )]
                    stone_outcome(
                        old(self).zone.has_entity(EntityType::PhilosopherStone, pulled_pos(old(self))),
                        old(self).zone.ground_at(pulled_pos(old(self))),
                        here1,
                        pull_messages(old(self)),
                        e1,
                    ) && rust_outcome(
                        old(self).zone.has_entity(EntityType::RustAnomaly, pulled_pos(old(self))),
                        here1,
                        old(self).player.inventory@,
                        final(self).zone.ground_at(pulled_pos(old(self))),
                        final(self).player.inventory@,
                        e1,
                        e2,
                    ) && texts(events@) == e2 + timer_messages(
                        pulled_capture(old(self)),
                        near_anomaly(old(self).zone.entities@, pulled_pos(old(self))),
                    ) + death_messages(capture_after_update(old(self)))
                &&& final(self).log.view_messages() == newest(
                    old(self).log.view_messages() + events@.map_values(|m: String| m@),
                    old(self).log.capacity(),
                )
            },
    {
        let mut events: Vec<String> = Vec::new();
        if self.phase != TurnPhase::WorldUpdate {
            return events;
        }
        let mut requests: Vec<TurnPhase> = Vec::new();
        self.gravitational_pull_system(&mut events);
        assert(texts(events@) =~= pull_messages(old(self)));
        self.philosopher_stone_system(rng, &mut events);
        let ghost here1 = self.here();
        let ghost e1 = texts(events@);
        assert(stone_outcome(
            old(self).zone.has_entity(EntityType::PhilosopherStone, pulled_pos(old(self))),
            old(self).zone.ground_at(pulled_pos(old(self))),
            here1,
            pull_messages(old(self)),
            e1,
        ));
        self.rust_anomaly_system(rng, &mut events);
        let ghost e2 = texts(events@);
        let ghost here2 = self.here();
        let ghost pack2 = self.player.inventory@;
        assert(rust_outcome(
            old(self).zone.has_entity(EntityType::RustAnomaly, pulled_pos(old(self))),
            here1,
            old(self).player.inventory@,
            here2,
            pack2,
            e1,
            e2,
        ));
        self.gravitational_timer_system(&mut events);
        if self.death_check_system(&mut events) {
            requests.push(TurnPhase::PlayerDead);
        }
        assert(texts(events@) =~= e2 + timer_messages(
            pulled_capture(old(self)),
            near_anomaly(old(self).zone.entities@, pulled_pos(old(self))),
        ) + death_messages(capture_after_update(old(self))));
        let n = self.turn.0;
        self.turn = TurnCounter(if n < u32::MAX { n + 1 } else { n });
        requests.push(TurnPhase::PlayerTurn);
        proof {
            let r = requests@;
            if r.len() == 1 {
                assert(r =~= seq![TurnPhase::PlayerTurn]);
                assert(!r.contains(TurnPhase::PlayerDead)) by {
                    if r.contains(TurnPhase::PlayerDead) {
                        let j = choose|j: int| 0 <= j < r.len() && r[j] == TurnPhase::PlayerDead;
                    }
                }
                assert(r.drop_last() =~= Seq::<TurnPhase>::empty());
                assert(resolved_phase(r.drop_last()) == TurnPhase::PlayerTurn);
                assert(resolved_phase(r) == TurnPhase::PlayerTurn);
            } else {
                assert(r[0] == TurnPhase::PlayerDead);
                assert(r.contains(TurnPhase::PlayerDead));
            }
        }
        self.phase = resolve_transition(&requests);
        self.log.add_all(&events);
        assert(self.zone.ground_at(pulled_pos(old(self))) == here2);
        assert(self.player.inventory@ == pack2);
        events
    }
}

} // verus!
