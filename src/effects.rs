use vstd::prelude::*;
use crate::grid::{EntityType, Position};
use crate::messages::{capture_text, countdown_text, death_text, escape_text, pull_text, push_decimal, texts};
use crate::session::Session;
use crate::turn::GravitationalAnomalyTimer;
use crate::zone::{Zone, ZoneEntity, adjacent4};

verus! {

pub open spec fn is_gravitational(e: ZoneEntity) -> bool {
    e.entity_type == EntityType::GravitationalAnomaly
}

/// The anomaly that pulls a player standing on `p`: the first gravitational
/// anomaly, in placement order, exactly one cell away along one axis.
pub open spec fn first_pull(entities: Seq<ZoneEntity>, p: Position) -> Option<Position>
    decreases entities.len(),
{
    if entities.len() == 0 {
        None
    } else if is_gravitational(entities[0]) && adjacent4(p, entities[0].pos) {
        Some(entities[0].pos)
    } else {
        first_pull(entities.drop_first(), p)
    }
}

/// Whether some gravitational anomaly is exactly one cell away from `p` along one axis.
pub open spec fn beside_anomaly(entities: Seq<ZoneEntity>, p: Position) -> bool {
    exists|i: int|
        0 <= i < entities.len() && is_gravitational(#[trigger] entities[i]) && adjacent4(p, entities[i].pos)
}

/// Whether `p` is on, or one cell along one axis from, a gravitational anomaly.
pub open spec fn near_anomaly(entities: Seq<ZoneEntity>, p: Position) -> bool {
    exists|i: int|
        0 <= i < entities.len() && is_gravitational(#[trigger] entities[i]) && (entities[i].pos == p
            || adjacent4(p, entities[i].pos))
}

/// The timer after one tick's update: one less (never below zero) while the
/// player stays near an anomaly, gone once they are out of range.
pub open spec fn timer_after(timer: Option<GravitationalAnomalyTimer>, near: bool) -> Option<
    GravitationalAnomalyTimer,
> {
    match timer {
        None => None,
        Some(t) => if near {
            Some(GravitationalAnomalyTimer(if t.0 > 0 { (t.0 - 1) as u32 } else { 0 }))
        } else {
            None
        },
    }
}

/// The message of the timer step: a countdown warning while in range, an
/// escape message once out of range, nothing without a timer.
pub open spec fn timer_messages(timer: Option<GravitationalAnomalyTimer>, near: bool) -> Seq<Seq<char>> {
    match timer_after(timer, near) {
        None => if timer is Some {
            seq![escape_text()]
        } else {
            Seq::empty()
        },
        Some(t) => seq![countdown_text(t.0)],
    }
}

/// The message of the death check: the death message exactly when the timer is at zero.
pub open spec fn death_messages(timer: Option<GravitationalAnomalyTimer>) -> Seq<Seq<char>> {
    if timer == Some(GravitationalAnomalyTimer(0)) {
        seq![death_text()]
    } else {
        Seq::empty()
    }
}

pub proof fn lemma_first_pull(entities: Seq<ZoneEntity>, p: Position)
    ensures
        first_pull(entities, p) is Some <==> beside_anomaly(entities, p),
        first_pull(entities, p) matches Some(a) ==> exists|i: int|
            0 <= i < entities.len() && is_gravitational(#[trigger] entities[i]) && entities[i].pos == a
                && adjacent4(p, a),
    decreases entities.len(),
{
    if entities.len() > 0 {
        let rest = entities.drop_first();
        lemma_first_pull(rest, p);
        if !(is_gravitational(entities[0]) && adjacent4(p, entities[0].pos)) {
            if beside_anomaly(entities, p) {
                let i = choose|i: int|
                    0 <= i < entities.len() && is_gravitational(#[trigger] entities[i]) && adjacent4(
                        p,
                        entities[i].pos,
                    );
                assert(rest[i - 1] == entities[i]);
            }
            if beside_anomaly(rest, p) {
                let i = choose|i: int|
                    0 <= i < rest.len() && is_gravitational(#[trigger] rest[i]) && adjacent4(p, rest[i].pos);
                assert(entities[i + 1] == rest[i]);
            }
            if first_pull(rest, p) is Some {
                let i = choose|i: int|
                    0 <= i < rest.len() && is_gravitational(#[trigger] rest[i]) && rest[i].pos
                        == first_pull(rest, p)->0 && adjacent4(p, first_pull(rest, p)->0);
                assert(entities[i + 1] == rest[i]);
            }
        }
    }
}

/// Whether `a` and `b` are one cell apart along one axis, or equal when `or_same`.
fn close_to(a: Position, b: Position, or_same: bool) -> (r: bool)
    ensures
        r == (adjacent4(a, b) || (or_same && a == b)),
{
    let dx: i64 = a.x as i64 - b.x as i64;
    let dy: i64 = a.y as i64 - b.y as i64;
    (dx == 0 && (dy == 1 || dy == -1)) || (dy == 0 && (dx == 1 || dx == -1)) || (or_same && dx == 0
        && dy == 0)
}

impl Zone {
    /// Where a player standing on `p` is pulled, if anywhere.
    pub fn pull_target(&self, p: Position) -> (r: Option<Position>)
        ensures
            r == first_pull(self.entities@, p),
    {
        let ghost all = self.entities@;
        let mut i: usize = 0;
        assert(all.subrange(0, all.len() as int) =~= all);
        while i < self.entities.len()
            invariant
                i <= all.len(),
                all == self.entities@,
                first_pull(all, p) == first_pull(all.subrange(i as int, all.len() as int), p),
            decreases all.len() - i,
        {
            let e = self.entities[i];
            proof {
                let rest = all.subrange(i as int, all.len() as int);
                assert(rest[0] == e);
                assert(rest.drop_first() =~= all.subrange(i + 1, all.len() as int));
            }
            if e.entity_type == EntityType::GravitationalAnomaly && close_to(p, e.pos, false) {
                return Some(e.pos);
            }
            i += 1;
        }
        None
    }

    /// Whether `p` is on or beside a gravitational anomaly.
    pub fn is_near_anomaly(&self, p: Position) -> (r: bool)
        ensures
            r == near_anomaly(self.entities@, p),
    {
        let mut i: usize = 0;
        while i < self.entities.len()
            invariant
                i <= self.entities@.len(),
                forall|j: int|
                    0 <= j < i ==> !(is_gravitational(#[trigger] self.entities@[j]) && (
                    self.entities@[j].pos == p || adjacent4(p, self.entities@[j].pos))),
            decreases self.entities@.len() - i,
        {
            let e = self.entities[i];
            if e.entity_type == EntityType::GravitationalAnomaly && close_to(p, e.pos, true) {
                return true;
            }
            i += 1;
        }
        false
    }
}

impl Session {
    /// Everything but the player's cell and capture timer is left alone.
    pub open spec fn only_player_moved(&self, other: &Session) -> bool {
        &&& self.zone == other.zone
        &&& self.player.inventory == other.player.inventory
        &&& self.capacity == other.capacity
        &&& self.last_direction == other.last_direction
        &&& self.phase == other.phase
        &&& self.turn == other.turn
        &&& self.log == other.log
        &&& self.contracts == other.contracts
    }

    /// First step of a world update.  An uncaptured player beside a gravitational
    /// anomaly is pulled onto it (the first such anomaly in placement order) and
    /// captured with five turns to escape; a captured player is never pulled.
    pub fn gravitational_pull_system(&mut self, events: &mut Vec<String>)
        requires
            old(self).wf(),
        ensures
            final(self).wf(),
            final(self).only_player_moved(old(self)),
            match (old(self).player.capture, first_pull(old(self).zone.entities@, old(self).player.pos)) {
                (None, Some(a)) => final(self).player.pos == a && final(self).player.capture == Some(
                    GravitationalAnomalyTimer(5),
                ) && texts(final(events)@) == texts(old(events)@).push(pull_text()).push(
                    capture_text(),
                ),
                _ => final(self).player.pos == old(self).player.pos && final(self).player.capture
                    == old(self).player.capture && final(events)@ == old(events)@,
            },
    {
        if self.player.capture.is_some() {
            return;
        }
        let p = self.player.pos;
        let a = match self.zone.pull_target(p) {
            Some(a) => a,
            None => {
                return;
            },
        };
        proof {
            lemma_first_pull(self.zone.entities@, p);
        }
        let mut next = p;
        if p.x < a.x {
            next.x = p.x + 1;
        } else if p.x > a.x {
            next.x = p.x - 1;
        } else if p.y < a.y {
            next.y = p.y + 1;
        } else if p.y > a.y {
            next.y = p.y - 1;
        }
        // the anomaly is one step away, so one step towards it lands on it
        assert(next == a);
        self.player.pos = next;
        self.player.capture = Some(GravitationalAnomalyTimer(5));
        let ghost before = events@;
        events.push("Gravitational anomaly pulls you in!".to_owned());
        events.push("Immense pressure... 5 turns to escape!".to_owned());
        assert(texts(events@) =~= texts(before).push(pull_text()).push(capture_text()));
    }

    /// Fourth step of a world update: a captured player near an anomaly loses a
    /// turn from the timer; one who got out of range is freed.
    pub fn gravitational_timer_system(&mut self, events: &mut Vec<String>)
        requires
            old(self).wf(),
        ensures
            final(self).wf(),
            final(self).only_player_moved(old(self)),
            final(self).player.pos == old(self).player.pos,
            final(self).player.capture == timer_after(
                old(self).player.capture,
                near_anomaly(old(self).zone.entities@, old(self).player.pos),
            ),
            texts(final(events)@) == texts(old(events)@) + timer_messages(
                old(self).player.capture,
                near_anomaly(old(self).zone.entities@, old(self).player.pos),
            ),
    {
        let ghost before = events@;
        let t = match self.player.capture {
            Some(t) => t,
            None => {
                assert(texts(before) + Seq::<Seq<char>>::empty() =~= texts(before));
                return;
            },
        };
        if self.zone.is_near_anomaly(self.player.pos) {
            let left: u32 = if t.0 > 0 { t.0 - 1 } else { 0 };
            self.player.capture = Some(GravitationalAnomalyTimer(left));
            let mut msg = "Crushing pressure! ".to_owned();
            push_decimal(&mut msg, left);
            msg.append(" turns left!");
            events.push(msg);
            assert(texts(events@) =~= texts(before) + seq![countdown_text(left)]);
        } else {
            self.player.capture = None;
            events.push("You break free from the anomaly!".to_owned());
            assert(texts(events@) =~= texts(before) + seq![escape_text()]);
        }
    }

    /// Fifth step of a world update: a capture timer at zero kills the player.
    pub fn death_check_system(&self, events: &mut Vec<String>) -> (r: bool)
        ensures
            r == (self.player.capture == Some(GravitationalAnomalyTimer(0))),
            texts(final(events)@) == texts(old(events)@) + death_messages(self.player.capture),
    {
        let ghost before = events@;
        proof {
            assert(texts(before) + Seq::<Seq<char>>::empty() =~= texts(before));
        }
        match self.player.capture {
            Some(t) => if t.0 == 0 {
                events.push("You are crushed to death!".to_owned());
                assert(texts(events@) =~= texts(before) + seq![death_text()]);
                true
            } else {
                false
            },
            None => false,
        }
    }
}

} // verus!
