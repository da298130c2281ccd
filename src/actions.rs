use vstd::prelude::*;
use crate::anomalies::has_metal;
use crate::contract::{ContractStatus, requirements_met, same_terms};
use crate::grid::{EntityType, ItemType, Position};
use crate::inventory::{LastMoveDirection, offset_of};
use crate::item::{Item, ItemView, catalog};
use crate::session::{Session, step_from};
use crate::turn::{TurnCounter, TurnPhase};
use crate::zone::{Zone, ZoneEntity, lemma_items_at_absent, lemma_items_at_index};

verus! {

/// The selection after a step down (`down`) or up in a list of `count` rows;
/// it stays within the list.
pub open spec fn selection_after(selected: usize, count: usize, down: bool) -> usize {
    if count == 0 {
        selected
    } else if down {
        if selected < count - 1 {
            (selected + 1) as usize
        } else {
            selected
        }
    } else if selected > 0 {
        (selected - 1) as usize
    } else {
        selected
    }
}

/// Moves a list selection one row down or up, stopping at either end.
pub fn move_selection(selected: usize, count: usize, down: bool) -> (r: usize)
    ensures
        r == selection_after(selected, count, down),
{
    if count == 0 {
        selected
    } else if down {
        if selected < count - 1 {
            selected + 1
        } else {
            selected
        }
    } else if selected > 0 {
        selected - 1
    } else {
        selected
    }
}

pub open spec fn is_anomaly(t: EntityType) -> bool {
    t == EntityType::GravitationalAnomaly || t == EntityType::PhilosopherStone || t
        == EntityType::RustAnomaly
}

/// The first anomaly, in placement order, standing on `p`.
pub open spec fn first_anomaly_at(entities: Seq<ZoneEntity>, p: Position) -> Option<EntityType>
    decreases entities.len(),
{
    if entities.len() == 0 {
        None
    } else if entities[0].pos == p && is_anomaly(entities[0].entity_type) {
        Some(entities[0].entity_type)
    } else {
        first_anomaly_at(entities.drop_first(), p)
    }
}

/// Why a thrown bolt came down.
#[derive(Debug, Clone, Copy, PartialEq, Eq, Structural)]
pub enum BoltStop {
    /// The next cell is off the grid; the bolt lands where it is.
    OutOfSight,
    /// The next cell is a wall; the bolt lands where it is.
    Wall,
    /// The bolt hits an anomaly and falls on its cell.
    Anomaly(EntityType),
    /// The bolt has flown its full range.
    Range,
}

/// Farthest a bolt flies, in cells.
pub const BOLT_RANGE: u32 = 5;

/// Where a bolt flying in direction `d` from `p`, having flown `flown` cells, comes down.
pub open spec fn bolt_flight(z: Zone, p: Position, d: LastMoveDirection, flown: nat) -> (
    Position,
    BoltStop,
)
    decreases BOLT_RANGE - flown,
{
    let (x, y) = step_from(p, d);
    let next = Position { x: x as i32, y: y as i32 };
    if !z.grid.in_bounds(x, y) {
        (p, BoltStop::OutOfSight)
    } else if z.grid.is_wall(x, y) {
        (p, BoltStop::Wall)
    } else if first_anomaly_at(z.entities@, next) is Some {
        (next, BoltStop::Anomaly(first_anomaly_at(z.entities@, next)->0))
    } else if flown + 1 >= BOLT_RANGE {
        (next, BoltStop::Range)
    } else {
        bolt_flight(z, next, d, flown + 1)
    }
}

/// Cells at most two steps apart, counting steps along both axes.
pub open spec fn within_two(a: Position, b: Position) -> bool {
    let dx = a.x - b.x;
    let dy = a.y - b.y;
    (if dx >= 0 { dx } else { -dx }) + (if dy >= 0 { dy } else { -dy }) <= 2
}

impl Zone {
    /// The first anomaly standing on `p`.
    pub fn check_anomaly_collision(&self, p: Position) -> (r: Option<EntityType>)
        ensures
            r == first_anomaly_at(self.entities@, p),
    {
        let ghost all = self.entities@;
        let mut i: usize = 0;
        assert(all.subrange(0, all.len() as int) =~= all);
        while i < self.entities.len()
            invariant
                i <= all.len(),
                all == self.entities@,
                first_anomaly_at(all, p) == first_anomaly_at(all.subrange(i as int, all.len() as int), p),
            decreases all.len() - i,
        {
            let e = self.entities[i];
            proof {
                let rest = all.subrange(i as int, all.len() as int);
                assert(rest[0] == e);
                assert(rest.drop_first() =~= all.subrange(i + 1, all.len() as int));
            }
            if e.pos == p && (e.entity_type == EntityType::GravitationalAnomaly || e.entity_type
                == EntityType::PhilosopherStone || e.entity_type == EntityType::RustAnomaly) {
                return Some(e.entity_type);
            }
            i += 1;
        }
        None
    }

    /// Flies a bolt from `start` in direction `d` and reports where and why it lands.
    pub fn bolt_landing(&self, start: Position, d: LastMoveDirection) -> (r: (Position, BoltStop))
        requires
            self.wf(),
            self.contains(start),
        ensures
            r == bolt_flight(*self, start, d, 0),
            self.contains(r.0),
    {
        let (dx, dy) = d.offset();
        let mut p = start;
        let mut flown: u32 = 0;
        while flown < BOLT_RANGE
            invariant
                self.wf(),
                self.contains(p),
                flown < BOLT_RANGE,
                bolt_flight(*self, start, d, 0) == bolt_flight(*self, p, d, flown as nat),
                offset_of(d) == (dx, dy),
            decreases BOLT_RANGE - flown,
        {
            let nx: i64 = p.x as i64 + dx as i64;
            let ny: i64 = p.y as i64 + dy as i64;
            if nx < 0 || ny < 0 || nx >= self.grid.width as i64 || ny >= self.grid.height as i64 {
                return (p, BoltStop::OutOfSight);
            }
            if self.grid.tiles[ny as usize][nx as usize].kind == crate::grid::TileKind::Wall {
                return (p, BoltStop::Wall);
            }
            let next = Position { x: nx as i32, y: ny as i32 };
            match self.check_anomaly_collision(next) {
                Some(t) => {
                    return (next, BoltStop::Anomaly(t));
                },
                None => {},
            }
            if flown + 1 >= BOLT_RANGE {
                return (next, BoltStop::Range);
            }
            p = next;
            flown += 1;
        }
        (p, BoltStop::Range)
    }

    /// Whether some pile within two steps of `p` holds a metal item.
    pub fn metal_near(&self, p: Position) -> (r: bool)
        ensures
            r == exists|i: int|
                0 <= i < self.ground@.len() && within_two(p, (#[trigger] self.ground@[i]).pos)
                    && has_metal(self.ground@[i].items@),
    {
        let mut i: usize = 0;
        while i < self.ground.len()
            invariant
                i <= self.ground@.len(),
                forall|k: int|
                    0 <= k < i ==> !(within_two(p, (#[trigger] self.ground@[k]).pos) && has_metal(
                        self.ground@[k].items@,
                    )),
            decreases self.ground@.len() - i,
        {
            let q = self.ground[i].pos;
            let dx: i64 = p.x as i64 - q.x as i64;
            let dy: i64 = p.y as i64 - q.y as i64;
            let ax: i64 = if dx >= 0 { dx } else { -dx };
            let ay: i64 = if dy >= 0 { dy } else { -dy };
            if ax + ay <= 2 {
                assert(within_two(p, self.ground@[i as int].pos));
                let ghost s = self.ground@[i as int].items@;
                let mut j: usize = 0;
                while j < self.ground[i].items.items.len()
                    invariant
                        i < self.ground@.len(),
                        s == self.ground@[i as int].items@,
                        within_two(p, self.ground@[i as int].pos),
                        j <= s.len(),
                        forall|k: int| 0 <= k < j ==> !(#[trigger] s[k]).is_metal,
                    decreases s.len() - j,
                {
                    if self.ground[i].items.items[j].is_metal {
                        assert(s[j as int] == self.ground@[i as int].items.items@[j as int]@);
                        assert(has_metal(s));
                        return true;
                    }
                    assert(s[j as int] == self.ground@[i as int].items.items@[j as int]@);
                    j += 1;
                }
            }
            assert(!(within_two(p, self.ground@[i as int].pos) && has_metal(self.ground@[i as int].items@)));
            i += 1;
        }
        false
    }
}

} // verus!

verus! {

/// Index of the first item named "Bolt" in `s`, where there is one.
pub open spec fn is_first_bolt(s: Seq<ItemView>, i: int) -> bool {
    &&& 0 <= i < s.len()
    &&& s[i].name == "Bolt"@
    &&& forall|j: int| 0 <= j < i ==> (#[trigger] s[j]).name != "Bolt"@
}

pub open spec fn carries_bolt(s: Seq<ItemView>) -> bool {
    exists|i: int| 0 <= i < s.len() && (#[trigger] s[i]).name == "Bolt"@
}

impl Session {
    /// Nothing but the phase differs.
    pub open spec fn only_phase_changed(&self, other: &Session) -> bool {
        &&& self.zone == other.zone
        &&& self.player.pos == other.player.pos
        &&& self.player.inventory == other.player.inventory
        &&& self.player.capture == other.player.capture
        &&& self.capacity == other.capacity
        &&& self.last_direction == other.last_direction
        &&& self.turn == other.turn
        &&& self.log == other.log
        &&& self.contracts == other.contracts
    }

    /// The phase becomes `to` when it is `from` and `allowed` holds; otherwise it stays.
    pub open spec fn switched(&self, other: &Session, from: TurnPhase, allowed: bool, to: TurnPhase) -> bool {
        &&& self.only_phase_changed(other)
        &&& self.phase == if other.phase == from && allowed {
            to
        } else {
            other.phase
        }
    }

    /// During the player's turn, opens the list of items on the player's cell, if any.
    pub fn open_inspect(&mut self) -> (r: bool)
        requires
            old(self).wf(),
        ensures
            final(self).wf(),
            r == (old(self).phase == TurnPhase::PlayerTurn && old(self).here().len() > 0),
            final(self).switched(old(self), TurnPhase::PlayerTurn, r, TurnPhase::InspectingItems),
    {
        if self.phase != TurnPhase::PlayerTurn {
            return false;
        }
        let ghost ground = self.zone.ground@;
        match self.zone.find_pile(self.player.pos) {
            Some(i) => {
                proof {
                    lemma_items_at_index(ground, i as int);
                }
                if self.zone.ground[i].items.is_empty() {
                    return false;
                }
                self.phase = TurnPhase::InspectingItems;
                true
            },
            None => {
                proof {
                    lemma_items_at_absent(ground, self.player.pos);
                }
                false
            },
        }
    }

    /// Closes the item list; looking does not cost a turn.
    pub fn close_inspect(&mut self)
        requires
            old(self).wf(),
        ensures
            final(self).wf(),
            final(self).switched(old(self), TurnPhase::InspectingItems, true, TurnPhase::PlayerTurn),
    {
        if self.phase == TurnPhase::InspectingItems {
            self.phase = TurnPhase::PlayerTurn;
        }
    }

    /// During the player's turn, opens the inventory.
    pub fn open_inventory(&mut self)
        requires
            old(self).wf(),
        ensures
            final(self).wf(),
            final(self).switched(old(self), TurnPhase::PlayerTurn, true, TurnPhase::ViewingInventory),
    {
        if self.phase == TurnPhase::PlayerTurn {
            self.phase = TurnPhase::ViewingInventory;
        }
    }

    /// Closes the inventory; managing it costs a turn, so the world updates next.
    pub fn close_inventory(&mut self)
        requires
            old(self).wf(),
        ensures
            final(self).wf(),
            final(self).switched(old(self), TurnPhase::ViewingInventory, true, TurnPhase::WorldUpdate),
    {
        if self.phase == TurnPhase::ViewingInventory {
            self.phase = TurnPhase::WorldUpdate;
        }
    }

    /// Leaves the briefing and starts play.
    pub fn close_enter_zone(&mut self)
        requires
            old(self).wf(),
        ensures
            final(self).wf(),
            final(self).switched(old(self), TurnPhase::EnteringZone, true, TurnPhase::PlayerTurn),
    {
        if self.phase == TurnPhase::EnteringZone {
            self.phase = TurnPhase::PlayerTurn;
        }
    }

    /// During the player's turn, standing on an Exit opens the extraction screen.
    pub fn detect_exit_system(&mut self) -> (r: bool)
        requires
            old(self).wf(),
        ensures
            final(self).wf(),
            r == (old(self).phase == TurnPhase::PlayerTurn && old(self).zone.has_entity(
                EntityType::Exit,
                old(self).player.pos,
            )),
            final(self).switched(old(self), TurnPhase::PlayerTurn, r, TurnPhase::ExitingZone),
    {
        if self.phase == TurnPhase::PlayerTurn && self.zone.has_entity_at(EntityType::Exit, self.player.pos) {
            self.phase = TurnPhase::ExitingZone;
            true
        } else {
            false
        }
    }

    /// During the player's turn, a player who carries a bolt gets ready to throw it.
    pub fn begin_bolt_throw(&mut self) -> (r: bool)
        requires
            old(self).wf(),
        ensures
            final(self).wf(),
            r == (old(self).phase == TurnPhase::PlayerTurn && carries_bolt(old(self).player.inventory@)),
            final(self).switched(old(self), TurnPhase::PlayerTurn, r, TurnPhase::ThrowingBolt),
    {
        if self.phase != TurnPhase::PlayerTurn {
            return false;
        }
        let bolt = "Bolt".to_owned();
        if self.player.inventory.position_named(&bolt).is_some() {
            self.phase = TurnPhase::ThrowingBolt;
            true
        } else {
            false
        }
    }

    /// Puts the bolt away without throwing it.
    pub fn cancel_bolt_throw(&mut self)
        requires
            old(self).wf(),
        ensures
            final(self).wf(),
            final(self).zone == old(self).zone,
            final(self).player.pos == old(self).player.pos,
            final(self).player.inventory == old(self).player.inventory,
            final(self).player.capture == old(self).player.capture,
            final(self).turn == old(self).turn,
            final(self).phase == if old(self).phase == TurnPhase::ThrowingBolt {
                TurnPhase::PlayerTurn
            } else {
                old(self).phase
            },
    {
        if self.phase == TurnPhase::ThrowingBolt {
            self.log.add_message("You put away the bolt.".to_owned());
            self.phase = TurnPhase::PlayerTurn;
        }
    }

    /// Throws the first carried bolt in direction `d`.  It flies until the next
    /// cell is off the grid or a wall, it hits an anomaly, or it has flown five
    /// cells; it comes to rest on the ground there, and the world updates next.
    pub fn throw_bolt(&mut self, d: LastMoveDirection) -> (r: Option<(Position, BoltStop)>)
        requires
            old(self).wf(),
        ensures
            final(self).wf(),
            r is Some <==> old(self).phase == TurnPhase::ThrowingBolt && carries_bolt(
                old(self).player.inventory@,
            ),
            r is None ==> *final(self) == *old(self),
            r matches Some(landing) ==> {
                &&& landing == bolt_flight(old(self).zone, old(self).player.pos, d, 0)
                &&& final(self).phase == TurnPhase::WorldUpdate
                &&& final(self).player.pos == old(self).player.pos
                &&& final(self).player.capture == old(self).player.capture
                &&& final(self).zone.grid == old(self).zone.grid
                &&& final(self).zone.entities == old(self).zone.entities
                &&& exists|i: int|
                    is_first_bolt(old(self).player.inventory@, i) && final(self).player.inventory@
                        == old(self).player.inventory@.remove(i)
                &&& forall|q: Position|
                    #[trigger] final(self).zone.ground_at(q) == if q == landing.0 {
                        old(self).zone.ground_at(q).push(catalog(ItemType::Bolt))
                    } else {
                        old(self).zone.ground_at(q)
                    }
            },
    {
        if self.phase != TurnPhase::ThrowingBolt {
            return None;
        }
        let bolt = "Bolt".to_owned();
        let i = match self.player.inventory.position_named(&bolt) {
            Some(i) => i,
            None => {
                return None;
            },
        };
        let ghost before = self.player.inventory.items@;
        let _ = self.player.inventory.remove_item(i);
        proof {
            assert(crate::item::views(before.remove(i as int)) =~= crate::item::views(before).remove(i as int));
        }
        let landing = self.zone.bolt_landing(self.player.pos, d);
        let line = match landing.1 {
            BoltStop::OutOfSight => "The bolt flies out of sight.",
            BoltStop::Wall => "The bolt clangs against the wall.",
            BoltStop::Anomaly(EntityType::GravitationalAnomaly) =>
                "The bolt curves sharply and falls to the ground near a gravitational distortion.",
            BoltStop::Anomaly(EntityType::PhilosopherStone) =>
                "The bolt strikes something shimmering and falls to the ground.",
            BoltStop::Anomaly(EntityType::RustAnomaly) =>
                "The bolt strikes something and begins to oxidize rapidly.",
            BoltStop::Anomaly(_) => "The bolt strikes something unusual.",
            BoltStop::Range => "The bolt falls to the ground harmlessly.",
        };
        self.log.add_message(line.to_owned());
        self.zone.add_ground_item(landing.0, Item::of_type(ItemType::Bolt));
        self.phase = TurnPhase::WorldUpdate;
        Some(landing)
    }

    /// While the item list is open, moves item `index` of the player's cell into
    /// the inventory; once the cell is bare the list closes.
    pub fn pickup(&mut self, index: usize) -> (r: Option<Item>)
        requires
            old(self).wf(),
        ensures
            final(self).wf(),
            r is Some <==> old(self).phase == TurnPhase::InspectingItems && index < old(self).here().len(),
            r is None ==> *final(self) == *old(self),
            r matches Some(item) ==> {
                &&& item@ == old(self).here()[index as int]
                &&& final(self).player.inventory@ == old(self).player.inventory@.push(item@)
                &&& final(self).here() == old(self).here().remove(index as int)
                &&& forall|q: Position|
                    q != old(self).player.pos ==> #[trigger] final(self).zone.ground_at(q) == old(
                        self,
                    ).zone.ground_at(q)
                &&& final(self).zone.grid == old(self).zone.grid
                &&& final(self).zone.entities == old(self).zone.entities
                &&& final(self).player.pos == old(self).player.pos
                &&& final(self).player.capture == old(self).player.capture
                &&& final(self).phase == if final(self).here().len() == 0 {
                    TurnPhase::PlayerTurn
                } else {
                    TurnPhase::InspectingItems
                }
            },
    {
        if self.phase != TurnPhase::InspectingItems {
            return None;
        }
        let pos = self.player.pos;
        let ghost ground = self.zone.ground@;
        match self.zone.find_pile(pos) {
            Some(i) => {
                proof {
                    lemma_items_at_index(ground, i as int);
                }
                if index >= self.zone.ground[i].items.count() {
                    return None;
                }
            },
            None => {
                proof {
                    lemma_items_at_absent(ground, pos);
                }
                return None;
            },
        }
        let item = match self.zone.take_ground_item(pos, index) {
            Some(item) => item,
            None => {
                return None;
            },
        };
        let copy = item.clone();
        let mut msg = "Picked up: ".to_owned();
        msg.append(item.name.as_str());
        self.log.add_message(msg);
        self.player.inventory.add_item(item);
        let ghost g = self.zone.ground@;
        match self.zone.find_pile(pos) {
            Some(i) => {
                proof {
                    lemma_items_at_index(g, i as int);
                }
            },
            None => {
                proof {
                    lemma_items_at_absent(g, pos);
                }
                self.phase = TurnPhase::PlayerTurn;
            },
        }
        Some(copy)
    }

    /// While the inventory is open, puts carried item `index` on the player's cell.
    pub fn drop_item(&mut self, index: usize) -> (r: bool)
        requires
            old(self).wf(),
        ensures
            final(self).wf(),
            r == (old(self).phase == TurnPhase::ViewingInventory && index < old(
                self,
            ).player.inventory@.len()),
            !r ==> *final(self) == *old(self),
            r ==> {
                &&& final(self).player.inventory@ == old(self).player.inventory@.remove(index as int)
                &&& final(self).here() == old(self).here().push(old(self).player.inventory@[index as int])
                &&& forall|q: Position|
                    q != old(self).player.pos ==> #[trigger] final(self).zone.ground_at(q) == old(
                        self,
                    ).zone.ground_at(q)
                &&& final(self).only_phase_changed_but_items(old(self))
            },
    {
        if self.phase != TurnPhase::ViewingInventory || index >= self.player.inventory.count() {
            return false;
        }
        let ghost before = self.player.inventory.items@;
        let item = match self.player.inventory.remove_item(index) {
            Some(item) => item,
            None => {
                return false;
            },
        };
        proof {
            assert(crate::item::views(before.remove(index as int)) =~= crate::item::views(before).remove(
                index as int,
            ));
        }
        self.zone.add_ground_item(self.player.pos, item);
        true
    }

    /// Ground items and inventory aside, nothing differs.
    pub open spec fn only_phase_changed_but_items(&self, other: &Session) -> bool {
        &&& self.zone.grid == other.zone.grid
        &&& self.zone.entities == other.zone.entities
        &&& self.player.pos == other.player.pos
        &&& self.player.capture == other.player.capture
        &&& self.phase == other.phase
        &&& self.turn == other.turn
        &&& self.log == other.log
        &&& self.contracts == other.contracts
    }

    /// Whether a carried metal detector senses metal on a pile within two steps.
    pub fn metal_detected(&self) -> (r: bool)
        ensures
            r == (self.player.inventory.has_metal_detector_spec() && exists|i: int|
                0 <= i < self.zone.ground@.len() && within_two(
                    self.player.pos,
                    (#[trigger] self.zone.ground@[i]).pos,
                ) && has_metal(self.zone.ground@[i].items@)),
    {
        self.player.inventory.has_metal_detector() && self.zone.metal_near(self.player.pos)
    }

    /// Scores the contracts against what the player carries out.
    pub fn exit_report(&mut self) -> (r: Vec<ContractStatus>)
        requires
            old(self).wf(),
        ensures
            final(self).wf(),
            same_terms(old(self).contracts.active_contracts@, final(self).contracts.active_contracts@),
            r@.len() == old(self).contracts.active_contracts@.len(),
            forall|i: int|
                0 <= i < r@.len() ==> (#[trigger] r@[i]).completed == requirements_met(
                    old(self).contracts.active_contracts@[i].requirements@,
                    old(self).player.inventory@,
                ) && final(self).contracts.active_contracts@[i].completed == r@[i].completed,
    {
        self.contracts.validate_contracts(&self.player.inventory)
    }

    /// Gets ready for the next visit: contracts open again, turn count and log cleared.
    pub fn prepare_restart_system(&mut self)
        requires
            old(self).wf(),
        ensures
            final(self).wf(),
            same_terms(old(self).contracts.active_contracts@, final(self).contracts.active_contracts@),
            forall|i: int|
                0 <= i < final(self).contracts.active_contracts@.len()
                    ==> !(#[trigger] final(self).contracts.active_contracts@[i]).completed,
            final(self).turn.0 == 0,
            final(self).log.view_messages().len() == 0,
    {
        self.contracts.reset();
        self.turn = TurnCounter(0);
        self.log.clear();
    }
}

} // verus!
