use vstd::prelude::*;
use crate::contract::ContractSystem;
use crate::grid::{EntityType, Position, TileKind};
use crate::inventory::{CarryCapacity, Inventory, LastMoveDirection, offset_of, weight_sum};
use crate::message_log::MessageLog;
use crate::turn::{GravitationalAnomalyTimer, TurnCounter, TurnPhase};
use crate::zone::Zone;

verus! {

/// The player: where they stand, what they carry, and whether an anomaly holds them.
#[derive(Debug)]
pub struct PlayerState {
    pub pos: Position,
    pub inventory: Inventory,
    /// Present only while captured by a gravitational anomaly.
    pub capture: Option<GravitationalAnomalyTimer>,
}

/// Why a session could not start.
#[derive(Debug, Clone, Copy, PartialEq, Eq, Structural)]
pub enum SetupError {
    /// The map has no PlayerStart marker, so there is nowhere to put the player.
    NoPlayerStart,
}

/// What became of a move request.
#[derive(Debug, Clone, Copy, PartialEq, Eq, Structural)]
pub enum MoveResult {
    Moved,
    /// The carried weight exceeds the effective capacity.
    Overweight,
    OutOfBounds,
    Wall,
    /// Moves are only taken during the player's turn.
    NotPlayerTurn,
}

/// One running visit to the zone.
#[derive(Debug)]
pub struct Session {
    pub zone: Zone,
    pub player: PlayerState,
    pub capacity: CarryCapacity,
    pub last_direction: LastMoveDirection,
    pub phase: TurnPhase,
    pub turn: TurnCounter,
    pub log: MessageLog,
    pub contracts: ContractSystem,
}

/// The cell one step from `p` in direction `d`.
pub open spec fn step_from(p: Position, d: LastMoveDirection) -> (int, int) {
    (p.x + offset_of(d).0, p.y + offset_of(d).1)
}

impl Session {
    pub open spec fn wf(&self) -> bool {
        &&& self.zone.wf()
        &&& self.zone.contains(self.player.pos)
        &&& self.log.wf()
    }

    /// Whether the player is over the threshold that applies to them now.
    pub open spec fn overweight(&self) -> bool {
        weight_sum(self.player.inventory@) > self.capacity.threshold(self.player.capture is Some) as int
    }

    /// The outcome of a move in direction `d` from this state.
    pub open spec fn move_outcome(&self, d: LastMoveDirection) -> MoveResult {
        let (x, y) = step_from(self.player.pos, d);
        if self.phase != TurnPhase::PlayerTurn {
            MoveResult::NotPlayerTurn
        } else if self.overweight() {
            MoveResult::Overweight
        } else if !self.zone.grid.in_bounds(x, y) {
            MoveResult::OutOfBounds
        } else if self.zone.grid.is_wall(x, y) {
            MoveResult::Wall
        } else {
            MoveResult::Moved
        }
    }

    /// During the player's turn, a move is refused for weight exactly when the
    /// player is over the effective threshold, whatever the direction.
    pub proof fn lemma_overweight_blocks_every_direction(&self, d: LastMoveDirection, e: LastMoveDirection)
        requires
            self.phase == TurnPhase::PlayerTurn,
        ensures
            (self.move_outcome(d) == MoveResult::Overweight) <==> self.overweight(),
            (self.move_outcome(d) == MoveResult::Overweight) <==> (self.move_outcome(e)
                == MoveResult::Overweight),
    {
    }

    /// Starts a visit: the player appears on the first PlayerStart marker with an
    /// empty inventory, uncaptured, on turn 0, in the briefing phase.
    pub fn start(zone: Zone, capacity: CarryCapacity, contracts: ContractSystem) -> (r: Result<
        Session,
        SetupError,
    >)
        requires
            zone.wf(),
        ensures
            match r {
                Ok(s) => {
                    &&& s.wf()
                    &&& s.zone == zone
                    &&& exists|i: int|
                        0 <= i < zone.entities@.len() && (#[trigger] zone.entities@[i]).entity_type
                            == EntityType::PlayerStart && zone.entities@[i].pos == s.player.pos
                            && forall|j: int|
                            0 <= j < i ==> (#[trigger] zone.entities@[j]).entity_type
                                != EntityType::PlayerStart
                    &&& s.player.inventory@.len() == 0
                    &&& s.player.capture is None
                    &&& s.phase == TurnPhase::EnteringZone
                    &&& s.turn.0 == 0
                    &&& s.capacity == capacity
                    &&& s.contracts == contracts
                },
                Err(e) => e == SetupError::NoPlayerStart && forall|j: int|
                    0 <= j < zone.entities@.len() ==> (#[trigger] zone.entities@[j]).entity_type
                        != EntityType::PlayerStart,
            },
    {
        let i = match zone.find_first(EntityType::PlayerStart) {
            Some(i) => i,
            None => {
                return Err(SetupError::NoPlayerStart);
            },
        };
        let pos = zone.entities[i].pos;
        let mut log = MessageLog::new();
        log.add_message("You enter the Zone...".to_owned());
        let player = PlayerState { pos, inventory: Inventory::new(), capture: None };
        proof {
            assert(player.inventory@ =~= Seq::<crate::item::ItemView>::empty());
        }
        Ok(
            Session {
                zone,
                player,
                capacity,
                last_direction: LastMoveDirection::North,
                phase: TurnPhase::EnteringZone,
                turn: TurnCounter(0),
                log,
                contracts,
            },
        )
    }

    /// Whether the current carried weight blocks movement.
    pub fn is_overweight(&self) -> (r: bool)
        ensures
            r == self.overweight(),
    {
        let limit = self.capacity.effective(self.player.capture.is_some());
        self.player.inventory.total_weight() > limit as u128
    }

    /// Takes one step in direction `d` during the player's turn.  A move that
    /// succeeds always hands the turn to the world update.
    pub fn apply_move(&mut self, d: LastMoveDirection) -> (r: MoveResult)
        requires
            old(self).wf(),
        ensures
            final(self).wf(),
            r == old(self).move_outcome(d),
            final(self).zone == old(self).zone,
            final(self).player.inventory == old(self).player.inventory,
            final(self).player.capture == old(self).player.capture,
            final(self).turn == old(self).turn,
            final(self).contracts == old(self).contracts,
            r != MoveResult::Overweight ==> final(self).log == old(self).log,
            r == MoveResult::Overweight ==> final(self).log.view_messages().last()
                == "You're carrying too much weight to move!"@,
            r == MoveResult::Moved ==> {
                &&& final(self).player.pos.x == step_from(old(self).player.pos, d).0
                &&& final(self).player.pos.y == step_from(old(self).player.pos, d).1
                &&& final(self).last_direction == d
                &&& final(self).phase == TurnPhase::WorldUpdate
            },
            r != MoveResult::Moved ==> {
                &&& final(self).player.pos == old(self).player.pos
                &&& final(self).last_direction == old(self).last_direction
                &&& final(self).phase == old(self).phase
            },
    {
        if self.phase != TurnPhase::PlayerTurn {
            return MoveResult::NotPlayerTurn;
        }
        if self.is_overweight() {
            self.log.add_message("You're carrying too much weight to move!".to_owned());
            return MoveResult::Overweight;
        }
        let (dx, dy) = d.offset();
        let nx: i64 = self.player.pos.x as i64 + dx as i64;
        let ny: i64 = self.player.pos.y as i64 + dy as i64;
        if nx < 0 || ny < 0 || nx >= self.zone.grid.width as i64 || ny >= self.zone.grid.height as i64 {
            return MoveResult::OutOfBounds;
        }
        if self.zone.grid.tiles[ny as usize][nx as usize].kind == TileKind::Wall {
            return MoveResult::Wall;
        }
        self.player.pos = Position { x: nx as i32, y: ny as i32 };
        self.last_direction = d;
        self.phase = TurnPhase::WorldUpdate;
        MoveResult::Moved
    }
}

} // verus!
