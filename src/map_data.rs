use vstd::prelude::*;
use crate::grid::{EntityType, GameGrid, Position, Tile, TileKind, tile_of};
use crate::item::{GroundItems, Item, ItemView, clone_items, views};
use crate::zone::{GroundPile, Zone, ZoneEntity, items_at, lemma_items_at_absent, lemma_items_at_index, unique_cells};

verus! {

/// Terrain tag of the map format.
#[derive(Debug, Clone, Copy, PartialEq, Eq, Structural)]
pub enum SerializableTileKind {
    Floor,
    Wall,
}

/// Entity tag of the map format.
#[derive(Debug, Clone, Copy, PartialEq, Eq, Structural)]
pub enum SerializableEntityType {
    GravitationalAnomaly,
    PhilosopherStone,
    RustAnomaly,
    PlayerStart,
    Exit,
    LampPost,
}

pub open spec fn tag_of_kind(k: TileKind) -> SerializableTileKind {
    match k {
        TileKind::Floor => SerializableTileKind::Floor,
        TileKind::Wall => SerializableTileKind::Wall,
    }
}

pub open spec fn kind_of_tag(k: SerializableTileKind) -> TileKind {
    match k {
        SerializableTileKind::Floor => TileKind::Floor,
        SerializableTileKind::Wall => TileKind::Wall,
    }
}

pub open spec fn tag_of_entity(t: EntityType) -> SerializableEntityType {
    match t {
        EntityType::GravitationalAnomaly => SerializableEntityType::GravitationalAnomaly,
        EntityType::PhilosopherStone => SerializableEntityType::PhilosopherStone,
        EntityType::RustAnomaly => SerializableEntityType::RustAnomaly,
        EntityType::PlayerStart => SerializableEntityType::PlayerStart,
        EntityType::Exit => SerializableEntityType::Exit,
        EntityType::LampPost => SerializableEntityType::LampPost,
    }
}

pub open spec fn entity_of_tag(t: SerializableEntityType) -> EntityType {
    match t {
        SerializableEntityType::GravitationalAnomaly => EntityType::GravitationalAnomaly,
        SerializableEntityType::PhilosopherStone => EntityType::PhilosopherStone,
        SerializableEntityType::RustAnomaly => EntityType::RustAnomaly,
        SerializableEntityType::PlayerStart => EntityType::PlayerStart,
        SerializableEntityType::Exit => EntityType::Exit,
        SerializableEntityType::LampPost => EntityType::LampPost,
    }
}

impl From<TileKind> for SerializableTileKind {
    fn from(k: TileKind) -> (r: SerializableTileKind) {
        match k {
            TileKind::Floor => SerializableTileKind::Floor,
            TileKind::Wall => SerializableTileKind::Wall,
        }
    }
}

impl vstd::std_specs::convert::FromSpecImpl<TileKind> for SerializableTileKind {
    open spec fn obeys_from_spec() -> bool {
        true
    }

    open spec fn from_spec(k: TileKind) -> SerializableTileKind {
        tag_of_kind(k)
    }
}

impl From<SerializableTileKind> for TileKind {
    fn from(k: SerializableTileKind) -> (r: TileKind) {
        match k {
            SerializableTileKind::Floor => TileKind::Floor,
            SerializableTileKind::Wall => TileKind::Wall,
        }
    }
}

impl vstd::std_specs::convert::FromSpecImpl<SerializableTileKind> for TileKind {
    open spec fn obeys_from_spec() -> bool {
        true
    }

    open spec fn from_spec(k: SerializableTileKind) -> TileKind {
        kind_of_tag(k)
    }
}

impl From<EntityType> for SerializableEntityType {
    fn from(t: EntityType) -> (r: SerializableEntityType) {
        match t {
            EntityType::GravitationalAnomaly => SerializableEntityType::GravitationalAnomaly,
            EntityType::PhilosopherStone => SerializableEntityType::PhilosopherStone,
            EntityType::RustAnomaly => SerializableEntityType::RustAnomaly,
            EntityType::PlayerStart => SerializableEntityType::PlayerStart,
            EntityType::Exit => SerializableEntityType::Exit,
            EntityType::LampPost => SerializableEntityType::LampPost,
        }
    }
}

impl vstd::std_specs::convert::FromSpecImpl<EntityType> for SerializableEntityType {
    open spec fn obeys_from_spec() -> bool {
        true
    }

    open spec fn from_spec(t: EntityType) -> SerializableEntityType {
        tag_of_entity(t)
    }
}

impl From<SerializableEntityType> for EntityType {
    fn from(t: SerializableEntityType) -> (r: EntityType) {
        match t {
            SerializableEntityType::GravitationalAnomaly => EntityType::GravitationalAnomaly,
            SerializableEntityType::PhilosopherStone => EntityType::PhilosopherStone,
            SerializableEntityType::RustAnomaly => EntityType::RustAnomaly,
            SerializableEntityType::PlayerStart => EntityType::PlayerStart,
            SerializableEntityType::Exit => EntityType::Exit,
            SerializableEntityType::LampPost => EntityType::LampPost,
        }
    }
}

impl vstd::std_specs::convert::FromSpecImpl<SerializableEntityType> for EntityType {
    open spec fn obeys_from_spec() -> bool {
        true
    }

    open spec fn from_spec(t: SerializableEntityType) -> EntityType {
        entity_of_tag(t)
    }
}

/// An entity of the map format.
#[derive(Debug, Clone, Copy, PartialEq, Eq, Structural)]
pub struct PlacedEntity {
    pub entity_type: SerializableEntityType,
    pub x: usize,
    pub y: usize,
}

/// The items of one cell in the map format.
#[derive(Debug)]
pub struct PlacedGroundItems {
    pub x: usize,
    pub y: usize,
    pub items: Vec<Item>,
}

/// A saved map: terrain row by row, entities, and ground items.
#[derive(Debug)]
pub struct MapData {
    pub width: usize,
    pub height: usize,
    pub terrain: Vec<Vec<SerializableTileKind>>,
    pub entities: Vec<PlacedEntity>,
    pub items: Vec<PlacedGroundItems>,
}

/// Why a saved map cannot become a zone.
#[derive(Debug, Clone, Copy, PartialEq, Eq, Structural)]
pub enum MapError {
    /// A side is longer than `i32` positions can address.
    TooLarge,
    /// An entity lies outside the grid.
    EntityOutOfBounds,
    /// A ground-item record lies outside the grid.
    ItemsOutOfBounds,
}

impl MapData {
    /// The terrain kind that loading gives cell `(x, y)`: the stored tag, or
    /// Floor where the stored rows fall short.
    pub open spec fn stored_kind(&self, x: int, y: int) -> TileKind {
        if y < self.terrain@.len() && x < self.terrain@[y]@.len() {
            kind_of_tag(self.terrain@[y]@[x])
        } else {
            TileKind::Floor
        }
    }

    /// Records a grid, its entities and its ground items in the map format.
    pub fn from_game_state(
        grid: &GameGrid,
        entities: &[(EntityType, usize, usize)],
        ground_items: &[(GroundItems, usize, usize)],
    ) -> (r: MapData)
        requires
            grid.wf(),
        ensures
            r.width == grid.width,
            r.height == grid.height,
            r.terrain@.len() == grid.height,
            forall|y: int| 0 <= y < grid.height ==> (#[trigger] r.terrain@[y])@.len() == grid.width,
            forall|x: int, y: int|
                grid.in_bounds(x, y) ==> #[trigger] r.terrain@[y]@[x] == tag_of_kind(grid.tile_at(x, y).kind),
            r.entities@.len() == entities@.len(),
            forall|i: int|
                0 <= i < entities@.len() ==> #[trigger] r.entities@[i] == (PlacedEntity {
                    entity_type: tag_of_entity(entities@[i].0),
                    x: entities@[i].1,
                    y: entities@[i].2,
                }),
            r.items@.len() == ground_items@.len(),
            forall|i: int|
                0 <= i < ground_items@.len() ==> {
                    &&& (#[trigger] r.items@[i]).x == ground_items@[i].1
                    &&& r.items@[i].y == ground_items@[i].2
                    &&& r.items@[i].items@ == ground_items@[i].0.items@
                },
    {
        let mut terrain: Vec<Vec<SerializableTileKind>> = Vec::with_capacity(grid.height);
        let mut y: usize = 0;
        while y < grid.height
            invariant
                grid.wf(),
                y <= grid.height,
                terrain@.len() == y,
                forall|j: int| 0 <= j < y ==> (#[trigger] terrain@[j])@.len() == grid.width,
                forall|i: int, j: int|
                    0 <= j < y && 0 <= i < grid.width ==> #[trigger] terrain@[j]@[i] == tag_of_kind(
                        grid.tile_at(i, j).kind,
                    ),
            decreases grid.height - y,
        {
            let mut row: Vec<SerializableTileKind> = Vec::with_capacity(grid.width);
            let mut x: usize = 0;
            while x < grid.width
                invariant
                    grid.wf(),
                    y < grid.height,
                    x <= grid.width,
                    row@.len() == x,
                    forall|i: int| 0 <= i < x ==> #[trigger] row@[i] == tag_of_kind(grid.tile_at(i, y as int).kind),
                decreases grid.width - x,
            {
                let tag = match grid.get_tile(x, y) {
                    Some(tile) => SerializableTileKind::from(tile.kind),
                    None => SerializableTileKind::Floor,
                };
                row.push(tag);
                x += 1;
            }
            terrain.push(row);
            y += 1;
        }
        let mut placed: Vec<PlacedEntity> = Vec::with_capacity(entities.len());
        let mut i: usize = 0;
        while i < entities.len()
            invariant
                i <= entities@.len(),
                placed@.len() == i,
                forall|k: int|
                    0 <= k < i ==> #[trigger] placed@[k] == (PlacedEntity {
                        entity_type: tag_of_entity(entities@[k].0),
                        x: entities@[k].1,
                        y: entities@[k].2,
                    }),
            decreases entities@.len() - i,
        {
            let (t, x, y) = entities[i];
            placed.push(PlacedEntity { entity_type: SerializableEntityType::from(t), x, y });
            i += 1;
        }
        let mut items: Vec<PlacedGroundItems> = Vec::with_capacity(ground_items.len());
        let mut i: usize = 0;
        while i < ground_items.len()
            invariant
                i <= ground_items@.len(),
                items@.len() == i,
                forall|k: int|
                    0 <= k < i ==> {
                        &&& (#[trigger] items@[k]).x == ground_items@[k].1
                        &&& items@[k].y == ground_items@[k].2
                        &&& items@[k].items@ == ground_items@[k].0.items@
                    },
            decreases ground_items@.len() - i,
        {
            let (pile, x, y) = (&ground_items[i].0, ground_items[i].1, ground_items[i].2);
            items.push(PlacedGroundItems { x, y, items: clone_items(&pile.items) });
            i += 1;
        }
        MapData { width: grid.width, height: grid.height, terrain, entities: placed, items }
    }

    /// Builds the terrain grid; cells that the stored rows do not cover are Floor.
    pub fn to_game_grid(&self) -> (r: GameGrid)
        requires
            self.width <= i32::MAX,
            self.height <= i32::MAX,
        ensures
            r.wf(),
            r.width == self.width,
            r.height == self.height,
            forall|x: int, y: int|
                r.in_bounds(x, y) ==> #[trigger] r.tile_at(x, y) == tile_of(self.stored_kind(x, y)),
    {
        let mut tiles: Vec<Vec<Tile>> = Vec::with_capacity(self.height);
        let mut y: usize = 0;
        while y < self.height
            invariant
                y <= self.height,
                tiles@.len() == y,
                forall|j: int| 0 <= j < y ==> (#[trigger] tiles@[j])@.len() == self.width,
                forall|i: int, j: int|
                    0 <= j < y && 0 <= i < self.width ==> #[trigger] tiles@[j]@[i] == tile_of(
                        self.stored_kind(i, j),
                    ),
            decreases self.height - y,
        {
            let mut row: Vec<Tile> = Vec::with_capacity(self.width);
            let mut x: usize = 0;
            while x < self.width
                invariant
                    y < self.height,
                    x <= self.width,
                    row@.len() == x,
                    forall|i: int| 0 <= i < x ==> #[trigger] row@[i] == tile_of(self.stored_kind(i, y as int)),
                decreases self.width - x,
            {
                let kind = if y < self.terrain.len() && x < self.terrain[y].len() {
                    TileKind::from(self.terrain[y][x])
                } else {
                    TileKind::Floor
                };
                row.push(Tile::new(kind));
                x += 1;
            }
            tiles.push(row);
            y += 1;
        }
        GameGrid { tiles, width: self.width, height: self.height }
    }
}

} // verus!

verus! {

/// Whether a stored record lies on cell `q`.
pub open spec fn record_on(x: usize, y: usize, q: Position) -> bool {
    x as int == q.x as int && y as int == q.y as int
}

/// The items that loading puts on cell `q`: those of every record on `q`, in record order.
pub open spec fn stored_items_at(records: Seq<PlacedGroundItems>, q: Position) -> Seq<ItemView>
    decreases records.len(),
{
    if records.len() == 0 {
        Seq::empty()
    } else {
        stored_items_at(records.drop_last(), q) + if record_on(records.last().x, records.last().y, q) {
            views(records.last().items@)
        } else {
            Seq::empty()
        }
    }
}

/// `m` records zone `z`: its terrain, its entities and its piles, in order.
pub open spec fn saved_as(z: Zone, m: MapData) -> bool {
    &&& m.width == z.grid.width
    &&& m.height == z.grid.height
    &&& m.terrain@.len() == z.grid.height
    &&& forall|y: int| 0 <= y < z.grid.height ==> (#[trigger] m.terrain@[y])@.len() == z.grid.width
    &&& forall|x: int, y: int|
        z.grid.in_bounds(x, y) ==> #[trigger] m.terrain@[y]@[x] == tag_of_kind(z.grid.tile_at(x, y).kind)
    &&& m.entities@.len() == z.entities@.len()
    &&& forall|i: int|
        0 <= i < z.entities@.len() ==> #[trigger] m.entities@[i] == (PlacedEntity {
            entity_type: tag_of_entity(z.entities@[i].entity_type),
            x: z.entities@[i].pos.x as usize,
            y: z.entities@[i].pos.y as usize,
        })
    &&& m.items@.len() == z.ground@.len()
    &&& forall|i: int|
        0 <= i < z.ground@.len() ==> {
            &&& (#[trigger] m.items@[i]).x == z.ground@[i].pos.x as usize
            &&& m.items@[i].y == z.ground@[i].pos.y as usize
            &&& views(m.items@[i].items@) == z.ground@[i].items@
        }
}

impl MapData {
    pub open spec fn fits(&self) -> bool {
        self.width <= i32::MAX && self.height <= i32::MAX
    }

    pub open spec fn entities_inside(&self) -> bool {
        forall|i: int|
            0 <= i < self.entities@.len() ==> (#[trigger] self.entities@[i]).x < self.width
                && self.entities@[i].y < self.height
    }

    pub open spec fn items_inside(&self) -> bool {
        forall|i: int|
            0 <= i < self.items@.len() ==> (#[trigger] self.items@[i]).x < self.width && self.items@[i].y
                < self.height
    }

    /// Whether the map can be loaded.
    pub open spec fn loads(&self) -> bool {
        self.fits() && self.entities_inside() && self.items_inside()
    }

    /// `z` is what loading this map gives.
    pub open spec fn loaded_as(&self, z: Zone) -> bool {
        &&& z.wf()
        &&& z.grid.width == self.width
        &&& z.grid.height == self.height
        &&& forall|x: int, y: int|
            z.grid.in_bounds(x, y) ==> #[trigger] z.grid.tile_at(x, y) == tile_of(self.stored_kind(x, y))
        &&& z.entities@.len() == self.entities@.len()
        &&& forall|i: int|
            0 <= i < self.entities@.len() ==> #[trigger] z.entities@[i] == (ZoneEntity {
                entity_type: entity_of_tag(self.entities@[i].entity_type),
                pos: Position { x: self.entities@[i].x as i32, y: self.entities@[i].y as i32 },
            })
        &&& forall|q: Position| #[trigger] z.ground_at(q) == stored_items_at(self.items@, q)
    }

    /// Builds the zone that this map describes.  Ground-item records on the
    /// same cell are merged, in order; empty records leave no pile.
    pub fn to_zone(&self) -> (r: Result<Zone, MapError>)
        ensures
            r is Ok <==> self.loads(),
            r matches Ok(z) ==> self.loaded_as(z),
            r == Err::<Zone, MapError>(MapError::TooLarge) <==> !self.fits(),
            r == Err::<Zone, MapError>(MapError::EntityOutOfBounds) <==> self.fits()
                && !self.entities_inside(),
            r == Err::<Zone, MapError>(MapError::ItemsOutOfBounds) <==> self.fits()
                && self.entities_inside() && !self.items_inside(),
    {
        if self.width > i32::MAX as usize || self.height > i32::MAX as usize {
            return Err(MapError::TooLarge);
        }
        let mut zone = Zone::new(self.to_game_grid());
        let mut i: usize = 0;
        while i < self.entities.len()
            invariant
                self.fits(),
                zone.wf(),
                zone.grid.width == self.width,
                zone.grid.height == self.height,
                forall|x: int, y: int|
                    zone.grid.in_bounds(x, y) ==> #[trigger] zone.grid.tile_at(x, y) == tile_of(
                        self.stored_kind(x, y),
                    ),
                zone.ground@.len() == 0,
                i <= self.entities@.len(),
                zone.entities@.len() == i,
                forall|k: int|
                    0 <= k < i ==> (#[trigger] self.entities@[k]).x < self.width && self.entities@[k].y
                        < self.height,
                forall|k: int|
                    0 <= k < i ==> #[trigger] zone.entities@[k] == (ZoneEntity {
                        entity_type: entity_of_tag(self.entities@[k].entity_type),
                        pos: Position { x: self.entities@[k].x as i32, y: self.entities@[k].y as i32 },
                    }),
            decreases self.entities@.len() - i,
        {
            let e = self.entities[i];
            if e.x >= self.width || e.y >= self.height {
                return Err(MapError::EntityOutOfBounds);
            }
            zone.entities.push(
                ZoneEntity {
                    entity_type: EntityType::from(e.entity_type),
                    pos: Position { x: e.x as i32, y: e.y as i32 },
                },
            );
            i += 1;
        }
        let mut i: usize = 0;
        while i < self.items.len()
            invariant
                self.fits(),
                self.entities_inside(),
                zone.wf(),
                zone.grid.width == self.width,
                zone.grid.height == self.height,
                forall|x: int, y: int|
                    zone.grid.in_bounds(x, y) ==> #[trigger] zone.grid.tile_at(x, y) == tile_of(
                        self.stored_kind(x, y),
                    ),
                zone.entities@.len() == self.entities@.len(),
                forall|k: int|
                    0 <= k < self.entities@.len() ==> #[trigger] zone.entities@[k] == (ZoneEntity {
                        entity_type: entity_of_tag(self.entities@[k].entity_type),
                        pos: Position { x: self.entities@[k].x as i32, y: self.entities@[k].y as i32 },
                    }),
                i <= self.items@.len(),
                forall|k: int|
                    0 <= k < i ==> (#[trigger] self.items@[k]).x < self.width && self.items@[k].y
                        < self.height,
                forall|q: Position|
                    #[trigger] zone.ground_at(q) == stored_items_at(self.items@.subrange(0, i as int), q),
            decreases self.items@.len() - i,
        {
            let record = &self.items[i];
            if record.x >= self.width || record.y >= self.height {
                return Err(MapError::ItemsOutOfBounds);
            }
            let p = Position { x: record.x as i32, y: record.y as i32 };
            assert(forall|q: Position| record_on(record.x, record.y, q) <==> q == p);
            let ghost done = self.items@.subrange(0, i as int);
            let mut j: usize = 0;
            while j < record.items.len()
                invariant
                    zone.wf(),
                    zone.contains(p),
                    p.x as int == record.x as int,
                    p.y as int == record.y as int,
                    zone.grid.width == self.width,
                    zone.grid.height == self.height,
                    forall|x: int, y: int|
                        zone.grid.in_bounds(x, y) ==> #[trigger] zone.grid.tile_at(x, y) == tile_of(
                            self.stored_kind(x, y),
                        ),
                    zone.entities@.len() == self.entities@.len(),
                    forall|k: int|
                        0 <= k < self.entities@.len() ==> #[trigger] zone.entities@[k] == (ZoneEntity {
                            entity_type: entity_of_tag(self.entities@[k].entity_type),
                            pos: Position { x: self.entities@[k].x as i32, y: self.entities@[k].y as i32 },
                        }),
                    j <= record.items@.len(),
                    forall|q: Position|
                        #[trigger] zone.ground_at(q) == stored_items_at(done, q) + if record_on(
                            record.x,
                            record.y,
                            q,
                        ) {
                            views(record.items@.subrange(0, j as int))
                        } else {
                            Seq::empty()
                        },
                decreases record.items@.len() - j,
            {
                let item = record.items[j].clone();
                let ghost v = item@;
                let ghost before = zone;
                zone.add_ground_item(p, item);
                proof {
                    assert forall|q: Position|
                        #[trigger] zone.ground_at(q) == stored_items_at(done, q) + if record_on(
                            record.x,
                            record.y,
                            q,
                        ) {
                            views(record.items@.subrange(0, j + 1))
                        } else {
                            Seq::empty()
                        } by {
                        assert(views(record.items@.subrange(0, j + 1)) =~= views(
                            record.items@.subrange(0, j as int),
                        ).push(v));
                        let head = stored_items_at(done, q);
                        let part = views(record.items@.subrange(0, j as int));
                        if q == p {
                            assert(record_on(record.x, record.y, q));
                            assert(before.ground_at(q) == head + part);
                            assert(zone.ground_at(q) == before.ground_at(q).push(v));
                            assert((head + part).push(v) =~= head + part.push(v));
                        } else {
                            assert(!record_on(record.x, record.y, q));
                            assert(before.ground_at(q) == head + Seq::<ItemView>::empty());
                            assert(zone.ground_at(q) == before.ground_at(q));
                        }
                    }
                }
                j += 1;
            }
            proof {
                let next = self.items@.subrange(0, i + 1);
                assert(next.drop_last() =~= done);
                assert(record.items@.subrange(0, j as int) =~= record.items@);
                assert forall|q: Position|
                    #[trigger] zone.ground_at(q) == stored_items_at(next, q) by {
                    if !record_on(record.x, record.y, q) {
                        assert(stored_items_at(done, q) + Seq::<ItemView>::empty() =~= stored_items_at(done, q));
                    }
                }
            }
            i += 1;
        }
        proof {
            assert(self.items@.subrange(0, i as int) =~= self.items@);
        }
        Ok(zone)
    }
}

impl Zone {
    /// Records this zone in the map format.
    pub fn to_map_data(&self) -> (r: MapData)
        requires
            self.wf(),
        ensures
            saved_as(*self, r),
    {
        let mut placed: Vec<(EntityType, usize, usize)> = Vec::with_capacity(self.entities.len());
        let mut i: usize = 0;
        while i < self.entities.len()
            invariant
                self.wf(),
                i <= self.entities@.len(),
                placed@.len() == i,
                forall|k: int|
                    0 <= k < i ==> #[trigger] placed@[k] == (
                        self.entities@[k].entity_type,
                        self.entities@[k].pos.x as usize,
                        self.entities@[k].pos.y as usize,
                    ),
            decreases self.entities@.len() - i,
        {
            let e = self.entities[i];
            placed.push((e.entity_type, e.pos.x as usize, e.pos.y as usize));
            i += 1;
        }
        let mut piles: Vec<(GroundItems, usize, usize)> = Vec::with_capacity(self.ground.len());
        let mut i: usize = 0;
        while i < self.ground.len()
            invariant
                self.wf(),
                i <= self.ground@.len(),
                piles@.len() == i,
                forall|k: int|
                    0 <= k < i ==> {
                        &&& (#[trigger] piles@[k]).1 == self.ground@[k].pos.x as usize
                        &&& piles@[k].2 == self.ground@[k].pos.y as usize
                        &&& piles@[k].0.items@ == self.ground@[k].items.items@
                    },
            decreases self.ground@.len() - i,
        {
            let pile = &self.ground[i];
            let copy = GroundItems { items: clone_items(&pile.items.items) };
            piles.push((copy, pile.pos.x as usize, pile.pos.y as usize));
            i += 1;
        }
        MapData::from_game_state(&self.grid, placed.as_slice(), piles.as_slice())
    }
}

} // verus!

verus! {

proof fn lemma_stored_items_match(records: Seq<PlacedGroundItems>, ground: Seq<GroundPile>, q: Position)
    requires
        records.len() == ground.len(),
        unique_cells(ground),
        forall|i: int|
            0 <= i < records.len() ==> (record_on((#[trigger] records[i]).x, records[i].y, q)
                <==> ground[i].pos == q),
        forall|i: int| 0 <= i < records.len() ==> views((#[trigger] records[i]).items@) == ground[i].items@,
    ensures
        stored_items_at(records, q) == items_at(ground, q),
    decreases records.len(),
{
    if records.len() > 0 {
        let n = records.len() - 1;
        let rest = records.drop_last();
        let below = ground.drop_last();
        assert forall|i: int| 0 <= i < rest.len() implies (record_on((#[trigger] rest[i]).x, rest[i].y, q)
            <==> below[i].pos == q) && views(rest[i].items@) == below[i].items@ by {
            assert(rest[i] == records[i]);
            assert(below[i] == ground[i]);
        }
        assert(unique_cells(below)) by {
            assert forall|i: int, j: int|
                0 <= i < below.len() && 0 <= j < below.len() && i != j implies (#[trigger] below[i]).pos
                    != (#[trigger] below[j]).pos by {
                assert(below[i] == ground[i] && below[j] == ground[j]);
            }
        }
        lemma_stored_items_match(rest, below, q);
        assert(records.last() == records[n]);
        if ground[n].pos == q {
            lemma_items_at_index(ground, n);
            assert forall|k: int| 0 <= k < below.len() implies (#[trigger] below[k]).pos != q by {
                assert(below[k] == ground[k]);
            }
            lemma_items_at_absent(below, q);
            assert(Seq::<ItemView>::empty() + views(records[n].items@) =~= views(records[n].items@));
        } else {
            assert(stored_items_at(rest, q) + Seq::<ItemView>::empty() =~= stored_items_at(rest, q));
            if exists|k: int| 0 <= k < below.len() && (#[trigger] below[k]).pos == q {
                let k = choose|k: int| 0 <= k < below.len() && (#[trigger] below[k]).pos == q;
                assert(below[k] == ground[k]);
                lemma_items_at_index(below, k);
                lemma_items_at_index(ground, k);
            } else {
                lemma_items_at_absent(below, q);
                assert forall|k: int| 0 <= k < ground.len() implies (#[trigger] ground[k]).pos != q by {
                    if k < n {
                        assert(below[k] == ground[k]);
                    }
                }
                lemma_items_at_absent(ground, q);
            }
        }
    }
}

/// Saving a zone and loading what was saved succeeds and gives back the same
/// terrain, the same entities in the same order, and the same items on every cell.
pub proof fn lemma_save_load_round_trip(z: Zone, m: MapData, loaded: Zone)
    requires
        z.wf(),
        saved_as(z, m),
        m.loaded_as(loaded),
    ensures
        m.loads(),
        loaded.grid.width == z.grid.width,
        loaded.grid.height == z.grid.height,
        forall|x: int, y: int|
            z.grid.in_bounds(x, y) ==> (#[trigger] loaded.grid.tile_at(x, y)).kind == z.grid.tile_at(x, y).kind,
        loaded.entities@ == z.entities@,
        forall|q: Position| #[trigger] loaded.ground_at(q) == z.ground_at(q),
{
    assert(m.entities_inside()) by {
        assert forall|i: int| 0 <= i < m.entities@.len() implies (#[trigger] m.entities@[i]).x < m.width
            && m.entities@[i].y < m.height by {
            assert(z.contains(z.entities@[i].pos));
        }
    }
    assert(m.items_inside()) by {
        assert forall|i: int| 0 <= i < m.items@.len() implies (#[trigger] m.items@[i]).x < m.width
            && m.items@[i].y < m.height by {
            assert(z.contains(z.ground@[i].pos));
        }
    }
    assert forall|x: int, y: int| z.grid.in_bounds(x, y) implies (#[trigger] loaded.grid.tile_at(x, y)).kind
        == z.grid.tile_at(x, y).kind by {
        assert(m.terrain@[y]@[x] == tag_of_kind(z.grid.tile_at(x, y).kind));
    }
    assert forall|i: int| 0 <= i < z.entities@.len() implies #[trigger] loaded.entities@[i] == z.entities@[i] by {
        assert(z.contains(z.entities@[i].pos));
        assert(m.entities@[i] == (PlacedEntity {
            entity_type: tag_of_entity(z.entities@[i].entity_type),
            x: z.entities@[i].pos.x as usize,
            y: z.entities@[i].pos.y as usize,
        }));
    }
    assert(loaded.entities@ =~= z.entities@);
    assert forall|q: Position| #[trigger] loaded.ground_at(q) == z.ground_at(q) by {
        assert forall|i: int| 0 <= i < m.items@.len() implies (record_on(
            (#[trigger] m.items@[i]).x,
            m.items@[i].y,
            q,
        ) <==> z.ground@[i].pos == q) by {
            assert(z.contains(z.ground@[i].pos));
        }
        lemma_stored_items_match(m.items@, z.ground@, q);
    }
}

} // verus!
