use vstd::prelude::*;

verus! {

/// Integer grid coordinates; a placed entity always has `0 <= x < width`
/// and `0 <= y < height`.
#[derive(Clone, Copy, Debug, PartialEq, Eq, Structural, Hash)]
pub struct Position {
    pub x: i32,
    pub y: i32,
}

/// Terrain layer: what the player walks on.
#[derive(Clone, Copy, Debug, PartialEq, Eq, Structural, Hash)]
pub enum TileKind {
    Floor,
    Wall,
}

#[derive(Clone, Copy, Debug)]
pub struct Tile {
    pub kind: TileKind,
    pub move_cost: i32,
}

/// Cost of stepping onto a tile of the given kind; walls are effectively impassable.
pub open spec fn move_cost_of(kind: TileKind) -> i32 {
    match kind {
        TileKind::Floor => 1,
        TileKind::Wall => i32::MAX,
    }
}

/// The canonical tile of a kind.
pub open spec fn tile_of(kind: TileKind) -> Tile {
    Tile { kind, move_cost: move_cost_of(kind) }
}

impl Tile {
    pub fn new(kind: TileKind) -> (r: Tile)
        ensures
            r == tile_of(kind),
    {
        let move_cost: i32 = match kind {
            TileKind::Floor => 1,
            TileKind::Wall => i32::MAX,
        };
        Tile { kind, move_cost }
    }
}

/// Dense `height` x `width` terrain matrix, stored row by row.
#[derive(Debug)]
pub struct GameGrid {
    pub tiles: Vec<Vec<Tile>>,
    pub width: usize,
    pub height: usize,
}

impl GameGrid {
    /// Exactly one tile per cell, and every cell addressable by an `i32` position.
    pub open spec fn wf(&self) -> bool {
        &&& self.tiles@.len() == self.height
        &&& forall|y: int| 0 <= y < self.height ==> (#[trigger] self.tiles@[y])@.len() == self.width
        &&& self.width <= i32::MAX
        &&& self.height <= i32::MAX
    }

    pub open spec fn in_bounds(&self, x: int, y: int) -> bool {
        0 <= x < self.width && 0 <= y < self.height
    }

    /// The tile at column `x` of row `y`.
    pub open spec fn tile_at(&self, x: int, y: int) -> Tile {
        self.tiles@[y]@[x]
    }

    /// The terrain kinds, row by row.
    pub open spec fn kinds(&self) -> Seq<Seq<TileKind>> {
        self.tiles@.map_values(|row: Vec<Tile>| row@.map_values(|t: Tile| t.kind))
    }

    pub open spec fn is_wall(&self, x: int, y: int) -> bool {
        self.tile_at(x, y).kind == TileKind::Wall
    }

    pub fn new_empty(width: usize, height: usize) -> (r: GameGrid)
        requires
            width <= i32::MAX,
            height <= i32::MAX,
        ensures
            r.wf(),
            r.width == width,
            r.height == height,
            forall|x: int, y: int|
                r.in_bounds(x, y) ==> #[trigger] r.tile_at(x, y) == tile_of(TileKind::Floor),
    {
        let mut tiles: Vec<Vec<Tile>> = Vec::with_capacity(height);
        let mut j: usize = 0;
        while j < height
            invariant
                j <= height,
                tiles@.len() == j,
                forall|y: int| 0 <= y < j ==> (#[trigger] tiles@[y])@.len() == width,
                forall|y: int, x: int|
                    0 <= y < j && 0 <= x < width ==> #[trigger] tiles@[y]@[x] == tile_of(TileKind::Floor),
            decreases height - j,
        {
            let mut row: Vec<Tile> = Vec::with_capacity(width);
            let mut i: usize = 0;
            while i < width
                invariant
                    i <= width,
                    row@.len() == i,
                    forall|x: int| 0 <= x < i ==> #[trigger] row@[x] == tile_of(TileKind::Floor),
                decreases width - i,
            {
                row.push(Tile::new(TileKind::Floor));
                i += 1;
            }
            tiles.push(row);
            j += 1;
        }
        GameGrid { tiles, width, height }
    }

    pub fn get_tile(&self, x: usize, y: usize) -> (r: Option<&Tile>)
        ensures
            r == (if y < self.tiles@.len() && x < self.tiles@[y as int]@.len() {
                Some(&self.tile_at(x as int, y as int))
            } else {
                None
            }),
    {
        if y < self.tiles.len() && x < self.tiles[y].len() {
            Some(&self.tiles[y][x])
        } else {
            None
        }
    }

    /// Replaces the tile of an in-bounds cell; reports whether the cell was in bounds.
    pub fn set_tile(&mut self, x: usize, y: usize, tile: Tile) -> (r: bool)
        requires
            old(self).wf(),
        ensures
            final(self).wf(),
            r == old(self).in_bounds(x as int, y as int),
            final(self).width == old(self).width,
            final(self).height == old(self).height,
            forall|i: int, j: int|
                final(self).in_bounds(i, j) ==> #[trigger] final(self).tile_at(i, j) == if r && i == x
                    && j == y {
                    tile
                } else {
                    old(self).tile_at(i, j)
                },
    {
        if y < self.height && x < self.width {
            self.tiles[y][x] = tile;
            true
        } else {
            false
        }
    }
}

/// Entity layer: things placed on tiles.
#[derive(Clone, Copy, Debug, PartialEq, Eq, Structural, Hash)]
pub enum EntityType {
    GravitationalAnomaly,
    PhilosopherStone,
    RustAnomaly,
    PlayerStart,
    Exit,
    LampPost,
}

/// Item layer: the kinds of item that the catalog defines.
#[derive(Clone, Copy, Debug, PartialEq, Eq, Structural, Hash)]
pub enum ItemType {
    FullyEmpty,
    Scrap,
    GlassJar,
    Battery,
    Bolt,
    MetalDetector,
    RustSlag,
}

/// Every item type, in catalog order.
pub open spec fn item_types() -> Seq<ItemType> {
    seq![
        ItemType::FullyEmpty,
        ItemType::Scrap,
        ItemType::GlassJar,
        ItemType::Battery,
        ItemType::Bolt,
        ItemType::MetalDetector,
        ItemType::RustSlag,
    ]
}

impl ItemType {
    pub fn all_variants() -> (r: Vec<ItemType>)
        ensures
            r@ == item_types(),
    {
        let r = vec![
            ItemType::FullyEmpty,
            ItemType::Scrap,
            ItemType::GlassJar,
            ItemType::Battery,
            ItemType::Bolt,
            ItemType::MetalDetector,
            ItemType::RustSlag,
        ];
        assert(r@ =~= item_types());
        r
    }
}

/// Whether the zone is being played or edited.
#[derive(Clone, Copy, Debug, PartialEq, Eq, Structural, Hash)]
pub enum GameState {
    Running,
    Editing,
}

impl GameState {
    /// The state that the editor toggle switches to.
    pub fn toggled(self) -> (r: GameState)
        ensures
            r == (match self {
                GameState::Running => GameState::Editing,
                GameState::Editing => GameState::Running,
            }),
    {
        match self {
            GameState::Running => GameState::Editing,
            GameState::Editing => GameState::Running,
        }
    }
}

impl Default for GameState {
    fn default() -> (r: GameState)
        ensures
            r == GameState::Editing,
    {
        GameState::Editing
    }
}

} // verus!
