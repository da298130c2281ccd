use vstd::prelude::*;
use crate::grid::{EntityType, ItemType, Position, Tile, TileKind, tile_of};
use crate::item::{Item, ItemView, catalog};
use crate::zone::{Zone, ZoneEntity, items_at, lemma_items_at_absent, lemma_items_at_index};

verus! {

/// What the editor places.
#[derive(Debug, Clone, Copy, PartialEq, Eq, Structural)]
pub enum EditorMode {
    Terrain,
    Entity,
    Item,
}

impl EditorMode {
    /// The mode that the mode key switches to: terrain, entity, item, and round again.
    pub fn next(self) -> (r: EditorMode)
        ensures
            r == (match self {
                EditorMode::Terrain => EditorMode::Entity,
                EditorMode::Entity => EditorMode::Item,
                EditorMode::Item => EditorMode::Terrain,
            }),
    {
        match self {
            EditorMode::Terrain => EditorMode::Entity,
            EditorMode::Entity => EditorMode::Item,
            EditorMode::Item => EditorMode::Terrain,
        }
    }
}

/// The editor's current mode and the selection of each mode.
#[derive(Debug, Clone, Copy)]
pub struct EditorState {
    pub mode: EditorMode,
    pub selected_terrain: TileKind,
    pub selected_entity: EntityType,
    pub selected_item: ItemType,
}

impl Default for EditorState {
    fn default() -> (r: EditorState)
        ensures
            r.mode == EditorMode::Terrain,
            r.selected_terrain == TileKind::Floor,
            r.selected_entity == EntityType::GravitationalAnomaly,
            r.selected_item == ItemType::FullyEmpty,
    {
        EditorState {
            mode: EditorMode::Terrain,
            selected_terrain: TileKind::Floor,
            selected_entity: EntityType::GravitationalAnomaly,
            selected_item: ItemType::FullyEmpty,
        }
    }
}

/// The cell under the editor's cursor, if the cursor is over the grid.
#[derive(Debug, Clone, Copy, Default)]
pub struct EditorCursor {
    pub grid_position: Option<(usize, usize)>,
}

/// The choice that number key `digit` selects in each mode, where it selects one.
pub open spec fn terrain_choice(digit: u32) -> Option<TileKind> {
    if digit == 1 {
        Some(TileKind::Floor)
    } else if digit == 2 {
        Some(TileKind::Wall)
    } else {
        None
    }
}

pub open spec fn entity_choice(digit: u32) -> Option<EntityType> {
    if digit == 1 {
        Some(EntityType::GravitationalAnomaly)
    } else if digit == 2 {
        Some(EntityType::PhilosopherStone)
    } else if digit == 3 {
        Some(EntityType::RustAnomaly)
    } else if digit == 4 {
        Some(EntityType::PlayerStart)
    } else if digit == 5 {
        Some(EntityType::Exit)
    } else if digit == 6 {
        Some(EntityType::LampPost)
    } else {
        None
    }
}

pub open spec fn item_choice(digit: u32) -> Option<ItemType> {
    if digit == 1 {
        Some(ItemType::FullyEmpty)
    } else if digit == 2 {
        Some(ItemType::Scrap)
    } else if digit == 3 {
        Some(ItemType::GlassJar)
    } else if digit == 4 {
        Some(ItemType::Battery)
    } else {
        None
    }
}

impl EditorState {
    /// Applies number key `digit` to the selection of the current mode.
    pub fn select(&mut self, digit: u32)
        ensures
            final(self).mode == old(self).mode,
            final(self).selected_terrain == if old(self).mode == EditorMode::Terrain && terrain_choice(
                digit,
            ) is Some {
                terrain_choice(digit)->0
            } else {
                old(self).selected_terrain
            },
            final(self).selected_entity == if old(self).mode == EditorMode::Entity && entity_choice(
                digit,
            ) is Some {
                entity_choice(digit)->0
            } else {
                old(self).selected_entity
            },
            final(self).selected_item == if old(self).mode == EditorMode::Item && item_choice(digit) is Some {
                item_choice(digit)->0
            } else {
                old(self).selected_item
            },
    {
        match self.mode {
            EditorMode::Terrain => {
                if digit == 1 {
                    self.selected_terrain = TileKind::Floor;
                } else if digit == 2 {
                    self.selected_terrain = TileKind::Wall;
                }
            },
            EditorMode::Entity => {
                if digit == 1 {
                    self.selected_entity = EntityType::GravitationalAnomaly;
                } else if digit == 2 {
                    self.selected_entity = EntityType::PhilosopherStone;
                } else if digit == 3 {
                    self.selected_entity = EntityType::RustAnomaly;
                } else if digit == 4 {
                    self.selected_entity = EntityType::PlayerStart;
                } else if digit == 5 {
                    self.selected_entity = EntityType::Exit;
                } else if digit == 6 {
                    self.selected_entity = EntityType::LampPost;
                }
            },
            EditorMode::Item => {
                if digit == 1 {
                    self.selected_item = ItemType::FullyEmpty;
                } else if digit == 2 {
                    self.selected_item = ItemType::Scrap;
                } else if digit == 3 {
                    self.selected_item = ItemType::GlassJar;
                } else if digit == 4 {
                    self.selected_item = ItemType::Battery;
                }
            },
        }
    }
}

impl Zone {
    /// Places an entity on an in-bounds cell that holds none yet.
    pub fn place_entity(&mut self, t: EntityType, p: Position) -> (r: bool)
        requires
            old(self).wf(),
        ensures
            final(self).wf(),
            r == (old(self).contains(p) && forall|i: int|
                0 <= i < old(self).entities@.len() ==> (#[trigger] old(self).entities@[i]).pos != p),
            final(self).grid == old(self).grid,
            final(self).ground == old(self).ground,
            final(self).entities@ == if r {
                old(self).entities@.push(ZoneEntity { entity_type: t, pos: p })
            } else {
                old(self).entities@
            },
    {
        if !self.in_bounds(p) {
            return false;
        }
        match self.find_entity(p) {
            Some(_) => false,
            None => {
                self.entities.push(ZoneEntity { entity_type: t, pos: p });
                true
            },
        }
    }

    /// Removes the first entity standing on `p`, if any.
    pub fn remove_entity_at(&mut self, p: Position) -> (r: bool)
        requires
            old(self).wf(),
        ensures
            final(self).wf(),
            r == exists|i: int| 0 <= i < old(self).entities@.len() && (#[trigger] old(self).entities@[i]).pos == p,
            final(self).grid == old(self).grid,
            final(self).ground == old(self).ground,
            !r ==> final(self).entities@ == old(self).entities@,
            r ==> exists|i: int|
                0 <= i < old(self).entities@.len() && (#[trigger] old(self).entities@[i]).pos == p && (forall|j: int|
                    0 <= j < i ==> (#[trigger] old(self).entities@[j]).pos != p) && final(self).entities@
                    == old(self).entities@.remove(i),
    {
        match self.find_entity(p) {
            Some(i) => {
                self.entities.remove(i);
                proof {
                    let e = old(self).entities@;
                    assert forall|k: int| 0 <= k < self.entities@.len() implies self.contains(
                        (#[trigger] self.entities@[k]).pos,
                    ) by {
                        if k < i {
                            assert(self.entities@[k] == e[k]);
                        } else {
                            assert(self.entities@[k] == e[k + 1]);
                        }
                    }
                }
                true
            },
            None => false,
        }
    }

    /// Removes every item on `p`.
    pub fn clear_items_at(&mut self, p: Position)
        requires
            old(self).wf(),
        ensures
            final(self).wf(),
            final(self).grid == old(self).grid,
            final(self).entities == old(self).entities,
            forall|q: Position|
                #[trigger] final(self).ground_at(q) == if q == p {
                    Seq::<ItemView>::empty()
                } else {
                    old(self).ground_at(q)
                },
    {
        let ghost before = self.ground@;
        match self.find_pile(p) {
            None => {
                proof {
                    lemma_items_at_absent(before, p);
                }
            },
            Some(i) => {
                self.ground.remove(i);
                proof {
                    let after = self.ground@;
                    assert forall|a: int| 0 <= a < after.len() implies self.contains((#[trigger] after[a]).pos)
                        && after[a].items.items@.len() > 0 by {
                        let a2 = if a < i { a } else { a + 1 };
                        assert(after[a] == before[a2]);
                    }
                    assert forall|a: int, b: int|
                        0 <= a < after.len() && 0 <= b < after.len() && a != b implies (#[trigger] after[a]).pos
                            != (#[trigger] after[b]).pos by {
                        let a2 = if a < i { a } else { a + 1 };
                        let b2 = if b < i { b } else { b + 1 };
                        assert(after[a] == before[a2]);
                        assert(after[b] == before[b2]);
                    }
                    assert forall|q: Position|
                        #[trigger] items_at(after, q) == if q == p {
                            Seq::<ItemView>::empty()
                        } else {
                            items_at(before, q)
                        } by {
                        if exists|k: int| 0 <= k < after.len() && (#[trigger] after[k]).pos == q {
                            let k = choose|k: int| 0 <= k < after.len() && (#[trigger] after[k]).pos == q;
                            let k2 = if k < i { k } else { k + 1 };
                            assert(after[k] == before[k2]);
                            lemma_items_at_index(after, k);
                            lemma_items_at_index(before, k2);
                        } else {
                            lemma_items_at_absent(after, q);
                            if q != p {
                                assert forall|k: int| 0 <= k < before.len() implies (#[trigger] before[k]).pos != q by {
                                    if k < i {
                                        assert(after[k] == before[k]);
                                    } else if k > i {
                                        assert(after[k - 1] == before[k]);
                                    }
                                }
                                lemma_items_at_absent(before, q);
                            }
                        }
                    }
                }
            },
        }
    }

    /// A left click of the editor on cell `(x, y)`: paints the selected terrain,
    /// places the selected entity on an empty cell, or adds the selected item.
    pub fn editor_place(&mut self, editor: &EditorState, x: usize, y: usize) -> (r: bool)
        requires
            old(self).wf(),
        ensures
            final(self).wf(),
            !old(self).grid.in_bounds(x as int, y as int) ==> !r && *final(self) == *old(self),
            old(self).grid.in_bounds(x as int, y as int) ==> {
                let p = Position { x: x as i32, y: y as i32 };
                match editor.mode {
                    EditorMode::Terrain => r && final(self).entities == old(self).entities
                        && final(self).ground == old(self).ground && forall|i: int, j: int|
                        final(self).grid.in_bounds(i, j) ==> #[trigger] final(self).grid.tile_at(i, j)
                            == if i == x && j == y {
                            tile_of(editor.selected_terrain)
                        } else {
                            old(self).grid.tile_at(i, j)
                        },
                    EditorMode::Entity => final(self).grid == old(self).grid && final(self).ground
                        == old(self).ground && r == (forall|i: int|
                        0 <= i < old(self).entities@.len() ==> (#[trigger] old(self).entities@[i]).pos
                            != p) && final(self).entities@ == if r {
                        old(self).entities@.push(ZoneEntity { entity_type: editor.selected_entity, pos: p })
                    } else {
                        old(self).entities@
                    },
                    EditorMode::Item => r && final(self).grid == old(self).grid && final(self).entities
                        == old(self).entities && forall|q: Position|
                        #[trigger] final(self).ground_at(q) == if q == p {
                            old(self).ground_at(q).push(catalog(editor.selected_item))
                        } else {
                            old(self).ground_at(q)
                        },
                }
            },
    {
        if x >= self.grid.width || y >= self.grid.height {
            return false;
        }
        let p = Position { x: x as i32, y: y as i32 };
        match editor.mode {
            EditorMode::Terrain => self.grid.set_tile(x, y, Tile::new(editor.selected_terrain)),
            EditorMode::Entity => self.place_entity(editor.selected_entity, p),
            EditorMode::Item => {
                self.add_ground_item(p, Item::of_type(editor.selected_item));
                true
            },
        }
    }

    /// A right click of the editor on cell `(x, y)`: resets the terrain to
    /// Floor, removes an entity, or removes every item there.
    pub fn editor_clear(&mut self, mode: EditorMode, x: usize, y: usize) -> (r: bool)
        requires
            old(self).wf(),
        ensures
            final(self).wf(),
            !old(self).grid.in_bounds(x as int, y as int) ==> !r && *final(self) == *old(self),
            old(self).grid.in_bounds(x as int, y as int) ==> {
                let p = Position { x: x as i32, y: y as i32 };
                match mode {
                    EditorMode::Terrain => r && final(self).entities == old(self).entities
                        && final(self).ground == old(self).ground && forall|i: int, j: int|
                        final(self).grid.in_bounds(i, j) ==> #[trigger] final(self).grid.tile_at(i, j)
                            == if i == x && j == y {
                            tile_of(TileKind::Floor)
                        } else {
                            old(self).grid.tile_at(i, j)
                        },
                    EditorMode::Entity => final(self).grid == old(self).grid && final(self).ground
                        == old(self).ground && r == (exists|i: int|
                        0 <= i < old(self).entities@.len() && (#[trigger] old(self).entities@[i]).pos
                            == p) && (!r ==> final(self).entities@ == old(self).entities@) && (r
                        ==> exists|i: int|
                        0 <= i < old(self).entities@.len() && (#[trigger] old(self).entities@[i]).pos
                            == p && (forall|j: int|
                            0 <= j < i ==> (#[trigger] old(self).entities@[j]).pos != p)
                            && final(self).entities@ == old(self).entities@.remove(i)),
                    EditorMode::Item => r && final(self).grid == old(self).grid && final(self).entities
                        == old(self).entities && forall|q: Position|
                        #[trigger] final(self).ground_at(q) == if q == p {
                            Seq::<ItemView>::empty()
                        } else {
                            old(self).ground_at(q)
                        },
                }
            },
    {
        if x >= self.grid.width || y >= self.grid.height {
            return false;
        }
        let p = Position { x: x as i32, y: y as i32 };
        match mode {
            EditorMode::Terrain => self.grid.set_tile(x, y, Tile::new(TileKind::Floor)),
            EditorMode::Entity => self.remove_entity_at(p),
            EditorMode::Item => {
                self.clear_items_at(p);
                true
            },
        }
    }
}

} // verus!
