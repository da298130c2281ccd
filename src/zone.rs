use vstd::prelude::*;
use crate::grid::{EntityType, GameGrid, Position};
use crate::item::{GroundItems, Item, ItemView};

verus! {

/// A static entity (anomaly or marker) on one cell.
#[derive(Debug, Clone, Copy, PartialEq, Eq, Structural)]
pub struct ZoneEntity {
    pub entity_type: EntityType,
    pub pos: Position,
}

/// The items resting on one cell.
#[derive(Debug)]
pub struct GroundPile {
    pub pos: Position,
    pub items: GroundItems,
}

/// Whether `a` and `b` are exactly one cell apart along a single axis.
pub open spec fn adjacent4(a: Position, b: Position) -> bool {
    let dx = a.x - b.x;
    let dy = a.y - b.y;
    (dx == 0 && (dy == 1 || dy == -1)) || (dy == 0 && (dx == 1 || dx == -1))
}

/// No two piles share a cell.
pub open spec fn unique_cells(ground: Seq<GroundPile>) -> bool {
    forall|i: int, j: int|
        0 <= i < ground.len() && 0 <= j < ground.len() && i != j ==> (#[trigger] ground[i]).pos
            != (#[trigger] ground[j]).pos
}

/// The items on cell `p`; empty where no pile lies.
pub open spec fn items_at(ground: Seq<GroundPile>, p: Position) -> Seq<ItemView> {
    if exists|i: int| 0 <= i < ground.len() && (#[trigger] ground[i]).pos == p {
        let i = choose|i: int| 0 <= i < ground.len() && (#[trigger] ground[i]).pos == p;
        ground[i].items@
    } else {
        Seq::empty()
    }
}

pub proof fn lemma_items_at_index(ground: Seq<GroundPile>, i: int)
    requires
        unique_cells(ground),
        0 <= i < ground.len(),
    ensures
        items_at(ground, ground[i].pos) == ground[i].items@,
{
    let p = ground[i].pos;
    assert(exists|k: int| 0 <= k < ground.len() && (#[trigger] ground[k]).pos == p);
    let k = choose|k: int| 0 <= k < ground.len() && (#[trigger] ground[k]).pos == p;
    assert(k == i);
}

pub proof fn lemma_items_at_absent(ground: Seq<GroundPile>, p: Position)
    requires
        forall|i: int| 0 <= i < ground.len() ==> (#[trigger] ground[i]).pos != p,
    ensures
        items_at(ground, p) == Seq::<ItemView>::empty(),
{
}

/// Terrain, static entities and ground items of one map.
#[derive(Debug)]
pub struct Zone {
    pub grid: GameGrid,
    /// In placement order, which also decides which anomaly acts first.
    pub entities: Vec<ZoneEntity>,
    pub ground: Vec<GroundPile>,
}

impl Zone {
    pub open spec fn contains(&self, p: Position) -> bool {
        self.grid.in_bounds(p.x as int, p.y as int)
    }

    /// Every placement in bounds; at most one pile per cell, none of them empty.
    pub open spec fn wf(&self) -> bool {
        &&& self.grid.wf()
        &&& forall|i: int|
            0 <= i < self.entities@.len() ==> self.contains((#[trigger] self.entities@[i]).pos)
        &&& forall|i: int|
            0 <= i < self.ground@.len() ==> self.contains((#[trigger] self.ground@[i]).pos)
                && self.ground@[i].items.items@.len() > 0
        &&& unique_cells(self.ground@)
    }

    /// The items on cell `p`.
    pub open spec fn ground_at(&self, p: Position) -> Seq<ItemView> {
        items_at(self.ground@, p)
    }

    /// Whether an entity of type `t` stands on `p`.
    pub open spec fn has_entity(&self, t: EntityType, p: Position) -> bool {
        exists|i: int|
            0 <= i < self.entities@.len() && (#[trigger] self.entities@[i]).entity_type == t
                && self.entities@[i].pos == p
    }

    /// A zone over the given terrain with nothing placed on it.
    pub fn new(grid: GameGrid) -> (r: Zone)
        requires
            grid.wf(),
        ensures
            r.wf(),
            r.grid == grid,
            r.entities@.len() == 0,
            r.ground@.len() == 0,
    {
        Zone { grid, entities: Vec::new(), ground: Vec::new() }
    }

    /// Whether `p` lies on the grid.
    pub fn in_bounds(&self, p: Position) -> (r: bool)
        ensures
            r == self.contains(p),
    {
        p.x >= 0 && p.y >= 0 && (p.x as u64) < (self.grid.width as u64) && (p.y as u64) < (
        self.grid.height as u64)
    }

    /// Index of the pile on `p`, if any.
    pub fn find_pile(&self, p: Position) -> (r: Option<usize>)
        ensures
            match r {
                Some(i) => i < self.ground@.len() && self.ground@[i as int].pos == p,
                None => forall|i: int| 0 <= i < self.ground@.len() ==> (#[trigger] self.ground@[i]).pos != p,
            },
    {
        let mut i: usize = 0;
        while i < self.ground.len()
            invariant
                i <= self.ground@.len(),
                forall|j: int| 0 <= j < i ==> (#[trigger] self.ground@[j]).pos != p,
            decreases self.ground@.len() - i,
        {
            if self.ground[i].pos == p {
                return Some(i);
            }
            i += 1;
        }
        None
    }

    pub fn has_entity_at(&self, t: EntityType, p: Position) -> (r: bool)
        ensures
            r == self.has_entity(t, p),
    {
        let mut i: usize = 0;
        while i < self.entities.len()
            invariant
                i <= self.entities@.len(),
                forall|j: int|
                    0 <= j < i ==> !((#[trigger] self.entities@[j]).entity_type == t
                        && self.entities@[j].pos == p),
            decreases self.entities@.len() - i,
        {
            if self.entities[i].entity_type == t && self.entities[i].pos == p {
                return true;
            }
            i += 1;
        }
        false
    }

    /// Index of the first entity on `p`, of any type.
    pub fn find_entity(&self, p: Position) -> (r: Option<usize>)
        ensures
            match r {
                Some(i) => i < self.entities@.len() && self.entities@[i as int].pos == p && forall|j: int|
                    0 <= j < i ==> (#[trigger] self.entities@[j]).pos != p,
                None => forall|i: int| 0 <= i < self.entities@.len() ==> (#[trigger] self.entities@[i]).pos != p,
            },
    {
        let mut i: usize = 0;
        while i < self.entities.len()
            invariant
                i <= self.entities@.len(),
                forall|j: int| 0 <= j < i ==> (#[trigger] self.entities@[j]).pos != p,
            decreases self.entities@.len() - i,
        {
            if self.entities[i].pos == p {
                return Some(i);
            }
            i += 1;
        }
        None
    }

    /// Puts an item on cell `p`, joining the pile already there or starting one.
    pub fn add_ground_item(&mut self, p: Position, item: Item)
        requires
            old(self).wf(),
            old(self).contains(p),
        ensures
            final(self).wf(),
            final(self).grid == old(self).grid,
            final(self).entities == old(self).entities,
            forall|q: Position|
                #[trigger] final(self).ground_at(q) == if q == p {
                    old(self).ground_at(q).push(item@)
                } else {
                    old(self).ground_at(q)
                },
    {
        let ghost before = self.ground@;
        let ghost v = item@;
        match self.find_pile(p) {
            Some(i) => {
                self.ground[i].items.add_item(item);
                proof {
                    let after = self.ground@;
                    assert forall|q: Position|
                        #[trigger] items_at(after, q) == if q == p {
                            items_at(before, q).push(v)
                        } else {
                            items_at(before, q)
                        } by {
                        if exists|k: int| 0 <= k < after.len() && (#[trigger] after[k]).pos == q {
                            let k = choose|k: int| 0 <= k < after.len() && (#[trigger] after[k]).pos == q;
                            lemma_items_at_index(after, k);
                            lemma_items_at_index(before, k);
                        } else {
                            lemma_items_at_absent(after, q);
                            assert forall|k: int| 0 <= k < before.len() implies (#[trigger] before[k]).pos != q by {
                                assert(after[k].pos == before[k].pos);
                            }
                            lemma_items_at_absent(before, q);
                        }
                    }
                }
            },
            None => {
                let mut pile = GroundItems::new();
                pile.add_item(item);
                self.ground.push(GroundPile { pos: p, items: pile });
                proof {
                    let after = self.ground@;
                    assert forall|q: Position|
                        #[trigger] items_at(after, q) == if q == p {
                            items_at(before, q).push(v)
                        } else {
                            items_at(before, q)
                        } by {
                        if exists|k: int| 0 <= k < after.len() && (#[trigger] after[k]).pos == q {
                            let k = choose|k: int| 0 <= k < after.len() && (#[trigger] after[k]).pos == q;
                            lemma_items_at_index(after, k);
                            if k < before.len() {
                                lemma_items_at_index(before, k);
                            } else {
                                lemma_items_at_absent(before, q);
                                assert(Seq::<ItemView>::empty().push(v) =~= seq![v]);
                            }
                        } else {
                            lemma_items_at_absent(after, q);
                            assert(after[before.len() as int].pos == p);
                            assert forall|k: int| 0 <= k < before.len() implies (#[trigger] before[k]).pos != q by {
                                assert(after[k] == before[k]);
                            }
                            lemma_items_at_absent(before, q);
                        }
                    }
                }
            },
        }
    }
    /// Removes the item at `index` of the pile on `p`; the pile goes once it is empty.
    pub fn take_ground_item(&mut self, p: Position, index: usize) -> (r: Option<Item>)
        requires
            old(self).wf(),
        ensures
            final(self).wf(),
            final(self).grid == old(self).grid,
            final(self).entities == old(self).entities,
            index < old(self).ground_at(p).len() ==> r is Some && r->0@ == old(self).ground_at(p)[index as int],
            index >= old(self).ground_at(p).len() ==> r is None,
            forall|q: Position|
                #[trigger] final(self).ground_at(q) == if q == p && index < old(self).ground_at(p).len() {
                    old(self).ground_at(q).remove(index as int)
                } else {
                    old(self).ground_at(q)
                },
    {
        let ghost before = self.ground@;
        match self.find_pile(p) {
            None => {
                proof {
                    lemma_items_at_absent(before, p);
                }
                None
            },
            Some(i) => {
                proof {
                    lemma_items_at_index(before, i as int);
                }
                if index >= self.ground[i].items.count() {
                    return None;
                }
                let item = self.ground[i].items.remove_item(index);
                let ghost taken = before[i as int].items@.remove(index as int);
                proof {
                    assert(self.ground@[i as int].items@ =~= taken);
                }
                if self.ground[i].items.is_empty() {
                    self.ground.remove(i);
                    proof {
                        let after = self.ground@;
                        assert(taken =~= Seq::<ItemView>::empty());
                        assert forall|a: int, b: int|
                            0 <= a < after.len() && 0 <= b < after.len() && a != b implies (#[trigger] after[a]).pos
                                != (#[trigger] after[b]).pos by {
                            let a2 = if a < i { a } else { a + 1 };
                            let b2 = if b < i { b } else { b + 1 };
                            assert(after[a] == before[a2]);
                            assert(after[b] == before[b2]);
                        }
                        assert forall|q: Position|
                            #[trigger] items_at(after, q) == if q == p {
                                items_at(before, q).remove(index as int)
                            } else {
                                items_at(before, q)
                            } by {
                            if exists|k: int| 0 <= k < after.len() && (#[trigger] after[k]).pos == q {
                                let k = choose|k: int| 0 <= k < after.len() && (#[trigger] after[k]).pos == q;
                                let k2 = if k < i { k } else { k + 1 };
                                assert(after[k] == before[k2]);
                                lemma_items_at_index(after, k);
                                lemma_items_at_index(before, k2);
                            } else {
                                lemma_items_at_absent(after, q);
                                if q != p {
                                    assert forall|k: int| 0 <= k < before.len() implies (#[trigger] before[k]).pos != q by {
                                        if k < i {
                                            assert(after[k] == before[k]);
                                        } else if k > i {
                                            assert(after[k - 1] == before[k]);
                                        }
                                    }
                                    lemma_items_at_absent(before, q);
                                }
                            }
                        }
                    }
                } else {
                    proof {
                        let after = self.ground@;
                        assert forall|q: Position|
                            #[trigger] items_at(after, q) == if q == p {
                                items_at(before, q).remove(index as int)
                            } else {
                                items_at(before, q)
                            } by {
                            if exists|k: int| 0 <= k < after.len() && (#[trigger] after[k]).pos == q {
                                let k = choose|k: int| 0 <= k < after.len() && (#[trigger] after[k]).pos == q;
                                lemma_items_at_index(after, k);
                                lemma_items_at_index(before, k);
                            } else {
                                lemma_items_at_absent(after, q);
                                assert forall|k: int| 0 <= k < before.len() implies (#[trigger] before[k]).pos != q by {
                                    assert(after[k].pos == before[k].pos);
                                }
                                lemma_items_at_absent(before, q);
                            }
                        }
                    }
                }
                item
            },
        }
    }

    /// Replaces the item at `index` of the pile on `p` by `item`, which joins the end of the pile.
    pub fn replace_ground_item(&mut self, p: Position, index: usize, item: Item)
        requires
            old(self).wf(),
            index < old(self).ground_at(p).len(),
        ensures
            final(self).wf(),
            final(self).grid == old(self).grid,
            final(self).entities == old(self).entities,
            forall|q: Position|
                #[trigger] final(self).ground_at(q) == if q == p {
                    old(self).ground_at(q).remove(index as int).push(item@)
                } else {
                    old(self).ground_at(q)
                },
    {
        let ghost before = self.ground@;
        let ghost v = item@;
        let i = match self.find_pile(p) {
            Some(i) => i,
            None => {
                proof {
                    lemma_items_at_absent(before, p);
                }
                return;
            },
        };
        proof {
            lemma_items_at_index(before, i as int);
        }
        let _ = self.ground[i].items.remove_item(index);
        self.ground[i].items.add_item(item);
        proof {
            let after = self.ground@;
            assert(after[i as int].items@ =~= before[i as int].items@.remove(index as int).push(v));
            assert forall|q: Position|
                #[trigger] items_at(after, q) == if q == p {
                    items_at(before, q).remove(index as int).push(v)
                } else {
                    items_at(before, q)
                } by {
                if exists|k: int| 0 <= k < after.len() && (#[trigger] after[k]).pos == q {
                    let k = choose|k: int| 0 <= k < after.len() && (#[trigger] after[k]).pos == q;
                    lemma_items_at_index(after, k);
                    lemma_items_at_index(before, k);
                } else {
                    lemma_items_at_absent(after, q);
                    assert forall|k: int| 0 <= k < before.len() implies (#[trigger] before[k]).pos != q by {
                        assert(after[k].pos == before[k].pos);
                    }
                    lemma_items_at_absent(before, q);
                }
            }
        }
    }

    /// Index of the first entity of type `t`, in placement order.
    pub fn find_first(&self, t: EntityType) -> (r: Option<usize>)
        ensures
            match r {
                Some(i) => i < self.entities@.len() && self.entities@[i as int].entity_type == t
                    && forall|j: int| 0 <= j < i ==> (#[trigger] self.entities@[j]).entity_type != t,
                None => forall|j: int|
                    0 <= j < self.entities@.len() ==> (#[trigger] self.entities@[j]).entity_type != t,
            },
    {
        let mut i: usize = 0;
        while i < self.entities.len()
            invariant
                i <= self.entities@.len(),
                forall|j: int| 0 <= j < i ==> (#[trigger] self.entities@[j]).entity_type != t,
            decreases self.entities@.len() - i,
        {
            if self.entities[i].entity_type == t {
                return Some(i);
            }
            i += 1;
        }
        None
    }
}

} // verus!
