use vstd::prelude::*;
use rand_pcg::Lcg64Xsh32;
use crate::grid::{EntityType, ItemType, item_types};
use crate::item::{Item, ItemView, catalog, views};
use crate::messages::{idle_line, phrase, rust_ground_text, texts, transform_text, vague_line};
use crate::rng::draw_below;
use crate::session::Session;
use crate::zone::{lemma_items_at_absent, lemma_items_at_index};

verus! {

/// Whether items of type `t` have a value, and it is at most `v`.
pub open spec fn worth_at_most(t: ItemType, v: u32) -> bool {
    match catalog(t).value {
        Some(w) => w <= v,
        None => false,
    }
}

pub open spec fn worth_at_most_fn(v: u32) -> spec_fn(ItemType) -> bool {
    |t: ItemType| worth_at_most(t, v)
}

/// The catalog entries that an item of value `v` may turn into, in catalog order.
pub open spec fn transmutation_options_of(v: u32) -> Seq<ItemType> {
    item_types().filter(worth_at_most_fn(v))
}

/// The type chosen by a transmutation: Fully Empty on the rare branch, else
/// option number `choice`.
pub open spec fn transmuted_type(v: u32, fully_empty: bool, choice: int) -> ItemType {
    if fully_empty {
        ItemType::FullyEmpty
    } else {
        transmutation_options_of(v)[choice]
    }
}

pub open spec fn has_valued(s: Seq<ItemView>) -> bool {
    exists|j: int| 0 <= j < s.len() && (#[trigger] s[j]).value is Some
}

pub open spec fn has_metal(s: Seq<ItemView>) -> bool {
    exists|j: int| 0 <= j < s.len() && (#[trigger] s[j]).is_metal
}

/// What the Philosopher's Stone step does to the items on the player's cell
/// (`before` to `after`) and to the messages (`ev` to `ev2`).  Off the stone,
/// or on a bare cell, nothing.  Where only tools lie, one message of the idle
/// pool and no change.  Otherwise one valued item is taken out and a catalog
/// item worth no more than it (or a Fully Empty) joins the end of the pile,
/// with a message naming both.
pub open spec fn stone_outcome(
    active: bool,
    before: Seq<ItemView>,
    after: Seq<ItemView>,
    ev: Seq<Seq<char>>,
    ev2: Seq<Seq<char>>,
) -> bool {
    if !active || before.len() == 0 {
        after == before && ev2 == ev
    } else if !has_valued(before) {
        after == before && exists|k: int| 0 <= k < 4 && ev2 == ev.push(#[trigger] idle_line(k))
    } else {
        exists|j: int, t: ItemType, w: int|
            0 <= j < before.len() && before[j].value is Some && after == before.remove(j).push(
                catalog(t),
            ) && (t == ItemType::FullyEmpty || worth_at_most(t, before[j].value->0)) && ev2 == ev.push(
                #[trigger] transform_text(before[j].name, t, w),
            )
    }
}

/// What the rust step does to the items on the player's cell (`here`), the
/// inventory (`pack`) and the messages.  Off the anomaly, or with no metal item
/// in reach, nothing.  Otherwise exactly one metal item, from one of the two
/// lists, is taken out and Rust Slag joins the end of that list: a ground item
/// with a message naming it, a carried one with a message of the vague pool.
pub open spec fn rust_outcome(
    active: bool,
    here: Seq<ItemView>,
    pack: Seq<ItemView>,
    here2: Seq<ItemView>,
    pack2: Seq<ItemView>,
    ev: Seq<Seq<char>>,
    ev2: Seq<Seq<char>>,
) -> bool {
    if !active || (!has_metal(here) && !has_metal(pack)) {
        here2 == here && pack2 == pack && ev2 == ev
    } else {
        ||| exists|j: int|
            0 <= j < here.len() && here[j].is_metal && here2 == here.remove(j).push(
                catalog(ItemType::RustSlag),
            ) && pack2 == pack && ev2 == ev.push(#[trigger] rust_ground_text(here[j].name))
        ||| exists|j: int, k: int|
            #![trigger pack[j], vague_line(k)]
            0 <= j < pack.len() && pack[j].is_metal && 0 <= k < 5 && pack2 == pack.remove(j).push(
                catalog(ItemType::RustSlag),
            ) && here2 == here && ev2 == ev.push(vague_line(k))
    }
}

/// Whatever a transmutation picks from the options is worth no more than the item it replaces.
pub proof fn lemma_transmutation_never_gains(v: u32, choice: int)
    requires
        0 <= choice < transmutation_options_of(v).len(),
    ensures
        worth_at_most(transmutation_options_of(v)[choice], v),
{
    item_types().lemma_filter_pred(worth_at_most_fn(v), choice);
}

/// The catalog entries that an item of value `v` may turn into; Rust Slag,
/// worth nothing, is always among them.
pub fn transmutation_options(v: u32) -> (r: Vec<ItemType>)
    ensures
        r@ == transmutation_options_of(v),
        r@.len() > 0,
{
    let all = ItemType::all_variants();
    let mut r: Vec<ItemType> = Vec::new();
    let mut i: usize = 0;
    while i < all.len()
        invariant
            i <= all@.len(),
            all@ == item_types(),
            r@ == all@.subrange(0, i as int).filter(worth_at_most_fn(v)),
        decreases all@.len() - i,
    {
        let t = all[i];
        let item = Item::of_type(t);
        let keep = match item.value {
            Some(w) => w <= v,
            None => false,
        };
        proof {
            reveal(Seq::filter);
            assert(all@.subrange(0, i + 1).drop_last() =~= all@.subrange(0, i as int));
            assert(all@.subrange(0, i + 1).last() == t);
            assert(item.value == catalog(t).value);
            assert(keep == worth_at_most(t, v));
            assert(keep == worth_at_most_fn(v)(t));
        }
        if keep {
            r.push(t);
        }
        i += 1;
    }
    proof {
        assert(all@.subrange(0, i as int) =~= all@);
        assert(worth_at_most_fn(v)(item_types()[6]));
        item_types().lemma_filter_contains(worth_at_most_fn(v), 6);
    }
    r
}

/// Picks what an item of value `v` becomes.
pub fn transmute(v: u32, fully_empty: bool, choice: usize) -> (r: ItemType)
    requires
        !fully_empty ==> choice < transmutation_options_of(v).len(),
    ensures
        r == transmuted_type(v, fully_empty, choice as int),
        r == ItemType::FullyEmpty || worth_at_most(r, v),
{
    if fully_empty {
        ItemType::FullyEmpty
    } else {
        let options = transmutation_options(v);
        proof {
            lemma_transmutation_never_gains(v, choice as int);
        }
        options[choice]
    }
}

/// Where a metal item that the rust anomaly can reach lies.
#[derive(Debug, Clone, Copy, PartialEq, Eq, Structural)]
pub enum MetalSource {
    /// Index into the pile on the player's cell.
    Ground(usize),
    /// Index into the inventory.
    Inventory(usize),
}

/// Place of a pool entry: the pile's items first, then the carried ones.
pub open spec fn pool_rank(src: MetalSource, ground_len: nat) -> int {
    match src {
        MetalSource::Ground(j) => j as int,
        MetalSource::Inventory(j) => ground_len + j,
    }
}

impl Session {
    /// Nothing but ground items and the inventory differs.
    pub open spec fn same_but_items(&self, other: &Session) -> bool {
        &&& self.zone.grid == other.zone.grid
        &&& self.zone.entities == other.zone.entities
        &&& self.player.pos == other.player.pos
        &&& self.player.capture == other.player.capture
        &&& self.capacity == other.capacity
        &&& self.last_direction == other.last_direction
        &&& self.phase == other.phase
        &&& self.turn == other.turn
        &&& self.log == other.log
        &&& self.contracts == other.contracts
    }

    /// The items on the player's cell.
    pub open spec fn here(&self) -> Seq<ItemView> {
        self.zone.ground_at(self.player.pos)
    }

    /// Turns the valued item at `index` of the player's cell into the type
    /// `transmuted_type` names; it joins the end of the pile.
    pub fn transmute_ground_item(
        &mut self,
        index: usize,
        fully_empty: bool,
        choice: usize,
        wording: usize,
        events: &mut Vec<String>,
    )
        requires
            old(self).wf(),
            index < old(self).here().len(),
            old(self).here()[index as int].value is Some,
            !fully_empty ==> choice < transmutation_options_of(
                old(self).here()[index as int].value->0,
            ).len(),
        ensures
            final(self).wf(),
            final(self).same_but_items(old(self)),
            final(self).player.inventory == old(self).player.inventory,
            final(self).here() == old(self).here().remove(index as int).push(
                catalog(
                    transmuted_type(
                        old(self).here()[index as int].value->0,
                        fully_empty,
                        choice as int,
                    ),
                ),
            ),
            forall|q|
                q != old(self).player.pos ==> #[trigger] final(self).zone.ground_at(q) == old(
                    self,
                ).zone.ground_at(q),
            texts(final(events)@) == texts(old(events)@).push(
                transform_text(
                    old(self).here()[index as int].name,
                    transmuted_type(
                        old(self).here()[index as int].value->0,
                        fully_empty,
                        choice as int,
                    ),
                    wording as int,
                ),
            ),
    {
        let pos = self.player.pos;
        let pi = match self.zone.find_pile(pos) {
            Some(pi) => pi,
            None => {
                proof {
                    lemma_items_at_absent(self.zone.ground@, pos);
                }
                return;
            },
        };
        proof {
            lemma_items_at_index(self.zone.ground@, pi as int);
        }
        let ghost before = events@;
        let chosen = &self.zone.ground[pi].items.items[index];
        let v = match chosen.value {
            Some(v) => v,
            None => {
                return;
            },
        };
        let old_name = chosen.name.clone();
        let t = transmute(v, fully_empty, choice);
        let item = Item::of_type(t);
        let message = match t {
            ItemType::FullyEmpty => phrase(
                "The fabric of reality tears. A Fully Empty materializes where ",
                old_name.as_str(),
                " once was.",
                "",
                "",
            ),
            _ => if wording == 0 {
                phrase(
                    "The ",
                    old_name.as_str(),
                    " shimmers with impossible light and becomes ",
                    item.name.as_str(),
                    ".",
                )
            } else if wording == 1 {
                phrase(
                    "Reality fractures. The ",
                    old_name.as_str(),
                    " transforms into ",
                    item.name.as_str(),
                    ".",
                )
            } else {
                phrase(
                    "The anomaly pulses. Where ",
                    old_name.as_str(),
                    " lay, now rests ",
                    item.name.as_str(),
                    ".",
                )
            },
        };
        self.zone.replace_ground_item(pos, index, item);
        events.push(message);
        assert(texts(events@) =~= texts(before).push(message@));
    }

    /// Second step of a world update.  On a Philosopher's Stone, one valued item
    /// of the player's cell, picked at random, becomes a catalog item worth no
    /// more than it, or (one time in twenty) a Fully Empty.  Where the cell holds
    /// only tools, nothing changes.
    pub fn philosopher_stone_system(&mut self, rng: &mut Lcg64Xsh32, events: &mut Vec<String>)
        requires
            old(self).wf(),
        ensures
            final(self).wf(),
            final(self).same_but_items(old(self)),
            final(self).player.inventory == old(self).player.inventory,
            forall|q|
                q != old(self).player.pos ==> #[trigger] final(self).zone.ground_at(q) == old(
                    self,
                ).zone.ground_at(q),
            stone_outcome(
                old(self).zone.has_entity(EntityType::PhilosopherStone, old(self).player.pos),
                old(self).here(),
                final(self).here(),
                texts(old(events)@),
                texts(final(events)@),
            ),
    {
        let pos = self.player.pos;
        if !self.zone.has_entity_at(EntityType::PhilosopherStone, pos) {
            return;
        }
        let pi = match self.zone.find_pile(pos) {
            Some(pi) => pi,
            None => {
                proof {
                    lemma_items_at_absent(self.zone.ground@, pos);
                }
                return;
            },
        };
        proof {
            lemma_items_at_index(self.zone.ground@, pi as int);
        }
        let ghost here = self.here();
        let valued = self.zone.ground[pi].items.valued_indices();
        let n = self.zone.ground[pi].items.count();
        proof {
            if valued@.len() > 0 {
                assert(valued@.contains(valued@[0]));
            } else {
                assert forall|j: int| 0 <= j < here.len() implies (#[trigger] here[j]).value is None by {
                    assert(here == self.zone.ground@[pi as int].items@);
                    assert(here.len() == n);
                    if here[j].value is Some {
                        let ju = j as usize;
                        assert(ju as int == j);
                        assert(valued@.contains(ju));
                    }
                }
            }
        }
        if valued.len() == 0 {
            let k = draw_below(rng, 4);
            let line = if k == 0 {
                "The anomaly pulses with strange energy, but the items remain unchanged."
            } else if k == 1 {
                "Reality shifts around you, but nothing happens."
            } else if k == 2 {
                "Strange forces swirl, then dissipate."
            } else {
                "You sense the anomaly trying to reshape what lies before you, but it cannot."
            };
            let ghost before = events@;
            events.push(line.to_owned());
            assert(texts(events@) =~= texts(before).push(idle_line(k as int)));
            return;
        }
        let k = draw_below(rng, valued.len());
        let index = valued[k];
        assert(valued@.contains(index));
        let v = match self.zone.ground[pi].items.items[index].value {
            Some(v) => v,
            None => {
                return;
            },
        };
        let fully_empty = draw_below(rng, 20) == 0;
        let choice = if fully_empty {
            0
        } else {
            draw_below(rng, transmutation_options(v).len())
        };
        let wording = draw_below(rng, 3);
        let ghost ev = texts(events@);
        self.transmute_ground_item(index, fully_empty, choice, wording, events);
        proof {
            let t = transmuted_type(v, fully_empty, choice as int);
            if !fully_empty {
                lemma_transmutation_never_gains(v, choice as int);
            }
            assert(here[index as int].value is Some);
            assert(self.here() == here.remove(index as int).push(catalog(t)));
            assert(texts(events@) == ev.push(transform_text(here[index as int].name, t, wording as int)));
        }
    }
    /// Whether `src` names a metal item that the rust anomaly can reach.
    pub open spec fn reaches_metal(&self, src: MetalSource) -> bool {
        match src {
            MetalSource::Ground(j) => j < self.here().len() && self.here()[j as int].is_metal,
            MetalSource::Inventory(j) => j < self.player.inventory@.len()
                && self.player.inventory@[j as int].is_metal,
        }
    }

    /// Replaces the metal item at `src` by Rust Slag, at the end of the same list.
    pub fn corrode(&mut self, src: MetalSource, wording: usize, events: &mut Vec<String>)
        requires
            old(self).wf(),
            old(self).reaches_metal(src),
        ensures
            final(self).wf(),
            final(self).same_but_items(old(self)),
            forall|q|
                q != old(self).player.pos ==> #[trigger] final(self).zone.ground_at(q) == old(
                    self,
                ).zone.ground_at(q),
            match src {
                MetalSource::Ground(j) => final(self).here() == old(self).here().remove(j as int).push(
                    catalog(ItemType::RustSlag),
                ) && final(self).player.inventory@ == old(self).player.inventory@ && texts(
                    final(events)@,
                ) == texts(old(events)@).push(rust_ground_text(old(self).here()[j as int].name)),
                MetalSource::Inventory(j) => final(self).player.inventory@ == old(
                    self,
                ).player.inventory@.remove(j as int).push(catalog(ItemType::RustSlag))
                    && final(self).here() == old(self).here() && texts(final(events)@) == texts(
                    old(events)@,
                ).push(vague_line(wording as int)),
            },
    {
        let pos = self.player.pos;
        match src {
            MetalSource::Ground(j) => {
                let pi = match self.zone.find_pile(pos) {
                    Some(pi) => pi,
                    None => {
                        proof {
                            lemma_items_at_absent(self.zone.ground@, pos);
                        }
                        return;
                    },
                };
                proof {
                    lemma_items_at_index(self.zone.ground@, pi as int);
                }
                let name = self.zone.ground[pi].items.items[j].name.clone();
                self.zone.replace_ground_item(pos, j, Item::of_type(ItemType::RustSlag));
                let ghost before = events@;
                let message = phrase(
                    "The ",
                    name.as_str(),
                    " on the ground begins to rust rapidly before your very eyes. ",
                    "In an instant, it melts into a rusty glob.",
                    "",
                );
                events.push(message);
                assert(texts(events@) =~= texts(before).push(message@));
            },
            MetalSource::Inventory(j) => {
                let ghost before = self.player.inventory.items@;
                let _ = self.player.inventory.remove_item(j);
                self.player.inventory.add_item(Item::of_type(ItemType::RustSlag));
                proof {
                    assert(views(before.remove(j as int)) =~= views(before).remove(j as int));
                }
                let line = if wording == 0 {
                    "The acrid smell of oxidation surrounds you."
                } else if wording == 1 {
                    "You sense something shifting in your pack."
                } else if wording == 2 {
                    "A metallic tang fills the air."
                } else if wording == 3 {
                    "The scent of rust and iron overwhelms you."
                } else {
                    "Something heavy settles differently at your side."
                };
                let ghost before = events@;
                events.push(line.to_owned());
                assert(texts(events@) =~= texts(before).push(vague_line(wording as int)));
            },
        }
    }

    /// Every metal item that the rust anomaly can reach, each listed once:
    /// those on the player's cell first, then those carried, each in list order.
    pub fn metal_pool(&self) -> (r: Vec<MetalSource>)
        requires
            self.wf(),
        ensures
            forall|src: MetalSource| r@.contains(src) <==> self.reaches_metal(src),
            r@.no_duplicates(),
            forall|a: int, b: int|
                0 <= a < b < r@.len() ==> pool_rank(r@[a], self.here().len()) < pool_rank(
                    r@[b],
                    self.here().len(),
                ),
            r@.len() == 0 <==> !has_metal(self.here()) && !has_metal(self.player.inventory@),
    {
        let mut pool: Vec<MetalSource> = Vec::new();
        let pos = self.player.pos;
        let ghost here = self.here();
        let ghost pack = self.player.inventory@;
        match self.zone.find_pile(pos) {
            Some(pi) => {
                proof {
                    lemma_items_at_index(self.zone.ground@, pi as int);
                }
                let mut i: usize = 0;
                while i < self.zone.ground[pi].items.items.len()
                    invariant
                        pi < self.zone.ground@.len(),
                        here == self.zone.ground@[pi as int].items@,
                        here == self.here(),
                        i <= here.len(),
                        pool@.no_duplicates(),
                        forall|a: int, b: int|
                            0 <= a < b < pool@.len() ==> pool_rank(pool@[a], here.len()) < pool_rank(
                                pool@[b],
                                here.len(),
                            ),
                        forall|a: int| 0 <= a < pool@.len() ==> pool_rank(#[trigger] pool@[a], here.len()) < i,
                        forall|a: int| 0 <= a < pool@.len() ==> (#[trigger] pool@[a]) is Ground,
                        forall|src: MetalSource|
                            pool@.contains(src) <==> match src {
                                MetalSource::Ground(j) => j < i && self.reaches_metal(src),
                                MetalSource::Inventory(_) => false,
                            },
                    decreases here.len() - i,
                {
                    proof {
                        assert(here[i as int] == self.zone.ground@[pi as int].items.items@[i as int]@);
                    }
                    let ghost prev = pool@;
                    let ghost at = i;
                    if self.zone.ground[pi].items.items[i].is_metal {
                        proof {
                            assert(!pool@.contains(MetalSource::Ground(i)));
                            assert forall|a: int, b: int|
                                0 <= a < pool@.len() + 1 && 0 <= b < pool@.len() + 1 && a != b implies
                                pool@.push(MetalSource::Ground(i))[a] != pool@.push(MetalSource::Ground(i))[b] by {
                                if a == pool@.len() {
                                    assert(pool@.contains(pool@[b]));
                                } else if b == pool@.len() {
                                    assert(pool@.contains(pool@[a]));
                                }
                            }
                        }
                        pool.push(MetalSource::Ground(i));
                    }
                    i += 1;
                    proof {
                        assert forall|src: MetalSource|
                            pool@.contains(src) <==> match src {
                                MetalSource::Ground(j) => j < i && self.reaches_metal(src),
                                MetalSource::Inventory(_) => false,
                            } by {
                            if here[at as int].is_metal {
                            assert(pool@ == prev.push(MetalSource::Ground(at)));
                            vstd::seq_lib::lemma_seq_contains_after_push(prev, MetalSource::Ground(at), src);
                        } else {
                            assert(pool@ == prev);
                        }
                        }
                    }
                }
            },
            None => {
                proof {
                    lemma_items_at_absent(self.zone.ground@, pos);
                }
            },
        }
        let mut i: usize = 0;
        while i < self.player.inventory.items.len()
            invariant
                pack == self.player.inventory@,
                here == self.here(),
                i <= pack.len(),
                pool@.no_duplicates(),
                forall|a: int, b: int|
                    0 <= a < b < pool@.len() ==> pool_rank(pool@[a], here.len()) < pool_rank(
                        pool@[b],
                        here.len(),
                    ),
                forall|a: int| 0 <= a < pool@.len() ==> pool_rank(#[trigger] pool@[a], here.len()) < here.len() + i,
                forall|src: MetalSource|
                    pool@.contains(src) <==> match src {
                        MetalSource::Ground(_) => self.reaches_metal(src),
                        MetalSource::Inventory(j) => j < i && self.reaches_metal(src),
                    },
            decreases pack.len() - i,
        {
            proof {
                assert(pack[i as int] == self.player.inventory.items@[i as int]@);
            }
            let ghost prev = pool@;
            let ghost at = i;
            if self.player.inventory.items[i].is_metal {
                proof {
                    assert(!pool@.contains(MetalSource::Inventory(i)));
                    assert forall|a: int, b: int|
                        0 <= a < pool@.len() + 1 && 0 <= b < pool@.len() + 1 && a != b implies
                        pool@.push(MetalSource::Inventory(i))[a] != pool@.push(MetalSource::Inventory(i))[b] by {
                        if a == pool@.len() {
                            assert(pool@.contains(pool@[b]));
                        } else if b == pool@.len() {
                            assert(pool@.contains(pool@[a]));
                        }
                    }
                }
                pool.push(MetalSource::Inventory(i));
            }
            i += 1;
            proof {
                assert forall|src: MetalSource|
                    pool@.contains(src) <==> match src {
                        MetalSource::Ground(_) => self.reaches_metal(src),
                        MetalSource::Inventory(j) => j < i && self.reaches_metal(src),
                    } by {
                    if pack[at as int].is_metal {
                            assert(pool@ == prev.push(MetalSource::Inventory(at)));
                            vstd::seq_lib::lemma_seq_contains_after_push(prev, MetalSource::Inventory(at), src);
                        } else {
                            assert(pool@ == prev);
                        }
                }
            }
        }
        proof {
            if pool@.len() > 0 {
                let src = pool@[0];
                assert(pool@.contains(src));
                match src {
                    MetalSource::Ground(j) => assert(here[j as int].is_metal),
                    MetalSource::Inventory(j) => assert(pack[j as int].is_metal),
                }
            }
            if has_metal(here) {
                let j = choose|j: int| 0 <= j < here.len() && (#[trigger] here[j]).is_metal;
                assert(self.reaches_metal(MetalSource::Ground(j as usize)));
                assert(pool@.contains(MetalSource::Ground(j as usize)));
            }
            if has_metal(pack) {
                let j = choose|j: int| 0 <= j < pack.len() && (#[trigger] pack[j]).is_metal;
                assert(self.reaches_metal(MetalSource::Inventory(j as usize)));
                assert(pool@.contains(MetalSource::Inventory(j as usize)));
            }
        }
        pool
    }

    /// Third step of a world update.  On a rust anomaly, one metal item picked at
    /// random from those on the player's cell and those carried turns into Rust
    /// Slag; with no metal item in reach, nothing changes.
    pub fn rust_anomaly_system(&mut self, rng: &mut Lcg64Xsh32, events: &mut Vec<String>)
        requires
            old(self).wf(),
        ensures
            final(self).wf(),
            final(self).same_but_items(old(self)),
            forall|q|
                q != old(self).player.pos ==> #[trigger] final(self).zone.ground_at(q) == old(
                    self,
                ).zone.ground_at(q),
            rust_outcome(
                old(self).zone.has_entity(EntityType::RustAnomaly, old(self).player.pos),
                old(self).here(),
                old(self).player.inventory@,
                final(self).here(),
                final(self).player.inventory@,
                texts(old(events)@),
                texts(final(events)@),
            ),
    {
        if !self.zone.has_entity_at(EntityType::RustAnomaly, self.player.pos) {
            return;
        }
        let pool = self.metal_pool();
        if pool.len() == 0 {
            return;
        }
        let k = draw_below(rng, pool.len());
        let src = pool[k];
        let wording = draw_below(rng, 5);
        let ghost here = self.here();
        let ghost pack = self.player.inventory@;
        let ghost ev = texts(events@);
        assert(pool@.contains(src));
        assert(self.reaches_metal(src));
        self.corrode(src, wording, events);
        proof {
            match src {
                MetalSource::Ground(j) => {
                    assert(here[j as int].is_metal);
                    assert(texts(events@) == ev.push(rust_ground_text(here[j as int].name)));
                },
                MetalSource::Inventory(j) => {
                    assert(pack[j as int].is_metal);
                    assert(texts(events@) == ev.push(vague_line(wording as int)));
                },
            }
        }
    }
}

} // verus!
