use vstd::prelude::*;
use crate::item::{Item, ItemView, views, remove_at};

verus! {

/// Sum of the weights of a sequence of items.
pub open spec fn weight_sum(s: Seq<ItemView>) -> int
    decreases s.len(),
{
    if s.len() == 0 {
        0
    } else {
        weight_sum(s.drop_last()) + s.last().weight
    }
}

/// Number of items in `s` whose name is exactly `name`.
pub open spec fn count_named(s: Seq<ItemView>, name: Seq<char>) -> int
    decreases s.len(),
{
    if s.len() == 0 {
        0
    } else {
        count_named(s.drop_last(), name) + if s.last().name == name {
            1int
        } else {
            0
        }
    }
}

pub proof fn lemma_weight_sum_push(s: Seq<ItemView>, x: ItemView)
    ensures
        weight_sum(s.push(x)) == weight_sum(s) + x.weight,
{
    assert(s.push(x).drop_last() =~= s);
}

pub proof fn lemma_count_named_push(s: Seq<ItemView>, x: ItemView, name: Seq<char>)
    ensures
        count_named(s.push(x), name) == count_named(s, name) + if x.name == name {
            1int
        } else {
            0
        },
{
    assert(s.push(x).drop_last() =~= s);
}

/// The items that the player carries, in the order they were taken.
#[derive(Debug, Default)]
pub struct Inventory {
    pub items: Vec<Item>,
}

impl View for Inventory {
    type V = Seq<ItemView>;

    open spec fn view(&self) -> Seq<ItemView> {
        views(self.items@)
    }
}

impl Inventory {
    pub fn new() -> (r: Inventory)
        ensures
            r.items@ == Seq::<Item>::empty(),
    {
        Inventory { items: Vec::new() }
    }

    pub fn add_item(&mut self, item: Item)
        ensures
            final(self).items@ == old(self).items@.push(item),
            final(self)@ == old(self)@.push(item@),
    {
        self.items.push(item);
        assert(final(self)@ =~= old(self)@.push(item@));
    }

    pub fn remove_item(&mut self, index: usize) -> (r: Option<Item>)
        ensures
            index < old(self).items@.len() ==> r == Some(old(self).items@[index as int])
                && final(self).items@ == old(self).items@.remove(index as int),
            index >= old(self).items@.len() ==> r is None && final(self).items@ == old(
                self,
            ).items@,
    {
        remove_at(&mut self.items, index)
    }

    /// Sum of the weights of the carried items; any number of `u32` weights fits in a `u128`.
    pub fn total_weight(&self) -> (r: u128)
        ensures
            r == weight_sum(self@),
            self@.len() == 0 ==> r == 0,
    {
        let mut total: u128 = 0;
        let mut i: usize = 0;
        while i < self.items.len()
            invariant
                i <= self.items@.len(),
                total == weight_sum(views(self.items@.subrange(0, i as int))),
                total <= i * (u32::MAX as int),
            decreases self.items@.len() - i,
        {
            let w = self.items[i].weight;
            proof {
                let s = self.items@;
                assert(views(s.subrange(0, i + 1)) =~= views(s.subrange(0, i as int)).push(s[i as int]@));
                lemma_weight_sum_push(views(s.subrange(0, i as int)), s[i as int]@);
                let ii = i as int;
                assert((ii + 1) * (u32::MAX as int) <= 0x1_0000_0000_0000_0000 * 0x1_0000_0000) by (nonlinear_arith)
                    requires ii + 1 <= 0x1_0000_0000_0000_0000;
                assert(ii * (u32::MAX as int) + (u32::MAX as int) == (ii + 1) * (u32::MAX as int)) by (nonlinear_arith);
            }
            total = total + w as u128;
            i += 1;
        }
        assert(self.items@.subrange(0, i as int) =~= self.items@);
        total
    }

    pub fn is_empty(&self) -> (r: bool)
        ensures
            r == (self.items@.len() == 0),
    {
        self.items.len() == 0
    }

    pub fn count(&self) -> (r: usize)
        ensures
            r == self.items@.len(),
    {
        self.items.len()
    }

    /// How many carried items have exactly this name.
    pub fn count_named(&self, name: &String) -> (r: usize)
        ensures
            r == count_named(self@, name@),
    {
        let mut n: usize = 0;
        let mut i: usize = 0;
        while i < self.items.len()
            invariant
                i <= self.items@.len(),
                n == count_named(views(self.items@.subrange(0, i as int)), name@),
                n <= i,
            decreases self.items@.len() - i,
        {
            proof {
                let s = self.items@;
                assert(views(s.subrange(0, i + 1)) =~= views(s.subrange(0, i as int)).push(s[i as int]@));
                lemma_count_named_push(views(s.subrange(0, i as int)), s[i as int]@, name@);
            }
            if self.items[i].name == *name {
                n += 1;
            }
            i += 1;
        }
        assert(self.items@.subrange(0, i as int) =~= self.items@);
        n
    }

    /// Index of the first carried item with this name.
    pub fn position_named(&self, name: &String) -> (r: Option<usize>)
        ensures
            match r {
                Some(i) => i < self.items@.len() && self@[i as int].name == name@
                    && forall|j: int| 0 <= j < i ==> #[trigger] self@[j].name != name@,
                None => forall|j: int| 0 <= j < self@.len() ==> #[trigger] self@[j].name != name@,
            },
    {
        let mut i: usize = 0;
        while i < self.items.len()
            invariant
                i <= self.items@.len(),
                forall|j: int| 0 <= j < i ==> #[trigger] self@[j].name != name@,
            decreases self.items@.len() - i,
        {
            if self.items[i].name == *name {
                return Some(i);
            }
            i += 1;
        }
        None
    }

    pub open spec fn has_metal_detector_spec(&self) -> bool {
        exists|j: int| 0 <= j < self@.len() && #[trigger] self@[j].name == "Metal Detector"@
    }

    pub fn has_metal_detector(&self) -> (r: bool)
        ensures
            r == self.has_metal_detector_spec(),
    {
        let name = "Metal Detector".to_owned();
        self.position_named(&name).is_some()
    }
}

/// Carry-weight thresholds: `in_gravity` applies while the player is captured.
#[derive(Debug, Clone, Copy)]
pub struct CarryCapacity {
    pub normal: u32,
    pub in_gravity: u32,
}

impl CarryCapacity {
    /// The threshold that gates movement.
    pub open spec fn threshold(&self, captured: bool) -> u32 {
        if captured {
            self.in_gravity
        } else {
            self.normal
        }
    }

    pub fn effective(&self, captured: bool) -> (r: u32)
        ensures
            r == self.threshold(captured),
    {
        if captured {
            self.in_gravity
        } else {
            self.normal
        }
    }
}

impl Default for CarryCapacity {
    fn default() -> (r: CarryCapacity)
        ensures
            r.normal == 250,
            r.in_gravity == 125,
    {
        CarryCapacity { normal: 250, in_gravity: 125 }
    }
}

/// A cardinal direction; also the last direction the player moved in.
#[derive(Debug, Clone, Copy, PartialEq, Eq, Structural)]
pub enum LastMoveDirection {
    North,
    South,
    East,
    West,
}

/// Grid offset of a direction; north is towards smaller `y`.
pub open spec fn offset_of(d: LastMoveDirection) -> (i32, i32) {
    match d {
        LastMoveDirection::North => (0i32, -1i32),
        LastMoveDirection::South => (0i32, 1i32),
        LastMoveDirection::East => (1i32, 0i32),
        LastMoveDirection::West => (-1i32, 0i32),
    }
}

impl LastMoveDirection {
    pub fn offset(&self) -> (r: (i32, i32))
        ensures
            r == offset_of(*self),
    {
        match self {
            LastMoveDirection::North => (0, -1),
            LastMoveDirection::South => (0, 1),
            LastMoveDirection::East => (1, 0),
            LastMoveDirection::West => (-1, 0),
        }
    }
}

impl Default for LastMoveDirection {
    fn default() -> (r: LastMoveDirection)
        ensures
            r == LastMoveDirection::North,
    {
        LastMoveDirection::North
    }
}

} // verus!
