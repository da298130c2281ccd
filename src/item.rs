use vstd::prelude::*;
use crate::grid::ItemType;

verus! {

/// A single item: an immutable value object.
#[derive(Debug)]
pub struct Item {
    pub name: String,
    pub weight: u32,
    /// Absent for pure tools (bolts, detectors).
    pub value: Option<u32>,
    /// Metal items are found by the detector and corroded by the rust anomaly.
    pub is_metal: bool,
}

/// What an item is, as a mathematical value.
pub struct ItemView {
    pub name: Seq<char>,
    pub weight: u32,
    pub value: Option<u32>,
    pub is_metal: bool,
}

impl View for Item {
    type V = ItemView;

    open spec fn view(&self) -> ItemView {
        ItemView { name: self.name@, weight: self.weight, value: self.value, is_metal: self.is_metal }
    }
}

impl Clone for Item {
    fn clone(&self) -> (r: Item)
        ensures
            r == *self,
    {
        Item { name: self.name.clone(), weight: self.weight, value: self.value, is_metal: self.is_metal }
    }
}

/// The canonical instance of each item type: name, weight, value, metal flag.
pub open spec fn catalog(t: ItemType) -> ItemView {
    match t {
        ItemType::FullyEmpty => ItemView {
            name: "Fully Empty"@,
            weight: 100,
            value: Some(200),
            is_metal: false,
        },
        ItemType::Scrap => ItemView { name: "Scrap"@, weight: 10, value: Some(5), is_metal: true },
        ItemType::GlassJar => ItemView {
            name: "Glass Jar"@,
            weight: 5,
            value: Some(2),
            is_metal: false,
        },
        ItemType::Battery => ItemView { name: "Battery"@, weight: 3, value: Some(3), is_metal: false },
        ItemType::Bolt => ItemView { name: "Bolt"@, weight: 1, value: None, is_metal: false },
        ItemType::MetalDetector => ItemView {
            name: "Metal Detector"@,
            weight: 50,
            value: None,
            is_metal: true,
        },
        ItemType::RustSlag => ItemView { name: "Rust Slag"@, weight: 5, value: Some(0), is_metal: true },
    }
}

impl Item {
    pub fn new(name: String, weight: u32, value: Option<u32>, is_metal: bool) -> (r: Item)
        ensures
            r.name == name,
            r.weight == weight,
            r.value == value,
            r.is_metal == is_metal,
    {
        Item { name, weight, value, is_metal }
    }

    /// The catalog instance of an item type.
    pub fn of_type(t: ItemType) -> (r: Item)
        ensures
            r@ == catalog(t),
    {
        match t {
            ItemType::FullyEmpty => Item::new("Fully Empty".to_owned(), 100, Some(200), false),
            ItemType::Scrap => Item::new("Scrap".to_owned(), 10, Some(5), true),
            ItemType::GlassJar => Item::new("Glass Jar".to_owned(), 5, Some(2), false),
            ItemType::Battery => Item::new("Battery".to_owned(), 3, Some(3), false),
            ItemType::Bolt => Item::new("Bolt".to_owned(), 1, None, false),
            ItemType::MetalDetector => Item::new("Metal Detector".to_owned(), 50, None, true),
            ItemType::RustSlag => Item::new("Rust Slag".to_owned(), 5, Some(0), true),
        }
    }
}

impl From<ItemType> for Item {
    fn from(t: ItemType) -> (r: Item) {
        Item::of_type(t)
    }
}

impl vstd::std_specs::convert::FromSpecImpl<ItemType> for Item {
    open spec fn obeys_from_spec() -> bool {
        false
    }

    open spec fn from_spec(t: ItemType) -> Item {
        arbitrary()
    }
}

/// The items of a sequence, as values.
pub open spec fn views(items: Seq<Item>) -> Seq<ItemView> {
    items.map_values(|i: Item| i@)
}

/// Items resting on one grid cell, in the order they were put there.
#[derive(Debug, Default)]
pub struct GroundItems {
    pub items: Vec<Item>,
}

impl View for GroundItems {
    type V = Seq<ItemView>;

    open spec fn view(&self) -> Seq<ItemView> {
        views(self.items@)
    }
}

impl Clone for GroundItems {
    fn clone(&self) -> (r: GroundItems)
        ensures
            r.items@ == self.items@,
    {
        GroundItems { items: clone_items(&self.items) }
    }
}

/// Copies a list of items one by one.
pub fn clone_items(items: &Vec<Item>) -> (r: Vec<Item>)
    ensures
        r@ == items@,
{
    let mut r: Vec<Item> = Vec::with_capacity(items.len());
    let mut i: usize = 0;
    while i < items.len()
        invariant
            i <= items@.len(),
            r@ == items@.subrange(0, i as int),
        decreases items@.len() - i,
    {
        r.push(items[i].clone());
        i += 1;
        assert(r@ =~= items@.subrange(0, i as int));
    }
    assert(items@.subrange(0, i as int) =~= items@);
    r
}

/// Removes the element at `index` and shifts the rest down; `None` when out of range.
pub fn remove_at(items: &mut Vec<Item>, index: usize) -> (r: Option<Item>)
    ensures
        index < old(items)@.len() ==> r == Some(old(items)@[index as int]) && final(items)@ == old(
            items,
        )@.remove(index as int),
        index >= old(items)@.len() ==> r is None && final(items)@ == old(items)@,
{
    if index < items.len() {
        Some(items.remove(index))
    } else {
        None
    }
}

impl GroundItems {
    pub fn new() -> (r: GroundItems)
        ensures
            r@ == Seq::<ItemView>::empty(),
    {
        GroundItems { items: Vec::new() }
    }

    pub fn add_item(&mut self, item: Item)
        ensures
            final(self).items@ == old(self).items@.push(item),
            final(self)@ == old(self)@.push(item@),
    {
        self.items.push(item);
        assert(final(self)@ =~= old(self)@.push(item@));
    }

    pub fn remove_item(&mut self, index: usize) -> (r: Option<Item>)
        ensures
            index < old(self).items@.len() ==> r == Some(old(self).items@[index as int])
                && final(self).items@ == old(self).items@.remove(index as int),
            index >= old(self).items@.len() ==> r is None && final(self).items@ == old(
                self,
            ).items@,
    {
        remove_at(&mut self.items, index)
    }

    pub fn is_empty(&self) -> (r: bool)
        ensures
            r == (self.items@.len() == 0),
    {
        self.items.len() == 0
    }

    pub fn count(&self) -> (r: usize)
        ensures
            r == self.items@.len(),
    {
        self.items.len()
    }

    /// The index of every item that has a value, each once, in increasing order.
    pub fn valued_indices(&self) -> (r: Vec<usize>)
        ensures
            forall|j: usize| r@.contains(j) <==> j < self@.len() && self@[j as int].value is Some,
            forall|a: int, b: int| 0 <= a < b < r@.len() ==> r@[a] < r@[b],
    {
        let mut r: Vec<usize> = Vec::new();
        let mut i: usize = 0;
        while i < self.items.len()
            invariant
                i <= self.items@.len(),
                forall|j: usize| r@.contains(j) <==> j < i && self@[j as int].value is Some,
                forall|a: int, b: int| 0 <= a < b < r@.len() ==> r@[a] < r@[b],
                forall|a: int| 0 <= a < r@.len() ==> r@[a] < i,
            decreases self.items@.len() - i,
        {
            let ghost prev = r@;
            let ghost at = i;
            if self.items[i].value.is_some() {
                r.push(i);
            }
            i += 1;
            proof {
                assert forall|j: usize| r@.contains(j) <==> j < i && self@[j as int].value is Some by {
                    if self@[at as int].value is Some {
                        assert(r@ == prev.push(at));
                        vstd::seq_lib::lemma_seq_contains_after_push(prev, at, j);
                    } else {
                        assert(r@ == prev);
                    }
                }
            }
        }
        r
    }
}

} // verus!
