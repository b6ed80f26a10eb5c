//! The scene: the items on the canvas, the current selection and the next
//! stacking value.

use vstd::prelude::*;
use std::collections::HashSet;

use crate::item::{Item, ItemId};

verus! {

broadcast use vstd::std_specs::hash::group_hash_axioms;

/// `k` is the position of the first item with identity `id`.
pub open spec fn is_first_match(items: Seq<Item>, id: ItemId, k: int) -> bool {
    &&& 0 <= k < items.len()
    &&& items[k].id == id
    &&& forall|j: int| 0 <= j < k ==> items[j].id != id
}

/// The position of the first item with identity `id`, if there is one.
pub open spec fn first_match(items: Seq<Item>, id: ItemId) -> Option<int> {
    if exists|k: int| is_first_match(items, id, k) {
        Some(choose|k: int| is_first_match(items, id, k))
    } else {
        None
    }
}

/// The two sequences hold the same identities at the same positions.
pub open spec fn same_ids(a: Seq<Item>, b: Seq<Item>) -> bool {
    &&& a.len() == b.len()
    &&& forall|j: int| 0 <= j < a.len() ==> #[trigger] a[j].id == b[j].id
}

pub proof fn lemma_first_match_is(items: Seq<Item>, id: ItemId, k: int)
    requires
        is_first_match(items, id, k),
    ensures
        first_match(items, id) == Some(k),
{
    let c = choose|c: int| is_first_match(items, id, c);
    assert(is_first_match(items, id, c));
    if c < k {
        assert(items[c].id != id);
    } else if k < c {
        assert(items[k].id != id);
    }
}

pub proof fn lemma_first_match_none(items: Seq<Item>, id: ItemId)
    requires
        forall|j: int| 0 <= j < items.len() ==> items[j].id != id,
    ensures
        first_match(items, id) is None,
{
}

pub proof fn lemma_first_match_some(items: Seq<Item>, id: ItemId)
    requires
        first_match(items, id) is Some,
    ensures
        is_first_match(items, id, first_match(items, id)->0),
{
}

/// Positions of first matches depend on the identities alone.
pub proof fn lemma_first_match_same_ids(a: Seq<Item>, b: Seq<Item>, id: ItemId)
    requires
        same_ids(a, b),
    ensures
        first_match(a, id) == first_match(b, id),
{
    if let Some(k) = first_match(a, id) {
        lemma_first_match_some(a, id);
        assert(is_first_match(b, id, k)) by {
            assert forall|j: int| 0 <= j < k implies b[j].id != id by {
                assert(a[j].id == b[j].id);
            }
            assert(a[k].id == b[k].id);
        }
        lemma_first_match_is(b, id, k);
    } else {
        if let Some(k) = first_match(b, id) {
            lemma_first_match_some(b, id);
            assert(is_first_match(a, id, k)) by {
                assert forall|j: int| 0 <= j < k implies a[j].id != id by {
                    assert(a[j].id == b[j].id);
                }
                assert(a[k].id == b[k].id);
            }
            lemma_first_match_is(a, id, k);
        }
    }
}

/// Stacking order of two positions: by `z`, then by position.
pub open spec fn stacks_below(items: Seq<Item>, a: int, b: int) -> bool {
    items[a].z < items[b].z || (items[a].z == items[b].z && a < b)
}

/// `order` lists every position of `items` once, bottom to top: by `z`, and
/// items with equal `z` in their order in `items`.
pub open spec fn is_z_order(items: Seq<Item>, order: Seq<int>) -> bool {
    &&& order.len() == items.len()
    &&& forall|i: int| 0 <= i < order.len() ==> 0 <= #[trigger] order[i] < items.len()
    &&& forall|i: int, j: int|
        0 <= i < j < order.len() ==> stacks_below(items, #[trigger] order[i], #[trigger] order[j])
}

/// Position `k` is the topmost of the positions that `hit` marks: it is
/// marked, and every other marked item stacks below it.
pub open spec fn is_topmost_hit(items: Seq<Item>, hit: Seq<bool>, k: int) -> bool {
    &&& 0 <= k < items.len()
    &&& hit[k]
    &&& forall|j: int| 0 <= j < items.len() && j != k && #[trigger] hit[j] ==> stacks_below(items, j, k)
}

/// `z` grows strictly along the items (as it does for items added one after
/// another by `Scene::add_item`).
pub open spec fn z_increasing(items: Seq<Item>) -> bool {
    forall|i: int, j: int| 0 <= i < j < items.len() ==> #[trigger] items[i].z < #[trigger] items[j].z
}

proof fn lemma_order_at_least(order: Seq<int>, i: int)
    requires
        0 <= i < order.len(),
        forall|a: int| 0 <= a < order.len() ==> 0 <= #[trigger] order[a],
        forall|a: int, b: int| 0 <= a < b < order.len() ==> #[trigger] order[a] < #[trigger] order[b],
    ensures
        order[i] >= i,
    decreases i,
{
    if i > 0 {
        lemma_order_at_least(order, i - 1);
    }
}

proof fn lemma_order_at_most(order: Seq<int>, i: int)
    requires
        0 <= i < order.len(),
        forall|a: int| 0 <= a < order.len() ==> #[trigger] order[a] < order.len(),
        forall|a: int, b: int| 0 <= a < b < order.len() ==> #[trigger] order[a] < #[trigger] order[b],
    ensures
        order[i] <= i,
    decreases order.len() - i,
{
    if i < order.len() - 1 {
        lemma_order_at_most(order, i + 1);
    }
}

/// Items whose `z` grows along them stack in their own order: the only
/// bottom-to-top order is the identity.
pub proof fn law_increasing_z_stacks_in_order(items: Seq<Item>, order: Seq<int>)
    requires
        z_increasing(items),
        is_z_order(items, order),
    ensures
        forall|i: int| 0 <= i < order.len() ==> order[i] == i,
{
    assert forall|a: int, b: int| 0 <= a < b < order.len() implies #[trigger] order[a] < #[trigger] order[b] by {
        assert(stacks_below(items, order[a], order[b]));
        if order[a] > order[b] {
            assert(items[order[b]].z < items[order[a]].z);
        }
    }
    assert forall|i: int| 0 <= i < order.len() implies order[i] == i by {
        lemma_order_at_least(order, i);
        lemma_order_at_most(order, i);
    }
}

/// A z order lists every position of the items.
proof fn lemma_z_order_covers(items: Seq<Item>, order: Seq<int>, k: int)
    requires
        is_z_order(items, order),
        0 <= k < items.len(),
    ensures
        exists|p: int| 0 <= p < order.len() && order[p] == k,
{
    assert(order.no_duplicates()) by {
        assert forall|i: int, j: int| 0 <= i < order.len() && 0 <= j < order.len() && i != j implies order[i] != order[j] by {
            if i < j {
                assert(stacks_below(items, order[i], order[j]));
            } else {
                assert(stacks_below(items, order[j], order[i]));
            }
        }
    }
    order.unique_seq_to_set();
    let range = vstd::set_lib::set_int_range(0, items.len() as int);
    vstd::set_lib::lemma_int_range(0, items.len() as int);
    assert(order.to_set().subset_of(range)) by {
        assert forall|v: int| order.to_set().contains(v) implies range.contains(v) by {
            let p = choose|p: int| 0 <= p < order.len() && order[p] == v;
            assert(0 <= order[p] < items.len());
        }
    }
    vstd::set_lib::lemma_subset_equality(order.to_set(), range);
    assert(range.contains(k));
    assert(order.to_set().contains(k));
}

/// Going down a z order from the top, the first marked item met is the
/// topmost hit: it is in the order, and no marked item comes after it.
pub proof fn law_topmost_hit_is_first_from_top(items: Seq<Item>, order: Seq<int>, hit: Seq<bool>, k: int)
    requires
        is_z_order(items, order),
        hit.len() == items.len(),
        is_topmost_hit(items, hit, k),
    ensures
        exists|p: int| 0 <= p < order.len() && order[p] == k,
        forall|p: int, q: int| #![trigger order[p], order[q]] 0 <= p < q < order.len() && order[p] == k ==> !hit[order[q]],
{
    lemma_z_order_covers(items, order, k);
    assert forall|p: int, q: int| #![trigger order[p], order[q]] 0 <= p < q < order.len() && order[p] == k implies !hit[order[q]] by {
        assert(stacks_below(items, order[p], order[q]));
        if hit[order[q]] && order[q] != k {
            assert(stacks_below(items, order[q], k));
        }
    }
}

/// A z order lists the items bottom to top: every position exactly once,
/// `z` never decreasing along it, and items of equal `z` in their order in
/// `items`.
pub proof fn law_z_order_is_bottom_to_top(items: Seq<Item>, order: Seq<int>)
    requires
        is_z_order(items, order),
    ensures
        forall|i: int, j: int| 0 <= i < j < order.len() ==> items[#[trigger] order[i]].z <= items[#[trigger] order[j]].z,
        forall|i: int, j: int| 0 <= i < j < order.len() && items[#[trigger] order[i]].z == items[#[trigger] order[j]].z ==> order[i] < order[j],
        forall|i: int, j: int| 0 <= i < order.len() && 0 <= j < order.len() && i != j ==> #[trigger] order[i] != #[trigger] order[j],
        forall|k: int| 0 <= k < items.len() ==> #[trigger] order.contains(k),
{
    assert forall|i: int, j: int| 0 <= i < j < order.len() implies items[#[trigger] order[i]].z <= items[#[trigger] order[j]].z by {
        assert(stacks_below(items, order[i], order[j]));
    }
    assert forall|i: int, j: int| 0 <= i < order.len() && 0 <= j < order.len() && i != j implies #[trigger] order[i] != #[trigger] order[j] by {
        if i < j {
            assert(stacks_below(items, order[i], order[j]));
        } else {
            assert(stacks_below(items, order[j], order[i]));
        }
    }
    assert forall|k: int| 0 <= k < items.len() implies #[trigger] order.contains(k) by {
        lemma_z_order_covers(items, order, k);
    }
}

#[derive(Debug)]
pub struct Scene {
    pub items: Vec<Item>,
    pub selection: HashSet<ItemId>,
    pub next_z: i32,
}

impl Default for Scene {
    /// The empty scene.
    fn default() -> (r: Self)
        ensures
            r.items@ == Seq::<Item>::empty(),
            r.selection@ == Set::<ItemId>::empty(),
            r.next_z == 0,
    {
        Self::new()
    }
}

impl Scene {
    /// Every item stacks below `next_z`.
    pub open spec fn z_below_next(&self) -> bool {
        forall|i: int| 0 <= i < self.items@.len() ==> #[trigger] self.items@[i].z < self.next_z
    }

    /// The empty scene.
    pub fn new() -> (r: Self)
        ensures
            r.items@ == Seq::<Item>::empty(),
            r.selection@ == Set::<ItemId>::empty(),
            r.next_z == 0,
    {
        Scene { items: Vec::new(), selection: HashSet::new(), next_z: 0 }
    }

    /// Appends `item` on top of the stack: its `z` becomes `next_z`, and
    /// `next_z` grows by one.
    pub fn add_item(&mut self, item: Item)
        requires
            old(self).next_z < i32::MAX,
        ensures
            final(self).items@ == old(self).items@.push(Item { z: old(self).next_z, ..item }),
            final(self).next_z == old(self).next_z + 1,
            final(self).selection@ == old(self).selection@,
            old(self).z_below_next() ==> final(self).z_below_next(),
            old(self).z_below_next() && z_increasing(old(self).items@) ==> z_increasing(final(self).items@),
    {
        let mut item = item;
        item.z = self.next_z;
        self.next_z = self.next_z + 1;
        self.items.push(item);
    }

    /// Appends `item` keeping its `z`; `next_z` moves past it if needed.
    pub fn add_item_preserve_z(&mut self, item: Item)
        requires
            item.z < i32::MAX,
        ensures
            final(self).items@ == old(self).items@.push(item),
            final(self).next_z == (if item.z >= old(self).next_z { item.z + 1 } else { old(self).next_z as int }),
            final(self).selection@ == old(self).selection@,
            old(self).z_below_next() ==> final(self).z_below_next(),
    {
        if item.z >= self.next_z {
            self.next_z = item.z + 1;
        }
        self.items.push(item);
    }

    /// Removes every item with identity `id`, and `id` from the selection.
    pub fn remove_item(&mut self, id: &ItemId)
        ensures
            final(self).items@ == old(self).items@.filter(|it: Item| it.id != *id),
            final(self).selection@ == old(self).selection@.remove(*id),
            final(self).next_z == old(self).next_z,
            old(self).z_below_next() ==> final(self).z_below_next(),
    {
        let ghost old_items = self.items@;
        let ghost pred = |it: Item| it.id != *id;
        let ghost mut k: int = 0;
        let mut i: usize = 0;
        while i < self.items.len()
            invariant
                0 <= i <= k <= old_items.len(),
                i <= self.items@.len(),
                self.items@.len() - i == old_items.len() - k,
                self.items@.take(i as int) == old_items.take(k).filter(pred),
                self.items@.skip(i as int) == old_items.skip(k),
                self.next_z == old(self).next_z,
                self.selection == old(self).selection,
                pred == (|it: Item| it.id != *id),
                old(self).z_below_next() ==> self.z_below_next(),
            decreases old_items.len() - k,
        {
            proof {
                assert(old_items.take(k + 1).drop_last() == old_items.take(k));
                reveal(Seq::filter);
                assert(self.items@[i as int] == old_items[k]) by {
                    assert(self.items@.skip(i as int)[0] == old_items.skip(k)[0]);
                }
            }
            if self.items[i].id == *id {
                let ghost before = self.items@;
                self.items.remove(i);
                proof {
                    assert forall|a: int| 0 <= a < self.items@.len() implies #[trigger] self.items@[a] == before[a] || self.items@[a] == before[a + 1] by {
                        if a >= i { assert(self.items@[a] == before[a + 1]); }
                    }
                    assert(self.items@.take(i as int) == before.take(i as int));
                    assert(self.items@.skip(i as int) == before.skip(i as int + 1));
                    assert(old_items.skip(k + 1) == old_items.skip(k).skip(1));
                    assert(before.skip(i as int + 1) == before.skip(i as int).skip(1));
                }
            } else {
                let ghost before = self.items@;
                i = i + 1;
                proof {
                    assert(self.items@.take(i as int) == before.take(i as int - 1).push(old_items[k]));
                    assert(self.items@.skip(i as int) == before.skip(i as int - 1).skip(1));
                    assert(old_items.skip(k + 1) == old_items.skip(k).skip(1));
                }
            }
            proof {
                k = k + 1;
            }
        }
        proof {
            assert(old_items.take(k) == old_items);
            assert(self.items@.take(i as int) == self.items@);
        }
        self.selection.remove(id);
        proof {
            assert(final(self).items@ == old(self).items@.filter(|it: Item| it.id != *id));
        }
    }

    /// The first item with identity `id`, if any.
    pub fn get_item(&self, id: &ItemId) -> (r: Option<&Item>)
        ensures
            r is Some == first_match(self.items@, *id) is Some,
            r matches Some(x) ==> *x == self.items@[first_match(self.items@, *id)->0],
    {
        match self.position(id) {
            Some(k) => Some(&self.items[k]),
            None => None,
        }
    }

    /// The position of the first item with identity `id`, if any.
    pub fn position(&self, id: &ItemId) -> (r: Option<usize>)
        ensures
            r is Some == first_match(self.items@, *id) is Some,
            r matches Some(k) ==> first_match(self.items@, *id) == Some(k as int),
    {
        let mut i: usize = 0;
        while i < self.items.len()
            invariant
                i <= self.items@.len(),
                forall|j: int| 0 <= j < i ==> self.items@[j].id != *id,
            decreases self.items@.len() - i,
        {
            if self.items[i].id == *id {
                proof {
                    lemma_first_match_is(self.items@, *id, i as int);
                }
                return Some(i);
            }
            i = i + 1;
        }
        None
    }

    /// Mutable access to the first item with identity `id`, if any. Nothing
    /// else in the scene changes.
    pub fn get_item_mut(&mut self, id: &ItemId) -> (r: Option<&mut Item>)
        ensures
            first_match(old(self).items@, *id) is None ==> r is None && *final(self) == *old(self),
            first_match(old(self).items@, *id) is Some ==> (r matches Some(x) && *x == old(self).items@[first_match(old(self).items@, *id)->0]
                && final(self).items@ == old(self).items@.update(first_match(old(self).items@, *id)->0, *final(x))
                && final(self).selection == old(self).selection
                && final(self).next_z == old(self).next_z),
    {
        match self.position(id) {
            Some(k) => Some(&mut self.items[k]),
            None => None,
        }
    }

    pub fn selection_contains(&self, id: &ItemId) -> (r: bool)
        ensures
            r == self.selection@.contains(*id),
    {
        self.selection.contains(id)
    }

    pub fn select(&mut self, id: ItemId)
        ensures
            final(self).selection@ == old(self).selection@.insert(id),
            final(self).items@ == old(self).items@,
            final(self).next_z == old(self).next_z,
    {
        self.selection.insert(id);
    }

    pub fn deselect_all(&mut self)
        ensures
            final(self).selection@ == Set::<ItemId>::empty(),
            final(self).items@ == old(self).items@,
            final(self).next_z == old(self).next_z,
    {
        self.selection.clear();
    }

    /// Selects `id` if it was not selected, deselects it otherwise.
    pub fn toggle_selection(&mut self, id: ItemId)
        ensures
            final(self).selection@ == (if old(self).selection@.contains(id) {
                old(self).selection@.remove(id)
            } else {
                old(self).selection@.insert(id)
            }),
            final(self).items@ == old(self).items@,
            final(self).next_z == old(self).next_z,
    {
        if self.selection.contains(&id) {
            self.selection.remove(&id);
        } else {
            self.selection.insert(id);
        }
    }

    /// The items bottom to top: ordered by `z`, items with equal `z` in their
    /// order in `items`.
    pub fn items_by_z_order(&self) -> (r: Vec<&Item>)
        ensures
            r@.len() == self.items@.len(),
            forall|i: int, j: int| 0 <= i < j < r@.len() ==> (#[trigger] r@[i]).z <= (#[trigger] r@[j]).z,
            exists|order: Seq<int>|
                is_z_order(self.items@, order) && forall|i: int|
                    0 <= i < order.len() ==> *#[trigger] r@[i] == self.items@[order[i]],
    {
        let ghost items = self.items@;
        let mut order: Vec<usize> = Vec::new();
        let mut i: usize = 0;
        while i < self.items.len()
            invariant
                items == self.items@,
                i <= items.len(),
                order@.len() == i,
                forall|a: int| 0 <= a < order@.len() ==> #[trigger] order@[a] < i,
                forall|a: int, b: int|
                    0 <= a < b < order@.len() ==> stacks_below(items, #[trigger] order@[a] as int, #[trigger] order@[b] as int),
            decreases items.len() - i,
        {
            let z = self.items[i].z;
            let mut j: usize = order.len();
            while j > 0 && self.items[order[j - 1]].z > z
                invariant
                    items == self.items@,
                    z == items[i as int].z,
                    i < items.len(),
                    j <= order@.len(),
                    order@.len() == i,
                    forall|a: int| 0 <= a < order@.len() ==> #[trigger] order@[a] < i,
                    forall|a: int| j <= a < order@.len() ==> items[#[trigger] order@[a] as int].z > z,
                decreases j,
            {
                j = j - 1;
            }
            let ghost before = order@;
            proof {
                assert forall|a: int| 0 <= a < j implies items[#[trigger] before[a] as int].z <= z by {
                    if a < j - 1 {
                        assert(stacks_below(items, before[a] as int, before[j - 1] as int));
                    }
                }
            }
            order.insert(j, i);
            proof {
                assert forall|a: int, b: int|
                    0 <= a < b < order@.len() implies stacks_below(items, #[trigger] order@[a] as int, #[trigger] order@[b] as int) by {
                    if b < j {
                        assert(order@[a] == before[a] && order@[b] == before[b]);
                    } else if b == j {
                        assert(order@[a] == before[a]);
                    } else if a == j {
                        assert(order@[b] == before[b - 1]);
                    } else if a < j {
                        assert(order@[a] == before[a] && order@[b] == before[b - 1]);
                    } else {
                        assert(order@[a] == before[a - 1] && order@[b] == before[b - 1]);
                    }
                }
                assert forall|a: int| 0 <= a < order@.len() implies #[trigger] order@[a] < i + 1 by {
                    if a < j {
                        assert(order@[a] == before[a]);
                    } else if a > j {
                        assert(order@[a] == before[a - 1]);
                    }
                }
            }
            i = i + 1;
        }
        let mut r: Vec<&Item> = Vec::new();
        let mut k: usize = 0;
        while k < order.len()
            invariant
                items == self.items@,
                order@.len() == items.len(),
                forall|a: int| 0 <= a < order@.len() ==> #[trigger] order@[a] < items.len(),
                k <= order@.len(),
                r@.len() == k,
                forall|a: int| 0 <= a < k ==> *#[trigger] r@[a] == items[order@[a] as int],
            decreases order@.len() - k,
        {
            r.push(&self.items[order[k]]);
            k = k + 1;
        }
        let ghost witness = order@.map_values(|v: usize| v as int);
        proof {
            assert(is_z_order(items, witness)) by {
                assert forall|a: int, b: int| 0 <= a < b < witness.len() implies stacks_below(items, #[trigger] witness[a], #[trigger] witness[b]) by {
                    assert(stacks_below(items, order@[a] as int, order@[b] as int));
                }
                assert forall|a: int| 0 <= a < witness.len() implies 0 <= #[trigger] witness[a] < items.len() by {
                    assert(order@[a] < items.len());
                }
            }
            assert forall|a: int| 0 <= a < witness.len() implies *#[trigger] r@[a] == items[witness[a]] by {
                assert(*r@[a] == items[order@[a] as int]);
            }
            assert forall|i: int, j: int| 0 <= i < j < r@.len() implies (#[trigger] r@[i]).z <= (#[trigger] r@[j]).z by {
                assert(*r@[i] == items[witness[i]]);
                assert(*r@[j] == items[witness[j]]);
                assert(stacks_below(items, witness[i], witness[j]));
            }
        }
        r
    }

    /// The topmost of the items that `hit` marks (`hit[i]` for `items[i]`),
    /// the first met going down the stack from the top; `None` when none is
    /// marked.
    pub fn topmost_hit(&self, hit: &[bool]) -> (r: Option<&Item>)
        requires
            hit@.len() == self.items@.len(),
        ensures
            r is None <==> (forall|j: int| 0 <= j < hit@.len() ==> !#[trigger] hit@[j]),
            r matches Some(it) ==> exists|k: int| is_topmost_hit(self.items@, hit@, k) && *it == #[trigger] self.items@[k],
    {
        let ghost items = self.items@;
        let mut best: Option<usize> = None;
        let mut i: usize = 0;
        while i < hit.len()
            invariant
                items == self.items@,
                hit@.len() == items.len(),
                i <= hit@.len(),
                best is None <==> (forall|j: int| 0 <= j < i ==> !#[trigger] hit@[j]),
                best matches Some(b) ==> b < i && hit@[b as int] && forall|j: int|
                    0 <= j < i && j != b && #[trigger] hit@[j] ==> stacks_below(items, j, b as int),
            decreases hit@.len() - i,
        {
            if hit[i] {
                match best {
                    None => {
                        best = Some(i);
                    },
                    Some(b) => {
                        if self.items[i].z >= self.items[b].z {
                            best = Some(i);
                        }
                    },
                }
            }
            i = i + 1;
        }
        match best {
            Some(b) => {
                proof {
                    assert(is_topmost_hit(items, hit@, b as int));
                }
                Some(&self.items[b])
            },
            None => None,
        }
    }

    /// Removes every item and the whole selection, and restarts stacking at 0.
    pub fn clear(&mut self)
        ensures
            final(self).items@ == Seq::<Item>::empty(),
            final(self).selection@ == Set::<ItemId>::empty(),
            final(self).next_z == 0,
    {
        self.items.clear();
        self.selection.clear();
        self.next_z = 0;
    }
}

} // verus!
