//! Undoable scene edits.
//!
//! Every edit of the scene is a [`Command`]: `redo` applies it, `undo` takes it
//! back. Commands that the UI has already previewed on the scene report so
//! through `skip_first_redo`, so that the first `redo` can be skipped.

use vstd::prelude::*;

use crate::item::{CropRect, Item, ItemId, ItemKind};
use crate::scene::{first_match, is_first_match, lemma_first_match_is, lemma_first_match_same_ids, lemma_first_match_some, same_ids, Scene};
use crate::spaces::{CanvasVector, Scalar};
use crate::transform::Transform;

verus! {

broadcast use vstd::std_specs::hash::group_hash_axioms;

/// An undoable edit of a scene.
pub trait Command {
    /// The scenes on which `redo` may run (it would overflow on the others).
    spec fn can_redo(&self, scene: Scene) -> bool;

    /// The scenes on which `undo` may run (it would overflow on the others).
    spec fn can_undo(&self, scene: Scene) -> bool;

    fn redo(&mut self, scene: &mut Scene)
        requires
            old(self).can_redo(*old(scene)),
    ;

    fn undo(&mut self, scene: &mut Scene)
        requires
            old(self).can_undo(*old(scene)),
    ;

    /// Whether the edit is already on the scene when the command is made,
    /// so that its first `redo` is to be skipped.
    fn skip_first_redo(&self) -> (r: bool)
        default_ensures
            r == false,
    {
        false
    }
}

// ───────────────────────── Item updates ─────────────────────────

/// `items` with the first item of identity `id` replaced by `f` of it.
pub open spec fn update_first(items: Seq<Item>, id: ItemId, f: spec_fn(Item) -> Item) -> Seq<Item> {
    match first_match(items, id) {
        Some(k) => items.update(k, f(items[k])),
        None => items,
    }
}

/// `f` keeps every item's identity.
pub open spec fn keeps_id(f: spec_fn(Item) -> Item) -> bool {
    forall|it: Item| #[trigger] f(it).id == it.id
}

pub proof fn lemma_update_first_same_ids(items: Seq<Item>, id: ItemId, f: spec_fn(Item) -> Item)
    requires
        keeps_id(f),
    ensures
        same_ids(items, update_first(items, id, f)),
{
    if let Some(k) = first_match(items, id) {
        lemma_first_match_some(items, id);
        assert(f(items[k]).id == items[k].id);
    }
}

/// Sets the transform.
pub open spec fn with_transform(t: Transform) -> spec_fn(Item) -> Item {
    |it: Item| Item { transform: t, ..it }
}

/// Sets the position.
pub open spec fn with_pos(p: CanvasVector) -> spec_fn(Item) -> Item {
    |it: Item| Item { transform: Transform { pos: p, ..it.transform }, ..it }
}

/// Sets the stacking value.
pub open spec fn with_z(z: i32) -> spec_fn(Item) -> Item {
    |it: Item| Item { z: z, ..it }
}

/// Toggles a mirror flag: the horizontal one if `horizontal`, else the vertical one.
pub open spec fn toggled(horizontal: bool) -> spec_fn(Item) -> Item {
    |it: Item|
        if horizontal {
            Item { transform: Transform { flip_h: !it.transform.flip_h, ..it.transform }, ..it }
        } else {
            Item { transform: Transform { flip_v: !it.transform.flip_v, ..it.transform }, ..it }
        }
}

/// What `update_first` does at each position: the first item with identity
/// `id` becomes `f` of it, every other item stays, and the length stays.
pub proof fn lemma_update_first_at(items: Seq<Item>, id: ItemId, f: spec_fn(Item) -> Item)
    ensures
        update_first(items, id, f).len() == items.len(),
        forall|k: int| is_first_match(items, id, k) ==> #[trigger] update_first(items, id, f)[k] == f(items[k]),
        forall|k: int| 0 <= k < items.len() && !is_first_match(items, id, k) ==> #[trigger] update_first(items, id, f)[k] == items[k],
{
    if let Some(c) = first_match(items, id) {
        lemma_first_match_some(items, id);
        assert forall|k: int| is_first_match(items, id, k) implies #[trigger] update_first(items, id, f)[k] == f(items[k]) by {
            lemma_first_match_is(items, id, k);
        }
    } else {
        assert forall|k: int| 0 <= k < items.len() implies !is_first_match(items, id, k) by {
            if is_first_match(items, id, k) {
                lemma_first_match_is(items, id, k);
            }
        }
    }
}

proof fn lemma_first_match_is_same_ids(a: Seq<Item>, b: Seq<Item>, id: ItemId, k: int)
    requires
        same_ids(a, b),
        is_first_match(a, id, k),
    ensures
        is_first_match(b, id, k),
{
    assert(a[k].id == b[k].id);
    assert forall|j: int| 0 <= j < k implies b[j].id != id by {
        assert(a[j].id == b[j].id);
    }
}

/// Setting a transform on the first item of an identity: that item then has
/// exactly the given transform, every field of it (position, scale, rotation,
/// flips), and keeps its identity, kind and stacking value; every other item
/// stays as it was.
pub proof fn law_set_transform(items: Seq<Item>, id: ItemId, t: Transform)
    ensures
        update_first(items, id, with_transform(t)).len() == items.len(),
        forall|k: int| 0 <= k < items.len() && items[k].id == id && (forall|j: int| 0 <= j < k ==> items[j].id != id) ==> {
            let it = #[trigger] update_first(items, id, with_transform(t))[k];
            &&& it.transform == t
            &&& it.id == items[k].id
            &&& it.kind == items[k].kind
            &&& it.z == items[k].z
        },
        forall|k: int| 0 <= k < items.len() && items[k].id != id ==> #[trigger] update_first(items, id, with_transform(t))[k] == items[k],
        forall|j: int, k: int| #![trigger items[j], update_first(items, id, with_transform(t))[k]]
            0 <= j < k < items.len() && items[j].id == id ==> update_first(items, id, with_transform(t))[k] == items[k],
{
    lemma_update_first_at(items, id, with_transform(t));
    assert forall|j: int, k: int| #![trigger items[j], update_first(items, id, with_transform(t))[k]]
        0 <= j < k < items.len() && items[j].id == id implies update_first(items, id, with_transform(t))[k] == items[k] by {
        assert(!is_first_match(items, id, k));
    }
}

// ───────────────────────── Transform ─────────────────────────

/// Replaces one item's whole transform (scale, rotation, move and flip in any
/// combination); the command of a released transform handle.
pub struct TransformItem {
    item_id: ItemId,
    old_transform: Transform,
    new_transform: Transform,
    /// The drag preview already put the new transform on the item.
    preview_already_applied: bool,
}

impl TransformItem {
    pub closed spec fn target(&self) -> ItemId {
        self.item_id
    }

    pub closed spec fn before(&self) -> Transform {
        self.old_transform
    }

    pub closed spec fn after(&self) -> Transform {
        self.new_transform
    }

    pub closed spec fn preview_applied(&self) -> bool {
        self.preview_already_applied
    }

    /// A command that counts as already previewed.
    pub fn new(item_id: ItemId, old_transform: Transform, new_transform: Transform) -> (r: Self)
        ensures
            r.target() == item_id,
            r.before() == old_transform,
            r.after() == new_transform,
            r.preview_applied(),
    {
        TransformItem { item_id, old_transform, new_transform, preview_already_applied: true }
    }

    /// Says whether the edit is already previewed on the scene.
    pub fn with_preview_applied(self, applied: bool) -> (r: Self)
        ensures
            r.target() == self.target(),
            r.before() == self.before(),
            r.after() == self.after(),
            r.preview_applied() == applied,
    {
        let mut s = self;
        s.preview_already_applied = applied;
        s
    }
}

impl Command for TransformItem {
    open spec fn can_redo(&self, scene: Scene) -> bool {
        true
    }

    open spec fn can_undo(&self, scene: Scene) -> bool {
        true
    }

    /// The item gets the new transform.
    fn redo(&mut self, scene: &mut Scene)
        ensures
            final(scene).items@ == update_first(old(scene).items@, old(self).target(), with_transform(old(self).after())),
            forall|k: int| is_first_match(old(scene).items@, old(self).target(), k) ==> (#[trigger] final(scene).items@[k]).transform == old(self).after(),
            final(scene).selection@ == old(scene).selection@,
            final(scene).next_z == old(scene).next_z,
            *final(self) == *old(self),
    {
        let ghost items0 = scene.items@;
        if let Some(item) = scene.get_item_mut(&self.item_id) {
            item.transform = self.new_transform;
        }
        proof {
            lemma_update_first_at(items0, self.item_id, with_transform(self.new_transform));
        }
    }

    /// The item gets the old transform back.
    fn undo(&mut self, scene: &mut Scene)
        ensures
            final(scene).items@ == update_first(old(scene).items@, old(self).target(), with_transform(old(self).before())),
            forall|k: int| is_first_match(old(scene).items@, old(self).target(), k) ==> (#[trigger] final(scene).items@[k]).transform == old(self).before(),
            final(scene).selection@ == old(scene).selection@,
            final(scene).next_z == old(scene).next_z,
            *final(self) == *old(self),
    {
        let ghost items0 = scene.items@;
        if let Some(item) = scene.get_item_mut(&self.item_id) {
            item.transform = self.old_transform;
        }
        proof {
            lemma_update_first_at(items0, self.item_id, with_transform(self.old_transform));
        }
    }

    fn skip_first_redo(&self) -> (r: bool)
        ensures
            r == self.preview_applied(),
    {
        self.preview_already_applied
    }
}


pub proof fn lemma_update_first_twice(items: Seq<Item>, id: ItemId, f: spec_fn(Item) -> Item, g: spec_fn(Item) -> Item)
    requires
        keeps_id(f),
    ensures
        update_first(update_first(items, id, f), id, g) == update_first(items, id, |it: Item| g(f(it))),
{
    lemma_update_first_same_ids(items, id, f);
    lemma_first_match_same_ids(items, update_first(items, id, f), id);
}

/// Replacing an item's transform by a command's new one and then by its old
/// one gives back the items, when the item held the old transform.
pub proof fn law_transform_item_undo_restores(cmd: TransformItem, items: Seq<Item>)
    requires
        first_match(items, cmd.target()) matches Some(k) ==> items[k].transform == cmd.before(),
    ensures
        update_first(update_first(items, cmd.target(), with_transform(cmd.after())), cmd.target(), with_transform(cmd.before())) == items,
{
    let id = cmd.target();
    lemma_update_first_twice(items, id, with_transform(cmd.after()), with_transform(cmd.before()));
    if let Some(k) = first_match(items, id) {
        assert(items.update(k, Item { transform: cmd.before(), ..items[k] }) =~= items);
    }
}

/// Redoing after an undo gives the same items as redoing alone.
pub proof fn law_transform_item_redo_after_undo(cmd: TransformItem, items: Seq<Item>)
    ensures
        update_first(update_first(items, cmd.target(), with_transform(cmd.before())), cmd.target(), with_transform(cmd.after()))
            == update_first(items, cmd.target(), with_transform(cmd.after())),
{
    let id = cmd.target();
    lemma_update_first_twice(items, id, with_transform(cmd.before()), with_transform(cmd.after()));
    assert((|it: Item| with_transform(cmd.after())(with_transform(cmd.before())(it))) =~= with_transform(cmd.after()));
}

// ───────────────────────── Flip ─────────────────────────

/// Toggles a mirror flag of the first item of each identity in `ids`, in order.
pub open spec fn flip_each(items: Seq<Item>, ids: Seq<ItemId>, horizontal: bool) -> Seq<Item>
    decreases ids.len(),
{
    if ids.len() == 0 {
        items
    } else {
        update_first(flip_each(items, ids.drop_last(), horizontal), ids.last(), toggled(horizontal))
    }
}

/// Mirrors several items (the edge handles).
pub struct FlipItems {
    item_ids: Vec<ItemId>,
    /// `true`: toggles `flip_h`; `false`: toggles `flip_v`.
    horizontal: bool,
}

impl FlipItems {
    pub closed spec fn targets(&self) -> Seq<ItemId> {
        self.item_ids@
    }

    pub closed spec fn is_horizontal(&self) -> bool {
        self.horizontal
    }

    pub fn new(item_ids: Vec<ItemId>, horizontal: bool) -> (r: Self)
        ensures
            r.targets() == item_ids@,
            r.is_horizontal() == horizontal,
    {
        FlipItems { item_ids, horizontal }
    }
}

impl Command for FlipItems {
    open spec fn can_redo(&self, scene: Scene) -> bool {
        true
    }

    open spec fn can_undo(&self, scene: Scene) -> bool {
        true
    }

    /// Toggles the flag of the first item of each identity, in order.
    fn redo(&mut self, scene: &mut Scene)
        ensures
            final(scene).items@ == flip_each(old(scene).items@, old(self).targets(), old(self).is_horizontal()),
            final(scene).selection@ == old(scene).selection@,
            final(scene).next_z == old(scene).next_z,
            *final(self) == *old(self),
    {
        let ghost items0 = scene.items@;
        let mut i: usize = 0;
        while i < self.item_ids.len()
            invariant
                i <= self.item_ids@.len(),
                scene.items@ == flip_each(items0, self.item_ids@.take(i as int), self.horizontal),
                scene.selection@ == old(scene).selection@,
                scene.next_z == old(scene).next_z,
            decreases self.item_ids@.len() - i,
        {
            let id = self.item_ids[i];
            proof {
                assert(self.item_ids@.take(i as int + 1).drop_last() == self.item_ids@.take(i as int));
            }
            if let Some(item) = scene.get_item_mut(&id) {
                if self.horizontal {
                    item.transform.flip_h = !item.transform.flip_h;
                } else {
                    item.transform.flip_v = !item.transform.flip_v;
                }
            }
            i = i + 1;
        }
        proof {
            assert(self.item_ids@.take(i as int) == self.item_ids@);
        }
    }

    /// Flipping is its own inverse: the same toggles again.
    fn undo(&mut self, scene: &mut Scene)
        ensures
            final(scene).items@ == flip_each(old(scene).items@, old(self).targets(), old(self).is_horizontal()),
            final(scene).selection@ == old(scene).selection@,
            final(scene).next_z == old(scene).next_z,
            *final(self) == *old(self),
    {
        self.redo(scene);
    }
}

proof fn lemma_toggled_keeps_id(horizontal: bool)
    ensures
        keeps_id(toggled(horizontal)),
{
}

proof fn lemma_toggle_commutes(items: Seq<Item>, a: ItemId, b: ItemId, h: bool)
    ensures
        update_first(update_first(items, a, toggled(h)), b, toggled(h))
            == update_first(update_first(items, b, toggled(h)), a, toggled(h)),
{
    let t = toggled(h);
    lemma_toggled_keeps_id(h);
    lemma_update_first_same_ids(items, a, t);
    lemma_update_first_same_ids(items, b, t);
    lemma_first_match_same_ids(items, update_first(items, a, t), b);
    lemma_first_match_same_ids(items, update_first(items, b, t), a);
    match (first_match(items, a), first_match(items, b)) {
        (Some(ka), Some(kb)) => {
            lemma_first_match_some(items, a);
            lemma_first_match_some(items, b);
            if ka != kb {
                assert(items.update(ka, t(items[ka])).update(kb, t(items[kb])) =~= items.update(kb, t(items[kb])).update(ka, t(items[ka])));
            }
        },
        _ => {},
    }
}

proof fn lemma_toggle_twice(items: Seq<Item>, a: ItemId, h: bool)
    ensures
        update_first(update_first(items, a, toggled(h)), a, toggled(h)) == items,
{
    let t = toggled(h);
    lemma_toggled_keeps_id(h);
    lemma_update_first_twice(items, a, t, t);
    if let Some(k) = first_match(items, a) {
        assert(t(t(items[k])) == items[k]);
        assert(items.update(k, t(t(items[k]))) =~= items);
    }
}

proof fn lemma_toggle_through(items: Seq<Item>, ids: Seq<ItemId>, a: ItemId, h: bool)
    ensures
        update_first(flip_each(items, ids, h), a, toggled(h)) == flip_each(update_first(items, a, toggled(h)), ids, h),
    decreases ids.len(),
{
    if ids.len() > 0 {
        lemma_toggle_commutes(flip_each(items, ids.drop_last(), h), a, ids.last(), h);
        lemma_toggle_through(items, ids.drop_last(), a, h);
    }
}

/// Flipping the same items twice gives back the items, whatever the scene.
pub proof fn law_flip_twice_restores(items: Seq<Item>, ids: Seq<ItemId>, horizontal: bool)
    ensures
        flip_each(flip_each(items, ids, horizontal), ids, horizontal) == items,
    decreases ids.len(),
{
    if ids.len() > 0 {
        let rest = ids.drop_last();
        let a = ids.last();
        let y = flip_each(items, rest, horizontal);
        // flip_each(flip_each(items, ids), rest) == update_first(flip_each(y, rest), a)
        lemma_toggle_through(y, rest, a, horizontal);
        lemma_toggle_twice(flip_each(y, rest, horizontal), a, horizontal);
        law_flip_twice_restores(items, rest, horizontal);
    }
}


// ───────────────────────── Delete ─────────────────────────

/// For each identity in `ids`, the first item with it, if any.
pub open spec fn snapshot_of(items: Seq<Item>, ids: Seq<ItemId>) -> Seq<Option<Item>> {
    ids.map_values(|id: ItemId|
        match first_match(items, id) {
            Some(k) => Some(items[k]),
            None => None,
        })
}

/// The items that are present in `snaps`, in order.
pub open spec fn present(snaps: Seq<Option<Item>>) -> Seq<Item>
    decreases snaps.len(),
{
    if snaps.len() == 0 {
        Seq::empty()
    } else {
        match snaps.last() {
            Some(it) => present(snaps.drop_last()).push(it),
            None => present(snaps.drop_last()),
        }
    }
}

/// `next_z` after putting back each present item of `snaps`, in order, with its `z`.
pub open spec fn raised_next_z(next_z: int, snaps: Seq<Option<Item>>) -> int
    decreases snaps.len(),
{
    if snaps.len() == 0 {
        next_z
    } else {
        let n = raised_next_z(next_z, snaps.drop_last());
        match snaps.last() {
            Some(it) => if it.z >= n { it.z + 1 } else { n },
            None => n,
        }
    }
}

/// Deletes several items. `undo` puts back the deleted items with their `z`,
/// from the copies taken by the first `redo`.
pub struct DeleteItems {
    item_ids: Vec<ItemId>,
    /// The first `redo` fills this with a copy of the first item of each
    /// identity (`None` where there was none), in the order of `item_ids`.
    snapshots: Vec<Option<Item>>,
}

impl DeleteItems {
    pub closed spec fn targets(&self) -> Seq<ItemId> {
        self.item_ids@
    }

    pub closed spec fn copies(&self) -> Seq<Option<Item>> {
        self.snapshots@
    }

    pub fn new(item_ids: Vec<ItemId>) -> (r: Self)
        ensures
            r.targets() == item_ids@,
            r.copies() == Seq::<Option<Item>>::empty(),
    {
        DeleteItems { item_ids, snapshots: Vec::new() }
    }
}

impl Command for DeleteItems {
    open spec fn can_redo(&self, scene: Scene) -> bool {
        true
    }

    /// No copy has the largest `z`: putting it back moves `next_z` past it.
    open spec fn can_undo(&self, scene: Scene) -> bool {
        forall|j: int| 0 <= j < self.copies().len() ==> (#[trigger] self.copies()[j] matches Some(it) ==> it.z < i32::MAX)
    }

    /// Takes the copies if none were taken yet, then removes every item with
    /// one of the identities, and those identities from the selection.
    fn redo(&mut self, scene: &mut Scene)
        ensures
            final(self).targets() == old(self).targets(),
            final(self).copies() == (if old(self).copies().len() == 0 {
                snapshot_of(old(scene).items@, old(self).targets())
            } else {
                old(self).copies()
            }),
            final(scene).items@ == old(scene).items@.filter(|it: Item| !old(self).targets().contains(it.id)),
            final(scene).selection@ == old(scene).selection@.difference(old(self).targets().to_set()),
            final(scene).next_z == old(scene).next_z,
    {
        let ghost items0 = scene.items@;
        let ghost ids = self.item_ids@;
        if self.snapshots.len() == 0 {
            let mut i: usize = 0;
            while i < self.item_ids.len()
                invariant
                    ids == self.item_ids@,
                    scene.items@ == items0,
                    i <= ids.len(),
                    self.snapshots@ == snapshot_of(items0, ids.take(i as int)),
                decreases ids.len() - i,
            {
                let snap = match scene.get_item(&self.item_ids[i]) {
                    Some(item) => Some(item.clone()),
                    None => None,
                };
                self.snapshots.push(snap);
                i = i + 1;
                proof {
                    assert(self.snapshots@ =~= snapshot_of(items0, ids.take(i as int)));
                }
            }
            proof {
                assert(ids.take(i as int) == ids);
            }
        }
        let ghost sel0 = scene.selection@;
        proof {
            lemma_filter_all(items0, |it: Item| !ids.take(0).contains(it.id));
            assert(sel0.difference(ids.take(0).to_set()) =~= sel0);
        }
        let mut i: usize = 0;
        while i < self.item_ids.len()
            invariant
                ids == self.item_ids@,
                i <= ids.len(),
                scene.items@ == items0.filter(|it: Item| !ids.take(i as int).contains(it.id)),
                scene.selection@ == sel0.difference(ids.take(i as int).to_set()),
                scene.next_z == old(scene).next_z,
            decreases ids.len() - i,
        {
            let ghost before = scene.items@;
            let id = self.item_ids[i];
            scene.remove_item(&id);
            proof {
                let p = |it: Item| !ids.take(i as int).contains(it.id);
                let q = |it: Item| it.id != id;
                let r = |it: Item| !ids.take(i as int + 1).contains(it.id);
                assert forall|it: Item| #[trigger] r(it) == (p(it) && q(it)) by {
                    assert(ids.take(i as int + 1) == ids.take(i as int).push(id));
                    if ids.take(i as int).contains(it.id) {
                        let w = choose|w: int| 0 <= w < i && #[trigger] ids.take(i as int)[w] == it.id;
                        assert(ids.take(i as int + 1)[w] == it.id);
                    }
                    if it.id == id {
                        assert(ids.take(i as int + 1)[i as int] == id);
                    }
                    if ids.take(i as int + 1).contains(it.id) {
                        let w = choose|w: int| 0 <= w < i + 1 && #[trigger] ids.take(i as int + 1)[w] == it.id;
                        if w < i {
                            assert(ids.take(i as int)[w] == it.id);
                        }
                    }
                }
                lemma_filter_filter(items0, p, q, r);
                assert(ids.take(i as int + 1).to_set() =~= ids.take(i as int).to_set().insert(id)) by {
                    assert(ids.take(i as int + 1) == ids.take(i as int).push(id));
                    assert forall|x: ItemId| ids.take(i as int + 1).contains(x) implies ids.take(i as int).contains(x) || x == id by {
                        let w = choose|w: int| 0 <= w < i + 1 && #[trigger] ids.take(i as int + 1)[w] == x;
                        if w < i {
                            assert(ids.take(i as int)[w] == x);
                        }
                    }
                    assert forall|x: ItemId| ids.take(i as int).contains(x) implies ids.take(i as int + 1).contains(x) by {
                        let w = choose|w: int| 0 <= w < i && #[trigger] ids.take(i as int)[w] == x;
                        assert(ids.take(i as int + 1)[w] == x);
                    }
                    assert(ids.take(i as int + 1)[i as int] == id);
                }
                assert(scene.selection@ =~= sel0.difference(ids.take(i as int + 1).to_set()));
            }
            i = i + 1;
        }
        proof {
            assert(ids.take(i as int) == ids);
        }
    }

    /// Puts back each copy, in order, keeping its `z`.
    fn undo(&mut self, scene: &mut Scene)
        ensures
            *final(self) == *old(self),
            final(scene).items@ == old(scene).items@ + present(old(self).copies()),
            final(scene).next_z == raised_next_z(old(scene).next_z as int, old(self).copies()),
            final(scene).selection@ == old(scene).selection@,
    {
        let ghost snaps = self.snapshots@;
        let mut i: usize = 0;
        while i < self.snapshots.len()
            invariant
                snaps == self.snapshots@,
                i <= snaps.len(),
                forall|j: int| 0 <= j < snaps.len() ==> (#[trigger] snaps[j] matches Some(it) ==> it.z < i32::MAX),
                scene.items@ == old(scene).items@ + present(snaps.take(i as int)),
                scene.next_z == raised_next_z(old(scene).next_z as int, snaps.take(i as int)),
                scene.selection@ == old(scene).selection@,
            decreases snaps.len() - i,
        {
            proof {
                assert(snaps.take(i as int + 1).drop_last() == snaps.take(i as int));
                assert(snaps.take(i as int + 1).last() == snaps[i as int]);
            }
            match &self.snapshots[i] {
                Some(item) => {
                    scene.add_item_preserve_z(item.clone());
                    proof {
                        assert(scene.items@ =~= old(scene).items@ + present(snaps.take(i as int + 1)));
                    }
                },
                None => {},
            }
            i = i + 1;
        }
        proof {
            assert(snaps.take(i as int) == snaps);
        }
    }
}

/// Filtering by `p` and then by `q` is filtering by `r` when `r` is `p && q`.
pub proof fn lemma_filter_filter(s: Seq<Item>, p: spec_fn(Item) -> bool, q: spec_fn(Item) -> bool, r: spec_fn(Item) -> bool)
    requires
        forall|it: Item| #[trigger] r(it) == (p(it) && q(it)),
    ensures
        s.filter(p).filter(q) == s.filter(r),
    decreases s.len(),
{
    reveal(Seq::filter);
    if s.len() > 0 {
        lemma_filter_filter(s.drop_last(), p, q, r);
        let fp = s.drop_last().filter(p);
        if p(s.last()) {
            assert(s.filter(p).drop_last() == fp);
        } else {
            assert(s.filter(p) == fp);
        }
    }
}

/// Taking back a deletion puts the copies back in the order they were taken
/// (the order of the given identities), skipping identities that had no
/// item: each copy once, nothing else.
pub proof fn law_undo_delete_keeps_given_order(snaps: Seq<Option<Item>>)
    ensures
        (forall|j: int| 0 <= j < snaps.len() ==> (#[trigger] snaps[j]) is Some) ==> {
            &&& present(snaps).len() == snaps.len()
            &&& forall|i: int| 0 <= i < snaps.len() ==> Some(#[trigger] present(snaps)[i]) == snaps[i]
        },
        present(snaps).len() <= snaps.len(),
        forall|x: Item| present(snaps).contains(x) <==> exists|j: int| 0 <= j < snaps.len() && #[trigger] snaps[j] == Some(x),
    decreases snaps.len(),
{
    if snaps.len() > 0 {
        let rest = snaps.drop_last();
        law_undo_delete_keeps_given_order(rest);
        assert forall|j: int| 0 <= j < rest.len() implies #[trigger] rest[j] == snaps[j] by {}
        if forall|j: int| 0 <= j < snaps.len() ==> (#[trigger] snaps[j]) is Some {
            assert forall|j: int| 0 <= j < rest.len() implies (#[trigger] rest[j]) is Some by {
                assert(snaps[j] is Some);
            }
            assert(snaps[snaps.len() - 1] is Some);
            assert forall|i: int| 0 <= i < snaps.len() implies Some(#[trigger] present(snaps)[i]) == snaps[i] by {
                if i < rest.len() {
                    assert(present(snaps)[i] == present(rest)[i]);
                }
            }
        }
        assert forall|x: Item| present(snaps).contains(x) <==> exists|j: int| 0 <= j < snaps.len() && #[trigger] snaps[j] == Some(x) by {
            lemma_present_contains(snaps, x);
        }
    }
}

/// Items that share an identity with another item do not have one of `ids`.
pub open spec fn ids_unique_among(items: Seq<Item>, ids: Seq<ItemId>) -> bool {
    forall|i: int, j: int|
        0 <= i < items.len() && 0 <= j < items.len() && i != j && #[trigger] items[i].id == #[trigger] items[j].id
            ==> !ids.contains(items[i].id)
}

/// An identity that occurs twice in `ids` has no item.
pub open spec fn repeats_absent(items: Seq<Item>, ids: Seq<ItemId>) -> bool {
    forall|i: int, j: int|
        0 <= i < ids.len() && 0 <= j < ids.len() && i != j && #[trigger] ids[i] == #[trigger] ids[j]
            ==> first_match(items, ids[i]) is None
}

/// Deleting items and taking the deletion back gives back the same items (as a
/// multiset: the deleted ones come back at the end, with their `z`), and
/// leaves `next_z` as it was when every item stacked below it.
///
/// It fails, and is stated without, where an identity of `ids` has two items
/// (only the first comes back) or an identity with an item occurs twice in
/// `ids` (its item comes back twice).
pub proof fn law_delete_then_undo(items: Seq<Item>, ids: Seq<ItemId>, next_z: int)
    requires
        ids_unique_among(items, ids),
        repeats_absent(items, ids),
    ensures
        (items.filter(|it: Item| !ids.contains(it.id)) + present(snapshot_of(items, ids))).to_multiset() == items.to_multiset(),
        (forall|j: int| 0 <= j < items.len() ==> items[j].z < next_z) ==> raised_next_z(next_z, snapshot_of(items, ids)) == next_z,
{
    let out = |it: Item| !ids.contains(it.id);
    let inn = |it: Item| ids.contains(it.id);
    let snaps = snapshot_of(items, ids);
    lemma_filter_split_multiset(items, out, inn);
    vstd::seq_lib::lemma_multiset_commutative(items.filter(out), present(snaps));
    // The deleted items and the copies are the same items, each once.
    assert forall|i: int, j: int| 0 <= i < j < snaps.len() && snaps[i] is Some && snaps[j] is Some implies snaps[i] != snaps[j] by {
        lemma_first_match_some(items, ids[i]);
        lemma_first_match_some(items, ids[j]);
        if ids[i] == ids[j] {
            assert(first_match(items, ids[i]) is None);
        }
    }
    lemma_present_no_dup(snaps);
    lemma_filter_no_dup(items, inn);
    assert forall|x: Item| present(snaps).contains(x) <==> items.filter(inn).contains(x) by {
        lemma_present_contains(snaps, x);
        if present(snaps).contains(x) {
            let j = choose|j: int| 0 <= j < snaps.len() && snaps[j] == Some(x);
            lemma_first_match_some(items, ids[j]);
            let k = first_match(items, ids[j])->0;
            assert(ids[j] == x.id);
            assert(inn(items[k]));
            items.lemma_filter_contains(inn, k);
        }
        if items.filter(inn).contains(x) {
            items.lemma_filter_contains_rev(inn, x);
            let fi = items.filter(inn);
            assert(fi.contains(x));
            let w = choose|w: int| 0 <= w < fi.len() && fi[w] == x;
            assert(0 <= w < fi.len());
            items.lemma_filter_pred(inn, w);
            let k = choose|k: int| 0 <= k < items.len() && items[k] == x;
            let j = choose|j: int| 0 <= j < ids.len() && ids[j] == x.id;
            assert(is_first_match(items, x.id, k)) by {
                assert forall|m: int| 0 <= m < k implies items[m].id != x.id by {
                    if items[m].id == items[k].id {
                        assert(!ids.contains(items[k].id));
                    }
                }
            }
            lemma_first_match_is(items, x.id, k);
            assert(snaps[j] == Some(x));
        }
    }
    lemma_same_elements_multiset(present(snaps), items.filter(inn));
    if forall|j: int| 0 <= j < items.len() ==> items[j].z < next_z {
        lemma_raised_unchanged(items, ids, next_z);
    }
}

proof fn lemma_raised_unchanged(items: Seq<Item>, ids: Seq<ItemId>, next_z: int)
    requires
        forall|j: int| 0 <= j < items.len() ==> items[j].z < next_z,
    ensures
        raised_next_z(next_z, snapshot_of(items, ids)) == next_z,
    decreases ids.len(),
{
    if ids.len() > 0 {
        lemma_raised_unchanged(items, ids.drop_last(), next_z);
        assert(snapshot_of(items, ids).drop_last() == snapshot_of(items, ids.drop_last()));
        if let Some(k) = first_match(items, ids.last()) {
            lemma_first_match_some(items, ids.last());
        }
    }
}

proof fn lemma_present_contains(snaps: Seq<Option<Item>>, x: Item)
    ensures
        present(snaps).contains(x) <==> exists|j: int| 0 <= j < snaps.len() && snaps[j] == Some(x),
    decreases snaps.len(),
{
    if snaps.len() > 0 {
        let rest = snaps.drop_last();
        lemma_present_contains(rest, x);
        if exists|j: int| 0 <= j < rest.len() && rest[j] == Some(x) {
            let j = choose|j: int| 0 <= j < rest.len() && rest[j] == Some(x);
            assert(snaps[j] == Some(x));
        }
        if exists|j: int| 0 <= j < snaps.len() && snaps[j] == Some(x) {
            let j = choose|j: int| 0 <= j < snaps.len() && snaps[j] == Some(x);
            if j < snaps.len() - 1 {
                assert(rest[j] == Some(x));
            }
        }
        if snaps.last() is None {
            assert(present(snaps) == present(rest));
        }
        if let Some(it) = snaps.last() {
            assert(present(snaps) == present(rest).push(it));
            if it == x {
                assert(present(snaps)[present(rest).len() as int] == x);
            }
            if present(rest).contains(x) {
                let w = choose|w: int| 0 <= w < present(rest).len() && present(rest)[w] == x;
                assert(present(snaps)[w] == x);
            }
            if present(snaps).contains(x) {
                let w = choose|w: int| 0 <= w < present(snaps).len() && present(snaps)[w] == x;
                if w < present(rest).len() {
                    assert(present(rest)[w] == x);
                }
            }
        }
    }
}

proof fn lemma_present_no_dup(snaps: Seq<Option<Item>>)
    requires
        forall|i: int, j: int| 0 <= i < j < snaps.len() && snaps[i] is Some && snaps[j] is Some ==> snaps[i] != snaps[j],
    ensures
        present(snaps).no_duplicates(),
    decreases snaps.len(),
{
    if snaps.len() > 0 {
        let rest = snaps.drop_last();
        lemma_present_no_dup(rest);
        if let Some(it) = snaps.last() {
            lemma_present_contains(rest, it);
            if present(rest).contains(it) {
                let j = choose|j: int| 0 <= j < rest.len() && rest[j] == Some(it);
                assert(snaps[j] == snaps[snaps.len() - 1]);
            }
            let p = present(snaps);
            assert forall|a: int, b: int| 0 <= a < p.len() && 0 <= b < p.len() && a != b implies p[a] != p[b] by {
                if a == p.len() - 1 {
                    assert(present(rest)[b] == p[b]);
                } else if b == p.len() - 1 {
                    assert(present(rest)[a] == p[a]);
                } else {
                    assert(present(rest)[a] == p[a] && present(rest)[b] == p[b]);
                }
            }
        }
    }
}

/// A filter that keeps only items of distinct identities has no duplicates.
proof fn lemma_filter_no_dup(s: Seq<Item>, p: spec_fn(Item) -> bool)
    requires
        forall|i: int, j: int|
            0 <= i < s.len() && 0 <= j < s.len() && i != j && p(s[i]) && p(s[j]) ==> s[i].id != s[j].id,
    ensures
        s.filter(p).no_duplicates(),
    decreases s.len(),
{
    reveal(Seq::filter);
    if s.len() > 0 {
        let rest = s.drop_last();
        lemma_filter_no_dup(rest, p);
        if p(s.last()) {
            let f = s.filter(p);
            let fr = rest.filter(p);
            assert(f == fr.push(s.last()));
            if fr.contains(s.last()) {
                rest.lemma_filter_contains_rev(p, s.last());
                let j = rest.index_of(s.last());
                assert(s[j] == s[s.len() - 1]);
            }
            assert forall|a: int, b: int| 0 <= a < f.len() && 0 <= b < f.len() && a != b implies f[a] != f[b] by {
                if a == f.len() - 1 {
                    assert(fr[b] == f[b]);
                } else if b == f.len() - 1 {
                    assert(fr[a] == f[a]);
                } else {
                    assert(fr[a] == f[a] && fr[b] == f[b]);
                }
            }
        }
    }
}

/// Two duplicate-free sequences with the same elements have the same multiset.
proof fn lemma_same_elements_multiset(a: Seq<Item>, b: Seq<Item>)
    requires
        a.no_duplicates(),
        b.no_duplicates(),
        forall|x: Item| a.contains(x) <==> b.contains(x),
    ensures
        a.to_multiset() == b.to_multiset(),
{
    broadcast use vstd::seq_lib::group_to_multiset_ensures;
    a.lemma_multiset_has_no_duplicates();
    b.lemma_multiset_has_no_duplicates();
    assert forall|x: Item| a.to_multiset().count(x) == b.to_multiset().count(x) by {
        if a.contains(x) {
            assert(a.to_multiset().contains(x));
            assert(b.to_multiset().contains(x));
        } else {
            assert(!a.to_multiset().contains(x));
            assert(!b.to_multiset().contains(x));
        }
    }
    assert(a.to_multiset() =~= b.to_multiset());
}

/// A sequence is the sum of what passes `p` and what passes `q`, when `q` is
/// the negation of `p`.
proof fn lemma_filter_split_multiset(s: Seq<Item>, p: spec_fn(Item) -> bool, q: spec_fn(Item) -> bool)
    requires
        forall|x: Item| #[trigger] q(x) == !p(x),
    ensures
        s.to_multiset() == s.filter(p).to_multiset().add(s.filter(q).to_multiset()),
    decreases s.len(),
{
    broadcast use vstd::seq_lib::group_to_multiset_ensures;
    reveal(Seq::filter);
    if s.len() == 0 {
        assert(s.to_multiset() =~= vstd::multiset::Multiset::empty());
        assert(s.filter(p).to_multiset() =~= vstd::multiset::Multiset::empty());
        assert(s.filter(q).to_multiset() =~= vstd::multiset::Multiset::empty());
        assert(s.to_multiset() =~= s.filter(p).to_multiset().add(s.filter(q).to_multiset()));
    } else {
        let rest = s.drop_last();
        lemma_filter_split_multiset(rest, p, q);
        assert(rest.push(s.last()) == s);
        assert(s.to_multiset() =~= s.filter(p).to_multiset().add(s.filter(q).to_multiset()));
    }
}

// ───────────────────────── Add ─────────────────────────

/// Adds one item on top of the stack; `undo` removes it again.
pub struct AddItem {
    item: Item,
}

impl AddItem {
    pub closed spec fn added(&self) -> Item {
        self.item
    }

    pub fn new(item: Item) -> (r: Self)
        ensures
            r.added() == item,
    {
        AddItem { item }
    }

    /// The identity of the item that this command adds.
    pub fn item_id(&self) -> (r: ItemId)
        ensures
            r == self.added().id,
    {
        self.item.id
    }
}

impl Command for AddItem {
    open spec fn can_redo(&self, scene: Scene) -> bool {
        scene.next_z < i32::MAX
    }

    open spec fn can_undo(&self, scene: Scene) -> bool {
        true
    }

    /// Adds a copy of the item on top of the stack (`Scene::add_item`).
    fn redo(&mut self, scene: &mut Scene)
        ensures
            *final(self) == *old(self),
            final(scene).items@ == old(scene).items@.push(Item { z: old(scene).next_z, ..old(self).added() }),
            final(scene).next_z == old(scene).next_z + 1,
            final(scene).selection@ == old(scene).selection@,
    {
        scene.add_item(self.item.clone());
    }

    /// Removes every item with the item's identity (`Scene::remove_item`).
    fn undo(&mut self, scene: &mut Scene)
        ensures
            *final(self) == *old(self),
            final(scene).items@ == old(scene).items@.filter(|it: Item| it.id != old(self).added().id),
            final(scene).selection@ == old(scene).selection@.remove(old(self).added().id),
            final(scene).next_z == old(scene).next_z,
    {
        scene.remove_item(&self.item.id);
    }
}

/// Adding an item whose identity no item has, then taking it back, gives back
/// the items; `next_z` stays one higher.
pub proof fn law_add_then_undo(items: Seq<Item>, item: Item, next_z: i32)
    requires
        forall|j: int| 0 <= j < items.len() ==> items[j].id != item.id,
    ensures
        items.push(Item { z: next_z, ..item }).filter(|it: Item| it.id != item.id) == items,
{
    let p = |it: Item| it.id != item.id;
    reveal(Seq::filter);
    assert(items.push(Item { z: next_z, ..item }).drop_last() == items);
    lemma_filter_all(items, p);
}

/// Filtering keeps a sequence whose items all pass.
pub proof fn lemma_filter_all(s: Seq<Item>, p: spec_fn(Item) -> bool)
    requires
        forall|j: int| 0 <= j < s.len() ==> p(s[j]),
    ensures
        s.filter(p) == s,
    decreases s.len(),
{
    reveal(Seq::filter);
    if s.len() > 0 {
        lemma_filter_all(s.drop_last(), p);
        assert(s.drop_last().push(s.last()) == s);
    }
}


// ───────────────────────── Setting a field of several items ─────────────────────────

/// Sets, in order, a field of the first item of each identity in `pairs` to
/// the paired value (`put` says which field).
pub open spec fn set_each<V>(items: Seq<Item>, pairs: Seq<(ItemId, V)>, put: spec_fn(Item, V) -> Item) -> Seq<Item>
    decreases pairs.len(),
{
    if pairs.len() == 0 {
        items
    } else {
        let v = pairs.last().1;
        update_first(set_each(items, pairs.drop_last(), put), pairs.last().0, |it: Item| put(it, v))
    }
}

/// The value of the last pair whose identity first matches position `k`.
pub open spec fn last_hit<V>(items: Seq<Item>, pairs: Seq<(ItemId, V)>, k: int) -> Option<V>
    decreases pairs.len(),
{
    if pairs.len() == 0 {
        None
    } else if first_match(items, pairs.last().0) == Some(k) {
        Some(pairs.last().1)
    } else {
        last_hit(items, pairs.drop_last(), k)
    }
}

/// `put` sets one field: it keeps the identity, and a later value replaces an
/// earlier one.
pub open spec fn sets_field<V>(put: spec_fn(Item, V) -> Item) -> bool {
    &&& forall|it: Item, v: V| #[trigger] put(it, v).id == it.id
    &&& forall|it: Item, a: V, b: V| #[trigger] put(put(it, a), b) == put(it, b)
}

pub open spec fn put_z(it: Item, z: i32) -> Item {
    Item { z: z, ..it }
}

/// Sets the stacking value, as a function.
pub open spec fn z_setter() -> spec_fn(Item, i32) -> Item {
    |it: Item, z: i32| put_z(it, z)
}

pub open spec fn put_pos(it: Item, p: CanvasVector) -> Item {
    Item { transform: Transform { pos: p, ..it.transform }, ..it }
}

proof fn lemma_last_hit_same_ids<V>(a: Seq<Item>, b: Seq<Item>, pairs: Seq<(ItemId, V)>, k: int)
    requires
        same_ids(a, b),
    ensures
        last_hit(a, pairs, k) == last_hit(b, pairs, k),
    decreases pairs.len(),
{
    if pairs.len() > 0 {
        lemma_first_match_same_ids(a, b, pairs.last().0);
        lemma_last_hit_same_ids(a, b, pairs.drop_last(), k);
    }
}

/// A last hit comes from some pair.
proof fn lemma_last_hit_from<V>(items: Seq<Item>, pairs: Seq<(ItemId, V)>, k: int)
    ensures
        last_hit(items, pairs, k) matches Some(v) ==> exists|j: int|
            0 <= j < pairs.len() && first_match(items, pairs[j].0) == Some(k) && #[trigger] pairs[j].1 == v,
        last_hit(items, pairs, k) is None <==> forall|j: int|
            0 <= j < pairs.len() ==> first_match(items, #[trigger] pairs[j].0) != Some(k),
    decreases pairs.len(),
{
    if pairs.len() > 0 {
        let rest = pairs.drop_last();
        lemma_last_hit_from(items, rest, k);
        if let Some(v) = last_hit(items, rest, k) {
            if first_match(items, pairs.last().0) != Some(k) {
                let j = choose|j: int| 0 <= j < rest.len() && first_match(items, rest[j].0) == Some(k) && #[trigger] rest[j].1 == v;
                assert(pairs[j] == rest[j]);
            }
        }
        if last_hit(items, pairs, k) is None {
            assert forall|j: int| 0 <= j < pairs.len() implies first_match(items, #[trigger] pairs[j].0) != Some(k) by {
                if j < rest.len() {
                    assert(pairs[j] == rest[j]);
                }
            }
        }
        if forall|j: int| 0 <= j < pairs.len() ==> first_match(items, #[trigger] pairs[j].0) != Some(k) {
            assert forall|j: int| 0 <= j < rest.len() implies first_match(items, #[trigger] rest[j].0) != Some(k) by {
                assert(pairs[j] == rest[j]);
            }
            assert(first_match(items, pairs[pairs.len() - 1].0) != Some(k));
        }
    }
}

/// What `set_each` does to each position.
proof fn lemma_set_each<V>(items: Seq<Item>, pairs: Seq<(ItemId, V)>, put: spec_fn(Item, V) -> Item)
    requires
        sets_field(put),
    ensures
        same_ids(items, set_each(items, pairs, put)),
        forall|k: int| 0 <= k < items.len() ==> #[trigger] set_each(items, pairs, put)[k] == match last_hit(items, pairs, k) {
            Some(v) => put(items[k], v),
            None => items[k],
        },
    decreases pairs.len(),
{
    if pairs.len() > 0 {
        let rest = pairs.drop_last();
        let r = set_each(items, rest, put);
        let v = pairs.last().1;
        let id = pairs.last().0;
        let f = |it: Item| put(it, v);
        lemma_set_each(items, rest, put);
        assert(keeps_id(f));
        lemma_update_first_same_ids(r, id, f);
        lemma_first_match_same_ids(items, r, id);
        let out = set_each(items, pairs, put);
        assert forall|k: int| 0 <= k < items.len() implies #[trigger] out[k] == match last_hit(items, pairs, k) {
            Some(v) => put(items[k], v),
            None => items[k],
        } by {
            assert(r[k] == match last_hit(items, rest, k) {
                Some(v) => put(items[k], v),
                None => items[k],
            });
            if first_match(items, id) == Some(k) {
                if let Some(w) = last_hit(items, rest, k) {
                    assert(put(put(items[k], w), v) == put(items[k], v));
                }
            }
        }
        assert(same_ids(items, out)) by {
            assert forall|j: int| 0 <= j < items.len() implies #[trigger] items[j].id == out[j].id by {
                assert(items[j].id == r[j].id);
                assert(r[j].id == out[j].id);
            }
        }
    }
}

// ───────────────────────── Reorder ─────────────────────────

/// For each identity in `ids` that has an item, the identity and that item's `z`.
pub open spec fn recorded_z(items: Seq<Item>, ids: Seq<ItemId>) -> Seq<(ItemId, i32)>
    decreases ids.len(),
{
    if ids.len() == 0 {
        Seq::empty()
    } else {
        let rest = recorded_z(items, ids.drop_last());
        match first_match(items, ids.last()) {
            Some(k) => rest.push((ids.last(), items[k].z)),
            None => rest,
        }
    }
}

/// The lowest `z` of the items, or 0 when there is none.
pub open spec fn lowest_z(items: Seq<Item>) -> int
    decreases items.len(),
{
    if items.len() == 0 {
        0
    } else if items.len() == 1 {
        items[0].z as int
    } else {
        let m = lowest_z(items.drop_last());
        if (items.last().z as int) < m {
            items.last().z as int
        } else {
            m
        }
    }
}

/// The new `z` of each identity: on top, counting up from `next_z`; or at the
/// bottom, ending just below `lowest`.
pub open spec fn planned_z(ids: Seq<ItemId>, to_front: bool, next_z: int, lowest: int) -> Seq<(ItemId, i32)> {
    Seq::new(ids.len(), |i: int| (ids[i], if to_front { (next_z + i) as i32 } else { (lowest - (ids.len() - i)) as i32 }))
}

/// Brings several items to the front or sends them to the back.
pub struct ReorderItems {
    item_ids: Vec<ItemId>,
    to_front: bool,
    /// The former `z` of each identity that had an item, in order.
    old_z: Vec<(ItemId, i32)>,
    /// The new `z` of each identity, in order (filled by the first `redo`).
    new_z: Vec<(ItemId, i32)>,
}

impl ReorderItems {
    pub closed spec fn targets(&self) -> Seq<ItemId> {
        self.item_ids@
    }

    pub closed spec fn front(&self) -> bool {
        self.to_front
    }

    pub closed spec fn former(&self) -> Seq<(ItemId, i32)> {
        self.old_z@
    }

    pub closed spec fn planned(&self) -> Seq<(ItemId, i32)> {
        self.new_z@
    }

    /// The new `z` values that `redo` on `scene` applies.
    pub open spec fn planned_on(&self, scene: Scene) -> Seq<(ItemId, i32)> {
        if self.former().len() == 0 {
            self.planned() + planned_z(self.targets(), self.front(), scene.next_z as int, lowest_z(scene.items@))
        } else {
            self.planned()
        }
    }

    pub fn new(item_ids: Vec<ItemId>, to_front: bool) -> (r: Self)
        ensures
            r.targets() == item_ids@,
            r.front() == to_front,
            r.former() == Seq::<(ItemId, i32)>::empty(),
            r.planned() == Seq::<(ItemId, i32)>::empty(),
    {
        ReorderItems { item_ids, to_front, old_z: Vec::new(), new_z: Vec::new() }
    }
}

impl Command for ReorderItems {
    /// The new `z` values and `next_z` fit in `i32`.
    open spec fn can_redo(&self, scene: Scene) -> bool {
        &&& self.former().len() == 0 ==> {
            &&& self.targets().len() <= i32::MAX
            &&& self.front() ==> scene.next_z + self.targets().len() <= i32::MAX
            &&& !self.front() ==> lowest_z(scene.items@) - self.targets().len() >= i32::MIN
        }
        &&& (self.front() && self.planned_on(scene).len() > 0) ==> self.planned_on(scene).last().1 < i32::MAX
    }

    open spec fn can_undo(&self, scene: Scene) -> bool {
        true
    }

    /// On the first run, records the former `z` of each identity that has an
    /// item and plans the new ones; then sets them. On top, `next_z` moves
    /// past the last new `z`.
    fn redo(&mut self, scene: &mut Scene)
        ensures
            final(self).targets() == old(self).targets(),
            final(self).front() == old(self).front(),
            final(self).former() == (if old(self).former().len() == 0 {
                recorded_z(old(scene).items@, old(self).targets())
            } else {
                old(self).former()
            }),
            final(self).planned() == old(self).planned_on(*old(scene)),
            final(scene).items@ == set_each(old(scene).items@, final(self).planned(), z_setter()),
            final(scene).next_z == (if old(self).front() && final(self).planned().len() > 0 {
                if final(self).planned().last().1 + 1 > old(scene).next_z {
                    final(self).planned().last().1 + 1
                } else {
                    old(scene).next_z as int
                }
            } else {
                old(scene).next_z as int
            }),
            final(scene).selection@ == old(scene).selection@,
    {
        let ghost items0 = scene.items@;
        let ghost ids = self.item_ids@;
        if self.old_z.len() == 0 {
            let mut i: usize = 0;
            while i < self.item_ids.len()
                invariant
                    ids == self.item_ids@,
                    items0 == scene.items@,
                    i <= ids.len(),
                    self.old_z@ == recorded_z(items0, ids.take(i as int)),
                    self.new_z@ == old(self).new_z@,
                    self.to_front == old(self).to_front,
                decreases ids.len() - i,
            {
                let id = self.item_ids[i];
                proof {
                    assert(ids.take(i as int + 1).drop_last() == ids.take(i as int));
                }
                if let Some(item) = scene.get_item(&id) {
                    self.old_z.push((id, item.z));
                }
                i = i + 1;
            }
            proof {
                assert(ids.take(i as int) == ids);
            }
            let n = self.item_ids.len();
            let ghost planned = planned_z(ids, self.to_front, scene.next_z as int, lowest_z(items0));
            if self.to_front {
                let base = scene.next_z;
                let mut i: usize = 0;
                while i < n
                    invariant
                        ids == self.item_ids@,
                        n == ids.len(),
                        n <= i32::MAX,
                        base + n <= i32::MAX,
                        base == scene.next_z,
                        self.to_front,
                        planned == planned_z(ids, true, base as int, lowest_z(items0)),
                        i <= n,
                        self.new_z@ == old(self).new_z@ + planned.take(i as int),
                        self.old_z@ == recorded_z(items0, ids),
                    decreases n - i,
                {
                    self.new_z.push((self.item_ids[i], base + i as i32));
                    i = i + 1;
                    proof {
                        assert(self.new_z@ =~= old(self).new_z@ + planned.take(i as int));
                    }
                }
                proof {
                    assert(planned.take(i as int) == planned);
                }
            } else {
                let low = lowest_z_of(&scene.items);
                let nn = n as i32;
                let mut i: usize = 0;
                while i < n
                    invariant
                        ids == self.item_ids@,
                        n == ids.len(),
                        n <= i32::MAX,
                        nn == n,
                        low == lowest_z(items0),
                        low - n >= i32::MIN,
                        !self.to_front,
                        planned == planned_z(ids, false, scene.next_z as int, low as int),
                        i <= n,
                        self.new_z@ == old(self).new_z@ + planned.take(i as int),
                        self.old_z@ == recorded_z(items0, ids),
                    decreases n - i,
                {
                    self.new_z.push((self.item_ids[i], low - (nn - i as i32)));
                    i = i + 1;
                    proof {
                        assert(self.new_z@ =~= old(self).new_z@ + planned.take(i as int));
                    }
                }
                proof {
                    assert(planned.take(i as int) == planned);
                }
            }
        }
        let ghost pairs = self.new_z@;
        let mut i: usize = 0;
        while i < self.new_z.len()
            invariant
                pairs == self.new_z@,
                i <= pairs.len(),
                scene.items@ == set_each(items0, pairs.take(i as int), z_setter()),
                scene.selection@ == old(scene).selection@,
                scene.next_z == old(scene).next_z,
            decreases pairs.len() - i,
        {
            let (id, z) = self.new_z[i];
            proof {
                assert(pairs.take(i as int + 1).drop_last() == pairs.take(i as int));
            }
            if let Some(item) = scene.get_item_mut(&id) {
                item.z = z;
            }
            i = i + 1;
            proof {
                let f = |it: Item| put_z(it, z);
                let g = |it: Item| z_setter()(it, pairs.take(i as int).last().1);
                assert(f =~= g);
            }
        }
        proof {
            assert(pairs.take(i as int) == pairs);
        }
        if self.to_front {
            let len = self.new_z.len();
            if len > 0 {
                let z = self.new_z[len - 1].1;
                if z + 1 > scene.next_z {
                    scene.next_z = z + 1;
                }
            }
        }
    }

    /// Puts back the recorded former `z` values.
    fn undo(&mut self, scene: &mut Scene)
        ensures
            *final(self) == *old(self),
            final(scene).items@ == set_each(old(scene).items@, old(self).former(), z_setter()),
            final(scene).selection@ == old(scene).selection@,
            final(scene).next_z == old(scene).next_z,
    {
        let ghost items0 = scene.items@;
        let ghost pairs = self.old_z@;
        let mut i: usize = 0;
        while i < self.old_z.len()
            invariant
                pairs == self.old_z@,
                i <= pairs.len(),
                scene.items@ == set_each(items0, pairs.take(i as int), z_setter()),
                scene.selection@ == old(scene).selection@,
                scene.next_z == old(scene).next_z,
            decreases pairs.len() - i,
        {
            let (id, z) = self.old_z[i];
            proof {
                assert(pairs.take(i as int + 1).drop_last() == pairs.take(i as int));
            }
            if let Some(item) = scene.get_item_mut(&id) {
                item.z = z;
            }
            i = i + 1;
            proof {
                let f = |it: Item| put_z(it, z);
                let g = |it: Item| z_setter()(it, pairs.take(i as int).last().1);
                assert(f =~= g);
            }
        }
        proof {
            assert(pairs.take(i as int) == pairs);
        }
    }
}

/// The lowest `z` of the items, or 0 when there is none.
fn lowest_z_of(items: &Vec<Item>) -> (r: i32)
    ensures
        r == lowest_z(items@),
{
    if items.len() == 0 {
        return 0;
    }
    let mut m = items[0].z;
    let mut i: usize = 1;
    while i < items.len()
        invariant
            1 <= i <= items@.len(),
            m == lowest_z(items@.take(i as int)),
        decreases items@.len() - i,
    {
        proof {
            assert(items@.take(i as int + 1).drop_last() == items@.take(i as int));
        }
        if items[i].z < m {
            m = items[i].z;
        }
        i = i + 1;
    }
    proof {
        assert(items@.take(i as int) == items@);
    }
    m
}


proof fn lemma_recorded_z(items: Seq<Item>, ids: Seq<ItemId>)
    ensures
        forall|j: int| 0 <= j < recorded_z(items, ids).len() ==> (first_match(items, #[trigger] recorded_z(items, ids)[j].0) matches Some(k)
            && recorded_z(items, ids)[j].1 == items[k].z),
        forall|i: int| 0 <= i < ids.len() && first_match(items, #[trigger] ids[i]) is Some ==>
            exists|j: int| 0 <= j < recorded_z(items, ids).len() && #[trigger] recorded_z(items, ids)[j].0 == ids[i],
    decreases ids.len(),
{
    if ids.len() > 0 {
        let rest = ids.drop_last();
        lemma_recorded_z(items, rest);
        let rr = recorded_z(items, rest);
        let r = recorded_z(items, ids);
        assert forall|j: int| 0 <= j < r.len() implies (first_match(items, #[trigger] r[j].0) matches Some(k) && r[j].1 == items[k].z) by {
            if j < rr.len() {
                assert(r[j] == rr[j]);
            }
        }
        assert forall|i: int| 0 <= i < ids.len() && first_match(items, #[trigger] ids[i]) is Some implies
            exists|j: int| 0 <= j < r.len() && #[trigger] r[j].0 == ids[i] by {
            if i < rest.len() {
                assert(rest[i] == ids[i]);
                let j = choose|j: int| 0 <= j < rr.len() && #[trigger] rr[j].0 == rest[i];
                assert(r[j] == rr[j]);
            } else {
                assert(r[rr.len() as int].0 == ids[i]);
            }
        }
    }
}

/// Taking back a reorder puts back every item, for any new `z` values the
/// command planned for its identities (the first run and every later one).
pub proof fn law_reorder_undo_restores(items: Seq<Item>, ids: Seq<ItemId>, planned: Seq<(ItemId, i32)>)
    requires
        forall|j: int| 0 <= j < planned.len() ==> ids.contains(#[trigger] planned[j].0),
    ensures
        set_each(set_each(items, planned, z_setter()), recorded_z(items, ids), z_setter())
            == items,
{
    let put = z_setter();
    assert(sets_field(put));
    let rec = recorded_z(items, ids);
    let a = set_each(items, planned, put);
    let r = set_each(a, rec, put);
    lemma_set_each(items, planned, put);
    lemma_set_each(a, rec, put);
    lemma_recorded_z(items, ids);
    assert forall|k: int| 0 <= k < items.len() implies r[k] == items[k] by {
        lemma_last_hit_same_ids(items, a, rec, k);
        lemma_last_hit_from(items, rec, k);
        lemma_last_hit_from(items, planned, k);
        if let Some(v) = last_hit(items, rec, k) {
            let j = choose|j: int| 0 <= j < rec.len() && first_match(items, rec[j].0) == Some(k) && #[trigger] rec[j].1 == v;
            assert(first_match(items, rec[j].0) matches Some(kk) && rec[j].1 == items[kk].z);
        } else {
            if let Some(w) = last_hit(items, planned, k) {
                let j = choose|j: int| 0 <= j < planned.len() && first_match(items, planned[j].0) == Some(k) && #[trigger] planned[j].1 == w;
                assert(ids.contains(planned[j].0));
                let i = choose|i: int| 0 <= i < ids.len() && ids[i] == planned[j].0;
                assert(first_match(items, ids[i]) is Some);
                let jj = choose|jj: int| 0 <= jj < rec.len() && #[trigger] rec[jj].0 == ids[i];
                assert(first_match(items, rec[jj].0) == Some(k));
            }
        }
    }
    assert(r =~= items);
}

/// `k` is the position of the first item of some identity in `ids`.
pub open spec fn targeted(items: Seq<Item>, ids: Seq<ItemId>, k: int) -> bool {
    exists|i: int| 0 <= i < ids.len() && first_match(items, #[trigger] ids[i]) == Some(k)
}

proof fn lemma_planned_hits(items: Seq<Item>, ids: Seq<ItemId>, planned: Seq<(ItemId, i32)>, k: int)
    requires
        planned.len() == ids.len(),
        forall|j: int| 0 <= j < planned.len() ==> #[trigger] planned[j].0 == ids[j],
    ensures
        last_hit(items, planned, k) is Some <==> targeted(items, ids, k),
        last_hit(items, planned, k) matches Some(v) ==> exists|j: int| 0 <= j < planned.len() && #[trigger] planned[j].1 == v,
{
    lemma_last_hit_from(items, planned, k);
    if targeted(items, ids, k) {
        let i = choose|i: int| 0 <= i < ids.len() && first_match(items, #[trigger] ids[i]) == Some(k);
        assert(first_match(items, planned[i].0) == Some(k));
    }
    if let Some(v) = last_hit(items, planned, k) {
        let j = choose|j: int| 0 <= j < planned.len() && first_match(items, planned[j].0) == Some(k) && #[trigger] planned[j].1 == v;
        assert(first_match(items, ids[j]) == Some(k));
    }
}

/// Bringing items to the front: every targeted item then stacks at or above
/// the former `next_z` (so above every other item, when all stacked below
/// it), and every other item is unchanged.
pub proof fn law_bring_to_front(items: Seq<Item>, ids: Seq<ItemId>, next_z: i32)
    requires
        next_z + ids.len() <= i32::MAX,
    ensures
        forall|k: int| 0 <= k < items.len() && targeted(items, ids, k) ==>
            #[trigger] set_each(items, planned_z(ids, true, next_z as int, lowest_z(items)), z_setter())[k].z >= next_z,
        forall|k: int| 0 <= k < items.len() && !targeted(items, ids, k) ==>
            #[trigger] set_each(items, planned_z(ids, true, next_z as int, lowest_z(items)), z_setter())[k] == items[k],
{
    let put = z_setter();
    assert(sets_field(put));
    let planned = planned_z(ids, true, next_z as int, lowest_z(items));
    lemma_set_each(items, planned, put);
    assert forall|k: int| 0 <= k < items.len() && targeted(items, ids, k) implies
        #[trigger] set_each(items, planned, put)[k].z >= next_z by {
        lemma_planned_hits(items, ids, planned, k);
    }
    assert forall|k: int| 0 <= k < items.len() && !targeted(items, ids, k) implies
        #[trigger] set_each(items, planned, put)[k] == items[k] by {
        lemma_planned_hits(items, ids, planned, k);
    }
}

/// Every item stacks at or above the lowest `z`.
proof fn lemma_lowest_z(items: Seq<Item>)
    ensures
        forall|j: int| 0 <= j < items.len() ==> lowest_z(items) <= #[trigger] items[j].z,
        items.len() == 0 ==> lowest_z(items) == 0,
    decreases items.len(),
{
    if items.len() > 1 {
        lemma_lowest_z(items.drop_last());
        assert forall|j: int| 0 <= j < items.len() implies lowest_z(items) <= #[trigger] items[j].z by {
            if j < items.len() - 1 {
                assert(items.drop_last()[j] == items[j]);
            }
        }
    }
}

/// Items brought to the front or sent to the back keep the order in which
/// they were given: of two given identities, the item of the earlier one ends
/// below the item of the later one. Stated for identities given once each.
pub proof fn law_reorder_keeps_given_order(items: Seq<Item>, ids: Seq<ItemId>, to_front: bool, next_z: i32)
    requires
        ids.no_duplicates(),
        to_front ==> next_z + ids.len() <= i32::MAX,
        !to_front ==> lowest_z(items) - ids.len() >= i32::MIN,
    ensures
        forall|a: int, b: int, ka: int, kb: int|
            #![trigger ids[a], ids[b], set_each(items, planned_z(ids, to_front, next_z as int, lowest_z(items)), z_setter())[ka],
                set_each(items, planned_z(ids, to_front, next_z as int, lowest_z(items)), z_setter())[kb]]
            0 <= a < b < ids.len() && is_first_match(items, ids[a], ka) && is_first_match(items, ids[b], kb) ==>
                set_each(items, planned_z(ids, to_front, next_z as int, lowest_z(items)), z_setter())[ka].z
                    < set_each(items, planned_z(ids, to_front, next_z as int, lowest_z(items)), z_setter())[kb].z,
{
    let put = z_setter();
    assert(sets_field(put));
    let planned = planned_z(ids, to_front, next_z as int, lowest_z(items));
    lemma_set_each(items, planned, put);
    assert forall|a: int, b: int, ka: int, kb: int|
        #![trigger ids[a], ids[b], set_each(items, planned_z(ids, to_front, next_z as int, lowest_z(items)), z_setter())[ka],
            set_each(items, planned_z(ids, to_front, next_z as int, lowest_z(items)), z_setter())[kb]]
        0 <= a < b < ids.len() && is_first_match(items, ids[a], ka) && is_first_match(items, ids[b], kb) implies
            set_each(items, planned, put)[ka].z < set_each(items, planned, put)[kb].z by {
        assert forall|l: int| a < l < planned.len() implies (#[trigger] planned[l]).0 != planned[a].0 by {
            assert(ids[l] != ids[a]);
        }
        assert forall|l: int| b < l < planned.len() implies (#[trigger] planned[l]).0 != planned[b].0 by {
            assert(ids[l] != ids[b]);
        }
        lemma_last_hit_is(items, planned, a, ka);
        lemma_last_hit_is(items, planned, b, kb);
    }
}

/// Sending items to the back: every targeted item then stacks below every
/// item's former `z`, and every other item is unchanged.
pub proof fn law_send_to_back(items: Seq<Item>, ids: Seq<ItemId>)
    requires
        lowest_z(items) - ids.len() >= i32::MIN,
    ensures
        forall|k: int, m: int| 0 <= k < items.len() && 0 <= m < items.len() && targeted(items, ids, k) ==>
            #[trigger] set_each(items, planned_z(ids, false, 0, lowest_z(items)), z_setter())[k].z < #[trigger] items[m].z,
        forall|k: int| 0 <= k < items.len() && !targeted(items, ids, k) ==>
            #[trigger] set_each(items, planned_z(ids, false, 0, lowest_z(items)), z_setter())[k] == items[k],
{
    let put = z_setter();
    assert(sets_field(put));
    let planned = planned_z(ids, false, 0, lowest_z(items));
    lemma_set_each(items, planned, put);
    lemma_lowest_z(items);
    assert forall|k: int| 0 <= k < items.len() && targeted(items, ids, k) implies
        #[trigger] set_each(items, planned, put)[k].z < lowest_z(items) by {
        lemma_planned_hits(items, ids, planned, k);
    }
    assert forall|k: int| 0 <= k < items.len() && !targeted(items, ids, k) implies
        #[trigger] set_each(items, planned, put)[k] == items[k] by {
        lemma_planned_hits(items, ids, planned, k);
    }
}


// ───────────────────────── Arrange ─────────────────────────

/// Sets the position, as a function.
pub open spec fn pos_setter() -> spec_fn(Item, CanvasVector) -> Item {
    |it: Item, p: CanvasVector| put_pos(it, p)
}

/// The new position of each move.
pub open spec fn arrived(moves: Seq<(ItemId, CanvasVector, CanvasVector)>) -> Seq<(ItemId, CanvasVector)> {
    moves.map_values(|m: (ItemId, CanvasVector, CanvasVector)| (m.0, m.2))
}

/// The former position of each move.
pub open spec fn departed(moves: Seq<(ItemId, CanvasVector, CanvasVector)>) -> Seq<(ItemId, CanvasVector)> {
    moves.map_values(|m: (ItemId, CanvasVector, CanvasVector)| (m.0, m.1))
}

/// Moves several items to new positions (the result of an arrangement),
/// remembering the former ones.
pub struct ArrangeItems {
    /// `(id, old_pos, new_pos)`
    moves: Vec<(ItemId, CanvasVector, CanvasVector)>,
    preview_already_applied: bool,
}

impl ArrangeItems {
    pub closed spec fn planned_moves(&self) -> Seq<(ItemId, CanvasVector, CanvasVector)> {
        self.moves@
    }

    pub closed spec fn preview_applied(&self) -> bool {
        self.preview_already_applied
    }

    /// A command that counts as not previewed.
    pub fn new(moves: Vec<(ItemId, CanvasVector, CanvasVector)>) -> (r: Self)
        ensures
            r.planned_moves() == moves@,
            !r.preview_applied(),
    {
        ArrangeItems { moves, preview_already_applied: false }
    }

    /// Says whether the edit is already previewed on the scene.
    pub fn with_preview_applied(self, applied: bool) -> (r: Self)
        ensures
            r.planned_moves() == self.planned_moves(),
            r.preview_applied() == applied,
    {
        let mut s = self;
        s.preview_already_applied = applied;
        s
    }

    fn set_positions(&self, scene: &mut Scene, to_new: bool)
        ensures
            final(scene).items@ == set_each(
                old(scene).items@,
                if to_new { arrived(self.planned_moves()) } else { departed(self.planned_moves()) },
                pos_setter(),
            ),
            final(scene).selection@ == old(scene).selection@,
            final(scene).next_z == old(scene).next_z,
    {
        let ghost items0 = scene.items@;
        let ghost pairs = if to_new { arrived(self.moves@) } else { departed(self.moves@) };
        let mut i: usize = 0;
        while i < self.moves.len()
            invariant
                pairs == (if to_new { arrived(self.moves@) } else { departed(self.moves@) }),
                i <= self.moves@.len(),
                scene.items@ == set_each(items0, pairs.take(i as int), pos_setter()),
                scene.selection@ == old(scene).selection@,
                scene.next_z == old(scene).next_z,
            decreases self.moves@.len() - i,
        {
            let (id, old_pos, new_pos) = self.moves[i];
            let p = if to_new { new_pos } else { old_pos };
            proof {
                assert(pairs.take(i as int + 1).drop_last() == pairs.take(i as int));
                assert(pairs.take(i as int + 1).last() == (id, p));
            }
            if let Some(item) = scene.get_item_mut(&id) {
                item.transform.pos = p;
            }
            i = i + 1;
            proof {
                let f = |it: Item| put_pos(it, p);
                let g = |it: Item| pos_setter()(it, pairs.take(i as int).last().1);
                assert(f =~= g);
            }
        }
        proof {
            assert(pairs.take(i as int) == pairs);
        }
    }
}

impl Command for ArrangeItems {
    open spec fn can_redo(&self, scene: Scene) -> bool {
        true
    }

    open spec fn can_undo(&self, scene: Scene) -> bool {
        true
    }

    /// Puts each item at its new position, in order.
    fn redo(&mut self, scene: &mut Scene)
        ensures
            *final(self) == *old(self),
            final(scene).items@ == set_each(old(scene).items@, arrived(old(self).planned_moves()), pos_setter()),
            final(scene).selection@ == old(scene).selection@,
            final(scene).next_z == old(scene).next_z,
    {
        self.set_positions(scene, true);
    }

    /// Puts each item back at its former position, in order.
    fn undo(&mut self, scene: &mut Scene)
        ensures
            *final(self) == *old(self),
            final(scene).items@ == set_each(old(scene).items@, departed(old(self).planned_moves()), pos_setter()),
            final(scene).selection@ == old(scene).selection@,
            final(scene).next_z == old(scene).next_z,
    {
        self.set_positions(scene, false);
    }

    fn skip_first_redo(&self) -> (r: bool)
        ensures
            r == self.preview_applied(),
    {
        self.preview_already_applied
    }
}

/// The last pair whose identity first matches `k` is the last pair with that
/// identity.
proof fn lemma_last_hit_is<V>(items: Seq<Item>, pairs: Seq<(ItemId, V)>, j: int, k: int)
    requires
        0 <= j < pairs.len(),
        is_first_match(items, pairs[j].0, k),
        forall|l: int| j < l < pairs.len() ==> (#[trigger] pairs[l]).0 != pairs[j].0,
    ensures
        last_hit(items, pairs, k) == Some(pairs[j].1),
    decreases pairs.len(),
{
    lemma_first_match_is(items, pairs[j].0, k);
    if j == pairs.len() - 1 {
    } else {
        let rest = pairs.drop_last();
        let l = pairs.len() - 1;
        assert(pairs[l].0 != pairs[j].0);
        if first_match(items, pairs.last().0) == Some(k) {
            lemma_first_match_some(items, pairs.last().0);
            assert(items[k].id == pairs.last().0);
        }
        assert forall|m: int| j < m < rest.len() implies (#[trigger] rest[m]).0 != rest[j].0 by {
            assert(rest[m] == pairs[m]);
            assert(pairs[m].0 != pairs[j].0);
        }
        assert(rest[j] == pairs[j]);
        lemma_last_hit_is(items, rest, j, k);
    }
}

/// No pair first matches `k`: the last hit is none.
proof fn lemma_last_hit_none<V>(items: Seq<Item>, pairs: Seq<(ItemId, V)>, k: int)
    requires
        forall|j: int| 0 <= j < pairs.len() ==> !is_first_match(items, (#[trigger] pairs[j]).0, k),
    ensures
        last_hit(items, pairs, k) is None,
{
    lemma_last_hit_from(items, pairs, k);
    assert forall|j: int| 0 <= j < pairs.len() implies first_match(items, #[trigger] pairs[j].0) != Some(k) by {
        if first_match(items, pairs[j].0) == Some(k) {
            lemma_first_match_some(items, pairs[j].0);
        }
    }
}

/// Arranging puts each moved item at the new position of the last move of
/// its identity, and changes nothing else of it (scale, rotation, flips,
/// kind, stacking); items that no move names stay as they were.
pub proof fn law_arrange_places_items(items: Seq<Item>, moves: Seq<(ItemId, CanvasVector, CanvasVector)>)
    ensures
        set_each(items, arrived(moves), pos_setter()).len() == items.len(),
        forall|j: int, k: int| #![trigger moves[j], set_each(items, arrived(moves), pos_setter())[k]]
            0 <= j < moves.len() && is_first_match(items, moves[j].0, k)
            && (forall|l: int| j < l < moves.len() ==> (#[trigger] moves[l]).0 != moves[j].0) ==> {
                let it = set_each(items, arrived(moves), pos_setter())[k];
                &&& it.transform.pos == moves[j].2
                &&& it.transform.scale == items[k].transform.scale
                &&& it.transform.rotation == items[k].transform.rotation
                &&& it.transform.flip_h == items[k].transform.flip_h
                &&& it.transform.flip_v == items[k].transform.flip_v
                &&& it.id == items[k].id && it.kind == items[k].kind && it.z == items[k].z
            },
        forall|k: int| 0 <= k < items.len() && (forall|j: int| 0 <= j < moves.len() ==> !is_first_match(items, (#[trigger] moves[j]).0, k))
            ==> #[trigger] set_each(items, arrived(moves), pos_setter())[k] == items[k],
{
    let pairs = arrived(moves);
    let put = pos_setter();
    assert(sets_field(put));
    lemma_set_each(items, pairs, put);
    assert forall|j: int, k: int| #![trigger moves[j], set_each(items, arrived(moves), pos_setter())[k]]
        0 <= j < moves.len() && is_first_match(items, moves[j].0, k)
        && (forall|l: int| j < l < moves.len() ==> (#[trigger] moves[l]).0 != moves[j].0) implies {
            let it = set_each(items, arrived(moves), pos_setter())[k];
            &&& it.transform.pos == moves[j].2
            &&& it.transform.scale == items[k].transform.scale
            &&& it.transform.rotation == items[k].transform.rotation
            &&& it.transform.flip_h == items[k].transform.flip_h
            &&& it.transform.flip_v == items[k].transform.flip_v
            &&& it.id == items[k].id && it.kind == items[k].kind && it.z == items[k].z
        } by {
        assert forall|l: int| j < l < pairs.len() implies (#[trigger] pairs[l]).0 != pairs[j].0 by {
            assert(moves[l].0 != moves[j].0);
        }
        lemma_last_hit_is(items, pairs, j, k);
    }
    assert forall|k: int| 0 <= k < items.len() && (forall|j: int| 0 <= j < moves.len() ==> !is_first_match(items, (#[trigger] moves[j]).0, k))
        implies #[trigger] set_each(items, arrived(moves), pos_setter())[k] == items[k] by {
        assert forall|j: int| 0 <= j < pairs.len() implies !is_first_match(items, (#[trigger] pairs[j]).0, k) by {
            assert(pairs[j].0 == moves[j].0);
        }
        lemma_last_hit_none(items, pairs, k);
    }
}

/// Mirroring one item toggles exactly the chosen flag of the first item with
/// its identity; every other field and every other item stays.
pub proof fn law_flip_one_item(items: Seq<Item>, id: ItemId, horizontal: bool)
    ensures
        flip_each(items, seq![id], horizontal).len() == items.len(),
        forall|k: int| is_first_match(items, id, k) ==> {
            let it = #[trigger] flip_each(items, seq![id], horizontal)[k];
            &&& it.transform.flip_h == (if horizontal { !items[k].transform.flip_h } else { items[k].transform.flip_h })
            &&& it.transform.flip_v == (if horizontal { items[k].transform.flip_v } else { !items[k].transform.flip_v })
            &&& it.transform.pos == items[k].transform.pos
            &&& it.transform.scale == items[k].transform.scale
            &&& it.transform.rotation == items[k].transform.rotation
            &&& it.id == items[k].id && it.kind == items[k].kind && it.z == items[k].z
        },
        forall|k: int| 0 <= k < items.len() && !is_first_match(items, id, k) ==> #[trigger] flip_each(items, seq![id], horizontal)[k] == items[k],
{
    let ids = seq![id];
    assert(ids.drop_last() =~= Seq::<ItemId>::empty());
    assert(flip_each(items, ids.drop_last(), horizontal) == items);
    assert(ids.last() == id);
    assert(flip_each(items, ids, horizontal) == update_first(items, id, toggled(horizontal)));
    lemma_update_first_at(items, id, toggled(horizontal));
}

/// Taking back an arrangement puts back every item, when each moved item was
/// at the move's former position.
pub proof fn law_arrange_undo_restores(items: Seq<Item>, moves: Seq<(ItemId, CanvasVector, CanvasVector)>)
    requires
        forall|j: int| 0 <= j < moves.len() ==> (first_match(items, #[trigger] moves[j].0) matches Some(k) ==> items[k].transform.pos == moves[j].1),
    ensures
        set_each(set_each(items, arrived(moves), pos_setter()), departed(moves), pos_setter()) == items,
{
    let put = pos_setter();
    assert(sets_field(put));
    let news = arrived(moves);
    let olds = departed(moves);
    let a = set_each(items, news, put);
    let r = set_each(a, olds, put);
    lemma_set_each(items, news, put);
    lemma_set_each(a, olds, put);
    assert forall|k: int| 0 <= k < items.len() implies r[k] == items[k] by {
        lemma_last_hit_same_ids(items, a, olds, k);
        lemma_last_hit_from(items, olds, k);
        lemma_last_hit_from(items, news, k);
        if let Some(v) = last_hit(items, olds, k) {
            let j = choose|j: int| 0 <= j < olds.len() && first_match(items, olds[j].0) == Some(k) && #[trigger] olds[j].1 == v;
            assert(olds[j].0 == moves[j].0);
            assert(first_match(items, moves[j].0) matches Some(kk) ==> items[kk].transform.pos == moves[j].1);
        } else {
            if let Some(w) = last_hit(items, news, k) {
                let j = choose|j: int| 0 <= j < news.len() && first_match(items, news[j].0) == Some(k) && #[trigger] news[j].1 == w;
                assert(first_match(items, olds[j].0) != Some(k));
            }
        }
    }
    assert(r =~= items);
}

// ───────────────────────── Edit text ─────────────────────────

/// For a text note: the content becomes `c` and the measured size is
/// dropped (to be measured again). Other items are left as they are.
pub open spec fn with_content(c: String) -> spec_fn(Item) -> Item {
    |it: Item|
        match it.kind {
            ItemKind::Text { content, font_size, color, editing, measured_size } => Item {
                kind: ItemKind::Text { content: c, font_size, color, editing, measured_size: None },
                ..it
            },
            ItemKind::Pixmap { .. } => it,
        }
}

/// Changes a text note's content (double-click editing).
pub struct EditTextContent {
    item_id: ItemId,
    old_content: String,
    new_content: String,
}

impl EditTextContent {
    pub closed spec fn target(&self) -> ItemId {
        self.item_id
    }

    pub closed spec fn before(&self) -> String {
        self.old_content
    }

    pub closed spec fn after(&self) -> String {
        self.new_content
    }

    pub fn new(item_id: ItemId, old_content: String, new_content: String) -> (r: Self)
        ensures
            r.target() == item_id,
            r.before() == old_content,
            r.after() == new_content,
    {
        EditTextContent { item_id, old_content, new_content }
    }

    fn set_content(&self, scene: &mut Scene, to_new: bool)
        ensures
            final(scene).items@ == update_first(
                old(scene).items@,
                self.target(),
                with_content(if to_new { self.after() } else { self.before() }),
            ),
            final(scene).selection@ == old(scene).selection@,
            final(scene).next_z == old(scene).next_z,
    {
        if let Some(item) = scene.get_item_mut(&self.item_id) {
            let text = if to_new { self.new_content.clone() } else { self.old_content.clone() };
            match &mut item.kind {
                ItemKind::Text { content, measured_size, .. } => {
                    *content = text;
                    *measured_size = None;
                },
                ItemKind::Pixmap { .. } => {},
            }
        }
    }
}

impl Command for EditTextContent {
    open spec fn can_redo(&self, scene: Scene) -> bool {
        true
    }

    open spec fn can_undo(&self, scene: Scene) -> bool {
        true
    }

    /// The note gets the new content and must be measured again.
    fn redo(&mut self, scene: &mut Scene)
        ensures
            *final(self) == *old(self),
            final(scene).items@ == update_first(old(scene).items@, old(self).target(), with_content(old(self).after())),
            final(scene).selection@ == old(scene).selection@,
            final(scene).next_z == old(scene).next_z,
    {
        self.set_content(scene, true);
    }

    /// The note gets the old content back and must be measured again.
    fn undo(&mut self, scene: &mut Scene)
        ensures
            *final(self) == *old(self),
            final(scene).items@ == update_first(old(scene).items@, old(self).target(), with_content(old(self).before())),
            final(scene).selection@ == old(scene).selection@,
            final(scene).next_z == old(scene).next_z,
    {
        self.set_content(scene, false);
    }
}

/// Taking back a content edit puts back every item, when the note held the old
/// content and was not measured (the measured size is dropped either way).
pub proof fn law_edit_text_undo_restores(cmd: EditTextContent, items: Seq<Item>)
    requires
        first_match(items, cmd.target()) matches Some(k) ==> (items[k].kind matches ItemKind::Text { content, measured_size, .. }
            ==> content == cmd.before() && measured_size is None),
    ensures
        update_first(update_first(items, cmd.target(), with_content(cmd.after())), cmd.target(), with_content(cmd.before())) == items,
{
    let id = cmd.target();
    assert(keeps_id(with_content(cmd.after())));
    lemma_update_first_twice(items, id, with_content(cmd.after()), with_content(cmd.before()));
    if let Some(k) = first_match(items, id) {
        assert(items.update(k, with_content(cmd.before())(with_content(cmd.after())(items[k]))) =~= items);
    }
}


// ───────────────────────── Image properties ─────────────────────────

/// For an image: each given property gets its value; the others, and other
/// items, are left as they are.
pub open spec fn with_props(opacity: Option<Scalar>, grayscale: Option<bool>, crop: Option<Option<CropRect>>) -> spec_fn(Item) -> Item {
    |it: Item|
        match it.kind {
            ItemKind::Pixmap { texture_id, filename, original_size, opacity: o, grayscale: g, crop: c } => Item {
                kind: ItemKind::Pixmap {
                    texture_id,
                    filename,
                    original_size,
                    opacity: match opacity {
                        Some(v) => v,
                        None => o,
                    },
                    grayscale: match grayscale {
                        Some(v) => v,
                        None => g,
                    },
                    crop: match crop {
                        Some(v) => v,
                        None => c,
                    },
                },
                ..it
            },
            ItemKind::Text { .. } => it,
        }
}

/// Changes an image's opacity, grayscale and crop in any combination. A
/// property whose old/new pair is not given is left alone.
pub struct SetPixmapProps {
    item_id: ItemId,
    old_opacity: Option<Scalar>,
    new_opacity: Option<Scalar>,
    old_grayscale: Option<bool>,
    new_grayscale: Option<bool>,
    old_crop: Option<Option<CropRect>>,
    new_crop: Option<Option<CropRect>>,
}

impl SetPixmapProps {
    pub closed spec fn target(&self) -> ItemId {
        self.item_id
    }

    /// `(old, new)` opacity.
    pub closed spec fn opacities(&self) -> (Option<Scalar>, Option<Scalar>) {
        (self.old_opacity, self.new_opacity)
    }

    /// `(old, new)` grayscale flag.
    pub closed spec fn grays(&self) -> (Option<bool>, Option<bool>) {
        (self.old_grayscale, self.new_grayscale)
    }

    /// `(old, new)` crop.
    pub closed spec fn crops(&self) -> (Option<Option<CropRect>>, Option<Option<CropRect>>) {
        (self.old_crop, self.new_crop)
    }

    /// Each property has both an old and a new value, or neither.
    pub open spec fn paired(&self) -> bool {
        &&& self.opacities().0 is Some == self.opacities().1 is Some
        &&& self.grays().0 is Some == self.grays().1 is Some
        &&& self.crops().0 is Some == self.crops().1 is Some
    }

    /// A command that changes nothing yet.
    pub fn new(item_id: ItemId) -> (r: Self)
        ensures
            r.target() == item_id,
            r.opacities() == (None::<Scalar>, None::<Scalar>),
            r.grays() == (None::<bool>, None::<bool>),
            r.crops() == (None::<Option<CropRect>>, None::<Option<CropRect>>),
    {
        SetPixmapProps {
            item_id,
            old_opacity: None,
            new_opacity: None,
            old_grayscale: None,
            new_grayscale: None,
            old_crop: None,
            new_crop: None,
        }
    }

    pub fn with_opacity(self, old: Scalar, new: Scalar) -> (r: Self)
        ensures
            r.target() == self.target(),
            r.opacities() == (Some(old), Some(new)),
            r.grays() == self.grays(),
            r.crops() == self.crops(),
    {
        let mut s = self;
        s.old_opacity = Some(old);
        s.new_opacity = Some(new);
        s
    }

    pub fn with_grayscale(self, old: bool, new: bool) -> (r: Self)
        ensures
            r.target() == self.target(),
            r.opacities() == self.opacities(),
            r.grays() == (Some(old), Some(new)),
            r.crops() == self.crops(),
    {
        let mut s = self;
        s.old_grayscale = Some(old);
        s.new_grayscale = Some(new);
        s
    }

    pub fn with_crop(self, old: Option<CropRect>, new: Option<CropRect>) -> (r: Self)
        ensures
            r.target() == self.target(),
            r.opacities() == self.opacities(),
            r.grays() == self.grays(),
            r.crops() == (Some(old), Some(new)),
    {
        let mut s = self;
        s.old_crop = Some(old);
        s.new_crop = Some(new);
        s
    }

    fn apply(&self, scene: &mut Scene, to_new: bool)
        ensures
            final(scene).items@ == update_first(
                old(scene).items@,
                self.target(),
                if to_new {
                    with_props(self.opacities().1, self.grays().1, self.crops().1)
                } else {
                    with_props(self.opacities().0, self.grays().0, self.crops().0)
                },
            ),
            final(scene).selection@ == old(scene).selection@,
            final(scene).next_z == old(scene).next_z,
    {
        let (op, gs, cr) = if to_new {
            (self.new_opacity, self.new_grayscale, self.new_crop)
        } else {
            (self.old_opacity, self.old_grayscale, self.old_crop)
        };
        if let Some(item) = scene.get_item_mut(&self.item_id) {
            match &mut item.kind {
                ItemKind::Pixmap { opacity, grayscale, crop, .. } => {
                    if let Some(v) = op {
                        *opacity = v;
                    }
                    if let Some(v) = gs {
                        *grayscale = v;
                    }
                    if let Some(v) = cr {
                        *crop = v;
                    }
                },
                ItemKind::Text { .. } => {},
            }
        }
    }
}

impl Command for SetPixmapProps {
    open spec fn can_redo(&self, scene: Scene) -> bool {
        true
    }

    open spec fn can_undo(&self, scene: Scene) -> bool {
        true
    }

    /// The image gets the given new values.
    fn redo(&mut self, scene: &mut Scene)
        ensures
            *final(self) == *old(self),
            final(scene).items@ == update_first(old(scene).items@, old(self).target(),
                with_props(old(self).opacities().1, old(self).grays().1, old(self).crops().1)),
            final(scene).selection@ == old(scene).selection@,
            final(scene).next_z == old(scene).next_z,
    {
        self.apply(scene, true);
    }

    /// The image gets the given old values back.
    fn undo(&mut self, scene: &mut Scene)
        ensures
            *final(self) == *old(self),
            final(scene).items@ == update_first(old(scene).items@, old(self).target(),
                with_props(old(self).opacities().0, old(self).grays().0, old(self).crops().0)),
            final(scene).selection@ == old(scene).selection@,
            final(scene).next_z == old(scene).next_z,
    {
        self.apply(scene, false);
    }
}

/// The image's properties agree with the given old values.
pub open spec fn holds_props(it: Item, opacity: Option<Scalar>, grayscale: Option<bool>, crop: Option<Option<CropRect>>) -> bool {
    it.kind matches ItemKind::Pixmap { opacity: o, grayscale: g, crop: c, .. } ==> {
        &&& opacity matches Some(v) ==> v == o
        &&& grayscale matches Some(v) ==> v == g
        &&& crop matches Some(v) ==> v == c
    }
}

/// Taking back a property change puts back every item, when the command's
/// values come in old/new pairs and the image held the old values.
pub proof fn law_pixmap_props_undo_restores(cmd: SetPixmapProps, items: Seq<Item>)
    requires
        cmd.paired(),
        first_match(items, cmd.target()) matches Some(k) ==> holds_props(items[k], cmd.opacities().0, cmd.grays().0, cmd.crops().0),
    ensures
        update_first(
            update_first(items, cmd.target(), with_props(cmd.opacities().1, cmd.grays().1, cmd.crops().1)),
            cmd.target(),
            with_props(cmd.opacities().0, cmd.grays().0, cmd.crops().0),
        ) == items,
{
    let id = cmd.target();
    let f = with_props(cmd.opacities().1, cmd.grays().1, cmd.crops().1);
    let g = with_props(cmd.opacities().0, cmd.grays().0, cmd.crops().0);
    assert(keeps_id(f));
    lemma_update_first_twice(items, id, f, g);
    if let Some(k) = first_match(items, id) {
        assert(g(f(items[k])) == items[k]);
        assert(items.update(k, g(f(items[k]))) =~= items);
    }
}

// ───────────────────────── Crop ─────────────────────────

/// Crops an image and moves its frame onto the crop rectangle in one step:
/// changes the crop and the whole transform, so that one undo takes both back.
pub struct CropItems {
    inner: SetPixmapProps,
    item_id: ItemId,
    old_transform: Transform,
    new_transform: Transform,
    transform_applied: bool,
}

impl CropItems {
    #[verifier::type_invariant]
    spec fn inner_changes_crop_only(&self) -> bool {
        &&& self.inner.item_id == self.item_id
        &&& self.inner.old_opacity is None && self.inner.new_opacity is None
        &&& self.inner.old_grayscale is None && self.inner.new_grayscale is None
        &&& self.inner.old_crop is Some && self.inner.new_crop is Some
    }

    pub closed spec fn target(&self) -> ItemId {
        self.item_id
    }

    /// `(old, new)` crop.
    pub closed spec fn crops(&self) -> (Option<CropRect>, Option<CropRect>) {
        (self.inner.old_crop->0, self.inner.new_crop->0)
    }

    pub closed spec fn before(&self) -> Transform {
        self.old_transform
    }

    pub closed spec fn after(&self) -> Transform {
        self.new_transform
    }

    /// The new transform is on the item (a `redo` ran and no `undo` since).
    pub closed spec fn applied(&self) -> bool {
        self.transform_applied
    }

    pub fn new(
        item_id: ItemId,
        old_crop: Option<CropRect>,
        new_crop: Option<CropRect>,
        old_transform: Transform,
        new_transform: Transform,
    ) -> (r: Self)
        ensures
            r.target() == item_id,
            r.crops() == (old_crop, new_crop),
            r.before() == old_transform,
            r.after() == new_transform,
            !r.applied(),
    {
        CropItems {
            inner: SetPixmapProps::new(item_id).with_crop(old_crop, new_crop),
            item_id,
            old_transform,
            new_transform,
            transform_applied: false,
        }
    }
}

impl Command for CropItems {
    open spec fn can_redo(&self, scene: Scene) -> bool {
        true
    }

    open spec fn can_undo(&self, scene: Scene) -> bool {
        true
    }

    /// The image gets the new crop, then the new transform.
    fn redo(&mut self, scene: &mut Scene)
        ensures
            final(self).target() == old(self).target(),
            final(self).crops() == old(self).crops(),
            final(self).before() == old(self).before(),
            final(self).after() == old(self).after(),
            final(self).applied(),
            final(scene).items@ == update_first(
                update_first(old(scene).items@, old(self).target(), with_props(None, None, Some(old(self).crops().1))),
                old(self).target(),
                with_transform(old(self).after()),
            ),
            forall|k: int| is_first_match(old(scene).items@, old(self).target(), k) ==> (#[trigger] final(scene).items@[k]).transform == old(self).after(),
            final(scene).selection@ == old(scene).selection@,
            final(scene).next_z == old(scene).next_z,
    {
        proof {
            use_type_invariant(&*self);
        }
        let ghost items0 = scene.items@;
        self.inner.apply(scene, true);
        let ghost mid = scene.items@;
        if let Some(item) = scene.get_item_mut(&self.item_id) {
            item.transform = self.new_transform;
        }
        self.transform_applied = true;
        proof {
            let f = with_props(None, None, Some(self.crops().1));
            assert(keeps_id(f));
            lemma_update_first_same_ids(items0, self.item_id, f);
            lemma_update_first_at(mid, self.item_id, with_transform(self.new_transform));
            assert forall|k: int| is_first_match(items0, self.item_id, k) implies (#[trigger] scene.items@[k]).transform == self.new_transform by {
                lemma_first_match_is_same_ids(items0, mid, self.item_id, k);
            }
        }
    }

    /// If the new transform is on the item, the image gets the old one back;
    /// then it gets the old crop back.
    fn undo(&mut self, scene: &mut Scene)
        ensures
            final(self).target() == old(self).target(),
            final(self).crops() == old(self).crops(),
            final(self).before() == old(self).before(),
            final(self).after() == old(self).after(),
            !final(self).applied(),
            final(scene).items@ == update_first(
                if old(self).applied() {
                    update_first(old(scene).items@, old(self).target(), with_transform(old(self).before()))
                } else {
                    old(scene).items@
                },
                old(self).target(),
                with_props(None, None, Some(old(self).crops().0)),
            ),
            old(self).applied() ==> forall|k: int| is_first_match(old(scene).items@, old(self).target(), k) ==> (#[trigger] final(scene).items@[k]).transform == old(self).before(),
            final(scene).selection@ == old(scene).selection@,
            final(scene).next_z == old(scene).next_z,
    {
        proof {
            use_type_invariant(&*self);
        }
        let ghost items0 = scene.items@;
        let ghost was_applied = self.transform_applied;
        if self.transform_applied {
            if let Some(item) = scene.get_item_mut(&self.item_id) {
                item.transform = self.old_transform;
            }
            self.transform_applied = false;
        }
        let ghost mid = scene.items@;
        self.inner.apply(scene, false);
        proof {
            let f = with_props(None, None, Some(self.crops().0));
            assert(keeps_id(f));
            lemma_update_first_at(mid, self.item_id, f);
            if was_applied {
                lemma_update_first_at(items0, self.item_id, with_transform(self.old_transform));
                assert forall|k: int| is_first_match(items0, self.item_id, k) implies (#[trigger] scene.items@[k]).transform == self.old_transform by {
                    assert(keeps_id(with_transform(self.old_transform)));
                    lemma_update_first_same_ids(items0, self.item_id, with_transform(self.old_transform));
                    lemma_first_match_is_same_ids(items0, mid, self.item_id, k);
                    assert(mid[k].transform == self.old_transform);
                }
            }
        }
    }
}

/// Taking back a crop puts back every item, when the image held the old crop
/// and the old transform.
pub proof fn law_crop_undo_restores(cmd: CropItems, items: Seq<Item>)
    requires
        first_match(items, cmd.target()) matches Some(k) ==> items[k].transform == cmd.before()
            && holds_props(items[k], None, None, Some(cmd.crops().0)),
    ensures
        update_first(
            update_first(
                update_first(
                    update_first(items, cmd.target(), with_props(None, None, Some(cmd.crops().1))),
                    cmd.target(),
                    with_transform(cmd.after()),
                ),
                cmd.target(),
                with_transform(cmd.before()),
            ),
            cmd.target(),
            with_props(None, None, Some(cmd.crops().0)),
        ) == items,
{
    let id = cmd.target();
    let f1 = with_props(None, None, Some(cmd.crops().1));
    let f2 = with_transform(cmd.after());
    let f3 = with_transform(cmd.before());
    let f4 = with_props(None, None, Some(cmd.crops().0));
    assert(keeps_id(f1));
    assert(keeps_id(f2));
    assert(keeps_id(f3));
    let s1 = update_first(items, id, f1);
    let s2 = update_first(s1, id, f2);
    let s3 = update_first(s2, id, f3);
    lemma_update_first_twice(items, id, f1, f2);
    let g12 = |it: Item| f2(f1(it));
    assert(keeps_id(g12));
    lemma_update_first_twice(items, id, g12, f3);
    let g123 = |it: Item| f3(g12(it));
    assert(keeps_id(g123));
    lemma_update_first_twice(items, id, g123, f4);
    if let Some(k) = first_match(items, id) {
        assert(f4(g123(items[k])) == items[k]);
        assert(items.update(k, f4(g123(items[k]))) =~= items);
    }
}

// ───────────────────────── Normalize ─────────────────────────

/// Which rendered dimension the size normalization makes equal.
#[derive(Debug, Clone, Copy, PartialEq, Eq)]
pub enum NormalizeMode {
    Width,
    Height,
    Area,
}


/// For each identity in `ids` that has an item, the identity and that item's
/// transform, in order.
pub open spec fn recorded_transforms(items: Seq<Item>, ids: Seq<ItemId>) -> Seq<(ItemId, Transform)>
    decreases ids.len(),
{
    if ids.len() == 0 {
        Seq::empty()
    } else {
        let rest = recorded_transforms(items, ids.drop_last());
        match first_match(items, ids.last()) {
            Some(k) => rest.push((ids.last(), items[k].transform)),
            None => rest,
        }
    }
}

pub open spec fn put_transform(it: Item, t: Transform) -> Item {
    Item { transform: t, ..it }
}

/// Sets the transform, as a function.
pub open spec fn transform_setter() -> spec_fn(Item, Transform) -> Item {
    |it: Item, t: Transform| put_transform(it, t)
}

/// Gives selected images one rendered width, height or area. The new scales
/// are floating-point results that the caller computes; the command records
/// the transforms it is to put back, and puts them back.
pub struct NormalizeItems {
    item_ids: Vec<ItemId>,
    mode: NormalizeMode,
    /// The transform of each identity that had an item before the first run.
    old_transforms: Vec<(ItemId, Transform)>,
    /// The shared width, height or area.
    target: Option<Scalar>,
}

impl NormalizeItems {
    pub closed spec fn targets(&self) -> Seq<ItemId> {
        self.item_ids@
    }

    pub closed spec fn normalize_mode(&self) -> NormalizeMode {
        self.mode
    }

    pub closed spec fn former(&self) -> Seq<(ItemId, Transform)> {
        self.old_transforms@
    }

    pub closed spec fn target_value(&self) -> Option<Scalar> {
        self.target
    }

    /// `target` is the shared width, height or area (usually the first
    /// item's); nothing is recorded yet.
    pub fn new(item_ids: Vec<ItemId>, mode: NormalizeMode, target: Scalar) -> (r: Self)
        ensures
            r.targets() == item_ids@,
            r.normalize_mode() == mode,
            r.former() == Seq::<(ItemId, Transform)>::empty(),
            r.target_value() == Some(target),
    {
        NormalizeItems { item_ids, mode, old_transforms: Vec::new(), target: Some(target) }
    }

    pub fn mode(&self) -> (r: NormalizeMode)
        ensures
            r == self.normalize_mode(),
    {
        self.mode
    }

    pub fn target(&self) -> (r: Option<Scalar>)
        ensures
            r == self.target_value(),
    {
        self.target
    }

    /// The recorded identities and transforms, in order.
    pub fn recorded(&self) -> (r: &[(ItemId, Transform)])
        ensures
            r@ == self.former(),
    {
        self.old_transforms.as_slice()
    }

    /// On the first run (nothing recorded yet), records the transform of the
    /// first item of each identity that has one; later runs keep the first
    /// record.
    pub fn record(&mut self, scene: &Scene)
        ensures
            final(self).former() == (if old(self).former().len() == 0 {
                recorded_transforms(scene.items@, old(self).targets())
            } else {
                old(self).former()
            }),
            final(self).targets() == old(self).targets(),
            final(self).normalize_mode() == old(self).normalize_mode(),
            final(self).target_value() == old(self).target_value(),
    {
        if self.old_transforms.len() == 0 {
            let ghost ids = self.item_ids@;
            let mut i: usize = 0;
            while i < self.item_ids.len()
                invariant
                    ids == self.item_ids@,
                    i <= ids.len(),
                    self.old_transforms@ == recorded_transforms(scene.items@, ids.take(i as int)),
                    self.mode == old(self).mode,
                    self.target == old(self).target,
                decreases ids.len() - i,
            {
                let id = self.item_ids[i];
                proof {
                    assert(ids.take(i as int + 1).drop_last() == ids.take(i as int));
                }
                if let Some(item) = scene.get_item(&id) {
                    self.old_transforms.push((id, item.transform));
                }
                i = i + 1;
            }
            proof {
                assert(ids.take(i as int) == ids);
            }
        }
    }

    /// Puts the recorded transforms back, each on the first item of its
    /// identity, in order.
    pub fn restore(&self, scene: &mut Scene)
        ensures
            final(scene).items@ == set_each(old(scene).items@, self.former(), transform_setter()),
            final(scene).selection@ == old(scene).selection@,
            final(scene).next_z == old(scene).next_z,
    {
        let ghost items0 = scene.items@;
        let ghost pairs = self.old_transforms@;
        let mut i: usize = 0;
        while i < self.old_transforms.len()
            invariant
                pairs == self.old_transforms@,
                i <= pairs.len(),
                scene.items@ == set_each(items0, pairs.take(i as int), transform_setter()),
                scene.selection@ == old(scene).selection@,
                scene.next_z == old(scene).next_z,
            decreases pairs.len() - i,
        {
            let (id, t) = self.old_transforms[i];
            proof {
                assert(pairs.take(i as int + 1).drop_last() == pairs.take(i as int));
            }
            if let Some(item) = scene.get_item_mut(&id) {
                item.transform = t;
            }
            i = i + 1;
            proof {
                let f = |it: Item| put_transform(it, t);
                let g = |it: Item| transform_setter()(it, pairs.take(i as int).last().1);
                assert(f =~= g);
            }
        }
        proof {
            assert(pairs.take(i as int) == pairs);
        }
    }
}

proof fn lemma_recorded_transforms(items: Seq<Item>, ids: Seq<ItemId>)
    ensures
        forall|j: int| 0 <= j < recorded_transforms(items, ids).len() ==> (first_match(items, #[trigger] recorded_transforms(items, ids)[j].0) matches Some(k)
            && recorded_transforms(items, ids)[j].1 == items[k].transform),
        forall|i: int| 0 <= i < ids.len() && first_match(items, #[trigger] ids[i]) is Some ==>
            exists|j: int| 0 <= j < recorded_transforms(items, ids).len() && #[trigger] recorded_transforms(items, ids)[j].0 == ids[i],
    decreases ids.len(),
{
    if ids.len() > 0 {
        let rest = ids.drop_last();
        lemma_recorded_transforms(items, rest);
        let rr = recorded_transforms(items, rest);
        let r = recorded_transforms(items, ids);
        assert forall|j: int| 0 <= j < r.len() implies (first_match(items, #[trigger] r[j].0) matches Some(k) && r[j].1 == items[k].transform) by {
            if j < rr.len() {
                assert(r[j] == rr[j]);
            }
        }
        assert forall|i: int| 0 <= i < ids.len() && first_match(items, #[trigger] ids[i]) is Some implies
            exists|j: int| 0 <= j < r.len() && #[trigger] r[j].0 == ids[i] by {
            if i < rest.len() {
                assert(rest[i] == ids[i]);
                let j = choose|j: int| 0 <= j < rr.len() && #[trigger] rr[j].0 == rest[i];
                assert(r[j] == rr[j]);
            } else {
                assert(r[rr.len() as int].0 == ids[i]);
            }
        }
    }
}

/// Taking back a normalization puts back every item: whatever new transforms
/// were set on the targeted identities after the record, restoring the record
/// gives back the items as they were.
pub proof fn law_normalize_undo_restores(items: Seq<Item>, ids: Seq<ItemId>, changed: Seq<(ItemId, Transform)>)
    requires
        forall|j: int| 0 <= j < changed.len() ==> ids.contains(#[trigger] changed[j].0),
    ensures
        set_each(set_each(items, changed, transform_setter()), recorded_transforms(items, ids), transform_setter())
            == items,
{
    let put = transform_setter();
    assert(sets_field(put));
    let rec = recorded_transforms(items, ids);
    let a = set_each(items, changed, put);
    let r = set_each(a, rec, put);
    lemma_set_each(items, changed, put);
    lemma_set_each(a, rec, put);
    lemma_recorded_transforms(items, ids);
    assert forall|k: int| 0 <= k < items.len() implies r[k] == items[k] by {
        lemma_last_hit_same_ids(items, a, rec, k);
        lemma_last_hit_from(items, rec, k);
        lemma_last_hit_from(items, changed, k);
        if let Some(v) = last_hit(items, rec, k) {
            let j = choose|j: int| 0 <= j < rec.len() && first_match(items, rec[j].0) == Some(k) && #[trigger] rec[j].1 == v;
            assert(first_match(items, rec[j].0) matches Some(kk) && rec[j].1 == items[kk].transform);
        } else {
            if let Some(w) = last_hit(items, changed, k) {
                let j = choose|j: int| 0 <= j < changed.len() && first_match(items, changed[j].0) == Some(k) && #[trigger] changed[j].1 == w;
                assert(ids.contains(changed[j].0));
                let i = choose|i: int| 0 <= i < ids.len() && ids[i] == changed[j].0;
                assert(first_match(items, ids[i]) is Some);
                let jj = choose|jj: int| 0 <= jj < rec.len() && #[trigger] rec[jj].0 == ids[i];
                assert(first_match(items, rec[jj].0) == Some(k));
            }
        }
    }
    assert(r =~= items);
}

/// What each edit does to one item: it changes exactly the field it is about
/// and keeps the identity, and every other field as it was.
pub proof fn law_item_edits_change_one_field(
    it: Item,
    t: Transform,
    p: CanvasVector,
    z: i32,
    horizontal: bool,
    c: String,
    opacity: Option<Scalar>,
    grayscale: Option<bool>,
    crop: Option<Option<CropRect>>,
)
    ensures
        // the whole transform, every field of it
        with_transform(t)(it).transform == t,
        with_transform(t)(it).id == it.id && with_transform(t)(it).kind == it.kind && with_transform(t)(it).z == it.z,
        transform_setter()(it, t).transform == t,
        transform_setter()(it, t).id == it.id && transform_setter()(it, t).kind == it.kind && transform_setter()(it, t).z == it.z,
        // the position alone
        pos_setter()(it, p).transform.pos == p,
        pos_setter()(it, p).transform.scale == it.transform.scale,
        pos_setter()(it, p).transform.rotation == it.transform.rotation,
        pos_setter()(it, p).transform.flip_h == it.transform.flip_h,
        pos_setter()(it, p).transform.flip_v == it.transform.flip_v,
        pos_setter()(it, p).id == it.id && pos_setter()(it, p).kind == it.kind && pos_setter()(it, p).z == it.z,
        // the stacking value alone
        z_setter()(it, z).z == z,
        z_setter()(it, z).id == it.id && z_setter()(it, z).kind == it.kind && z_setter()(it, z).transform == it.transform,
        // one mirror flag
        toggled(horizontal)(it).transform.flip_h == (if horizontal { !it.transform.flip_h } else { it.transform.flip_h }),
        toggled(horizontal)(it).transform.flip_v == (if horizontal { it.transform.flip_v } else { !it.transform.flip_v }),
        toggled(horizontal)(it).transform.pos == it.transform.pos,
        toggled(horizontal)(it).transform.scale == it.transform.scale,
        toggled(horizontal)(it).transform.rotation == it.transform.rotation,
        toggled(horizontal)(it).id == it.id && toggled(horizontal)(it).kind == it.kind && toggled(horizontal)(it).z == it.z,
        // a text note's content (its measured size no longer holds)
        it.kind is Text ==> {
            let e = with_content(c)(it);
            &&& e.kind is Text
            &&& e.kind->content == c
            &&& e.kind->font_size == it.kind->font_size
            &&& e.kind->color == it.kind->color
            &&& e.kind->editing == it.kind->editing
            &&& e.kind->measured_size is None
            &&& e.id == it.id && e.transform == it.transform && e.z == it.z
        },
        it.kind is Pixmap ==> with_content(c)(it) == it,
        // an image's given properties
        it.kind is Pixmap ==> {
            let e = with_props(opacity, grayscale, crop)(it);
            &&& e.kind is Pixmap
            &&& e.kind->opacity == (match opacity { Some(v) => v, None => it.kind->opacity })
            &&& e.kind->grayscale == (match grayscale { Some(v) => v, None => it.kind->grayscale })
            &&& e.kind->crop == (match crop { Some(v) => v, None => it.kind->crop })
            &&& e.kind->texture_id == it.kind->texture_id
            &&& e.kind->filename == it.kind->filename
            &&& e.kind->original_size == it.kind->original_size
            &&& e.id == it.id && e.transform == it.transform && e.z == it.z
        },
        it.kind is Text ==> with_props(opacity, grayscale, crop)(it) == it,
{
}

} // verus!
