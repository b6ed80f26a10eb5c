use preferz::commands::{
    AddItem, ArrangeItems, Command, CropItems, DeleteItems, EditTextContent, FlipItems, NormalizeItems, NormalizeMode,
    ReorderItems, SetPixmapProps, TransformItem,
};
use preferz::item::{CropRect, Item, ItemKind};
use preferz::scene::Scene;
use preferz::spaces::{CanvasVector, Scalar};
use preferz::transform::Transform;

fn s(v: f32) -> Scalar {
    Scalar { bits: v.to_bits() }
}

fn v(x: f32, y: f32) -> CanvasVector {
    CanvasVector::new(s(x), s(y))
}

fn pixmap() -> Item {
    Item::new_pixmap(3, None, (10, 10), s(0.0), s(0.0), s(1.0), s(1.0))
}

fn scene_of(n: usize) -> Scene {
    let mut scene = Scene::new();
    for _ in 0..n {
        scene.add_item(pixmap());
    }
    scene
}

fn snapshot(scene: &Scene) -> Vec<(u128, Transform, i32)> {
    scene.items.iter().map(|i| (i.id, i.transform, i.z)).collect()
}

#[test]
fn transform_item_redo_undo() {
    let mut scene = scene_of(2);
    let id = scene.items[1].id;
    let before = scene.items[1].transform;
    let mut after = before;
    after.pos = v(5.0, 6.0);
    after.flip_h = true;
    let mut cmd = TransformItem::new(id, before, after);
    assert!(cmd.skip_first_redo());
    let start = snapshot(&scene);
    cmd.redo(&mut scene);
    assert_eq!(scene.items[1].transform, after);
    assert_eq!(scene.items[0].transform, before);
    cmd.undo(&mut scene);
    assert_eq!(snapshot(&scene), start);
    let cmd2 = TransformItem::new(id, before, after).with_preview_applied(false);
    assert!(!cmd2.skip_first_redo());
}

#[test]
fn flip_twice_restores() {
    let mut scene = scene_of(3);
    let ids = vec![scene.items[0].id, scene.items[2].id, scene.items[0].id, scene.items[2].id, scene.items[2].id];
    let start = snapshot(&scene);
    let mut cmd = FlipItems::new(ids, true);
    assert!(!cmd.skip_first_redo());
    cmd.redo(&mut scene);
    // item 0 toggled twice, item 2 three times
    assert!(!scene.items[0].transform.flip_h);
    assert!(scene.items[2].transform.flip_h);
    assert!(!scene.items[1].transform.flip_h);
    assert!(!scene.items[2].transform.flip_v);
    cmd.undo(&mut scene);
    assert_eq!(snapshot(&scene), start);
    let mut vcmd = FlipItems::new(vec![scene.items[1].id], false);
    vcmd.redo(&mut scene);
    assert!(scene.items[1].transform.flip_v);
}

#[test]
fn delete_then_undo_restores_items_with_their_z() {
    let mut scene = scene_of(4);
    let a = scene.items[1].id;
    let b = scene.items[3].id;
    scene.select(a);
    let mut start = snapshot(&scene);
    let mut cmd = DeleteItems::new(vec![b, a, 999]);
    cmd.redo(&mut scene);
    assert_eq!(scene.items.len(), 2);
    assert!(!scene.selection_contains(&a));
    cmd.undo(&mut scene);
    assert_eq!(scene.items.len(), 4);
    assert_eq!(scene.next_z, 4);
    // the deleted items come back at the end, in the command's order, with their z
    assert_eq!(scene.items[2].id, b);
    assert_eq!(scene.items[2].z, 3);
    assert_eq!(scene.items[3].id, a);
    assert_eq!(scene.items[3].z, 1);
    let mut now = snapshot(&scene);
    start.sort_by_key(|t| t.0);
    now.sort_by_key(|t| t.0);
    assert_eq!(now, start);
    // a second redo reuses the copies taken by the first
    cmd.redo(&mut scene);
    assert_eq!(scene.items.len(), 2);
    cmd.undo(&mut scene);
    assert_eq!(scene.items.len(), 4);
}

#[test]
fn add_then_undo() {
    let mut scene = scene_of(1);
    let item = pixmap();
    let id = item.id;
    let mut cmd = AddItem::new(item);
    assert_eq!(cmd.item_id(), id);
    cmd.redo(&mut scene);
    assert_eq!(scene.items.len(), 2);
    assert_eq!(scene.items[1].z, 1);
    assert_eq!(scene.next_z, 2);
    cmd.undo(&mut scene);
    assert_eq!(scene.items.len(), 1);
    assert_eq!(scene.next_z, 2);
}

#[test]
fn bring_to_front_and_undo() {
    let mut scene = scene_of(3);
    let a = scene.items[0].id;
    let b = scene.items[1].id;
    let start = snapshot(&scene);
    let mut cmd = ReorderItems::new(vec![a, b], true);
    cmd.redo(&mut scene);
    assert_eq!(scene.items[0].z, 3);
    assert_eq!(scene.items[1].z, 4);
    assert_eq!(scene.items[2].z, 2);
    assert_eq!(scene.next_z, 5);
    cmd.undo(&mut scene);
    assert_eq!(snapshot(&scene), start);
    assert_eq!(scene.next_z, 5);
    // a redo after the undo applies the same planned values
    cmd.redo(&mut scene);
    assert_eq!(scene.items[0].z, 3);
    assert_eq!(scene.items[1].z, 4);
}

#[test]
fn send_to_back_and_undo() {
    let mut scene = scene_of(3);
    let b = scene.items[1].id;
    let c = scene.items[2].id;
    let start = snapshot(&scene);
    let mut cmd = ReorderItems::new(vec![c, b, 12345], false);
    cmd.redo(&mut scene);
    // lowest z is 0, three ids: -3, -2, -1
    assert_eq!(scene.items[2].z, -3);
    assert_eq!(scene.items[1].z, -2);
    assert_eq!(scene.items[0].z, 0);
    assert_eq!(scene.next_z, 3);
    cmd.undo(&mut scene);
    assert_eq!(snapshot(&scene), start);
}

#[test]
fn reorder_on_empty_scene_sends_below_zero() {
    let mut scene = Scene::new();
    let mut cmd = ReorderItems::new(vec![1, 2], false);
    cmd.redo(&mut scene);
    assert!(scene.items.is_empty());
    assert_eq!(scene.next_z, 0);
}

#[test]
fn arrange_redo_undo() {
    let mut scene = scene_of(2);
    let a = scene.items[0].id;
    let b = scene.items[1].id;
    let start = snapshot(&scene);
    let moves = vec![(a, v(0.0, 0.0), v(100.0, 0.0)), (b, v(0.0, 0.0), v(200.0, 50.0))];
    let mut cmd = ArrangeItems::new(moves);
    assert!(!cmd.skip_first_redo());
    cmd.redo(&mut scene);
    assert_eq!(scene.items[0].transform.pos, v(100.0, 0.0));
    assert_eq!(scene.items[1].transform.pos, v(200.0, 50.0));
    cmd.undo(&mut scene);
    assert_eq!(snapshot(&scene), start);
    let cmd = ArrangeItems::new(vec![]).with_preview_applied(true);
    assert!(cmd.skip_first_redo());
}

#[test]
fn edit_text_drops_measured_size() {
    let mut scene = Scene::new();
    let mut note = Item::new_text("old".to_string(), s(0.0), s(0.0), s(16.0), [0, 0, 0, 255]);
    if let ItemKind::Text { measured_size, .. } = &mut note.kind {
        *measured_size = Some((s(30.0), s(20.0)));
    }
    let id = note.id;
    scene.add_item(note);
    let mut cmd = EditTextContent::new(id, "old".to_string(), "new".to_string());
    cmd.redo(&mut scene);
    match &scene.items[0].kind {
        ItemKind::Text { content, measured_size, .. } => {
            assert_eq!(content, "new");
            assert!(measured_size.is_none());
        }
        _ => panic!("expected a text"),
    }
    cmd.undo(&mut scene);
    match &scene.items[0].kind {
        ItemKind::Text { content, .. } => assert_eq!(content, "old"),
        _ => panic!("expected a text"),
    }
    // an image is left alone
    scene.add_item(pixmap());
    let pid = scene.items[1].id;
    let mut cmd = EditTextContent::new(pid, "a".to_string(), "b".to_string());
    cmd.redo(&mut scene);
    assert!(matches!(scene.items[1].kind, ItemKind::Pixmap { .. }));
}

#[test]
fn pixmap_props_change_only_given_fields() {
    let mut scene = scene_of(1);
    let id = scene.items[0].id;
    let crop = CropRect { x: s(1.0), y: s(2.0), width: s(3.0), height: s(4.0) };
    let mut cmd = SetPixmapProps::new(id).with_opacity(s(1.0), s(0.5)).with_crop(None, Some(crop));
    cmd.redo(&mut scene);
    match &scene.items[0].kind {
        ItemKind::Pixmap { opacity, grayscale, crop: c, .. } => {
            assert_eq!(*opacity, s(0.5));
            assert!(!grayscale);
            let got = c.expect("crop set");
            assert_eq!((got.x, got.y, got.width, got.height), (crop.x, crop.y, crop.width, crop.height));
        }
        _ => panic!(),
    }
    cmd.undo(&mut scene);
    match &scene.items[0].kind {
        ItemKind::Pixmap { opacity, crop: c, .. } => {
            assert_eq!(*opacity, s(1.0));
            assert!(c.is_none());
        }
        _ => panic!(),
    }
    let mut g = SetPixmapProps::new(id).with_grayscale(false, true);
    g.redo(&mut scene);
    assert!(matches!(scene.items[0].kind, ItemKind::Pixmap { grayscale: true, .. }));
}

#[test]
fn crop_redo_undo_restores_crop_and_transform() {
    let mut scene = scene_of(1);
    let id = scene.items[0].id;
    let before = scene.items[0].transform;
    let mut after = before;
    after.pos = v(2.0, 3.0);
    after.scale = v(0.5, 0.5);
    let crop = CropRect { x: s(2.0), y: s(3.0), width: s(5.0), height: s(5.0) };
    let mut cmd = CropItems::new(id, None, Some(crop), before, after);
    cmd.redo(&mut scene);
    assert_eq!(scene.items[0].transform, after);
    assert!(matches!(scene.items[0].kind, ItemKind::Pixmap { crop: Some(_), .. }));
    cmd.undo(&mut scene);
    assert_eq!(scene.items[0].transform, before);
    assert!(matches!(scene.items[0].kind, ItemKind::Pixmap { crop: None, .. }));
    // a second undo does not put the old transform back again
    scene.items[0].transform = after;
    cmd.undo(&mut scene);
    assert_eq!(scene.items[0].transform, after);
}

#[test]
fn normalize_modes_are_distinct() {
    assert_ne!(NormalizeMode::Width, NormalizeMode::Height);
    assert_ne!(NormalizeMode::Height, NormalizeMode::Area);
}

#[test]
fn normalize_records_once_and_restores() {
    let mut scene = scene_of(2);
    let (a, b) = (scene.items[0].id, scene.items[1].id);
    let before = snapshot(&scene);
    let mut cmd = NormalizeItems::new(vec![b, 999, a], NormalizeMode::Area, s(400.0));
    assert_eq!(cmd.mode(), NormalizeMode::Area);
    assert_eq!(cmd.target(), Some(s(400.0)));
    assert!(cmd.recorded().is_empty());
    cmd.record(&scene);
    let ids: Vec<u128> = cmd.recorded().iter().map(|p| p.0).collect();
    assert_eq!(ids, vec![b, a]);
    // the new scales come from elsewhere
    scene.items[0].transform.scale = v(2.0, 2.0);
    scene.items[1].transform.scale = v(3.0, 3.0);
    // a second run keeps the first record
    cmd.record(&scene);
    assert_eq!(cmd.recorded()[0].1.scale, v(1.0, 1.0));
    cmd.restore(&mut scene);
    assert_eq!(snapshot(&scene), before);
}
