use preferz::item::{Item, ItemKind};
use preferz::scene::Scene;
use preferz::spaces::{CanvasVector, Scalar};
use preferz::transform::Transform;

fn s(v: f32) -> Scalar {
    Scalar { bits: v.to_bits() }
}

fn pixmap(w: u32, h: u32) -> Item {
    Item::new_pixmap(1, None, (w, h), s(0.0), s(0.0), s(1.0), s(1.0))
}

#[test]
fn new_scene_is_empty() {
    let scene = Scene::new();
    assert!(scene.items.is_empty());
    assert!(scene.selection.is_empty());
    assert_eq!(scene.next_z, 0);
    let d = Scene::default();
    assert!(d.items.is_empty());
    assert_eq!(d.next_z, 0);
}

#[test]
fn add_item_stacks_in_add_order() {
    let mut scene = Scene::new();
    let mut a = pixmap(10, 10);
    a.z = 77; // overwritten
    scene.add_item(a);
    scene.add_item(pixmap(20, 20));
    scene.add_item(pixmap(30, 30));
    assert_eq!(scene.items.iter().map(|i| i.z).collect::<Vec<_>>(), vec![0, 1, 2]);
    assert_eq!(scene.next_z, 3);
    let order = scene.items_by_z_order();
    let ids: Vec<u128> = order.iter().map(|i| i.id).collect();
    let expected: Vec<u128> = scene.items.iter().map(|i| i.id).collect();
    assert_eq!(ids, expected);
}

#[test]
fn add_item_preserve_z_advances_next_z_only_when_needed() {
    let mut scene = Scene::new();
    let mut a = pixmap(1, 1);
    a.z = 5;
    scene.add_item_preserve_z(a);
    assert_eq!(scene.items[0].z, 5);
    assert_eq!(scene.next_z, 6);
    let mut b = pixmap(1, 1);
    b.z = -3;
    scene.add_item_preserve_z(b);
    assert_eq!(scene.items[1].z, -3);
    assert_eq!(scene.next_z, 6);
}

#[test]
fn remove_item_drops_every_copy_and_the_selection() {
    let mut scene = Scene::new();
    let a = pixmap(1, 1);
    let id = a.id;
    let b = pixmap(2, 2);
    let other = b.id;
    scene.add_item(a.clone());
    scene.add_item(b);
    scene.add_item(a);
    scene.select(id);
    scene.select(other);
    scene.remove_item(&id);
    assert_eq!(scene.items.len(), 1);
    assert_eq!(scene.items[0].id, other);
    assert!(!scene.selection_contains(&id));
    assert!(scene.selection_contains(&other));
    assert_eq!(scene.next_z, 3);
}

#[test]
fn get_item_finds_the_first_match() {
    let mut scene = Scene::new();
    let a = pixmap(1, 1);
    let id = a.id;
    scene.add_item(a.clone());
    scene.add_item(a);
    assert_eq!(scene.get_item(&id).unwrap().z, 0);
    assert_eq!(scene.position(&id), Some(0));
    assert!(scene.get_item(&12345).is_none());
    assert_eq!(scene.position(&12345), None);
    scene.get_item_mut(&id).unwrap().z = 9;
    assert_eq!(scene.items[0].z, 9);
    assert_eq!(scene.items[1].z, 1);
    assert!(scene.get_item_mut(&12345).is_none());
}

#[test]
fn selection_toggle_and_clear() {
    let mut scene = Scene::new();
    scene.toggle_selection(7);
    assert!(scene.selection_contains(&7));
    scene.toggle_selection(7);
    assert!(!scene.selection_contains(&7));
    scene.select(1);
    scene.select(2);
    scene.deselect_all();
    assert!(scene.selection.is_empty());
}

#[test]
fn items_by_z_order_is_stable() {
    let mut scene = Scene::new();
    let zs = [3, 1, 3, 0, 1];
    for z in zs {
        let mut it = pixmap(1, 1);
        it.z = z;
        scene.add_item_preserve_z(it);
    }
    let order = scene.items_by_z_order();
    let got: Vec<(i32, u128)> = order.iter().map(|i| (i.z, i.id)).collect();
    let it = &scene.items;
    let expected = vec![
        (0, it[3].id),
        (1, it[1].id),
        (1, it[4].id),
        (3, it[0].id),
        (3, it[2].id),
    ];
    assert_eq!(got, expected);
}

#[test]
fn clear_restarts_stacking() {
    let mut scene = Scene::new();
    scene.add_item(pixmap(1, 1));
    scene.select(4);
    scene.clear();
    assert!(scene.items.is_empty());
    assert!(scene.selection.is_empty());
    assert_eq!(scene.next_z, 0);
}

#[test]
fn new_items_have_fresh_random_v4_ids_and_defaults() {
    let a = Item::new_pixmap(42, Some("a.png".to_string()), (100, 80), s(10.0), s(20.0), s(1.5), s(1.5));
    let b = Item::new_text("hi".to_string(), s(5.0), s(6.0), s(24.0), [255, 255, 255, 255]);
    assert_ne!(a.id, b.id);
    for id in [a.id, b.id] {
        assert_eq!((id >> 76) & 0xf, 4);
        assert_eq!((id >> 62) & 0x3, 2);
    }
    assert_eq!(a.z, 0);
    assert_eq!(a.transform.pos.x, s(10.0));
    assert_eq!(a.transform.scale.y, s(1.5));
    assert_eq!(a.transform.rotation, s(0.0));
    match &a.kind {
        ItemKind::Pixmap { texture_id, filename, original_size, opacity, grayscale, crop } => {
            assert_eq!(*texture_id, 42);
            assert_eq!(filename.as_deref(), Some("a.png"));
            assert_eq!(*original_size, (100, 80));
            assert_eq!(*opacity, s(1.0));
            assert!(!grayscale);
            assert!(crop.is_none());
        }
        _ => panic!("expected an image"),
    }
    match &b.kind {
        ItemKind::Text { content, font_size, editing, measured_size, .. } => {
            assert_eq!(content, "hi");
            assert_eq!(*font_size, s(24.0));
            assert!(!editing);
            assert!(measured_size.is_none());
        }
        _ => panic!("expected a text"),
    }
    assert_eq!(b.transform.scale.x, s(1.0));
}

#[test]
fn transform_flips_and_default() {
    let mut t = preferz::Transform::default();
    assert_eq!(t.scale.x, s(1.0));
    assert_eq!(t.pos.x, s(0.0));
    t.flip_horizontal();
    assert!(t.flip_h && !t.flip_v);
    t.flip_vertical();
    t.flip_horizontal();
    assert!(!t.flip_h && t.flip_v);
}

#[test]
fn topmost_hit_takes_the_highest_z_and_the_later_of_equals() {
    let mut scene = Scene::new();
    let mut a = pixmap(1, 1);
    a.z = 4;
    let mut b = pixmap(2, 2);
    b.z = 9;
    let mut c = pixmap(3, 3);
    c.z = 4;
    let (ida, idb, idc) = (a.id, b.id, c.id);
    scene.add_item_preserve_z(a);
    scene.add_item_preserve_z(b);
    scene.add_item_preserve_z(c);
    assert_eq!(scene.topmost_hit(&[true, true, true]).map(|i| i.id), Some(idb));
    assert_eq!(scene.topmost_hit(&[true, false, true]).map(|i| i.id), Some(idc));
    assert_eq!(scene.topmost_hit(&[true, false, false]).map(|i| i.id), Some(ida));
    assert!(scene.topmost_hit(&[false, false, false]).is_none());
    // the same item the top-down walk of the z order finds first
    let hits = [true, false, true];
    let walk = scene.items_by_z_order().into_iter().rev().zip(0..).find(|(it, _)| {
        let k = scene.items.iter().position(|x| x.id == it.id).unwrap();
        hits[k]
    });
    assert_eq!(walk.map(|(it, _)| it.id), scene.topmost_hit(&hits).map(|i| i.id));
}

#[test]
fn equality_follows_floating_point() {
    assert_eq!(s(0.0), s(-0.0));
    assert_ne!(s(f32::NAN), s(f32::NAN));
    assert_ne!(s(1.0), s(2.0));
    assert_eq!(s(f32::INFINITY), s(f32::INFINITY));
    let mut a = Transform::default();
    let mut b = Transform::default();
    a.rotation = s(0.0);
    b.rotation = s(-0.0);
    assert_eq!(a, b);
    b.rotation = s(f32::NAN);
    assert_ne!(b, b);
    b.rotation = s(0.0);
    b.flip_h = true;
    assert_ne!(a, b);
    assert_eq!(CanvasVector::new(s(-0.0), s(3.0)), CanvasVector::new(s(0.0), s(3.0)));
}
