use preferz::item::{item_id_from_text, item_id_text, Item, ItemKind};
use preferz::project::{
    bee_schema, decimal_text, is_prz_extension, is_prz_format_value, item_from_row, item_kind_str, item_with_parsed_id,
    live_texture_names, metadata_entries, new_file_schema, orphan_names, prz_schema, signed_decimal_text, sqlar_cleanup,
    viewport_fields, ProjectError, SqlarCleanup,
};
use preferz::scene::Scene;
use preferz::schema::{
    create_schema, delete_item_query, insert_item_query, insert_metadata_query, select_all_items_query,
    select_metadata_query, BEE_SCHEMA_VERSION, PRZ_SCHEMA_VERSION, USER_VERSION,
};
use preferz::spaces::Scalar;
use preferz::transform::Transform;

fn s(v: f32) -> Scalar {
    Scalar { bits: v.to_bits() }
}

fn strings(v: &[&str]) -> Vec<String> {
    v.iter().map(|x| x.to_string()).collect()
}

#[test]
fn decimal_texts() {
    assert_eq!(decimal_text(0), "0");
    assert_eq!(decimal_text(42), "42");
    assert_eq!(decimal_text(u64::MAX), u64::MAX.to_string());
    assert_eq!(signed_decimal_text(-5), "-5");
    assert_eq!(signed_decimal_text(i32::MIN), i32::MIN.to_string());
    assert_eq!(signed_decimal_text(i32::MAX), i32::MAX.to_string());
    assert_eq!(signed_decimal_text(0), "0");
}

#[test]
fn format_detection() {
    assert!(is_prz_format_value(&Some("prz".to_string())));
    assert!(!is_prz_format_value(&Some("bee".to_string())));
    assert!(!is_prz_format_value(&None));
    assert!(is_prz_extension(Some("prz")));
    assert!(!is_prz_extension(Some("PRZ")));
    assert!(!is_prz_extension(Some("bee")));
    assert!(!is_prz_extension(None));
}

#[test]
fn schemas_and_queries() {
    assert!(bee_schema().contains("CREATE TABLE IF NOT EXISTS sqlar"));
    assert!(!bee_schema().contains("metadata"));
    assert!(prz_schema().contains("VALUES ('format', 'prz')"));
    assert!(create_schema().contains("CREATE TABLE IF NOT EXISTS metadata"));
    assert_eq!(insert_item_query(), "INSERT OR REPLACE INTO items (id, kind, data, transform, z) VALUES (?, ?, ?, ?, ?)");
    assert_eq!(select_all_items_query(), "SELECT id, kind, data, transform, z FROM items ORDER BY z");
    assert_eq!(delete_item_query(), "DELETE FROM items WHERE id = ?");
    assert_eq!(insert_metadata_query(), "INSERT OR REPLACE INTO metadata (key, value) VALUES (?, ?)");
    assert_eq!(select_metadata_query(), "SELECT key, value FROM metadata");
    assert_eq!((USER_VERSION, BEE_SCHEMA_VERSION, PRZ_SCHEMA_VERSION), (3, 2, 3));
}

#[test]
fn kind_names_and_live_textures() {
    let mut scene = Scene::new();
    scene.add_item(Item::new_pixmap(42, None, (1, 1), s(0.0), s(0.0), s(1.0), s(1.0)));
    scene.add_item(Item::new_text("t".to_string(), s(0.0), s(0.0), s(16.0), [1, 2, 3, 4]));
    scene.add_item(Item::new_pixmap(7, None, (1, 1), s(0.0), s(0.0), s(1.0), s(1.0)));
    assert_eq!(item_kind_str(&scene.items[0].kind), "pixmap");
    assert_eq!(item_kind_str(&scene.items[1].kind), "text");
    assert_eq!(live_texture_names(&scene), strings(&["42", "7"]));
    assert_eq!(live_texture_names(&Scene::new()), Vec::<String>::new());
}

#[test]
fn orphan_cleanup_keeps_live_images() {
    let live = strings(&["42", "7"]);
    let stored = strings(&["1", "42", "9", "7"]);
    assert_eq!(orphan_names(&live, &stored), strings(&["1", "9"]));
    assert_eq!(sqlar_cleanup(&live), SqlarCleanup::DeleteOrphans);
    assert_eq!(sqlar_cleanup(&Vec::new()), SqlarCleanup::DeleteAll);
    assert_eq!(orphan_names(&Vec::new(), &stored), stored);
}

#[test]
fn metadata_only_for_prz() {
    let vp = Some(("100".to_string(), "200".to_string(), "1.5".to_string()));
    assert!(metadata_entries(false, vp.clone(), 4).is_empty());
    let rows = metadata_entries(true, vp, -4);
    let expected: Vec<(String, String)> = vec![
        ("viewport_pan_x".into(), "100".into()),
        ("viewport_pan_y".into(), "200".into()),
        ("viewport_zoom".into(), "1.5".into()),
        ("next_z".into(), "-4".into()),
    ];
    assert_eq!(rows, expected);
    assert_eq!(metadata_entries(true, None, 2), vec![("next_z".to_string(), "2".to_string())]);
}

#[test]
fn id_text_round_trip_and_runtime_state() {
    let id: u128 = 0xa1a2a3a4b1b2c1c2d1d2d3d4d5d6d7d8;
    let text = item_id_text(id);
    assert_eq!(text, "a1a2a3a4-b1b2-c1c2-d1d2-d3d4d5d6d7d8");
    let kind = ItemKind::Text {
        content: "你好".to_string(),
        font_size: s(24.0),
        color: [255, 255, 255, 255],
        editing: true,
        measured_size: Some((s(99.0), s(99.0))),
    };
    let item = item_from_row(&text, kind, Transform::default(), 5).unwrap();
    assert_eq!(item.id, id);
    assert_eq!(item.z, 5);
    match item.kind {
        ItemKind::Text { content, editing, measured_size, .. } => {
            assert_eq!(content, "你好");
            assert!(!editing);
            assert!(measured_size.is_none());
        }
        _ => panic!(),
    }
    // upper case and simple forms parse too
    let upper = item_from_row("A1A2A3A4B1B2C1C2D1D2D3D4D5D6D7D8", ItemKind::Text {
        content: String::new(),
        font_size: s(1.0),
        color: [0; 4],
        editing: false,
        measured_size: None,
    }, Transform::default(), 0).unwrap();
    assert_eq!(upper.id, id);
}

#[test]
fn invalid_id_is_an_error() {
    let kind = ItemKind::Pixmap {
        texture_id: 1,
        filename: None,
        original_size: (1, 1),
        opacity: s(1.0),
        grayscale: false,
        crop: None,
    };
    match item_from_row("not-a-uuid", kind, Transform::default(), 0) {
        Err(ProjectError::InvalidItemId(t)) => assert_eq!(t, "not-a-uuid"),
        Ok(_) => panic!("expected an error"),
    }
}

#[test]
fn viewport_fields_need_all_three() {
    let mut rows: Vec<(String, String)> = vec![
        ("format".into(), "prz".into()),
        ("viewport_pan_x".into(), "1".into()),
        ("viewport_pan_y".into(), "2".into()),
    ];
    assert!(viewport_fields(&rows).is_none());
    rows.push(("viewport_zoom".into(), "3".into()));
    rows.push(("viewport_pan_x".into(), "10".into()));
    assert_eq!(viewport_fields(&rows), Some(("10".to_string(), "2".to_string(), "3".to_string())));
}

#[test]
fn parsed_id_builds_the_item_or_names_the_text() {
    let kind = ItemKind::Text {
        content: "x".to_string(),
        font_size: s(16.0),
        color: [1, 2, 3, 4],
        editing: true,
        measured_size: Some((s(3.0), s(4.0))),
    };
    let item = item_with_parsed_id(Some(42), "whatever", kind.clone(), Transform::default(), -2).unwrap();
    assert_eq!(item.id, 42);
    assert_eq!(item.z, -2);
    match item.kind {
        ItemKind::Text { editing, measured_size, color, .. } => {
            assert!(!editing);
            assert!(measured_size.is_none());
            assert_eq!(color, [1, 2, 3, 4]);
        }
        _ => panic!("expected a text item"),
    }
    match item_with_parsed_id(None, "bad id", kind, Transform::default(), 0) {
        Err(ProjectError::InvalidItemId(t)) => assert_eq!(t, "bad id"),
        Ok(_) => panic!("expected an error"),
    }
}

#[test]
fn new_file_format_follows_the_extension() {
    assert_eq!(new_file_schema(Some("prz")), (true, prz_schema()));
    assert_eq!(new_file_schema(Some("PRZ")), (false, bee_schema()));
    assert_eq!(new_file_schema(Some("bee")), (false, bee_schema()));
    assert_eq!(new_file_schema(None), (false, bee_schema()));
    assert!(prz_schema().contains("VALUES ('format', 'prz')"));
    assert!(!bee_schema().contains("metadata"));
}

#[test]
fn id_text_parses_back() {
    let id: u128 = 0x0123_4567_89ab_cdef_0011_2233_4455_6677;
    assert_eq!(item_id_from_text(&item_id_text(id)), Some(id));
    assert_eq!(item_id_from_text("0123456789abcdef0011223344556677"), Some(id));
    assert_eq!(item_id_from_text("nope"), None);
}
