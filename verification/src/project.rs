//! The decisions of the project file format (`.bee` and `.prz`): which format a
//! file has, which rows a save writes and which image entries it deletes, and
//! how a stored row becomes an item again. Reading and writing the SQLite file,
//! and encoding item data, is the caller's part.

use vstd::prelude::*;
use vstd::string::StringExecFns;

use crate::item::{parse_item_id, spec_parse_uuid, uuid_text, Item, ItemId, ItemKind};
use crate::scene::Scene;
use crate::spaces::Scalar;
use crate::transform::Transform;

verus! {

/// Viewport state saved with a `.prz` project.
#[derive(Debug, Clone, Copy)]
pub struct ViewportMeta {
    pub pan_x: Scalar,
    pub pan_y: Scalar,
    pub zoom: Scalar,
}

/// Text note data in the layout of an older schema, kept for migrations.
#[derive(Debug)]
pub struct TextData {
    pub content: String,
    pub font_size: Scalar,
    pub color: [u8; 4],
}

/// Why a stored project could not be read.
#[derive(Debug)]
pub enum ProjectError {
    /// An item row's identity text is not a UUID.
    InvalidItemId(String),
}

// ───────────────────────── Decimal text ─────────────────────────

/// A decimal digit.
pub open spec fn digit_char(d: int) -> char {
    if d == 0 { '0' } else if d == 1 { '1' } else if d == 2 { '2' } else if d == 3 { '3' }
    else if d == 4 { '4' } else if d == 5 { '5' } else if d == 6 { '6' } else if d == 7 { '7' }
    else if d == 8 { '8' } else { '9' }
}

/// The decimal text of a natural number, without leading zeros.
pub open spec fn decimal(n: nat) -> Seq<char>
    decreases n,
{
    if n < 10 {
        seq![digit_char(n as int)]
    } else {
        decimal(n / 10).push(digit_char((n % 10) as int))
    }
}

/// The decimal text of an integer, with a leading `-` when negative.
pub open spec fn signed_decimal(v: int) -> Seq<char> {
    if v < 0 {
        seq!['-'] + decimal((-v) as nat)
    } else {
        decimal(v as nat)
    }
}

/// The number that a text of decimal digits spells, most significant first
/// (each digit by its character code).
pub open spec fn digits_value(t: Seq<char>) -> int
    decreases t.len(),
{
    if t.len() == 0 {
        0
    } else {
        digits_value(t.drop_last()) * 10 + ((t.last() as int) - ('0' as int))
    }
}

/// Every character is a decimal digit.
pub open spec fn all_digits(t: Seq<char>) -> bool {
    forall|i: int| 0 <= i < t.len() ==> '0' <= #[trigger] t[i] <= '9'
}

proof fn lemma_digit_code(d: int)
    requires
        0 <= d < 10,
    ensures
        (digit_char(d) as int) - ('0' as int) == d,
        '0' <= digit_char(d) <= '9',
{
    assert(('0' as int) == 48 && ('1' as int) == 49 && ('2' as int) == 50 && ('3' as int) == 51
        && ('4' as int) == 52 && ('5' as int) == 53 && ('6' as int) == 54 && ('7' as int) == 55
        && ('8' as int) == 56 && ('9' as int) == 57);
}

/// The decimal text of a number reads back as that number: it is made of
/// digits only, starts with a non-zero digit unless the number is 0, and
/// spells the number.
pub proof fn law_decimal_reads_back(n: nat)
    ensures
        all_digits(decimal(n)),
        decimal(n).len() >= 1,
        digits_value(decimal(n)) == n,
        n > 0 ==> decimal(n)[0] != '0',
        n == 0 ==> decimal(n) == seq!['0'],
    decreases n,
{
    if n < 10 {
        lemma_digit_code(n as int);
        assert(decimal(n).drop_last() =~= Seq::<char>::empty());
        assert(digits_value(Seq::<char>::empty()) == 0);
        assert(decimal(n).last() == digit_char(n as int));
        assert(digits_value(decimal(n)) == digits_value(decimal(n).drop_last()) * 10 + ((decimal(n).last() as int) - ('0' as int)));
    } else {
        law_decimal_reads_back(n / 10);
        let rest = decimal(n / 10);
        let d = (n % 10) as int;
        lemma_digit_code(d);
        assert(decimal(n).drop_last() == rest);
        assert(decimal(n).last() == digit_char(d));
        assert(digits_value(decimal(n)) == digits_value(rest) * 10 + d);
        assert((n / 10) * 10 + n % 10 == n);
        assert(decimal(n)[0] == rest[0]);
        assert forall|i: int| 0 <= i < decimal(n).len() implies '0' <= #[trigger] decimal(n)[i] <= '9' by {
            if i < rest.len() {
                assert(decimal(n)[i] == rest[i]);
            }
        }
    }
}

/// The signed decimal text of an integer: a `-` before the digits of its
/// magnitude exactly when it is negative.
pub proof fn law_signed_decimal_reads_back(v: int)
    ensures
        v < 0 ==> signed_decimal(v)[0] == '-' && signed_decimal(v).drop_first() == decimal((-v) as nat),
        v >= 0 ==> signed_decimal(v) == decimal(v as nat) && signed_decimal(v)[0] != '-',
        v < 0 ==> digits_value(signed_decimal(v).drop_first()) == -v,
        v >= 0 ==> digits_value(signed_decimal(v)) == v,
{
    if v < 0 {
        law_decimal_reads_back((-v) as nat);
        assert((seq!['-'] + decimal((-v) as nat)).drop_first() =~= decimal((-v) as nat));
    } else {
        law_decimal_reads_back(v as nat);
        assert(all_digits(decimal(v as nat)));
        assert('0' <= decimal(v as nat)[0] <= '9');
    }
}

fn digit_str(d: u64) -> (s: &'static str)
    requires
        d < 10,
    ensures
        s@ == seq![digit_char(d as int)],
{
    proof {
        reveal_strlit("0");
        reveal_strlit("1");
        reveal_strlit("2");
        reveal_strlit("3");
        reveal_strlit("4");
        reveal_strlit("5");
        reveal_strlit("6");
        reveal_strlit("7");
        reveal_strlit("8");
        reveal_strlit("9");
    }
    if d == 0 { "0" } else if d == 1 { "1" } else if d == 2 { "2" } else if d == 3 { "3" }
    else if d == 4 { "4" } else if d == 5 { "5" } else if d == 6 { "6" } else if d == 7 { "7" }
    else if d == 8 { "8" } else { "9" }
}

/// The decimal text of `n` (as `u64::to_string` writes it).
pub fn decimal_text(n: u64) -> (s: String)
    ensures
        s@ == decimal(n as nat),
        all_digits(s@),
        digits_value(s@) == n,
    decreases n,
{
    proof {
        law_decimal_reads_back(n as nat);
    }
    if n < 10 {
        String::from_str(digit_str(n))
    } else {
        let mut s = decimal_text(n / 10);
        s.append(digit_str(n % 10));
        s
    }
}

/// The decimal text of `v` (as `i32::to_string` writes it).
pub fn signed_decimal_text(v: i32) -> (s: String)
    ensures
        s@ == signed_decimal(v as int),
{
    if v < 0 {
        let m: i64 = -(v as i64);
        let digits = decimal_text(m as u64);
        let mut s = String::from_str("-");
        s.append(digits.as_str());
        proof {
            reveal_strlit("-");
        }
        s
    } else {
        decimal_text(v as u64)
    }
}

// ───────────────────────── Format ─────────────────────────

/// The views of a sequence of strings.
pub open spec fn texts(v: Seq<String>) -> Seq<Seq<char>> {
    v.map_values(|s: String| s@)
}

/// Whether a file is a `.prz` project, from the value of its `format`
/// metadata entry (`None` where there is no such entry or table).
pub fn is_prz_format_value(value: &Option<String>) -> (r: bool)
    ensures
        r == (value matches Some(v) && v@ == "prz"@),
        r == prz_format(match value {
            Some(v) => Some(v@),
            None => None,
        }),
{
    match value {
        Some(v) => *v == String::from_str("prz"),
        None => false,
    }
}

/// Whether a new file is a `.prz` project, from its extension.
pub fn is_prz_extension(extension: Option<&str>) -> (r: bool)
    ensures
        r == (extension matches Some(e) && e@ == "prz"@),
        r == prz_extension(match extension {
            Some(e) => Some(e@),
            None => None,
        }),
{
    match extension {
        Some(e) => String::from_str(e) == String::from_str("prz"),
        None => false,
    }
}

/// The statements that make the tables of a new `.bee` file: items and
/// images, no metadata.
pub open spec fn bee_schema_text() -> Seq<char> {
    r#"
        CREATE TABLE IF NOT EXISTS items (
            id TEXT PRIMARY KEY,
            kind TEXT NOT NULL,
            data BLOB NOT NULL,
            transform TEXT NOT NULL,
            z INTEGER NOT NULL
        );
        CREATE TABLE IF NOT EXISTS sqlar (
            name TEXT PRIMARY KEY,
            sz INTEGER NOT NULL,
            data BLOB NOT NULL
        );
        "#@
}

/// The statements that make the tables of a new `.prz` file: items, images
/// and metadata, with the entries `format = 'prz'` and `version = '3'`.
pub open spec fn prz_schema_text() -> Seq<char> {
    r#"
        CREATE TABLE IF NOT EXISTS items (
            id TEXT PRIMARY KEY,
            kind TEXT NOT NULL,
            data BLOB NOT NULL,
            transform TEXT NOT NULL,
            z INTEGER NOT NULL
        );
        CREATE TABLE IF NOT EXISTS sqlar (
            name TEXT PRIMARY KEY,
            sz INTEGER NOT NULL,
            data BLOB NOT NULL
        );
        CREATE TABLE IF NOT EXISTS metadata (
            key TEXT PRIMARY KEY,
            value TEXT NOT NULL
        );
        INSERT OR REPLACE INTO metadata (key, value) VALUES ('format', 'prz');
        INSERT OR REPLACE INTO metadata (key, value) VALUES ('version', '3');
        "#@
}

/// A new file is a `.prz` project exactly when its extension is `prz`
/// (case-sensitive: `PRZ` is not).
pub open spec fn prz_extension(extension: Option<Seq<char>>) -> bool {
    extension == Some("prz"@)
}

/// A file opens as a `.prz` project exactly when its `format` metadata entry
/// holds `prz`.
pub open spec fn prz_format(value: Option<Seq<char>>) -> bool {
    value == Some("prz"@)
}

/// The `format` metadata value that a new file holds once its tables are
/// made: `prz` for the `.prz` statements (they insert it), none for the
/// `.bee` ones (they make no metadata table).
pub open spec fn created_format_value(is_prz: bool) -> Option<Seq<char>> {
    if is_prz {
        Some("prz"@)
    } else {
        None
    }
}

/// The tables of a new `.bee` file.
pub fn bee_schema() -> (r: &'static str)
    ensures
        r@ == bee_schema_text(),
{
    r#"
        CREATE TABLE IF NOT EXISTS items (
            id TEXT PRIMARY KEY,
            kind TEXT NOT NULL,
            data BLOB NOT NULL,
            transform TEXT NOT NULL,
            z INTEGER NOT NULL
        );
        CREATE TABLE IF NOT EXISTS sqlar (
            name TEXT PRIMARY KEY,
            sz INTEGER NOT NULL,
            data BLOB NOT NULL
        );
        "#
}

/// The tables of a new `.prz` file, with its `format` and `version` entries.
pub fn prz_schema() -> (r: &'static str)
    ensures
        r@ == prz_schema_text(),
{
    r#"
        CREATE TABLE IF NOT EXISTS items (
            id TEXT PRIMARY KEY,
            kind TEXT NOT NULL,
            data BLOB NOT NULL,
            transform TEXT NOT NULL,
            z INTEGER NOT NULL
        );
        CREATE TABLE IF NOT EXISTS sqlar (
            name TEXT PRIMARY KEY,
            sz INTEGER NOT NULL,
            data BLOB NOT NULL
        );
        CREATE TABLE IF NOT EXISTS metadata (
            key TEXT PRIMARY KEY,
            value TEXT NOT NULL
        );
        INSERT OR REPLACE INTO metadata (key, value) VALUES ('format', 'prz');
        INSERT OR REPLACE INTO metadata (key, value) VALUES ('version', '3');
        "#
}

/// What a new file is made with, from its extension: whether it is a `.prz`
/// project, and the statements that make its tables.
pub fn new_file_schema(extension: Option<&str>) -> (r: (bool, &'static str))
    ensures
        r.0 == prz_extension(match extension {
            Some(e) => Some(e@),
            None => None,
        }),
        r.1@ == (if r.0 { prz_schema_text() } else { bee_schema_text() }),
{
    let is_prz = is_prz_extension(extension);
    if is_prz {
        (true, prz_schema())
    } else {
        (false, bee_schema())
    }
}

/// A file made with an extension opens again as the format the extension
/// chose: the `format` value that its new tables hold makes it a `.prz`
/// project exactly when the extension is `prz`.
pub proof fn law_created_file_reopens_as_created(extension: Option<Seq<char>>)
    ensures
        prz_format(created_format_value(prz_extension(extension))) == prz_extension(extension),
{
}

// ───────────────────────── Saving ─────────────────────────

/// The `kind` column of an item row.
pub fn item_kind_str(kind: &ItemKind) -> (r: &'static str)
    ensures
        r@ == (match *kind {
            ItemKind::Pixmap { .. } => "pixmap"@,
            ItemKind::Text { .. } => "text"@,
        }),
{
    match kind {
        ItemKind::Pixmap { .. } => "pixmap",
        ItemKind::Text { .. } => "text",
    }
}

/// The image entry names that the items use: the decimal texture id of each
/// image item, in order.
pub open spec fn texture_names(items: Seq<Item>) -> Seq<Seq<char>>
    decreases items.len(),
{
    if items.len() == 0 {
        Seq::empty()
    } else {
        let rest = texture_names(items.drop_last());
        match items.last().kind {
            ItemKind::Pixmap { texture_id, .. } => rest.push(decimal(texture_id as nat)),
            ItemKind::Text { .. } => rest,
        }
    }
}

/// The live image names are the textures of the image items: every image
/// item's texture id is among them, whatever its crop, opacity or grayscale;
/// each of them is the texture id of some image item; and there is none
/// exactly when no item is an image.
pub proof fn law_live_names_are_the_image_textures(items: Seq<Item>)
    ensures
        forall|k: int| 0 <= k < items.len() && (#[trigger] items[k]).kind is Pixmap
            ==> texture_names(items).contains(decimal(items[k].kind->texture_id as nat)),
        forall|n: Seq<char>| #[trigger] texture_names(items).contains(n) ==> exists|k: int|
            0 <= k < items.len() && (#[trigger] items[k]).kind is Pixmap && n == decimal(items[k].kind->texture_id as nat),
        texture_names(items).len() == 0 <==> forall|k: int| 0 <= k < items.len() ==> (#[trigger] items[k]).kind is Text,
    decreases items.len(),
{
    if items.len() > 0 {
        let rest = items.drop_last();
        law_live_names_are_the_image_textures(rest);
        let rn = texture_names(rest);
        let n = texture_names(items);
        assert forall|k: int| 0 <= k < items.len() && (#[trigger] items[k]).kind is Pixmap
            implies n.contains(decimal(items[k].kind->texture_id as nat)) by {
            if k < rest.len() {
                assert(rest[k] == items[k]);
                let x = decimal(items[k].kind->texture_id as nat);
                assert(rn.contains(x));
                let i = choose|i: int| 0 <= i < rn.len() && rn[i] == x;
                if items.last().kind is Pixmap {
                    assert(n[i] == x);
                }
            } else {
                assert(n[n.len() - 1] == decimal(items[k].kind->texture_id as nat));
            }
        }
        assert forall|x: Seq<char>| #[trigger] n.contains(x) implies exists|k: int|
            0 <= k < items.len() && (#[trigger] items[k]).kind is Pixmap && x == decimal(items[k].kind->texture_id as nat) by {
            let i = choose|i: int| 0 <= i < n.len() && n[i] == x;
            if i < rn.len() {
                assert(rn[i] == n[i]);
                assert(rn.contains(x));
                let k = choose|k: int| 0 <= k < rest.len() && (#[trigger] rest[k]).kind is Pixmap && x == decimal(rest[k].kind->texture_id as nat);
                assert(rest[k] == items[k]);
            } else {
                assert(items[items.len() - 1] == items.last());
            }
        }
        if n.len() == 0 {
            assert forall|k: int| 0 <= k < items.len() implies (#[trigger] items[k]).kind is Text by {
                if items[k].kind is Pixmap {
                    assert(n.contains(decimal(items[k].kind->texture_id as nat)));
                }
            }
        }
        if forall|k: int| 0 <= k < items.len() ==> (#[trigger] items[k]).kind is Text {
            assert(items[items.len() - 1].kind is Text);
            assert forall|k: int| 0 <= k < rest.len() implies (#[trigger] rest[k]).kind is Text by {
                assert(rest[k] == items[k]);
            }
        }
    }
}

/// The image entry names that the scene still uses.
pub fn live_texture_names(scene: &Scene) -> (r: Vec<String>)
    ensures
        texts(r@) == texture_names(scene.items@),
        forall|k: int| 0 <= k < scene.items@.len() && (#[trigger] scene.items@[k]).kind is Pixmap
            ==> texts(r@).contains(decimal(scene.items@[k].kind->texture_id as nat)),
        r@.len() == 0 <==> forall|k: int| 0 <= k < scene.items@.len() ==> (#[trigger] scene.items@[k]).kind is Text,
{
    let mut r: Vec<String> = Vec::new();
    let mut i: usize = 0;
    while i < scene.items.len()
        invariant
            i <= scene.items@.len(),
            texts(r@) == texture_names(scene.items@.take(i as int)),
        decreases scene.items@.len() - i,
    {
        proof {
            assert(scene.items@.take(i as int + 1).drop_last() == scene.items@.take(i as int));
        }
        match &scene.items[i].kind {
            ItemKind::Pixmap { texture_id, .. } => {
                r.push(decimal_text(*texture_id));
            },
            ItemKind::Text { .. } => {},
        }
        i = i + 1;
        proof {
            assert(texts(r@) =~= texture_names(scene.items@.take(i as int)));
        }
    }
    proof {
        assert(scene.items@.take(i as int) == scene.items@);
        law_live_names_are_the_image_textures(scene.items@);
    }
    r
}

fn contains_text(v: &Vec<String>, s: &String) -> (r: bool)
    ensures
        r == texts(v@).contains(s@),
{
    let mut i: usize = 0;
    while i < v.len()
        invariant
            i <= v@.len(),
            forall|j: int| 0 <= j < i ==> v@[j]@ != s@,
        decreases v@.len() - i,
    {
        if v[i] == *s {
            proof {
                assert(texts(v@)[i as int] == s@);
            }
            return true;
        }
        i = i + 1;
    }
    proof {
        assert forall|j: int| 0 <= j < texts(v@).len() implies texts(v@)[j] != s@ by {
            assert(v@[j]@ != s@);
        }
    }
    false
}

/// How a save cleans up the stored images.
#[derive(Debug, Clone, Copy, PartialEq, Eq, Structural)]
pub enum SqlarCleanup {
    /// No image item is left: every stored image goes.
    DeleteAll,
    /// The stored images that no image item uses go ([`orphan_names`]).
    DeleteOrphans,
}

/// `DeleteAll` exactly when the scene uses no image entry.
pub fn sqlar_cleanup(live: &Vec<String>) -> (r: SqlarCleanup)
    ensures
        (r == SqlarCleanup::DeleteAll) == (live@.len() == 0),
{
    if live.len() == 0 {
        SqlarCleanup::DeleteAll
    } else {
        SqlarCleanup::DeleteOrphans
    }
}

/// The stored image entries that no live name matches, in stored order: those
/// a save deletes. Every other stored entry stays.
pub fn orphan_names(live: &Vec<String>, stored: &Vec<String>) -> (r: Vec<String>)
    ensures
        r@ == stored@.filter(|s: String| !texts(live@).contains(s@)),
{
    let ghost p = |s: String| !texts(live@).contains(s@);
    let mut r: Vec<String> = Vec::new();
    let mut i: usize = 0;
    while i < stored.len()
        invariant
            i <= stored@.len(),
            p == (|s: String| !texts(live@).contains(s@)),
            r@ == stored@.take(i as int).filter(p),
        decreases stored@.len() - i,
    {
        proof {
            assert(stored@.take(i as int + 1).drop_last() == stored@.take(i as int));
            reveal(Seq::filter);
        }
        if !contains_text(live, &stored[i]) {
            r.push(stored[i].clone());
        }
        i = i + 1;
    }
    proof {
        assert(stored@.take(i as int) == stored@);
    }
    r
}

/// The views of metadata entries.
pub open spec fn entry_texts(v: Seq<(String, String)>) -> Seq<(Seq<char>, Seq<char>)> {
    v.map_values(|e: (String, String)| (e.0@, e.1@))
}

/// The metadata entries a save writes: none for `.bee`; for `.prz` the
/// viewport (when given) and `next_z`.
pub open spec fn metadata_plan(is_prz: bool, viewport: Option<(Seq<char>, Seq<char>, Seq<char>)>, next_z: int) -> Seq<(Seq<char>, Seq<char>)> {
    if !is_prz {
        Seq::empty()
    } else {
        (match viewport {
            Some(v) => seq![("viewport_pan_x"@, v.0), ("viewport_pan_y"@, v.1), ("viewport_zoom"@, v.2)],
            None => Seq::empty(),
        }) + seq![("next_z"@, signed_decimal(next_z))]
    }
}

/// The metadata entries a save writes, given the viewport's pan and zoom
/// already as text.
pub fn metadata_entries(is_prz: bool, viewport_text: Option<(String, String, String)>, next_z: i32) -> (r: Vec<(String, String)>)
    ensures
        entry_texts(r@) == metadata_plan(
            is_prz,
            match viewport_text {
                Some(v) => Some((v.0@, v.1@, v.2@)),
                None => None,
            },
            next_z as int,
        ),
{
    let mut r: Vec<(String, String)> = Vec::new();
    if !is_prz {
        proof {
            assert(entry_texts(r@) =~= Seq::<(Seq<char>, Seq<char>)>::empty());
        }
        return r;
    }
    let ghost vt = match &viewport_text {
        Some(v) => Some((v.0@, v.1@, v.2@)),
        None => None,
    };
    match viewport_text {
        Some((x, y, z)) => {
            r.push((String::from_str("viewport_pan_x"), x));
            r.push((String::from_str("viewport_pan_y"), y));
            r.push((String::from_str("viewport_zoom"), z));
        },
        None => {},
    }
    r.push((String::from_str("next_z"), signed_decimal_text(next_z)));
    proof {
        assert(entry_texts(r@) =~= metadata_plan(is_prz, vt, next_z as int));
    }
    r
}

// ───────────────────────── Loading ─────────────────────────

/// A kind with the state that is never stored reset: a text note is not being
/// edited and not yet measured.
pub open spec fn runtime_cleared(kind: ItemKind) -> ItemKind {
    match kind {
        ItemKind::Text { content, font_size, color, editing, measured_size } => ItemKind::Text {
            content,
            font_size,
            color,
            editing: false,
            measured_size: None,
        },
        ItemKind::Pixmap { .. } => kind,
    }
}

/// Loading keeps an image kind exactly as stored (its crop, opacity,
/// grayscale, texture, file name and size); of a text note it keeps the
/// content, font size and colour, and only resets the editing state and the
/// measured size.
pub proof fn law_loading_keeps_stored_kind(kind: ItemKind)
    ensures
        kind is Pixmap ==> runtime_cleared(kind) == kind,
        kind is Text ==> {
            &&& runtime_cleared(kind) is Text
            &&& runtime_cleared(kind)->content == kind->content
            &&& runtime_cleared(kind)->font_size == kind->font_size
            &&& runtime_cleared(kind)->color == kind->color
            &&& !runtime_cleared(kind)->editing
            &&& runtime_cleared(kind)->measured_size is None
        },
{
}

/// The item of a stored row, given what its identity text parsed to
/// (`parsed`), the text itself, its decoded kind and transform, and its `z`:
/// an error naming the text where it did not parse.
pub fn item_with_parsed_id(parsed: Option<ItemId>, id_text: &str, kind: ItemKind, transform: Transform, z: i32) -> (r: Result<Item, ProjectError>)
    ensures
        match parsed {
            Some(id) => r == Ok::<Item, ProjectError>(Item { id, kind: runtime_cleared(kind), transform, z }),
            None => r matches Err(ProjectError::InvalidItemId(t)) && t@ == id_text@,
        },
        parsed is Some && kind is Pixmap ==> (r matches Ok(it) && it.kind == kind),
        parsed is Some ==> (r matches Ok(it) && it.transform == transform && it.z == z),
{
    match parsed {
        Some(id) => {
            let mut kind = kind;
            match &mut kind {
                ItemKind::Text { editing, measured_size, .. } => {
                    *editing = false;
                    *measured_size = None;
                },
                ItemKind::Pixmap { .. } => {},
            }
            Ok(Item { id, kind, transform, z })
        },
        None => Err(ProjectError::InvalidItemId(String::from_str(id_text))),
    }
}

/// The item of a stored row, from its identity text, its decoded kind and
/// transform, and its `z`. The identity text written by a save (see
/// `item_id_text`) gives back the same identity.
pub fn item_from_row(id_text: &str, kind: ItemKind, transform: Transform, z: i32) -> (r: Result<Item, ProjectError>)
    ensures
        match spec_parse_uuid(id_text@) {
            Some(id) => r == Ok::<Item, ProjectError>(Item { id, kind: runtime_cleared(kind), transform, z }),
            None => r matches Err(ProjectError::InvalidItemId(t)) && t@ == id_text@,
        },
        forall|id: u128| id_text@ == uuid_text(id) ==> (r matches Ok(it) && it.id == id),
        spec_parse_uuid(id_text@) is Some && kind is Pixmap ==> (r matches Ok(it) && it.kind == kind),
{
    item_with_parsed_id(parse_item_id(id_text), id_text, kind, transform, z)
}

/// The value of the last entry with key `key` (later entries replace earlier ones).
pub open spec fn last_value(rows: Seq<(Seq<char>, Seq<char>)>, key: Seq<char>) -> Option<Seq<char>>
    decreases rows.len(),
{
    if rows.len() == 0 {
        None
    } else if rows.last().0 == key {
        Some(rows.last().1)
    } else {
        last_value(rows.drop_last(), key)
    }
}

/// Reading metadata entries: no entry gives nothing; an entry added for a
/// key is what that key then reads (it replaces an earlier one), and it
/// leaves every other key as it read before.
pub proof fn law_later_entry_replaces(rows: Seq<(Seq<char>, Seq<char>)>, key: Seq<char>, value: Seq<char>, other: Seq<char>)
    ensures
        last_value(Seq::empty(), key) is None,
        last_value(rows.push((key, value)), key) == Some(value),
        other != key ==> last_value(rows.push((key, value)), other) == last_value(rows, other),
{
    assert(rows.push((key, value)).drop_last() == rows);
}

fn last_value_of(rows: &Vec<(String, String)>, key: &String) -> (r: Option<String>)
    ensures
        match last_value(entry_texts(rows@), key@) {
            Some(v) => r matches Some(s) && s@ == v,
            None => r is None,
        },
{
    let ghost all = entry_texts(rows@);
    let mut i: usize = rows.len();
    proof {
        assert(all.take(i as int) == all);
    }
    while i > 0
        invariant
            i <= rows@.len(),
            all == entry_texts(rows@),
            last_value(all, key@) == last_value(all.take(i as int), key@),
        decreases i,
    {
        proof {
            assert(all.take(i as int).drop_last() == all.take(i as int - 1));
        }
        if rows[i - 1].0 == *key {
            return Some(rows[i - 1].1.clone());
        }
        i = i - 1;
    }
    None
}

/// The viewport's pan x, pan y and zoom texts among the metadata entries, when
/// all three are there.
pub fn viewport_fields(rows: &Vec<(String, String)>) -> (r: Option<(String, String, String)>)
    ensures
        match (
            last_value(entry_texts(rows@), "viewport_pan_x"@),
            last_value(entry_texts(rows@), "viewport_pan_y"@),
            last_value(entry_texts(rows@), "viewport_zoom"@),
        ) {
            (Some(x), Some(y), Some(z)) => r matches Some(t) && t.0@ == x && t.1@ == y && t.2@ == z,
            _ => r is None,
        },
{
    let x = last_value_of(rows, &String::from_str("viewport_pan_x"));
    let y = last_value_of(rows, &String::from_str("viewport_pan_y"));
    let z = last_value_of(rows, &String::from_str("viewport_zoom"));
    match (x, y, z) {
        (Some(x), Some(y), Some(z)) => Some((x, y, z)),
        _ => None,
    }
}

/// What a save writes to the metadata reads back on load: in a `.prz` file
/// the viewport's pan and zoom texts are found again under their keys, and
/// `next_z` under its key as its decimal text; without a viewport no viewport
/// entry is written; a `.bee` file gets no entry at all.
pub proof fn law_metadata_reads_back(viewport: Option<(Seq<char>, Seq<char>, Seq<char>)>, next_z: int)
    ensures
        metadata_plan(false, viewport, next_z).len() == 0,
        last_value(metadata_plan(true, viewport, next_z), "next_z"@) == Some(signed_decimal(next_z)),
        viewport matches Some(v) ==> {
            &&& last_value(metadata_plan(true, viewport, next_z), "viewport_pan_x"@) == Some(v.0)
            &&& last_value(metadata_plan(true, viewport, next_z), "viewport_pan_y"@) == Some(v.1)
            &&& last_value(metadata_plan(true, viewport, next_z), "viewport_zoom"@) == Some(v.2)
        },
        viewport is None ==> {
            &&& last_value(metadata_plan(true, viewport, next_z), "viewport_pan_x"@) is None
            &&& last_value(metadata_plan(true, viewport, next_z), "viewport_pan_y"@) is None
            &&& last_value(metadata_plan(true, viewport, next_z), "viewport_zoom"@) is None
        },
{
    reveal_strlit("next_z");
    reveal_strlit("viewport_pan_x");
    reveal_strlit("viewport_pan_y");
    reveal_strlit("viewport_zoom");
    reveal_with_fuel(last_value, 5);
    let plan = metadata_plan(true, viewport, next_z);
    let nz = ("next_z"@, signed_decimal(next_z));
    assert("next_z"@ != "viewport_pan_x"@) by { assert("next_z"@[0] != "viewport_pan_x"@[0]); }
    assert("next_z"@ != "viewport_pan_y"@) by { assert("next_z"@[0] != "viewport_pan_y"@[0]); }
    assert("next_z"@ != "viewport_zoom"@) by { assert("next_z"@[0] != "viewport_zoom"@[0]); }
    assert("viewport_pan_x"@ != "viewport_pan_y"@) by { assert("viewport_pan_x"@[13] != "viewport_pan_y"@[13]); }
    assert("viewport_pan_x"@ != "viewport_zoom"@) by { assert("viewport_pan_x"@[9] != "viewport_zoom"@[9]); }
    assert("viewport_pan_y"@ != "viewport_zoom"@) by { assert("viewport_pan_y"@[9] != "viewport_zoom"@[9]); }
    match viewport {
        Some(v) => {
            let a = seq![("viewport_pan_x"@, v.0), ("viewport_pan_y"@, v.1), ("viewport_zoom"@, v.2)];
            assert(plan == a.push(nz));
            assert(plan.drop_last() == a);
            assert(a.drop_last() == seq![("viewport_pan_x"@, v.0), ("viewport_pan_y"@, v.1)]);
            assert(a.drop_last().drop_last() == seq![("viewport_pan_x"@, v.0)]);
            assert(a.drop_last().drop_last().drop_last() == Seq::<(Seq<char>, Seq<char>)>::empty());
        },
        None => {
            assert(plan == seq![nz]);
            assert(plan.drop_last() == Seq::<(Seq<char>, Seq<char>)>::empty());
        },
    }
}

} // verus!
