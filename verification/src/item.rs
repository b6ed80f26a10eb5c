//! Canvas items: images ("pixmaps") and text notes.

use vstd::prelude::*;

use crate::spaces::{Scalar, ONE_BITS};
use crate::transform::{new_transform, Transform};

verus! {

/// An item's identity: the 128-bit value of a UUID.
pub type ItemId = u128;

/// Item-local coordinate space: origin at the item's `transform.pos`, the
/// item's top-left corner before rotation and scaling.
#[derive(Debug, Clone, Copy, PartialEq, Eq, Default)]
pub struct ItemLocalSpace;

/// A crop rectangle in the item's local (unscaled) pixel space.
#[derive(Debug, Clone, Copy)]
pub struct CropRect {
    pub x: Scalar,
    pub y: Scalar,
    pub width: Scalar,
    pub height: Scalar,
}

#[derive(Debug)]
pub enum ItemKind {
    Pixmap {
        texture_id: u64,
        filename: Option<String>,
        original_size: (u32, u32),
        opacity: Scalar,
        grayscale: bool,
        crop: Option<CropRect>,
    },
    Text {
        content: String,
        font_size: Scalar,
        /// RGBA
        color: [u8; 4],
        editing: bool,
        /// Text extent measured by the UI layer (canvas pixels); `None` until
        /// measured.
        measured_size: Option<(Scalar, Scalar)>,
    },
}

impl Clone for ItemKind {
    /// A copy equal to the original in every field.
    fn clone(&self) -> (r: Self)
        ensures
            r == *self,
    {
        match self {
            ItemKind::Pixmap { texture_id, filename, original_size, opacity, grayscale, crop } => {
                let filename = match filename {
                    Some(name) => Some(name.clone()),
                    None => None,
                };
                ItemKind::Pixmap {
                    texture_id: *texture_id,
                    filename,
                    original_size: *original_size,
                    opacity: *opacity,
                    grayscale: *grayscale,
                    crop: *crop,
                }
            },
            ItemKind::Text { content, font_size, color, editing, measured_size } => {
                ItemKind::Text {
                    content: content.clone(),
                    font_size: *font_size,
                    color: *color,
                    editing: *editing,
                    measured_size: *measured_size,
                }
            },
        }
    }
}

#[derive(Debug)]
pub struct Item {
    pub id: ItemId,
    pub kind: ItemKind,
    pub transform: Transform,
    pub z: i32,
}

impl Clone for Item {
    /// A copy equal to the original in every field.
    fn clone(&self) -> (r: Self)
        ensures
            r == *self,
    {
        Item { id: self.id, kind: self.kind.clone(), transform: self.transform, z: self.z }
    }
}

/// The version nibble of a random (version 4) UUID, as the 128-bit value holds it.
pub open spec fn uuid_version(id: u128) -> u128 {
    (id >> 76u128) & 0xfu128
}

/// The two variant bits of a UUID, as the 128-bit value holds them.
pub open spec fn uuid_variant(id: u128) -> u128 {
    (id >> 62u128) & 0x3u128
}

/// A fresh random identity.
///
/// Calls `uuid::Uuid::new_v4` and hands back `Uuid::as_u128` of it. The value
/// is random; the contract states only what the crate's source fixes of every
/// outcome: the version nibble is 4 and the variant bits are `10`.
#[verifier::external_body]
fn fresh_item_id() -> (id: ItemId)
    ensures
        uuid_version(id) == 4,
        uuid_variant(id) == 2,
{
    uuid::Uuid::new_v4().as_u128()
}

impl Item {
    /// A new image item with a fresh random id, full opacity, no grayscale,
    /// no crop, the given position and scale, and `z == 0`.
    pub fn new_pixmap(
        texture_id: u64,
        filename: Option<String>,
        original_size: (u32, u32),
        pos_x: Scalar,
        pos_y: Scalar,
        scale_x: Scalar,
        scale_y: Scalar,
    ) -> (r: Self)
        ensures
            uuid_version(r.id) == 4,
            uuid_variant(r.id) == 2,
            r.kind == (ItemKind::Pixmap {
                texture_id,
                filename,
                original_size,
                opacity: Scalar { bits: ONE_BITS },
                grayscale: false,
                crop: None,
            }),
            r.transform == new_transform(pos_x, pos_y, scale_x, scale_y),
            r.z == 0,
    {
        Item {
            id: fresh_item_id(),
            kind: ItemKind::Pixmap {
                texture_id,
                filename,
                original_size,
                opacity: Scalar::one(),
                grayscale: false,
                crop: None,
            },
            transform: Transform::new(pos_x, pos_y, scale_x, scale_y),
            z: 0,
        }
    }

    /// A new text note with a fresh random id, not being edited and not yet
    /// measured, at the given position with unit scale, and `z == 0`.
    pub fn new_text(content: String, pos_x: Scalar, pos_y: Scalar, font_size: Scalar, color: [u8; 4]) -> (r: Self)
        ensures
            uuid_version(r.id) == 4,
            uuid_variant(r.id) == 2,
            r.kind == (ItemKind::Text { content, font_size, color, editing: false, measured_size: None }),
            r.transform == new_transform(pos_x, pos_y, Scalar { bits: ONE_BITS }, Scalar { bits: ONE_BITS }),
            r.z == 0,
    {
        Item {
            id: fresh_item_id(),
            kind: ItemKind::Text { content, font_size, color, editing: false, measured_size: None },
            transform: Transform::new(pos_x, pos_y, Scalar::one(), Scalar::one()),
            z: 0,
        }
    }
}


/// A hexadecimal digit, lower case.
pub open spec fn hex_digit(n: u128) -> char {
    if n == 0 { '0' } else if n == 1 { '1' } else if n == 2 { '2' } else if n == 3 { '3' }
    else if n == 4 { '4' } else if n == 5 { '5' } else if n == 6 { '6' } else if n == 7 { '7' }
    else if n == 8 { '8' } else if n == 9 { '9' } else if n == 10 { 'a' } else if n == 11 { 'b' }
    else if n == 12 { 'c' } else if n == 13 { 'd' } else if n == 14 { 'e' } else { 'f' }
}

/// The `i`-th hexadecimal digit of `id`, from the most significant one.
pub open spec fn nibble(id: u128, i: int) -> u128 {
    (id >> ((4 * (31 - i)) as u128)) & 0xfu128
}

/// The number of hyphens before position `p` of a hyphenated UUID text.
pub open spec fn hyphens_before(p: int) -> int {
    if p < 8 { 0 } else if p < 13 { 1 } else if p < 18 { 2 } else if p < 23 { 3 } else { 4 }
}

/// The hyphenated text of a UUID: 32 lower-case hexadecimal digits, most
/// significant first, in groups of 8, 4, 4, 4 and 12 separated by hyphens.
pub open spec fn uuid_text(id: u128) -> Seq<char> {
    Seq::new(36, |p: int| if p == 8 || p == 13 || p == 18 || p == 23 { '-' } else { hex_digit(nibble(id, p - hyphens_before(p))) })
}

/// The hyphenated text of a UUID value.
///
/// Calls `uuid::Uuid::from_u128(id).to_string()`, whose `Display` writes the
/// hyphenated lower-case form; the contract states that form.
#[verifier::external_body]
fn hyphenated_uuid(id: u128) -> (s: String)
    ensures
        s@ == uuid_text(id),
{
    uuid::Uuid::from_u128(id).to_string()
}

/// The text form of an item identity, as the project file stores it: the
/// hyphenated lower-case UUID text.
pub fn item_id_text(id: ItemId) -> (s: String)
    ensures
        s@ == uuid_text(id),
{
    hyphenated_uuid(id)
}

/// What `uuid::Uuid::parse_str` gives for a text, as a 128-bit value.
pub uninterp spec fn spec_parse_uuid(text: Seq<char>) -> Option<u128>;

/// Parses an item identity.
///
/// Calls `uuid::Uuid::parse_str` and hands back `Uuid::as_u128` of the result,
/// `None` on a parse error. The accepted forms (simple, hyphenated, braced,
/// URN, either case) are left to the name `spec_parse_uuid`; the contract
/// states in addition that the hyphenated lower-case text of a value parses
/// back to that value.
#[verifier::external_body]
pub(crate) fn parse_item_id(text: &str) -> (r: Option<ItemId>)
    ensures
        r == spec_parse_uuid(text@),
        forall|id: u128| text@ == uuid_text(id) ==> r == Some(id),
{
    match uuid::Uuid::parse_str(text) {
        Ok(u) => Some(u.as_u128()),
        Err(_) => None,
    }
}

/// The identity that an id text stands for, `None` where the text is not a
/// UUID. The text that `item_id_text` writes gives back its identity.
pub fn item_id_from_text(text: &str) -> (r: Option<ItemId>)
    ensures
        r == spec_parse_uuid(text@),
        forall|id: u128| text@ == uuid_text(id) ==> r == Some(id),
{
    parse_item_id(text)
}

} // verus!
