//! SQL text of the project file format (`items`, `metadata` and `sqlar` tables)
//! and its version numbers.

use vstd::prelude::*;

verus! {

/// `user_version` of the current format.
pub const USER_VERSION: u32 = 3;

/// `user_version` of the `.bee` format.
pub const BEE_SCHEMA_VERSION: u32 = 2;

/// `user_version` of the `.prz` format.
pub const PRZ_SCHEMA_VERSION: u32 = 3;

/// Creates every table that either format uses.
pub fn create_schema() -> (r: &'static str)
    ensures
        r@ == r#"
    -- Items table
    CREATE TABLE IF NOT EXISTS items (
        id TEXT PRIMARY KEY,
        kind TEXT NOT NULL,
        data BLOB NOT NULL,
        transform TEXT NOT NULL,
        z INTEGER NOT NULL
    );

    -- For .prz format (USER_VERSION >= 3)
    CREATE TABLE IF NOT EXISTS metadata (
        key TEXT PRIMARY KEY,
        value TEXT NOT NULL
    );

    -- For .bee format (USER_VERSION = 2)
    CREATE TABLE IF NOT EXISTS sqlar (
        name TEXT PRIMARY KEY,
        sz INTEGER NOT NULL,
        data BLOB NOT NULL
    );
    "#@,
{
    r#"
    -- Items table
    CREATE TABLE IF NOT EXISTS items (
        id TEXT PRIMARY KEY,
        kind TEXT NOT NULL,
        data BLOB NOT NULL,
        transform TEXT NOT NULL,
        z INTEGER NOT NULL
    );

    -- For .prz format (USER_VERSION >= 3)
    CREATE TABLE IF NOT EXISTS metadata (
        key TEXT PRIMARY KEY,
        value TEXT NOT NULL
    );

    -- For .bee format (USER_VERSION = 2)
    CREATE TABLE IF NOT EXISTS sqlar (
        name TEXT PRIMARY KEY,
        sz INTEGER NOT NULL,
        data BLOB NOT NULL
    );
    "#
}

/// Inserts or replaces one item row.
pub fn insert_item_query() -> (r: &'static str)
    ensures
        r@ == "INSERT OR REPLACE INTO items (id, kind, data, transform, z) VALUES (?, ?, ?, ?, ?)"@,
{
    "INSERT OR REPLACE INTO items (id, kind, data, transform, z) VALUES (?, ?, ?, ?, ?)"
}

/// Reads every item row, bottom to top.
pub fn select_all_items_query() -> (r: &'static str)
    ensures
        r@ == "SELECT id, kind, data, transform, z FROM items ORDER BY z"@,
{
    "SELECT id, kind, data, transform, z FROM items ORDER BY z"
}

/// Deletes one item row.
pub fn delete_item_query() -> (r: &'static str)
    ensures
        r@ == "DELETE FROM items WHERE id = ?"@,
{
    "DELETE FROM items WHERE id = ?"
}

/// Inserts or replaces one metadata entry.
pub fn insert_metadata_query() -> (r: &'static str)
    ensures
        r@ == "INSERT OR REPLACE INTO metadata (key, value) VALUES (?, ?)"@,
{
    "INSERT OR REPLACE INTO metadata (key, value) VALUES (?, ?)"
}

/// Reads every metadata entry.
pub fn select_metadata_query() -> (r: &'static str)
    ensures
        r@ == "SELECT key, value FROM metadata"@,
{
    "SELECT key, value FROM metadata"
}

} // verus!
