//! The `items` resource: a placeholder with no persistence behind it.
//! Only its wire shapes live here; no handler stores or reads items.

use vstd::prelude::*;

verus! {

/// A stored item, were the resource ever backed by storage.
#[derive(Debug)]
pub struct Item {
    pub id: i32,
    pub title: String,
    pub description: Option<String>,
    pub status: String,
    pub created_at: i64,
    pub updated_at: i64,
}

/// A request to create an item.
#[derive(Debug)]
pub struct CreateItemRequest {
    pub title: String,
    pub description: Option<String>,
}

/// A request to update an item; absent fields are left as they were.
#[derive(Debug)]
pub struct UpdateItemRequest {
    pub title: Option<String>,
    pub description: Option<String>,
    pub status: Option<String>,
}

/// The wire shape of an item.
#[derive(Debug)]
pub struct ItemResponse {
    pub id: i32,
    pub title: String,
    pub description: Option<String>,
    pub status: String,
    pub created_at: i64,
    pub updated_at: i64,
}

} // verus!
