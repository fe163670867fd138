//! Items: the record as the store keeps it, and the item as callers see it.

use vstd::prelude::*;

use crate::codec::{decode_tags, decoded_tags, tags_json};

verus! {

/// An item as the store keeps it; its tags are in their persisted text form.
pub struct ItemRecord {
    pub id: String,
    pub title: String,
    pub body: String,
    pub item_type: String,
    pub source: String,
    pub tags: String,
    pub created_at: i64,
    pub updated_at: i64,
    pub version: i64,
}

/// An item as callers see it, with its tags as a list.
#[derive(Debug, PartialEq, Eq)]
pub struct LibraryItem {
    pub id: String,
    pub title: String,
    pub body: String,
    pub item_type: String,
    pub source: String,
    pub tags: Vec<String>,
    pub created_at: i64,
    pub updated_at: i64,
    pub version: i64,
}

/// How many items a seeding wrote, and how many it found already there.
#[derive(Debug, Clone, Copy, PartialEq, Eq, Structural)]
pub struct SeedResult {
    pub inserted: usize,
    pub skipped: usize,
}

pub struct RecordView {
    pub id: Seq<char>,
    pub title: Seq<char>,
    pub body: Seq<char>,
    pub item_type: Seq<char>,
    pub source: Seq<char>,
    pub tags: Seq<char>,
    pub created_at: int,
    pub updated_at: int,
    pub version: int,
}

pub struct ItemView {
    pub id: Seq<char>,
    pub title: Seq<char>,
    pub body: Seq<char>,
    pub item_type: Seq<char>,
    pub source: Seq<char>,
    pub tags: Seq<Seq<char>>,
    pub created_at: int,
    pub updated_at: int,
    pub version: int,
}

impl View for ItemRecord {
    type V = RecordView;

    open spec fn view(&self) -> RecordView {
        RecordView {
            id: self.id@,
            title: self.title@,
            body: self.body@,
            item_type: self.item_type@,
            source: self.source@,
            tags: self.tags@,
            created_at: self.created_at as int,
            updated_at: self.updated_at as int,
            version: self.version as int,
        }
    }
}

impl View for LibraryItem {
    type V = ItemView;

    open spec fn view(&self) -> ItemView {
        ItemView {
            id: self.id@,
            title: self.title@,
            body: self.body@,
            item_type: self.item_type@,
            source: self.source@,
            tags: self.tags.deep_view(),
            created_at: self.created_at as int,
            updated_at: self.updated_at as int,
            version: self.version as int,
        }
    }
}

/// The views of a list of records.
pub open spec fn records_view(v: Seq<ItemRecord>) -> Seq<RecordView> {
    v.map_values(|r: ItemRecord| r@)
}

/// The views of a list of items.
pub open spec fn items_view(v: Seq<LibraryItem>) -> Seq<ItemView> {
    v.map_values(|r: LibraryItem| r@)
}

/// The item that a record stands for: its tags decoded, every other field
/// as it is.
pub open spec fn item_of(r: RecordView) -> ItemView {
    ItemView {
        id: r.id,
        title: r.title,
        body: r.body,
        item_type: r.item_type,
        source: r.source,
        tags: decoded_tags(r.tags),
        created_at: r.created_at,
        updated_at: r.updated_at,
        version: r.version,
    }
}

impl ItemRecord {
    /// A copy of the record.
    pub fn duplicate(&self) -> (r: ItemRecord)
        ensures
            r@ == self@,
    {
        ItemRecord {
            id: self.id.clone(),
            title: self.title.clone(),
            body: self.body.clone(),
            item_type: self.item_type.clone(),
            source: self.source.clone(),
            tags: self.tags.clone(),
            created_at: self.created_at,
            updated_at: self.updated_at,
            version: self.version,
        }
    }
}

/// The item that a stored record stands for, its tags decoded.
pub fn map_row(rec: &ItemRecord) -> (r: LibraryItem)
    ensures
        r@ == item_of(rec@),
        forall|t: Seq<Seq<char>>| #[trigger] tags_json(t) == rec.tags@ ==> r@.tags == t,
{
    LibraryItem {
        id: rec.id.clone(),
        title: rec.title.clone(),
        body: rec.body.clone(),
        item_type: rec.item_type.clone(),
        source: rec.source.clone(),
        tags: decode_tags(rec.tags.as_str()),
        created_at: rec.created_at,
        updated_at: rec.updated_at,
        version: rec.version,
    }
}

} // verus!
