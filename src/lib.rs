//! A local catalogue of short reusable text items (notes, prompts, snippets,
//! FAQs): a self-seeding store with recency listing and substring search.
//!
//! The store keeps its records in memory; a host persists them. Tags are kept
//! in their persisted text form and decoded when an item is handed out.

mod clock;
mod codec;
mod corpus;
mod item;
mod laws;
mod matching;
mod store;

pub use clock::{current_ts, lemma_timestamp_monotone, timestamp_of, timestamp_spec};
pub use codec::{
    decode_legacy, decode_tags, decoded_tags, encode_tags, json_tags, keep_trimmed, legacy_tags,
    read_tags, split_commas, tags_json, trim_end_of, trim_of, trim_start_of, is_white_space, TagsRead,
};
pub use corpus::{demo_corpus, demo_items, seed_count, seed_view, seeds_view, SeedItem, SeedView};
pub use item::{
    item_of, items_view, map_row, records_view, ItemRecord, ItemView, LibraryItem, RecordView,
    SeedResult,
};
pub use laws::{
    lemma_by_recency_len, lemma_by_recency_permutes, lemma_increasing_reversed, lemma_pages_join, lemma_seed_once,
    lemma_seeded_ids_unique, lemma_seeded_newest_first, newest_first, recency_slot, contains_folded, lemma_plain_query_matches,
    occurs_at, wildcard_free,
};
pub use matching::{
    chars_of, fold_code, like_at, like_match, like_pattern, same_letter, same_letter_spec,
};
pub use store::{
    by_recency, found, ids_unique, insert_by_recency, lemma_insert_at, ladder_time, limit_or_default, list_library,
    matching, page, page_records, page_start, query_text, record_matches, reseed_library,
    search_library, seed_outcome, seed_time_fits, seeded, shares_no_corpus_id, take_limit, Library,
};
