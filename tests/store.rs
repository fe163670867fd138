use item_library::{
    current_ts, timestamp_of, decode_legacy, decode_tags, demo_items, encode_tags, like_match, list_library,
    map_row, read_tags, reseed_library, search_library, TagsRead, ItemRecord, Library, LibraryItem, SeedResult,
};

fn rec(id: &str, title: &str, body: &str, tags: &str, ts: i64) -> ItemRecord {
    ItemRecord {
        id: id.to_string(),
        title: title.to_string(),
        body: body.to_string(),
        item_type: "note".to_string(),
        source: "test".to_string(),
        tags: tags.to_string(),
        created_at: ts,
        updated_at: ts,
        version: 1,
    }
}

fn ids(items: &[LibraryItem]) -> Vec<String> {
    items.iter().map(|i| i.id.clone()).collect()
}

fn four_items() -> Library {
    Library::from_records(vec![
        rec("b", "Beta", "second", "[]", 200),
        rec("d", "Delta", "fourth", "[]", 400),
        rec("a", "Alpha", "first", "[]", 100),
        rec("c", "Gamma", "third", "[]", 300),
    ])
    .unwrap()
}

const NOW: i64 = 1_700_000_000;

#[test]
fn tag_round_trip_keeps_embedded_comma() {
    let tags = vec!["a".to_string(), "b,c".to_string()];
    let text = encode_tags(&tags);
    assert_eq!(text, "[\"a\",\"b,c\"]");
    assert_eq!(decode_tags(&text), tags);
}

#[test]
fn legacy_tags_split_trim_and_drop_empty() {
    assert_eq!(decode_tags("a, b,,c ,"), vec!["a", "b", "c"]);
    assert_eq!(decode_legacy("x,y"), vec!["x", "y"]);
    assert_eq!(decode_legacy(""), Vec::<String>::new());
    assert_eq!(decode_legacy("  "), Vec::<String>::new());
}

#[test]
fn legacy_path_splits_a_tag_with_a_comma() {
    assert_eq!(decode_legacy("a,b,c"), vec!["a", "b", "c"]);
    assert_eq!(decode_tags("[\"b,c\"]"), vec!["b,c"]);
}

#[test]
fn map_row_decodes_tags_and_copies_fields() {
    let item = map_row(&rec("x", "Title", "Body", "[\"p\",\"q\"]", 42));
    assert_eq!(item.id, "x");
    assert_eq!(item.title, "Title");
    assert_eq!(item.body, "Body");
    assert_eq!(item.item_type, "note");
    assert_eq!(item.source, "test");
    assert_eq!(item.tags, vec!["p", "q"]);
    assert_eq!(item.created_at, 42);
    assert_eq!(item.updated_at, 42);
    assert_eq!(item.version, 1);
    let legacy = map_row(&rec("y", "T", "B", "one, two", 1));
    assert_eq!(legacy.tags, vec!["one", "two"]);
}

#[test]
fn seed_once() {
    let mut lib = Library::new();
    assert_eq!(lib.seed_if_empty_at(NOW), SeedResult { inserted: 10, skipped: 0 });
    assert_eq!(lib.seed_if_empty_at(NOW + 5), SeedResult { inserted: 0, skipped: 10 });
    assert_eq!(lib.len(), 10);
    assert_eq!(lib.seed_if_empty(), SeedResult { inserted: 0, skipped: 10 });
    let mut fresh = Library::new();
    assert_eq!(fresh.seed_if_empty(), SeedResult { inserted: 10, skipped: 0 });
}

#[test]
fn seeded_list_is_reverse_of_corpus_order() {
    let mut lib = Library::new();
    lib.seed_if_empty_at(NOW);
    let listed = lib.list(10, 0);
    let mut expected: Vec<String> = demo_items().iter().map(|s| s.id.clone()).collect();
    expected.reverse();
    assert_eq!(ids(&listed), expected);
    assert_eq!(listed[0].id, "snippet-sqlite");
    assert_eq!(listed[0].updated_at, NOW);
    assert_eq!(listed[9].id, "doc-onboarding");
    assert_eq!(listed[9].created_at, NOW - 9 * 3600);
    assert_eq!(listed[9].tags, vec!["onboarding", "people"]);
    assert_eq!(listed[0].version, 1);
    assert_eq!(listed[0].source, "dummy");
}

#[test]
fn search_empty_equals_list() {
    let mut lib = Library::new();
    lib.seed_if_empty_at(NOW);
    assert_eq!(lib.search("", 4), lib.list(4, 0));
    assert_eq!(lib.search("   ", 3), lib.list(3, 0));
    assert_eq!(four_items().search("", 20), four_items().list(20, 0));
}

#[test]
fn substring_match_finds_only_security_faq() {
    let lib = Library::from_records(vec![
        rec("faq-security", "Security FAQ", "Data residency.", "[\"policy\"]", 10),
        rec("other", "Weekly Sync", "Decisions and owners.", "[\"ops\"]", 20),
        rec("third", "Notes", "Nothing here.", "[]", 30),
    ])
    .unwrap();
    let found = lib.search("secur", 10);
    assert_eq!(ids(&found), vec!["faq-security"]);
}

#[test]
fn search_trims_and_ignores_ascii_case() {
    let lib = four_items();
    assert_eq!(ids(&lib.search("  ALPHA  ", 10)), vec!["a"]);
    assert_eq!(ids(&lib.search("eLtA", 10)), vec!["d"]);
    assert_eq!(ids(&lib.search_trimmed(" alpha", 10)), Vec::<String>::new());
}

#[test]
fn search_matches_tags_text_and_orders_by_recency() {
    let lib = Library::from_records(vec![
        rec("old", "One", "x", "[\"shared\"]", 1),
        rec("new", "Two", "y", "[\"shared\"]", 5),
        rec("mid", "Three", "shared body", "[]", 3),
    ])
    .unwrap();
    assert_eq!(ids(&lib.search("shared", 10)), vec!["new", "mid", "old"]);
    assert_eq!(ids(&lib.search("shared", 2)), vec!["new", "mid"]);
    assert_eq!(ids(&lib.search("shared", -1)), vec!["new", "mid", "old"]);
    assert_eq!(ids(&lib.search("shared", 0)), Vec::<String>::new());
}

#[test]
fn search_wildcards_act_as_patterns() {
    let lib = Library::from_records(vec![
        rec("faq", "Security FAQ", "b", "[]", 1),
        rec("qa", "QA Checklist", "c", "[]", 2),
    ])
    .unwrap();
    assert_eq!(ids(&lib.search("S%FAQ", 10)), vec!["faq"]);
    assert_eq!(ids(&lib.search("Q_", 10)), vec!["qa"]);
    assert_eq!(ids(&lib.search("%", 10)), vec!["qa", "faq"]);
}

#[test]
fn seeded_search_for_secur() {
    let mut lib = Library::new();
    lib.seed_if_empty_at(NOW);
    assert_eq!(
        ids(&lib.search("secur", 10)),
        vec!["faq-security", "prompt-code-review"]
    );
}

#[test]
fn reseed_counts() {
    let mut lib = four_items();
    assert_eq!(lib.reseed_at(NOW), SeedResult { inserted: 10, skipped: 0 });
    assert_eq!(lib.len(), 10);
    let listed = lib.list(-1, 0);
    assert_eq!(listed.len(), 10);
    assert_eq!(listed[0].updated_at, NOW);
    assert!(listed.iter().all(|i| i.source == "dummy"));
    let before = current_ts();
    assert_eq!(lib.reseed(), SeedResult { inserted: 10, skipped: 0 });
    let newest = lib.list(1, 0);
    assert!(newest[0].updated_at >= before);
}

#[test]
fn pagination_splits_without_overlap() {
    let lib = four_items();
    let mut joined = lib.list(2, 0);
    joined.extend(lib.list(2, 2));
    assert_eq!(joined, lib.list(4, 0));
    assert_eq!(ids(&joined), vec!["d", "c", "b", "a"]);
}

#[test]
fn list_bounds() {
    let lib = four_items();
    assert_eq!(ids(&lib.list(-1, 0)), vec!["d", "c", "b", "a"]);
    assert_eq!(ids(&lib.list(2, -3)), vec!["d", "c"]);
    assert_eq!(ids(&lib.list(10, 3)), vec!["a"]);
    assert!(lib.list(10, 4).is_empty());
    assert!(lib.list(10, 100).is_empty());
    assert!(lib.list(0, 0).is_empty());
    assert!(Library::new().list(5, 0).is_empty());
}

#[test]
fn equal_times_keep_stored_order() {
    let lib = Library::from_records(vec![
        rec("first", "A", "a", "[]", 7),
        rec("second", "B", "b", "[]", 7),
        rec("newer", "C", "c", "[]", 8),
    ])
    .unwrap();
    assert_eq!(ids(&lib.list(10, 0)), vec!["newer", "first", "second"]);
}

#[test]
fn commands_apply_defaults() {
    let mut lib = Library::new();
    assert_eq!(reseed_library(&mut lib), SeedResult { inserted: 10, skipped: 0 });
    assert_eq!(list_library(&lib, None, None), lib.list(20, 0));
    assert_eq!(list_library(&lib, Some(3), Some(1)), lib.list(3, 1));
    assert_eq!(search_library(&lib, None, None), lib.list(20, 0));
    assert_eq!(search_library(&lib, Some("qa".to_string()), Some(5)), lib.search("qa", 5));
}

#[test]
fn like_match_values() {
    let p: Vec<char> = "%ab%".chars().collect();
    assert!(like_match(&p, &"xxABy".chars().collect()));
    assert!(!like_match(&p, &"a b".chars().collect()));
    let exact: Vec<char> = "a_c".chars().collect();
    assert!(like_match(&exact, &"abc".chars().collect()));
    assert!(!like_match(&exact, &"abcd".chars().collect()));
    assert!(like_match(&Vec::new(), &Vec::new()));
}

#[test]
fn clock_is_past_the_epoch() {
    assert!(current_ts() > 1_600_000_000);
}

#[test]
fn demo_corpus_has_ten_entries() {
    let seeds = demo_items();
    assert_eq!(seeds.len(), 10);
    assert_eq!(seeds[3].title, "Security FAQ");
    assert_eq!(seeds[1].tags, vec!["prompt", "code", "quality"]);
}

#[test]
fn duplicate_ids_are_refused() {
    let dup = Library::from_records(vec![
        rec("same", "One", "a", "[]", 1),
        rec("other", "Two", "b", "[]", 2),
        rec("same", "Three", "c", "[]", 3),
    ]);
    assert!(dup.is_err());
    assert!(Library::from_records(Vec::new()).is_ok());
}

#[test]
fn read_tags_names_the_reading() {
    match read_tags("[\"a\",\"b,c\"]") {
        TagsRead::Structured(v) => assert_eq!(v, vec!["a", "b,c"]),
        TagsRead::Legacy(_) => panic!("a JSON array takes the structured reading"),
    }
    match read_tags("a,b,c") {
        TagsRead::Legacy(v) => assert_eq!(v, vec!["a", "b", "c"]),
        TagsRead::Structured(_) => panic!("a bare list takes the legacy reading"),
    }
    match read_tags("[1, 2]") {
        TagsRead::Legacy(v) => assert_eq!(v, vec!["[1", "2]"]),
        TagsRead::Structured(_) => panic!("numbers are not tags"),
    }
}

#[test]
fn timestamps_from_clock_readings() {
    assert_eq!(timestamp_of(None), 0);
    assert_eq!(timestamp_of(Some(0)), 0);
    assert_eq!(timestamp_of(Some(1_700_000_123)), 1_700_000_123);
    assert_eq!(timestamp_of(Some(i64::MAX as u64)), i64::MAX);
    assert_eq!(timestamp_of(Some(u64::MAX)), i64::MAX);
}

#[test]
fn search_trims_unicode_white_space() {
    let lib = four_items();
    assert_eq!(ids(&lib.search("\u{3000}alpha\u{2003}\t", 10)), vec!["a"]);
    assert_eq!(lib.search("\u{00A0}\n", 2), lib.list(2, 0));
}
