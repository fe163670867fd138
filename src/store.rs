//! The item store: its records, recency order, paging, search and seeding.

use vstd::prelude::*;
use vstd::string::{StrSliceExecFns, StringExecFns};

use crate::clock::current_ts;
use crate::codec::{encode_tags, tags_json, trim_of, trim_text};
use crate::corpus::{demo_corpus, demo_items, seed_count, seeds_view, SeedView};
use crate::item::{
    item_of, items_view, map_row, records_view, ItemRecord, ItemView, LibraryItem, RecordView,
    SeedResult,
};
use crate::laws::lemma_seeded_ids_unique;
use crate::matching::{chars_of, like_at, like_match, like_pattern};

verus! {

/// Places `x` in a list ordered by `updated_at`, newest first: after every
/// entry at least as recent, before the first older one.
pub open spec fn insert_by_recency(sorted: Seq<RecordView>, x: RecordView) -> Seq<RecordView>
    decreases sorted.len(),
{
    if sorted.len() == 0 {
        seq![x]
    } else if sorted[0].updated_at < x.updated_at {
        seq![x] + sorted
    } else {
        seq![sorted[0]] + insert_by_recency(sorted.drop_first(), x)
    }
}

/// The records ordered by `updated_at`, newest first; records with equal
/// `updated_at` keep their stored order.
pub open spec fn by_recency(s: Seq<RecordView>) -> Seq<RecordView>
    decreases s.len(),
{
    if s.len() == 0 {
        s
    } else {
        insert_by_recency(by_recency(s.drop_last()), s.last())
    }
}

/// Inserting into a newest-first list puts `x` at the first position `p`
/// whose record is older, with every record before `p` at least as recent.
pub proof fn lemma_insert_at(s: Seq<RecordView>, x: RecordView, p: int)
    requires
        0 <= p <= s.len(),
        forall|i: int| 0 <= i < p ==> s[i].updated_at >= x.updated_at,
        p < s.len() ==> s[p].updated_at < x.updated_at,
    ensures
        insert_by_recency(s, x) == s.subrange(0, p) + seq![x] + s.subrange(p, s.len() as int),
    decreases p,
{
    if p == 0 {
        if s.len() == 0 {
            assert(s.subrange(0, 0) + seq![x] + s.subrange(0, 0) =~= seq![x]);
        } else {
            assert(s.subrange(0, 0) + seq![x] + s.subrange(0, s.len() as int) =~= seq![x] + s);
        }
    } else {
        let t = s.drop_first();
        assert forall|i: int| 0 <= i < p - 1 implies t[i].updated_at >= x.updated_at by {
            assert(t[i] == s[i + 1]);
        }
        lemma_insert_at(t, x, p - 1);
        assert(seq![s[0]] + (t.subrange(0, p - 1) + seq![x] + t.subrange(p - 1, t.len() as int))
            =~= s.subrange(0, p) + seq![x] + s.subrange(p, s.len() as int));
    }
}

/// Inserts `x` into `v`, which is ordered newest first, where
/// `insert_by_recency` places it.
fn insert_sorted(v: &mut Vec<ItemRecord>, x: ItemRecord)
    ensures
        records_view(final(v)@) == insert_by_recency(records_view(old(v)@), x@),
{
    let n = v.len();
    let mut p: usize = 0;
    while p < n && v[p].updated_at >= x.updated_at
        invariant
            n == v@.len(),
            p <= n,
            forall|i: int| 0 <= i < p ==> v@[i].updated_at >= x.updated_at,
        decreases n - p,
    {
        p = p + 1;
    }
    let ghost s = records_view(v@);
    proof {
        lemma_insert_at(s, x@, p as int);
    }
    let ghost xv = x@;
    v.insert(p, x);
    assert(records_view(v@) =~= s.subrange(0, p as int) + seq![xv] + s.subrange(p as int, s.len() as int));
}

/// The first `limit` entries of `s`, or all of them where `limit` is negative
/// (a negative SQL `LIMIT` sets no bound).
pub open spec fn take_limit<T>(s: Seq<T>, limit: int) -> Seq<T> {
    if limit < 0 || s.len() <= limit {
        s
    } else {
        s.subrange(0, limit)
    }
}

/// Where a page starts: a negative offset counts as zero, and an offset past
/// the end leaves nothing.
pub open spec fn page_start(len: int, offset: int) -> int {
    if offset < 0 {
        0
    } else if offset > len {
        len
    } else {
        offset
    }
}

/// The records that `list(limit, offset)` returns, in order.
pub open spec fn page_records(s: Seq<RecordView>, limit: int, offset: int) -> Seq<RecordView> {
    let ordered = by_recency(s);
    take_limit(ordered.subrange(page_start(ordered.len() as int, offset), ordered.len() as int), limit)
}

/// The items that `list(limit, offset)` returns, in order.
pub open spec fn page(s: Seq<RecordView>, limit: int, offset: int) -> Seq<ItemView> {
    page_records(s, limit, offset).map_values(|r: RecordView| item_of(r))
}

/// Whether a record holds `q` in its title, body or tags text, by the
/// pattern `%q%`: `%` and `_` inside `q` act as wildcards, and ASCII letters
/// match regardless of case.
pub open spec fn record_matches(q: Seq<char>, r: RecordView) -> bool {
    let p = like_pattern(q);
    like_at(p, r.title, 0, 0) || like_at(p, r.body, 0, 0) || like_at(p, r.tags, 0, 0)
}

/// The records of `s` that match `q`, in the order of `s`.
pub open spec fn matching(q: Seq<char>, s: Seq<RecordView>) -> Seq<RecordView>
    decreases s.len(),
{
    if s.len() == 0 {
        s
    } else {
        let rest = matching(q, s.drop_last());
        if record_matches(q, s.last()) {
            rest.push(s.last())
        } else {
            rest
        }
    }
}

/// The items that a search for the (already trimmed) query `q` returns:
/// the matching records, newest first, at most `limit` of them.
pub open spec fn found(s: Seq<RecordView>, q: Seq<char>, limit: int) -> Seq<ItemView> {
    take_limit(matching(q, by_recency(s)), limit).map_values(|r: RecordView| item_of(r))
}

/// When the `i`-th of `total` seeded records was last updated: the last one
/// at `now`, each earlier one an hour before the next.
pub open spec fn ladder_time(now: int, total: int, i: int) -> int {
    now - (total - i - 1) * 3600
}

/// The records that seeding writes at time `now`, in corpus order: tags in
/// their persisted form, both times from the ladder, version 1.
pub open spec fn seeded(corpus: Seq<SeedView>, now: int) -> Seq<RecordView> {
    Seq::new(
        corpus.len(),
        |i: int|
            RecordView {
                id: corpus[i].id,
                title: corpus[i].title,
                body: corpus[i].body,
                item_type: corpus[i].item_type,
                source: corpus[i].source,
                tags: tags_json(corpus[i].tags),
                created_at: ladder_time(now, corpus.len() as int, i),
                updated_at: ladder_time(now, corpus.len() as int, i),
                version: 1,
            },
    )
}

/// Whether every time of the ladder that ends at `now` fits in an `i64`.
pub open spec fn seed_time_fits(now: i64) -> bool {
    now - 3600 * (seed_count() - 1) >= i64::MIN
}

/// The store and the report after seeding at `now` where the store is empty.
pub open spec fn seed_outcome(s: Seq<RecordView>, now: int) -> (Seq<RecordView>, SeedResult) {
    if s.len() > 0 {
        (s, SeedResult { inserted: 0, skipped: s.len() as usize })
    } else {
        (seeded(demo_corpus(), now), SeedResult { inserted: seed_count() as usize, skipped: 0 })
    }
}

/// Whether no two records share an id.
pub open spec fn ids_unique(s: Seq<RecordView>) -> bool {
    forall|i: int, j: int| 0 <= i < j < s.len() ==> s[i].id != s[j].id
}

/// Whether no record carries the id of an entry of the demo corpus.
pub open spec fn shares_no_corpus_id(s: Seq<RecordView>) -> bool {
    forall|i: int, j: int| 0 <= i < s.len() && 0 <= j < demo_corpus().len() ==> s[i].id != demo_corpus()[j].id
}

proof fn lemma_unique_concat(a: Seq<RecordView>, now: int)
    requires
        ids_unique(a),
        shares_no_corpus_id(a),
    ensures
        ids_unique(a + seeded(demo_corpus(), now)),
{
    let b = seeded(demo_corpus(), now);
    lemma_seeded_ids_unique(now);
    let c = a + b;
    assert forall|i: int, j: int| 0 <= i < j < c.len() implies c[i].id != c[j].id by {
        if j >= a.len() && i < a.len() {
            assert(c[j].id == demo_corpus()[j - a.len()].id);
        }
    }
}

/// The pattern `%q%` as characters.
fn pattern_of(q: &str) -> (r: Vec<char>)
    ensures
        r@ == like_pattern(q@),
{
    let qc = chars_of(q);
    let mut r: Vec<char> = Vec::new();
    r.push('%');
    let mut i: usize = 0;
    while i < qc.len()
        invariant
            i <= qc@.len(),
            r@ == seq!['%'] + qc@.subrange(0, i as int),
        decreases qc@.len() - i,
    {
        r.push(qc[i]);
        assert(r@ =~= seq!['%'] + qc@.subrange(0, i + 1));
        i = i + 1;
    }
    r.push('%');
    assert(r@ =~= like_pattern(q@));
    r
}

/// Whether the record matches the pattern in its title, body or tags text.
fn record_matches_pattern(pat: &Vec<char>, rec: &ItemRecord) -> (r: bool)
    ensures
        r == (like_at(pat@, rec.title@, 0, 0) || like_at(pat@, rec.body@, 0, 0) || like_at(
            pat@,
            rec.tags@,
            0,
            0,
        )),
{
    like_match(pat, &chars_of(rec.title.as_str())) || like_match(pat, &chars_of(rec.body.as_str()))
        || like_match(pat, &chars_of(rec.tags.as_str()))
}

/// The item store. It owns its records, no two of which share an id;
/// listing and search never change them.
pub struct Library {
    records: Vec<ItemRecord>,
}

impl View for Library {
    type V = Seq<RecordView>;

    closed spec fn view(&self) -> Seq<RecordView> {
        records_view(self.records@)
    }
}

impl Library {
    #[verifier::type_invariant]
    spec fn inv(&self) -> bool {
        ids_unique(records_view(self.records@))
    }

    /// A store that holds no items.
    pub fn new() -> (r: Library)
        ensures
            r@ == Seq::<RecordView>::empty(),
    {
        let r = Library { records: Vec::new() };
        assert(r@ =~= Seq::<RecordView>::empty());
        r
    }

    /// A store that holds the given records, in the given order; an error
    /// where two of them share an id.
    pub fn from_records(records: Vec<ItemRecord>) -> (r: Result<Library, String>)
        ensures
            r is Ok <==> ids_unique(records_view(records@)),
            r is Ok ==> r->Ok_0@ == records_view(records@),
    {
        let n = records.len();
        let ghost v = records_view(records@);
        let mut j: usize = 0;
        while j < n
            invariant
                n == records@.len(),
                v == records_view(records@),
                j <= n,
                forall|a: int, b: int| 0 <= a < b < j ==> v[a].id != v[b].id,
            decreases n - j,
        {
            let mut i: usize = 0;
            while i < j
                invariant
                    n == records@.len(),
                    v == records_view(records@),
                    i <= j < n,
                    forall|a: int| 0 <= a < i ==> v[a].id != v[j as int].id,
                decreases j - i,
            {
                if records[i].id == records[j].id {
                    assert(v[i as int].id == v[j as int].id);
                    return Err(String::from_str("Duplicate item id"));
                }
                i = i + 1;
            }
            j = j + 1;
        }
        Ok(Library { records })
    }

    /// The stored records, in stored order.
    pub fn records(&self) -> (r: &Vec<ItemRecord>)
        ensures
            records_view(r@) == self@,
    {
        &self.records
    }

    /// The number of stored items.
    pub fn len(&self) -> (r: usize)
        ensures
            r == self@.len(),
    {
        self.records.len()
    }

    /// Copies of the records, newest first.
    fn ordered(&self) -> (r: Vec<ItemRecord>)
        ensures
            records_view(r@) == by_recency(self@),
    {
        let n = self.records.len();
        let mut sorted: Vec<ItemRecord> = Vec::new();
        let mut k: usize = 0;
        assert(records_view(sorted@) =~= by_recency(self@.subrange(0, 0)));
        while k < n
            invariant
                n == self.records@.len(),
                k <= n,
                records_view(sorted@) == by_recency(self@.subrange(0, k as int)),
            decreases n - k,
        {
            let x = self.records[k].duplicate();
            insert_sorted(&mut sorted, x);
            assert(self@.subrange(0, k + 1).drop_last() =~= self@.subrange(0, k as int));
            k = k + 1;
        }
        assert(self@.subrange(0, n as int) =~= self@);
        sorted
    }

    /// Up to `limit` items, newest first, after skipping `offset` of them. A
    /// negative `limit` returns every item from the offset on; a negative
    /// `offset` skips none.
    pub fn list(&self, limit: i64, offset: i64) -> (r: Vec<LibraryItem>)
        ensures
            items_view(r@) == page(self@, limit as int, offset as int),
    {
        let ordered = self.ordered();
        let n = ordered.len();
        let start: usize = if offset < 0 {
            0
        } else if offset as u64 > n as u64 {
            n
        } else {
            offset as usize
        };
        let end: usize = if limit < 0 || (n - start) as u64 <= limit as u64 {
            n
        } else {
            start + limit as usize
        };
        let ghost want = page_records(self@, limit as int, offset as int);
        assert(want =~= records_view(ordered@).subrange(start as int, end as int));
        let mut out: Vec<LibraryItem> = Vec::new();
        let mut i: usize = start;
        while i < end
            invariant
                start <= i <= end,
                end <= n,
                n == ordered@.len(),
                want == records_view(ordered@).subrange(start as int, end as int),
                items_view(out@) == want.subrange(0, i - start).map_values(|r: RecordView| item_of(r)),
            decreases end - i,
        {
            let item = map_row(&ordered[i]);
            let ghost before = items_view(out@);
            assert(want[i - start] == ordered@[i as int]@);
            out.push(item);
            assert(items_view(out@) =~= before.push(item_of(want[i - start])));
            assert(items_view(out@) =~= want.subrange(0, i + 1 - start).map_values(|r: RecordView| item_of(r)));
            i = i + 1;
        }
        assert(want.subrange(0, end - start) =~= want);
        out
    }

    /// Up to `limit` items that hold `query` in their title, body or tags text,
    /// newest first; the query is taken as it is, not trimmed. A negative
    /// `limit` returns every match.
    pub fn search_trimmed(&self, query: &str, limit: i64) -> (r: Vec<LibraryItem>)
        ensures
            items_view(r@) == found(self@, query@, limit as int),
    {
        let pat = pattern_of(query);
        let ordered = self.ordered();
        let ghost ord = records_view(ordered@);
        let n = ordered.len();
        let mut out: Vec<LibraryItem> = Vec::new();
        let mut k: usize = 0;
        while k < n
            invariant
                k <= n,
                n == ordered@.len(),
                ord == records_view(ordered@),
                pat@ == like_pattern(query@),
                items_view(out@) == take_limit(matching(query@, ord.subrange(0, k as int)), limit as int).map_values(
                    |r: RecordView| item_of(r),
                ),
            decreases n - k,
        {
            let ghost m = matching(query@, ord.subrange(0, k as int));
            assert(ord.subrange(0, k + 1).drop_last() =~= ord.subrange(0, k as int));
            assert(ord.subrange(0, k + 1).last() == ordered@[k as int]@);
            if record_matches_pattern(&pat, &ordered[k]) {
                if limit < 0 || (out.len() as u64) < limit as u64 {
                    let item = map_row(&ordered[k]);
                    let ghost before = items_view(out@);
                    assert(before.len() == out@.len());
                    assert(take_limit(m, limit as int) == m);
                    out.push(item);
                    assert(take_limit(m.push(ord[k as int]), limit as int) =~= take_limit(m, limit as int).push(ord[k as int]));
                    assert(items_view(out@) =~= before.push(item_of(ord[k as int])));
                    assert(items_view(out@) =~= take_limit(m.push(ord[k as int]), limit as int).map_values(
                        |r: RecordView| item_of(r),
                    ));
                } else {
                    assert(items_view(out@).len() == out@.len());
                    assert(take_limit(m.push(ord[k as int]), limit as int) =~= take_limit(m, limit as int));
                }
            }
            k = k + 1;
        }
        assert(ord.subrange(0, n as int) =~= ord);
        out
    }

    /// Up to `limit` items that hold the trimmed query in their title, body
    /// or tags text, newest first. A query that trims to nothing lists the
    /// newest `limit` items, as `list(limit, 0)` does.
    pub fn search(&self, raw_query: &str, limit: i64) -> (r: Vec<LibraryItem>)
        ensures
            trim_of(raw_query@).len() == 0 ==> items_view(r@) == page(self@, limit as int, 0),
            trim_of(raw_query@).len() > 0 ==> items_view(r@) == found(self@, trim_of(raw_query@), limit as int),
            raw_query@.len() == 0 ==> items_view(r@) == page(self@, limit as int, 0),
    {
        let query = trim_text(raw_query);
        if query.unicode_len() == 0 {
            self.list(limit, 0)
        } else {
            self.search_trimmed(query, limit)
        }
    }

    /// Adds the demo corpus after the stored records, stamped with the time
    /// ladder that ends at `now`. No stored record may carry a corpus id.
    fn insert_seed_items(&mut self, now: i64) -> (r: SeedResult)
        requires
            seed_time_fits(now),
            shares_no_corpus_id(old(self)@),
        ensures
            final(self)@ == old(self)@ + seeded(demo_corpus(), now as int),
            r == (SeedResult { inserted: seed_count() as usize, skipped: 0 }),
    {
        proof {
            use_type_invariant(&*self);
        }
        let ghost start = self@;
        let n = self.records.len();
        let mut records: Vec<ItemRecord> = Vec::new();
        let mut k: usize = 0;
        while k < n
            invariant
                n == self.records@.len(),
                start == self@,
                k <= n,
                records_view(records@) == start.subrange(0, k as int),
            decreases n - k,
        {
            let ghost before = records_view(records@);
            records.push(self.records[k].duplicate());
            assert(records_view(records@) =~= before.push(start[k as int]));
            assert(start.subrange(0, k + 1) =~= start.subrange(0, k as int).push(start[k as int]));
            k = k + 1;
        }
        assert(start.subrange(0, n as int) =~= start);
        let seeds = demo_items();
        let total = seeds.len();
        proof {
            assert(seeds_view(seeds@).len() == seeds@.len());
        }
        let ghost want = seeded(demo_corpus(), now as int);
        proof {
            lemma_seeded_ids_unique(now as int);
        }
        let mut inserted: usize = 0;
        let mut idx: usize = 0;
        while idx < total
            invariant
                total == seeds@.len(),
                total == seed_count(),
                seeds_view(seeds@) == demo_corpus(),
                want == seeded(demo_corpus(), now as int),
                seed_time_fits(now),
                idx <= total,
                inserted == idx,
                ids_unique(want),
                records_view(records@) == start + want.subrange(0, idx as int),
            decreases total - idx,
        {
            let steps: i64 = (total - idx - 1) as i64;
            assert(steps <= seed_count() - 1);
            let ts: i64 = now - steps * 3600;
            let item = &seeds[idx];
            let tags = encode_tags(&item.tags);
            let rec = ItemRecord {
                id: item.id.clone(),
                title: item.title.clone(),
                body: item.body.clone(),
                item_type: item.item_type.clone(),
                source: item.source.clone(),
                tags,
                created_at: ts,
                updated_at: ts,
                version: 1,
            };
            proof {
                assert(seeds_view(seeds@)[idx as int] == seeds@[idx as int]@);
            }
            assert(rec@ == want[idx as int]);
            let ghost before = records_view(records@);
            records.push(rec);
            assert(records_view(records@) =~= before.push(rec@));
            assert(start + want.subrange(0, idx + 1) =~= (start + want.subrange(0, idx as int)).push(want[idx as int]));
            inserted = inserted + 1;
            idx = idx + 1;
        }
        assert(want.subrange(0, total as int) =~= want);
        proof {
            lemma_unique_concat(start, now as int);
        }
        self.records = records;
        SeedResult { inserted, skipped: 0 }
    }

    /// Fills an empty store with the demo corpus, timed by the ladder that
    /// ends at the current time; a store that holds items is left as it is.
    pub fn seed_if_empty(&mut self) -> (r: SeedResult)
        ensures
            exists|now: int| now >= 0 && (final(self)@, r) == seed_outcome(old(self)@, now),
    {
        let now = current_ts();
        self.seed_if_empty_at(now)
    }

    /// Fills an empty store with the demo corpus, timed by the ladder that
    /// ends at `now`; a store that holds items is left as it is.
    pub fn seed_if_empty_at(&mut self, now: i64) -> (r: SeedResult)
        requires
            seed_time_fits(now),
        ensures
            (final(self)@, r) == seed_outcome(old(self)@, now as int),
    {
        let count = self.records.len();
        if count > 0 {
            return SeedResult { inserted: 0, skipped: count };
        }
        let r = self.insert_seed_items(now);
        assert(old(self)@ + seeded(demo_corpus(), now as int) =~= seeded(demo_corpus(), now as int));
        r
    }

    /// Destroys every stored item, then writes the demo corpus timed by the
    /// ladder that ends at the current time.
    pub fn reseed(&mut self) -> (r: SeedResult)
        ensures
            exists|now: int| now >= 0 && final(self)@ == seeded(demo_corpus(), now),
            r == (SeedResult { inserted: seed_count() as usize, skipped: 0 }),
    {
        let now = current_ts();
        self.reseed_at(now)
    }

    /// Destroys every stored item, then writes the demo corpus timed by the
    /// ladder that ends at `now`.
    pub fn reseed_at(&mut self, now: i64) -> (r: SeedResult)
        requires
            seed_time_fits(now),
        ensures
            final(self)@ == seeded(demo_corpus(), now as int),
            r == (SeedResult { inserted: seed_count() as usize, skipped: 0 }),
    {
        self.records = Vec::new();
        assert(self@ =~= Seq::<RecordView>::empty());
        let r = self.insert_seed_items(now);
        assert(Seq::<RecordView>::empty() + seeded(demo_corpus(), now as int) =~= seeded(demo_corpus(), now as int));
        r
    }
}

/// Lists the store for a caller that may leave out the bounds: at most 20
/// items by default, from the newest on.
pub fn list_library(library: &Library, limit: Option<u32>, offset: Option<u32>) -> (r: Vec<LibraryItem>)
    ensures
        items_view(r@) == page(
            library@,
            limit_or_default(limit),
            match offset {
                Some(o) => o as int,
                None => 0,
            },
        ),
{
    let l: i64 = match limit {
        Some(l) => l as i64,
        None => 20,
    };
    let o: i64 = match offset {
        Some(o) => o as i64,
        None => 0,
    };
    library.list(l, o)
}

/// The query text of a search, where a missing query is the empty text.
pub open spec fn query_text(query: Option<String>) -> Seq<char> {
    match query {
        Some(q) => q@,
        None => Seq::empty(),
    }
}

/// The limit of a search or listing, 20 where none is given.
pub open spec fn limit_or_default(limit: Option<u32>) -> int {
    match limit {
        Some(l) => l as int,
        None => 20,
    }
}

/// Searches the store for a caller that may leave out the query (none: list
/// the newest) and the limit (20 by default).
pub fn search_library(library: &Library, query: Option<String>, limit: Option<u32>) -> (r: Vec<LibraryItem>)
    ensures
        trim_of(query_text(query)).len() == 0 ==> items_view(r@) == page(library@, limit_or_default(limit), 0),
        trim_of(query_text(query)).len() > 0 ==> items_view(r@) == found(
            library@,
            trim_of(query_text(query)),
            limit_or_default(limit),
        ),
        query_text(query).len() == 0 ==> items_view(r@) == page(library@, limit_or_default(limit), 0),
{
    let l: i64 = match limit {
        Some(l) => l as i64,
        None => 20,
    };
    match query {
        Some(q) => library.search(q.as_str(), l),
        None => {
            proof {
                reveal_strlit("");
            }
            assert(""@ =~= Seq::<char>::empty());
            library.search("", l)
        },
    }
}

/// Replaces the whole store with the demo corpus; see `Library::reseed`.
pub fn reseed_library(library: &mut Library) -> (r: SeedResult)
    ensures
        exists|now: int| now >= 0 && final(library)@ == seeded(demo_corpus(), now),
        r == (SeedResult { inserted: seed_count() as usize, skipped: 0 }),
{
    library.reseed()
}

} // verus!
