//! Laws that relate the store's operations to one another.

use vstd::prelude::*;

use crate::corpus::{SeedView, demo_corpus, seed_count};
use crate::item::{RecordView, SeedResult};
use crate::matching::{like_at, like_pattern, same_letter_spec};
use crate::store::{
    record_matches, by_recency, ids_unique, insert_by_recency, lemma_insert_at, page, page_records, seed_outcome,
    seeded,
};

verus! {

/// Ordering by recency keeps every record: the result is as long as the input.
pub proof fn lemma_by_recency_len(s: Seq<RecordView>)
    ensures
        by_recency(s).len() == s.len(),
    decreases s.len(),
{
    if s.len() > 0 {
        lemma_by_recency_len(s.drop_last());
        lemma_insert_len(by_recency(s.drop_last()), s.last());
    }
}

proof fn lemma_insert_len(s: Seq<RecordView>, x: RecordView)
    ensures
        insert_by_recency(s, x).len() == s.len() + 1,
    decreases s.len(),
{
    if s.len() > 0 && s[0].updated_at >= x.updated_at {
        lemma_insert_len(s.drop_first(), x);
    }
}

/// Whether the records run newest first: no record is more recent than one
/// before it.
pub open spec fn newest_first(s: Seq<RecordView>) -> bool {
    forall|i: int, j: int| 0 <= i < j < s.len() ==> s[i].updated_at >= s[j].updated_at
}

/// Where `insert_by_recency` places `x`: before the first older record.
pub open spec fn recency_slot(o: Seq<RecordView>, x: RecordView) -> int
    decreases o.len(),
{
    if o.len() == 0 || o[0].updated_at < x.updated_at {
        0
    } else {
        1 + recency_slot(o.drop_first(), x)
    }
}

proof fn lemma_recency_slot(o: Seq<RecordView>, x: RecordView)
    ensures
        0 <= recency_slot(o, x) <= o.len(),
        forall|i: int| 0 <= i < recency_slot(o, x) ==> o[i].updated_at >= x.updated_at,
        recency_slot(o, x) < o.len() ==> o[recency_slot(o, x)].updated_at < x.updated_at,
        insert_by_recency(o, x) == o.insert(recency_slot(o, x), x),
    decreases o.len(),
{
    let p = recency_slot(o, x);
    if o.len() > 0 && o[0].updated_at >= x.updated_at {
        let t = o.drop_first();
        lemma_recency_slot(t, x);
        assert forall|i: int| 0 <= i < p implies o[i].updated_at >= x.updated_at by {
            if i > 0 {
                assert(o[i] == t[i - 1]);
            }
        }
    }
    lemma_insert_at(o, x, p);
    assert(o.subrange(0, p) + seq![x] + o.subrange(p, o.len() as int) =~= o.insert(p, x));
}

/// Listing by recency is a permutation of the store that runs newest first;
/// where the store's ids are unique, so are the listing's.
pub proof fn lemma_by_recency_permutes(s: Seq<RecordView>)
    ensures
        newest_first(by_recency(s)),
        by_recency(s).to_multiset() == s.to_multiset(),
        by_recency(s).len() == s.len(),
        ids_unique(s) ==> ids_unique(by_recency(s)),
    decreases s.len(),
{
    broadcast use vstd::seq_lib::group_to_multiset_ensures;

    lemma_by_recency_len(s);
    if s.len() > 0 {
        let init = s.drop_last();
        let x = s.last();
        let o = by_recency(init);
        lemma_by_recency_permutes(init);
        lemma_recency_slot(o, x);
        let p = recency_slot(o, x);
        let o2 = o.insert(p, x);
        assert(by_recency(s) == o2);
        assert(init.push(x) =~= s);
        assert forall|i: int, j: int| 0 <= i < j < o2.len() implies o2[i].updated_at >= o2[j].updated_at by {
            if i < p && j > p {
                assert(o[i].updated_at >= x.updated_at);
                assert(o[p].updated_at < x.updated_at);
            } else if i == p && j > p {
                assert(o[p].updated_at < x.updated_at);
                assert(o[p].updated_at >= o[j - 1].updated_at);
            }
        }
        if ids_unique(s) {
            assert forall|k: int| 0 <= k < o.len() implies o[k].id != x.id by {
                assert(o.contains(o[k]));
                assert(o.to_multiset().count(o[k]) > 0);
                assert(init.contains(o[k]));
                let i = choose|i: int| 0 <= i < init.len() && init[i] == o[k];
                assert(init[i] == s[i]);
            }
            assert(ids_unique(init)) by {
                assert forall|i: int, j: int| 0 <= i < j < init.len() implies init[i].id != init[j].id by {
                    assert(init[i] == s[i] && init[j] == s[j]);
                }
            }
            assert forall|i: int, j: int| 0 <= i < j < o2.len() implies o2[i].id != o2[j].id by {
                if i < p && j > p {
                    assert(o2[i] == o[i] && o2[j] == o[j - 1]);
                } else if i > p {
                    assert(o2[i] == o[i - 1] && o2[j] == o[j - 1]);
                }
            }
        }
    }
}

/// Records stored oldest first, with no two equally recent, come out of the
/// recency order in exactly the reverse of their stored order.
pub proof fn lemma_increasing_reversed(s: Seq<RecordView>)
    requires
        forall|i: int, j: int| 0 <= i < j < s.len() ==> s[i].updated_at < s[j].updated_at,
    ensures
        by_recency(s) == s.reverse(),
    decreases s.len(),
{
    if s.len() > 0 {
        let init = s.drop_last();
        lemma_increasing_reversed(init);
        if init.len() == 0 {
            assert(s.reverse() =~= seq![s.last()]);
        } else {
            assert(init.reverse()[0] == init.last());
            assert(seq![s.last()] + init.reverse() =~= s.reverse());
        }
    }
}

/// Seeding with the time ladder makes the recency order the reverse of the
/// corpus order: listing every seeded item returns the last-declared first.
pub proof fn lemma_seeded_newest_first(corpus: Seq<SeedView>, now: int)
    ensures
        by_recency(seeded(corpus, now)) == seeded(corpus, now).reverse(),
        page_records(seeded(corpus, now), corpus.len() as int, 0) == seeded(corpus, now).reverse(),
{
    let s = seeded(corpus, now);
    lemma_increasing_reversed(s);
    lemma_by_recency_len(s);
    assert(by_recency(s).subrange(0, s.len() as int) =~= by_recency(s));
}

/// Seeding an empty store writes the whole corpus; seeding it again right
/// after writes nothing and reports every item as already there.
pub proof fn lemma_seed_once(now: int, later: int)
    ensures
        seed_outcome(Seq::empty(), now).1 == (SeedResult { inserted: seed_count() as usize, skipped: 0 }),
        seed_outcome(seed_outcome(Seq::empty(), now).0, later) == (
            seed_outcome(Seq::empty(), now).0,
            SeedResult { inserted: 0, skipped: seed_count() as usize },
        ),
{
    assert(demo_corpus().len() == 10);
    assert(seeded(demo_corpus(), now).len() == seed_count());
}

/// Two consecutive pages, the first from the start, are together the page
/// that spans both: nothing is repeated or skipped between them.
/// Where the store's ids are unique, the two pages share no id, and every
/// record of the first is at least as recent as every record of the second.
pub proof fn lemma_pages_join(s: Seq<RecordView>, a: int, b: int)
    requires
        a >= 0,
        b >= 0,
    ensures
        page_records(s, a, 0) + page_records(s, b, a) == page_records(s, a + b, 0),
        page(s, a, 0) + page(s, b, a) == page(s, a + b, 0),
        forall|i: int, j: int|
            0 <= i < page_records(s, a, 0).len() && 0 <= j < page_records(s, b, a).len()
                ==> page_records(s, a, 0)[i].updated_at >= page_records(s, b, a)[j].updated_at,
        ids_unique(s) ==> forall|i: int, j: int|
            0 <= i < page_records(s, a, 0).len() && 0 <= j < page_records(s, b, a).len()
                ==> page_records(s, a, 0)[i].id != page_records(s, b, a)[j].id,
{
    lemma_by_recency_permutes(s);
    let o = by_recency(s);
    let n = o.len() as int;
    let first = if a < n { a } else { n };
    let last = if a + b < n { a + b } else { n };
    assert(page_records(s, a, 0) =~= o.subrange(0, first));
    assert(page_records(s, b, a) =~= o.subrange(first, last));
    assert(page_records(s, a + b, 0) =~= o.subrange(0, last));
    assert(o.subrange(0, first) + o.subrange(first, last) =~= o.subrange(0, last));
    assert(page(s, a, 0) + page(s, b, a) =~= page(s, a + b, 0));
    assert forall|i: int, j: int|
        0 <= i < page_records(s, a, 0).len() && 0 <= j < page_records(s, b, a).len()
            implies page_records(s, a, 0)[i].updated_at >= page_records(s, b, a)[j].updated_at
            && (ids_unique(s) ==> page_records(s, a, 0)[i].id != page_records(s, b, a)[j].id) by {
        assert(page_records(s, a, 0)[i] == o[i]);
        assert(page_records(s, b, a)[j] == o[first + j]);
    }
}

/// No two entries of the demo corpus share an id, so seeding writes
/// records with unique ids.
pub proof fn lemma_seeded_ids_unique(now: int)
    ensures
        ids_unique(seeded(demo_corpus(), now)),
{
    reveal_strlit("doc-onboarding");
    reveal_strlit("prompt-code-review");
    reveal_strlit("prompt-debug");
    reveal_strlit("faq-security");
    reveal_strlit("snippet-typescript");
    reveal_strlit("research-brief");
    reveal_strlit("meeting-notes");
    reveal_strlit("prompt-product-spec");
    reveal_strlit("prompt-qa");
    reveal_strlit("snippet-sqlite");
    let c = demo_corpus();
    assert(c.len() == 10);
    assert forall|i: int, j: int| 0 <= i < j < 10 implies c[i].id != c[j].id by {
        assert(c[i].id.len() != c[j].id.len() || c[i].id[0] != c[j].id[0]);
    }
}

/// Whether `q` holds neither of the wildcards `%` and `_`.
pub open spec fn wildcard_free(q: Seq<char>) -> bool {
    forall|i: int| 0 <= i < q.len() ==> q[i] != '%' && q[i] != '_'
}

/// Whether `q` occurs in `t` at position `k`, ignoring ASCII case.
pub open spec fn occurs_at(q: Seq<char>, t: Seq<char>, k: int) -> bool {
    &&& 0 <= k
    &&& k + q.len() <= t.len()
    &&& forall|i: int| 0 <= i < q.len() ==> same_letter_spec(q[i], #[trigger] t[k + i])
}

/// Whether `q` occurs anywhere in `t`, ignoring ASCII case.
pub open spec fn contains_folded(t: Seq<char>, q: Seq<char>) -> bool {
    exists|k: int| occurs_at(q, t, k)
}

proof fn lemma_tail(q: Seq<char>, t: Seq<char>, j: int)
    requires
        0 <= j <= t.len(),
    ensures
        like_at(like_pattern(q), t, q.len() + 1 as int, j),
    decreases t.len() - j,
{
    let p = like_pattern(q);
    assert(p.len() == q.len() + 2);
    assert(p[q.len() + 1 as int] == '%');
    assert(like_at(p, t, p.len() as int, j) == (j == t.len()));
    if j < t.len() {
        lemma_tail(q, t, j + 1);
    }
    assert(like_at(p, t, q.len() + 1 as int, j) == (like_at(p, t, p.len() as int, j) || (j < t.len()
        && like_at(p, t, q.len() + 1 as int, j + 1))));
}

proof fn lemma_mid(q: Seq<char>, t: Seq<char>, i: int, j: int)
    requires
        wildcard_free(q),
        0 <= i <= q.len(),
        0 <= j <= t.len(),
    ensures
        like_at(like_pattern(q), t, i + 1, j) == (j + (q.len() - i) <= t.len() && forall|m: int|
            0 <= m < q.len() - i ==> same_letter_spec(q[i + m], #[trigger] t[j + m])),
    decreases q.len() - i,
{
    let p = like_pattern(q);
    assert(p.len() == q.len() + 2);
    if i == q.len() {
        lemma_tail(q, t, j);
    } else {
        assert(p[i + 1] == q[i]);
        if j < t.len() {
            lemma_mid(q, t, i + 1, j + 1);
            if same_letter_spec(q[i], t[j]) && like_at(p, t, i + 2, j + 1) {
                assert forall|m: int| 0 <= m < q.len() - i implies same_letter_spec(q[i + m], #[trigger] t[j + m]) by {
                    if m > 0 {
                        assert(q[(i + 1) + (m - 1)] == q[i + m]);
                        assert(t[(j + 1) + (m - 1)] == t[j + m]);
                    }
                }
            }
            if j + (q.len() - i) <= t.len() && forall|m: int|
                0 <= m < q.len() - i ==> same_letter_spec(q[i + m], #[trigger] t[j + m]) {
                assert(same_letter_spec(q[i + 0], t[j + 0]));
                assert forall|m: int| 0 <= m < q.len() - (i + 1) implies same_letter_spec(q[(i + 1) + m], #[trigger] t[(j + 1) + m]) by {
                    assert(same_letter_spec(q[i + (m + 1)], t[j + (m + 1)]));
                }
            }
        }
    }
}

proof fn lemma_head(q: Seq<char>, t: Seq<char>, j: int)
    requires
        wildcard_free(q),
        0 <= j <= t.len(),
    ensures
        like_at(like_pattern(q), t, 0, j) == exists|k: int| k >= j && occurs_at(q, t, k),
    decreases t.len() - j,
{
    let p = like_pattern(q);
    assert(p[0] == '%');
    lemma_mid(q, t, 0, j);
    assert(like_at(p, t, 1, j) == occurs_at(q, t, j)) by {
        if occurs_at(q, t, j) {
            assert forall|m: int| 0 <= m < q.len() - 0 implies same_letter_spec(q[0 + m], #[trigger] t[j + m]) by {
                assert(q[0 + m] == q[m]);
            }
        }
        if like_at(p, t, 1, j) {
            assert forall|m: int| 0 <= m < q.len() implies same_letter_spec(q[m], #[trigger] t[j + m]) by {
                assert(q[0 + m] == q[m]);
            }
        }
    }
    if j < t.len() {
        lemma_head(q, t, j + 1);
        if exists|k: int| k >= j && occurs_at(q, t, k) {
            let k = choose|k: int| k >= j && occurs_at(q, t, k);
            if k > j {
                assert(k >= j + 1 && occurs_at(q, t, k));
            }
        }
    } else {
        if exists|k: int| k >= j && occurs_at(q, t, k) {
            let k = choose|k: int| k >= j && occurs_at(q, t, k);
            assert(k == j);
        }
    }
}

/// A query without wildcards matches exactly the records that hold it in
/// their title, body or tags text, ignoring ASCII case.
pub proof fn lemma_plain_query_matches(q: Seq<char>, r: RecordView)
    requires
        wildcard_free(q),
    ensures
        record_matches(q, r) == (contains_folded(r.title, q) || contains_folded(r.body, q)
            || contains_folded(r.tags, q)),
{
    lemma_head(q, r.title, 0);
    lemma_head(q, r.body, 0);
    lemma_head(q, r.tags, 0);
}

} // verus!
