//! The persisted form of an item's tags. Tags are always written as a JSON
//! array of strings. Reading tries that form first and falls back to the
//! legacy comma-separated form, which loses any tag that holds a comma.

use vstd::prelude::*;
use vstd::string::StrSliceExecFns;

verus! {

/// Whether `c` has the Unicode property White_Space.
pub open spec fn is_white_space(c: char) -> bool {
    let u = c as u32;
    (0x09 <= u && u <= 0x0D) || u == 0x20 || u == 0x85 || u == 0xA0 || u == 0x1680 || (0x2000 <= u
        && u <= 0x200A) || u == 0x2028 || u == 0x2029 || u == 0x202F || u == 0x205F || u == 0x3000
}

/// `s` without its leading white space.
pub open spec fn trim_start_of(s: Seq<char>) -> Seq<char>
    decreases s.len(),
{
    if s.len() > 0 && is_white_space(s[0]) {
        trim_start_of(s.drop_first())
    } else {
        s
    }
}

/// `s` without its trailing white space.
pub open spec fn trim_end_of(s: Seq<char>) -> Seq<char>
    decreases s.len(),
{
    if s.len() > 0 && is_white_space(s.last()) {
        trim_end_of(s.drop_last())
    } else {
        s
    }
}

/// `s` without its leading and trailing white space.
pub open spec fn trim_of(s: Seq<char>) -> Seq<char> {
    trim_end_of(trim_start_of(s))
}

/// The JSON text that serde_json writes for a list of strings.
pub uninterp spec fn tags_json(tags: Seq<Seq<char>>) -> Seq<char>;

/// The list of strings that serde_json reads from a text, if the text is a
/// JSON array of strings.
pub uninterp spec fn json_tags(text: Seq<char>) -> Option<Seq<Seq<char>>>;

/// Relies on `str::trim`: leading and trailing characters with the Unicode
/// property White_Space are removed.
#[verifier::external_body]
pub(crate) fn trim_text(s: &str) -> (r: &str)
    ensures
        r@ == trim_of(s@),
{
    s.trim()
}

/// Relies on `serde_json::to_string` for `Vec<String>`: each string is written
/// into an in-memory buffer, which cannot fail.
#[verifier::external_body]
fn tags_to_json(tags: &Vec<String>) -> (r: String)
    ensures
        r@ == tags_json(tags.deep_view()),
{
    serde_json::to_string(tags).unwrap_or_default()
}

/// Relies on `serde_json::from_str::<Vec<String>>`: it reads a JSON array of
/// strings, and reads back exactly the list that `serde_json::to_string` wrote.
#[verifier::external_body]
fn tags_from_json(text: &str) -> (r: Option<Vec<String>>)
    ensures
        r is Some <==> json_tags(text@) is Some,
        r is Some ==> json_tags(text@) == Some(r->0.deep_view()),
        forall|t: Seq<Seq<char>>| #[trigger] tags_json(t) == text@ ==> r is Some && r->0.deep_view() == t,
{
    serde_json::from_str::<Vec<String>>(text).ok()
}

/// The pieces of `s` between commas, as `str::split(',')` yields them: one
/// more piece than there are commas, empty pieces included.
pub open spec fn split_commas(s: Seq<char>) -> Seq<Seq<char>>
    decreases s.len(),
{
    if s.len() == 0 {
        seq![Seq::empty()]
    } else {
        let init = split_commas(s.drop_last());
        if s.last() == ',' {
            init.push(Seq::empty())
        } else {
            init.update(init.len() - 1, init.last().push(s.last()))
        }
    }
}

/// The trimmed pieces, in order, without those that trim to nothing.
pub open spec fn keep_trimmed(pieces: Seq<Seq<char>>) -> Seq<Seq<char>>
    decreases pieces.len(),
{
    if pieces.len() == 0 {
        Seq::empty()
    } else {
        let rest = keep_trimmed(pieces.drop_last());
        let t = trim_of(pieces.last());
        if t.len() > 0 {
            rest.push(t)
        } else {
            rest
        }
    }
}

/// The legacy reading: split on commas, trim each piece, drop the empty ones.
pub open spec fn legacy_tags(text: Seq<char>) -> Seq<Seq<char>> {
    keep_trimmed(split_commas(text))
}

/// The tags that a persisted text stands for: the JSON reading where the text
/// is a JSON array of strings, else the legacy reading.
pub open spec fn decoded_tags(text: Seq<char>) -> Seq<Seq<char>> {
    match json_tags(text) {
        Some(t) => t,
        None => legacy_tags(text),
    }
}

proof fn lemma_split_nonempty(s: Seq<char>)
    ensures
        split_commas(s).len() >= 1,
    decreases s.len(),
{
    if s.len() > 0 {
        lemma_split_nonempty(s.drop_last());
    }
}

/// Writes tags in their persisted form, a JSON array of strings.
pub fn encode_tags(tags: &Vec<String>) -> (r: String)
    ensures
        r@ == tags_json(tags.deep_view()),
{
    tags_to_json(tags)
}

/// Tags as read from their persisted form, with the reading that produced
/// them. `Legacy` marks a best-effort reading: a tag that held a comma has
/// been split in two.
pub enum TagsRead {
    Structured(Vec<String>),
    Legacy(Vec<String>),
}

/// Reads tags from their persisted form: the JSON reading where the text is
/// a JSON array of strings, else the legacy reading, and says which.
pub fn read_tags(text: &str) -> (r: TagsRead)
    ensures
        r is Structured <==> json_tags(text@) is Some,
        match r {
            TagsRead::Structured(v) => Some(v.deep_view()) == json_tags(text@),
            TagsRead::Legacy(v) => v.deep_view() == legacy_tags(text@),
        },
        forall|t: Seq<Seq<char>>| #[trigger] tags_json(t) == text@ ==> (r matches TagsRead::Structured(v) && v.deep_view() == t),
{
    match tags_from_json(text) {
        Some(v) => TagsRead::Structured(v),
        None => TagsRead::Legacy(decode_legacy(text)),
    }
}

/// Reads tags from their persisted form, by the legacy reading where the
/// text is not a JSON array of strings. What `encode_tags` wrote reads back
/// unchanged, in order and content, commas inside a tag included.
pub fn decode_tags(text: &str) -> (r: Vec<String>)
    ensures
        r.deep_view() == decoded_tags(text@),
        forall|t: Seq<Seq<char>>| #[trigger] tags_json(t) == text@ ==> r.deep_view() == t,
{
    match read_tags(text) {
        TagsRead::Structured(v) => v,
        TagsRead::Legacy(v) => v,
    }
}

/// The legacy reading of a comma-separated text.
pub fn decode_legacy(text: &str) -> (r: Vec<String>)
    ensures
        r.deep_view() == legacy_tags(text@),
{
    let n = text.unicode_len();
    let mut out: Vec<String> = Vec::new();
    let mut start: usize = 0;
    let mut k: usize = 0;
    while k < n
        invariant
            n == text@.len(),
            start <= k <= n,
            split_commas(text@.subrange(0, k as int)).len() >= 1,
            split_commas(text@.subrange(0, k as int)).last() == text@.subrange(start as int, k as int),
            out.deep_view() == keep_trimmed(split_commas(text@.subrange(0, k as int)).drop_last()),
        decreases n - k,
    {
        let c = text.get_char(k);
        proof {
            let s1 = text@.subrange(0, k + 1);
            assert(s1.drop_last() =~= text@.subrange(0, k as int));
            lemma_split_nonempty(s1);
        }
        if c == ',' {
            let piece = text.substring_char(start, k);
            let t = trim_text(piece);
            let tn = t.unicode_len();
            proof {
                let s1 = text@.subrange(0, k + 1);
                let sp = split_commas(text@.subrange(0, k as int));
                assert(split_commas(s1).drop_last() =~= sp);
                assert(sp.drop_last() =~= sp.subrange(0, sp.len() - 1));
            }
            if tn > 0 {
                let owned = t.to_owned();
                let ghost before = out.deep_view();
                out.push(owned);
                assert(out.deep_view() =~= before.push(trim_of(text@.subrange(start as int, k as int))));
            }
            start = k + 1;
            proof {
                assert(text@.subrange(start as int, k + 1) =~= Seq::<char>::empty());
            }
        } else {
            proof {
                let s1 = text@.subrange(0, k + 1);
                let sp = split_commas(text@.subrange(0, k as int));
                assert(split_commas(s1).drop_last() =~= sp.drop_last());
                assert(text@.subrange(start as int, k + 1) =~= text@.subrange(start as int, k as int).push(c));
            }
        }
        k = k + 1;
    }
    let piece = text.substring_char(start, n);
    let t = trim_text(piece);
    let tn = t.unicode_len();
    proof {
        assert(text@.subrange(0, n as int) =~= text@);
    }
    if tn > 0 {
        let owned = t.to_owned();
        let ghost before = out.deep_view();
        out.push(owned);
        assert(out.deep_view() =~= before.push(trim_of(text@.subrange(start as int, n as int))));
    }
    out
}

} // verus!
