//! The demo corpus that a new or reseeded store is filled with.

use vstd::prelude::*;
use vstd::string::StringExecFns;

verus! {

/// An entry of the demo corpus, before it is stamped with times.
pub struct SeedItem {
    pub id: String,
    pub title: String,
    pub body: String,
    pub item_type: String,
    pub source: String,
    pub tags: Vec<String>,
}

pub struct SeedView {
    pub id: Seq<char>,
    pub title: Seq<char>,
    pub body: Seq<char>,
    pub item_type: Seq<char>,
    pub source: Seq<char>,
    pub tags: Seq<Seq<char>>,
}

impl View for SeedItem {
    type V = SeedView;

    open spec fn view(&self) -> SeedView {
        SeedView {
            id: self.id@,
            title: self.title@,
            body: self.body@,
            item_type: self.item_type@,
            source: self.source@,
            tags: self.tags.deep_view(),
        }
    }
}

/// The views of a list of corpus entries.
pub open spec fn seeds_view(v: Seq<SeedItem>) -> Seq<SeedView> {
    v.map_values(|s: SeedItem| s@)
}

/// A corpus entry; every entry of the demo corpus has the source "dummy".
pub open spec fn seed_view(
    id: &str,
    title: &str,
    body: &str,
    item_type: &str,
    tags: Seq<Seq<char>>,
) -> SeedView {
    SeedView { id: id@, title: title@, body: body@, item_type: item_type@, source: "dummy"@, tags }
}

/// The demo corpus, in declaration order.
pub open spec fn demo_corpus() -> Seq<SeedView> {
    seq![
        seed_view(
            "doc-onboarding",
            "Onboarding Welcome",
            "Welcome new teammates. Outline first-week tasks, key docs, and buddies.",
            "note",
            seq!["onboarding"@, "people"@],
        ),
        seed_view(
            "prompt-code-review",
            "LLM Code Review",
            "You are a senior engineer. Review the following code for correctness, security, and performance. Respond with prioritized issues and concrete fixes.",
            "prompt",
            seq!["prompt"@, "code"@, "quality"@],
        ),
        seed_view(
            "prompt-debug",
            "Incident Debug Template",
            "Ask clarifying questions, list likely failure domains, propose a minimal debug plan, and suggest quick mitigations.",
            "prompt",
            seq!["incident"@, "sre"@],
        ),
        seed_view(
            "faq-security",
            "Security FAQ",
            "Data residency: US/EU only. PII policy: no storage in logs. Rotation: API keys rotate every 90 days.",
            "faq",
            seq!["security"@, "policy"@],
        ),
        seed_view(
            "snippet-typescript",
            "TypeScript Error Handler",
            "export function handleApiError(err: unknown) { if (err instanceof Error) return err.message; return 'Unexpected error'; }",
            "snippet",
            seq!["typescript"@, "snippet"@],
        ),
        seed_view(
            "research-brief",
            "Research Brief Template",
            "Goal, hypothesis, success metrics, risks, and timeline. Keep to one page.",
            "note",
            seq!["research"@, "template"@],
        ),
        seed_view(
            "meeting-notes",
            "Weekly Sync Notes",
            "Decisions, owners, deadlines. Avoid verbatim transcription.",
            "note",
            seq!["meetings"@, "ops"@],
        ),
        seed_view(
            "prompt-product-spec",
            "Product Spec Drafter",
            "Write a crisp product spec including problem, goals/non-goals, user stories, acceptance criteria, and rollout plan.",
            "prompt",
            seq!["product"@, "writing"@],
        ),
        seed_view(
            "prompt-qa",
            "QA Checklist",
            "Generate a QA checklist covering functional, performance, accessibility, and edge cases based on the feature description.",
            "prompt",
            seq!["qa"@, "testing"@],
        ),
        seed_view(
            "snippet-sqlite",
            "SQLite FTS Example",
            "CREATE VIRTUAL TABLE docs USING fts5(title, body); INSERT INTO docs (title, body) VALUES ('Test', 'Hello world'); SELECT * FROM docs WHERE docs MATCH 'hello';",
            "snippet",
            seq!["sqlite"@, "fts"@],
        ),
    ]
}

/// The number of entries in the demo corpus.
pub open spec fn seed_count() -> nat {
    demo_corpus().len()
}

fn tag_pair(a: &str, b: &str) -> (r: Vec<String>)
    ensures
        r.deep_view() == seq![a@, b@],
{
    let mut r: Vec<String> = Vec::new();
    r.push(String::from_str(a));
    r.push(String::from_str(b));
    assert(r.deep_view() =~= seq![a@, b@]);
    r
}

fn tag_triple(a: &str, b: &str, c: &str) -> (r: Vec<String>)
    ensures
        r.deep_view() == seq![a@, b@, c@],
{
    let mut r: Vec<String> = Vec::new();
    r.push(String::from_str(a));
    r.push(String::from_str(b));
    r.push(String::from_str(c));
    assert(r.deep_view() =~= seq![a@, b@, c@]);
    r
}

fn make_seed(id: &str, title: &str, body: &str, item_type: &str, tags: Vec<String>) -> (r: SeedItem)
    ensures
        r@ == seed_view(id, title, body, item_type, tags.deep_view()),
{
    SeedItem {
        id: String::from_str(id),
        title: String::from_str(title),
        body: String::from_str(body),
        item_type: String::from_str(item_type),
        source: String::from_str("dummy"),
        tags,
    }
}

/// The demo corpus.
pub fn demo_items() -> (r: Vec<SeedItem>)
    ensures
        seeds_view(r@) == demo_corpus(),
{
    let mut v: Vec<SeedItem> = Vec::new();
    v.push(make_seed(
        "doc-onboarding",
        "Onboarding Welcome",
        "Welcome new teammates. Outline first-week tasks, key docs, and buddies.",
        "note",
        tag_pair("onboarding", "people"),
    ));
    v.push(make_seed(
        "prompt-code-review",
        "LLM Code Review",
        "You are a senior engineer. Review the following code for correctness, security, and performance. Respond with prioritized issues and concrete fixes.",
        "prompt",
        tag_triple("prompt", "code", "quality"),
    ));
    v.push(make_seed(
        "prompt-debug",
        "Incident Debug Template",
        "Ask clarifying questions, list likely failure domains, propose a minimal debug plan, and suggest quick mitigations.",
        "prompt",
        tag_pair("incident", "sre"),
    ));
    v.push(make_seed(
        "faq-security",
        "Security FAQ",
        "Data residency: US/EU only. PII policy: no storage in logs. Rotation: API keys rotate every 90 days.",
        "faq",
        tag_pair("security", "policy"),
    ));
    v.push(make_seed(
        "snippet-typescript",
        "TypeScript Error Handler",
        "export function handleApiError(err: unknown) { if (err instanceof Error) return err.message; return 'Unexpected error'; }",
        "snippet",
        tag_pair("typescript", "snippet"),
    ));
    v.push(make_seed(
        "research-brief",
        "Research Brief Template",
        "Goal, hypothesis, success metrics, risks, and timeline. Keep to one page.",
        "note",
        tag_pair("research", "template"),
    ));
    v.push(make_seed(
        "meeting-notes",
        "Weekly Sync Notes",
        "Decisions, owners, deadlines. Avoid verbatim transcription.",
        "note",
        tag_pair("meetings", "ops"),
    ));
    v.push(make_seed(
        "prompt-product-spec",
        "Product Spec Drafter",
        "Write a crisp product spec including problem, goals/non-goals, user stories, acceptance criteria, and rollout plan.",
        "prompt",
        tag_pair("product", "writing"),
    ));
    v.push(make_seed(
        "prompt-qa",
        "QA Checklist",
        "Generate a QA checklist covering functional, performance, accessibility, and edge cases based on the feature description.",
        "prompt",
        tag_pair("qa", "testing"),
    ));
    v.push(make_seed(
        "snippet-sqlite",
        "SQLite FTS Example",
        "CREATE VIRTUAL TABLE docs USING fts5(title, body); INSERT INTO docs (title, body) VALUES ('Test', 'Hello world'); SELECT * FROM docs WHERE docs MATCH 'hello';",
        "snippet",
        tag_pair("sqlite", "fts"),
    ));
    assert(seeds_view(v@) =~= demo_corpus());
    v
}

} // verus!
