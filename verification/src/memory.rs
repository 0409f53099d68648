//! Shared memory: reuse events, and the keyword and tag matching that
//! ranks remembered items against a query.
use crate::protocol::{
    f32_bits_above, AgentId, MemoryHit, MemoryId, StateRef, Timestamp, F32_INFINITY_BITS,
};
use crate::text::{
    chars_of, join, join_strings, lowercase, push_str, string_views, to_lowercase,
};
use vstd::prelude::*;
use vstd::multiset::Multiset;

verus! {

/// A record that a task reused (or passed over) a remembered item.
#[derive(Debug, Clone)]
pub struct MemoryReuseEvent {
    pub memory_id: MemoryId,
    pub task_id: u128,
    pub adopted: bool,
    pub reason: String,
    pub created_at: Timestamp,
}

/// A remembered item, all but its embedding: its id, the agent it came
/// from, when it was made, its task's topic, its summary, tags, keywords
/// and the states that back it.
#[derive(Debug, Clone)]
pub struct MemoryRecord {
    pub memory_id: MemoryId,
    pub source_agent: AgentId,
    pub created_at: Timestamp,
    pub task_topic: String,
    pub summary: String,
    pub tags: Vec<String>,
    pub keywords: Vec<String>,
    pub evidence_refs: Vec<StateRef>,
}

/// How many of the query's tags (counted with repeats) the item carries.
pub open spec fn tag_match_count(query_tags: Seq<Seq<char>>, tags: Seq<Seq<char>>) -> nat
    decreases query_tags.len(),
{
    if query_tags.len() == 0 {
        0
    } else {
        tag_match_count(query_tags.drop_last(), tags) + if tags.contains(query_tags.last()) {
            1nat
        } else {
            0nat
        }
    }
}

/// The tag count is the number of query tags that the item carries, a
/// repeated query tag counted each time; a single tag that the item
/// carries counts once.
pub proof fn law_tag_count_counts_carried_tags(
    query_tags: Seq<Seq<char>>,
    tags: Seq<Seq<char>>,
    tag: Seq<char>,
)
    ensures
        tag_match_count(query_tags, tags) == query_tags.filter(|q: Seq<char>| tags.contains(q)).len(),
        tag_match_count(query_tags, tags) <= query_tags.len(),
        tags.contains(tag) ==> tag_match_count(seq![tag], tags) == 1,
    decreases query_tags.len(),
{
    reveal(Seq::filter);
    if query_tags.len() > 0 {
        law_tag_count_counts_carried_tags(query_tags.drop_last(), tags, tag);
    }
    assert(seq![tag].drop_last() =~= Seq::<Seq<char>>::empty());
    assert(tag_match_count(seq![tag].drop_last(), tags) == 0);
    assert(seq![tag].last() == tag);
}

/// Whether a list of strings holds one with the given characters.
pub fn contains_string(list: &Vec<String>, s: &str) -> (r: bool)
    ensures
        r == string_views(list@).contains(s@),
{
    let mut i: usize = 0;
    while i < list.len()
        invariant
            i <= list.len(),
            forall|k: int| 0 <= k < i ==> list@[k]@ != s@,
        decreases list.len() - i,
    {
        if crate::protocol::str_equal(list[i].as_str(), s) {
            assert(string_views(list@)[i as int] == s@);
            return true;
        }
        i = i + 1;
    }
    assert forall|k: int| 0 <= k < string_views(list@).len() implies string_views(list@)[k]
        != s@ by {
        assert(string_views(list@)[k] == list@[k]@);
    }
    false
}

/// Counts the query tags that the item carries.
pub fn tag_matches(query_tags: &Vec<String>, tags: &Vec<String>) -> (n: usize)
    ensures
        n == tag_match_count(string_views(query_tags@), string_views(tags@)),
{
    let mut n: usize = 0;
    let mut i: usize = 0;
    while i < query_tags.len()
        invariant
            i <= query_tags.len(),
            n <= i,
            n == tag_match_count(string_views(query_tags@).take(i as int), string_views(tags@)),
        decreases query_tags.len() - i,
    {
        assert(string_views(query_tags@).take(i + 1 as int).drop_last() == string_views(
            query_tags@,
        ).take(i as int));
        if contains_string(tags, query_tags[i].as_str()) {
            n = n + 1;
        }
        i = i + 1;
    }
    assert(string_views(query_tags@).take(query_tags.len() as int) == string_views(query_tags@));
    n
}

/// The text that query terms are looked up in: topic, summary, tags and
/// keywords separated by spaces, in lower case.
pub open spec fn searchable(
    topic: Seq<char>,
    summary: Seq<char>,
    tags: Seq<Seq<char>>,
    keywords: Seq<Seq<char>>,
) -> Seq<char> {
    lowercase(topic + " "@ + summary + " "@ + join(tags, " "@) + " "@ + join(keywords, " "@))
}

/// Builds the text that query terms are looked up in.
pub fn searchable_text(
    topic: &str,
    summary: &str,
    tags: &Vec<String>,
    keywords: &Vec<String>,
) -> (s: String)
    ensures
        s@ == searchable(topic@, summary@, string_views(tags@), string_views(keywords@)),
{
    let mut text = String::from_str(topic);
    push_str(&mut text, " ");
    push_str(&mut text, summary);
    push_str(&mut text, " ");
    let t = join_strings(tags, " ");
    push_str(&mut text, t.as_str());
    push_str(&mut text, " ");
    let k = join_strings(keywords, " ");
    push_str(&mut text, k.as_str());
    to_lowercase(text.as_str())
}

/// Whether `part` occurs in `whole` as a run of consecutive characters
/// (`str::contains`).
pub open spec fn occurs_in(part: Seq<char>, whole: Seq<char>) -> bool {
    exists|i: int| 0 <= i && i + part.len() <= whole.len() && #[trigger] whole.subrange(i, i + part.len()) == part
}

/// Whether `part` occurs in `whole`.
pub fn contains_chars(whole: &Vec<char>, part: &Vec<char>) -> (r: bool)
    ensures
        r == occurs_in(part@, whole@),
{
    if part.len() > whole.len() {
        return false;
    }
    let last = whole.len() - part.len();
    let mut i: usize = 0;
    while i <= last
        invariant
            last + part.len() == whole.len(),
            forall|p: int| 0 <= p < i ==> #[trigger] whole@.subrange(p, p + part.len()) != part@,
        decreases last + 1 - i,
    {
        let mut k: usize = 0;
        let mut same = true;
        while k < part.len()
            invariant
                k <= part.len(),
                i <= last,
                last + part.len() == whole.len(),
                same <==> forall|m: int| 0 <= m < k ==> whole@[i + m] == part@[m],
            decreases part.len() - k,
        {
            if whole[i + k] != part[k] {
                same = false;
            }
            k = k + 1;
        }
        if same {
            assert(whole@.subrange(i as int, i + part.len()) =~= part@);
            return true;
        }
        assert(whole@.subrange(i as int, i + part.len()) != part@) by {
            let m = choose|m: int| 0 <= m < part.len() && whole@[i + m] != part@[m];
            assert(whole@.subrange(i as int, i + part.len())[m] == whole@[i + m]);
        }
        if i == last {
            assert forall|p: int|
                0 <= p && p + part.len() <= whole.len() implies #[trigger] whole@.subrange(
                p,
                p + part.len(),
            ) != part@ by {
                assert(p <= i);
            }
            return false;
        }
        i = i + 1;
    }
    false
}

/// How many of the terms occur in the text.
pub open spec fn term_match_count(terms: Seq<Seq<char>>, text: Seq<char>) -> nat
    decreases terms.len(),
{
    if terms.len() == 0 {
        0
    } else {
        term_match_count(terms.drop_last(), text) + if occurs_in(terms.last(), text) {
            1nat
        } else {
            0nat
        }
    }
}

/// A part occurs in every text that holds it anywhere: at the start, in
/// the middle or at the end; so a single term found there counts once.
pub proof fn law_part_occurs_anywhere(before: Seq<char>, part: Seq<char>, after: Seq<char>)
    ensures
        occurs_in(part, before + part + after),
        term_match_count(seq![part], before + part + after) == 1,
{
    let w = before + part + after;
    assert(w.subrange(before.len() as int, (before.len() + part.len()) as int) =~= part);
    assert(occurs_in(part, w));
    assert(seq![part].drop_last() =~= Seq::<Seq<char>>::empty());
    assert(term_match_count(seq![part].drop_last(), w) == 0);
    assert(seq![part].last() == part);
}

/// A part occurs in a text exactly when the text is the part with some text
/// before and some after it.
pub proof fn law_occurs_in_means_held(part: Seq<char>, whole: Seq<char>)
    ensures
        occurs_in(part, whole) <==> exists|before: Seq<char>, after: Seq<char>|
            whole == #[trigger] (before + part + after),
{
    if occurs_in(part, whole) {
        let i = choose|i: int|
            0 <= i && i + part.len() <= whole.len() && #[trigger] whole.subrange(i, i + part.len())
                == part;
        let before = whole.subrange(0, i);
        let after = whole.subrange(i + part.len(), whole.len() as int);
        assert(whole =~= before + part + after);
    }
    if exists|before: Seq<char>, after: Seq<char>| whole == #[trigger] (before + part + after) {
        let (before, after) = choose|before: Seq<char>, after: Seq<char>|
            whole == #[trigger] (before + part + after);
        law_part_occurs_anywhere(before, part, after);
    }
}

/// A part occurs at the end of any text that ends with it.
pub broadcast proof fn lemma_occurs_at_end(before: Seq<char>, part: Seq<char>)
    ensures
        #[trigger] occurs_in(part, before + part),
{
    law_part_occurs_anywhere(before, part, Seq::empty());
    assert(before + part + Seq::<char>::empty() =~= before + part);
}

/// A part that occurs in a text still occurs after more text is added.
pub broadcast proof fn lemma_occurs_in_longer(part: Seq<char>, whole: Seq<char>, more: Seq<char>)
    requires
        occurs_in(part, whole),
    ensures
        #[trigger] occurs_in(part, whole + more),
{
    let i = choose|i: int|
        0 <= i && i + part.len() <= whole.len() && #[trigger] whole.subrange(i, i + part.len())
            == part;
    assert((whole + more).subrange(i, i + part.len()) =~= whole.subrange(i, i + part.len()));
}

/// The term count is the number of terms that occur in the text, each term
/// counted once per time it is listed.
pub proof fn law_term_count_counts_occurring_terms(terms: Seq<Seq<char>>, text: Seq<char>)
    ensures
        term_match_count(terms, text) == terms.filter(|t: Seq<char>| occurs_in(t, text)).len(),
        term_match_count(terms, text) <= terms.len(),
    decreases terms.len(),
{
    reveal(Seq::filter);
    if terms.len() > 0 {
        law_term_count_counts_occurring_terms(terms.drop_last(), text);
    }
}

/// Counts the terms that occur in the text.
pub fn term_matches(terms: &Vec<String>, text: &str) -> (n: usize)
    ensures
        n == term_match_count(string_views(terms@), text@),
{
    let whole = chars_of(text);
    let mut n: usize = 0;
    let mut i: usize = 0;
    while i < terms.len()
        invariant
            i <= terms.len(),
            n <= i,
            whole@ == text@,
            n == term_match_count(string_views(terms@).take(i as int), text@),
        decreases terms.len() - i,
    {
        assert(string_views(terms@).take(i + 1 as int).drop_last() == string_views(terms@).take(
            i as int,
        ));
        let part = chars_of(terms[i].as_str());
        if contains_chars(&whole, &part) {
            n = n + 1;
        }
        i = i + 1;
    }
    assert(string_views(terms@).take(terms.len() as int) == string_views(terms@));
    n
}

// ---------------------------------------------------------------------------
// The store and the ranking of its hits
// ---------------------------------------------------------------------------
/// Remembered items kept in the SQLite database at a path.
#[derive(Debug, Clone)]
pub struct SqliteMemoryStore {
    path: String,
}

impl SqliteMemoryStore {
    /// The path of the database.
    pub closed spec fn db_path(&self) -> Seq<char> {
        self.path@
    }

    /// The store whose database lies at `path`.
    pub fn at(path: &str) -> (s: Self)
        ensures
            s.db_path() == path@,
    {
        SqliteMemoryStore { path: String::from_str(path) }
    }

    /// The path of the database.
    pub fn path(&self) -> (p: &str)
        ensures
            p@ == self.db_path(),
    {
        self.path.as_str()
    }
}

/// The bits of the `f32` score 0.05 that a hit must exceed to be kept.
pub const HIT_THRESHOLD_BITS: u32 = 0x3D4C_CCCDu32;

/// Whether a hit scores above 0.05.
pub open spec fn kept(hit: MemoryHit) -> bool {
    f32_bits_above(hit.score_bits, HIT_THRESHOLD_BITS)
}

/// The hits that score above 0.05, in their order.
pub open spec fn kept_hits(hits: Seq<MemoryHit>) -> Seq<MemoryHit>
    decreases hits.len(),
{
    if hits.len() == 0 {
        Seq::empty()
    } else if kept(hits.last()) {
        kept_hits(hits.drop_last()).push(hits.last())
    } else {
        kept_hits(hits.drop_last())
    }
}

/// Puts a hit into a list ranked highest score first, after every hit
/// that scores as high: equal scores keep their order.
pub open spec fn insert_ranked(ranked: Seq<MemoryHit>, hit: MemoryHit) -> Seq<MemoryHit>
    decreases ranked.len(),
{
    if ranked.len() == 0 {
        seq![hit]
    } else if ranked[0].score_bits >= hit.score_bits {
        seq![ranked[0]] + insert_ranked(ranked.drop_first(), hit)
    } else {
        seq![hit] + ranked
    }
}

/// The hits ranked highest score first, a stable sort: hits that score the
/// same keep their order.
pub open spec fn ranked(hits: Seq<MemoryHit>) -> Seq<MemoryHit>
    decreases hits.len(),
{
    if hits.len() == 0 {
        Seq::empty()
    } else {
        insert_ranked(ranked(hits.drop_last()), hits.last())
    }
}

/// What a search returns of its scored candidates: those above 0.05,
/// ranked highest score first, the first `limit` of them.
pub open spec fn search_result(hits: Seq<MemoryHit>, limit: nat) -> Seq<MemoryHit> {
    let r = ranked(kept_hits(hits));
    if r.len() <= limit {
        r
    } else {
        r.take(limit as int)
    }
}

/// Hits in order of score, highest first.
pub open spec fn ranked_by_score(hits: Seq<MemoryHit>) -> bool {
    forall|i: int, j: int|
        0 <= i < j < hits.len() ==> #[trigger] hits[i].score_bits >= #[trigger] hits[j].score_bits
}

proof fn lemma_insert_ranked_at(s: Seq<MemoryHit>, hit: MemoryHit, p: int)
    requires
        0 <= p <= s.len(),
        forall|k: int| 0 <= k < p ==> #[trigger] s[k].score_bits >= hit.score_bits,
        p < s.len() ==> s[p].score_bits < hit.score_bits,
    ensures
        insert_ranked(s, hit) == s.insert(p, hit),
    decreases s.len(),
{
    if s.len() == 0 {
        assert(s.insert(p, hit) =~= seq![hit]);
    } else if p == 0 {
        assert(s.insert(p, hit) =~= seq![hit] + s);
    } else {
        assert(s[0].score_bits >= hit.score_bits);
        let rest = s.drop_first();
        assert forall|k: int| 0 <= k < p - 1 implies #[trigger] rest[k].score_bits
            >= hit.score_bits by {
            assert(rest[k] == s[k + 1]);
        }
        lemma_insert_ranked_at(rest, hit, p - 1);
        assert(s.insert(p, hit) =~= seq![s[0]] + rest.insert(p - 1, hit));
    }
}

proof fn lemma_insert_ranked_keeps(s: Seq<MemoryHit>, hit: MemoryHit)
    requires
        ranked_by_score(s),
    ensures
        ranked_by_score(insert_ranked(s, hit)),
        insert_ranked(s, hit).to_multiset() == s.to_multiset().insert(hit),
        insert_ranked(s, hit).len() == s.len() + 1,
        forall|i: int|
            0 <= i < insert_ranked(s, hit).len() ==> (#[trigger] insert_ranked(s, hit)[i] == hit
                || s.contains(insert_ranked(s, hit)[i])),
    decreases s.len(),
{
    broadcast use vstd::seq_lib::group_to_multiset_ensures;

    let r = insert_ranked(s, hit);
    if s.len() == 0 {
        assert(r =~= seq![hit]);
        assert(seq![hit] =~= Seq::<MemoryHit>::empty().push(hit));
    } else if s[0].score_bits >= hit.score_bits {
        let rest = s.drop_first();
        assert(ranked_by_score(rest)) by {
            assert forall|i: int, j: int|
                0 <= i < j < rest.len() implies #[trigger] rest[i].score_bits
                >= #[trigger] rest[j].score_bits by {
                assert(rest[i] == s[i + 1] && rest[j] == s[j + 1]);
            }
        }
        lemma_insert_ranked_keeps(rest, hit);
        let t = insert_ranked(rest, hit);
        assert(r == seq![s[0]] + t);
        assert forall|i: int| 0 <= i < t.len() implies s[0].score_bits >= #[trigger] t[i].score_bits by {
            if t[i] != hit {
                let k = choose|k: int| 0 <= k < rest.len() && rest[k] == t[i];
                assert(rest[k] == s[k + 1]);
            }
        }
        assert forall|i: int, j: int|
            0 <= i < j < r.len() implies #[trigger] r[i].score_bits >= #[trigger] r[j].score_bits by {
            if i == 0 {
                assert(r[j] == t[j - 1]);
            } else {
                assert(r[i] == t[i - 1] && r[j] == t[j - 1]);
            }
        }
        assert forall|i: int| 0 <= i < r.len() implies (#[trigger] r[i] == hit || s.contains(r[i])) by {
            if i == 0 {
                assert(s[0] == r[0]);
            } else {
                assert(r[i] == t[i - 1]);
                if t[i - 1] != hit {
                    let k = choose|k: int| 0 <= k < rest.len() && rest[k] == t[i - 1];
                    assert(s[k + 1] == rest[k]);
                }
            }
        }
        assert(s =~= seq![s[0]] + rest);
        vstd::seq_lib::lemma_multiset_commutative(seq![s[0]], rest);
        vstd::seq_lib::lemma_multiset_commutative(seq![s[0]], t);
        assert(seq![s[0]] =~= Seq::<MemoryHit>::empty().push(s[0]));
    } else {
        assert(r == seq![hit] + s);
        assert forall|i: int, j: int|
            0 <= i < j < r.len() implies #[trigger] r[i].score_bits >= #[trigger] r[j].score_bits by {
            if i == 0 {
                assert(r[j] == s[j - 1]);
                assert(s[0].score_bits >= s[j - 1].score_bits || j - 1 == 0);
            } else {
                assert(r[i] == s[i - 1] && r[j] == s[j - 1]);
            }
        }
        assert forall|i: int| 0 <= i < r.len() implies (#[trigger] r[i] == hit || s.contains(r[i])) by {
            if i > 0 {
                assert(r[i] == s[i - 1]);
            }
        }
        vstd::seq_lib::lemma_multiset_commutative(seq![hit], s);
        assert(seq![hit] =~= Seq::<MemoryHit>::empty().push(hit));
    }
}

proof fn lemma_kept_hits_kept(hits: Seq<MemoryHit>)
    ensures
        forall|i: int| 0 <= i < kept_hits(hits).len() ==> kept(#[trigger] kept_hits(hits)[i]),
        kept_hits(hits).len() <= hits.len(),
    decreases hits.len(),
{
    if hits.len() > 0 {
        lemma_kept_hits_kept(hits.drop_last());
    }
}

/// A ranking is ranked by score, holds the same hits, and holds only hits
/// of its input.
pub proof fn law_ranked(hits: Seq<MemoryHit>)
    ensures
        ranked_by_score(ranked(hits)),
        ranked(hits).to_multiset() == hits.to_multiset(),
        ranked(hits).len() == hits.len(),
        forall|i: int| 0 <= i < ranked(hits).len() ==> hits.contains(#[trigger] ranked(hits)[i]),
    decreases hits.len(),
{
    broadcast use vstd::seq_lib::group_to_multiset_ensures;

    if hits.len() == 0 {
        assert(ranked(hits) =~= Seq::<MemoryHit>::empty());
    } else {
        let prev = hits.drop_last();
        law_ranked(prev);
        lemma_insert_ranked_keeps(ranked(prev), hits.last());
        assert(hits =~= prev.push(hits.last()));
        let r = ranked(hits);
        assert forall|i: int| 0 <= i < r.len() implies hits.contains(#[trigger] r[i]) by {
            if r[i] == hits.last() {
                assert(hits[hits.len() - 1] == r[i]);
            } else {
                let k = choose|k: int| 0 <= k < ranked(prev).len() && ranked(prev)[k] == r[i];
                let m = choose|m: int| 0 <= m < prev.len() && prev[m] == ranked(prev)[k];
                assert(hits[m] == prev[m]);
            }
        }
    }
}

/// The hits of a search, ranked: those of the scored candidates that score
/// above 0.05, highest score first with equal scores in their order, at
/// most `limit` of them.
pub fn rank_hits(candidates: Vec<MemoryHit>, limit: usize) -> (r: Vec<MemoryHit>)
    ensures
        r@ == search_result(candidates@, limit as nat),
        r@.len() <= limit,
        ranked_by_score(r@),
        forall|i: int| 0 <= i < r@.len() ==> kept(#[trigger] r@[i]) && candidates@.contains(r@[i]),
{
    let ghost input = candidates@;
    let mut ranked_so_far: Vec<MemoryHit> = Vec::new();
    let candidates_len = candidates.len();
    let mut rest = candidates;
    let mut i: usize = 0;
    while rest.len() > 0
        invariant
            i + rest@.len() == input.len(),
            input.len() == candidates_len,
            rest@ == input.skip(i as int),
            ranked_so_far@ == ranked(kept_hits(input.take(i as int))),
            ranked_by_score(ranked_so_far@),
        decreases rest.len(),
    {
        let hit = rest.remove(0);
        proof {
            assert(hit == input[i as int]);
            assert(rest@ =~= input.skip(i + 1 as int));
            assert(input.take(i + 1 as int).drop_last() =~= input.take(i as int));
            assert(input.take(i + 1 as int).last() == hit);
        }
        if hit.score_bits > HIT_THRESHOLD_BITS && hit.score_bits <= F32_INFINITY_BITS {
            let mut p: usize = 0;
            while p < ranked_so_far.len() && ranked_so_far[p].score_bits >= hit.score_bits
                invariant
                    p <= ranked_so_far@.len(),
                    forall|k: int| 0 <= k < p ==> #[trigger] ranked_so_far@[k].score_bits >= hit.score_bits,
                decreases ranked_so_far@.len() - p,
            {
                p = p + 1;
            }
            proof {
                lemma_insert_ranked_at(ranked_so_far@, hit, p as int);
                lemma_insert_ranked_keeps(ranked_so_far@, hit);
                assert(kept_hits(input.take(i + 1 as int)) == kept_hits(input.take(i as int)).push(hit));
                assert(kept_hits(input.take(i as int)).push(hit).drop_last() =~= kept_hits(input.take(i as int)));
            }
            ranked_so_far.insert(p, hit);
        } else {
            proof {
                assert(kept_hits(input.take(i + 1 as int)) == kept_hits(input.take(i as int)));
            }
        }
        i = i + 1;
    }
    proof {
        assert(input.take(i as int) =~= input);
        law_ranked(kept_hits(input));
        lemma_kept_hits_kept(input);
    }
    let ghost full = ranked_so_far@;
    if ranked_so_far.len() > limit {
        ranked_so_far.truncate(limit);
    }
    proof {
        let r = ranked_so_far@;
        assert forall|i: int| 0 <= i < r.len() implies kept(#[trigger] r[i]) && input.contains(r[i]) by {
            assert(r[i] == full[i]);
            let k = choose|k: int| 0 <= k < kept_hits(input).len() && kept_hits(input)[k] == full[i];
            assert(kept(kept_hits(input)[k]));
            lemma_kept_hits_in(input, k);
        }
        assert forall|i: int, j: int| 0 <= i < j < r.len() implies #[trigger] r[i].score_bits >= #[trigger] r[j].score_bits by {
            assert(r[i] == full[i] && r[j] == full[j]);
        }
    }
    ranked_so_far
}

proof fn lemma_kept_hits_in(hits: Seq<MemoryHit>, k: int)
    requires
        0 <= k < kept_hits(hits).len(),
    ensures
        hits.contains(kept_hits(hits)[k]),
    decreases hits.len(),
{
    lemma_kept_hits_kept(hits.drop_last());
    if kept(hits.last()) && k == kept_hits(hits.drop_last()).len() {
        assert(hits[hits.len() - 1] == kept_hits(hits)[k]);
    } else {
        lemma_kept_hits_in(hits.drop_last(), k);
        let m = choose|m: int| 0 <= m < hits.drop_last().len() && hits.drop_last()[m] == kept_hits(hits)[k];
        assert(hits[m] == hits.drop_last()[m]);
    }
}

} // verus!
