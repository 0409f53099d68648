use memlink::memory::{contains_chars, rank_hits, searchable_text, tag_matches, term_matches, SqliteMemoryStore};
use memlink::protocol::MemoryHit;

fn hit(id: u128, score: f32) -> MemoryHit {
    MemoryHit {
        memory_id: id,
        topic: format!("topic {id}"),
        summary: String::new(),
        score_bits: score.to_bits(),
        reason: String::new(),
        tags: Vec::new(),
    }
}

fn ids(hits: &[MemoryHit]) -> Vec<u128> {
    hits.iter().map(|h| h.memory_id).collect()
}

#[test]
fn hits_are_ranked_by_score_stably_and_cut_to_the_limit() {
    let candidates = vec![
        hit(1, 0.30),
        hit(2, 0.05),
        hit(3, 0.90),
        hit(4, 0.30),
        hit(5, 0.06),
        hit(6, f32::NAN),
        hit(7, 0.75),
    ];
    let ranked = rank_hits(candidates.clone(), 10);
    assert_eq!(ids(&ranked), vec![3, 7, 1, 4, 5]);
    let top = rank_hits(candidates, 3);
    assert_eq!(ids(&top), vec![3, 7, 1]);
    assert!(rank_hits(vec![hit(1, 0.5)], 0).is_empty());
    assert!(rank_hits(vec![hit(1, 0.01), hit(2, -1.0)], 5).is_empty());
}

#[test]
fn tags_and_terms_are_counted_against_the_item() {
    let query_tags = vec!["stateref".to_owned(), "missing".to_owned(), "stateref".to_owned()];
    let tags = vec!["stateref".to_owned(), "summary".to_owned()];
    assert_eq!(tag_matches(&query_tags, &tags), 2);
    let text = searchable_text(
        "StateRef shared memory",
        "Structured protocol",
        &tags,
        &vec!["state".to_owned(), "memory".to_owned()],
    );
    assert_eq!(text, "stateref shared memory structured protocol stateref summary state memory");
    let terms = vec!["stateref".to_owned(), "memory".to_owned(), "vector".to_owned()];
    assert_eq!(term_matches(&terms, &text), 2);
    assert!(contains_chars(&"abcabd".chars().collect(), &"abd".chars().collect()));
    assert!(!contains_chars(&"ab".chars().collect(), &"abc".chars().collect()));
}

#[test]
fn the_store_knows_its_database() {
    let store = SqliteMemoryStore::at("data/memlink.sqlite");
    assert_eq!(store.path(), "data/memlink.sqlite");
}
