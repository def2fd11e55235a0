use streamvault::providers::{MediaEntry, MediaType};
use streamvault::search::{edit_distance, fuzzy_word_match, normalize, rank_results, score_name};

fn entry(id: u64, name: &str, alt: &[&str], description: Option<&str>) -> MediaEntry {
    MediaEntry {
        id,
        name: name.into(),
        slug: String::new(),
        provider: 0,
        language: String::new(),
        media_type: MediaType::Movie,
        alternative_names: alt.iter().map(|s| s.to_string()).collect(),
        year: None,
        score: None,
        image_url: None,
        description: description.map(String::from),
    }
}

#[test]
fn normalize_strips_accents() {
    assert_eq!(normalize("Café"), "cafe");
}

#[test]
fn normalize_lowercases() {
    assert_eq!(normalize("HELLO"), "hello");
}

#[test]
fn score_exact_match() {
    assert_eq!(score_name("foo", "foo"), 1000);
}

#[test]
fn score_prefix() {
    assert_eq!(score_name("foobar", "foo"), 800);
}

#[test]
fn score_contains() {
    let s = score_name("bazfoo", "foo");
    assert!(s > 0 && s < 600);
}

#[test]
fn score_no_match() {
    assert_eq!(score_name("abc", "xyz"), 0);
}

#[test]
fn edit_distance_identical() {
    assert_eq!(edit_distance("kitten", "kitten"), 0);
}

#[test]
fn edit_distance_known() {
    assert_eq!(edit_distance("kitten", "sitting"), 3);
}

#[test]
fn fuzzy_exact_substring() {
    assert!(fuzzy_word_match("hello", "say hello world"));
}

#[test]
fn fuzzy_close_word() {
    assert!(fuzzy_word_match("hell", "say helo world"));
}

#[test]
fn fuzzy_short_word_no_fuzzy() {
    assert!(!fuzzy_word_match("ab", "cd ef"));
}

#[test]
fn score_contains_position_is_in_bytes_and_capped() {
    assert_eq!(score_name("bazfoo", "foo"), 597);
    assert_eq!(score_name("éfoo", "foo"), 598);
    let far = format!("{}foo", "x".repeat(150));
    assert_eq!(score_name(&far, "foo"), 500);
}

#[test]
fn edit_distance_edges() {
    assert_eq!(edit_distance("", "abc"), 3);
    assert_eq!(edit_distance("abc", ""), 3);
    assert_eq!(edit_distance("flaw", "lawn"), 2);
    assert_eq!(edit_distance("ab", "ba"), 2);
}

#[test]
fn rank_orders_by_score_then_length_then_name() {
    let entries = vec![
        entry(1, "The Matrix Reloaded", &[], None),
        entry(2, "Matrix", &[], None),
        entry(3, "Something", &["matrix"], None),
        entry(4, "Unrelated", &[], Some("a film about the matrix")),
        entry(5, "Nothing", &[], None),
        entry(6, "Matriks", &[], None),
    ];
    let ranked = rank_results(entries, "Matrix");
    let ids: Vec<u64> = ranked.iter().map(|e| e.id).collect();
    assert_eq!(ids, vec![2, 3, 1, 4, 6, 5]);
}

#[test]
fn rank_keeps_every_entry() {
    let entries = vec![entry(1, "B", &[], None), entry(2, "A", &[], None), entry(3, "C", &[], None)];
    let ranked = rank_results(entries, "zzz");
    let mut ids: Vec<u64> = ranked.iter().map(|e| e.id).collect();
    assert_eq!(ids, vec![2, 1, 3]);
    ids.sort();
    assert_eq!(ids, vec![1, 2, 3]);
}

#[test]
fn edit_distance_is_symmetric_and_obeys_the_triangle() {
    let words = ["kitten", "sitting", "mitten", "", "sit"];
    for a in words {
        for b in words {
            assert_eq!(edit_distance(a, b), edit_distance(b, a));
            for c in words {
                assert!(edit_distance(a, c) <= edit_distance(a, b) + edit_distance(b, c));
            }
        }
    }
}

#[test]
fn ranking_ignores_case_and_accents_of_the_query() {
    let es = vec![
        entry(1, "Le Café", &[], None),
        entry(2, "Cafe Society", &[], None),
        entry(3, "Other", &[], Some("a cafe story")),
        entry(4, "Nothing", &[], None),
    ];
    let a: Vec<u64> = rank_results(es.clone(), "CAFÉ").iter().map(|e| e.id).collect();
    let b: Vec<u64> = rank_results(es, "cafe").iter().map(|e| e.id).collect();
    assert_eq!(a, b);
}

#[test]
fn rank_keeps_input_order_of_full_ties() {
    let entries = vec![
        entry(7, "Same", &[], None),
        entry(3, "Same", &[], None),
        entry(9, "Same", &[], None),
        entry(1, "Other", &[], None),
    ];
    let ranked = rank_results(entries, "zzz");
    let ids: Vec<u64> = ranked.iter().map(|e| e.id).collect();
    assert_eq!(ids, vec![7, 3, 9, 1]);
}
