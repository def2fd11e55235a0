use streamvault::providers::models::{order_by_number, unique_entries};
use streamvault::providers::{Episode, MediaEntry, MediaType};

fn ep(id: u64, number: u32) -> Episode {
    Episode { id, number, name: format!("E{id}"), duration: None, image_url: None }
}

fn entry(id: u64, name: &str) -> MediaEntry {
    MediaEntry {
        id,
        name: name.into(),
        slug: String::new(),
        provider: 0,
        language: String::new(),
        media_type: MediaType::Series,
        alternative_names: Vec::new(),
        year: None,
        score: None,
        image_url: None,
        description: None,
    }
}

#[test]
fn episodes_ordered_stably_by_number() {
    let r = order_by_number(vec![ep(1, 3), ep(2, 1), ep(3, 3), ep(4, 2), ep(5, 1)]);
    let ids: Vec<u64> = r.iter().map(|e| e.id).collect();
    assert_eq!(ids, vec![2, 5, 4, 1, 3]);
    assert!(order_by_number(vec![]).is_empty());
}

#[test]
fn entries_kept_once_by_id() {
    let r = unique_entries(vec![entry(1, "a"), entry(2, "b"), entry(1, "c"), entry(3, "d"), entry(2, "e")]);
    let names: Vec<&str> = r.iter().map(|e| e.name.as_str()).collect();
    assert_eq!(names, vec!["a", "b", "d"]);
}
