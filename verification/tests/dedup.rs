use extension_pack_gen::dedup::{deduplicate, merge_and_deduplicate};
use extension_pack_gen::text::contains_string;

fn list(items: &[&str]) -> Vec<String> {
    items.iter().map(|s| s.to_string()).collect()
}

#[test]
fn merge_keeps_first_occurrences_in_order() {
    let merged = merge_and_deduplicate(vec![list(&["lang", "tools"]), list(&["tools", "theme"])]);
    assert_eq!(merged, list(&["lang", "tools", "theme"]));
}

#[test]
fn merge_of_nothing_is_empty() {
    assert_eq!(merge_and_deduplicate(vec![]), Vec::<String>::new());
    assert_eq!(merge_and_deduplicate(vec![vec![], vec![]]), Vec::<String>::new());
}

#[test]
fn merge_removes_repeats_within_one_list() {
    let merged = merge_and_deduplicate(vec![list(&["a", "b", "a", "c", "b"])]);
    assert_eq!(merged, list(&["a", "b", "c"]));
}

#[test]
fn merge_of_three_lists_reads_them_in_order() {
    let merged = merge_and_deduplicate(vec![
        list(&["x"]),
        list(&["y", "x"]),
        list(&["z", "y", "w"]),
    ]);
    assert_eq!(merged, list(&["x", "y", "z", "w"]));
}

#[test]
fn merge_with_an_empty_side_is_the_other_side_deduplicated() {
    let left = merge_and_deduplicate(vec![list(&["a", "a", "b"]), vec![]]);
    assert_eq!(left, list(&["a", "b"]));
    let right = merge_and_deduplicate(vec![vec![], list(&["b", "a", "b"])]);
    assert_eq!(right, list(&["b", "a"]));
}

#[test]
fn merge_tells_strings_apart_by_case_and_space() {
    let merged = merge_and_deduplicate(vec![list(&["Lang", "lang"]), list(&["lang ", "lang"])]);
    assert_eq!(merged, list(&["Lang", "lang", "lang "]));
}

#[test]
fn merged_list_holds_every_input_once() {
    let a = list(&["one", "two", "three", "two"]);
    let b = list(&["three", "four", "one", "five"]);
    let merged = merge_and_deduplicate(vec![a.clone(), b.clone()]);
    for item in a.iter().chain(b.iter()) {
        assert_eq!(merged.iter().filter(|m| *m == item).count(), 1);
    }
    for item in merged.iter() {
        assert!(a.contains(item) || b.contains(item));
    }
    assert_eq!(merged.len(), 5);
}

#[test]
fn deduplicate_keeps_first_occurrences() {
    assert_eq!(deduplicate(list(&["b", "a", "b", "c", "a"])), list(&["b", "a", "c"]));
    assert_eq!(deduplicate(vec![]), Vec::<String>::new());
    assert_eq!(deduplicate(list(&["same", "same", "same"])), list(&["same"]));
}

#[test]
fn deduplicate_is_merge_of_one_list() {
    let items = list(&["q", "r", "q", "s", "r", "t"]);
    assert_eq!(deduplicate(items.clone()), merge_and_deduplicate(vec![items]));
}

#[test]
fn deduplicating_twice_changes_nothing() {
    let once = deduplicate(list(&["m", "n", "m", "o"]));
    let twice = deduplicate(once.clone());
    assert_eq!(once, twice);
}

#[test]
fn contains_string_finds_exact_matches_only() {
    let items = list(&["alpha", "beta"]);
    assert!(contains_string(&items, &"alpha".to_string()));
    assert!(contains_string(&items, &"beta".to_string()));
    assert!(!contains_string(&items, &"alph".to_string()));
    assert!(!contains_string(&items, &"".to_string()));
    assert!(!contains_string(&Vec::new(), &"alpha".to_string()));
}
