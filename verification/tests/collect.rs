use page_rewriter::collect::{candidate_selector, collect_candidates, qualifies, RewriteTask};
use page_rewriter::{DEFAULT_CONCURRENCY, DEFAULT_MIN_LENGTH};

fn texts(items: &[&str]) -> Vec<String> {
    items.iter().map(|s| s.to_string()).collect()
}

#[test]
fn collection_filter_keeps_only_the_long_text() {
    let page = texts(&["12345", "1234567890123456789", "1234567890123456789012345"]);
    assert_eq!(page[0].len(), 5);
    assert_eq!(page[1].len(), 19);
    assert_eq!(page[2].len(), 25);
    let tasks = collect_candidates(&page, 20);
    assert_eq!(
        tasks,
        vec![RewriteTask { element: 2, source_text: "1234567890123456789012345".to_string() }]
    );
}

#[test]
fn a_text_of_exactly_the_minimum_qualifies() {
    assert!(qualifies("12345678901234567890", 20));
    assert!(!qualifies("1234567890123456789", 20));
    assert!(qualifies("", 0));
    assert!(!qualifies("", 1));
}

#[test]
fn length_is_counted_in_bytes() {
    // four characters, eight bytes
    assert!(qualifies("éééé", 8));
    assert!(!qualifies("éééé", 9));
    // one character, four bytes
    assert!(qualifies("𝄞", 4));
    assert!(!qualifies("𝄞", 5));
}

#[test]
fn tasks_keep_the_order_and_the_positions_of_the_page() {
    let page = texts(&["long enough one", "no", "long enough two", "", "long enough three"]);
    let tasks = collect_candidates(&page, 10);
    let elements: Vec<usize> = tasks.iter().map(|t| t.element).collect();
    assert_eq!(elements, vec![0, 2, 4]);
    for task in &tasks {
        assert_eq!(task.source_text, page[task.element]);
        assert!(task.source_text.len() >= 10);
    }
}

#[test]
fn an_empty_page_gives_no_task() {
    assert!(collect_candidates(&Vec::new(), 0).is_empty());
    assert!(collect_candidates(&texts(&["a", "bb"]), 3).is_empty());
}

#[test]
fn a_minimum_of_zero_keeps_every_text() {
    let page = texts(&["", "a", "bb"]);
    let tasks = collect_candidates(&page, 0);
    assert_eq!(tasks.len(), 3);
}

#[test]
fn a_task_holds_a_snapshot_of_the_text() {
    let mut page = texts(&["the text as it was when collected"]);
    let tasks = collect_candidates(&page, DEFAULT_MIN_LENGTH);
    page[0] = "changed afterwards".to_string();
    assert_eq!(tasks[0].source_text, "the text as it was when collected");
    let copy = tasks[0].clone();
    assert_eq!(copy, tasks[0]);
}

#[test]
fn the_selector_asks_for_leaf_elements_with_text() {
    assert_eq!(candidate_selector(), "//*[text() and not(*)]");
}

#[test]
fn the_defaults_of_a_run() {
    assert_eq!(DEFAULT_MIN_LENGTH, 20);
    assert_eq!(DEFAULT_CONCURRENCY, 8);
}
