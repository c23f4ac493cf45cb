use omarchy_batch_monitor::batch::Batch;
use omarchy_batch_monitor::sort::{sort_batches, sort_before, SortMode};

fn sample(id: &str, status: &str, created_at: i64) -> Batch {
    Batch {
        id: id.to_string(),
        endpoint: "/v1/chat/completions".to_string(),
        status: status.to_string(),
        input_file_id: None,
        output_file_id: None,
        error_file_id: None,
        created_at,
        in_progress_at: None,
        expires_at: None,
        finalizing_at: None,
        completed_at: None,
        failed_at: None,
        expired_at: None,
        cancelling_at: None,
        cancelled_at: None,
        request_counts: None,
        metadata: None,
        errors: None,
        completion_window: None,
    }
}

fn ids(batches: &[Batch]) -> Vec<String> {
    batches.iter().map(|b| b.id.clone()).collect()
}

#[test]
fn created_desc_puts_newest_first() {
    let input = vec![
        sample("a", "completed", 10),
        sample("b", "failed", 30),
        sample("c", "in_progress", 20),
    ];
    let out = sort_batches(SortMode::CreatedDesc, input);
    assert_eq!(ids(&out), vec!["b", "c", "a"]);
}

#[test]
fn created_desc_keeps_ties_in_input_order() {
    let input = vec![
        sample("a", "completed", 10),
        sample("b", "failed", 10),
        sample("c", "in_progress", 20),
        sample("d", "expired", 10),
    ];
    let out = sort_batches(SortMode::CreatedDesc, input);
    assert_eq!(ids(&out), vec!["c", "a", "b", "d"]);
}

#[test]
fn status_mode_orders_by_status_then_newest() {
    let input = vec![
        sample("a", "in_progress", 5),
        sample("b", "completed", 1),
        sample("c", "completed", 9),
        sample("d", "cancelled", 3),
        sample("e", "in_progress", 7),
        sample("f", "completed", 9),
    ];
    let out = sort_batches(SortMode::Status, input);
    assert_eq!(ids(&out), vec!["d", "c", "f", "b", "e", "a"]);
}

#[test]
fn sort_matches_std_stable_sort() {
    let statuses = ["validating", "failed", "completed", "in_progress", "expired"];
    let mut input = Vec::new();
    for i in 0..40i64 {
        let status = statuses[(i * 7 % 5) as usize];
        input.push(sample(&format!("id{i}"), status, (i * 13) % 6));
    }
    let mut expected = input.clone();
    expected.sort_by(|a, b| b.created_at.cmp(&a.created_at));
    assert_eq!(ids(&sort_batches(SortMode::CreatedDesc, input.clone())), ids(&expected));
    let mut expected = input.clone();
    expected.sort_by(|a, b| a.status.cmp(&b.status).then(b.created_at.cmp(&a.created_at)));
    assert_eq!(ids(&sort_batches(SortMode::Status, input)), ids(&expected));
}

#[test]
fn sort_of_empty_list_is_empty() {
    assert!(sort_batches(SortMode::Status, Vec::new()).is_empty());
}

#[test]
fn sort_before_decides_the_order() {
    let old = sample("a", "completed", 1);
    let new = sample("b", "cancelled", 2);
    assert!(sort_before(SortMode::CreatedDesc, &new, &old));
    assert!(!sort_before(SortMode::CreatedDesc, &old, &new));
    assert!(sort_before(SortMode::Status, &new, &old));
    assert!(sort_before(SortMode::Status, &old, &old));
}

#[test]
fn sorting_a_sorted_list_keeps_it() {
    let input = vec![
        sample("a", "completed", 9),
        sample("b", "failed", 9),
        sample("c", "cancelled", 4),
        sample("d", "completed", 1),
    ];
    let once = sort_batches(SortMode::CreatedDesc, input.clone());
    assert_eq!(ids(&once), ids(&input));
    let by_status = sort_batches(SortMode::Status, input);
    let twice = sort_batches(SortMode::Status, by_status.clone());
    assert_eq!(ids(&twice), ids(&by_status));
}

#[test]
fn sorting_by_status_then_back_restores_distinct_times() {
    let input = vec![
        sample("a", "validating", 5),
        sample("b", "completed", 9),
        sample("c", "failed", 1),
        sample("d", "completed", 7),
    ];
    let by_created = sort_batches(SortMode::CreatedDesc, input);
    let by_status = sort_batches(SortMode::Status, by_created.clone());
    assert_eq!(ids(&by_status), vec!["b", "d", "c", "a"]);
    let back = sort_batches(SortMode::CreatedDesc, by_status);
    assert_eq!(ids(&back), ids(&by_created));
}
