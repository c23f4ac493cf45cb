use omarchy_batch_monitor::api::{
    api_error_text, batches_page_path, cancel_path, request_url, resolve_base_url, BatchPager,
};
use omarchy_batch_monitor::batch::Batch;

fn page_item(id: &str) -> Batch {
    Batch {
        id: id.to_string(),
        endpoint: "/v1/responses".to_string(),
        status: "completed".to_string(),
        input_file_id: None,
        output_file_id: None,
        error_file_id: None,
        created_at: 1,
        in_progress_at: None,
        expires_at: None,
        finalizing_at: None,
        completed_at: None,
        failed_at: None,
        expired_at: None,
        cancelling_at: None,
        cancelled_at: None,
        request_counts: None,
        metadata: None,
        errors: None,
        completion_window: None,
    }
}

#[test]
fn base_url_precedence() {
    assert_eq!(
        resolve_base_url(Some("http://given".to_string()), Some("http://env".to_string())),
        "http://given"
    );
    assert_eq!(resolve_base_url(None, Some("http://env".to_string())), "http://env");
    assert_eq!(resolve_base_url(None, None), "https://api.openai.com/v1");
}

#[test]
fn request_url_joins_base_and_path() {
    assert_eq!(
        request_url("https://api.openai.com/v1", "/batches?limit=100"),
        "https://api.openai.com/v1/batches?limit=100"
    );
    assert_eq!(request_url("http://localhost:8080//", "/batches/x/cancel"), "http://localhost:8080/batches/x/cancel");
}

#[test]
fn page_paths() {
    assert_eq!(batches_page_path(None), "/batches?limit=100");
    assert_eq!(batches_page_path(Some("batch_42")), "/batches?limit=100&after=batch_42");
    assert_eq!(cancel_path("batch_7"), "/batches/batch_7/cancel");
}

#[test]
fn error_text_prefers_api_message() {
    assert_eq!(
        api_error_text("401 Unauthorized", "{\"error\":{\"message\":\"bad key\"}}", Some("bad key".to_string())),
        "API error (401 Unauthorized): bad key"
    );
    assert_eq!(
        api_error_text("502 Bad Gateway", "upstream down", None),
        "API error (502 Bad Gateway): upstream down"
    );
}

#[test]
fn pager_walks_all_pages() {
    let mut pager = BatchPager::new();
    assert_eq!(pager.next_path().as_deref(), Some("/batches?limit=100"));
    pager.accept_page(vec![page_item("a"), page_item("b")], true, Some("b".to_string()));
    assert_eq!(pager.next_path().as_deref(), Some("/batches?limit=100&after=b"));
    pager.accept_page(vec![page_item("c")], true, Some("c".to_string()));
    assert_eq!(pager.next_path().as_deref(), Some("/batches?limit=100&after=c"));
    pager.accept_page(vec![page_item("d")], false, Some("d".to_string()));
    assert!(pager.done);
    assert_eq!(pager.next_path(), None);
    let ids: Vec<String> = pager.into_batches().into_iter().map(|b| b.id).collect();
    assert_eq!(ids, vec!["a", "b", "c", "d"]);
}

#[test]
fn pager_stops_without_last_id() {
    let mut pager = BatchPager::new();
    pager.accept_page(vec![page_item("a")], true, None);
    assert!(pager.done);
    assert_eq!(pager.next_path(), None);
    assert_eq!(pager.collected.len(), 1);
}
