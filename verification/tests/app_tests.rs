use omarchy_batch_monitor::app::{App, Key, KeyAction};
use omarchy_batch_monitor::batch::Batch;
use omarchy_batch_monitor::sort::SortMode;

fn job(id: &str, status: &str, created_at: i64) -> Batch {
    Batch {
        id: id.to_string(),
        endpoint: "/v1/embeddings".to_string(),
        status: status.to_string(),
        input_file_id: None,
        output_file_id: None,
        error_file_id: None,
        created_at,
        in_progress_at: None,
        expires_at: None,
        finalizing_at: None,
        completed_at: None,
        failed_at: None,
        expired_at: None,
        cancelling_at: None,
        cancelled_at: None,
        request_counts: None,
        metadata: None,
        errors: None,
        completion_window: None,
    }
}

fn three_jobs() -> Vec<Batch> {
    vec![
        job("old", "completed", 100),
        job("new", "in_progress", 300),
        job("mid", "failed", 200),
    ]
}

fn loaded_app() -> App {
    let mut app = App::new(15);
    app.set_batches_at(three_jobs(), 1_700_000_000);
    app
}

fn status_text(app: &App) -> Option<String> {
    app.status_message.as_ref().map(|m| m.0.clone())
}

#[test]
fn new_app_starts_loading() {
    let app = App::new(20);
    assert!(app.batches.is_empty());
    assert_eq!(app.selected, 0);
    assert_eq!(app.table_selection, Some(0));
    assert!(app.loading);
    assert_eq!(app.refresh_secs, 20);
    assert_eq!(app.seconds_until_refresh, 20);
    assert_eq!(app.sort_mode, SortMode::CreatedDesc);
    assert!(!app.show_help && !app.confirm_cancel && !app.should_quit);
    assert!(app.error.is_none() && app.status_message.is_none() && app.last_refresh.is_none());
    assert!(app.selected_batch().is_none());
}

#[test]
fn set_batches_sorts_and_resets_state() {
    let mut app = App::new(15);
    app.set_error("boom".to_string());
    app.seconds_until_refresh = 2;
    app.set_batches_at(three_jobs(), 42);
    let ids: Vec<&str> = app.batches.iter().map(|b| b.id.as_str()).collect();
    assert_eq!(ids, vec!["new", "mid", "old"]);
    assert!(!app.loading);
    assert!(app.error.is_none());
    assert_eq!(app.last_refresh, Some(42));
    assert_eq!(app.seconds_until_refresh, 15);
    assert_eq!(app.table_selection, Some(0));
    assert_eq!(app.selected_batch().unwrap().id, "new");
}

#[test]
fn set_batches_clamps_selection() {
    let mut app = loaded_app();
    app.select_last();
    assert_eq!(app.selected, 2);
    app.set_batches_at(vec![job("only", "failed", 1)], 43);
    assert_eq!(app.selected, 0);
    assert_eq!(app.table_selection, Some(0));
    app.set_batches_at(Vec::new(), 44);
    assert_eq!(app.table_selection, None);
    assert!(app.selected_batch().is_none());
}

#[test]
fn set_batches_records_the_time() {
    let mut app = App::new(15);
    app.set_batches(three_jobs());
    assert!(app.last_refresh.unwrap() > 1_600_000_000);
    assert_eq!(app.batches.len(), 3);
}

#[test]
fn selection_moves_within_bounds() {
    let mut app = loaded_app();
    app.select_prev();
    assert_eq!(app.selected, 0);
    app.select_next();
    app.select_next();
    assert_eq!(app.selected, 2);
    app.select_next();
    assert_eq!(app.selected, 2);
    assert_eq!(app.table_selection, Some(2));
    app.select_first();
    assert_eq!(app.selected, 0);
    app.select_last();
    assert_eq!(app.selected, 2);
    app.select_prev();
    assert_eq!(app.selected, 1);
    assert_eq!(app.table_selection, Some(1));
}

#[test]
fn selection_does_nothing_on_empty_list() {
    let mut app = App::new(15);
    app.select_next();
    app.select_last();
    app.select_prev();
    app.select_first();
    assert_eq!(app.selected, 0);
    assert_eq!(app.table_selection, Some(0));
}

#[test]
fn toggle_sort_switches_mode_and_order() {
    let mut app = loaded_app();
    app.toggle_sort();
    assert_eq!(app.sort_mode, SortMode::Status);
    let ids: Vec<&str> = app.batches.iter().map(|b| b.id.as_str()).collect();
    assert_eq!(ids, vec!["old", "mid", "new"]);
    app.toggle_sort();
    assert_eq!(app.sort_mode, SortMode::CreatedDesc);
    let ids: Vec<&str> = app.batches.iter().map(|b| b.id.as_str()).collect();
    assert_eq!(ids, vec!["new", "mid", "old"]);
}

#[test]
fn set_error_stops_loading_and_keeps_list() {
    let mut app = loaded_app();
    app.loading = true;
    app.set_error("API error (500 Internal Server Error): oops".to_string());
    assert!(!app.loading);
    assert_eq!(app.error.as_deref(), Some("API error (500 Internal Server Error): oops"));
    assert_eq!(app.batches.len(), 3);
    assert_eq!(app.seconds_until_refresh, 15);
    app.seconds_until_refresh = 7;
    app.set_error("input error: closed".to_string());
    assert_eq!(app.seconds_until_refresh, 7);
}

#[test]
fn failed_refresh_waits_a_full_interval() {
    let mut app = App::new(3);
    app.set_batches_at(three_jobs(), 1);
    assert!(!app.on_tick_at(0));
    assert!(!app.on_tick_at(0));
    assert!(app.on_tick_at(0));
    app.on_fetch_error("network down".to_string());
    assert_eq!(app.seconds_until_refresh, 3);
    assert!(!app.loading);
    assert_eq!(app.error.as_deref(), Some("network down"));
    assert!(!app.on_tick_at(0));
    assert!(!app.on_tick_at(0));
    assert!(app.on_tick_at(0));
}

#[test]
fn status_moment_survives_other_keys() {
    let mut app = loaded_app();
    app.flash("hello".to_string());
    let at = app.status_message.as_ref().unwrap().1;
    for key in [Key::Down, Key::Char('s'), Key::Char('?'), Key::Char('x'), Key::Up] {
        app.handle_key(key);
        assert_eq!(app.status_message.as_ref().unwrap().1, at);
    }
    app.select_first();
    app.toggle_sort();
    app.set_error("e".to_string());
    app.tick_countdown_at(1);
    assert_eq!(app.status_message.as_ref().unwrap().1, at);
}

#[test]
fn is_cancellable_accepts_running_statuses() {
    for s in ["validating", "in_progress", "finalizing"] {
        assert!(App::is_cancellable(&job("x", s, 0)));
    }
    for s in ["completed", "failed", "expired", "cancelling", "cancelled", "", "IN_PROGRESS"] {
        assert!(!App::is_cancellable(&job("x", s, 0)));
    }
}

#[test]
fn tick_counts_down_and_expires_status() {
    let mut app = loaded_app();
    app.flash("hello".to_string());
    app.tick_countdown_at(3);
    assert_eq!(app.seconds_until_refresh, 14);
    assert_eq!(status_text(&app).as_deref(), Some("hello"));
    app.tick_countdown_at(4);
    assert_eq!(status_text(&app).as_deref(), Some("hello"));
    app.tick_countdown_at(5);
    assert!(app.status_message.is_none());
    app.seconds_until_refresh = 0;
    app.tick_countdown_at(0);
    assert_eq!(app.seconds_until_refresh, 0);
}

#[test]
fn tick_countdown_keeps_a_fresh_status() {
    let mut app = loaded_app();
    app.flash("fresh".to_string());
    app.tick_countdown();
    assert_eq!(status_text(&app).as_deref(), Some("fresh"));
    assert_eq!(app.seconds_until_refresh, 14);
}

#[test]
fn on_tick_asks_for_refresh_at_zero() {
    let mut app = loaded_app();
    app.seconds_until_refresh = 2;
    assert!(!app.on_tick_at(0));
    assert_eq!(app.seconds_until_refresh, 1);
    assert!(app.on_tick_at(0));
    assert!(app.loading);
    assert!(!app.on_tick_at(0));
    assert!(!app.on_tick());
}

#[test]
fn countdown_refreshes_after_interval() {
    let mut app = App::new(3);
    app.set_batches_at(three_jobs(), 1);
    assert!(!app.on_tick_at(0));
    assert!(!app.on_tick_at(0));
    assert!(app.on_tick_at(0));
}

#[test]
fn help_closes_on_any_key() {
    let mut app = loaded_app();
    assert!(matches!(app.handle_key(Key::Char('?')), KeyAction::Nothing));
    assert!(app.show_help);
    assert!(matches!(app.handle_key(Key::Char('q')), KeyAction::Nothing));
    assert!(!app.show_help);
    assert!(!app.should_quit);
}

#[test]
fn quit_keys_quit() {
    let mut app = loaded_app();
    app.handle_key(Key::Esc);
    assert!(app.should_quit);
    let mut app = loaded_app();
    app.handle_key(Key::Char('q'));
    assert!(app.should_quit);
}

#[test]
fn movement_keys_move_selection() {
    let mut app = loaded_app();
    app.handle_key(Key::Char('j'));
    assert_eq!(app.selected, 1);
    app.handle_key(Key::Down);
    assert_eq!(app.selected, 2);
    app.handle_key(Key::Char('k'));
    assert_eq!(app.selected, 1);
    app.handle_key(Key::Up);
    assert_eq!(app.selected, 0);
    app.handle_key(Key::Char('G'));
    assert_eq!(app.selected, 2);
    app.handle_key(Key::Home);
    assert_eq!(app.selected, 0);
    app.handle_key(Key::End);
    assert_eq!(app.selected, 2);
    app.handle_key(Key::Char('g'));
    assert_eq!(app.selected, 0);
}

#[test]
fn refresh_key_refreshes_once() {
    let mut app = loaded_app();
    assert!(matches!(app.handle_key(Key::Char('r')), KeyAction::Refresh));
    assert!(app.loading);
    assert!(matches!(app.handle_key(Key::Char('r')), KeyAction::Nothing));
}

#[test]
fn sort_key_toggles_sort() {
    let mut app = loaded_app();
    app.handle_key(Key::Char('s'));
    assert_eq!(app.sort_mode, SortMode::Status);
    assert_eq!(app.batches[0].id, "old");
}

#[test]
fn cancel_flow_confirms_then_cancels() {
    let mut app = loaded_app();
    assert_eq!(app.selected_batch().unwrap().status, "in_progress");
    assert!(matches!(app.handle_key(Key::Char('c')), KeyAction::Nothing));
    assert!(app.confirm_cancel);
    match app.handle_key(Key::Char('y')) {
        KeyAction::Cancel(id) => assert_eq!(id, "new"),
        other => panic!("unexpected action {other:?}"),
    }
    assert!(!app.confirm_cancel);
    assert_eq!(status_text(&app).as_deref(), Some("cancelling…"));
}

#[test]
fn cancel_confirm_accepts_capital_y() {
    let mut app = loaded_app();
    app.handle_key(Key::Char('c'));
    assert!(matches!(app.handle_key(Key::Char('Y')), KeyAction::Cancel(_)));
}

#[test]
fn cancel_prompt_aborts_on_other_keys() {
    let mut app = loaded_app();
    app.handle_key(Key::Char('c'));
    assert!(matches!(app.handle_key(Key::Char('n')), KeyAction::Nothing));
    assert!(!app.confirm_cancel);
    assert!(app.status_message.is_none());
    app.handle_key(Key::Char('c'));
    assert!(matches!(app.handle_key(Key::Esc), KeyAction::Nothing));
    assert!(!app.should_quit);
}

#[test]
fn cancel_refused_for_finished_batch() {
    let mut app = loaded_app();
    app.select_last();
    assert!(matches!(app.handle_key(Key::Char('c')), KeyAction::Nothing));
    assert!(!app.confirm_cancel);
    assert_eq!(status_text(&app).as_deref(), Some("batch is completed — not cancellable"));
}

#[test]
fn cancel_key_without_batches_does_nothing() {
    let mut app = App::new(15);
    assert!(matches!(app.handle_key(Key::Char('c')), KeyAction::Nothing));
    assert!(!app.confirm_cancel);
    assert!(app.status_message.is_none());
}

#[test]
fn other_keys_do_nothing() {
    let mut app = loaded_app();
    assert!(matches!(app.handle_key(Key::Other), KeyAction::Nothing));
    assert!(matches!(app.handle_key(Key::Char('x')), KeyAction::Nothing));
    assert_eq!(app.selected, 0);
    assert!(!app.should_quit);
}

#[test]
fn accepted_cancel_flashes_and_reloads() {
    let mut app = loaded_app();
    let b = job("batch_9", "cancelling", 5);
    app.on_cancel_accepted(&b);
    assert!(app.loading);
    assert_eq!(status_text(&app).as_deref(), Some("cancel requested for batch_9"));
}

#[test]
fn confirm_key_without_prompt_does_not_cancel() {
    let mut app = loaded_app();
    assert!(matches!(app.handle_key(Key::Char('y')), KeyAction::Nothing));
    assert!(!app.confirm_cancel);
    assert!(app.status_message.is_none());
}

#[test]
fn selection_stays_highlighted() {
    let mut app = loaded_app();
    for key in [Key::Down, Key::Down, Key::Up, Key::End, Key::Char('s'), Key::Home] {
        app.handle_key(key);
        assert_eq!(app.table_selection, Some(app.selected));
        assert!(app.selected < app.batches.len());
    }
}
