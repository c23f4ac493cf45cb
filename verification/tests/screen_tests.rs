use omarchy_batch_monitor::app::App;
use omarchy_batch_monitor::batch::{Batch, BatchError, BatchErrors, RequestCounts};
use omarchy_batch_monitor::screen::{
    detail_lines, fmt_ts, progress_string, status_color, status_counts, table_row, DetailLine,
    DetailValue, FooterLine, Popup, StatusColor,
};

fn row_batch(id: &str, status: &str, created_at: i64) -> Batch {
    Batch {
        id: id.to_string(),
        endpoint: "/v1/chat/completions".to_string(),
        status: status.to_string(),
        input_file_id: None,
        output_file_id: None,
        error_file_id: None,
        created_at,
        in_progress_at: None,
        expires_at: None,
        finalizing_at: None,
        completed_at: None,
        failed_at: None,
        expired_at: None,
        cancelling_at: None,
        cancelled_at: None,
        request_counts: None,
        metadata: None,
        errors: None,
        completion_window: None,
    }
}

fn field(line: &DetailLine) -> (String, String) {
    match line {
        DetailLine::Field(l, DetailValue::Text(t)) => (l.clone(), t.clone()),
        DetailLine::Field(l, DetailValue::Time(t)) => (l.clone(), format!("time {t:?}")),
        DetailLine::Field(l, DetailValue::Percent(c, t)) => (l.clone(), format!("pct {c}/{t}")),
        DetailLine::Blank => (String::new(), String::new()),
        DetailLine::ErrorsHeading => ("Errors:".to_string(), String::new()),
        DetailLine::ErrorItem(t) => ("error".to_string(), t.clone()),
        DetailLine::MetadataHeading => ("Metadata:".to_string(), String::new()),
    }
}

#[test]
fn status_colors() {
    assert_eq!(status_color("validating"), StatusColor::Yellow);
    assert_eq!(status_color("in_progress"), StatusColor::Cyan);
    assert_eq!(status_color("finalizing"), StatusColor::Magenta);
    assert_eq!(status_color("completed"), StatusColor::Green);
    assert_eq!(status_color("failed"), StatusColor::Red);
    assert_eq!(status_color("expired"), StatusColor::DarkGray);
    assert_eq!(status_color("cancelling"), StatusColor::Yellow);
    assert_eq!(status_color("cancelled"), StatusColor::Gray);
    assert_eq!(status_color("something_else"), StatusColor::White);
}

#[test]
fn fmt_ts_without_time_is_dash() {
    assert_eq!(fmt_ts(None), "-");
}

#[test]
fn fmt_ts_writes_month_day_and_time() {
    let s = fmt_ts(Some(1_700_000_000));
    assert_eq!(s.len(), 14);
    assert_eq!(&s[2..3], "-");
    assert_eq!(&s[5..6], " ");
    assert_eq!(&s[8..9], ":");
    assert_eq!(&s[11..12], ":");
    assert!(s.chars().enumerate().all(|(i, c)| [2, 5, 8, 11].contains(&i) || c.is_ascii_digit()));
    assert_eq!(fmt_ts(Some(0)).len(), 14);
    assert_eq!(fmt_ts(Some(i64::MAX)), "-");
}

#[test]
fn progress_column() {
    assert_eq!(progress_string(None), "-");
    assert_eq!(progress_string(Some(RequestCounts { total: 0, completed: 0, failed: 0 })), "0/0");
    assert_eq!(
        progress_string(Some(RequestCounts { total: 120, completed: 100, failed: 3 })),
        "100/120 (3 failed)"
    );
}

#[test]
fn table_row_of_batch() {
    let mut b = row_batch("batch_6789abcdef0123456789abcdef", "failed", 77);
    b.request_counts = Some(RequestCounts { total: 10, completed: 4, failed: 6 });
    let r = table_row(&b);
    assert_eq!(r.id, "batch_6789abcd…cdef");
    assert_eq!(r.status, "failed");
    assert_eq!(r.color, StatusColor::Red);
    assert_eq!(r.endpoint, "/v1/chat/completions");
    assert_eq!(r.created_at, 77);
    assert_eq!(r.progress, "4/10 (6 failed)");
}

#[test]
fn status_counts_tally_by_status() {
    let batches = vec![
        row_batch("a", "failed", 1),
        row_batch("b", "completed", 2),
        row_batch("c", "failed", 3),
        row_batch("d", "in_progress", 4),
        row_batch("e", "completed", 5),
        row_batch("f", "completed", 6),
    ];
    let tally = status_counts(&batches);
    assert_eq!(
        tally,
        vec![
            ("completed".to_string(), 3),
            ("failed".to_string(), 2),
            ("in_progress".to_string(), 1)
        ]
    );
    let total: usize = tally.iter().map(|e| e.1).sum();
    assert_eq!(total, batches.len());
    assert!(status_counts(&Vec::new()).is_empty());
}

#[test]
fn details_of_a_plain_batch() {
    let b = row_batch("batch_1", "completed", 10);
    let lines: Vec<(String, String)> = detail_lines(&b).iter().map(field).collect();
    let expected: Vec<(String, String)> = vec![
        ("ID", "batch_1".to_string()),
        ("Status", "completed".to_string()),
        ("Endpoint", "/v1/chat/completions".to_string()),
        ("Window", "-".to_string()),
        ("", String::new()),
        ("Created", "time Some(10)".to_string()),
        ("In progress", "time None".to_string()),
        ("Finalizing", "time None".to_string()),
        ("Completed", "time None".to_string()),
        ("Failed", "time None".to_string()),
        ("Expired", "time None".to_string()),
        ("Cancelling", "time None".to_string()),
        ("Cancelled", "time None".to_string()),
        ("Expires at", "time None".to_string()),
        ("", String::new()),
        ("Input file", "-".to_string()),
        ("Output file", "-".to_string()),
        ("Error file", "-".to_string()),
    ]
    .into_iter()
    .map(|(l, v)| (l.to_string(), v))
    .collect();
    assert_eq!(lines, expected);
}

#[test]
fn details_with_counts_errors_and_metadata() {
    let mut b = row_batch("batch_2", "failed", 10);
    b.completion_window = Some("24h".to_string());
    b.input_file_id = Some("file-in".to_string());
    b.request_counts = Some(RequestCounts { total: 8, completed: 2, failed: 6 });
    b.errors = Some(BatchErrors {
        data: vec![
            BatchError { code: Some("invalid_json".to_string()), message: Some("bad line".to_string()), line: Some(3) },
            BatchError { code: None, message: None, line: None },
        ],
    });
    b.metadata = Some(vec![("team".to_string(), "\"ml\"".to_string())]);
    let lines: Vec<(String, String)> = detail_lines(&b).iter().map(field).collect();
    assert_eq!(lines[3], ("Window".to_string(), "24h".to_string()));
    assert_eq!(lines[15], ("Total".to_string(), "8".to_string()));
    assert_eq!(lines[16], ("Completed".to_string(), "2".to_string()));
    assert_eq!(lines[17], ("Failed".to_string(), "6".to_string()));
    assert_eq!(lines[18], ("Progress".to_string(), "pct 2/8".to_string()));
    assert_eq!(lines[19], (String::new(), String::new()));
    assert_eq!(lines[20], ("Input file".to_string(), "file-in".to_string()));
    assert_eq!(lines[23], (String::new(), String::new()));
    assert_eq!(lines[24], ("Errors:".to_string(), String::new()));
    assert_eq!(lines[25], ("error".to_string(), "  [invalid_json] bad line".to_string()));
    assert_eq!(lines[26], ("error".to_string(), "  [] ".to_string()));
    assert_eq!(lines[27], (String::new(), String::new()));
    assert_eq!(lines[28], ("Metadata:".to_string(), String::new()));
    assert_eq!(lines[29], ("team".to_string(), "\"ml\"".to_string()));
    assert_eq!(lines.len(), 30);
}

#[test]
fn details_skip_empty_sections() {
    let mut b = row_batch("batch_3", "validating", 10);
    b.request_counts = Some(RequestCounts { total: 0, completed: 0, failed: 0 });
    b.errors = Some(BatchErrors { data: Vec::new() });
    b.metadata = Some(Vec::new());
    let lines: Vec<(String, String)> = detail_lines(&b).iter().map(field).collect();
    assert_eq!(lines.len(), 22);
    assert_eq!(lines[17], ("Failed".to_string(), "0".to_string()));
    assert_eq!(lines[18], (String::new(), String::new()));
}

#[test]
fn footer_prefers_error_then_status() {
    let mut app = App::new(15);
    match app.footer() {
        FooterLine::Hint(t) => assert_eq!(t, " j/k or ↑/↓ select · r refresh · c cancel · s sort · ? help · q quit"),
        other => panic!("unexpected footer {other:?}"),
    }
    app.flash("saved".to_string());
    match app.footer() {
        FooterLine::Status(t) => assert_eq!(t, " saved"),
        other => panic!("unexpected footer {other:?}"),
    }
    app.set_error("boom".to_string());
    match app.footer() {
        FooterLine::Error(t) => assert_eq!(t, " error: boom"),
        other => panic!("unexpected footer {other:?}"),
    }
}

#[test]
fn header_texts() {
    let mut app = App::new(15);
    assert_eq!(app.refresh_info(), "loading…");
    assert_eq!(app.table_title(), " Batches (loading…) ");
    assert!(!app.shows_no_batches());
    app.set_batches_at(Vec::new(), 1_700_000_000);
    assert!(app.shows_no_batches());
    assert_eq!(app.table_title(), " Batches ");
    let info = app.refresh_info();
    assert!(info.starts_with("updated "));
    assert!(info.ends_with("  (next in 15s)"));
    assert_eq!(info.len(), "updated 12:34:56  (next in 15s)".len());
}

#[test]
fn selected_id_for_confirm_prompt() {
    let mut app = App::new(15);
    assert_eq!(app.selected_id(), "");
    app.set_batches_at(vec![row_batch("batch_x", "validating", 1)], 5);
    assert_eq!(app.selected_id(), "batch_x");
}

#[test]
fn help_popup_wins_over_confirmation() {
    let mut app = App::new(15);
    assert_eq!(app.popup(), Popup::Hidden);
    app.confirm_cancel = true;
    assert_eq!(app.popup(), Popup::ConfirmCancel);
    app.show_help = true;
    assert_eq!(app.popup(), Popup::Help);
}

#[test]
fn fmt_ts_before_1970() {
    let s = fmt_ts(Some(-86_400 * 365));
    assert_eq!(s.len(), 14);
    assert_eq!(&s[2..3], "-");
}
