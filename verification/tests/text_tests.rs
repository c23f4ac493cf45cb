use omarchy_batch_monitor::text::{
    compare_str, decimal_string, padded_end, short_id, str_eq, trimmed_end_slashes,
    Cmp3,
};

#[test]
fn compare_str_orders_by_bytes() {
    assert_eq!(compare_str("a", "b"), Cmp3::Less);
    assert_eq!(compare_str("b", "a"), Cmp3::Greater);
    assert_eq!(compare_str("abc", "abc"), Cmp3::Equal);
    assert_eq!(compare_str("ab", "abc"), Cmp3::Less);
    assert_eq!(compare_str("", ""), Cmp3::Equal);
    assert_eq!(compare_str("", "a"), Cmp3::Less);
    assert_eq!(compare_str("Z", "a"), Cmp3::Less);
    assert_eq!(compare_str("é", "z"), Cmp3::Greater);
    assert_eq!(compare_str("failed", "expired"), Cmp3::Greater);
}

#[test]
fn compare_str_agrees_with_std_ord() {
    let words = ["", "a", "ab", "b", "cancelled", "cancelling", "completed", "é", "z", "Z"];
    for x in words.iter() {
        for y in words.iter() {
            let expected = match x.cmp(y) {
                std::cmp::Ordering::Less => Cmp3::Less,
                std::cmp::Ordering::Equal => Cmp3::Equal,
                std::cmp::Ordering::Greater => Cmp3::Greater,
            };
            assert_eq!(compare_str(x, y), expected);
        }
    }
}

#[test]
fn str_eq_compares_contents() {
    assert!(str_eq("in_progress", "in_progress"));
    assert!(!str_eq("in_progress", "in_progres"));
    assert!(!str_eq("", "x"));
}

#[test]
fn decimal_string_writes_numbers() {
    assert_eq!(decimal_string(0), "0");
    assert_eq!(decimal_string(7), "7");
    assert_eq!(decimal_string(10), "10");
    assert_eq!(decimal_string(12345), "12345");
    assert_eq!(decimal_string(u64::MAX), u64::MAX.to_string());
}

#[test]
fn trimmed_end_slashes_drops_trailing_slashes() {
    assert_eq!(trimmed_end_slashes("https://api.example.com/v1///"), "https://api.example.com/v1");
    assert_eq!(trimmed_end_slashes("https://api.example.com/v1"), "https://api.example.com/v1");
    assert_eq!(trimmed_end_slashes("///"), "");
    assert_eq!(trimmed_end_slashes(""), "");
    assert_eq!(trimmed_end_slashes("/a/b/"), "/a/b");
}

#[test]
fn padded_end_pads_to_width() {
    assert_eq!(padded_end("ID", 16), "ID              ");
    assert_eq!(padded_end("ID", 16).len(), 16);
    assert_eq!(padded_end("a label that is long", 16), "a label that is long");
    assert_eq!(padded_end("Übersicht", 12), "Übersicht   ");
    assert_eq!(padded_end("", 3), "   ");
}

#[test]
fn short_id_keeps_short_ids() {
    assert_eq!(short_id("batch_abc"), "batch_abc");
    assert_eq!(short_id("batch_0123456789abcdef"), "batch_0123456789abcdef");
    assert_eq!("batch_0123456789abcdef".len(), 22);
}

#[test]
fn short_id_cuts_long_ids() {
    let id = "batch_0123456789abcdefg";
    assert_eq!(id.len(), 23);
    assert_eq!(short_id(id), "batch_01234567…defg");
    assert_eq!(short_id("batch_6789abcdef0123456789abcdef"), "batch_6789abcd…cdef");
}
