//! What the screen shows, as plain values: colours, table rows, header
//! counts, the details panel and the footer.

use vstd::prelude::*;
use crate::app::App;
use crate::batch::{Batch, BatchError, BatchErrors, RequestCounts};
use crate::clock::{
    fixed_offset_time, fixed_offset_time_text, in_formatted_range, is_month_day_time_text,
    is_time_of_day_text, is_utc_offset, local_offset_secs, month_day_time_format,
    time_of_day_format,
};
use crate::text::{Cmp3, compare_str, str_lt, lemma_str_lt_strict, lemma_str_lt_transitive, decimal_string, decimal_text, short_id, short_id_cuttable, short_id_text, str_eq};

verus! {

/// The colour in which a status is shown.
#[derive(Debug, Clone, Copy, PartialEq, Eq, Structural)]
pub enum StatusColor {
    Yellow,
    Cyan,
    Magenta,
    Green,
    Red,
    DarkGray,
    Gray,
    White,
}

/// The colour of each status; unknown statuses are white.
pub open spec fn color_of_status(s: Seq<char>) -> StatusColor {
    if s == "validating"@ {
        StatusColor::Yellow
    } else if s == "in_progress"@ {
        StatusColor::Cyan
    } else if s == "finalizing"@ {
        StatusColor::Magenta
    } else if s == "completed"@ {
        StatusColor::Green
    } else if s == "failed"@ {
        StatusColor::Red
    } else if s == "expired"@ {
        StatusColor::DarkGray
    } else if s == "cancelling"@ {
        StatusColor::Yellow
    } else if s == "cancelled"@ {
        StatusColor::Gray
    } else {
        StatusColor::White
    }
}

/// Each known status has its own colour: validating and cancelling yellow, in
/// progress cyan, finalizing magenta, completed green, failed red, expired
/// dark gray, cancelled gray; every other status is white.
pub proof fn lemma_status_colors(s: Seq<char>)
    ensures
        s == "validating"@ ==> color_of_status(s) == StatusColor::Yellow,
        s == "in_progress"@ ==> color_of_status(s) == StatusColor::Cyan,
        s == "finalizing"@ ==> color_of_status(s) == StatusColor::Magenta,
        s == "completed"@ ==> color_of_status(s) == StatusColor::Green,
        s == "failed"@ ==> color_of_status(s) == StatusColor::Red,
        s == "expired"@ ==> color_of_status(s) == StatusColor::DarkGray,
        s == "cancelling"@ ==> color_of_status(s) == StatusColor::Yellow,
        s == "cancelled"@ ==> color_of_status(s) == StatusColor::Gray,
        s != "validating"@ && s != "in_progress"@ && s != "finalizing"@ && s != "completed"@ && s
            != "failed"@ && s != "expired"@ && s != "cancelling"@ && s != "cancelled"@
            ==> color_of_status(s) == StatusColor::White,
{
    reveal_strlit("validating");
    reveal_strlit("in_progress");
    reveal_strlit("finalizing");
    reveal_strlit("completed");
    reveal_strlit("failed");
    reveal_strlit("expired");
    reveal_strlit("cancelling");
    reveal_strlit("cancelled");
    assert("validating"@.len() == 10 && "validating"@[0] == 'v' && "validating"@[1] == 'a');
    assert("in_progress"@.len() == 11 && "in_progress"@[0] == 'i' && "in_progress"@[1] == 'n');
    assert("finalizing"@.len() == 10 && "finalizing"@[0] == 'f' && "finalizing"@[1] == 'i');
    assert("completed"@.len() == 9 && "completed"@[0] == 'c' && "completed"@[1] == 'o');
    assert("failed"@.len() == 6 && "failed"@[0] == 'f' && "failed"@[1] == 'a');
    assert("expired"@.len() == 7 && "expired"@[0] == 'e' && "expired"@[1] == 'x');
    assert("cancelling"@.len() == 10 && "cancelling"@[0] == 'c' && "cancelling"@[1] == 'a');
    assert("cancelled"@.len() == 9 && "cancelled"@[0] == 'c' && "cancelled"@[1] == 'a');
}

/// The colour in which `status` is shown.
pub fn status_color(status: &str) -> (r: StatusColor)
    ensures
        r == color_of_status(status@),
{
    if str_eq(status, "validating") {
        StatusColor::Yellow
    } else if str_eq(status, "in_progress") {
        StatusColor::Cyan
    } else if str_eq(status, "finalizing") {
        StatusColor::Magenta
    } else if str_eq(status, "completed") {
        StatusColor::Green
    } else if str_eq(status, "failed") {
        StatusColor::Red
    } else if str_eq(status, "expired") {
        StatusColor::DarkGray
    } else if str_eq(status, "cancelling") {
        StatusColor::Yellow
    } else if str_eq(status, "cancelled") {
        StatusColor::Gray
    } else {
        StatusColor::White
    }
}

/// Timestamp `ts` written in format `fmt` in the machine's time zone, or
/// `-` where chrono has no such time: the text chrono gives for `ts` at some
/// UTC offset (the machine's at `ts`).
fn local_time_string(ts: i64, fmt: &str) -> (r: String)
    requires
        fmt@ == month_day_time_format() || fmt@ == time_of_day_format(),
    ensures
        r@ == "-"@ || exists|off: i32|
            is_utc_offset(off) && #[trigger] fixed_offset_time(ts, off, fmt@) == Some(r@),
        in_formatted_range(ts) ==> exists|off: i32|
            is_utc_offset(off) && #[trigger] fixed_offset_time(ts, off, fmt@) == Some(r@),
        r@ == "-"@ || (fmt@ == month_day_time_format() ==> is_month_day_time_text(r@)),
        r@ == "-"@ || (fmt@ == time_of_day_format() ==> is_time_of_day_text(r@)),
        in_formatted_range(ts) ==> (fmt@ == month_day_time_format() ==> is_month_day_time_text(r@)),
        in_formatted_range(ts) ==> (fmt@ == time_of_day_format() ==> is_time_of_day_text(r@)),
{
    match local_offset_secs(ts) {
        Some(off) => match fixed_offset_time_text(ts, off, fmt) {
            Some(t) => {
                assert(fixed_offset_time(ts, off, fmt@) == Some(t@));
                t
            },
            None => String::from_str("-"),
        },
        None => String::from_str("-"),
    }
}

/// A time as the screen shows it: month, day and time of day (`MM-DD
/// hh:mm:ss`) in the machine's time zone, or `-` where there is no time or
/// chrono has none for it.
pub fn fmt_ts(ts: Option<i64>) -> (r: String)
    ensures
        ts is None ==> r@ == "-"@,
        ts is Some ==> (r@ == "-"@ || exists|off: i32|
            is_utc_offset(off) && #[trigger] fixed_offset_time(ts->0, off, month_day_time_format())
                == Some(r@)),
        ts is Some && in_formatted_range(ts->0) ==> exists|off: i32|
            is_utc_offset(off) && #[trigger] fixed_offset_time(ts->0, off, month_day_time_format())
                == Some(r@),
        ts is Some ==> (r@ == "-"@ || is_month_day_time_text(r@)),
        ts matches Some(t) && in_formatted_range(t) ==> is_month_day_time_text(r@),
{
    match ts {
        Some(t) => {
            let r = local_time_string(t, "%m-%d %H:%M:%S");
            proof {
                if r@ != "-"@ || in_formatted_range(t) {
                    let off = choose|off: i32|
                        is_utc_offset(off) && #[trigger] fixed_offset_time(t, off, "%m-%d %H:%M:%S"@)
                            == Some(r@);
                    assert(fixed_offset_time(t, off, month_day_time_format()) == Some(r@));
                }
            }
            r
        },
        None => String::from_str("-"),
    }
}

/// The progress column: `completed/total (failed failed)` where there are
/// requests, `0/0` where there are none, `-` where the counts are unknown.
pub open spec fn progress_text(rc: Option<RequestCounts>) -> Seq<char> {
    match rc {
        Some(c) => if c.total > 0 {
            decimal_text(c.completed as nat) + "/"@ + decimal_text(c.total as nat) + " ("@
                + decimal_text(c.failed as nat) + " failed)"@
        } else {
            "0/0"@
        },
        None => "-"@,
    }
}

/// The progress column reads `completed/total (failed failed)` exactly when
/// there are requests; `0/0` only when the counts are known and there are none;
/// `-` only when the counts are unknown.
pub proof fn lemma_progress_text_shows_counts(rc: Option<RequestCounts>)
    ensures
        rc matches Some(c) ==> (c.total > 0 ==> progress_text(rc) == decimal_text(
            c.completed as nat,
        ) + "/"@ + decimal_text(c.total as nat) + " ("@ + decimal_text(c.failed as nat)
            + " failed)"@),
        rc matches Some(c) ==> (c.total == 0 ==> progress_text(rc) == "0/0"@),
        rc is None ==> progress_text(rc) == "-"@,
{
}

/// The progress column of a batch with request counts `rc`.
pub fn progress_string(rc: Option<RequestCounts>) -> (r: String)
    ensures
        r@ == progress_text(rc),
        rc matches Some(c) ==> (c.total > 0 ==> r@ == decimal_text(c.completed as nat) + "/"@
            + decimal_text(c.total as nat) + " ("@ + decimal_text(c.failed as nat) + " failed)"@),
        rc matches Some(c) ==> (c.total == 0 ==> r@ == "0/0"@),
        rc is None ==> r@ == "-"@,
{
    proof {
        lemma_progress_text_shows_counts(rc);
    }
    match rc {
        Some(c) => if c.total > 0 {
            decimal_string(c.completed).concat("/").concat(decimal_string(c.total).as_str()).concat(
                " (",
            ).concat(decimal_string(c.failed).as_str()).concat(" failed)")
        } else {
            String::from_str("0/0")
        },
        None => String::from_str("-"),
    }
}

/// One row of the batch table.
#[derive(Debug, Clone)]
pub struct TableRow {
    pub id: String,
    pub status: String,
    pub color: StatusColor,
    pub endpoint: String,
    /// Shown with `fmt_ts`.
    pub created_at: i64,
    pub progress: String,
}

/// The table row of batch `b`.
pub fn table_row(b: &Batch) -> (r: TableRow)
    requires
        short_id_cuttable(b.id@),
    ensures
        r.id@ == short_id_text(b.id@),
        r.status@ == b.status@,
        r.color == color_of_status(b.status@),
        r.endpoint@ == b.endpoint@,
        r.created_at == b.created_at,
        r.progress@ == progress_text(b.request_counts),
        b.request_counts matches Some(c) ==> (c.total > 0 ==> r.progress@ == decimal_text(
            c.completed as nat,
        ) + "/"@ + decimal_text(c.total as nat) + " ("@ + decimal_text(c.failed as nat)
            + " failed)"@),
        b.request_counts matches Some(c) ==> (c.total == 0 ==> r.progress@ == "0/0"@),
        b.request_counts is None ==> r.progress@ == "-"@,
{
    TableRow {
        id: short_id(b.id.as_str()),
        status: b.status.clone(),
        color: status_color(b.status.as_str()),
        endpoint: b.endpoint.clone(),
        created_at: b.created_at,
        progress: progress_string(b.request_counts),
    }
}

/// The batches with status `status`.
pub open spec fn has_status(status: Seq<char>) -> spec_fn(Batch) -> bool {
    |b: Batch| b.status@ == status
}

/// How many of `batches` have status `status`.
pub open spec fn status_count(batches: Seq<Batch>, status: Seq<char>) -> nat {
    batches.filter(has_status(status)).len()
}

/// The statuses of a tally.
pub open spec fn tally_statuses(tally: Seq<(String, usize)>) -> Seq<Seq<char>> {
    tally.map_values(|e: (String, usize)| e.0@)
}

/// The sum of the counts of a tally.
pub open spec fn tally_total(tally: Seq<(String, usize)>) -> int
    decreases tally.len(),
{
    if tally.len() == 0 {
        0
    } else {
        tally_total(tally.drop_last()) + tally.last().1
    }
}

/// `tally` counts the statuses of `batches`: one entry per status that
/// occurs, in increasing order of the statuses as strings compare, each with
/// the number of batches that have it.
pub open spec fn is_status_tally(batches: Seq<Batch>, tally: Seq<(String, usize)>) -> bool {
    &&& forall|i: int, j: int|
        0 <= i < j < tally.len() ==> str_lt(#[trigger] tally[i].0@, #[trigger] tally[j].0@)
    &&& forall|i: int|
        0 <= i < tally.len() ==> #[trigger] tally[i].1 == status_count(batches, tally[i].0@)
            && tally[i].1 > 0
    &&& forall|k: int|
        0 <= k < batches.len() ==> tally_statuses(tally).contains(#[trigger] batches[k].status@)
}

/// The total of a tally splits over a concatenation.
pub proof fn lemma_tally_total_add(a: Seq<(String, usize)>, b: Seq<(String, usize)>)
    ensures
        tally_total(a + b) == tally_total(a) + tally_total(b),
    decreases b.len(),
{
    if b.len() == 0 {
        assert(a + b =~= a);
    } else {
        assert((a + b).drop_last() =~= a + b.drop_last());
        lemma_tally_total_add(a, b.drop_last());
    }
}

/// Replacing entry `i` of a tally changes its total by the change of the count.
proof fn lemma_tally_total_update(t: Seq<(String, usize)>, i: int, e: (String, usize))
    requires
        0 <= i < t.len(),
    ensures
        tally_total(t.update(i, e)) == tally_total(t) - t[i].1 + e.1,
{
    let a = t.take(i);
    let c = t.skip(i + 1);
    assert(t =~= a + seq![t[i]] + c);
    assert(t.update(i, e) =~= a + seq![e] + c);
    lemma_tally_total_add(a + seq![t[i]], c);
    lemma_tally_total_add(a, seq![t[i]]);
    lemma_tally_total_add(a + seq![e], c);
    lemma_tally_total_add(a, seq![e]);
    assert(seq![t[i]].drop_last() =~= Seq::<(String, usize)>::empty());
    assert(seq![e].drop_last() =~= Seq::<(String, usize)>::empty());
}

/// Inserting an entry adds its count to the total.
proof fn lemma_tally_total_insert(t: Seq<(String, usize)>, i: int, e: (String, usize))
    requires
        0 <= i <= t.len(),
    ensures
        tally_total(t.insert(i, e)) == tally_total(t) + e.1,
{
    let a = t.take(i);
    let c = t.skip(i);
    assert(t =~= a + c);
    assert(t.insert(i, e) =~= a + seq![e] + c);
    lemma_tally_total_add(a + seq![e], c);
    lemma_tally_total_add(a, seq![e]);
    lemma_tally_total_add(a, c);
    assert(seq![e].drop_last() =~= Seq::<(String, usize)>::empty());
    assert(tally_total(Seq::<(String, usize)>::empty()) == 0);
    assert(tally_total(seq![e]) == e.1);
}

/// The statuses of a tally are its entries' strings, index by index.
proof fn lemma_tally_statuses_index(t: Seq<(String, usize)>)
    ensures
        tally_statuses(t).len() == t.len(),
        forall|j: int| 0 <= j < t.len() ==> #[trigger] tally_statuses(t)[j] == t[j].0@,
{
}

/// The entries of a tally are ordered strictly, so no two entries share a
/// status, and each entry's status differs from any status strictly between
/// its neighbours.
proof fn lemma_tally_distinct(t: Seq<(String, usize)>, i: int, j: int)
    requires
        forall|a: int, b: int| 0 <= a < b < t.len() ==> str_lt(#[trigger] t[a].0@, #[trigger] t[b].0@),
        0 <= i < t.len(),
        0 <= j < t.len(),
        i != j,
    ensures
        t[i].0@ != t[j].0@,
{
    lemma_str_lt_strict(t[i].0@, t[j].0@);
    lemma_str_lt_strict(t[j].0@, t[i].0@);
}

/// Counting one more batch whose status already has entry `i`.
proof fn lemma_tally_bump(prev: Seq<Batch>, b: Batch, t: Seq<(String, usize)>, i: int)
    requires
        is_status_tally(prev, t),
        0 <= i < t.len(),
        t[i].0@ == b.status@,
        t[i].1 < usize::MAX,
    ensures
        is_status_tally(prev.push(b), t.update(i, (t[i].0, (t[i].1 + 1) as usize))),
{
    let next = prev.push(b);
    let nt = t.update(i, (t[i].0, (t[i].1 + 1) as usize));
    lemma_tally_statuses_index(t);
    lemma_tally_statuses_index(nt);
    assert(tally_statuses(nt) =~= tally_statuses(t));
    assert forall|a: int, c: int| 0 <= a < c < nt.len() implies str_lt(#[trigger] nt[a].0@, #[trigger] nt[c].0@) by {
        assert(nt[a].0 == t[a].0 && nt[c].0 == t[c].0);
    }
    assert forall|j: int| 0 <= j < nt.len() implies #[trigger] nt[j].1 == status_count(next, nt[j].0@)
        && nt[j].1 > 0 by {
        prev.lemma_filter_push(b, has_status(nt[j].0@));
        if j != i {
            lemma_tally_distinct(t, i, j);
        }
    }
    assert forall|k: int| 0 <= k < next.len() implies tally_statuses(nt).contains(
        #[trigger] next[k].status@,
    ) by {
        if k < prev.len() {
            assert(next[k] == prev[k]);
        } else {
            assert(tally_statuses(nt)[i] == b.status@);
        }
    }
}

/// Counting one more batch, of a status that gets a new entry at `i`.
proof fn lemma_tally_add(prev: Seq<Batch>, b: Batch, t: Seq<(String, usize)>, i: int, name: String)
    requires
        is_status_tally(prev, t),
        0 <= i <= t.len(),
        forall|j: int| 0 <= j < i ==> str_lt(#[trigger] t[j].0@, b.status@),
        i < t.len() ==> str_lt(b.status@, t[i].0@),
        name@ == b.status@,
    ensures
        is_status_tally(prev.push(b), t.insert(i, (name, 1usize))),
{
    let next = prev.push(b);
    let st = b.status@;
    let nt = t.insert(i, (name, 1usize));
    t.insert_ensures(i, (name, 1usize));
    lemma_tally_statuses_index(t);
    lemma_tally_statuses_index(nt);
    // Every entry's status is below or above the new one.
    assert forall|j: int| 0 <= j < t.len() implies t[j].0@ != st by {
        if j < i {
            lemma_str_lt_strict(t[j].0@, st);
        } else {
            if j > i {
                lemma_str_lt_transitive(st, t[i].0@, t[j].0@);
            }
            lemma_str_lt_strict(st, t[j].0@);
        }
    }
    // So no earlier batch has the new status.
    let pst = has_status(st);
    assert forall|k: int| 0 <= k < prev.len() implies !pst(#[trigger] prev[k]) by {
        assert(tally_statuses(t).contains(prev[k].status@));
        let j = choose|j: int| 0 <= j < tally_statuses(t).len() && tally_statuses(t)[j] == prev[k].status@;
        assert(t[j].0@ == prev[k].status@);
    }
    assert(prev.all(|x: Batch| !pst(x)));
    prev.lemma_all_neg_filter_empty(pst);
    prev.lemma_filter_push(b, pst);
    // Order.
    assert forall|a: int, c: int| 0 <= a < c < nt.len() implies str_lt(#[trigger] nt[a].0@, #[trigger] nt[c].0@) by {
        if c < i {
            assert(nt[a] == t[a] && nt[c] == t[c]);
        } else if c == i {
            assert(nt[a] == t[a]);
        } else if a < i {
            assert(nt[a] == t[a] && nt[c] == t[c - 1]);
            lemma_str_lt_transitive(t[a].0@, st, t[i].0@);
            if c - 1 > i {
                lemma_str_lt_transitive(t[a].0@, t[i].0@, t[c - 1].0@);
            }
        } else if a == i {
            assert(nt[c] == t[c - 1]);
            if c - 1 > i {
                lemma_str_lt_transitive(st, t[i].0@, t[c - 1].0@);
            }
        } else {
            assert(nt[a] == t[a - 1] && nt[c] == t[c - 1]);
        }
    }
    // Counts.
    assert forall|j: int| 0 <= j < nt.len() implies #[trigger] nt[j].1 == status_count(next, nt[j].0@)
        && nt[j].1 > 0 by {
        if j == i {
        } else {
            let jj = if j < i { j } else { j - 1 };
            assert(nt[j] == t[jj]);
            prev.lemma_filter_push(b, has_status(t[jj].0@));
        }
    }
    // Every status occurs.
    assert forall|k: int| 0 <= k < next.len() implies tally_statuses(nt).contains(
        #[trigger] next[k].status@,
    ) by {
        if k < prev.len() {
            assert(next[k] == prev[k]);
            assert(tally_statuses(t).contains(prev[k].status@));
            let j = choose|j: int| 0 <= j < tally_statuses(t).len() && tally_statuses(t)[j] == prev[k].status@;
            if j < i {
                assert(tally_statuses(nt)[j] == prev[k].status@);
            } else {
                assert(tally_statuses(nt)[j + 1] == prev[k].status@);
            }
        } else {
            assert(tally_statuses(nt)[i] == st);
        }
    }
}

/// Where status `st` belongs in `tally`: the first entry whose status is not
/// below it, and whether that entry has it.
fn tally_position(tally: &Vec<(String, usize)>, st: &str) -> (r: (usize, bool))
    ensures
        r.0 <= tally@.len(),
        forall|j: int| 0 <= j < r.0 ==> str_lt(#[trigger] tally@[j].0@, st@),
        r.1 ==> r.0 < tally@.len() && tally@[r.0 as int].0@ == st@,
        !r.1 ==> (r.0 < tally@.len() ==> str_lt(st@, tally@[r.0 as int].0@)),
{
    let mut i: usize = 0;
    while i < tally.len()
        invariant
            i <= tally@.len(),
            forall|j: int| 0 <= j < i ==> str_lt(#[trigger] tally@[j].0@, st@),
        decreases tally@.len() - i,
    {
        match compare_str(tally[i].0.as_str(), st) {
            Cmp3::Less => {},
            Cmp3::Equal => {
                return (i, true);
            },
            Cmp3::Greater => {
                return (i, false);
            },
        }
        i = i + 1;
    }
    (i, false)
}

/// Counts the batches of each status, in increasing order of the statuses.
pub fn status_counts(batches: &Vec<Batch>) -> (tally: Vec<(String, usize)>)
    ensures
        is_status_tally(batches@, tally@),
        tally_total(tally@) == batches@.len(),
{
    let mut tally: Vec<(String, usize)> = Vec::new();
    let mut k: usize = 0;
    assert(batches@.take(0) =~= Seq::<Batch>::empty());
    proof {
        lemma_tally_statuses_index(tally@);
    }
    while k < batches.len()
        invariant
            k <= batches@.len(),
            is_status_tally(batches@.take(k as int), tally@),
            tally_total(tally@) == k,
            forall|i: int| 0 <= i < tally@.len() ==> #[trigger] tally@[i].1 <= k,
        decreases batches@.len() - k,
    {
        let ghost prev = batches@.take(k as int);
        let ghost old_tally = tally@;
        let b = &batches[k];
        assert(batches@.take(k + 1) =~= prev.push(*b));
        let (i, found) = tally_position(&tally, b.status.as_str());
        if found {
            let name = tally[i].0.clone();
            let c = tally[i].1;
            proof {
                lemma_tally_bump(prev, *b, old_tally, i as int);
                lemma_tally_total_update(old_tally, i as int, (name, (c + 1) as usize));
            }
            tally.set(i, (name, c + 1));
        } else {
            let name = b.status.clone();
            proof {
                lemma_tally_add(prev, *b, old_tally, i as int, name);
                lemma_tally_total_insert(old_tally, i as int, (name, 1usize));
                old_tally.insert_ensures(i as int, (name, 1usize));
            }
            tally.insert(i, (name, 1));
        }
        k = k + 1;
    }
    assert(batches@.take(k as int) =~= batches@);
    tally
}

/// The value of a line of the details panel.
#[derive(Debug, Clone)]
pub enum DetailValue {
    Text(String),
    /// A time, shown with `fmt_ts`.
    Time(Option<i64>),
    /// The share of completed requests, `completed` of `total`, shown as a
    /// percentage with one decimal.
    Percent(u64, u64),
}

/// A line of the details panel.
#[derive(Debug, Clone)]
pub enum DetailLine {
    /// A label and its value.
    Field(String, DetailValue),
    Blank,
    /// The heading of the error list.
    ErrorsHeading,
    /// One error of the batch.
    ErrorItem(String),
    /// The heading of the metadata entries.
    MetadataHeading,
}

/// A detail value as plain values.
pub enum DetailValueView {
    Text(Seq<char>),
    Time(Option<i64>),
    Percent(u64, u64),
}

/// A detail line as plain values.
pub enum DetailLineView {
    Field(Seq<char>, DetailValueView),
    Blank,
    ErrorsHeading,
    ErrorItem(Seq<char>),
    MetadataHeading,
}

impl View for DetailValue {
    type V = DetailValueView;

    open spec fn view(&self) -> DetailValueView {
        match self {
            DetailValue::Text(t) => DetailValueView::Text(t@),
            DetailValue::Time(t) => DetailValueView::Time(*t),
            DetailValue::Percent(c, t) => DetailValueView::Percent(*c, *t),
        }
    }
}

impl View for DetailLine {
    type V = DetailLineView;

    open spec fn view(&self) -> DetailLineView {
        match self {
            DetailLine::Field(l, v) => DetailLineView::Field(l@, v@),
            DetailLine::Blank => DetailLineView::Blank,
            DetailLine::ErrorsHeading => DetailLineView::ErrorsHeading,
            DetailLine::ErrorItem(t) => DetailLineView::ErrorItem(t@),
            DetailLine::MetadataHeading => DetailLineView::MetadataHeading,
        }
    }
}

/// The lines as plain values.
pub open spec fn lines_view(lines: Seq<DetailLine>) -> Seq<DetailLineView> {
    lines.map_values(|l: DetailLine| l@)
}

/// A field with a text value.
pub open spec fn text_field(label: Seq<char>, value: Seq<char>) -> DetailLineView {
    DetailLineView::Field(label, DetailValueView::Text(value))
}

/// A field with a time value.
pub open spec fn time_field(label: Seq<char>, t: Option<i64>) -> DetailLineView {
    DetailLineView::Field(label, DetailValueView::Time(t))
}

/// An optional string, or `-` where it is absent.
pub open spec fn or_dash(o: Option<String>) -> Seq<char> {
    match o {
        Some(s) => s@,
        None => "-"@,
    }
}

/// A present string is shown as it is, an absent one as `-`.
pub proof fn lemma_or_dash(o: Option<String>)
    ensures
        o matches Some(s) ==> or_dash(o) == s@,
        o is None ==> or_dash(o) == "-"@,
{
}

/// An optional string, or the empty string where it is absent.
pub open spec fn or_empty(o: Option<String>) -> Seq<char> {
    match o {
        Some(s) => s@,
        None => Seq::empty(),
    }
}

/// A present string is shown as it is, an absent one as nothing.
pub proof fn lemma_or_empty(o: Option<String>)
    ensures
        o matches Some(s) ==> or_empty(o) == s@,
        o is None ==> or_empty(o).len() == 0,
{
}

/// The identity and the times of a batch.
pub open spec fn head_lines(b: Batch) -> Seq<DetailLineView> {
    seq![
        text_field("ID"@, b.id@),
        text_field("Status"@, b.status@),
        text_field("Endpoint"@, b.endpoint@),
        text_field("Window"@, or_dash(b.completion_window)),
        DetailLineView::Blank,
        time_field("Created"@, Some(b.created_at)),
        time_field("In progress"@, b.in_progress_at),
        time_field("Finalizing"@, b.finalizing_at),
        time_field("Completed"@, b.completed_at),
        time_field("Failed"@, b.failed_at),
        time_field("Expired"@, b.expired_at),
        time_field("Cancelling"@, b.cancelling_at),
        time_field("Cancelled"@, b.cancelled_at),
        time_field("Expires at"@, b.expires_at),
        DetailLineView::Blank,
    ]
}

/// The request counts, where known, with the progress where there are requests.
pub open spec fn count_lines(rc: Option<RequestCounts>) -> Seq<DetailLineView> {
    match rc {
        Some(c) => seq![
            text_field("Total"@, decimal_text(c.total as nat)),
            text_field("Completed"@, decimal_text(c.completed as nat)),
            text_field("Failed"@, decimal_text(c.failed as nat)),
        ] + if c.total > 0 {
            seq![DetailLineView::Field("Progress"@, DetailValueView::Percent(c.completed, c.total))]
        } else {
            Seq::empty()
        } + seq![DetailLineView::Blank],
        None => Seq::empty(),
    }
}

/// The files of a batch.
pub open spec fn file_lines(b: Batch) -> Seq<DetailLineView> {
    seq![
        text_field("Input file"@, or_dash(b.input_file_id)),
        text_field("Output file"@, or_dash(b.output_file_id)),
        text_field("Error file"@, or_dash(b.error_file_id)),
    ]
}

/// An error as the details panel lists it: `  [code] message`.
pub open spec fn error_item_text(e: BatchError) -> Seq<char> {
    "  ["@ + or_empty(e.code) + "] "@ + or_empty(e.message)
}

/// The errors of a batch, where there are any.
pub open spec fn error_lines(errors: Option<BatchErrors>) -> Seq<DetailLineView> {
    match errors {
        Some(e) => if e.data@.len() > 0 {
            seq![DetailLineView::Blank, DetailLineView::ErrorsHeading] + e.data@.map_values(
                |x: BatchError| DetailLineView::ErrorItem(error_item_text(x)),
            )
        } else {
            Seq::empty()
        },
        None => Seq::empty(),
    }
}

/// The metadata entries of a batch, where there are any.
pub open spec fn metadata_lines(metadata: Option<Vec<(String, String)>>) -> Seq<DetailLineView> {
    match metadata {
        Some(m) => if m@.len() > 0 {
            seq![DetailLineView::Blank, DetailLineView::MetadataHeading] + m@.map_values(
                |kv: (String, String)| text_field(kv.0@, kv.1@),
            )
        } else {
            Seq::empty()
        },
        None => Seq::empty(),
    }
}

/// The details panel of batch `b`.
pub open spec fn detail_lines_of(b: Batch) -> Seq<DetailLineView> {
    head_lines(b) + count_lines(b.request_counts) + file_lines(b) + error_lines(b.errors)
        + metadata_lines(b.metadata)
}

/// Where the files stand in the details panel of batch `b`: after the 15
/// lines of identity and times, and after the request counts (three counts,
/// the progress where there are requests, and a blank line) where they are
/// known.
pub open spec fn files_index(b: Batch) -> int {
    15 + match b.request_counts {
        Some(c) => if c.total > 0 {
            5int
        } else {
            4int
        },
        None => 0int,
    }
}

/// Where the metadata stand in the details panel of batch `b`: after the
/// files, and after a blank line, a heading and one line per error where there
/// are errors.
pub open spec fn metadata_index(b: Batch) -> int {
    files_index(b) + 3 + match b.errors {
        Some(e) => if e.data@.len() > 0 {
            2 + e.data@.len() as int
        } else {
            0int
        },
        None => 0int,
    }
}

/// What each line of the details panel shows. The identity comes first (id,
/// status, endpoint, completion window or `-`), then every time under its own
/// label, then the request counts where they are known (total, completed,
/// failed, and the progress `completed` of `total` where there are requests),
/// then the input, output and error file ids (each `-` where absent), then
/// each error as `  [code] message`, then each metadata entry as a field.
pub proof fn lemma_detail_lines_fields(b: Batch)
    ensures
        ({
            let v = detail_lines_of(b);
            let f = files_index(b);
            &&& v[0] == text_field("ID"@, b.id@)
            &&& v[1] == text_field("Status"@, b.status@)
            &&& v[2] == text_field("Endpoint"@, b.endpoint@)
            &&& v[3] == text_field("Window"@, or_dash(b.completion_window))
            &&& v[4] == DetailLineView::Blank
            &&& v[5] == time_field("Created"@, Some(b.created_at))
            &&& v[6] == time_field("In progress"@, b.in_progress_at)
            &&& v[7] == time_field("Finalizing"@, b.finalizing_at)
            &&& v[8] == time_field("Completed"@, b.completed_at)
            &&& v[9] == time_field("Failed"@, b.failed_at)
            &&& v[10] == time_field("Expired"@, b.expired_at)
            &&& v[11] == time_field("Cancelling"@, b.cancelling_at)
            &&& v[12] == time_field("Cancelled"@, b.cancelled_at)
            &&& v[13] == time_field("Expires at"@, b.expires_at)
            &&& v[14] == DetailLineView::Blank
            &&& b.request_counts matches Some(c) ==> {
                &&& v[15] == text_field("Total"@, decimal_text(c.total as nat))
                &&& v[16] == text_field("Completed"@, decimal_text(c.completed as nat))
                &&& v[17] == text_field("Failed"@, decimal_text(c.failed as nat))
                &&& c.total > 0 ==> v[18] == DetailLineView::Field(
                    "Progress"@,
                    DetailValueView::Percent(c.completed, c.total),
                )
                &&& v[f - 1] == DetailLineView::Blank
            }
            &&& v[f] == text_field("Input file"@, or_dash(b.input_file_id))
            &&& v[f + 1] == text_field("Output file"@, or_dash(b.output_file_id))
            &&& v[f + 2] == text_field("Error file"@, or_dash(b.error_file_id))
            &&& b.errors matches Some(e) ==> (e.data@.len() > 0 ==> {
                &&& v[f + 3] == DetailLineView::Blank
                &&& v[f + 4] == DetailLineView::ErrorsHeading
                &&& forall|i: int|
                    0 <= i < e.data@.len() ==> v[f + 5 + i] == DetailLineView::ErrorItem(
                        "  ["@ + or_empty(#[trigger] e.data@[i].code) + "] "@ + or_empty(
                            e.data@[i].message,
                        ),
                    )
            })
            &&& b.metadata matches Some(m) ==> (m@.len() > 0 ==> {
                &&& v[metadata_index(b)] == DetailLineView::Blank
                &&& v[metadata_index(b) + 1] == DetailLineView::MetadataHeading
                &&& forall|i: int|
                    0 <= i < m@.len() ==> v[metadata_index(b) + 2 + i] == text_field(
                        (#[trigger] m@[i]).0@,
                        m@[i].1@,
                    )
                &&& v.len() == metadata_index(b) + 2 + m@.len()
            })
            &&& (b.metadata is None || b.metadata->0@.len() == 0) ==> v.len() == metadata_index(b)
        }),
{
    let v = detail_lines_of(b);
    let f = files_index(b);
    let h = head_lines(b);
    let cl = count_lines(b.request_counts);
    let fl = file_lines(b);
    let el = error_lines(b.errors);
    let ml = metadata_lines(b.metadata);
    assert(h.len() == 15);
    assert(cl.len() == f - 15);
    assert(v == h + cl + fl + el + ml);
    assert(fl.len() == 3);
    let pre = h + cl + fl;
    assert(pre.len() == f + 3);
    assert forall|i: int| 0 <= i < pre.len() implies v[i] == pre[i] by {
        assert(v == pre + el + ml);
    }
    assert forall|i: int| 0 <= i < el.len() implies v[f + 3 + i] == el[i] by {
        assert(v == pre + el + ml);
        assert((pre + el)[f + 3 + i] == el[i]);
    }
    assert(el.len() == metadata_index(b) - f - 3);
    assert forall|i: int| 0 <= i < ml.len() implies v[metadata_index(b) + i] == ml[i] by {
        assert(v == (pre + el) + ml);
    }
    assert forall|i: int| 0 <= i < 15 implies pre[i] == h[i] by {}
    assert forall|i: int| 0 <= i < cl.len() implies pre[15 + i] == cl[i] by {}
    assert forall|i: int| 0 <= i < 3 implies pre[f + i] == fl[i] by {}
}

/// Appends `line` to `lines`.
fn push_line(lines: &mut Vec<DetailLine>, line: DetailLine)
    ensures
        lines_view(final(lines)@) == lines_view(old(lines)@).push(line@),
{
    lines.push(line);
    assert(lines_view(final(lines)@) =~= lines_view(old(lines)@).push(line@));
}

/// Appends a text field.
fn push_text(lines: &mut Vec<DetailLine>, label: &str, value: String)
    ensures
        lines_view(final(lines)@) == lines_view(old(lines)@).push(text_field(label@, value@)),
{
    push_line(lines, DetailLine::Field(String::from_str(label), DetailValue::Text(value)));
}

/// Appends a time field.
fn push_time(lines: &mut Vec<DetailLine>, label: &str, t: Option<i64>)
    ensures
        lines_view(final(lines)@) == lines_view(old(lines)@).push(time_field(label@, t)),
{
    push_line(lines, DetailLine::Field(String::from_str(label), DetailValue::Time(t)));
}

/// An optional string, or `-`.
fn string_or_dash(o: &Option<String>) -> (r: String)
    ensures
        r@ == or_dash(*o),
{
    match o {
        Some(s) => s.clone(),
        None => String::from_str("-"),
    }
}

/// An optional string, or the empty string.
fn str_or_empty(o: &Option<String>) -> (r: &str)
    ensures
        r@ == or_empty(*o),
{
    match o {
        Some(s) => s.as_str(),
        None => {
            proof {
                reveal_strlit("");
            }
            ""
        },
    }
}

/// The lines of the details panel of batch `b`.
#[verifier::spinoff_prover]
#[verifier::rlimit(30)]
pub fn detail_lines(b: &Batch) -> (lines: Vec<DetailLine>)
    ensures
        lines_view(lines@) == detail_lines_of(*b),
        lines_view(lines@)[files_index(*b)] == text_field("Input file"@, or_dash(b.input_file_id)),
        lines_view(lines@)[files_index(*b) + 1] == text_field(
            "Output file"@,
            or_dash(b.output_file_id),
        ),
        lines_view(lines@)[files_index(*b) + 2] == text_field(
            "Error file"@,
            or_dash(b.error_file_id),
        ),
{
    proof {
        lemma_detail_lines_fields(*b);
    }
    let mut lines: Vec<DetailLine> = Vec::new();
    push_text(&mut lines, "ID", b.id.clone());
    push_text(&mut lines, "Status", b.status.clone());
    push_text(&mut lines, "Endpoint", b.endpoint.clone());
    push_text(&mut lines, "Window", string_or_dash(&b.completion_window));
    push_line(&mut lines, DetailLine::Blank);
    push_time(&mut lines, "Created", Some(b.created_at));
    push_time(&mut lines, "In progress", b.in_progress_at);
    push_time(&mut lines, "Finalizing", b.finalizing_at);
    push_time(&mut lines, "Completed", b.completed_at);
    push_time(&mut lines, "Failed", b.failed_at);
    push_time(&mut lines, "Expired", b.expired_at);
    push_time(&mut lines, "Cancelling", b.cancelling_at);
    push_time(&mut lines, "Cancelled", b.cancelled_at);
    push_time(&mut lines, "Expires at", b.expires_at);
    push_line(&mut lines, DetailLine::Blank);
    assert(lines_view(lines@) =~= head_lines(*b));
    let ghost l1 = lines_view(lines@);
    if let Some(c) = b.request_counts {
        push_text(&mut lines, "Total", decimal_string(c.total));
        push_text(&mut lines, "Completed", decimal_string(c.completed));
        push_text(&mut lines, "Failed", decimal_string(c.failed));
        if c.total > 0 {
            push_line(
                &mut lines,
                DetailLine::Field(String::from_str("Progress"), DetailValue::Percent(c.completed, c.total)),
            );
        }
        push_line(&mut lines, DetailLine::Blank);
    }
    assert(lines_view(lines@) =~= l1 + count_lines(b.request_counts));
    let ghost l2 = lines_view(lines@);
    push_text(&mut lines, "Input file", string_or_dash(&b.input_file_id));
    push_text(&mut lines, "Output file", string_or_dash(&b.output_file_id));
    push_text(&mut lines, "Error file", string_or_dash(&b.error_file_id));
    assert(lines_view(lines@) =~= l2 + file_lines(*b));
    let ghost l3 = lines_view(lines@);
    if let Some(errors) = &b.errors {
        if errors.data.len() > 0 {
            push_line(&mut lines, DetailLine::Blank);
            push_line(&mut lines, DetailLine::ErrorsHeading);
            let ghost l4 = lines_view(lines@);
            let mut i: usize = 0;
            while i < errors.data.len()
                invariant
                    i <= errors.data@.len(),
                    lines_view(lines@) == l4 + errors.data@.take(i as int).map_values(
                        |x: BatchError| DetailLineView::ErrorItem(error_item_text(x)),
                    ),
                decreases errors.data@.len() - i,
            {
                let e = &errors.data[i];
                let text = String::from_str("  [").concat(str_or_empty(&e.code)).concat("] ").concat(
                    str_or_empty(&e.message),
                );
                push_line(&mut lines, DetailLine::ErrorItem(text));
                assert(errors.data@.take(i + 1) =~= errors.data@.take(i as int).push(*e));
                assert(lines_view(lines@) =~= l4 + errors.data@.take(i + 1).map_values(
                    |x: BatchError| DetailLineView::ErrorItem(error_item_text(x)),
                ));
                i = i + 1;
            }
            assert(errors.data@.take(i as int) =~= errors.data@);
        }
    }
    assert(lines_view(lines@) =~= l3 + error_lines(b.errors));
    let ghost l5 = lines_view(lines@);
    if let Some(m) = &b.metadata {
        if m.len() > 0 {
            push_line(&mut lines, DetailLine::Blank);
            push_line(&mut lines, DetailLine::MetadataHeading);
            let ghost l6 = lines_view(lines@);
            let mut i: usize = 0;
            while i < m.len()
                invariant
                    i <= m@.len(),
                    lines_view(lines@) == l6 + m@.take(i as int).map_values(
                        |kv: (String, String)| text_field(kv.0@, kv.1@),
                    ),
                decreases m@.len() - i,
            {
                let entry = &m[i];
                push_line(
                    &mut lines,
                    DetailLine::Field(entry.0.clone(), DetailValue::Text(entry.1.clone())),
                );
                assert(m@.take(i + 1) =~= m@.take(i as int).push(*entry));
                assert(lines_view(lines@) =~= l6 + m@.take(i + 1).map_values(
                    |kv: (String, String)| text_field(kv.0@, kv.1@),
                ));
                i = i + 1;
            }
            assert(m@.take(i as int) =~= m@);
        }
    }
    assert(lines_view(lines@) =~= l5 + metadata_lines(b.metadata));
    lines
}

/// The footer line.
#[derive(Debug, Clone)]
pub enum FooterLine {
    /// The last error, shown in red.
    Error(String),
    /// The status message, shown in green.
    Status(String),
    /// The key hints, shown dimmed.
    Hint(String),
}

/// The key hints of the footer.
pub open spec fn hint_text() -> Seq<char> {
    " j/k or ↑/↓ select · r refresh · c cancel · s sort · ? help · q quit"@
}

/// The refresh line of the header, with `time` the time of the last refresh
/// as the header shows it.
pub open spec fn refresh_info_text(time: Seq<char>, secs: u64) -> Seq<char> {
    "updated "@ + time + "  (next in "@ + decimal_text(secs as nat) + "s)"@
}

impl App {
    /// The title of the batch table.
    pub fn table_title(&self) -> (r: &'static str)
        ensures
            r@ == if self.loading {
                " Batches (loading…) "@
            } else {
                " Batches "@
            },
    {
        if self.loading {
            " Batches (loading…) "
        } else {
            " Batches "
        }
    }

    /// Whether the header says that there are no batches: the list is empty
    /// and no load is under way.
    pub fn shows_no_batches(&self) -> (r: bool)
        ensures
            r == (self.batches@.len() == 0 && !self.loading),
    {
        self.batches.len() == 0 && !self.loading
    }

    /// The refresh line of the header: when the list was last refreshed and
    /// when it is refreshed next, or `loading…` before the first refresh.
    pub fn refresh_info(&self) -> (r: String)
        ensures
            self.last_refresh is None ==> r@ == "loading…"@,
            self.last_refresh matches Some(t) ==> exists|time: Seq<char>|
                {
                    &&& r@ == #[trigger] refresh_info_text(time, self.seconds_until_refresh)
                    &&& (time == "-"@ || exists|off: i32|
                        is_utc_offset(off) && #[trigger] fixed_offset_time(t, off, time_of_day_format())
                            == Some(time))
                    &&& (in_formatted_range(t) ==> exists|off: i32|
                        is_utc_offset(off) && #[trigger] fixed_offset_time(t, off, time_of_day_format())
                            == Some(time))
                    &&& (time == "-"@ || is_time_of_day_text(time))
                    &&& (in_formatted_range(t) ==> is_time_of_day_text(time))
                },
    {
        match self.last_refresh {
            Some(t) => {
                let time = local_time_string(t, "%H:%M:%S");
                let r = String::from_str("updated ").concat(time.as_str()).concat("  (next in ").concat(
                    decimal_string(self.seconds_until_refresh).as_str(),
                ).concat("s)");
                assert(r@ == refresh_info_text(time@, self.seconds_until_refresh));
                proof {
                    if time@ != "-"@ || in_formatted_range(t) {
                        let off = choose|off: i32|
                            is_utc_offset(off) && #[trigger] fixed_offset_time(t, off, "%H:%M:%S"@)
                                == Some(time@);
                        assert(fixed_offset_time(t, off, time_of_day_format()) == Some(time@));
                    }
                }
                r
            },
            None => String::from_str("loading…"),
        }
    }

    /// The footer: the last error, else the status message, else the key hints.
    pub fn footer(&self) -> (r: FooterLine)
        ensures
            match self.error {
                Some(e) => r matches FooterLine::Error(t) && t@ == " error: "@ + e@,
                None => match self.status_message {
                    Some(m) => r matches FooterLine::Status(t) && t@ == " "@ + m.0@,
                    None => r matches FooterLine::Hint(t) && t@ == hint_text(),
                },
            },
    {
        match &self.error {
            Some(e) => FooterLine::Error(String::from_str(" error: ").concat(e.as_str())),
            None => match &self.status_message {
                Some(m) => FooterLine::Status(String::from_str(" ").concat(m.0.as_str())),
                None => FooterLine::Hint(
                    String::from_str(" j/k or ↑/↓ select · r refresh · c cancel · s sort · ? help · q quit"),
                ),
            },
        }
    }

    /// The id of the selected batch, or the empty string without one.
    pub fn selected_id(&self) -> (r: String)
        ensures
            r@ == match self@.selection() {
                Some(b) => b.id@,
                None => Seq::empty(),
            },
    {
        match self.selected_batch() {
            Some(b) => b.id.clone(),
            None => String::new(),
        }
    }
}

/// The popup drawn over the screen.
#[derive(Debug, Clone, Copy, PartialEq, Eq, Structural)]
pub enum Popup {
    Hidden,
    Help,
    ConfirmCancel,
}

impl App {
    /// The popup to draw: the help where it is open, else the cancel
    /// confirmation where it is open, else none.
    pub fn popup(&self) -> (r: Popup)
        ensures
            r == if self.show_help {
                Popup::Help
            } else if self.confirm_cancel {
                Popup::ConfirmCancel
            } else {
                Popup::Hidden
            },
    {
        if self.show_help {
            Popup::Help
        } else if self.confirm_cancel {
            Popup::ConfirmCancel
        } else {
            Popup::Hidden
        }
    }
}

} // verus!
