//! The monitor's state, and what each key, tick and reply does to it.

use std::time::Instant;
use vstd::prelude::*;
use crate::batch::Batch;
use crate::clock::unix_now;
use crate::sort::{
    SortMode, distinct_created, is_stable_sort, lemma_sorted_distinct_equal, lemma_stable_sort_keeps_len,
    sort_batches, sorted_by_mode,
};

verus! {

/// A key press that the monitor acts on; every other key is `Other`.
#[derive(Debug, Clone, Copy, PartialEq, Eq, Structural)]
pub enum Key {
    Char(char),
    Esc,
    Up,
    Down,
    Home,
    End,
    Other,
}

/// What the caller has to do after a key press.
#[derive(Debug, Clone)]
pub enum KeyAction {
    Nothing,
    /// Fetch the batch list again.
    Refresh,
    /// Ask the API to cancel the batch with this id.
    Cancel(String),
}

/// The monitor's state.
///
/// `table_selection` is the row that the table highlights (`None`: no row);
/// `last_refresh` is the time of the last successful refresh in seconds since
/// the Unix epoch; `status_message` is a short message with the moment it
/// was shown.
pub struct App {
    pub batches: Vec<Batch>,
    pub selected: usize,
    pub table_selection: Option<usize>,
    pub last_refresh: Option<i64>,
    pub error: Option<String>,
    pub status_message: Option<(String, Instant)>,
    pub loading: bool,
    pub show_help: bool,
    pub confirm_cancel: bool,
    pub refresh_secs: u64,
    pub seconds_until_refresh: u64,
    pub should_quit: bool,
    pub sort_mode: SortMode,
}

/// The monitor's state as plain values.
pub struct AppView {
    pub batches: Seq<Batch>,
    pub selected: usize,
    pub table_selection: Option<usize>,
    pub last_refresh: Option<i64>,
    pub error: Option<Seq<char>>,
    /// The status message's text and the moment it was shown.
    pub status_message: Option<(Seq<char>, Instant)>,
    pub loading: bool,
    pub show_help: bool,
    pub confirm_cancel: bool,
    pub refresh_secs: u64,
    pub seconds_until_refresh: u64,
    pub should_quit: bool,
    pub sort_mode: SortMode,
}

impl View for App {
    type V = AppView;

    open spec fn view(&self) -> AppView {
        AppView {
            batches: self.batches@,
            selected: self.selected,
            table_selection: self.table_selection,
            last_refresh: self.last_refresh,
            error: match self.error {
                Some(e) => Some(e@),
                None => None,
            },
            status_message: match self.status_message {
                Some(m) => Some((m.0@, m.1)),
                None => None,
            },
            loading: self.loading,
            show_help: self.show_help,
            confirm_cancel: self.confirm_cancel,
            refresh_secs: self.refresh_secs,
            seconds_until_refresh: self.seconds_until_refresh,
            should_quit: self.should_quit,
            sort_mode: self.sort_mode,
        }
    }
}

/// The other sort mode.
pub open spec fn flipped(mode: SortMode) -> SortMode {
    match mode {
        SortMode::CreatedDesc => SortMode::Status,
        SortMode::Status => SortMode::CreatedDesc,
    }
}

/// The statuses in which a batch can still be cancelled.
pub open spec fn is_cancellable_status(status: Seq<char>) -> bool {
    status == "validating"@ || status == "in_progress"@ || status == "finalizing"@
}

/// Exactly the batches that are validating, in progress or finalizing can be
/// cancelled.
pub proof fn lemma_cancellable_statuses(status: Seq<char>)
    ensures
        is_cancellable_status(status) <==> (status == "validating"@ || status == "in_progress"@
            || status == "finalizing"@),
{
}

/// The message shown when the selected batch cannot be cancelled.
pub open spec fn not_cancellable_text(status: Seq<char>) -> Seq<char> {
    "batch is "@ + status + " — not cancellable"@
}

/// The message shown when a cancel request was sent.
pub open spec fn cancelling_text() -> Seq<char> {
    "cancelling…"@
}

/// The message shown when the API accepted a cancel request.
pub open spec fn cancel_requested_text(id: Seq<char>) -> Seq<char> {
    "cancel requested for "@ + id
}

/// How many seconds a status message stays.
pub open spec fn status_message_secs() -> u64 {
    4
}

/// `key` is one of the two characters.
pub open spec fn is_char_key(key: Key, a: char, b: char) -> bool {
    key == Key::Char(a) || key == Key::Char(b)
}

impl AppView {
    /// The state invariant: a non-empty list has its selection in range and
    /// highlighted, and the list is ordered by the current sort mode.
    pub open spec fn wf(self) -> bool {
        &&& self.batches.len() > 0 ==> self.selected < self.batches.len()
            && self.table_selection == Some(self.selected)
        &&& sorted_by_mode(self.sort_mode, self.batches)
    }

    /// The selected batch, if the selection is in range.
    pub open spec fn selection(self) -> Option<Batch> {
        if self.selected < self.batches.len() {
            Some(self.batches[self.selected as int])
        } else {
            None
        }
    }

    /// The state with row `i` selected and highlighted.
    pub open spec fn with_selected(self, i: usize) -> AppView {
        AppView { selected: i, table_selection: Some(i), ..self }
    }

    /// The state with `text`, shown at moment `at`, as its status message.
    pub open spec fn with_status(self, text: Seq<char>, at: Instant) -> AppView {
        AppView { status_message: Some((text, at)), ..self }
    }

    /// The moment at which the status message was shown (any moment without one).
    pub open spec fn status_moment(self) -> Instant {
        match self.status_message {
            Some((_, at)) => at,
            None => arbitrary(),
        }
    }

    /// The state after the list was refreshed to `batches` (already sorted)
    /// at time `now`.
    pub open spec fn after_refresh(self, batches: Seq<Batch>, now: i64) -> AppView {
        let selected = if self.selected >= batches.len() && batches.len() > 0 {
            (batches.len() - 1) as usize
        } else {
            self.selected
        };
        AppView {
            batches,
            loading: false,
            error: None,
            last_refresh: Some(now),
            seconds_until_refresh: self.refresh_secs,
            selected,
            table_selection: if batches.len() == 0 {
                None
            } else {
                Some(selected)
            },
            ..self
        }
    }

    /// The state after an error with message `msg`: it is shown and no load
    /// is under way.
    pub open spec fn after_error(self, msg: Seq<char>) -> AppView {
        AppView { loading: false, error: Some(msg), ..self }
    }

    /// The state after a failed refresh with message `msg`: the error is
    /// shown, and the countdown starts again from the refresh interval, so the
    /// next automatic refresh comes one interval later.
    pub open spec fn after_fetch_error(self, msg: Seq<char>) -> AppView {
        AppView { seconds_until_refresh: self.refresh_secs, ..self.after_error(msg) }
    }

    /// The state after moving the selection one row down (stopping at the last row).
    pub open spec fn after_select_next(self) -> AppView {
        if self.batches.len() == 0 {
            self
        } else if self.selected + 1 <= self.batches.len() - 1 {
            self.with_selected((self.selected + 1) as usize)
        } else {
            self.with_selected((self.batches.len() - 1) as usize)
        }
    }

    /// The state after moving the selection one row up (stopping at the first row).
    pub open spec fn after_select_prev(self) -> AppView {
        if self.batches.len() == 0 {
            self
        } else if self.selected == 0 {
            self.with_selected(0)
        } else {
            self.with_selected((self.selected - 1) as usize)
        }
    }

    /// The state after selecting the first row.
    pub open spec fn after_select_first(self) -> AppView {
        if self.batches.len() == 0 {
            self
        } else {
            self.with_selected(0)
        }
    }

    /// The state after selecting the last row.
    pub open spec fn after_select_last(self) -> AppView {
        if self.batches.len() == 0 {
            self
        } else {
            self.with_selected((self.batches.len() - 1) as usize)
        }
    }

    /// The state after a second of the countdown passed, when the status
    /// message is `status_age` seconds old.
    pub open spec fn after_tick(self, status_age: u64) -> AppView {
        AppView {
            seconds_until_refresh: if self.seconds_until_refresh > 0 {
                (self.seconds_until_refresh - 1) as u64
            } else {
                0
            },
            status_message: if status_age > status_message_secs() {
                None
            } else {
                self.status_message
            },
            ..self
        }
    }

    /// A key press asks for a refresh: no popup is open, the key is `r` and
    /// no refresh is under way.
    pub open spec fn key_wants_refresh(self, key: Key) -> bool {
        !self.show_help && !self.confirm_cancel && key == Key::Char('r') && !self.loading
    }

    /// A key press confirms a cancel: the confirmation is open, the key is
    /// `y` or `Y` and a batch is selected.
    pub open spec fn key_wants_cancel(self, key: Key) -> bool {
        !self.show_help && self.confirm_cancel && is_char_key(key, 'y', 'Y') && self.selected
            < self.batches.len()
    }

    /// The state after a key press; `resorted` is the list after a change of
    /// sort mode, `at` the moment of a status message that the key shows.
    pub open spec fn after_key(self, key: Key, resorted: Seq<Batch>, at: Instant) -> AppView {
        if self.show_help {
            AppView { show_help: false, ..self }
        } else if self.confirm_cancel {
            if self.key_wants_cancel(key) {
                AppView { confirm_cancel: false, ..self }.with_status(cancelling_text(), at)
            } else {
                AppView { confirm_cancel: false, ..self }
            }
        } else if key == Key::Char('q') || key == Key::Esc {
            AppView { should_quit: true, ..self }
        } else if key == Key::Char('j') || key == Key::Down {
            self.after_select_next()
        } else if key == Key::Char('k') || key == Key::Up {
            self.after_select_prev()
        } else if key == Key::Char('g') || key == Key::Home {
            self.after_select_first()
        } else if key == Key::Char('G') || key == Key::End {
            self.after_select_last()
        } else if key == Key::Char('r') {
            AppView { loading: true, ..self }
        } else if key == Key::Char('s') {
            AppView { sort_mode: flipped(self.sort_mode), batches: resorted, ..self }
        } else if key == Key::Char('?') {
            AppView { show_help: true, ..self }
        } else if key == Key::Char('c') {
            match self.selection() {
                Some(b) => if is_cancellable_status(b.status@) {
                    AppView { confirm_cancel: true, ..self }
                } else {
                    self.with_status(not_cancellable_text(b.status@), at)
                },
                None => self,
            }
        } else {
            self
        }
    }
}

impl App {
    /// A monitor that refreshes every `refresh_secs` seconds, with no batches
    /// yet and the first load under way.
    pub fn new(refresh_secs: u64) -> (app: App)
        ensures
            app@ == (AppView {
                batches: Seq::empty(),
                selected: 0,
                table_selection: Some(0),
                last_refresh: None,
                error: None,
                status_message: None,
                loading: true,
                show_help: false,
                confirm_cancel: false,
                refresh_secs,
                seconds_until_refresh: refresh_secs,
                should_quit: false,
                sort_mode: SortMode::CreatedDesc,
            }),
            app@.wf(),
    {
        let app = App {
            batches: Vec::new(),
            selected: 0,
            table_selection: Some(0),
            last_refresh: None,
            error: None,
            status_message: None,
            loading: true,
            show_help: false,
            confirm_cancel: false,
            refresh_secs,
            seconds_until_refresh: refresh_secs,
            should_quit: false,
            sort_mode: SortMode::CreatedDesc,
        };
        assert(app@.batches =~= Seq::<Batch>::empty());
        app
    }

    /// Shows a freshly loaded list, sorted by the current mode, as refreshed
    /// at time `now`.
    pub fn set_batches_at(&mut self, batches: Vec<Batch>, now: i64)
        ensures
            is_stable_sort(old(self)@.sort_mode, final(self)@.batches, batches@),
            final(self)@ == old(self)@.after_refresh(final(self)@.batches, now),
            final(self)@.wf(),
            final(self).batches@.len() == batches@.len(),
            old(self).selected < batches@.len() ==> final(self).selected == old(self).selected,
            batches@.len() > 0 && old(self).selected >= batches@.len() ==> final(self).selected
                == batches@.len() - 1,
            batches@.len() == 0 ==> final(self).selected == old(self).selected
                && final(self).table_selection is None,
            batches@.len() > 0 ==> final(self).table_selection == Some(final(self).selected),
            final(self).error is None,
            !final(self).loading,
            final(self).last_refresh == Some(now),
            final(self).seconds_until_refresh == old(self).refresh_secs,
    {
        let sorted = sort_batches(self.sort_mode, batches);
        self.batches = sorted;
        self.loading = false;
        self.error = None;
        self.last_refresh = Some(now);
        self.seconds_until_refresh = self.refresh_secs;
        if self.selected >= self.batches.len() && self.batches.len() > 0 {
            self.selected = self.batches.len() - 1;
        }
        self.table_selection = if self.batches.len() == 0 {
            None
        } else {
            Some(self.selected)
        };
        proof {
            lemma_stable_sort_keeps_len(old(self)@.sort_mode, self@.batches, batches@);
            lemma_refresh_keeps_selection(old(self)@, self@.batches, now);
        }
    }

    /// Shows a freshly loaded list, sorted by the current mode, as refreshed
    /// now.
    pub fn set_batches(&mut self, batches: Vec<Batch>)
        ensures
            is_stable_sort(old(self)@.sort_mode, final(self)@.batches, batches@),
            final(self)@.last_refresh is Some,
            final(self)@ == old(self)@.after_refresh(
                final(self)@.batches,
                final(self)@.last_refresh->0,
            ),
            final(self)@.wf(),
            final(self).batches@.len() == batches@.len(),
            old(self).selected < batches@.len() ==> final(self).selected == old(self).selected,
            batches@.len() > 0 && old(self).selected >= batches@.len() ==> final(self).selected
                == batches@.len() - 1,
            batches@.len() == 0 ==> final(self).selected == old(self).selected
                && final(self).table_selection is None,
            batches@.len() > 0 ==> final(self).table_selection == Some(final(self).selected),
            final(self).error is None,
            !final(self).loading,
            final(self).seconds_until_refresh == old(self).refresh_secs,
    {
        let now = unix_now();
        self.set_batches_at(batches, now);
    }

    /// Switches to the other sort mode and reorders the list by it.
    pub fn toggle_sort(&mut self)
        ensures
            is_stable_sort(final(self)@.sort_mode, final(self)@.batches, old(self)@.batches),
            final(self)@ == (AppView {
                sort_mode: flipped(old(self)@.sort_mode),
                batches: final(self)@.batches,
                ..old(self)@
            }),
            old(self)@.wf() ==> final(self)@.wf(),
    {
        self.sort_mode = match self.sort_mode {
            SortMode::CreatedDesc => SortMode::Status,
            SortMode::Status => SortMode::CreatedDesc,
        };
        let mut batches: Vec<Batch> = Vec::new();
        std::mem::swap(&mut batches, &mut self.batches);
        self.batches = sort_batches(self.sort_mode, batches);
        proof {
            crate::sort::lemma_stable_sort_keeps_len(self.sort_mode, self.batches@, batches@);
        }
    }

    /// Records a failed request.
    pub fn set_error(&mut self, msg: String)
        ensures
            final(self)@ == old(self)@.after_error(msg@),
            old(self)@.wf() ==> final(self)@.wf(),
    {
        self.loading = false;
        self.error = Some(msg);
    }

    /// Records a failed refresh of the batch list, and restarts the countdown.
    pub fn on_fetch_error(&mut self, msg: String)
        ensures
            final(self)@ == old(self)@.after_fetch_error(msg@),
            old(self)@.wf() ==> final(self)@.wf(),
    {
        self.set_error(msg);
        self.seconds_until_refresh = self.refresh_secs;
    }

    /// Shows `msg` as the status message from now on.
    pub fn flash(&mut self, msg: String)
        ensures
            final(self)@ == old(self)@.with_status(msg@, final(self)@.status_moment()),
            old(self)@.wf() ==> final(self)@.wf(),
    {
        self.status_message = Some((msg, Instant::now()));
    }

    /// The selected batch, if the selection is in range.
    pub fn selected_batch(&self) -> (r: Option<&Batch>)
        ensures
            r.is_some() == self@.selection().is_some(),
            r.is_some() ==> *r.unwrap() == self@.selection()->0,
    {
        if self.selected < self.batches.len() {
            Some(&self.batches[self.selected])
        } else {
            None
        }
    }

    /// Moves the selection one row down, stopping at the last row.
    pub fn select_next(&mut self)
        ensures
            final(self)@ == old(self)@.after_select_next(),
            old(self)@.wf() ==> final(self)@.wf(),
    {
        if self.batches.len() == 0 {
            return;
        }
        self.selected = if self.selected < self.batches.len() - 1 {
            self.selected + 1
        } else {
            self.batches.len() - 1
        };
        self.table_selection = Some(self.selected);
    }

    /// Moves the selection one row up, stopping at the first row.
    pub fn select_prev(&mut self)
        ensures
            final(self)@ == old(self)@.after_select_prev(),
            old(self)@.wf() ==> final(self)@.wf(),
    {
        if self.batches.len() == 0 {
            return;
        }
        self.selected = if self.selected > 0 {
            self.selected - 1
        } else {
            0
        };
        self.table_selection = Some(self.selected);
    }

    /// Selects the first row.
    pub fn select_first(&mut self)
        ensures
            final(self)@ == old(self)@.after_select_first(),
            old(self)@.wf() ==> final(self)@.wf(),
    {
        if self.batches.len() == 0 {
            return;
        }
        self.selected = 0;
        self.table_selection = Some(self.selected);
    }

    /// Selects the last row.
    pub fn select_last(&mut self)
        ensures
            final(self)@ == old(self)@.after_select_last(),
            old(self)@.wf() ==> final(self)@.wf(),
    {
        if self.batches.len() == 0 {
            return;
        }
        self.selected = self.batches.len() - 1;
        self.table_selection = Some(self.selected);
    }

    /// Whether `batch` can still be cancelled.
    pub fn is_cancellable(batch: &Batch) -> (r: bool)
        ensures
            r == is_cancellable_status(batch.status@),
    {
        let s = batch.status.as_str();
        crate::text::str_eq(s, "validating") || crate::text::str_eq(s, "in_progress")
            || crate::text::str_eq(s, "finalizing")
    }

    /// How many whole seconds ago the status message was shown (0 without one).
    fn status_age_secs(&self) -> (r: u64)
        ensures
            self.status_message is None ==> r == 0,
    {
        match &self.status_message {
            Some(m) => {
                let d = m.1.elapsed();
                d.as_secs()
            },
            None => 0,
        }
    }

    /// Counts a second down, and drops the status message once it is
    /// `status_age` seconds old with that more than its time.
    pub fn tick_countdown_at(&mut self, status_age: u64)
        ensures
            final(self)@ == old(self)@.after_tick(status_age),
            old(self)@.wf() ==> final(self)@.wf(),
    {
        if self.seconds_until_refresh > 0 {
            self.seconds_until_refresh = self.seconds_until_refresh - 1;
        }
        if status_age > 4 {
            self.status_message = None;
        }
    }

    /// Counts a second down, and drops a status message that has been shown
    /// longer than its time.
    pub fn tick_countdown(&mut self)
        ensures
            exists|age: u64| final(self)@ == old(self)@.after_tick(age),
            old(self)@.status_message is None ==> final(self)@ == old(self)@.after_tick(0),
            old(self)@.wf() ==> final(self)@.wf(),
    {
        let age = self.status_age_secs();
        self.tick_countdown_at(age);
    }

    /// One second of the refresh timer at status-message age `status_age`:
    /// counts down, and once the countdown is at zero with no refresh under
    /// way starts one, which the caller has to fetch (`true`).
    pub fn on_tick_at(&mut self, status_age: u64) -> (fetch: bool)
        ensures
            ({
                let ticked = old(self)@.after_tick(status_age);
                &&& fetch == (!ticked.loading && ticked.seconds_until_refresh == 0)
                &&& final(self)@ == if fetch {
                    AppView { loading: true, ..ticked }
                } else {
                    ticked
                }
            }),
            old(self)@.wf() ==> final(self)@.wf(),
    {
        self.tick_countdown_at(status_age);
        if !self.loading && self.seconds_until_refresh == 0 {
            self.loading = true;
            true
        } else {
            false
        }
    }

    /// One second of the refresh timer (see `on_tick_at`).
    pub fn on_tick(&mut self) -> (fetch: bool)
        ensures
            exists|age: u64|
                {
                    let ticked = #[trigger] old(self)@.after_tick(age);
                    &&& fetch == (!ticked.loading && ticked.seconds_until_refresh == 0)
                    &&& final(self)@ == if fetch {
                        AppView { loading: true, ..ticked }
                    } else {
                        ticked
                    }
                },
            old(self)@.status_message is None ==> {
                let ticked = old(self)@.after_tick(0);
                &&& fetch == (!ticked.loading && ticked.seconds_until_refresh == 0)
                &&& final(self)@ == if fetch {
                    AppView { loading: true, ..ticked }
                } else {
                    ticked
                }
            },
            old(self)@.wf() ==> final(self)@.wf(),
    {
        let age = self.status_age_secs();
        self.on_tick_at(age)
    }

    /// The API accepted a request to cancel `batch`: says so, and starts a
    /// refresh, which the caller has to fetch.
    pub fn on_cancel_accepted(&mut self, batch: &Batch)
        ensures
            final(self)@ == (AppView { loading: true, ..old(self)@ }).with_status(
                cancel_requested_text(batch.id@),
                final(self)@.status_moment(),
            ),
            old(self)@.wf() ==> final(self)@.wf(),
    {
        let msg = String::from_str("cancel requested for ").concat(batch.id.as_str());
        self.flash(msg);
        self.loading = true;
    }

    /// Acts on a key press and says what the caller has to do.
    pub fn handle_key(&mut self, key: Key) -> (action: KeyAction)
        ensures
            final(self)@ == old(self)@.after_key(
                key,
                final(self)@.batches,
                final(self)@.status_moment(),
            ),
            !old(self)@.show_help && !old(self)@.confirm_cancel && key == Key::Char('s')
                ==> is_stable_sort(final(self)@.sort_mode, final(self)@.batches, old(self)@.batches),
            match action {
                KeyAction::Nothing => !old(self)@.key_wants_refresh(key) && !old(
                    self,
                )@.key_wants_cancel(key),
                KeyAction::Refresh => old(self)@.key_wants_refresh(key),
                KeyAction::Cancel(id) => old(self)@.key_wants_cancel(key) && id@ == old(
                    self,
                )@.selection()->0.id@,
            },
            old(self)@.wf() ==> final(self)@.wf(),
    {
        if self.show_help {
            self.show_help = false;
            return KeyAction::Nothing;
        }
        if self.confirm_cancel {
            self.confirm_cancel = false;
            if key == Key::Char('y') || key == Key::Char('Y') {
                let id = match self.selected_batch() {
                    Some(batch) => Some(batch.id.clone()),
                    None => None,
                };
                if let Some(id) = id {
                    self.flash(String::from_str("cancelling…"));
                    return KeyAction::Cancel(id);
                }
            }
            return KeyAction::Nothing;
        }
        if key == Key::Char('q') || key == Key::Esc {
            self.should_quit = true;
        } else if key == Key::Char('j') || key == Key::Down {
            self.select_next();
        } else if key == Key::Char('k') || key == Key::Up {
            self.select_prev();
        } else if key == Key::Char('g') || key == Key::Home {
            self.select_first();
        } else if key == Key::Char('G') || key == Key::End {
            self.select_last();
        } else if key == Key::Char('r') {
            if !self.loading {
                self.loading = true;
                return KeyAction::Refresh;
            }
        } else if key == Key::Char('s') {
            self.toggle_sort();
        } else if key == Key::Char('?') {
            self.show_help = true;
        } else if key == Key::Char('c') {
            let msg = match self.selected_batch() {
                Some(batch) => if App::is_cancellable(batch) {
                    None
                } else {
                    Some(
                        String::from_str("batch is ").concat(batch.status.as_str()).concat(
                            " — not cancellable",
                        ),
                    )
                },
                None => None,
            };
            if self.selected < self.batches.len() {
                match msg {
                    Some(m) => self.flash(m),
                    None => self.confirm_cancel = true,
                }
            }
        }
        KeyAction::Nothing
    }
}

/// The state after `n` seconds of the countdown (status messages kept).
pub open spec fn after_ticks(s: AppView, n: nat) -> AppView
    decreases n,
{
    if n == 0 {
        s
    } else {
        after_ticks(s.after_tick(0), (n - 1) as nat)
    }
}

/// A refresh keeps the selection where it still points into the new list,
/// moves it to the last row where the list got shorter than it, and leaves it
/// where the list is empty; the highlighted row is the selection, or none for
/// an empty list. The refresh also clears the error, ends the load, records
/// the time and restarts the countdown, and changes nothing else.
pub proof fn lemma_refresh_keeps_selection(s: AppView, batches: Seq<Batch>, now: i64)
    ensures
        ({
            let r = s.after_refresh(batches, now);
            &&& r.batches == batches
            &&& s.selected < batches.len() ==> r.selected == s.selected
            &&& batches.len() > 0 && s.selected >= batches.len() ==> r.selected == batches.len() - 1
            &&& batches.len() == 0 ==> r.selected == s.selected && r.table_selection is None
            &&& batches.len() > 0 ==> r.table_selection == Some(r.selected)
                && r.selected < batches.len()
            &&& r.error is None && !r.loading && r.last_refresh == Some(now)
            &&& r.seconds_until_refresh == s.refresh_secs
            &&& r.status_message == s.status_message && r.sort_mode == s.sort_mode
            &&& r.show_help == s.show_help && r.confirm_cancel == s.confirm_cancel
            &&& r.refresh_secs == s.refresh_secs && r.should_quit == s.should_quit
        }),
{
}

/// A second of the countdown takes one off it (it stops at zero), drops the
/// status message once it is more than 4 seconds old, and keeps it otherwise;
/// nothing else changes.
pub proof fn lemma_tick_effects(s: AppView, age: u64)
    ensures
        ({
            let t = s.after_tick(age);
            &&& s.seconds_until_refresh > 0 ==> t.seconds_until_refresh == s.seconds_until_refresh - 1
            &&& s.seconds_until_refresh == 0 ==> t.seconds_until_refresh == 0
            &&& age > 4 ==> t.status_message is None
            &&& age <= 4 ==> t.status_message == s.status_message
            &&& t.batches == s.batches && t.selected == s.selected
            &&& t.table_selection == s.table_selection && t.error == s.error
            &&& t.loading == s.loading && t.last_refresh == s.last_refresh
            &&& t.show_help == s.show_help && t.confirm_cancel == s.confirm_cancel
            &&& t.refresh_secs == s.refresh_secs && t.sort_mode == s.sort_mode
            &&& t.should_quit == s.should_quit
        }),
{
}

/// What each key does with no popup open: `q` or Esc quits; `j` or Down and
/// `k` or Up move the selection one row, stopping at the ends; `g` or Home
/// and `G` or End go to the first and the last row; `r` starts a refresh; `?`
/// opens the help; a key the monitor does not know changes nothing. With the
/// help open, any key closes it and does nothing else. (The list is one that
/// a `Vec` can hold.)
pub proof fn lemma_key_effects(s: AppView, key: Key, resorted: Seq<Batch>, at: Instant)
    requires
        s.batches.len() <= usize::MAX,
    ensures
        s.show_help ==> s.after_key(key, resorted, at) == (AppView { show_help: false, ..s }),
        !s.show_help && !s.confirm_cancel && (key == Key::Char('q') || key == Key::Esc) ==> (
        s.after_key(key, resorted, at) == AppView { should_quit: true, ..s }),
        !s.show_help && !s.confirm_cancel && (key == Key::Char('j') || key == Key::Down)
            && s.batches.len() > 0 ==> ({
            let n = s.after_key(key, resorted, at);
            &&& n.selected == (if s.selected + 1 < s.batches.len() {
                s.selected + 1
            } else {
                s.batches.len() - 1
            })
            &&& n.table_selection == Some(n.selected)
            &&& n.batches == s.batches
        }),
        !s.show_help && !s.confirm_cancel && (key == Key::Char('k') || key == Key::Up)
            && s.batches.len() > 0 ==> ({
            let n = s.after_key(key, resorted, at);
            &&& n.selected == (if s.selected > 0 {
                s.selected - 1
            } else {
                0
            })
            &&& n.table_selection == Some(n.selected)
            &&& n.batches == s.batches
        }),
        !s.show_help && !s.confirm_cancel && (key == Key::Char('g') || key == Key::Home)
            && s.batches.len() > 0 ==> ({
            let n = s.after_key(key, resorted, at);
            &&& n.selected == 0
            &&& n.table_selection == Some(0usize)
            &&& n.batches == s.batches
        }),
        !s.show_help && !s.confirm_cancel && (key == Key::Char('G') || key == Key::End)
            && s.batches.len() > 0 ==> ({
            let n = s.after_key(key, resorted, at);
            &&& n.selected == s.batches.len() - 1
            &&& n.table_selection == Some(n.selected)
            &&& n.batches == s.batches
        }),
        !s.show_help && !s.confirm_cancel && key == Key::Char('r') ==> (s.after_key(key, resorted, at)
            == AppView { loading: true, ..s }),
        !s.show_help && !s.confirm_cancel && key == Key::Char('?') ==> (s.after_key(key, resorted, at)
            == AppView { show_help: true, ..s }),
        !s.show_help && !s.confirm_cancel && key == Key::Other ==> s.after_key(key, resorted, at) == s,
{
}

/// A non-empty list in a well-formed state always has a selected batch.
pub proof fn lemma_nonempty_list_has_selection(s: AppView)
    requires
        s.wf(),
        s.batches.len() > 0,
    ensures
        s.selection() is Some,
{
}

/// The confirmation prompt opens only for a selected batch that can be
/// cancelled.
pub proof fn lemma_confirm_only_for_cancellable(s: AppView, key: Key, resorted: Seq<Batch>, at: Instant)
    requires
        !s.confirm_cancel,
        s.after_key(key, resorted, at).confirm_cancel,
    ensures
        s.selection() is Some,
        is_cancellable_status(s.selection()->0.status@),
        key == Key::Char('c'),
{
}

/// Every key press closes an open confirmation prompt; a cancel is asked for
/// only from an open prompt, with `y` or `Y`.
pub proof fn lemma_cancel_needs_confirmation(s: AppView, key: Key, resorted: Seq<Batch>, at: Instant)
    ensures
        s.confirm_cancel && !s.show_help ==> !s.after_key(key, resorted, at).confirm_cancel,
        s.key_wants_cancel(key) ==> s.confirm_cancel && is_char_key(key, 'y', 'Y'),
{
}

/// With no load under way, `n` seconds after the countdown stood at `n` it
/// is at zero, so the next tick asks for a refresh.
pub proof fn lemma_countdown_reaches_refresh(s: AppView, n: nat)
    requires
        !s.loading,
        s.seconds_until_refresh == n,
    ensures
        after_ticks(s, n).seconds_until_refresh == 0,
        !after_ticks(s, n).loading,
        !after_ticks(s, n).after_tick(0).loading && after_ticks(s, n).after_tick(
            0,
        ).seconds_until_refresh == 0,
    decreases n,
{
    if n > 0 {
        lemma_countdown_reaches_refresh(s.after_tick(0), (n - 1) as nat);
    }
}

/// Pressing `s` twice, with no popup open, brings back the sort mode of before.
pub proof fn lemma_sort_key_twice_restores_mode(
    s: AppView,
    resorted1: Seq<Batch>,
    at1: Instant,
    resorted2: Seq<Batch>,
    at2: Instant,
)
    requires
        !s.show_help,
        !s.confirm_cancel,
    ensures
        s.after_key(Key::Char('s'), resorted1, at1).after_key(Key::Char('s'), resorted2, at2).sort_mode
            == s.sort_mode,
        s.after_key(Key::Char('s'), resorted1, at1).sort_mode != s.sort_mode,
{
}

/// `n` seconds of the countdown take `n` off it, down to zero, and change
/// neither the load flag nor the refresh interval.
pub proof fn lemma_after_ticks_countdown(s: AppView, n: nat)
    ensures
        after_ticks(s, n).seconds_until_refresh == if s.seconds_until_refresh >= n {
            s.seconds_until_refresh - n
        } else {
            0
        },
        after_ticks(s, n).loading == s.loading,
        after_ticks(s, n).refresh_secs == s.refresh_secs,
    decreases n,
{
    if n > 0 {
        lemma_after_ticks_countdown(s.after_tick(0), (n - 1) as nat);
    }
}

/// After a failed refresh the countdown starts again: for the next
/// `refresh_secs - 1` seconds no tick asks for a refresh, and the tick after
/// that does.
pub proof fn lemma_error_waits_for_interval(s: AppView, msg: Seq<char>, k: nat)
    ensures
        k + 1 < s.refresh_secs ==> after_ticks(s.after_fetch_error(msg), k).after_tick(
            0,
        ).seconds_until_refresh > 0,
        ({
            let e = after_ticks(s.after_fetch_error(msg), (s.refresh_secs - 1) as nat);
            s.refresh_secs > 0 ==> !e.after_tick(0).loading && e.after_tick(0).seconds_until_refresh
                == 0
        }),
{
    lemma_after_ticks_countdown(s.after_fetch_error(msg), k);
    if s.refresh_secs > 0 {
        lemma_after_ticks_countdown(s.after_fetch_error(msg), (s.refresh_secs - 1) as nat);
    }
}

/// Pressing `s` twice, with no popup open, brings back the list of before
/// where no two batches were created at the same second.
pub proof fn lemma_sort_key_twice_restores_list(
    s: AppView,
    resorted1: Seq<Batch>,
    at1: Instant,
    resorted2: Seq<Batch>,
    at2: Instant,
)
    requires
        s.wf(),
        !s.show_help,
        !s.confirm_cancel,
        distinct_created(s.batches),
        is_stable_sort(flipped(s.sort_mode), resorted1, s.batches),
        is_stable_sort(s.sort_mode, resorted2, resorted1),
    ensures
        s.after_key(Key::Char('s'), resorted1, at1).after_key(Key::Char('s'), resorted2, at2).batches
            == s.batches,
{
    assert(flipped(flipped(s.sort_mode)) == s.sort_mode);
    lemma_sorted_distinct_equal(s.sort_mode, s.batches, resorted2);
}

} // verus!
