//! The state shared by all windows and the operations on it: one context
//! object that every handler of the program is given.
//!
//! Each operation is a step of a state machine. It changes the state and
//! returns what the program has to do next: set a title, resize a window,
//! save the settings, notify observers, start or cancel a timer. What it
//! does to the state is defined on the view of the state, `AppView`.

use vstd::prelude::*;

use crate::debounce::{
    lemma_burst_runs_once, DebounceScheduler, Scheduled, SchedulerView, SIZE_SAVE_DELAY_MS,
};
use crate::fit::{
    fit, fit_size, lemma_height_for_bounds, locked_height, round_div, AspectRatio, FitSize,
    MIN_DIMENSION,
};
use crate::label_map::{distinct_keys, map_of, Entry, LabelMap};
use crate::media::{display_title, is_image, is_image_path, title_of};
use crate::selection::{
    lemma_supported_only, lemma_supported_only_empty, supported_only, texts, ActiveFilePayload,
    PayloadView, SelectionState, SelectionView,
};
use crate::settings::{PersistedState, PersistedView, SettingsUpdate};

verus! {

/// The state of the whole program.
pub struct AppState {
    settings: PersistedState,
    aspect_ratio: LabelMap<AspectRatio>,
    adjusting_resize: LabelMap<()>,
    pending_save: DebounceScheduler,
    selections: LabelMap<SelectionState>,
    last_focused_window: Option<String>,
}

/// What the state holds: the settings, and for each window label its
/// cached aspect ratio, whether a corrective resize is under way, its
/// pending save and its selection.
pub struct AppView {
    pub settings: PersistedView,
    pub aspect_ratio: Map<Seq<char>, AspectRatio>,
    pub adjusting_resize: Set<Seq<char>>,
    pub pending_save: SchedulerView,
    pub selections: Map<Seq<char>, SelectionView>,
    pub last_focused_window: Option<Seq<char>>,
}

/// The state of the resize governor for one window.
#[derive(Clone, Copy, Debug, PartialEq, Eq, Structural)]
pub enum ResizeState {
    /// No corrective resize is under way.
    Idle,
    /// The governor has asked for a corrective resize and the window has
    /// not yet carried it out.
    Adjusting,
}

/// What the governor decides when a window reports a new size.
#[derive(Clone, Copy, Debug, PartialEq, Eq, Structural)]
pub enum ResizeDecision {
    /// The report is the echo of the governor's own corrective resize:
    /// nothing is done with it.
    Ignored,
    /// The size stands; it is passed on to be saved.
    Forward,
    /// The window is to be resized to this size, and the governor is
    /// `Adjusting` until `end_resize`; then the size is passed on.
    Correct { width: u32, height: u64 },
}

/// What follows from a new list of files for a window.
#[derive(Debug)]
pub enum SelectionOutcome {
    /// None of the files is supported. The window has no selection, and
    /// its observers are sent `notice`.
    Cleared { notice: ActiveFilePayload },
    /// The window has a new selection, and `path` is its active file.
    Selected { path: String },
}

/// What the program does once a window has a new active file: set the
/// title, save the settings, and notify the observers.
#[derive(Debug)]
pub struct ActiveFile {
    pub path: String,
    pub title: Option<String>,
    pub payload: ActiveFilePayload,
    pub settings: PersistedState,
}

/// What an `ActiveFile` says.
pub struct ActiveFileView {
    pub path: Seq<char>,
    pub title: Option<Seq<char>>,
    pub payload: PayloadView,
    pub settings: PersistedView,
}

/// Why a window could not be fitted to its image.
#[derive(Clone, Copy, Debug, PartialEq, Eq, Structural)]
pub enum FitError {
    /// The dimensions of the image could not be read.
    Unreadable,
}

/// The selections of a table, each by its view.
pub open spec fn selection_views(m: Map<Seq<char>, SelectionState>) -> Map<
    Seq<char>,
    SelectionView,
> {
    m.map_values(|s: SelectionState| s@)
}

impl ResizeDecision {
    /// Whether the size is passed on to be saved: it is, unless the report
    /// was ignored.
    pub open spec fn forwards(self) -> bool {
        !(self is Ignored)
    }

    /// Whether the size is passed on to be saved.
    pub fn is_forwarded(&self) -> (b: bool)
        ensures
            b == self.forwards(),
    {
        match self {
            ResizeDecision::Ignored => false,
            _ => true,
        }
    }
}

impl AppView {
    /// The state at start, with the settings that were loaded.
    pub open spec fn initial(settings: PersistedView) -> AppView {
        AppView {
            settings,
            aspect_ratio: Map::empty(),
            adjusting_resize: Set::empty(),
            pending_save: SchedulerView { pending: Map::empty(), next_task: 0 },
            selections: Map::empty(),
            last_focused_window: None,
        }
    }

    /// Every selection has its active index within its files, every cached
    /// ratio has a positive height, and the scheduler is well formed.
    pub open spec fn wf(self) -> bool {
        &&& self.pending_save.wf()
        &&& forall|k: Seq<char>| #[trigger]
            self.selections.contains_key(k) ==> self.selections[k].wf()
        &&& forall|k: Seq<char>| #[trigger]
            self.aspect_ratio.contains_key(k) ==> self.aspect_ratio[k].height > 0
    }

    /// The path of the active file of `label`.
    pub open spec fn active_file(self, label: Seq<char>) -> Option<Seq<char>> {
        if self.selections.contains_key(label) {
            Some(self.selections[label].active_path())
        } else {
            None
        }
    }

    /// The state after `label` was given the files `paths`: the supported
    /// ones are its selection, or it has none where none is supported.
    pub open spec fn apply_selection(self, label: Seq<char>, paths: Seq<Seq<char>>) -> AppView {
        match SelectionView::select(paths) {
            Some(sel) => AppView { selections: self.selections.insert(label, sel), ..self },
            None => AppView { selections: self.selections.remove(label), ..self },
        }
    }

    /// The state after `label` navigated by `delta`.
    pub open spec fn navigate_selection(self, label: Seq<char>, delta: int) -> AppView {
        if self.selections.contains_key(label) {
            AppView {
                selections: self.selections.insert(label, self.selections[label].navigate(delta)),
                ..self
            }
        } else {
            self
        }
    }

    /// The path that navigating hands back: the new active file, where
    /// the active index changed.
    pub open spec fn navigation_result(self, label: Seq<char>, delta: int) -> Option<Seq<char>> {
        if self.selections.contains_key(label) && self.selections[label].navigate(delta).active
            != self.selections[label].active {
            Some(self.selections[label].navigate(delta).active_path())
        } else {
            None
        }
    }

    /// Whether the active file of `label` is applied: the window has a
    /// selection and its active file is a supported image.
    pub open spec fn applies(self, label: Seq<char>) -> bool {
        self.selections.contains_key(label) && is_image(self.selections[label].active_path())
    }

    /// The state after the active file of `label` was applied, `probe`
    /// being the dimensions read from the file. The ratio is cached where
    /// the file could be read and its height is positive; the file becomes
    /// the last file of the settings.
    pub open spec fn apply_active_file(self, label: Seq<char>, probe: Option<(u32, u32)>) -> AppView {
        if self.applies(label) {
            AppView {
                aspect_ratio: match probe {
                    Some(d) => if d.1 > 0 {
                        self.aspect_ratio.insert(label, AspectRatio { width: d.0, height: d.1 })
                    } else {
                        self.aspect_ratio
                    },
                    None => self.aspect_ratio,
                },
                settings: self.settings.with_last_file(self.selections[label].active_path()),
                ..self
            }
        } else {
            self
        }
    }

    /// What the program is handed once the active file of `label` is
    /// applied.
    pub open spec fn active_file_change(self, label: Seq<char>) -> Option<ActiveFileView> {
        if self.applies(label) {
            let sel = self.selections[label];
            Some(
                ActiveFileView {
                    path: sel.active_path(),
                    title: title_of(sel.active_path()),
                    payload: sel.payload(),
                    settings: self.settings.with_last_file(sel.active_path()),
                },
            )
        } else {
            None
        }
    }

    /// The state of the governor for `label`.
    pub open spec fn resize_state(self, label: Seq<char>) -> ResizeState {
        if self.adjusting_resize.contains(label) {
            ResizeState::Adjusting
        } else {
            ResizeState::Idle
        }
    }

    /// Whether a resize of `label` is corrected: the aspect lock is on and
    /// a usable ratio is cached for the window.
    pub open spec fn locks(self, label: Seq<char>) -> bool {
        self.settings.aspect_lock && self.aspect_ratio.contains_key(label)
            && self.aspect_ratio[label].usable()
    }

    /// What the governor decides when `label` reports the width `width`.
    pub open spec fn resize_decision(self, label: Seq<char>, width: u32) -> ResizeDecision {
        if self.adjusting_resize.contains(label) {
            ResizeDecision::Ignored
        } else if self.locks(label) {
            ResizeDecision::Correct {
                width,
                height: self.aspect_ratio[label].height_for(width) as u64,
            }
        } else {
            ResizeDecision::Forward
        }
    }

    /// The state after `label` reported a new size: the governor is
    /// `Adjusting` where it asked for a corrective resize.
    pub open spec fn begin_resize(self, label: Seq<char>, width: u32) -> AppView {
        if self.resize_decision(label, width) is Correct {
            AppView { adjusting_resize: self.adjusting_resize.insert(label), ..self }
        } else {
            self
        }
    }

    /// The state after the corrective resize of `label` was carried out, or
    /// failed: the governor is `Idle`.
    pub open spec fn end_resize(self, label: Seq<char>) -> AppView {
        AppView { adjusting_resize: self.adjusting_resize.remove(label), ..self }
    }

    /// The state after a call of `schedule_size_save` for `label`: a save
    /// is scheduled while there is a task number left for it.
    pub open spec fn schedule_size_save(self, label: Seq<char>) -> AppView {
        AppView { pending_save: self.pending_save.try_schedule(label), ..self }
    }

    /// The state after `n` calls of `schedule_size_save` for `label`, one
    /// after the other, while no timer ran out.
    pub open spec fn size_save_burst(self, label: Seq<char>, n: nat) -> AppView
        decreases n,
    {
        if n == 0 {
            self
        } else {
            self.size_save_burst(label, (n - 1) as nat).schedule_size_save(label)
        }
    }

    /// The state after the timer of `task` ran out.
    pub open spec fn fire_size_save(self, label: Seq<char>, task: u64) -> AppView {
        AppView { pending_save: self.pending_save.fire(label, task), ..self }
    }

    /// The settings that the save of `task` writes when its timer has run
    /// out: those of that moment, where the task is still pending.
    pub open spec fn saved_settings(self, label: Seq<char>, task: u64) -> Option<PersistedView> {
        if self.pending_save.fires(label, task) {
            Some(self.settings)
        } else {
            None
        }
    }

    /// The state after a reset: default settings and empty tables. The
    /// numbering of tasks goes on, so that no timer started before the
    /// reset can pass for one started after it.
    pub open spec fn reset_cache(self) -> AppView {
        AppView {
            settings: PersistedView::initial(),
            aspect_ratio: Map::empty(),
            adjusting_resize: Set::empty(),
            pending_save: self.pending_save.cancel_all(),
            selections: Map::empty(),
            last_focused_window: None,
        }
    }

    /// The state after `label` was closed: no table holds an entry for it.
    pub open spec fn close_window(self, label: Seq<char>) -> AppView {
        AppView {
            aspect_ratio: self.aspect_ratio.remove(label),
            adjusting_resize: self.adjusting_resize.remove(label),
            pending_save: self.pending_save.cancel(label),
            selections: self.selections.remove(label),
            ..self
        }
    }

    /// Whether any table holds an entry for `label`.
    pub open spec fn knows(self, label: Seq<char>) -> bool {
        self.aspect_ratio.contains_key(label) || self.adjusting_resize.contains(label)
            || self.pending_save.pending.contains_key(label) || self.selections.contains_key(
            label,
        )
    }

    /// The state after the active file of `label`, if it has one, was
    /// noted as the last file of the settings.
    pub open spec fn remember_active_file(self, label: Seq<char>) -> AppView {
        match self.active_file(label) {
            Some(p) => AppView { settings: self.settings.with_last_file(p), ..self },
            None => self,
        }
    }

    /// The state after `label` received the focus.
    pub open spec fn focus_window(self, label: Seq<char>) -> AppView {
        AppView { last_focused_window: Some(label), ..self.remember_active_file(label) }
    }

    /// The path to fit `label` to: its active file, or else the last file
    /// of the settings.
    pub open spec fn fit_path(self, label: Seq<char>) -> Option<Seq<char>> {
        match self.active_file(label) {
            Some(p) => Some(p),
            None => self.settings.last_file,
        }
    }

    /// What fitting `label` yields, `probe` being the dimensions read from
    /// the file and `current` the size of the window. Without a path there
    /// is nothing to do; an unreadable file is an error; an image without
    /// positive dimensions, or a window whose size could not be obtained,
    /// gives no size.
    pub open spec fn fit_outcome(
        self,
        label: Seq<char>,
        probe: Option<(u32, u32)>,
        current: Option<(u32, u32)>,
    ) -> Result<Option<FitSize>, FitError> {
        if self.fit_path(label) is None {
            Ok(None)
        } else {
            match probe {
                None => Err(FitError::Unreadable),
                Some(d) => match current {
                    None => Ok(None),
                    Some(c) => Ok(fit(c.0, c.1, d.0, d.1, MIN_DIMENSION)),
                },
            }
        }
    }

    /// The state after `label` was fitted: where a size was computed, the
    /// ratio of the image is cached for the window.
    pub open spec fn fit_now(
        self,
        label: Seq<char>,
        probe: Option<(u32, u32)>,
        current: Option<(u32, u32)>,
    ) -> AppView {
        match (self.fit_outcome(label, probe, current), probe) {
            (Ok(Some(_)), Some(d)) => AppView {
                aspect_ratio: self.aspect_ratio.insert(
                    label,
                    AspectRatio { width: d.0, height: d.1 },
                ),
                ..self
            },
            _ => self,
        }
    }

    /// The state after a partial update of the settings.
    pub open spec fn set_settings(self, update: SettingsUpdate) -> AppView {
        AppView { settings: self.settings.updated(update), ..self }
    }
}

/// With the aspect lock on and a usable ratio cached, a resize to `width`
/// is corrected to the height `width / ratio`, rounded. The report that the
/// corrective resize itself causes, whatever width it carries, is ignored
/// and changes nothing, so that one resize never brings a second
/// correction; and once the correction is over the state is as it was.
/// Widths whose rounded height is under 1 are left out: their height is 1.
pub proof fn lemma_locked_resize_corrects_once(
    s: AppView,
    label: Seq<char>,
    width: u32,
    echo: u32,
)
    requires
        s.settings.aspect_lock,
        s.aspect_ratio.contains_key(label),
        s.aspect_ratio[label].usable(),
        !s.adjusting_resize.contains(label),
        round_div(width * s.aspect_ratio[label].height, s.aspect_ratio[label].width as int) >= 1,
    ensures
        s.resize_decision(label, width) matches ResizeDecision::Correct { width: w, height: h }
            && w == width && h == round_div(
            width * s.aspect_ratio[label].height,
            s.aspect_ratio[label].width as int,
        ),
        s.begin_resize(label, width).resize_state(label) == ResizeState::Adjusting,
        s.begin_resize(label, width).resize_decision(label, echo) == ResizeDecision::Ignored,
        s.begin_resize(label, width).begin_resize(label, echo) == s.begin_resize(label, width),
        s.begin_resize(label, width).end_resize(label) == s,
        s.end_resize(label).resize_state(label) == ResizeState::Idle,
{
    lemma_height_for_bounds(s.aspect_ratio[label], width);
    assert(s.adjusting_resize.insert(label).remove(label) =~= s.adjusting_resize);
}

/// Without the aspect lock, or without a usable ratio for the window, a
/// resize is never corrected: it is passed on, or ignored while a
/// correction is under way, and the state stays as it is.
pub proof fn lemma_unlocked_resize_passes(s: AppView, label: Seq<char>, width: u32)
    requires
        !s.locks(label),
    ensures
        !(s.resize_decision(label, width) is Correct),
        s.begin_resize(label, width) == s,
{
}

/// A list with a supported image among its paths gives the window a
/// selection of exactly the supported paths, in their order, with the
/// first of them active; the other windows keep what they had.
pub proof fn lemma_selection_keeps_supported(
    s: AppView,
    label: Seq<char>,
    paths: Seq<Seq<char>>,
    at: int,
)
    requires
        0 <= at < paths.len(),
        is_image(paths[at]),
    ensures
        s.apply_selection(label, paths).selections.contains_key(label),
        s.apply_selection(label, paths).selections[label].files == supported_only(paths),
        s.apply_selection(label, paths).selections[label].active == 0,
        s.apply_selection(label, paths).selections[label].wf(),
        forall|i: int|
            0 <= i < supported_only(paths).len() ==> is_image(#[trigger] supported_only(paths)[i]),
        forall|other: Seq<char>|
            other != label ==> s.apply_selection(label, paths).selections.contains_key(other)
                == s.selections.contains_key(other) && s.apply_selection(
                label,
                paths,
            ).selections[other] == s.selections[other],
{
    lemma_supported_only_empty(paths);
    lemma_supported_only(paths);
}

/// A list without a supported image, the empty list among them, leaves the
/// window without a selection and without an active file.
pub proof fn lemma_selection_cleared(s: AppView, label: Seq<char>, paths: Seq<Seq<char>>)
    requires
        forall|i: int| 0 <= i < paths.len() ==> !is_image(#[trigger] paths[i]),
    ensures
        SelectionView::select(paths) is None,
        !s.apply_selection(label, paths).selections.contains_key(label),
        s.apply_selection(label, paths).active_file(label) is None,
{
    lemma_supported_only_empty(paths);
}

/// Navigating keeps every selection well formed.
pub proof fn lemma_navigate_keeps_wf(s: AppView, label: Seq<char>, delta: int)
    requires
        s.wf(),
    ensures
        s.navigate_selection(label, delta).wf(),
{
    let t = s.navigate_selection(label, delta);
    assert forall|k: Seq<char>| #[trigger] t.selections.contains_key(k) implies t.selections[k].wf() by {
        assert(s.selections.contains_key(k));
    }
}

/// The windows are independent of one another: what one window selects,
/// navigates to or is resized to changes neither the selection nor the
/// governor of another.
pub proof fn lemma_windows_independent(
    s: AppView,
    label: Seq<char>,
    other: Seq<char>,
    paths: Seq<Seq<char>>,
    delta: int,
    width: u32,
    echo: u32,
)
    requires
        other != label,
    ensures
        s.apply_selection(label, paths).active_file(other) == s.active_file(other),
        s.navigate_selection(label, delta).active_file(other) == s.active_file(other),
        s.begin_resize(label, width).resize_decision(other, echo) == s.resize_decision(
            other,
            echo,
        ),
        s.end_resize(label).resize_decision(other, echo) == s.resize_decision(other, echo),
        s.schedule_size_save(label).pending_save.superseded(other) == s.pending_save.superseded(
            other,
        ),
{
}

/// After a window was closed no table holds an entry for it, and what the
/// tables hold for the other windows is what they held before.
pub proof fn lemma_close_window_prunes(s: AppView, label: Seq<char>, other: Seq<char>)
    requires
        other != label,
    ensures
        !s.close_window(label).knows(label),
        s.close_window(label).knows(other) == s.knows(other),
        s.close_window(label).active_file(other) == s.active_file(other),
        s.close_window(label).resize_state(other) == s.resize_state(other),
        s.close_window(label).pending_save.superseded(other) == s.pending_save.superseded(other),
        s.close_window(label).aspect_ratio.contains_key(other) ==> s.close_window(
            label,
        ).aspect_ratio[other] == s.aspect_ratio[other],
{
}

/// After a reset no table holds an entry for any window, the settings are
/// those of a first run, and no task that was pending before can still
/// run.
pub proof fn lemma_reset_forgets(s: AppView, label: Seq<char>, task: u64)
    ensures
        !s.reset_cache().knows(label),
        s.reset_cache().settings == PersistedView::initial(),
        s.reset_cache().saved_settings(label, task) is None,
{
}

/// A burst of resizes changes nothing but the pending saves, and those
/// as a burst of the scheduler does.
pub proof fn lemma_size_save_burst(s: AppView, label: Seq<char>, n: nat)
    ensures
        s.size_save_burst(label, n) == (AppView {
            pending_save: s.pending_save.burst(label, n),
            ..s
        }),
    decreases n,
{
    if n > 0 {
        lemma_size_save_burst(s, label, (n - 1) as nat);
    }
}

/// Of a burst of calls of `schedule_size_save` for one window, however
/// long, at most one save is written, and once it is written no timer of
/// the burst writes another. Where the first call found a task number
/// left, exactly one is written: that of the last task scheduled, with the
/// settings as they are when its timer runs out.
pub proof fn lemma_size_save_burst_writes_once(
    s: AppView,
    label: Seq<char>,
    n: nat,
    task: u64,
    other: u64,
)
    requires
        s.wf(),
        n >= 1,
    ensures
        s.size_save_burst(label, n).saved_settings(label, task) is Some && s.size_save_burst(
            label,
            n,
        ).saved_settings(label, other) is Some ==> task == other,
        s.size_save_burst(label, n).saved_settings(label, task) is Some ==> s.size_save_burst(
            label,
            n,
        ).fire_size_save(label, task).saved_settings(label, other) is None,
        s.pending_save.has_room() ==> (s.size_save_burst(label, n).saved_settings(label, task)
            is Some <==> task == s.pending_save.last_of_burst(n)),
        s.size_save_burst(label, n).saved_settings(label, task) is Some ==> s.size_save_burst(
            label,
            n,
        ).saved_settings(label, task) == Some(s.settings),
{
    lemma_size_save_burst(s, label, n);
    lemma_burst_runs_once(s.pending_save, label, n, task, other);
}

/// A save that was scheduled writes the settings as they are when its
/// timer runs out, not as they were when it was scheduled: whatever update
/// came in after the burst that scheduled it is in what it writes.
pub proof fn lemma_save_writes_current_settings(
    s: AppView,
    label: Seq<char>,
    n: nat,
    update: SettingsUpdate,
)
    requires
        s.wf(),
        n >= 1,
        s.pending_save.has_room(),
    ensures
        s.size_save_burst(label, n).set_settings(update).saved_settings(
            label,
            s.pending_save.last_of_burst(n) as u64,
        ) == Some(s.settings.updated(update)),
{
    lemma_size_save_burst(s, label, n);
    lemma_burst_runs_once(s.pending_save, label, n, s.pending_save.last_of_burst(n) as u64, 0);
}

/// Storing a selection in a table stores its view in the table's view.
proof fn lemma_views_insert(m: Map<Seq<char>, SelectionState>, k: Seq<char>, s: SelectionState)
    ensures
        selection_views(m.insert(k, s)) == selection_views(m).insert(k, s@),
{
    assert(selection_views(m.insert(k, s)) =~= selection_views(m).insert(k, s@));
}

/// Taking a label out of a table takes it out of the table's view.
proof fn lemma_views_remove(m: Map<Seq<char>, SelectionState>, k: Seq<char>)
    ensures
        selection_views(m.remove(k)) == selection_views(m).remove(k),
{
    assert(selection_views(m.remove(k)) =~= selection_views(m).remove(k));
}

impl View for ActiveFile {
    type V = ActiveFileView;

    open spec fn view(&self) -> ActiveFileView {
        ActiveFileView {
            path: self.path@,
            title: match self.title {
                Some(t) => Some(t@),
                None => None,
            },
            payload: self.payload@,
            settings: self.settings@,
        }
    }
}

impl FitError {
    /// The error in words.
    pub fn message(&self) -> (m: &'static str)
        ensures
            m@ == "failed to read image dimensions"@,
    {
        "failed to read image dimensions"
    }
}

impl View for AppState {
    type V = AppView;

    closed spec fn view(&self) -> AppView {
        AppView {
            settings: self.settings@,
            aspect_ratio: self.aspect_ratio@,
            adjusting_resize: self.adjusting_resize@.dom(),
            pending_save: self.pending_save@,
            selections: selection_views(self.selections@),
            last_focused_window: match self.last_focused_window {
                Some(l) => Some(l@),
                None => None,
            },
        }
    }
}

impl AppState {
    /// The tables are well formed, and so is what they hold.
    pub closed spec fn wf(&self) -> bool {
        &&& self.aspect_ratio.wf()
        &&& self.adjusting_resize.wf()
        &&& self.pending_save.wf()
        &&& self.selections.wf()
        &&& self@.wf()
    }

    /// A well-formed state has a well-formed view.
    pub proof fn lemma_wf(&self)
        requires
            self.wf(),
        ensures
            self@.wf(),
    {
    }

    /// The state at start, with the settings that were loaded.
    pub fn new(settings: PersistedState) -> (s: AppState)
        ensures
            s.wf(),
            s@ == AppView::initial(settings@),
    {
        let s = AppState {
            settings,
            aspect_ratio: LabelMap::new(),
            adjusting_resize: LabelMap::new(),
            pending_save: DebounceScheduler::new(),
            selections: LabelMap::new(),
            last_focused_window: None,
        };
        proof {
            s.pending_save.lemma_wf();
            assert(s@.adjusting_resize =~= Set::<Seq<char>>::empty());
            assert(s@.selections =~= Map::<Seq<char>, SelectionView>::empty());
        }
        s
    }

    /// The settings as they are now.
    pub fn get_settings(&self) -> (s: PersistedState)
        ensures
            s@ == self@.settings,
    {
        self.settings.clone()
    }

    /// Applies a partial update to the settings and returns them, to be
    /// saved.
    pub fn set_settings(&mut self, update: SettingsUpdate) -> (s: PersistedState)
        requires
            old(self).wf(),
        ensures
            final(self).wf(),
            final(self)@ == old(self)@.set_settings(update),
            s@ == final(self)@.settings,
    {
        self.settings.apply_update(update);
        self.settings.clone()
    }

    /// The label of the window that last had the focus.
    pub fn last_focused_window(&self) -> (l: Option<String>)
        ensures
            match l {
                Some(s) => self@.last_focused_window == Some(s@),
                None => self@.last_focused_window is None,
            },
    {
        match &self.last_focused_window {
            Some(l) => Some(l.clone()),
            None => None,
        }
    }

    /// The path of the active file of `label`.
    pub fn active_file_for_window(&self, label: &str) -> (p: Option<String>)
        requires
            self.wf(),
        ensures
            match p {
                Some(s) => self@.active_file(label@) == Some(s@),
                None => self@.active_file(label@) is None,
            },
    {
        match self.selections.get(label) {
            Some(sel) => {
                assert(self@.selections.contains_key(label@));
                assert(self@.selections[label@] == sel@);
                Some(sel.active_file().clone())
            },
            None => None,
        }
    }

    /// The files of the selection of `label`, in order.
    pub fn selected_files(&self, label: &str) -> (f: Option<Vec<String>>)
        requires
            self.wf(),
        ensures
            match f {
                Some(v) => self@.selections.contains_key(label@) && texts(v@)
                    == self@.selections[label@].files,
                None => !self@.selections.contains_key(label@),
            },
    {
        match self.selections.get(label) {
            Some(sel) => {
                assert(self@.selections[label@] == sel@);
                Some(sel.to_paths())
            },
            None => None,
        }
    }

    /// The index of the active file of `label`.
    pub fn active_index(&self, label: &str) -> (i: Option<usize>)
        requires
            self.wf(),
        ensures
            match i {
                Some(v) => self@.selections.contains_key(label@) && v
                    == self@.selections[label@].active,
                None => !self@.selections.contains_key(label@),
            },
    {
        match self.selections.get(label) {
            Some(sel) => {
                assert(self@.selections[label@] == sel@);
                Some(sel.active())
            },
            None => None,
        }
    }

    /// The ratio that is cached for `label`.
    pub fn cached_ratio(&self, label: &str) -> (r: Option<AspectRatio>)
        requires
            self.wf(),
        ensures
            match r {
                Some(v) => self@.aspect_ratio.contains_key(label@) && v
                    == self@.aspect_ratio[label@],
                None => !self@.aspect_ratio.contains_key(label@),
            },
    {
        match self.aspect_ratio.get(label) {
            Some(r) => Some(*r),
            None => None,
        }
    }

    /// The save that is pending for `label`.
    pub fn pending_save_for(&self, label: &str) -> (t: Option<u64>)
        requires
            self.wf(),
        ensures
            t == self@.pending_save.superseded(label@),
    {
        self.pending_save.pending_task(label)
    }

    /// The number of windows with a pending save.
    pub fn pending_save_count(&self) -> (n: usize)
        requires
            self.wf(),
        ensures
            n == self@.pending_save.pending.dom().len(),
    {
        self.pending_save.pending_count()
    }

    /// Whether any table holds an entry for `label`.
    pub fn knows(&self, label: &str) -> (b: bool)
        requires
            self.wf(),
        ensures
            b == self@.knows(label@),
    {
        self.aspect_ratio.contains_key(label) || self.adjusting_resize.contains_key(label)
            || self.pending_save.pending_task(label).is_some() || self.selections.contains_key(
            label,
        )
    }

    /// The state of the governor for `label`.
    pub fn resize_state(&self, label: &str) -> (r: ResizeState)
        requires
            self.wf(),
        ensures
            r == self@.resize_state(label@),
    {
        if self.adjusting_resize.contains_key(label) {
            ResizeState::Adjusting
        } else {
            ResizeState::Idle
        }
    }

    /// Gives `label` the files `files`: the supported ones become its
    /// selection, with the first of them active. Where none is supported
    /// the window loses its selection.
    pub fn apply_selection(&mut self, label: &str, files: Vec<String>) -> (r: SelectionOutcome)
        requires
            old(self).wf(),
        ensures
            final(self).wf(),
            final(self)@ == old(self)@.apply_selection(label@, texts(files@)),
            match r {
                SelectionOutcome::Cleared { notice } => {
                    &&& SelectionView::select(texts(files@)) is None
                    &&& notice@ == PayloadView::cleared()
                },
                SelectionOutcome::Selected { path } => {
                    &&& SelectionView::select(texts(files@)) is Some
                    &&& final(self)@.active_file(label@) == Some(path@)
                },
            },
    {
        match SelectionState::from_paths(files) {
            Some(sel) => {
                let path = sel.active_file().clone();
                proof {
                    lemma_views_insert(self.selections@, label@, sel);
                }
                self.selections.insert(label.to_owned(), sel);
                SelectionOutcome::Selected { path }
            },
            None => {
                proof {
                    lemma_views_remove(self.selections@, label@);
                }
                self.selections.remove(label);
                SelectionOutcome::Cleared { notice: ActiveFilePayload::cleared() }
            },
        }
    }

    /// Moves the active file of `label` by `delta`, without wrapping round,
    /// and returns the new active file where it changed.
    pub fn navigate_selection(&mut self, label: &str, delta: isize) -> (p: Option<String>)
        requires
            old(self).wf(),
        ensures
            final(self).wf(),
            final(self)@ == old(self)@.navigate_selection(label@, delta as int),
            match p {
                Some(path) => old(self)@.navigation_result(label@, delta as int) == Some(path@),
                None => old(self)@.navigation_result(label@, delta as int) is None,
            },
    {
        let ghost before = self.selections@;
        match self.selections.remove(label) {
            Some(sel) => {
                let mut sel = sel;
                let changed = sel.navigate(delta);
                let path = if changed {
                    Some(sel.active_file().clone())
                } else {
                    None
                };
                proof {
                    lemma_views_remove(before, label@);
                    lemma_views_insert(before.remove(label@), label@, sel);
                    assert(selection_views(before).remove(label@).insert(label@, sel@)
                        =~= selection_views(before).insert(label@, sel@));
                }
                self.selections.insert(label.to_owned(), sel);
                path
            },
            None => {
                assert(self.selections@ =~= before);
                None
            },
        }
    }

    /// Applies the active file of `label`, `probe` being the dimensions
    /// read from it: caches its ratio, notes it in the settings, and
    /// returns what the program has to do. Nothing is applied where the
    /// window has no selection or its active file is no supported image.
    pub fn apply_active_file(&mut self, label: &str, probe: Option<(u32, u32)>) -> (r: Option<
        ActiveFile,
    >)
        requires
            old(self).wf(),
        ensures
            final(self).wf(),
            final(self)@ == old(self)@.apply_active_file(label@, probe),
            match r {
                Some(a) => old(self)@.active_file_change(label@) == Some(a@),
                None => old(self)@.active_file_change(label@) is None,
            },
    {
        let found = match self.selections.get(label) {
            Some(sel) => {
                assert(self@.selections[label@] == sel@);
                Some((sel.active_file().clone(), sel.payload()))
            },
            None => None,
        };
        match found {
            Some((path, payload)) => {
                if !is_image_path(path.as_str()) {
                    return None;
                }
                let title = display_title(path.as_str());
                match probe {
                    Some(d) => {
                        if d.1 > 0 {
                            self.aspect_ratio.insert(
                                label.to_owned(),
                                AspectRatio { width: d.0, height: d.1 },
                            );
                        }
                    },
                    None => {},
                }
                self.settings.last_file = Some(path.clone());
                let settings = self.settings.clone();
                Some(ActiveFile { path, title, payload, settings })
            },
            None => None,
        }
    }

    /// Decides what to do with a new size of `label`, of which `width` is
    /// the width, and enters `Adjusting` where a corrective resize is due.
    pub fn begin_resize(&mut self, label: &str, width: u32) -> (d: ResizeDecision)
        requires
            old(self).wf(),
        ensures
            final(self).wf(),
            d == old(self)@.resize_decision(label@, width),
            final(self)@ == old(self)@.begin_resize(label@, width),
    {
        if self.adjusting_resize.contains_key(label) {
            return ResizeDecision::Ignored;
        }
        if !self.settings.aspect_lock {
            return ResizeDecision::Forward;
        }
        let height = match self.aspect_ratio.get(label) {
            Some(ratio) => locked_height(width, *ratio),
            None => None,
        };
        match height {
            Some(h) => {
                self.adjusting_resize.insert(label.to_owned(), ());
                assert(self@.adjusting_resize =~= old(self)@.adjusting_resize.insert(label@));
                ResizeDecision::Correct { width, height: h }
            },
            None => ResizeDecision::Forward,
        }
    }

    /// Returns the governor of `label` to `Idle`, whether or not the
    /// corrective resize succeeded.
    pub fn end_resize(&mut self, label: &str)
        requires
            old(self).wf(),
        ensures
            final(self).wf(),
            final(self)@ == old(self)@.end_resize(label@),
    {
        self.adjusting_resize.remove(label);
        assert(self@.adjusting_resize =~= old(self)@.adjusting_resize.remove(label@));
    }

    /// Schedules the save of the size of `label`, in place of the one that
    /// is pending for it. Nothing is scheduled once the task numbers are
    /// used up.
    pub fn schedule_size_save(&mut self, label: &str) -> (r: Option<Scheduled>)
        requires
            old(self).wf(),
        ensures
            final(self).wf(),
            final(self)@ == old(self)@.schedule_size_save(label@),
            match r {
                Some(s) => {
                    &&& old(self)@.pending_save.has_room()
                    &&& s.task == old(self)@.pending_save.next_task
                    &&& s.delay_ms == SIZE_SAVE_DELAY_MS
                    &&& s.cancelled == old(self)@.pending_save.superseded(label@)
                },
                None => !old(self)@.pending_save.has_room(),
            },
    {
        let r = self.pending_save.schedule(label, SIZE_SAVE_DELAY_MS);
        proof {
            self.pending_save.lemma_wf();
        }
        r
    }

    /// Decides, when the timer of `task` has run out, whether the save
    /// takes place, and if so returns the settings as they are at that
    /// moment.
    pub fn fire_size_save(&mut self, label: &str, task: u64) -> (r: Option<PersistedState>)
        requires
            old(self).wf(),
        ensures
            final(self).wf(),
            final(self)@ == old(self)@.fire_size_save(label@, task),
            match r {
                Some(s) => old(self)@.saved_settings(label@, task) == Some(s@),
                None => old(self)@.saved_settings(label@, task) is None,
            },
    {
        let runs = self.pending_save.fire(label, task);
        proof {
            self.pending_save.lemma_wf();
        }
        if runs {
            Some(self.settings.clone())
        } else {
            None
        }
    }

    /// Resets the state: default settings, empty tables. Returns the
    /// pending saves, each window once, so that their timers are cancelled
    /// and none of them writes the settings back.
    pub fn reset_cache(&mut self) -> (cancelled: Vec<Entry<u64>>)
        requires
            old(self).wf(),
        ensures
            final(self).wf(),
            final(self)@ == old(self)@.reset_cache(),
            distinct_keys(cancelled@),
            map_of(cancelled@) == old(self)@.pending_save.pending,
            cancelled@.len() == old(self)@.pending_save.pending.dom().len(),
    {
        let cancelled = self.pending_save.cancel_all();
        self.settings = PersistedState::default();
        self.aspect_ratio.clear();
        self.adjusting_resize.clear();
        self.selections.clear();
        self.last_focused_window = None;
        proof {
            self.pending_save.lemma_wf();
            assert(self@.adjusting_resize =~= Set::<Seq<char>>::empty());
            assert(self@.selections =~= Map::<Seq<char>, SelectionView>::empty());
        }
        cancelled
    }

    /// Forgets `label`: no table holds an entry for it afterwards. Returns
    /// its pending save, to be cancelled.
    pub fn close_window(&mut self, label: &str) -> (cancelled: Option<u64>)
        requires
            old(self).wf(),
        ensures
            final(self).wf(),
            final(self)@ == old(self)@.close_window(label@),
            cancelled == old(self)@.pending_save.superseded(label@),
    {
        proof {
            lemma_views_remove(self.selections@, label@);
        }
        self.aspect_ratio.remove(label);
        self.adjusting_resize.remove(label);
        self.selections.remove(label);
        let cancelled = self.pending_save.cancel(label);
        proof {
            self.pending_save.lemma_wf();
            assert(self@.adjusting_resize =~= old(self)@.adjusting_resize.remove(label@));
        }
        cancelled
    }

    /// Notes the active file of `label` as the last file of the settings
    /// and returns the settings, to be saved. Nothing changes where the
    /// window has no selection.
    pub fn remember_active_file(&mut self, label: &str) -> (r: Option<PersistedState>)
        requires
            old(self).wf(),
        ensures
            final(self).wf(),
            final(self)@ == old(self)@.remember_active_file(label@),
            match r {
                Some(s) => old(self)@.active_file(label@) is Some && s@ == final(self)@.settings,
                None => old(self)@.active_file(label@) is None,
            },
    {
        match self.active_file_for_window(label) {
            Some(path) => {
                self.settings.last_file = Some(path);
                Some(self.settings.clone())
            },
            None => None,
        }
    }

    /// Notes that `label` has the focus, and its active file as the last
    /// file of the settings. Returns the settings, to be saved, where the
    /// window has an active file.
    pub fn focus_window(&mut self, label: &str) -> (r: Option<PersistedState>)
        requires
            old(self).wf(),
        ensures
            final(self).wf(),
            final(self)@ == old(self)@.focus_window(label@),
            match r {
                Some(s) => old(self)@.active_file(label@) is Some && s@ == final(self)@.settings,
                None => old(self)@.active_file(label@) is None,
            },
    {
        self.last_focused_window = Some(label.to_owned());
        self.remember_active_file(label)
    }

    /// The path to fit `label` to: its active file, or else the last file
    /// of the settings.
    pub fn fit_path(&self, label: &str) -> (p: Option<String>)
        requires
            self.wf(),
        ensures
            match p {
                Some(s) => self@.fit_path(label@) == Some(s@),
                None => self@.fit_path(label@) is None,
            },
    {
        match self.active_file_for_window(label) {
            Some(p) => Some(p),
            None => match &self.settings.last_file {
                Some(p) => Some(p.clone()),
                None => None,
            },
        }
    }

    /// Fits `label` to its image. `probe` holds the dimensions read from
    /// the file of `fit_path`, or nothing where they could not be read;
    /// `current` holds the size of the window, or nothing where it could
    /// not be obtained. Returns the size to give the window, and caches the
    /// ratio of the image where there is one.
    pub fn fit_now(
        &mut self,
        label: &str,
        probe: Option<(u32, u32)>,
        current: Option<(u32, u32)>,
    ) -> (r: Result<Option<FitSize>, FitError>)
        requires
            old(self).wf(),
        ensures
            final(self).wf(),
            r == old(self)@.fit_outcome(label@, probe, current),
            final(self)@ == old(self)@.fit_now(label@, probe, current),
    {
        if self.fit_path(label).is_none() {
            return Ok(None);
        }
        let d = match probe {
            Some(d) => d,
            None => {
                return Err(FitError::Unreadable);
            },
        };
        let c = match current {
            Some(c) => c,
            None => {
                return Ok(None);
            },
        };
        let size = fit_size(c.0, c.1, d.0, d.1, MIN_DIMENSION);
        if size.is_some() {
            self.aspect_ratio.insert(label.to_owned(), AspectRatio { width: d.0, height: d.1 });
        }
        Ok(size)
    }
}

} // verus!
