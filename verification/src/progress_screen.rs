//! The screen that is shown while background work goes on.

use vstd::prelude::*;

use vstd::utf8::encode_utf8;

use crate::ordering::{in_order, sorted, Ranked};
use crate::screen::{ink, line_of, list10, nothing, put, span, Color, Line, Rect};
use crate::text::{self, repeated, decimal, separated};
use crate::work_status::{bar_width, db_stats_line, db_stats_view, detail_of, queue_line, queue_view, reads_view, tasks_view, told_detail, told_progress, worker_stats_lines, DbStatsModel, DbThreadStats, PendingCount, PendingModel, Progress, ReasoningLevel, WorkStateSnapshot, WorkStatus, WorkStatusModel, WorkerStats, WorkerStatsModel};

verus! {

/// What the work is.
#[derive(Debug, Clone, Copy, PartialEq, Eq, Structural)]
pub enum ProgressPhase {
    /// Looking over all files at the start
    Eyeballing,
    /// Looking into files after they were taken in
    ContentAnalysis,
    /// Updating signals after changes
    SignalRefresh,
}

impl ProgressPhase {
    /// The message of a phase.
    pub open spec fn message(self, reasoning: ReasoningLevel, complete: bool) -> Seq<char> {
        match self {
            ProgressPhase::Eyeballing => if complete || reasoning == ReasoningLevel::Full {
                "Ready!"@
            } else if reasoning == ReasoningLevel::Blind {
                "Scanning corpus"@
            } else {
                "Computing health signals"@
            },
            ProgressPhase::ContentAnalysis => if complete {
                "Analysis complete!"@
            } else {
                "Analyzing metadata"@
            },
            ProgressPhase::SignalRefresh => if complete {
                "Signals updated!"@
            } else {
                "Updating signals"@
            },
        }
    }

    /// The message of the phase.
    pub fn status_message(&self, reasoning: ReasoningLevel, complete: bool) -> (r: &'static str)
        ensures
            r@ == self.message(reasoning, complete),
    {
        if complete {
            return match self {
                ProgressPhase::Eyeballing => "Ready!",
                ProgressPhase::ContentAnalysis => "Analysis complete!",
                ProgressPhase::SignalRefresh => "Signals updated!",
            };
        }
        match self {
            ProgressPhase::Eyeballing => match reasoning {
                ReasoningLevel::Blind => "Scanning corpus",
                ReasoningLevel::Inodes => "Computing health signals",
                ReasoningLevel::Full => "Ready!",
            },
            ProgressPhase::ContentAnalysis => "Analyzing metadata",
            ProgressPhase::SignalRefresh => "Updating signals",
        }
    }

    /// Whether the eye is not awake yet in the phase.
    pub fn uses_closed_eye(&self) -> (r: bool)
        ensures
            r == (*self == ProgressPhase::Eyeballing),
    {
        match self {
            ProgressPhase::Eyeballing => true,
            _ => false,
        }
    }
}

/// Waiting for work to begin and to end.
#[derive(Debug, Clone, Copy, PartialEq, Eq, Structural)]
pub struct WaitState {
    /// Whether anything is waited for
    pub started: bool,
    /// Whether work was seen since
    pub seen_work: bool,
}

impl WaitState {
    /// Nothing is waited for.
    pub fn new() -> (r: Self)
        ensures
            r == (WaitState { started: false, seen_work: false }),
    {
        WaitState { started: false, seen_work: false }
    }

    /// Waiting starts.
    pub fn start(&mut self)
        ensures
            *final(self) == (WaitState { started: true, seen_work: false }),
    {
        self.started = true;
        self.seen_work = false;
    }

    /// Whether a report shows work.
    pub open spec fn busy(status: WorkStatusModel) -> bool {
        status.pending > 0 || status.state == WorkStateSnapshot::Working
    }

    /// The waiting after a report.
    pub open spec fn after(self, status: WorkStatusModel) -> WaitState {
        if self.started && WaitState::busy(status) {
            WaitState { seen_work: true, ..self }
        } else {
            self
        }
    }

    /// Whether a report ends the waiting: there was work, and there is none.
    pub open spec fn ends(self, status: WorkStatusModel) -> bool {
        self.started && self.seen_work && !WaitState::busy(status)
    }

    /// Takes a report. Returns whether it ends the waiting.
    pub fn tick(&mut self, status: &WorkStatus) -> (r: bool)
        ensures
            *final(self) == old(self).after(status.deep_view()),
            r == old(self).ends(status.deep_view()),
    {
        if !self.started {
            return false;
        }
        if status.pending > 0 || status.state == WorkStateSnapshot::Working {
            self.seen_work = true;
            false
        } else {
            self.seen_work
        }
    }
}

/// A frame of the eye.
#[derive(Debug, Clone, Copy, PartialEq, Eq, Structural)]
pub enum EyeFrame {
    Closed,
    HalfOpen,
}

/// The screen.
#[derive(Debug)]
pub struct ProgressScreen {
    pub phase: ProgressPhase,
    pub wait_state: WaitState,
    pub progress: Option<Progress>,
    pub progress_detail: Option<String>,
    pub complete: bool,
    pub reasoning_level: ReasoningLevel,
    pub db_stats: Option<DbThreadStats>,
    pub worker_stats: Option<WorkerStats>,
    pub db_queue_depth: u64,
    pub consecutive_idle_ticks: u8,
    pub tick_count: u32,
    pub pending_counts: Vec<PendingCount>,
}

/// The model of a [`ProgressScreen`].
pub struct ProgressModel {
    pub phase: ProgressPhase,
    pub wait_state: WaitState,
    pub progress: Option<Progress>,
    pub progress_detail: Option<Seq<char>>,
    pub complete: bool,
    pub reasoning_level: ReasoningLevel,
    pub db_stats: Option<DbStatsModel>,
    pub worker_stats: Option<WorkerStatsModel>,
    pub db_queue_depth: u64,
    pub consecutive_idle_ticks: u8,
    pub tick_count: u32,
    pub pending_counts: Seq<PendingModel>,
}

impl View for ProgressScreen {
    type V = ProgressModel;

    open spec fn view(&self) -> ProgressModel {
        ProgressModel {
            phase: self.phase,
            wait_state: self.wait_state,
            progress: self.progress,
            progress_detail: self.progress_detail.deep_view(),
            complete: self.complete,
            reasoning_level: self.reasoning_level,
            db_stats: self.db_stats.deep_view(),
            worker_stats: self.worker_stats.deep_view(),
            db_queue_depth: self.db_queue_depth,
            consecutive_idle_ticks: self.consecutive_idle_ticks,
            tick_count: self.tick_count,
            pending_counts: self.pending_counts.deep_view(),
        }
    }
}

/// What is known of the background work at one moment.
#[derive(Debug)]
pub struct Pulse {
    /// Milliseconds since the animation last moved
    pub elapsed_ms: u64,
    pub status: WorkStatus,
    pub db_stats: Option<DbThreadStats>,
    pub worker_stats: Option<WorkerStats>,
    pub db_queue_depth: u64,
    pub reasoning_level: ReasoningLevel,
}

/// The model of a [`Pulse`].
pub struct PulseModel {
    pub elapsed_ms: u64,
    pub status: WorkStatusModel,
    pub db_stats: Option<DbStatsModel>,
    pub worker_stats: Option<WorkerStatsModel>,
    pub db_queue_depth: u64,
    pub reasoning_level: ReasoningLevel,
}

impl DeepView for Pulse {
    type V = PulseModel;

    open spec fn deep_view(&self) -> PulseModel {
        PulseModel {
            elapsed_ms: self.elapsed_ms,
            status: self.status.deep_view(),
            db_stats: self.db_stats.deep_view(),
            worker_stats: self.worker_stats.deep_view(),
            db_queue_depth: self.db_queue_depth,
            reasoning_level: self.reasoning_level,
        }
    }
}

/// Whether a report shows no work at all.
pub open spec fn is_idle(status: WorkStatusModel) -> bool {
    status.pending == 0 && (status.state == WorkStateSnapshot::Idle || status.state
        == WorkStateSnapshot::Done)
}

/// A number one greater, as far as it goes.
pub open spec fn one_more(n: u8) -> u8 {
    if n == u8::MAX {
        n
    } else {
        (n + 1) as u8
    }
}

impl ProgressModel {
    /// The screen as it opens.
    pub open spec fn opened(
        phase: ProgressPhase,
        detail: Seq<char>,
        reasoning_level: ReasoningLevel,
        waiting: bool,
    ) -> Self {
        ProgressModel {
            phase,
            wait_state: WaitState { started: waiting, seen_work: false },
            progress: Some(Progress::none()),
            progress_detail: Some(detail),
            complete: false,
            reasoning_level,
            db_stats: None,
            worker_stats: None,
            db_queue_depth: 0,
            consecutive_idle_ticks: 0,
            tick_count: 0,
            pending_counts: Seq::empty(),
        }
    }

    /// The screen with what a pulse tells: the animation a frame on for each
    /// tenth of a second, the progress, and the statistics, as far as there are
    /// new ones.
    pub open spec fn told(self, p: PulseModel) -> Self {
        ProgressModel {
            tick_count: ((self.tick_count + p.elapsed_ms as int / 100) % 0x1_0000_0000) as u32,
            progress: told_progress(self.progress, p.status),
            progress_detail: told_detail(self.progress_detail, p.status),
            pending_counts: p.status.pending_by_label,
            db_stats: if p.db_stats is Some {
                p.db_stats
            } else {
                self.db_stats
            },
            worker_stats: if p.worker_stats is Some {
                p.worker_stats
            } else {
                self.worker_stats
            },
            db_queue_depth: p.db_queue_depth,
            ..self
        }
    }

    /// The screen after a pulse, and whether the work is complete.
    ///
    /// Looking over all files is complete when everything is known. The other
    /// phases are never complete before all writes are through; then they are
    /// when work that was seen is over, or when there was none three times in a
    /// row.
    pub open spec fn ticked(self, p: PulseModel) -> (Self, bool) {
        let m = self.told(p);
        if m.phase == ProgressPhase::Eyeballing {
            let n = ProgressModel {
                reasoning_level: p.reasoning_level,
                complete: m.complete || p.reasoning_level == ReasoningLevel::Full,
                ..m
            };
            (n, n.complete)
        } else if p.db_queue_depth != 0 {
            (ProgressModel { consecutive_idle_ticks: 0, ..m }, false)
        } else {
            let w = ProgressModel { wait_state: m.wait_state.after(p.status), ..m };
            let n = if m.wait_state.ends(p.status) {
                ProgressModel { complete: true, ..w }
            } else if is_idle(p.status) {
                let k = one_more(w.consecutive_idle_ticks);
                ProgressModel { consecutive_idle_ticks: k, complete: w.complete || k >= 3, ..w }
            } else {
                ProgressModel { consecutive_idle_ticks: 0, ..w }
            };
            (n, n.complete)
        }
    }
}

// ---------------------------------------------------------------------------
// Summary of tasks
// ---------------------------------------------------------------------------

/// A kind of task with its number.
pub open spec fn task_part(c: PendingModel) -> Seq<char> {
    c.label + ": "@ + decimal(c.count as nat)
}

/// The bytes that a text takes.
pub open spec fn byte_count(s: Seq<char>) -> nat {
    encode_utf8(s).len() as usize as nat
}

/// The parts of a summary: kinds of tasks as long as they fit in sixty-four
/// bytes with a separator each, but at least one. What is left out leaves an
/// ellipsis.
pub open spec fn summary_parts(
    entries: Seq<PendingModel>,
    parts: Seq<Seq<char>>,
    used: nat,
) -> Seq<Seq<char>>
    decreases entries.len(),
{
    if entries.len() == 0 {
        parts
    } else {
        let p = task_part(entries[0]);
        let n = used + byte_count(p) + 3;
        if n > 64 && parts.len() > 0 {
            parts.push("…"@)
        } else {
            summary_parts(entries.drop_first(), parts.push(p), n)
        }
    }
}

/// The summary of the tasks that are left, the most numerous kind first.
pub open spec fn summary_text(counts: Seq<PendingModel>) -> Option<Seq<char>> {
    if counts.len() == 0 {
        None
    } else {
        Some(
            separated(
                summary_parts(
                    in_order(
                        counts,
                        |a: PendingModel, b: PendingModel| PendingCount::precedes(a, b),
                    ),
                    Seq::empty(),
                    0,
                ),
                " │ "@,
            ),
        )
    }
}

// ---------------------------------------------------------------------------
// Layout and bar
// ---------------------------------------------------------------------------

/// The heights of the rows, from the margin on top to the statistics of the
/// workers: the margin, the message, a gap, the eye, a gap, the bar, the
/// summary, the queue, the writes, the workers.
pub open spec fn row_heights_view(m: ProgressModel, height: u16, timing: bool) -> Seq<u16> {
    let bar: u16 = if m.progress is Some {
        3
    } else {
        0
    };
    let bar_gap: u16 = if m.progress is Some {
        1
    } else {
        0
    };
    let summary: u16 = if m.pending_counts.len() > 0 {
        1
    } else {
        0
    };
    let writes: u16 = if timing && m.db_stats is Some {
        1
    } else {
        0
    };
    let workers: u16 = if timing && m.worker_stats is Some {
        2
    } else {
        0
    };
    let total = 2 + 16 + bar_gap + bar + summary + 1 + writes + workers;
    let margin: u16 = if height as int > total {
        ((height - total) / 2) as u16
    } else {
        0
    };
    list10(margin, 1u16, 1u16, 16u16, bar_gap, bar, summary, 1u16, writes, workers)
}

/// Where the eye stands in an area, in the middle of its width.
pub open spec fn eye_area_view(area: Rect, row_y: u16, row_height: u16) -> Rect {
    Rect {
        x: (area.x + (if area.width > 64 {
            (area.width - 64) / 2
        } else {
            0
        })) as u16,
        y: row_y,
        width: if area.width < 64 {
            area.width
        } else {
            64
        },
        height: row_height,
    }
}

/// Where the bar stands in its row.
pub open spec fn bar_area_view(row: Rect) -> Rect {
    let w = bar_width(row.width);
    Rect {
        x: (row.x + (if row.width > w + 2 {
            (row.width - (w + 2)) / 2
        } else {
            0
        })) as u16,
        y: row.y,
        width: (w + 4) as u16,
        height: row.height,
    }
}

/// The dot that bounces in the left column of a cell.
pub open spec fn left_dot(tick: u32) -> char {
    let k = (tick / 2) % 4;
    if k == 0 {
        '⠁'
    } else if k == 1 {
        '⠂'
    } else if k == 2 {
        '⠄'
    } else {
        '⠂'
    }
}

/// The dot that bounces in the right column of a cell whose left is filled.
pub open spec fn right_dot(tick: u32) -> char {
    let k = (tick / 2) % 4;
    if k == 0 {
        '⠏'
    } else if k == 1 {
        '⠗'
    } else if k == 2 {
        '⠧'
    } else {
        '⠗'
    }
}

/// The half cells of a bar that are filled, the last one never being so.
pub open spec fn half_cells(p: Progress, width: u16) -> nat {
    let most: nat = if width == 0 {
        0
    } else {
        (width * 2 - 1) as nat
    };
    if p.cells((width * 2) as nat) < most {
        p.cells((width * 2) as nat)
    } else {
        most
    }
}

/// The bar: full cells, a dot that bounces in the half cell behind them, and
/// the rest empty.
pub open spec fn bar_view(p: Progress, width: u16, tick: u32) -> Seq<char> {
    let half = half_cells(p, width);
    let full = half / 2;
    "⠸"@ + repeated('⠿', full) + seq![
        if half % 2 == 1 {
            right_dot(tick)
        } else {
            left_dot(tick)
        },
    ] + repeated(
        ' ',
        if full + 1 > width {
            0
        } else {
            (width - (full + 1)) as nat
        },
    ) + "⠇"@
}

impl ProgressScreen {
    /// A screen for looking over all files at the start.
    pub fn new_eyeballing() -> (r: Self)
        ensures
            r@ == ProgressModel::opened(
                ProgressPhase::Eyeballing,
                "Starting..."@,
                ReasoningLevel::Blind,
                false,
            ),
    {
        ProgressScreen::open(
            ProgressPhase::Eyeballing,
            "Starting...",
            ReasoningLevel::Blind,
            false,
        )
    }

    /// A screen for looking into files.
    pub fn new_content_analysis() -> (r: Self)
        ensures
            r@ == ProgressModel::opened(
                ProgressPhase::ContentAnalysis,
                "Starting metadata analysis..."@,
                ReasoningLevel::Full,
                true,
            ),
    {
        ProgressScreen::open(
            ProgressPhase::ContentAnalysis,
            "Starting metadata analysis...",
            ReasoningLevel::Full,
            true,
        )
    }

    /// A screen for updating signals.
    pub fn new_signal_refresh() -> (r: Self)
        ensures
            r@ == ProgressModel::opened(
                ProgressPhase::SignalRefresh,
                "Updating signals..."@,
                ReasoningLevel::Full,
                true,
            ),
    {
        ProgressScreen::open(
            ProgressPhase::SignalRefresh,
            "Updating signals...",
            ReasoningLevel::Full,
            true,
        )
    }

    fn open(
        phase: ProgressPhase,
        detail: &str,
        reasoning_level: ReasoningLevel,
        waiting: bool,
    ) -> (r: Self)
        ensures
            r@ == ProgressModel::opened(phase, detail@, reasoning_level, waiting),
    {
        let mut wait_state: WaitState = WaitState::new();
        if waiting {
            wait_state.start();
        }
        ProgressScreen {
            phase,
            wait_state,
            progress: Some(Progress::none()),
            progress_detail: Some(detail.to_owned()),
            complete: false,
            reasoning_level,
            db_stats: None,
            worker_stats: None,
            db_queue_depth: 0,
            consecutive_idle_ticks: 0,
            tick_count: 0,
            pending_counts: nothing(),
        }
    }

    /// What the work is.
    pub fn phase(&self) -> (r: ProgressPhase)
        ensures
            r == self@.phase,
    {
        self.phase
    }

    /// Whether the eye is not awake yet.
    pub fn uses_closed_eye(&self) -> (r: bool)
        ensures
            r == (self@.phase == ProgressPhase::Eyeballing),
    {
        self.phase.uses_closed_eye()
    }

    /// Whether the work is complete.
    pub fn is_complete(&self) -> (r: bool)
        ensures
            r == self@.complete,
    {
        self.complete
    }

    /// The message.
    pub fn status_message(&self) -> (r: &'static str)
        ensures
            r@ == self@.phase.message(self@.reasoning_level, self@.complete),
    {
        self.phase.status_message(self.reasoning_level, self.complete)
    }

    /// Takes new statistics of the writes, if there are any.
    pub fn set_db_stats(&mut self, stats: Option<DbThreadStats>)
        ensures
            final(self)@ == (ProgressModel {
                db_stats: if stats is Some {
                    stats.deep_view()
                } else {
                    old(self)@.db_stats
                },
                ..old(self)@
            }),
    {
        if stats.is_some() {
            self.db_stats = stats;
        }
    }

    /// Takes new statistics of the workers, if there are any.
    pub fn set_worker_stats(&mut self, stats: Option<WorkerStats>)
        ensures
            final(self)@ == (ProgressModel {
                worker_stats: if stats is Some {
                    stats.deep_view()
                } else {
                    old(self)@.worker_stats
                },
                ..old(self)@
            }),
    {
        if stats.is_some() {
            self.worker_stats = stats;
        }
    }

    /// Takes the number of writes that are waiting.
    pub fn set_db_queue_depth(&mut self, depth: u64)
        ensures
            final(self)@ == (ProgressModel { db_queue_depth: depth, ..old(self)@ }),
    {
        self.db_queue_depth = depth;
    }

    /// The dot that bounces in the left column of a cell.
    pub fn spinner_char_left(&self) -> (r: char)
        ensures
            r == left_dot(self@.tick_count),
    {
        match (self.tick_count / 2) % 4 {
            0 => '⠁',
            1 => '⠂',
            2 => '⠄',
            _ => '⠂',
        }
    }

    /// The dot that bounces in the right column of a cell whose left is filled.
    pub fn spinner_char_right(&self) -> (r: char)
        ensures
            r == right_dot(self@.tick_count),
    {
        match (self.tick_count / 2) % 4 {
            0 => '⠏',
            1 => '⠗',
            2 => '⠧',
            _ => '⠗',
        }
    }

    /// Takes what is known at one moment. Returns whether the work is complete.
    pub fn tick(&mut self, pulse: Pulse) -> (r: bool)
        ensures
            (final(self)@, r) == old(self)@.ticked(pulse.deep_view()),
    {
        let more: u64 = pulse.elapsed_ms / 100;
        self.tick_count = ((self.tick_count as u128 + more as u128) % 0x1_0000_0000) as u32;
        self.update_progress(&pulse.status);
        self.set_db_stats(pulse.db_stats);
        self.set_worker_stats(pulse.worker_stats);
        self.set_db_queue_depth(pulse.db_queue_depth);
        match self.phase {
            ProgressPhase::Eyeballing => {
                self.reasoning_level = pulse.reasoning_level;
                if self.reasoning_level == ReasoningLevel::Full {
                    self.complete = true;
                }
            },
            ProgressPhase::ContentAnalysis | ProgressPhase::SignalRefresh => {
                if self.db_queue_depth != 0 {
                    self.consecutive_idle_ticks = 0;
                    return false;
                }
                if self.wait_state.tick(&pulse.status) {
                    self.complete = true;
                } else {
                    let idle: bool = pulse.status.pending == 0 && (pulse.status.state
                        == WorkStateSnapshot::Idle || pulse.status.state
                        == WorkStateSnapshot::Done);
                    if idle {
                        if self.consecutive_idle_ticks < 255 {
                            self.consecutive_idle_ticks = self.consecutive_idle_ticks + 1;
                        }
                        if self.consecutive_idle_ticks >= 3 {
                            self.complete = true;
                        }
                    } else {
                        self.consecutive_idle_ticks = 0;
                    }
                }
            },
        }
        self.complete
    }

    fn update_progress(&mut self, status: &WorkStatus)
        ensures
            final(self)@ == (ProgressModel {
                progress: told_progress(old(self)@.progress, status.deep_view()),
                progress_detail: told_detail(old(self)@.progress_detail, status.deep_view()),
                pending_counts: status.deep_view().pending_by_label,
                ..old(self)@
            }),
    {
        if status.session_queued > 0 {
            self.progress = Some(
                Progress { done: status.total_processed, total: status.session_queued },
            );
            self.progress_detail = Some(detail_of(status));
        }
        let counts: Vec<PendingCount> = status.pending_by_label.clone();
        proof {
            assert(counts.deep_view() =~= status.pending_by_label.deep_view());
        }
        self.pending_counts = counts;
    }

    /// The summary of the tasks that are left.
    pub fn format_task_summary(&self) -> (r: Option<String>)
        ensures
            r.deep_view() == summary_text(self@.pending_counts),
    {
        if self.pending_counts.len() == 0 {
            return None;
        }
        let counts: Vec<PendingCount> = self.pending_counts.clone();
        proof {
            assert(counts.deep_view() =~= self@.pending_counts);
        }
        let entries: Vec<PendingCount> = sorted(counts);
        let ghost all = entries.deep_view();
        let mut parts: Vec<String> = nothing();
        let mut used: u128 = 0;
        let mut i: usize = 0;
        let mut full: bool = false;
        proof {
            assert(all.skip(0) =~= all);
        }
        while i < entries.len() && !full
            invariant
                i <= entries.len(),
                all == entries.deep_view(),
                parts.len() == 0 ==> used == 0,
                parts.len() > 0 && !full ==> used <= 64 || parts.len() == 1,
                used <= usize::MAX + 3,
                !full ==> summary_parts(all, Seq::empty(), 0) == summary_parts(
                    all.skip(i as int),
                    parts.deep_view(),
                    used as nat,
                ),
                full ==> summary_parts(all, Seq::empty(), 0) == parts.deep_view(),
            decreases entries.len() - i, (if full { 0int } else { 1int }),
        {
            let part: String = text::cat3(
                entries[i].label.as_str(),
                ": ",
                text::count(entries[i].count).as_str(),
            );
            let n: u128 = used + part.as_str().len() as u128 + 3;
            proof {
                assert(all.skip(i as int)[0] == entries[i as int].deep_view());
                assert(all.skip(i as int).drop_first() =~= all.skip(i as int + 1));
            }
            if n > 64 && parts.len() > 0 {
                put(&mut parts, "…".to_owned());
                full = true;
            } else {
                used = n;
                put(&mut parts, part);
                i = i + 1;
            }
        }
        Some(text::join(&parts, " │ "))
    }

    /// The frame of the eye, where the eye does not move.
    pub fn eye_art(&self) -> (r: EyeFrame)
        ensures
            r == (if self@.phase == ProgressPhase::Eyeballing && self@.reasoning_level
                == ReasoningLevel::Inodes {
                EyeFrame::HalfOpen
            } else {
                EyeFrame::Closed
            }),
    {
        match self.phase {
            ProgressPhase::Eyeballing => match self.reasoning_level {
                ReasoningLevel::Inodes => EyeFrame::HalfOpen,
                _ => EyeFrame::Closed,
            },
            _ => EyeFrame::Closed,
        }
    }

    /// The heights of the rows in an area.
    pub fn row_heights(&self, height: u16, timing: bool) -> (r: Vec<u16>)
        ensures
            r@ == row_heights_view(self@, height, timing),
    {
        let bar: u16 = if self.progress.is_some() {
            3
        } else {
            0
        };
        let bar_gap: u16 = if self.progress.is_some() {
            1
        } else {
            0
        };
        let summary: u16 = if self.pending_counts.len() > 0 {
            1
        } else {
            0
        };
        let writes: u16 = if timing && self.db_stats.is_some() {
            1
        } else {
            0
        };
        let workers: u16 = if timing && self.worker_stats.is_some() {
            2
        } else {
            0
        };
        let total: u16 = 2 + 16 + bar_gap + bar + summary + 1 + writes + workers;
        let margin: u16 = if height > total {
            (height - total) / 2
        } else {
            0
        };
        let mut rows: Vec<u16> = Vec::new();
        rows.push(margin);
        rows.push(1);
        rows.push(1);
        rows.push(16);
        rows.push(bar_gap);
        rows.push(bar);
        rows.push(summary);
        rows.push(1);
        rows.push(writes);
        rows.push(workers);
        rows
    }

    /// Writes the bar for a row of some width, where there is progress.
    pub fn progress_bar(&self, row_width: u16) -> (r: Option<String>)
        ensures
            r.deep_view() == (match self@.progress {
                Some(p) => Some(bar_view(p, bar_width(row_width), self@.tick_count)),
                None => None,
            }),
    {
        match self.progress {
            None => None,
            Some(p) => {
                let width: u16 = bar_width(row_width);
                let most: u16 = if width == 0 {
                    0
                } else {
                    width * 2 - 1
                };
                let cells: u16 = p.filled(width * 2);
                let half: u16 = if cells < most {
                    cells
                } else {
                    most
                };
                let full: u16 = half / 2;
                let empty: u16 = if full + 1 > width {
                    0
                } else {
                    width - (full + 1)
                };
                let mut dot: String = String::new();
                dot.push(
                    if half % 2 == 1 {
                        self.spinner_char_right()
                    } else {
                        self.spinner_char_left()
                    },
                );
                Some(
                    text::cat5(
                        "⠸",
                        text::repeat('⠿', full as usize).as_str(),
                        dot.as_str(),
                        text::repeat(' ', empty as usize).as_str(),
                        "⠇",
                    ),
                )
            },
        }
    }

    /// Builds the line of the summary, where there are tasks.
    pub fn summary_line(&self) -> (r: Option<Line>)
        ensures
            r.deep_view() == (match summary_text(self@.pending_counts) {
                Some(s) => Some(line_of(seq![span(s, ink(Color::DarkGray))])),
                None => None,
            }),
    {
        match self.format_task_summary() {
            Some(s) => Some(Line::one(s.as_str(), ink(Color::DarkGray))),
            None => None,
        }
    }

    /// Builds the line on writes that are waiting, where there are any.
    pub fn queue_depth_line(&self) -> (r: Option<Line>)
        ensures
            r.deep_view() == (if self@.db_queue_depth > 0 {
                Some(queue_view(self@.db_queue_depth))
            } else {
                None
            }),
    {
        if self.db_queue_depth > 0 {
            Some(queue_line(self.db_queue_depth))
        } else {
            None
        }
    }

    /// Builds the lines of the statistics, where they are wanted and there are
    /// any.
    pub fn stats_lines(&self, timing: bool) -> (r: (Option<Line>, Option<Vec<Line>>))
        ensures
            r.0.deep_view() == (if timing && self@.db_stats is Some {
                Some(db_stats_view(self@.db_stats->0))
            } else {
                None
            }),
            r.1.deep_view() == (if timing && self@.worker_stats is Some {
                Some(
                    crate::screen::list2(
                        tasks_view(self@.worker_stats->0),
                        reads_view(self@.worker_stats->0),
                    ),
                )
            } else {
                None
            }),
    {
        if !timing {
            return (None, None);
        }
        let writes: Option<Line> = match &self.db_stats {
            Some(s) => Some(db_stats_line(s)),
            None => None,
        };
        let workers: Option<Vec<Line>> = match &self.worker_stats {
            Some(s) => Some(worker_stats_lines(s)),
            None => None,
        };
        (writes, workers)
    }
}

/// Where the eye stands in an area.
pub fn eye_area(area: Rect, row_y: u16, row_height: u16) -> (r: Rect)
    requires
        area.x + area.width <= u16::MAX,
    ensures
        r == eye_area_view(area, row_y, row_height),
{
    Rect {
        x: area.x + (if area.width > 64 {
            (area.width - 64) / 2
        } else {
            0
        }),
        y: row_y,
        width: if area.width < 64 {
            area.width
        } else {
            64
        },
        height: row_height,
    }
}

/// Where the bar stands in its row.
pub fn bar_area(row: Rect) -> (r: Rect)
    requires
        row.x + row.width <= u16::MAX,
    ensures
        r == bar_area_view(row),
{
    let w: u16 = bar_width(row.width);
    Rect {
        x: row.x + (if row.width > w + 2 {
            (row.width - (w + 2)) / 2
        } else {
            0
        }),
        y: row.y,
        width: w + 4,
        height: row.height,
    }
}

// ---------------------------------------------------------------------------
// Laws
// ---------------------------------------------------------------------------

/// Work after the start is never complete while writes are waiting.
pub proof fn law_complete_only_when_written(m: ProgressModel, p: PulseModel)
    requires
        m.phase != ProgressPhase::Eyeballing,
        m.ticked(p).1,
    ensures
        p.db_queue_depth == 0,
{
}

/// What is complete stays complete.
pub proof fn law_complete_stays(m: ProgressModel, p: PulseModel)
    requires
        m.complete,
    ensures
        m.ticked(p).0.complete,
{
}

/// Looking over all files is complete exactly when everything is known, or was.
pub proof fn law_eyeballing_ends_with_full_reasoning(m: ProgressModel, p: PulseModel)
    requires
        m.phase == ProgressPhase::Eyeballing,
    ensures
        m.ticked(p).1 <==> m.complete || p.reasoning_level == ReasoningLevel::Full,
{
}

/// Work that is over when the screen opens does not keep it open: three pulses
/// without work and without writes complete it.
pub proof fn law_three_idle_pulses_complete(
    m: ProgressModel,
    a: PulseModel,
    b: PulseModel,
    c: PulseModel,
)
    requires
        m.phase != ProgressPhase::Eyeballing,
        is_idle(a.status) && a.db_queue_depth == 0,
        is_idle(b.status) && b.db_queue_depth == 0,
        is_idle(c.status) && c.db_queue_depth == 0,
    ensures
        m.ticked(a).0.ticked(b).0.ticked(c).1,
{
}

/// The rows fill no more than the area, where that is high enough for them.
pub proof fn law_rows_fit(m: ProgressModel, height: u16, timing: bool)
    requires
        height >= 27,
    ensures
        crate::lists::total(
            row_heights_view(m, height, timing).map_values(|h: u16| h as nat),
        ) <= height,
{
    let s = row_heights_view(m, height, timing).map_values(|h: u16| h as nat);
    reveal_with_fuel(crate::lists::total, 11);
    assert(s.len() == 10);
    assert(crate::lists::total(s) == s[0] + s[1] + s[2] + s[3] + s[4] + s[5] + s[6] + s[7] + s[8]
        + s[9]);
}

/// The bar has as many cells as it was made for, and its two ends.
pub proof fn law_bar_keeps_width(p: Progress, width: u16, tick: u32)
    requires
        width > 0,
    ensures
        bar_view(p, width, tick).len() == width + 2,
{
    reveal_strlit("⠸");
    reveal_strlit("⠇");
}

/// What a pulse says is kept: the progress, the tasks that wait and the queue; the
/// spinner goes on by one for every tenth of a second.
pub proof fn law_pulse_is_kept(m: ProgressModel, p: PulseModel)
    ensures
        ({
            let n = m.ticked(p).0;
            &&& n.phase == m.phase
            &&& n.pending_counts == p.status.pending_by_label
            &&& n.db_queue_depth == p.db_queue_depth
            &&& p.db_stats is Some ==> n.db_stats == p.db_stats
            &&& p.db_stats is None ==> n.db_stats == m.db_stats
            &&& p.worker_stats is Some ==> n.worker_stats == p.worker_stats
            &&& p.worker_stats is None ==> n.worker_stats == m.worker_stats
            &&& p.status.session_queued > 0 ==> n.progress is Some && n.progress->0.done
                == p.status.total_processed && n.progress->0.total == p.status.session_queued
            &&& p.status.session_queued == 0 ==> n.progress == m.progress && n.progress_detail
                == m.progress_detail
            &&& m.tick_count + p.elapsed_ms / 100 <= u32::MAX ==> n.tick_count == m.tick_count
                + p.elapsed_ms / 100
        }),
{
}

/// Past the first look a phase is complete when nothing is left to write and work
/// was seen and is over, or nothing was to be done for the third time in a row.
pub proof fn law_phase_ends(m: ProgressModel, p: PulseModel)
    requires
        m.phase != ProgressPhase::Eyeballing,
    ensures
        ({
            let n = m.ticked(p);
            let working = p.status.state == WorkStateSnapshot::Working;
            let over = m.wait_state.started && m.wait_state.seen_work && p.status.pending == 0
                && !working;
            let idle = p.status.pending == 0 && !working;
            &&& n.1 <==> p.db_queue_depth == 0 && (m.complete || over || (idle
                && m.consecutive_idle_ticks >= 2))
            &&& p.db_queue_depth != 0 ==> n.0.consecutive_idle_ticks == 0 && n.0.wait_state
                == m.wait_state
            &&& p.db_queue_depth == 0 && !idle ==> n.0.consecutive_idle_ticks == 0
            &&& p.db_queue_depth == 0 && idle && !over && m.consecutive_idle_ticks < u8::MAX
                ==> n.0.consecutive_idle_ticks == m.consecutive_idle_ticks + 1
            &&& p.db_queue_depth == 0 ==> (n.0.wait_state.seen_work <==> m.wait_state.seen_work || (
            m.wait_state.started && (p.status.pending > 0 || working)))
        }),
{
}

/// How many bytes the parts of a summary take, with what stands between them.
pub open spec fn bytes_taken(entries: Seq<PendingModel>) -> nat
    decreases entries.len(),
{
    if entries.len() == 0 {
        0
    } else {
        byte_count(task_part(entries[0])) + 3 + bytes_taken(entries.drop_first())
    }
}

/// A summary shows the first tasks in turn, as many as fit and at least one, and
/// says by dots where it leaves some out.
pub proof fn law_summary_shows_the_first(entries: Seq<PendingModel>)
    requires
        entries.len() > 0,
    ensures
        exists|k: int|
            #![trigger entries.take(k)]
            1 <= k <= entries.len() && shows_first(
                summary_parts(entries, Seq::empty(), 0),
                entries,
                k,
            ) && (k > 1 ==> bytes_taken(entries.take(k)) <= 64) && (k < entries.len()
                ==> bytes_taken(entries.take(k + 1)) > 64),
{
    let k = lemma_summary(entries, Seq::empty(), 0);
    let shown = summary_parts(entries, Seq::empty(), 0);
    assert(shown.skip(0) =~= shown);
    assert(entries.take(k) == entries.take(k));
    assert(shows_first(shown, entries, k));
}

/// Whether the parts are those of the first tasks, and dots where there are more.
pub open spec fn shows_first(parts: Seq<Seq<char>>, entries: Seq<PendingModel>, k: int) -> bool {
    &&& forall|i: int| 0 <= i < k ==> #[trigger] parts[i] == task_part(entries[i])
    &&& k == entries.len() ==> parts.len() == k
    &&& k < entries.len() ==> parts.len() == k + 1 && parts[k] == "…"@
}

proof fn lemma_summary(
    entries: Seq<PendingModel>,
    parts: Seq<Seq<char>>,
    used: nat,
) -> (k: int)
    requires
        parts.len() == 0 ==> used == 0,
    ensures
        0 <= k <= entries.len(),
        parts.len() == 0 && entries.len() > 0 ==> k >= 1,
        summary_parts(entries, parts, used).len() >= parts.len(),
        summary_parts(entries, parts, used).take(parts.len() as int) == parts,
        shows_first(
            summary_parts(entries, parts, used).skip(parts.len() as int),
            entries,
            k,
        ),
        k > (if parts.len() == 0 {
            1int
        } else {
            0
        }) ==> used + bytes_taken(entries.take(k)) <= 64,
        k < entries.len() ==> used + bytes_taken(entries.take(k + 1)) > 64,
    decreases entries.len(),
{
    let all = summary_parts(entries, parts, used);
    if entries.len() == 0 {
        assert(all.take(parts.len() as int) =~= parts);
        0
    } else {
        let p = task_part(entries[0]);
        let n = used + byte_count(p) + 3;
        let rest = entries.drop_first();
        if n > 64 && parts.len() > 0 {
            assert(all == parts.push("…"@));
            assert(all.take(parts.len() as int) =~= parts);
            assert(entries.take(1).drop_first() =~= Seq::<PendingModel>::empty());
            assert(bytes_taken(entries.take(1)) == byte_count(p) + 3 + bytes_taken(
                entries.take(1).drop_first(),
            ));
            0
        } else {
            let k = lemma_summary(rest, parts.push(p), n);
            assert(all == summary_parts(rest, parts.push(p), n));
            assert(all.take(parts.len() as int) =~= all.take(parts.len() as int + 1).take(
                parts.len() as int,
            ));
            assert(parts.push(p).take(parts.len() as int) =~= parts);
            let tail = all.skip(parts.len() as int);
            let inner = all.skip(parts.len() as int + 1);
            assert forall|i: int| 0 <= i < k + 1 implies #[trigger] tail[i] == task_part(
                entries[i],
            ) by {
                if i == 0 {
                    assert(all.take(parts.len() as int + 1)[parts.len() as int] == p);
                } else {
                    assert(tail[i] == inner[i - 1]);
                    assert(rest[i - 1] == entries[i]);
                }
            }
            if k < rest.len() {
                assert(tail[k + 1] == inner[k]);
            }
            assert(entries.take(k + 1).drop_first() =~= rest.take(k));
            assert(bytes_taken(entries.take(k + 1)) == byte_count(p) + 3 + bytes_taken(
                rest.take(k),
            ));
            if k < rest.len() {
                assert(entries.take(k + 2).drop_first() =~= rest.take(k + 1));
                assert(bytes_taken(entries.take(k + 2)) == byte_count(p) + 3 + bytes_taken(
                    rest.take(k + 1),
                ));
            }
            if k == 0 {
                assert(bytes_taken(rest.take(0)) == 0);
            }
            k + 1
        }
    }
}

/// A phase opens with nothing done and nothing seen, and waits where it is told to.
pub proof fn law_phase_opens_fresh(
    phase: ProgressPhase,
    detail: Seq<char>,
    reasoning_level: ReasoningLevel,
    waiting: bool,
)
    ensures
        ({
            let m = ProgressModel::opened(phase, detail, reasoning_level, waiting);
            &&& m.phase == phase && m.reasoning_level == reasoning_level
            &&& m.progress_detail == Some(detail)
            &&& m.wait_state.started == waiting && !m.wait_state.seen_work
            &&& !m.complete && m.consecutive_idle_ticks == 0 && m.tick_count == 0
            &&& m.pending_counts.len() == 0 && m.db_queue_depth == 0
            &&& m.progress is Some && m.progress->0.done == 0
        }),
{
}

/// The eye stands in the middle of its area, no wider than it is drawn; so does the
/// bar with its frame.
pub proof fn law_eye_and_bar_stand_in_the_middle(area: Rect, row_y: u16, row_height: u16)
    requires
        area.x + area.width <= u16::MAX,
    ensures
        ({
            let r = eye_area_view(area, row_y, row_height);
            let left = r.x - area.x;
            let right = area.width - r.width - left;
            &&& 0 <= right - left <= 1
            &&& left >= 0 && r.width <= 64
            &&& area.width >= 64 ==> r.width == 64
            &&& area.width < 64 ==> r.width == area.width
            &&& r.y == row_y && r.height == row_height
        }),
        ({
            let r = bar_area_view(area);
            let w = bar_width(area.width);
            let left = r.x - area.x;
            let right = area.width - (w + 2) - left;
            &&& area.width > w + 2 ==> 0 <= right - left <= 1
            &&& area.width <= w + 2 ==> left == 0
            &&& r.y == area.y && r.height == area.height
        }),
{
}

/// The spinner comes round every eight steps, and moves on every second one.
pub proof fn law_spinner_comes_round(tick: u32)
    requires
        tick + 8 <= u32::MAX,
    ensures
        left_dot((tick + 8) as u32) == left_dot(tick),
        right_dot((tick + 8) as u32) == right_dot(tick),
        left_dot((tick + 2) as u32) != left_dot(tick),
        right_dot((tick + 2) as u32) != right_dot(tick),
        tick % 2 == 0 ==> left_dot((tick + 1) as u32) == left_dot(tick) && right_dot(
            (tick + 1) as u32,
        ) == right_dot(tick),
{
}

/// The tasks that wait are summed up the more numerous first, where there are any.
pub proof fn law_summary_of_tasks(counts: Seq<PendingModel>, entries: Seq<PendingModel>)
    requires
        entries == in_order(
            counts,
            |a: PendingModel, b: PendingModel| PendingCount::precedes(a, b),
        ),
    ensures
        summary_text(counts) is Some <==> counts.len() > 0,
        counts.len() > 0 ==> summary_text(counts)->0 == separated(
            summary_parts(entries, Seq::empty(), 0),
            " │ "@,
        ),
        forall|i: int, j: int|
            0 <= i < j < entries.len() ==> (#[trigger] entries[i]).count >= (
            #[trigger] entries[j]).count,
        forall|c: PendingModel| #[trigger] entries.contains(c) <==> counts.contains(c),
{
    let first = |a: PendingModel, b: PendingModel| PendingCount::precedes(a, b);
    assert forall|a: Seq<char>, b: Seq<char>, c: Seq<char>|
        #![trigger crate::text::text_before(a, b), crate::text::text_before(b, c)]
        crate::text::text_before(a, b) && crate::text::text_before(
            b,
            c,
        ) implies crate::text::text_before(a, c) by {
        crate::text::law_text_before_transitive(a, b, c);
    }
    assert forall|a: Seq<char>| !#[trigger] crate::text::text_before(a, a) by {
        crate::text::law_text_before_irreflexive(a);
    }
    assert forall|a: Seq<char>, b: Seq<char>|
        #![trigger crate::text::text_before(a, b)]
        !crate::text::text_before(a, b) && !crate::text::text_before(b, a) implies a == b by {
        crate::text::law_text_before_total(a, b);
    }
    assert(crate::ordering::ranks(first));
    crate::ordering::law_in_order(counts, first);
    crate::ordering::law_in_order_contains(counts, first);
    assert forall|i: int, j: int| 0 <= i < j < entries.len() implies (#[trigger] entries[i]).count
        >= (#[trigger] entries[j]).count by {
        assert(!first(entries[j], entries[i]));
    }
}

/// A phase says whether it is under way or done.
pub proof fn law_phase_says_where_it_is(phase: ProgressPhase, reasoning: ReasoningLevel)
    ensures
        phase.message(reasoning, true) == (match phase {
            ProgressPhase::Eyeballing => "Ready!"@,
            ProgressPhase::ContentAnalysis => "Analysis complete!"@,
            ProgressPhase::SignalRefresh => "Signals updated!"@,
        }),
        phase == ProgressPhase::ContentAnalysis ==> phase.message(reasoning, false)
            == "Analyzing metadata"@,
        phase == ProgressPhase::SignalRefresh ==> phase.message(reasoning, false)
            == "Updating signals"@,
        ProgressPhase::Eyeballing.message(ReasoningLevel::Blind, false) == "Scanning corpus"@,
        ProgressPhase::Eyeballing.message(ReasoningLevel::Inodes, false)
            == "Computing health signals"@,
        ProgressPhase::Eyeballing.message(ReasoningLevel::Full, false) == "Ready!"@,
{
}

} // verus!
