//! The state of background work, and how screens show it.

use vstd::prelude::*;

use crate::ordering::Ranked;
use crate::screen::{ink, line_of, list12, list2, list6, nothing, put, span, Color, Line, LineModel, Rect, Span, Style};
use crate::single::{law_product_follows_share, law_share_follows_part, law_whole_numbers_follow, product, ratio, share, share_of, whole_part, Single};
use crate::text::{self, decimal, repeated, text_before};

verus! {

/// Whether background work goes on.
#[derive(Debug, Clone, Copy, PartialEq, Eq, Structural)]
pub enum WorkStateSnapshot {
    Idle,
    Working,
    Done,
}

/// How much the library knows of its files.
#[derive(Debug, Clone, Copy, PartialEq, Eq, Structural)]
pub enum ReasoningLevel {
    /// Nothing yet. The eye is closed
    Blind,
    /// The files. The eye is awakening
    Inodes,
    /// Everything. The eye is awake
    Full,
}

/// How many tasks of a kind are left.
#[derive(Debug)]
pub struct PendingCount {
    pub label: String,
    pub count: usize,
}

/// The model of a [`PendingCount`].
pub struct PendingModel {
    pub label: Seq<char>,
    pub count: usize,
}

impl DeepView for PendingCount {
    type V = PendingModel;

    open spec fn deep_view(&self) -> PendingModel {
        PendingModel { label: self.label@, count: self.count }
    }
}

impl Clone for PendingCount {
    fn clone(&self) -> (r: Self)
        ensures
            r.deep_view() == self.deep_view(),
    {
        PendingCount { label: self.label.clone(), count: self.count }
    }
}

/// The kind with the most tasks stands first, and of two the first
/// alphabetically.
impl Ranked for PendingCount {
    open spec fn precedes(a: PendingModel, b: PendingModel) -> bool {
        a.count > b.count || (a.count == b.count && text_before(a.label, b.label))
    }

    fn before(&self, other: &Self) -> (r: bool) {
        self.count > other.count || (self.count == other.count && text::comes_before(
            self.label.as_str(),
            other.label.as_str(),
        ))
    }
}

/// A report on background work.
#[derive(Debug)]
pub struct WorkStatus {
    pub total_processed: u64,
    pub session_queued: u64,
    pub pending: u64,
    pub state: WorkStateSnapshot,
    pub pending_by_label: Vec<PendingCount>,
}

/// The model of a [`WorkStatus`].
pub struct WorkStatusModel {
    pub total_processed: u64,
    pub session_queued: u64,
    pub pending: u64,
    pub state: WorkStateSnapshot,
    pub pending_by_label: Seq<PendingModel>,
}

impl DeepView for WorkStatus {
    type V = WorkStatusModel;

    open spec fn deep_view(&self) -> WorkStatusModel {
        WorkStatusModel {
            total_processed: self.total_processed,
            session_queued: self.session_queued,
            pending: self.pending,
            state: self.state,
            pending_by_label: self.pending_by_label.deep_view(),
        }
    }
}

/// A part of some work that is done.
#[derive(Debug, Clone, Copy, PartialEq, Eq, Structural)]
pub struct Progress {
    pub done: u64,
    pub total: u64,
}

impl Progress {
    /// Nothing done yet.
    #[verifier::allow_in_spec]
    pub fn none() -> Progress
        returns
            (Progress { done: 0, total: 1 }),
    {
        Progress { done: 0, total: 1 }
    }

    /// How much of a number of cells is done, rounded down.
    pub open spec fn cells(self, width: nat) -> nat {
        if self.total == 0 {
            0
        } else {
            whole_part(product(share(self.done as nat, self.total as nat), ratio(width, 1)))
        }
    }

    /// How much of a number of cells is done, as far as a terminal can show it.
    pub fn filled(self, width: u16) -> (r: u16)
        ensures
            r == (if self.cells(width as nat) > u16::MAX {
                u16::MAX as nat
            } else {
                self.cells(width as nat)
            }),
    {
        if self.total == 0 {
            return 0;
        }
        share_of(self.done, self.total).times(Single::of(width as u64, 1)).cells()
    }
}

/// The progress that a report tells of, unless nothing was queued.
pub open spec fn told_progress(before: Option<Progress>, status: WorkStatusModel) -> Option<
    Progress,
> {
    if status.session_queued > 0 {
        Some(Progress { done: status.total_processed, total: status.session_queued })
    } else {
        before
    }
}

/// The progress that a report tells of in words, unless nothing was queued.
pub open spec fn told_detail(before: Option<Seq<char>>, status: WorkStatusModel) -> Option<
    Seq<char>,
> {
    if status.session_queued > 0 {
        Some(
            decimal(status.total_processed as nat) + " / "@ + decimal(
                status.session_queued as nat,
            ),
        )
    } else {
        before
    }
}

/// The progress that a report tells of in words.
pub fn detail_of(status: &WorkStatus) -> (r: String)
    ensures
        r@ == decimal(status.total_processed as nat) + " / "@ + decimal(
            status.session_queued as nat,
        ),
{
    text::cat3(
        text::dec(status.total_processed as u128).as_str(),
        " / ",
        text::dec(status.session_queued as u128).as_str(),
    )
}

/// A bar of some cells between brackets.
pub open spec fn plain_bar(p: Progress, width: u16) -> Seq<char> {
    let cells = p.cells(width as nat);
    let filled: nat = if cells > u16::MAX {
        u16::MAX as nat
    } else {
        cells
    };
    "["@ + repeated('=', filled) + repeated(
        ' ',
        if filled > width {
            0
        } else {
            (width - filled) as nat
        },
    ) + "]"@
}

/// Writes a bar of some cells between brackets.
pub fn bar_text(p: Progress, width: u16) -> (r: String)
    ensures
        r@ == plain_bar(p, width),
{
    let filled: u16 = p.filled(width);
    let empty: u16 = if filled > width {
        0
    } else {
        width - filled
    };
    text::cat4(
        "[",
        text::repeat('=', filled as usize).as_str(),
        text::repeat(' ', empty as usize).as_str(),
        "]",
    )
}

/// The cells of a progress bar: up to forty, with four left free beside it.
#[verifier::allow_in_spec]
pub fn bar_width(width: u16) -> u16
    returns
        (if width < 4 {
            0u16
        } else if width - 4 < 40 {
            (width - 4) as u16
        } else {
            40u16
        }),
{
    if width < 4 {
        0u16
    } else if width - 4 < 40 {
        (width - 4) as u16
    } else {
        40u16
    }
}

/// Where the eye stands in an area beside a plain bar, in the middle of its
/// width.
pub open spec fn small_eye_view(area: Rect, row_y: u16, row_height: u16) -> Rect {
    Rect {
        x: (area.x + (if area.width > 60 {
            (area.width - 60) / 2
        } else {
            0
        })) as u16,
        y: row_y,
        width: if area.width < 60 {
            area.width
        } else {
            60
        },
        height: row_height,
    }
}

/// Where the eye stands in an area beside a plain bar.
pub fn small_eye_area(area: Rect, row_y: u16, row_height: u16) -> (r: Rect)
    requires
        area.x + area.width <= u16::MAX,
    ensures
        r == small_eye_view(area, row_y, row_height),
{
    Rect {
        x: area.x + (if area.width > 60 {
            (area.width - 60) / 2
        } else {
            0
        }),
        y: row_y,
        width: if area.width < 60 {
            area.width
        } else {
            60
        },
        height: row_height,
    }
}

/// Where a plain bar stands in its row.
pub open spec fn plain_bar_view(row: Rect) -> Rect {
    let w = bar_width(row.width);
    Rect {
        x: (row.x + (row.width - w) / 2) as u16,
        y: row.y,
        width: (w + 4) as u16,
        height: row.height,
    }
}

/// Where a plain bar stands in its row.
pub fn plain_bar_area(row: Rect) -> (r: Rect)
    requires
        row.x + row.width <= u16::MAX,
    ensures
        r == plain_bar_view(row),
{
    let w: u16 = bar_width(row.width);
    Rect { x: row.x + (row.width - w) / 2, y: row.y, width: w + 4, height: row.height }
}

// ---------------------------------------------------------------------------
// Statistics
// ---------------------------------------------------------------------------

/// What the thread that writes to the index has done.
#[derive(Debug)]
pub struct DbThreadStats {
    pub total_writes: u64,
    /// Writes per second, with one decimal
    pub writes_per_sec: String,
    pub queue_depth: u64,
}

/// The model of a [`DbThreadStats`].
pub struct DbStatsModel {
    pub total_writes: u64,
    pub writes_per_sec: Seq<char>,
    pub queue_depth: u64,
}

impl DeepView for DbThreadStats {
    type V = DbStatsModel;

    open spec fn deep_view(&self) -> DbStatsModel {
        DbStatsModel {
            total_writes: self.total_writes,
            writes_per_sec: self.writes_per_sec@,
            queue_depth: self.queue_depth,
        }
    }
}

/// What the threads that work have done.
#[derive(Debug)]
pub struct WorkerStats {
    pub tasks_completed: u64,
    pub avg_task_ms: u64,
    pub max_task_ms: u64,
    pub max_task_label: String,
    pub active_threads: u64,
    pub queue_wait_avg_ms: u64,
    pub queue_wait_max_ms: u64,
    pub avg_db_read_us: u64,
    pub median_db_read_us: u64,
    pub max_db_read_us: u64,
    pub total_db_reads: u64,
}

/// The model of a [`WorkerStats`].
pub struct WorkerStatsModel {
    pub tasks_completed: u64,
    pub avg_task_ms: u64,
    pub max_task_ms: u64,
    pub max_task_label: Seq<char>,
    pub active_threads: u64,
    pub queue_wait_avg_ms: u64,
    pub queue_wait_max_ms: u64,
    pub avg_db_read_us: u64,
    pub median_db_read_us: u64,
    pub max_db_read_us: u64,
    pub total_db_reads: u64,
}

impl DeepView for WorkerStats {
    type V = WorkerStatsModel;

    open spec fn deep_view(&self) -> WorkerStatsModel {
        WorkerStatsModel {
            tasks_completed: self.tasks_completed,
            avg_task_ms: self.avg_task_ms,
            max_task_ms: self.max_task_ms,
            max_task_label: self.max_task_label@,
            active_threads: self.active_threads,
            queue_wait_avg_ms: self.queue_wait_avg_ms,
            queue_wait_max_ms: self.queue_wait_max_ms,
            avg_db_read_us: self.avg_db_read_us,
            median_db_read_us: self.median_db_read_us,
            max_db_read_us: self.max_db_read_us,
            total_db_reads: self.total_db_reads,
        }
    }
}

/// A colour for a number that should be small.
#[verifier::allow_in_spec]
pub fn load_color(n: u64, fine: u64, bearable: u64) -> Color
    returns
        (if n < fine {
            Color::Green
        } else if n < bearable {
            Color::Yellow
        } else {
            Color::Red
        }),
{
    if n < fine {
        Color::Green
    } else if n < bearable {
        Color::Yellow
    } else {
        Color::Red
    }
}

/// The colour of labels.
#[verifier::allow_in_spec]
pub fn label_color() -> Color
    returns
        Color::Rgb(245, 28, 153),
{
    Color::Rgb(245, 28, 153)
}

/// The line on writes that are waiting.
pub open spec fn queue_view(depth: u64) -> LineModel {
    line_of(
        seq![
            span(
                "["@ + decimal(depth as nat) + " pending DB writes queued]"@,
                ink(label_color()),
            ),
        ],
    )
}

/// Builds the line on writes that are waiting.
pub fn queue_line(depth: u64) -> (r: Line)
    ensures
        r.deep_view() == queue_view(depth),
{
    Line::one(
        text::cat3("[", text::dec(depth as u128).as_str(), " pending DB writes queued]").as_str(),
        ink(label_color()),
    )
}

/// The line on the thread that writes.
pub open spec fn db_stats_view(s: DbStatsModel) -> LineModel {
    line_of(
        list6(
            span("Writes: "@, ink(Color::DarkGray)),
            span(decimal(s.total_writes as nat), ink(Color::Cyan)),
            span(" | "@, ink(Color::DarkGray)),
            span(s.writes_per_sec + "/s"@, ink(Color::Green)),
            span(" | Q: "@, ink(Color::DarkGray)),
            span(decimal(s.queue_depth as nat), ink(load_color(s.queue_depth, 1, 101))),
        ),
    )
}

/// Builds the line on the thread that writes.
pub fn db_stats_line(s: &DbThreadStats) -> (r: Line)
    ensures
        r.deep_view() == db_stats_view(s.deep_view()),
{
    let mut spans: Vec<Span> = nothing();
    put(&mut spans, Span::styled("Writes: ", ink(Color::DarkGray)));
    put(
        &mut spans,
        Span::styled(text::dec(s.total_writes as u128).as_str(), ink(Color::Cyan)),
    );
    put(&mut spans, Span::styled(" | ", ink(Color::DarkGray)));
    put(
        &mut spans,
        Span::styled(text::cat2(s.writes_per_sec.as_str(), "/s").as_str(), ink(Color::Green)),
    );
    put(&mut spans, Span::styled(" | Q: ", ink(Color::DarkGray)));
    put(
        &mut spans,
        Span::styled(
            text::dec(s.queue_depth as u128).as_str(),
            ink(load_color(s.queue_depth, 1, 101)),
        ),
    );
    Line::of(spans)
}

/// The line on tasks.
pub open spec fn tasks_view(s: WorkerStatsModel) -> LineModel {
    line_of(
        list12(
            span("Tasks: "@, ink(label_color())),
            span(decimal(s.tasks_completed as nat), ink(Color::Cyan)),
            span(" | "@, ink(Color::DarkGray)),
            span("Avg: "@, ink(label_color())),
            span(
                decimal(s.avg_task_ms as nat) + "ms"@,
                ink(load_color(s.avg_task_ms, 100, 500)),
            ),
            span(" | "@, ink(Color::DarkGray)),
            span("Max: "@, ink(label_color())),
            span(decimal(s.max_task_ms as nat) + "ms"@, ink(Color::White)),
            if s.max_task_label.len() == 0 {
                span(""@, Style::plain())
            } else {
                span(" ("@ + s.max_task_label + ")"@, ink(Color::DarkGray))
            },
            span(" | "@, ink(Color::DarkGray)),
            span("Threads: "@, ink(label_color())),
            span(decimal(s.active_threads as nat), ink(Color::White)),
        ),
    )
}

/// The line on waiting and reading.
pub open spec fn reads_view(s: WorkerStatsModel) -> LineModel {
    line_of(
        list12(
            span("Q Wait: "@, ink(label_color())),
            span(
                decimal(s.queue_wait_avg_ms as nat) + "avg"@,
                ink(load_color(s.queue_wait_avg_ms, 5, 20)),
            ),
            span("/"@, ink(Color::DarkGray)),
            span(decimal(s.queue_wait_max_ms as nat) + "max ms"@, ink(Color::White)),
            span(" | "@, ink(Color::DarkGray)),
            span("Reads: "@, ink(label_color())),
            span(decimal(s.avg_db_read_us as nat), ink(Color::Green)),
            span("/"@, ink(Color::DarkGray)),
            span(decimal(s.median_db_read_us as nat), ink(Color::Cyan)),
            span("/"@, ink(Color::DarkGray)),
            span(decimal(s.max_db_read_us as nat) + "µs"@, ink(Color::White)),
            span(" ("@ + decimal(s.total_db_reads as nat) + ")"@, ink(Color::DarkGray)),
        ),
    )
}

/// Builds the two lines on the threads that work.
pub fn worker_stats_lines(s: &WorkerStats) -> (r: Vec<Line>)
    ensures
        r.deep_view() == list2(tasks_view(s.deep_view()), reads_view(s.deep_view())),
{
    let mut a: Vec<Span> = nothing();
    put(&mut a, Span::styled("Tasks: ", ink(label_color())));
    put(&mut a, Span::styled(text::dec(s.tasks_completed as u128).as_str(), ink(Color::Cyan)));
    put(&mut a, Span::styled(" | ", ink(Color::DarkGray)));
    put(&mut a, Span::styled("Avg: ", ink(label_color())));
    put(
        &mut a,
        Span::styled(
            text::cat2(text::dec(s.avg_task_ms as u128).as_str(), "ms").as_str(),
            ink(load_color(s.avg_task_ms, 100, 500)),
        ),
    );
    put(&mut a, Span::styled(" | ", ink(Color::DarkGray)));
    put(&mut a, Span::styled("Max: ", ink(label_color())));
    put(
        &mut a,
        Span::styled(
            text::cat2(text::dec(s.max_task_ms as u128).as_str(), "ms").as_str(),
            ink(Color::White),
        ),
    );
    put(
        &mut a,
        if s.max_task_label.as_str().is_empty() {
            Span::raw("")
        } else {
            Span::styled(
                text::cat3(" (", s.max_task_label.as_str(), ")").as_str(),
                ink(Color::DarkGray),
            )
        },
    );
    put(&mut a, Span::styled(" | ", ink(Color::DarkGray)));
    put(&mut a, Span::styled("Threads: ", ink(label_color())));
    put(&mut a, Span::styled(text::dec(s.active_threads as u128).as_str(), ink(Color::White)));
    let mut b: Vec<Span> = nothing();
    put(&mut b, Span::styled("Q Wait: ", ink(label_color())));
    put(
        &mut b,
        Span::styled(
            text::cat2(text::dec(s.queue_wait_avg_ms as u128).as_str(), "avg").as_str(),
            ink(load_color(s.queue_wait_avg_ms, 5, 20)),
        ),
    );
    put(&mut b, Span::styled("/", ink(Color::DarkGray)));
    put(
        &mut b,
        Span::styled(
            text::cat2(text::dec(s.queue_wait_max_ms as u128).as_str(), "max ms").as_str(),
            ink(Color::White),
        ),
    );
    put(&mut b, Span::styled(" | ", ink(Color::DarkGray)));
    put(&mut b, Span::styled("Reads: ", ink(label_color())));
    put(&mut b, Span::styled(text::dec(s.avg_db_read_us as u128).as_str(), ink(Color::Green)));
    put(&mut b, Span::styled("/", ink(Color::DarkGray)));
    put(&mut b, Span::styled(text::dec(s.median_db_read_us as u128).as_str(), ink(Color::Cyan)));
    put(&mut b, Span::styled("/", ink(Color::DarkGray)));
    put(
        &mut b,
        Span::styled(
            text::cat2(text::dec(s.max_db_read_us as u128).as_str(), "µs").as_str(),
            ink(Color::White),
        ),
    );
    put(
        &mut b,
        Span::styled(
            text::cat3(" (", text::dec(s.total_db_reads as u128).as_str(), ")").as_str(),
            ink(Color::DarkGray),
        ),
    );
    let mut lines: Vec<Line> = nothing();
    put(&mut lines, Line::of(a));
    put(&mut lines, Line::of(b));
    lines
}

/// A bar fills with the work: nothing done fills nothing, all of it fills the
/// bar, and more work done never fills less.
pub proof fn law_bar_follows_work(a: Progress, b: Progress, width: u16)
    requires
        a.total == b.total,
        a.total > 0,
        a.done <= b.done,
    ensures
        a.cells(width as nat) <= b.cells(width as nat),
        a.done == 0 ==> a.cells(width as nat) == 0,
        a.done == a.total ==> a.cells(width as nat) == width,
        a.done <= a.total ==> a.cells(width as nat) <= width,
{
    let t = a.total as nat;
    let w = width as nat;
    lemma_cells_grow(a, b, width);
    law_share_follows_part(0, 0, t);
    law_product_follows_share(0, 0, w);
    law_whole_numbers_follow(0, 0, w);
    law_whole_numbers_follow(0, 0, 0);
    assert(0 * crate::single::one() == 0);
    if a.done <= a.total {
        lemma_cells_grow(a, Progress { done: a.total, total: a.total }, width);
    }
}

proof fn lemma_cells_grow(a: Progress, b: Progress, width: u16)
    requires
        a.total == b.total,
        a.total > 0,
        a.done <= b.done,
    ensures
        a.cells(width as nat) <= b.cells(width as nat),
{
    let t = a.total as nat;
    let w = width as nat;
    let x = share(a.done as nat, t);
    let y = share(b.done as nat, t);
    law_share_follows_part(a.done as nat, b.done as nat, t);
    law_product_follows_share(x, y, w);
    law_whole_numbers_follow(product(x, ratio(w, 1)), product(y, ratio(w, 1)), w);
}

/// A bar is as wide as asked for between its ends, filled from the left by as many
/// cells as the progress takes.
pub proof fn law_bar_is_filled_from_the_left(p: Progress, width: u16)
    requires
        p.done <= p.total,
        p.total > 0,
    ensures
        ({
            let s = plain_bar(p, width);
            let cells = p.cells(width as nat);
            &&& s.len() == width + 2
            &&& s[0] == '[' && s.last() == ']'
            &&& forall|i: int| 0 <= i < cells ==> #[trigger] s[i + 1] == '='
            &&& forall|i: int| cells <= i < width ==> #[trigger] s[i + 1] == ' '
        }),
{
    reveal_strlit("[");
    reveal_strlit("]");
    law_bar_follows_work(p, p, width);
}

/// What the status says of the progress is taken over where work was queued, and
/// else the last stays.
pub proof fn law_progress_is_taken_over(before: Option<Progress>, status: WorkStatusModel)
    ensures
        status.session_queued > 0 ==> told_progress(before, status) == Some(
            Progress { done: status.total_processed, total: status.session_queued },
        ) && told_detail(None, status) == Some(
            decimal(status.total_processed as nat) + " / "@ + decimal(
                status.session_queued as nat,
            ),
        ),
        status.session_queued == 0 ==> told_progress(before, status) == before,
{
}

/// The bar stands in the middle of its row.
pub proof fn law_bar_stands_in_the_middle(row: Rect)
    requires
        row.x + row.width <= u16::MAX,
    ensures
        ({
            let w = bar_width(row.width);
            let left = plain_bar_view(row).x - row.x;
            let right = row.width - w - left;
            &&& 0 <= right - left <= 1
            &&& w <= 40
            &&& row.width >= 4 ==> w + 4 <= row.width || w == 40
            &&& plain_bar_view(row).y == row.y
        }),
{
}

/// The small eye stands in the middle of its area.
pub proof fn law_small_eye_stands_in_the_middle(area: Rect, row_y: u16, row_height: u16)
    requires
        area.x + area.width <= u16::MAX,
    ensures
        ({
            let r = small_eye_view(area, row_y, row_height);
            let left = r.x - area.x;
            let right = area.width - r.width - left;
            &&& left >= 0 && 0 <= right - left <= 1
            &&& area.width >= 60 ==> r.width == 60
            &&& area.width < 60 ==> r.width == area.width
            &&& r.y == row_y && r.height == row_height
        }),
{
}

} // verus!
