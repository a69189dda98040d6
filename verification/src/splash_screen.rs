//! The screen that is shown while the eye is closed.

use vstd::prelude::*;

use crate::screen::{list8, Line};
use crate::progress_screen::EyeFrame;
use crate::work_status::{bar_text, bar_width, db_stats_line, db_stats_view, detail_of, plain_bar, queue_line, queue_view, reads_view, tasks_view, told_detail, told_progress, worker_stats_lines, DbStatsModel, DbThreadStats, Progress, WorkStatus, WorkStatusModel, WorkerStats, WorkerStatsModel};

verus! {

/// What is being loaded.
#[derive(Debug)]
pub enum LoadingType {
    /// A look over all files
    Eyeballing,
    /// A check of all tags
    TagVerification,
    /// A scan of the corpus
    CorpusScan,
    /// A scan of an old library
    LegacyScan,
    /// Something else, with its message
    Operation(String),
}

impl LoadingType {
    /// The message on what is being loaded.
    pub open spec fn words(self) -> Seq<char> {
        match self {
            LoadingType::Eyeballing => "Checking corpus health..."@,
            LoadingType::TagVerification => "Verifying tags..."@,
            LoadingType::CorpusScan => "Scanning corpus..."@,
            LoadingType::LegacyScan => "Scanning legacy library..."@,
            LoadingType::Operation(s) => s@,
        }
    }

    /// The message on what is being loaded.
    pub fn message(&self) -> (r: &str)
        ensures
            r@ == self.words(),
    {
        match self {
            LoadingType::Eyeballing => "Checking corpus health...",
            LoadingType::TagVerification => "Verifying tags...",
            LoadingType::CorpusScan => "Scanning corpus...",
            LoadingType::LegacyScan => "Scanning legacy library...",
            LoadingType::Operation(s) => s.as_str(),
        }
    }
}

/// The state of the eye.
#[derive(Debug, Clone, Copy, PartialEq, Eq, Structural)]
pub enum EyeState {
    Closed,
    Awakening,
    Awake,
}

/// The screen.
#[derive(Debug)]
pub struct SplashScreen {
    pub loading_type: LoadingType,
    pub progress: Option<Progress>,
    pub progress_detail: Option<String>,
    pub complete: bool,
    pub eye_state: EyeState,
    pub db_stats: Option<DbThreadStats>,
    pub worker_stats: Option<WorkerStats>,
    pub db_queue_depth: u64,
}

/// The model of a [`SplashScreen`].
pub struct SplashModel {
    pub loading_type: LoadingType,
    pub progress: Option<Progress>,
    pub progress_detail: Option<Seq<char>>,
    pub complete: bool,
    pub eye_state: EyeState,
    pub db_stats: Option<DbStatsModel>,
    pub worker_stats: Option<WorkerStatsModel>,
    pub db_queue_depth: u64,
}

impl View for SplashScreen {
    type V = SplashModel;

    open spec fn view(&self) -> SplashModel {
        SplashModel {
            loading_type: self.loading_type,
            progress: self.progress,
            progress_detail: self.progress_detail.deep_view(),
            complete: self.complete,
            eye_state: self.eye_state,
            db_stats: self.db_stats.deep_view(),
            worker_stats: self.worker_stats.deep_view(),
            db_queue_depth: self.db_queue_depth,
        }
    }
}

impl SplashModel {
    /// The screen as it opens.
    pub open spec fn opened(loading_type: LoadingType) -> Self {
        SplashModel {
            loading_type,
            progress: Some(Progress::none()),
            progress_detail: Some("Starting..."@),
            complete: false,
            eye_state: EyeState::Closed,
            db_stats: None,
            worker_stats: None,
            db_queue_depth: 0,
        }
    }

    /// The screen after a report. It is complete once the eye is awake.
    pub open spec fn ticked(self, status: WorkStatusModel, eye: EyeState) -> Self {
        SplashModel {
            progress: told_progress(self.progress, status),
            progress_detail: told_detail(self.progress_detail, status),
            eye_state: eye,
            complete: self.complete || eye == EyeState::Awake,
            ..self
        }
    }

    /// The message.
    pub open spec fn message(self) -> Seq<char> {
        match self.eye_state {
            EyeState::Closed => "Scanning corpus..."@,
            EyeState::Awakening => "Computing health signals..."@,
            EyeState::Awake => "Ready!"@,
        }
    }
}

/// The heights of the rows: the margin on top, the message, a gap, the eye, the
/// bar, the queue, the writes, the workers.
pub open spec fn splash_rows_view(m: SplashModel, height: u16, timing: bool) -> Seq<u16> {
    let bar: u16 = if m.progress is Some {
        3
    } else {
        0
    };
    let queue: u16 = if m.db_queue_depth > 0 {
        1
    } else {
        0
    };
    let writes: u16 = if timing && m.db_stats is Some {
        1
    } else {
        0
    };
    let workers: u16 = if timing && m.worker_stats is Some {
        2
    } else {
        0
    };
    let total = 2 + 16 + bar + queue + writes + workers;
    let margin: u16 = if height as int > total {
        ((height - total) / 2) as u16
    } else {
        0
    };
    list8(margin, 1u16, 1u16, 16u16, bar, queue, writes, workers)
}

impl SplashScreen {
    /// A screen for the start.
    pub fn new() -> (r: Self)
        ensures
            r@ == SplashModel::opened(LoadingType::Eyeballing),
    {
        SplashScreen::with_loading_type(LoadingType::Eyeballing)
    }

    /// A screen for something that is loaded.
    pub fn with_loading_type(loading_type: LoadingType) -> (r: Self)
        ensures
            r@ == SplashModel::opened(loading_type),
    {
        SplashScreen {
            loading_type,
            progress: Some(Progress::none()),
            progress_detail: Some("Starting...".to_owned()),
            complete: false,
            eye_state: EyeState::Closed,
            db_stats: None,
            worker_stats: None,
            db_queue_depth: 0,
        }
    }

    /// Takes new statistics of the writes, if there are any.
    pub fn set_db_stats(&mut self, stats: Option<DbThreadStats>)
        ensures
            final(self)@ == (SplashModel {
                db_stats: if stats is Some {
                    stats.deep_view()
                } else {
                    old(self)@.db_stats
                },
                ..old(self)@
            }),
    {
        if stats.is_some() {
            self.db_stats = stats;
        }
    }

    /// Takes new statistics of the workers, if there are any.
    pub fn set_worker_stats(&mut self, stats: Option<WorkerStats>)
        ensures
            final(self)@ == (SplashModel {
                worker_stats: if stats is Some {
                    stats.deep_view()
                } else {
                    old(self)@.worker_stats
                },
                ..old(self)@
            }),
    {
        if stats.is_some() {
            self.worker_stats = stats;
        }
    }

    /// Takes the number of writes that are waiting.
    pub fn set_db_queue_depth(&mut self, depth: u64)
        ensures
            final(self)@ == (SplashModel { db_queue_depth: depth, ..old(self)@ }),
    {
        self.db_queue_depth = depth;
    }

    /// Whether the loading is complete.
    pub fn is_complete(&self) -> (r: bool)
        ensures
            r == self@.complete,
    {
        self.complete
    }

    /// What is being loaded.
    pub fn loading_type(&self) -> (r: &LoadingType)
        ensures
            *r == self@.loading_type,
    {
        &self.loading_type
    }

    /// The progress.
    pub fn progress(&self) -> (r: Option<Progress>)
        ensures
            r == self@.progress,
    {
        self.progress
    }

    /// The progress in words.
    pub fn progress_detail(&self) -> (r: Option<&str>)
        ensures
            r is Some <==> self@.progress_detail is Some,
            r is Some ==> r->0@ == self@.progress_detail->0,
    {
        match &self.progress_detail {
            Some(s) => Some(s.as_str()),
            None => None,
        }
    }

    /// The message.
    pub fn status_message(&self) -> (r: &'static str)
        ensures
            r@ == self@.message(),
    {
        match self.eye_state {
            EyeState::Closed => "Scanning corpus...",
            EyeState::Awakening => "Computing health signals...",
            EyeState::Awake => "Ready!",
        }
    }

    /// Takes a report. Returns whether the loading is complete.
    pub fn tick(&mut self, status: &WorkStatus, eye: EyeState) -> (r: bool)
        ensures
            final(self)@ == old(self)@.ticked(status.deep_view(), eye),
            r == final(self)@.complete,
    {
        if status.session_queued > 0 {
            self.progress = Some(
                Progress { done: status.total_processed, total: status.session_queued },
            );
            self.progress_detail = Some(detail_of(status));
        }
        self.eye_state = eye;
        if self.eye_state == EyeState::Awake {
            self.complete = true;
        }
        self.complete
    }

    /// The frame of the eye.
    pub fn eye_art(&self) -> (r: EyeFrame)
        ensures
            r == (if self@.eye_state == EyeState::Awakening {
                EyeFrame::HalfOpen
            } else {
                EyeFrame::Closed
            }),
    {
        match self.eye_state {
            EyeState::Awakening => EyeFrame::HalfOpen,
            _ => EyeFrame::Closed,
        }
    }

    /// The heights of the rows in an area.
    pub fn row_heights(&self, height: u16, timing: bool) -> (r: Vec<u16>)
        ensures
            r@ == splash_rows_view(self@, height, timing),
    {
        let bar: u16 = if self.progress.is_some() {
            3
        } else {
            0
        };
        let queue: u16 = if self.db_queue_depth > 0 {
            1
        } else {
            0
        };
        let writes: u16 = if timing && self.db_stats.is_some() {
            1
        } else {
            0
        };
        let workers: u16 = if timing && self.worker_stats.is_some() {
            2
        } else {
            0
        };
        let total: u16 = 2 + 16 + bar + queue + writes + workers;
        let margin: u16 = if height > total {
            (height - total) / 2
        } else {
            0
        };
        let mut rows: Vec<u16> = Vec::new();
        rows.push(margin);
        rows.push(1);
        rows.push(1);
        rows.push(16);
        rows.push(bar);
        rows.push(queue);
        rows.push(writes);
        rows.push(workers);
        rows
    }

    /// Writes the bar for a row of some width, where there is progress.
    pub fn progress_bar(&self, row_width: u16) -> (r: Option<String>)
        ensures
            r.deep_view() == (match self@.progress {
                Some(p) => Some(plain_bar(p, bar_width(row_width))),
                None => None,
            }),
    {
        match self.progress {
            Some(p) => Some(bar_text(p, bar_width(row_width))),
            None => None,
        }
    }

    /// Builds the line on writes that are waiting, where there are any.
    pub fn queue_depth_line(&self) -> (r: Option<Line>)
        ensures
            r.deep_view() == (if self@.db_queue_depth > 0 {
                Some(queue_view(self@.db_queue_depth))
            } else {
                None
            }),
    {
        if self.db_queue_depth > 0 {
            Some(queue_line(self.db_queue_depth))
        } else {
            None
        }
    }

    /// Builds the lines of the statistics, where they are wanted and there are
    /// any.
    pub fn stats_lines(&self, timing: bool) -> (r: (Option<Line>, Option<Vec<Line>>))
        ensures
            r.0.deep_view() == (if timing && self@.db_stats is Some {
                Some(db_stats_view(self@.db_stats->0))
            } else {
                None
            }),
            r.1.deep_view() == (if timing && self@.worker_stats is Some {
                Some(
                    crate::screen::list2(
                        tasks_view(self@.worker_stats->0),
                        reads_view(self@.worker_stats->0),
                    ),
                )
            } else {
                None
            }),
    {
        if !timing {
            return (None, None);
        }
        let writes: Option<Line> = match &self.db_stats {
            Some(s) => Some(db_stats_line(s)),
            None => None,
        };
        let workers: Option<Vec<Line>> = match &self.worker_stats {
            Some(s) => Some(worker_stats_lines(s)),
            None => None,
        };
        (writes, workers)
    }
}

/// What is complete stays complete, and is so only after the eye was awake.
pub proof fn law_splash_ends_with_awake_eye(m: SplashModel, status: WorkStatusModel, eye: EyeState)
    ensures
        m.complete ==> m.ticked(status, eye).complete,
        m.ticked(status, eye).complete ==> m.complete || eye == EyeState::Awake,
{
}

/// The splash is complete once the eye is awake, shows the eye that it is told of,
/// and the progress that the status says, or the last where it says nothing.
pub proof fn law_splash_follows_the_eye(m: SplashModel, status: WorkStatusModel, eye: EyeState)
    ensures
        m.ticked(status, eye).complete <==> m.complete || eye == EyeState::Awake,
        m.ticked(status, eye).eye_state == eye,
        status.session_queued > 0 ==> m.ticked(status, eye).progress is Some && m.ticked(
            status,
            eye,
        ).progress->0.done == status.total_processed && m.ticked(status, eye).progress->0.total
            == status.session_queued,
        status.session_queued == 0 ==> m.ticked(status, eye).progress == m.progress && m.ticked(
            status,
            eye,
        ).progress_detail == m.progress_detail,
        m.ticked(status, eye).loading_type == m.loading_type,
{
}

/// The rows of the splash fit what they show, and the room that is left is shared
/// above and below.
pub proof fn law_splash_is_centered(m: SplashModel, height: u16, timing: bool)
    ensures
        ({
            let r = splash_rows_view(m, height, timing);
            let used = r[1] + r[2] + r[3] + r[4] + r[5] + r[6] + r[7];
            &&& r.len() == 8
            &&& r[3] == 16
            &&& r[4] > 0 <==> m.progress is Some
            &&& r[5] > 0 <==> m.db_queue_depth > 0
            &&& r[6] > 0 <==> timing && m.db_stats is Some
            &&& r[7] > 0 <==> timing && m.worker_stats is Some
            &&& height > used ==> 0 <= height - used - 2 * r[0] <= 1
            &&& height <= used ==> r[0] == 0
        }),
{
}

} // verus!
