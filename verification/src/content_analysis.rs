//! The screen that is shown while the content of files is analysed.

use vstd::prelude::*;

use crate::screen::list5;
use crate::work_status::{bar_text, bar_width, detail_of, plain_bar, told_detail, told_progress, Progress, WorkStateSnapshot, WorkStatus, WorkStatusModel};

verus! {

/// The screen.
#[derive(Debug)]
pub struct ContentAnalysisProgress {
    pub progress: Option<Progress>,
    pub progress_detail: Option<String>,
    pub complete: bool,
    /// Whether work was seen
    pub seen_working: bool,
}

/// The model of a [`ContentAnalysisProgress`].
pub struct AnalysisModel {
    pub progress: Option<Progress>,
    pub progress_detail: Option<Seq<char>>,
    pub complete: bool,
    pub seen_working: bool,
}

impl View for ContentAnalysisProgress {
    type V = AnalysisModel;

    open spec fn view(&self) -> AnalysisModel {
        AnalysisModel {
            progress: self.progress,
            progress_detail: self.progress_detail.deep_view(),
            complete: self.complete,
            seen_working: self.seen_working,
        }
    }
}

impl AnalysisModel {
    /// The screen after a report. It is complete once work was seen and there
    /// is none left.
    pub open spec fn ticked(self, status: WorkStatusModel) -> Self {
        let working = status.state == WorkStateSnapshot::Working;
        let seen = self.seen_working || working;
        AnalysisModel {
            progress: told_progress(self.progress, status),
            progress_detail: told_detail(self.progress_detail, status),
            seen_working: seen,
            complete: self.complete || (seen && status.pending == 0 && !working),
        }
    }
}

/// The heights of the rows: the margin on top, the message, a gap, the eye, the
/// bar.
pub open spec fn analysis_rows_view(m: AnalysisModel, height: u16) -> Seq<u16> {
    let bar: u16 = if m.progress is Some {
        3
    } else {
        0
    };
    let total = 2 + 16 + bar;
    let margin: u16 = if height as int > total {
        ((height - total) / 2) as u16
    } else {
        0
    };
    list5(margin, 1u16, 1u16, 16u16, bar)
}

impl ContentAnalysisProgress {
    /// The screen as it opens.
    pub fn new() -> (r: Self)
        ensures
            r@ == (AnalysisModel {
                progress: Some(Progress::none()),
                progress_detail: Some("Starting content analysis..."@),
                complete: false,
                seen_working: false,
            }),
    {
        ContentAnalysisProgress {
            progress: Some(Progress::none()),
            progress_detail: Some("Starting content analysis...".to_owned()),
            complete: false,
            seen_working: false,
        }
    }

    /// Whether the analysis is complete.
    pub fn is_complete(&self) -> (r: bool)
        ensures
            r == self@.complete,
    {
        self.complete
    }

    /// The progress.
    pub fn progress(&self) -> (r: Option<Progress>)
        ensures
            r == self@.progress,
    {
        self.progress
    }

    /// The progress in words.
    pub fn progress_detail(&self) -> (r: Option<&str>)
        ensures
            r is Some <==> self@.progress_detail is Some,
            r is Some ==> r->0@ == self@.progress_detail->0,
    {
        match &self.progress_detail {
            Some(s) => Some(s.as_str()),
            None => None,
        }
    }

    /// The message.
    pub fn status_message(&self) -> (r: &'static str)
        ensures
            r@ == (if self@.complete {
                "Analysis complete!"@
            } else {
                "Analyzing content..."@
            }),
    {
        if self.complete {
            "Analysis complete!"
        } else {
            "Analyzing content..."
        }
    }

    /// Takes a report. Returns whether the analysis is complete.
    pub fn tick(&mut self, status: &WorkStatus) -> (r: bool)
        ensures
            final(self)@ == old(self)@.ticked(status.deep_view()),
            r == final(self)@.complete,
    {
        if status.session_queued > 0 {
            self.progress = Some(
                Progress { done: status.total_processed, total: status.session_queued },
            );
            self.progress_detail = Some(detail_of(status));
        }
        if status.state == WorkStateSnapshot::Working {
            self.seen_working = true;
        }
        if self.seen_working && status.pending == 0 {
            match status.state {
                WorkStateSnapshot::Idle | WorkStateSnapshot::Done => {
                    self.complete = true;
                },
                WorkStateSnapshot::Working => {},
            }
        }
        self.complete
    }

    /// The heights of the rows in an area.
    pub fn row_heights(&self, height: u16) -> (r: Vec<u16>)
        ensures
            r@ == analysis_rows_view(self@, height),
    {
        let bar: u16 = if self.progress.is_some() {
            3
        } else {
            0
        };
        let total: u16 = 2 + 16 + bar;
        let margin: u16 = if height > total {
            (height - total) / 2
        } else {
            0
        };
        let mut rows: Vec<u16> = Vec::new();
        rows.push(margin);
        rows.push(1);
        rows.push(1);
        rows.push(16);
        rows.push(bar);
        rows
    }

    /// Writes the bar for a row of some width, where there is progress.
    pub fn progress_bar(&self, row_width: u16) -> (r: Option<String>)
        ensures
            r.deep_view() == (match self@.progress {
                Some(p) => Some(plain_bar(p, bar_width(row_width))),
                None => None,
            }),
    {
        match self.progress {
            Some(p) => Some(bar_text(p, bar_width(row_width))),
            None => None,
        }
    }
}

/// An analysis that never began is not complete: work was seen before it ends,
/// and what is complete stays so.
pub proof fn law_analysis_ends_after_work(m: AnalysisModel, status: WorkStatusModel)
    ensures
        m.complete ==> m.ticked(status).complete,
        m.ticked(status).complete && !m.complete ==> m.seen_working && status.pending == 0
            && status.state != WorkStateSnapshot::Working,
{
}

/// The analysis is complete once work was seen and none is left; what the status
/// says of its progress is shown, and where it says nothing the last stays.
pub proof fn law_analysis_follows_the_status(m: AnalysisModel, status: WorkStatusModel)
    ensures
        m.ticked(status).seen_working <==> m.seen_working || status.state
            == WorkStateSnapshot::Working,
        m.ticked(status).complete <==> m.complete || (m.seen_working && status.pending == 0
            && status.state != WorkStateSnapshot::Working),
        status.session_queued > 0 ==> m.ticked(status).progress is Some && m.ticked(
            status,
        ).progress->0.done == status.total_processed && m.ticked(status).progress->0.total
            == status.session_queued,
        status.session_queued == 0 ==> m.ticked(status).progress == m.progress && m.ticked(
            status,
        ).progress_detail == m.progress_detail,
{
}

/// The rows of the analysis fit what they show, and the room that is left is shared
/// above and below.
pub proof fn law_analysis_is_centered(m: AnalysisModel, height: u16)
    ensures
        ({
            let r = analysis_rows_view(m, height);
            let used = r[1] + r[2] + r[3] + r[4];
            &&& r.len() == 5
            &&& r[3] == 16
            &&& r[4] > 0 <==> m.progress is Some
            &&& height > used ==> 0 <= height - used - 2 * r[0] <= 1
            &&& height <= used ==> r[0] == 0
        }),
{
}

} // verus!
