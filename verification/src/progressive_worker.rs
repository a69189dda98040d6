//! Long work that is done in small steps, with its progress shown.

use std::collections::VecDeque;

use vstd::prelude::*;

use vstd::string::StringSliceAdditionalSpecFns;
use vstd::utf8::encode_utf8;

use crate::screen::Rect;
use crate::text::{self, decimal};

verus! {

/// Some files that share a value which holds several.
#[derive(Debug)]
pub struct CompoundGroup {
    pub tag_name: String,
    pub value: String,
    pub inodes: Vec<i64>,
}

/// A step of the work.
#[derive(Debug)]
pub enum WorkItem {
    /// Stage the splitting of a group, with its place among all
    StageCompoundSplit { group: CompoundGroup, idx: usize },
}

/// What the work came to.
#[derive(Debug, Clone, Copy, PartialEq, Eq, Structural)]
pub struct WorkSummary {
    /// Steps that changed something
    pub mutations_generated: usize,
    /// Steps that had nothing to change
    pub nops_elided: usize,
}

/// What happens when the work is done.
#[derive(Debug, Clone, Copy, PartialEq, Eq, Structural)]
pub enum OnComplete {
    /// Review the staged splits
    CompoundSplitStaging,
}

/// The work.
#[derive(Debug)]
pub struct ProgressiveWorkerState {
    /// What is done, in words
    pub label: String,
    /// The steps that are left
    pub work_queue: VecDeque<WorkItem>,
    /// The steps that are done
    pub processed: usize,
    /// All steps
    pub total: usize,
    /// The step in hand, in words
    pub current_label: Option<String>,
    /// Steps that changed something
    pub mutations_generated: usize,
    /// Steps that had nothing to change
    pub nops_elided: usize,
    /// What happens when the work is done
    pub on_complete: OnComplete,
    /// Whether only safe splits are made
    pub is_safe_mode: bool,
}

/// The part of the work that is done. Work without steps is done.
pub open spec fn done_part(processed: usize, total: usize) -> (usize, usize) {
    if total == 0 {
        (1, 1)
    } else {
        (processed, total)
    }
}

/// Groups as steps, each with its place.
pub open spec fn as_steps(groups: Seq<CompoundGroup>) -> Seq<WorkItem> {
    Seq::new(groups.len(), |i: int| WorkItem::StageCompoundSplit { group: groups[i], idx: i as usize })
}

impl ProgressiveWorkerState {
    /// Work of some steps.
    pub fn new(label: String, items: Vec<WorkItem>, on_complete: OnComplete) -> (r: Self)
        ensures
            r.label@ == label@,
            r.work_queue@ == items@,
            r.processed == 0,
            r.total == items@.len(),
            r.current_label is None,
            r.mutations_generated == 0,
            r.nops_elided == 0,
            r.on_complete == on_complete,
            !r.is_safe_mode,
    {
        let total: usize = items.len();
        let ghost all = items@;
        let mut queue: VecDeque<WorkItem> = VecDeque::new();
        let mut items = items;
        while items.len() > 0
            invariant
                items@ + queue@ == all,
            decreases items.len(),
        {
            let ghost i0 = items@;
            let ghost q0 = queue@;
            if let Some(x) = items.pop() {
                queue.push_front(x);
                proof {
                    assert(items@ + queue@ =~= i0 + q0);
                }
            }
        }
        proof {
            assert(queue@ =~= all);
        }
        ProgressiveWorkerState {
            label,
            work_queue: queue,
            processed: 0,
            total,
            current_label: None,
            mutations_generated: 0,
            nops_elided: 0,
            on_complete,
            is_safe_mode: false,
        }
    }

    /// Work that stages the splitting of some groups.
    pub fn for_compound_splits(groups: Vec<CompoundGroup>, is_safe_mode: bool) -> (r: Self)
        ensures
            r.label@ == "Staging compound splits..."@,
            r.work_queue@ == as_steps(groups@),
            r.processed == 0,
            r.total == groups@.len(),
            r.current_label is None,
            r.mutations_generated == 0,
            r.nops_elided == 0,
            r.on_complete == OnComplete::CompoundSplitStaging,
            r.is_safe_mode == is_safe_mode,
    {
        let ghost all = groups@;
        let n: usize = groups.len();
        let mut groups = groups;
        let mut items: Vec<WorkItem> = Vec::new();
        let mut idx: usize = 0;
        while idx < n
            invariant
                idx <= n,
                n == all.len(),
                groups@ == all.skip(idx as int),
                items@.len() == idx,
                forall|k: int| 0 <= k < idx ==> #[trigger] items@[k] == as_steps(all)[k],
            decreases n - idx,
        {
            proof {
                assert(groups@.len() == n - idx);
            }
            let group: CompoundGroup = groups.remove(0);
            proof {
                assert(group == all[idx as int]);
                assert(groups@ =~= all.skip(idx as int + 1));
            }
            items.push(WorkItem::StageCompoundSplit { group, idx });
            idx = idx + 1;
        }
        proof {
            assert(items@ =~= as_steps(all));
        }
        let mut state: Self = Self::new(
            "Staging compound splits...".to_owned(),
            items,
            OnComplete::CompoundSplitStaging,
        );
        state.is_safe_mode = is_safe_mode;
        state
    }

    /// The part of the work that is done, as steps done over all steps.
    pub fn progress_ratio(&self) -> (r: (usize, usize))
        ensures
            r == done_part(self.processed, self.total),
            r.1 > 0,
    {
        if self.total == 0 {
            (1, 1)
        } else {
            (self.processed, self.total)
        }
    }

    /// What the work came to.
    pub fn build_summary(&self) -> (r: WorkSummary)
        ensures
            r == (WorkSummary {
                mutations_generated: self.mutations_generated,
                nops_elided: self.nops_elided,
            }),
    {
        WorkSummary {
            mutations_generated: self.mutations_generated,
            nops_elided: self.nops_elided,
        }
    }

    /// Writes how many steps are done of how many.
    pub fn counter_text(&self) -> (r: String)
        ensures
            r@ == decimal(self.processed as nat) + " / "@ + decimal(self.total as nat),
    {
        text::cat3(text::count(self.processed).as_str(), " / ", text::count(self.total).as_str())
    }

    /// Writes the step in hand, cut to a modal of some width. What is cut ends
    /// in three dots, its bytes up to seven less than the width.
    pub fn item_text(&self, modal_width: u16) -> (r: Option<String>)
        requires
            self.current_label matches Some(label) ==> cuttable(label@, modal_width),
        ensures
            r is Some <==> self.current_label is Some,
            r matches Some(s) ==> cut_to(self.current_label->0@, modal_width, s@),
    {
        match &self.current_label {
            None => None,
            Some(label) => {
                let room: usize = if modal_width < 4 {
                    0
                } else {
                    (modal_width - 4) as usize
                };
                if label.as_str().len() > room {
                    let keep: usize = if modal_width < 7 {
                        0
                    } else {
                        (modal_width - 7) as usize
                    };
                    let (head, _) = label.as_str().split_at(keep);
                    let s: String = text::cat2(head, "...");
                    proof {
                        assert(head.spec_bytes() == encode_utf8(head@));
                        assert(encode_utf8(head@) == encode_utf8(label@).subrange(0, keep as int)
                            && s@ == head@ + "..."@);
                    }
                    Some(s)
                } else {
                    Some(label.clone())
                }
            },
        }
    }
}

/// Whether a label is too long for a modal of some width.
pub open spec fn too_long(label: Seq<char>, width: u16) -> bool {
    (encode_utf8(label).len() as usize) > (if width < 4 {
        0
    } else {
        width - 4
    })
}

/// The bytes that are kept of a label that is too long.
pub open spec fn kept_bytes(width: u16) -> int {
    if width < 7 {
        0
    } else {
        width - 7
    }
}

/// Whether a label can be cut to a modal of some width: no character is cut in
/// two.
pub open spec fn cuttable(label: Seq<char>, width: u16) -> bool {
    too_long(label, width) ==> vstd::utf8::is_char_boundary(encode_utf8(label), kept_bytes(width))
}

/// Whether a text is a label, cut to a modal of some width.
pub open spec fn cut_to(label: Seq<char>, width: u16, s: Seq<char>) -> bool {
    if too_long(label, width) {
        exists|head: Seq<char>|
            #![trigger encode_utf8(head)]
            encode_utf8(head) == encode_utf8(label).subrange(0, kept_bytes(width)) && s == head
                + "..."@
    } else {
        s == label
    }
}

/// Where the modal stands in an area: in its middle, up to sixty cells wide and
/// eight high.
pub open spec fn modal_area_view(area: Rect) -> Rect {
    let width: int = if area.width < 64 {
        if area.width < 4 {
            0
        } else {
            area.width - 4
        }
    } else {
        60
    };
    let height: int = if area.height < 12 {
        if area.height < 4 {
            0
        } else {
            area.height - 4
        }
    } else {
        8
    };
    Rect {
        x: (area.x + (area.width - width) / 2) as u16,
        y: (area.y + (area.height - height) / 2) as u16,
        width: width as u16,
        height: height as u16,
    }
}

/// Where the modal stands in an area.
pub fn modal_area(area: Rect) -> (r: Rect)
    requires
        area.x + area.width <= u16::MAX,
        area.y + area.height <= u16::MAX,
    ensures
        r == modal_area_view(area),
{
    let width: u16 = if area.width < 64 {
        if area.width < 4 {
            0
        } else {
            area.width - 4
        }
    } else {
        60
    };
    let height: u16 = if area.height < 12 {
        if area.height < 4 {
            0
        } else {
            area.height - 4
        }
    } else {
        8
    };
    Rect {
        x: area.x + (area.width - width) / 2,
        y: area.y + (area.height - height) / 2,
        width,
        height,
    }
}

/// The modal lies inside the area.
pub proof fn law_modal_lies_inside(area: Rect)
    requires
        area.x + area.width <= u16::MAX,
        area.y + area.height <= u16::MAX,
    ensures
        area.x <= modal_area_view(area).x,
        modal_area_view(area).x + modal_area_view(area).width <= area.x + area.width,
        area.y <= modal_area_view(area).y,
        modal_area_view(area).y + modal_area_view(area).height <= area.y + area.height,
{
}

/// Every group becomes one step, in its order, with its place.
pub proof fn law_steps_keep_groups(groups: Seq<CompoundGroup>, i: int)
    requires
        0 <= i < groups.len(),
    ensures
        as_steps(groups).len() == groups.len(),
        as_steps(groups)[i]->group == groups[i],
        as_steps(groups)[i]->idx == i as usize,
{
}

/// The part that is done is what was processed of all there was; nothing to do
/// counts as done.
pub proof fn law_done_part(processed: usize, total: usize)
    requires
        processed <= total,
    ensures
        done_part(processed, total).0 <= done_part(processed, total).1,
        done_part(processed, total).0 == done_part(processed, total).1 <==> processed == total,
        done_part(processed, total).0 * total == done_part(processed, total).1 * processed,
{
    vstd::arithmetic::mul::lemma_mul_is_commutative(processed as int, total as int);
}

/// The modal is 60 wide and 8 high, or as large as leaves a margin, and stands in
/// the middle.
pub proof fn law_modal_stands_in_the_middle(area: Rect)
    requires
        area.x + area.width <= u16::MAX,
        area.y + area.height <= u16::MAX,
    ensures
        ({
            let r = modal_area_view(area);
            let left = r.x - area.x;
            let right = area.x + area.width - (r.x + r.width);
            let above = r.y - area.y;
            let below = area.y + area.height - (r.y + r.height);
            &&& 0 <= right - left <= 1
            &&& 0 <= below - above <= 1
            &&& area.width >= 64 ==> r.width == 60
            &&& 4 <= area.width < 64 ==> r.width == area.width - 4
            &&& area.height >= 12 ==> r.height == 8
            &&& 4 <= area.height < 12 ==> r.height == area.height - 4
        }),
{
}

} // verus!
