//! What clearing out worse copies promises: which files go, and on which keys.

use vstd::prelude::*;

use crate::corpus::MutationModel;
use crate::input::{KeyCode, KeyEvent};
use crate::lists::{law_picked, law_picked_joined, picked};
use crate::paths;
use crate::subpar_duplicate_flow::preview::{FocusPane, SubparDuplicatePreviewAction, SubparPreviewModel};
use crate::subpar_duplicate_flow::types::{has_track, subpar_entry, SelectedButton, SubparModel, SubparRowModel};
use crate::subpar_duplicate_modal::types::stash_all_by_inode;

verus! {

/// Whether an entry is made of a row: its path, its better copy, the number and
/// inode of its track, and the reason in plain words.
pub open spec fn made_of(f: SubparModel, row: SubparRowModel) -> bool {
    &&& row.track is Some
    &&& f.corpus_path == row.corpus_path
    &&& f.superior_path == row.superior_path
    &&& f.inode == row.track->0.inode
    &&& row.track->0.id is Some ==> f.track_id == row.track->0.id->0
    &&& row.track->0.id is None ==> f.track_id == 0
    &&& row.reason == "SubparBitrate"@ ==> f.reason == "Lower bitrate"@
    &&& row.reason == "SubparFormat"@ ==> f.reason == "Worse format"@
    &&& row.reason != "SubparBitrate"@ && row.reason != "SubparFormat"@ ==> f.reason == row.reason
}

/// The files that are listed are those of the rows whose track was found, all of
/// them and no others.
pub proof fn law_rows_with_tracks_are_listed(rows: Seq<SubparRowModel>, f: SubparModel)
    ensures
        picked(rows, has_track(), subpar_entry()).contains(f) <==> exists|i: int|
            0 <= i < rows.len() && made_of(f, #[trigger] rows[i]),
{
    reveal_strlit("SubparBitrate");
    reveal_strlit("SubparFormat");
    law_picked(rows, has_track(), subpar_entry());
    let files = picked(rows, has_track(), subpar_entry());
    assert("SubparBitrate"@.len() == 13 && "SubparFormat"@.len() == 12);
    if files.contains(f) {
        let i = choose|i: int|
            0 <= i < rows.len() && has_track()(#[trigger] rows[i]) && subpar_entry()(rows[i]) == f;
        assert(made_of(f, rows[i]));
    }
    if exists|i: int| 0 <= i < rows.len() && made_of(f, #[trigger] rows[i]) {
        let i = choose|i: int| 0 <= i < rows.len() && made_of(f, #[trigger] rows[i]);
        assert(has_track()(rows[i]) && subpar_entry()(rows[i]) == f);
    }
}

/// Rows are listed in the order they come in.
pub proof fn law_rows_are_listed_in_turn(a: Seq<SubparRowModel>, b: Seq<SubparRowModel>)
    ensures
        picked(a + b, has_track(), subpar_entry()) == picked(a, has_track(), subpar_entry())
            + picked(b, has_track(), subpar_entry()),
{
    law_picked_joined(a, b, has_track(), subpar_entry());
}

/// By inode too each file is stashed and dropped at its own place, and no track
/// number is given.
pub proof fn law_each_file_is_stashed_by_inode(
    files: Seq<SubparModel>,
    root: Seq<char>,
    i: int,
)
    requires
        0 <= i < files.len(),
    ensures
        stash_all_by_inode(files, root).len() == 2 * files.len(),
        stash_all_by_inode(files, root)[2 * i] == (MutationModel::MoveToStash {
            path: paths::under(root, files[i].corpus_path),
            stash_name: "subpar"@,
        }),
        stash_all_by_inode(files, root)[2 * i + 1] == (MutationModel::DropFromIndex {
            track_id: None,
            path: files[i].corpus_path,
            inode: Some(files[i].inode),
            source: Some("corpus"@),
        }),
    decreases files.len(),
{
    crate::subpar_duplicate_modal::types::law_two_mutations_a_file(files.drop_last(), root);
    if i < files.len() - 1 {
        law_each_file_is_stashed_by_inode(files.drop_last(), root, i);
    }
}

/// Everything is stashed on Enter at its button, where there is a file; and that
/// key there does nothing else.
pub proof fn law_stash_is_confirmed(m: SubparPreviewModel, key: KeyEvent)
    ensures
        m.key_step(key).1 == SubparDuplicatePreviewAction::ConfirmStashAll <==> key.code
            == KeyCode::Enter && m.focus_pane == FocusPane::Buttons && m.selected_button
            == SelectedButton::StashAll && m.files.len() > 0,
        m.key_step(key).1 == SubparDuplicatePreviewAction::Cancel <==> key.code == KeyCode::Esc || (
        key.code == KeyCode::Enter && m.focus_pane == FocusPane::Buttons && m.selected_button
            == SelectedButton::Cancel),
        m.key_step(key).0.files == m.files,
{
}

/// The list is walked one by one or ten by ten and not past its ends; the buttons
/// are reached by Shift and an arrow, and chosen by left and right.
pub proof fn law_list_and_buttons_are_walked(m: SubparPreviewModel, key: KeyEvent)
    requires
        0 < m.files.len() <= usize::MAX,
        m.scroll < m.files.len(),
    ensures
        ({
            let n = m.key_step(key).0;
            let list = m.focus_pane == FocusPane::List && !key.shift;
            let buttons = m.focus_pane == FocusPane::Buttons && !key.shift;
            &&& list && (key.code == KeyCode::Up || key.code == KeyCode::Char('k')) ==> n.scroll == (
            if m.scroll == 0 {
                0
            } else {
                m.scroll - 1
            })
            &&& list && (key.code == KeyCode::Down || key.code == KeyCode::Char('j')) ==> n.scroll
                == (if m.scroll + 1 == m.files.len() {
                m.scroll as int
            } else {
                m.scroll + 1
            })
            &&& key.code == KeyCode::PageUp ==> n.scroll == (if m.scroll < 10 {
                0
            } else {
                m.scroll - 10
            })
            &&& key.code == KeyCode::PageDown && m.scroll + 10 <= usize::MAX ==> n.scroll == (
            if m.scroll + 10 < m.files.len() {
                m.scroll + 10
            } else {
                m.files.len() - 1
            })
            &&& key.shift && key.code == KeyCode::Up ==> n.focus_pane == FocusPane::List
            &&& key.shift && key.code == KeyCode::Down ==> n.focus_pane == FocusPane::Buttons
            &&& n.focus_pane != m.focus_pane ==> key.shift && (key.code == KeyCode::Up || key.code
                == KeyCode::Down)
            &&& buttons && (key.code == KeyCode::Left || key.code == KeyCode::Char('h'))
                ==> n.selected_button == SelectedButton::StashAll
            &&& buttons && (key.code == KeyCode::Right || key.code == KeyCode::Char('l'))
                ==> n.selected_button == SelectedButton::Cancel
            &&& n.selected_button != m.selected_button ==> m.focus_pane == FocusPane::Buttons
            &&& n.scroll < n.files.len()
        }),
{
}

/// The screen opens at the top of the list, with Cancel chosen.
pub proof fn law_preview_opens_on_cancel(files: Seq<SubparModel>)
    ensures
        SubparPreviewModel::opened(files).files == files,
        SubparPreviewModel::opened(files).scroll == 0,
        SubparPreviewModel::opened(files).selected_button == SelectedButton::Cancel,
        SubparPreviewModel::opened(files).focus_pane == FocusPane::List,
{
}

} // verus!
