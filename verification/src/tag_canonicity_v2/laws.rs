//! What bringing a tag to one value promises, file by file and key by key.

use vstd::prelude::*;

use crate::corpus::{MutationModel, TagOpModel};
use crate::input::InputAction;
use crate::lists::{chosen, law_chosen};
use crate::ordering::law_in_order_contains;
use crate::paths;
use crate::tag_canonicity::squash::{goes, is_picked, law_selected_values, law_values_that_go, values_of};
use crate::tag_canonicity_v2::input::TagCanonicalityActionV2;
use crate::tag_canonicity_v2::types::{all_file_ops, by_filename, file_list, file_ops, file_with, named, CanonicityV2Model, FileTagModel, FocusPaneV2, LoadedModel, ModalDataV2Model};
use crate::text::{same_but_case, text_before, trimmed};

verus! {

/// Whether a file bears a value of the tag, the case of its name aside.
pub open spec fn bears(f: FileTagModel, tag_name: Seq<char>, v: Seq<char>) -> bool {
    exists|j: int|
        0 <= j < f.tag_values.len() && same_but_case((#[trigger] f.tag_values[j]).0, tag_name)
            && f.tag_values[j].1 == v
}

/// Whether a file bears no value of the tag.
pub open spec fn bears_none(f: FileTagModel, tag_name: Seq<char>) -> bool {
    forall|j: int|
        0 <= j < f.tag_values.len() ==> !same_but_case((#[trigger] f.tag_values[j]).0, tag_name)
}

/// Whether the file of an inode is a readable one, the last such.
pub open spec fn is_file_of(files: Seq<FileTagModel>, inode: i64, f: FileTagModel) -> bool {
    exists|i: int|
        0 <= i < files.len() && (#[trigger] files[i]) == f && f.inode == inode && f.readable
            && forall|j: int|
            i < j < files.len() ==> !((#[trigger] files[j]).inode == inode && files[j].readable)
}

proof fn lemma_file_of(files: Seq<FileTagModel>, inode: i64, f: FileTagModel)
    ensures
        is_file_of(files, inode, f) <==> file_with(files, inode) == Some(f),
    decreases files.len(),
{
    if files.len() > 0 {
        let init = files.drop_last();
        let last = files.len() - 1;
        lemma_file_of(init, inode, f);
        if is_file_of(files, inode, f) {
            let i = choose|i: int|
                0 <= i < files.len() && (#[trigger] files[i]) == f && f.inode == inode && f.readable
                    && forall|j: int|
                    i < j < files.len() ==> !((#[trigger] files[j]).inode == inode
                        && files[j].readable);
            if i < last {
                assert(!(files[last].inode == inode && files[last].readable));
                assert(init[i] == f);
                assert forall|j: int| i < j < init.len() implies !((#[trigger] init[j]).inode
                    == inode && init[j].readable) by {
                    assert(init[j] == files[j]);
                }
                assert(is_file_of(init, inode, f));
            }
        }
        if file_with(files, inode) == Some(f) {
            if files[last].inode == inode && files[last].readable {
                assert(files[last] == f);
            } else {
                let i = choose|i: int|
                    0 <= i < init.len() && (#[trigger] init[i]) == f && f.inode == inode
                        && f.readable && forall|j: int|
                        i < j < init.len() ==> !((#[trigger] init[j]).inode == inode
                            && init[j].readable);
                assert(files[i] == f);
                assert forall|j: int| i < j < files.len() implies !((#[trigger] files[j]).inode
                    == inode && files[j].readable) by {
                    if j < last {
                        assert(init[j] == files[j]);
                    }
                }
            }
        }
    }
}

/// Whether a value has to go from the files that bear it: it is selected, and is
/// not the one that stays.
pub open spec fn has_to_go(m: CanonicityV2Model, v: Seq<char>) -> bool {
    is_picked(m.data.variants, m.selected_variants, v) && v != trimmed(m.canonical_input.value)
}

/// Whether an operation takes a value of the tag from a file.
pub open spec fn takes_away(
    op: TagOpModel,
    inode: i64,
    tag_name: Seq<char>,
    v: Seq<char>,
) -> bool {
    op.inode == inode && op.tag_name == tag_name && op.old_value == Some(v)
}

/// Whether an operation gives a value of the tag to a file.
pub open spec fn gives(op: TagOpModel, inode: i64, tag_name: Seq<char>, v: Seq<char>) -> bool {
    op.inode == inode && op.tag_name == tag_name && op.new_value == Some(v)
}

/// Whether some of the operations takes a value from a file.
pub open spec fn some_takes(
    ops: Seq<TagOpModel>,
    inode: i64,
    tag_name: Seq<char>,
    v: Seq<char>,
) -> bool {
    exists|i: int| 0 <= i < ops.len() && takes_away(#[trigger] ops[i], inode, tag_name, v)
}

/// Whether some of the operations gives a value to a file.
pub open spec fn some_gives(
    ops: Seq<TagOpModel>,
    inode: i64,
    tag_name: Seq<char>,
    v: Seq<char>,
) -> bool {
    exists|i: int| 0 <= i < ops.len() && gives(#[trigger] ops[i], inode, tag_name, v)
}

proof fn lemma_picks(m: CanonicityV2Model)
    requires
        m.data.variants.len() <= usize::MAX,
    ensures
        forall|v: Seq<char>| #[trigger]
            m.picks().contains(v) <==> is_picked(m.data.variants, m.selected_variants, v),
{
    law_selected_values(m.data.variants, m.selected_variants, m.data.variants.len());
    assert(m.data.variants.take(m.data.variants.len() as int) =~= m.data.variants);
}

/// Each file whose tags could be read loses every value that has to go, and gets
/// the one that stays where it loses one and did not have it.
pub proof fn law_every_file_is_squashed(m: CanonicityV2Model, k: int, f: FileTagModel, v: Seq<char>)
    requires
        m.data.variants.len() <= usize::MAX,
        0 <= k < m.data.inodes.len(),
        is_file_of(m.data.files, m.data.inodes[k], f),
        trimmed(m.canonical_input.value).len() > 0,
        bears(f, m.data.tag_name, v),
        has_to_go(m, v),
    ensures
        some_takes(m.ops(), m.data.inodes[k], m.data.tag_name, v),
        !bears(f, m.data.tag_name, trimmed(m.canonical_input.value)) ==> some_gives(
            m.ops(),
            m.data.inodes[k],
            m.data.tag_name,
            trimmed(m.canonical_input.value),
        ),
{
    lemma_picks(m);
    lemma_file_of(m.data.files, m.data.inodes[k], f);
    let inode = m.data.inodes[k];
    let tag_name = m.data.tag_name;
    let picks = m.picks();
    let canonical = m.canonical();
    let values = values_of(f.tag_values, tag_name);
    assert(picks.contains(v));
    assert(m.ops() == all_file_ops(m.data, picks, canonical, m.data.inodes.len()));
    let ops = file_ops(inode, tag_name, values, picks, canonical);
    law_values_that_go(f.tag_values, tag_name, picks, canonical);
    let gone = chosen(values, goes(picks, canonical));
    assert(gone.contains(v));
    lemma_values(f, tag_name);
    let i = choose|i: int| 0 <= i < gone.len() && gone[i] == v;
    assert(values.len() > 0);
    assert(takes_away(ops[i], inode, tag_name, v));
    assert(some_takes(ops, inode, tag_name, v));
    if !bears(f, tag_name, canonical) {
        assert(!values.contains(canonical));
        assert(gives(ops[0], inode, tag_name, canonical));
        assert(some_gives(ops, inode, tag_name, canonical));
    }
    lemma_in_turn(m.data, picks, canonical, m.data.inodes.len(), k, v);
    lemma_in_turn(m.data, picks, canonical, m.data.inodes.len(), k, canonical);
}

proof fn lemma_values(f: FileTagModel, tag_name: Seq<char>)
    ensures
        forall|v: Seq<char>| #[trigger]
            values_of(f.tag_values, tag_name).contains(v) <==> bears(f, tag_name, v),
        values_of(f.tag_values, tag_name).len() == 0 <==> bears_none(f, tag_name),
{
    let p = crate::tag_canonicity::squash::of_tag(tag_name);
    let g = crate::tag_canonicity::squash::value_of();
    crate::lists::law_picked(f.tag_values, p, g);
    let values = values_of(f.tag_values, tag_name);
    assert forall|v: Seq<char>| #[trigger] values.contains(v) <==> bears(f, tag_name, v) by {
        if values.contains(v) {
            let j = choose|j: int|
                0 <= j < f.tag_values.len() && p(#[trigger] f.tag_values[j]) && g(f.tag_values[j])
                    == v;
            assert(same_but_case(f.tag_values[j].0, tag_name));
        }
        if bears(f, tag_name, v) {
            let j = choose|j: int|
                0 <= j < f.tag_values.len() && same_but_case(
                    (#[trigger] f.tag_values[j]).0,
                    tag_name,
                ) && f.tag_values[j].1 == v;
            assert(p(f.tag_values[j]) && g(f.tag_values[j]) == v);
        }
    }
    if values.len() > 0 {
        assert(values.contains(values[0]));
        let j = choose|j: int|
            0 <= j < f.tag_values.len() && same_but_case((#[trigger] f.tag_values[j]).0, tag_name)
                && f.tag_values[j].1 == values[0];
        assert(!bears_none(f, tag_name));
    }
    if !bears_none(f, tag_name) {
        let j = choose|j: int|
            0 <= j < f.tag_values.len() && same_but_case((#[trigger] f.tag_values[j]).0, tag_name);
        assert(bears(f, tag_name, f.tag_values[j].1));
        assert(values.contains(f.tag_values[j].1));
    }
}

proof fn lemma_in_turn(
    data: ModalDataV2Model,
    picks: Seq<Seq<char>>,
    canonical: Seq<char>,
    n: nat,
    k: int,
    v: Seq<char>,
)
    requires
        0 <= k < n <= data.inodes.len(),
        file_with(data.files, data.inodes[k]) is Some,
    ensures
        ({
            let inode = data.inodes[k];
            let ops = file_ops(
                inode,
                data.tag_name,
                values_of(file_with(data.files, inode)->0.tag_values, data.tag_name),
                picks,
                canonical,
            );
            let all = all_file_ops(data, picks, canonical, n);
            &&& some_takes(ops, inode, data.tag_name, v) ==> some_takes(
                all,
                inode,
                data.tag_name,
                v,
            )
            &&& some_gives(ops, inode, data.tag_name, v) ==> some_gives(
                all,
                inode,
                data.tag_name,
                v,
            )
        }),
    decreases n,
{
    let inode = data.inodes[k];
    let ops = file_ops(
        inode,
        data.tag_name,
        values_of(file_with(data.files, inode)->0.tag_values, data.tag_name),
        picks,
        canonical,
    );
    let all = all_file_ops(data, picks, canonical, n);
    let before = all_file_ops(data, picks, canonical, (n - 1) as nat);
    if k == n - 1 {
        assert(all == before + ops);
        if some_takes(ops, inode, data.tag_name, v) {
            let i = choose|i: int|
                0 <= i < ops.len() && takes_away(#[trigger] ops[i], inode, data.tag_name, v);
            assert(all[before.len() + i] == ops[i]);
        }
        if some_gives(ops, inode, data.tag_name, v) {
            let i = choose|i: int|
                0 <= i < ops.len() && gives(#[trigger] ops[i], inode, data.tag_name, v);
            assert(all[before.len() + i] == ops[i]);
        }
    } else {
        lemma_in_turn(data, picks, canonical, (n - 1) as nat, k, v);
        if some_takes(before, inode, data.tag_name, v) {
            let i = choose|i: int|
                0 <= i < before.len() && takes_away(#[trigger] before[i], inode, data.tag_name, v);
            assert(all[i] == before[i]);
        }
        if some_gives(before, inode, data.tag_name, v) {
            let i = choose|i: int|
                0 <= i < before.len() && gives(#[trigger] before[i], inode, data.tag_name, v);
            assert(all[i] == before[i]);
        }
    }
}

/// A file that does not bear the tag gets the value that stays just where the
/// empty value is selected.
pub proof fn law_missing_tag_is_added(m: CanonicityV2Model, k: int, f: FileTagModel)
    requires
        m.data.variants.len() <= usize::MAX,
        0 <= k < m.data.inodes.len(),
        is_file_of(m.data.files, m.data.inodes[k], f),
        trimmed(m.canonical_input.value).len() > 0,
        bears_none(f, m.data.tag_name),
        is_picked(m.data.variants, m.selected_variants, Seq::empty()),
    ensures
        some_gives(
            m.ops(),
            m.data.inodes[k],
            m.data.tag_name,
            trimmed(m.canonical_input.value),
        ),
{
    reveal_strlit("");
    assert(""@ =~= Seq::<char>::empty());
    lemma_picks(m);
    lemma_file_of(m.data.files, m.data.inodes[k], f);
    lemma_values(f, m.data.tag_name);
    let inode = m.data.inodes[k];
    let values = values_of(f.tag_values, m.data.tag_name);
    assert(m.picks().contains(Seq::<char>::empty()));
    let ops = file_ops(inode, m.data.tag_name, values, m.picks(), m.canonical());
    assert(gives(ops[0], inode, m.data.tag_name, m.canonical()));
    assert(some_gives(ops, inode, m.data.tag_name, m.canonical()));
    lemma_in_turn(
        m.data,
        m.picks(),
        m.canonical(),
        m.data.inodes.len(),
        k,
        m.canonical(),
    );
}

/// Whether an operation has its reason in a file: it takes from it a value that it
/// bears and that has to go, or gives it the one that stays.
pub open spec fn has_reason(m: CanonicityV2Model, op: TagOpModel, f: FileTagModel) -> bool {
    let canonical = trimmed(m.canonical_input.value);
    &&& is_file_of(m.data.files, op.inode, f)
    &&& op.tag_name == m.data.tag_name
    &&& op.old_value is Some ==> bears(f, m.data.tag_name, op.old_value->0) && has_to_go(
        m,
        op.old_value->0,
    )
    &&& op.old_value is None ==> bears_none(f, m.data.tag_name) && is_picked(
        m.data.variants,
        m.selected_variants,
        Seq::empty(),
    ) && op.new_value is Some
    &&& op.new_value is Some ==> op.new_value->0 == canonical && !bears(
        f,
        m.data.tag_name,
        canonical,
    )
}

/// Nothing else is done to any file: every operation takes a value that the file
/// bears and that has to go, or gives the one that stays to a file that lacks it.
pub proof fn law_every_operation_has_a_reason(m: CanonicityV2Model, i: int)
    requires
        m.data.variants.len() <= usize::MAX,
        0 <= i < m.ops().len(),
    ensures
        exists|f: FileTagModel| has_reason(m, m.ops()[i], f),
        m.data.inodes.contains(m.ops()[i].inode),
{
    lemma_picks(m);
    lemma_reasons(m, m.data.inodes.len(), i);
}

proof fn lemma_reasons(m: CanonicityV2Model, n: nat, i: int)
    requires
        m.data.variants.len() <= usize::MAX,
        n <= m.data.inodes.len(),
        0 <= i < all_file_ops(m.data, m.picks(), m.canonical(), n).len(),
    ensures
        exists|f: FileTagModel|
            has_reason(m, all_file_ops(m.data, m.picks(), m.canonical(), n)[i], f),
        m.data.inodes.contains(all_file_ops(m.data, m.picks(), m.canonical(), n)[i].inode),
    decreases n,
{
    let picks = m.picks();
    let canonical = m.canonical();
    let all = all_file_ops(m.data, picks, canonical, n);
    let before = all_file_ops(m.data, picks, canonical, (n - 1) as nat);
    if i < before.len() {
        lemma_reasons(m, (n - 1) as nat, i);
        assert(all[i] == before[i]);
    } else {
        lemma_picks(m);
        reveal_strlit("");
        assert(""@ =~= Seq::<char>::empty());
        let inode = m.data.inodes[n - 1];
        let f = file_with(m.data.files, inode)->0;
        lemma_file_of(m.data.files, inode, f);
        let values = values_of(f.tag_values, m.data.tag_name);
        let ops = file_ops(inode, m.data.tag_name, values, picks, canonical);
        lemma_values(f, m.data.tag_name);
        law_values_that_go(f.tag_values, m.data.tag_name, picks, canonical);
        let op = ops[i - before.len()];
        assert(all[i] == op);
        if values.len() > 0 {
            let gone = chosen(values, goes(picks, canonical));
            assert(op.old_value == Some(gone[i - before.len()]));
            assert(gone.contains(gone[i - before.len()]));
            let v = gone[i - before.len()];
            assert(picks.contains(v) && v != canonical);
            law_chosen(values, goes(picks, canonical));
            assert(values.contains(v));
        } else {
            assert(picks.contains(""@));
        }
        assert(has_reason(m, op, f));
    }
}

/// The files that are listed are those that were loaded, each with its name and
/// tags, in the order of their names.
pub proof fn law_loaded_files_are_listed(files: Seq<LoadedModel>, f: FileTagModel)
    ensures
        file_list(files).len() == files.len(),
        file_list(files).contains(f) <==> exists|i: int|
            0 <= i < files.len() && (#[trigger] files[i]).inode == f.inode && files[i].path == f.path
                && f.readable == (files[i].tags is Some) && (files[i].tags is Some ==> f.tag_values
                == files[i].tags->0) && (files[i].tags is None ==> f.tag_values.len() == 0) && (
            paths::name_in(f.path) is Some ==> f.filename == paths::name_in(f.path)->0) && (
            paths::name_in(f.path) is None ==> f.filename == f.path),
{
    let all = files.map_values(named());
    crate::ordering::law_in_order(all, by_filename());
    law_in_order_contains(all, by_filename());
    if all.contains(f) {
        let i = choose|i: int| 0 <= i < all.len() && all[i] == f;
        assert(files[i].inode == f.inode);
    }
    if exists|i: int|
        0 <= i < files.len() && (#[trigger] files[i]).inode == f.inode && files[i].path == f.path
            && f.readable == (files[i].tags is Some) && (files[i].tags is Some ==> f.tag_values
            == files[i].tags->0) && (files[i].tags is None ==> f.tag_values.len() == 0) && (
        paths::name_in(f.path) is Some ==> f.filename == paths::name_in(f.path)->0) && (
        paths::name_in(f.path) is None ==> f.filename == f.path) {
        let i = choose|i: int|
            0 <= i < files.len() && (#[trigger] files[i]).inode == f.inode && files[i].path
                == f.path && f.readable == (files[i].tags is Some) && (files[i].tags is Some
                ==> f.tag_values == files[i].tags->0) && (files[i].tags is None
                ==> f.tag_values.len() == 0) && (paths::name_in(f.path) is Some ==> f.filename
                == paths::name_in(f.path)->0) && (paths::name_in(f.path) is None ==> f.filename
                == f.path);
        if files[i].tags is None {
            assert(f.tag_values =~= Seq::<(Seq<char>, Seq<char>)>::empty());
        }
        assert(all[i] == f);
    }
}

/// The names of listed files come in order.
pub proof fn law_listed_files_are_in_order(files: Seq<LoadedModel>, i: int, j: int)
    requires
        0 <= i < j < file_list(files).len(),
    ensures
        !text_before(file_list(files)[j].filename, file_list(files)[i].filename),
{
    let all = files.map_values(named());
    assert forall|a: Seq<char>, b: Seq<char>, c: Seq<char>|
        #![trigger text_before(a, b), text_before(b, c)]
        text_before(a, b) && text_before(b, c) implies text_before(a, c) by {
        crate::text::law_text_before_transitive(a, b, c);
    }
    assert forall|a: Seq<char>| !#[trigger] text_before(a, a) by {
        crate::text::law_text_before_irreflexive(a);
    }
    assert forall|a: Seq<char>, b: Seq<char>|
        #![trigger text_before(a, b)]
        !text_before(a, b) && !text_before(b, a) implies a == b by {
        crate::text::law_text_before_total(a, b);
    }
    crate::ordering::law_in_order(all, by_filename());
    assert(!by_filename()(file_list(files)[j], file_list(files)[i]));
}

/// What each input answers: Enter confirms where a value is written and a variant
/// selected, Tab goes to the next group, and a question that is open takes only
/// Enter and Esc.
pub proof fn law_answers(m: CanonicityV2Model, action: InputAction)
    ensures
        ({
            let answer = m.step(action).1;
            let asked = m.flag_confirmation_pending;
            let typing = m.focus_pane == FocusPaneV2::Variants && m.variant_cursor == -1;
            &&& answer == TagCanonicalityActionV2::Confirmed <==> !asked && action is Confirm
                && trimmed(m.canonical_input.value).len() > 0 && m.selected_variants.len() > 0
            &&& answer == TagCanonicalityActionV2::Cancelled <==> !asked && action is Cancel
            &&& answer == (TagCanonicalityActionV2::Navigate { forward: true }) <==> !asked
                && action is CycleNext
            &&& answer == (TagCanonicalityActionV2::Navigate { forward: false }) <==> !asked
                && action is CyclePrev
            &&& answer == TagCanonicalityActionV2::ShowReview <==> !asked && action
                == InputAction::Shortcut('r')
            &&& answer == TagCanonicalityActionV2::FlagNonCompilation <==> asked && action is Confirm
                && m.is_album_artist_mode
            &&& answer == TagCanonicalityActionV2::FlagCanonical <==> asked && action is Confirm
                && !m.is_album_artist_mode
            &&& answer == TagCanonicalityActionV2::OpenTagEditorIndividual <==> !asked && !typing
                && action == InputAction::Char('t')
            &&& answer == TagCanonicalityActionV2::OpenTagEditorAggregated <==> !asked && !typing
                && action == InputAction::Char('T')
        }),
{
}

/// A question about flagging is opened by its key, and closed by Enter or Esc.
pub proof fn law_flagging_is_asked_about(m: CanonicityV2Model, action: InputAction)
    ensures
        !m.flag_confirmation_pending ==> (m.step(action).0.flag_confirmation_pending
            <==> action is FlagValue),
        m.flag_confirmation_pending ==> (m.step(action).0.flag_confirmation_pending <==> !(
        action is Confirm || action is Cancel)),
        m.flag_confirmation_pending ==> m.step(action).0.selected_variants == m.selected_variants
            && m.step(action).0.canonical_input == m.canonical_input,
{
}

/// Space switches the variant in hand and no other; nothing else selects or
/// deselects one.
pub proof fn law_space_switches_one(m: CanonicityV2Model, action: InputAction, i: usize)
    requires
        m.wf(),
    ensures
        m.step(action).0.selected_variants.contains(i) == (if !m.flag_confirmation_pending
            && action is Toggle && m.focus_pane == FocusPaneV2::Variants && m.variant_cursor == i
            && i < m.data.variants.len() {
            !m.selected_variants.contains(i)
        } else {
            m.selected_variants.contains(i)
        }),
{
}

/// Up and down go along the pane in hand, in the variants as far as the value that
/// is written, and not past the ends.
pub proof fn law_panes_are_walked(m: CanonicityV2Model)
    requires
        m.wf(),
        !m.flag_confirmation_pending,
        m.data.variants.len() > 0,
        0 < m.data.files.len() <= usize::MAX,
    ensures
        ({
            let up = m.step(InputAction::NavUp).0;
            let down = m.step(InputAction::NavDown).0;
            let variants = m.focus_pane == FocusPaneV2::Variants;
            &&& variants ==> up.variant_cursor == (if m.variant_cursor == -1 {
                -1
            } else {
                m.variant_cursor - 1
            }) && up.file_cursor == m.file_cursor
            &&& variants ==> down.variant_cursor == (if m.variant_cursor + 1
                == m.data.variants.len() {
                m.variant_cursor as int
            } else {
                m.variant_cursor + 1
            }) && down.file_cursor == m.file_cursor
            &&& !variants ==> up.file_cursor == (if m.file_cursor == 0 {
                0
            } else {
                m.file_cursor - 1
            }) && up.variant_cursor == m.variant_cursor
            &&& !variants ==> down.file_cursor == (if m.file_cursor + 1 == m.data.files.len() {
                m.file_cursor as int
            } else {
                m.file_cursor + 1
            }) && down.variant_cursor == m.variant_cursor
            &&& variants && m.variant_cursor == 0 ==> up.canonical_input.focused
            &&& variants && m.variant_cursor == -1 ==> !down.canonical_input.focused
            &&& up.canonical_input.value == m.canonical_input.value && down.canonical_input.value
                == m.canonical_input.value
        }),
{
}

/// What is typed goes into the value while it is in hand; F takes the variant in
/// hand for it, E goes to it, and left and right go between the panes.
pub proof fn law_value_is_written(m: CanonicityV2Model, c: char)
    requires
        m.wf(),
        !m.flag_confirmation_pending,
    ensures
        ({
            let n = m.step(InputAction::Char(c)).0;
            let typing = m.focus_pane == FocusPaneV2::Variants && m.variant_cursor == -1;
            let at = m.canonical_input.cursor as int;
            let value = m.canonical_input.value;
            &&& typing ==> n.canonical_input.value == value.take(at).push(c) + value.skip(at)
                && n.variant_cursor == m.variant_cursor
            &&& !typing && (c == 'f' || c == 'F') && m.focus_pane == FocusPaneV2::Variants
                && m.variant_cursor < m.data.variants.len() ==> n.canonical_input.value
                == m.data.variants[m.variant_cursor as int].value
            &&& !typing && (c == 'e' || c == 'E') ==> n.variant_cursor == -1 && n.focus_pane
                == FocusPaneV2::Variants && n.canonical_input.focused && n.canonical_input.value
                == value
            &&& !typing && c != 'f' && c != 'F' && c != 'e' && c != 'E' ==> n == m
            &&& !typing ==> m.step(InputAction::NavLeft).0.focus_pane == FocusPaneV2::Variants
            &&& !typing ==> m.step(InputAction::NavRight).0.focus_pane == FocusPaneV2::Files
        }),
{
    let at = m.canonical_input.cursor as int;
    let value = m.canonical_input.value;
    assert(value.take(at) + seq![c] + value.skip(at) =~= value.take(at).push(c) + value.skip(at));
}

/// A group opens with every variant selected, at the first, and with the commonest
/// one written where the value is filled in.
pub proof fn law_group_opens_with_all(
    data: ModalDataV2Model,
    pre_fill: bool,
    group_index: usize,
    total_groups: usize,
    i: usize,
)
    ensures
        ({
            let m = CanonicityV2Model::opened(data, pre_fill, group_index, total_groups);
            &&& m.data == data
            &&& m.selected_variants.contains(i) <==> i < data.variants.len()
            &&& m.variant_cursor == 0 && m.file_cursor == 0
            &&& m.focus_pane == FocusPaneV2::Variants
            &&& pre_fill && data.variants.len() > 0 ==> m.canonical_input.value
                == data.variants[0].value
            &&& !pre_fill ==> m.canonical_input.value.len() == 0
            &&& m.is_album_artist_mode == !pre_fill
            &&& !m.flag_confirmation_pending
            &&& m.group_index == group_index && m.total_groups == total_groups
        }),
{
}

/// What is staged is one mutation with all operations, or none where there are
/// none.
pub proof fn law_operations_are_staged_as_one(m: CanonicityV2Model)
    ensures
        m.ops().len() == 0 ==> m.mutations().len() == 0,
        m.ops().len() > 0 ==> m.mutations().len() == 1 && m.mutations()[0]
            == (MutationModel::ApplyTagOps { ops: m.ops() }),
{
}

} // verus!
