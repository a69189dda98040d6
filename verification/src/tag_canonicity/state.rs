//! The modal's state, and the mutations that it leads to.

use std::collections::{HashMap, HashSet};

use vstd::prelude::*;

use crate::corpus::{Mutation, MutationModel};
use crate::lists::{chosen, tally};
use crate::screen::{nothing, put, put_all};
use crate::tag_canonicity::data::{first_value, ModalDataModel, TagCanonicalityModalData};
use crate::tag_canonicity::squash::{going, goes, is_picked, law_selected_values, law_values_that_go, of_tag, selected_values, tag_values, values_at, values_of};
use crate::text::{self, same_but_case, trimmed};
use crate::text_input::{TextInputModel, TextInputState};
use crate::widgets::{all_below, first_places, toggle, toggled};

verus! {

/// What lies over the modal.
#[derive(Debug, Clone, Copy, PartialEq, Eq, Structural, Default)]
pub enum TagCanonicalityModal {
    /// Nothing
    #[default]
    Nothing,
}

/// The modal. The text field stands over the list of variants.
#[derive(Debug)]
pub struct TagCanonicalityState {
    /// What it works on
    pub data: TagCanonicalityModalData,
    /// The variants to be squashed
    pub selected: HashSet<usize>,
    /// The variant in hand; -1 is the text field
    pub cursor: i32,
    /// The value to squash to
    pub canonical_input: TextInputState,
    /// Whether it was filled at the start
    pub pre_filled: bool,
    /// What lies over it
    pub modal: TagCanonicalityModal,
    /// The group in hand
    pub group_index: usize,
    /// How many groups there are
    pub total_groups: usize,
}

/// The model of a [`TagCanonicalityState`].
pub struct CanonicityModel {
    pub data: ModalDataModel,
    pub selected: Set<usize>,
    pub cursor: i32,
    pub canonical_input: TextInputModel,
    pub pre_filled: bool,
    pub modal: TagCanonicalityModal,
    pub group_index: usize,
    pub total_groups: usize,
}

impl View for TagCanonicalityState {
    type V = CanonicityModel;

    open spec fn view(&self) -> CanonicityModel {
        CanonicityModel {
            data: self.data.deep_view(),
            selected: self.selected@,
            cursor: self.cursor,
            canonical_input: self.canonical_input@,
            pre_filled: self.pre_filled,
            modal: self.modal,
            group_index: self.group_index,
            total_groups: self.total_groups,
        }
    }
}

/// A track with its tags.
#[derive(Debug)]
pub struct TrackInfo {
    pub path: String,
    pub tags: Vec<(String, String)>,
}

/// The model of a [`TrackInfo`].
pub struct TrackInfoModel {
    pub path: Seq<char>,
    pub tags: Seq<(Seq<char>, Seq<char>)>,
}

impl DeepView for TrackInfo {
    type V = TrackInfoModel;

    open spec fn deep_view(&self) -> TrackInfoModel {
        TrackInfoModel { path: self.path@, tags: self.tags.deep_view() }
    }
}

/// The models of tracks by their numbers.
pub open spec fn tracks(info: Map<i64, TrackInfo>) -> Map<i64, TrackInfoModel> {
    info.map_values(|t: TrackInfo| t.deep_view())
}

/// The condition of being a value of the tag that goes.
pub open spec fn squashed(tag_name: Seq<char>, gone: Seq<Seq<char>>) -> spec_fn(
    (Seq<char>, Seq<char>),
) -> bool {
    |t: (Seq<char>, Seq<char>)| of_tag(tag_name)(t) && gone.contains(t.1)
}

/// Tags with one value in place of those that go: where the first of them
/// stood. All other tags stay.
pub open spec fn squashed_tags(
    tags: Seq<(Seq<char>, Seq<char>)>,
    tag_name: Seq<char>,
    gone: Seq<Seq<char>>,
    canonical: Seq<char>,
) -> Seq<(Seq<char>, Seq<char>)>
    decreases tags.len(),
{
    if tags.len() == 0 {
        Seq::empty()
    } else {
        let before = squashed_tags(tags.drop_last(), tag_name, gone, canonical);
        if !squashed(tag_name, gone)(tags.last()) {
            before.push(tags.last())
        } else if tally(tags.drop_last(), squashed(tag_name, gone)) == 0 {
            before.push((tags.last().0, canonical))
        } else {
            before
        }
    }
}

/// The mutations of one track: first its tags in the index, then on disk. There
/// are none where no value of it goes.
pub open spec fn track_mutations(
    tag_name: Seq<char>,
    selected: Seq<Seq<char>>,
    canonical: Seq<char>,
    id: i64,
    track: TrackInfoModel,
) -> Seq<MutationModel> {
    let gone = chosen(values_of(track.tags, tag_name), goes(selected, canonical));
    if gone.len() == 0 {
        Seq::empty()
    } else {
        crate::screen::list2(
            MutationModel::SetTrackTagsDb {
                track_id: id,
                tags: squashed_tags(track.tags, tag_name, gone, canonical),
            },
            MutationModel::FlushTagsToDisk { track_id: id, path: track.path },
        )
    }
}

/// The mutations of tracks, one after the other.
pub open spec fn all_track_mutations(
    tag_name: Seq<char>,
    selected: Seq<Seq<char>>,
    canonical: Seq<char>,
    ids: Seq<i64>,
    info: Map<i64, TrackInfoModel>,
) -> Seq<MutationModel>
    decreases ids.len(),
{
    if ids.len() == 0 {
        Seq::empty()
    } else {
        all_track_mutations(tag_name, selected, canonical, ids.drop_last(), info) + (
        if info.contains_key(ids.last()) {
            track_mutations(tag_name, selected, canonical, ids.last(), info[ids.last()])
        } else {
            Seq::empty()
        })
    }
}

impl CanonicityModel {
    /// The cursor stands on the text field, on a variant, or before the first
    /// one where there are none.
    pub open spec fn wf(self) -> bool {
        &&& self.data.variants.len() <= i32::MAX
        &&& -1 <= self.cursor
        &&& self.cursor < self.data.variants.len() || self.cursor == 0
        &&& self.canonical_input.wf()
    }

    /// The modal as it opens: every variant is selected, and the first is in hand.
    pub open spec fn opened(
        data: ModalDataModel,
        pre_fill: bool,
        group_index: usize,
        total_groups: usize,
    ) -> Self {
        CanonicityModel {
            data,
            selected: first_places(data.variants.len()),
            cursor: 0,
            canonical_input: TextInputModel {
                focused: false,
                ..TextInputModel::empty().with_value(
                    if pre_fill {
                        first_value(data.variants)
                    } else {
                        Seq::empty()
                    },
                )
            },
            pre_filled: pre_fill,
            modal: TagCanonicalityModal::Nothing,
            group_index,
            total_groups,
        }
    }

    /// The variant in hand switched over.
    pub open spec fn toggled_here(self) -> Self {
        if 0 <= self.cursor < self.data.variants.len() {
            CanonicityModel { selected: toggled(self.selected, self.cursor as usize), ..self }
        } else {
            self
        }
    }

    /// The cursor one up, at last in the text field.
    pub open spec fn up(self) -> Self {
        if self.cursor > -1 {
            CanonicityModel {
                cursor: (self.cursor - 1) as i32,
                canonical_input: TextInputModel {
                    focused: self.cursor == 0,
                    ..self.canonical_input
                },
                ..self
            }
        } else {
            self
        }
    }

    /// The cursor one down.
    pub open spec fn down(self) -> Self {
        if self.cursor < self.data.variants.len() - 1 {
            CanonicityModel {
                cursor: (self.cursor + 1) as i32,
                canonical_input: TextInputModel { focused: false, ..self.canonical_input },
                ..self
            }
        } else {
            self
        }
    }

    /// The value to squash to.
    pub open spec fn canonical(self) -> Seq<char> {
        trimmed(self.canonical_input.value)
    }

    /// Whether it can be confirmed: there is a value to squash to, and something
    /// to be squashed.
    pub open spec fn ready(self) -> bool {
        self.canonical().len() > 0 && self.selected.len() > 0
    }

    /// The values to be squashed.
    pub open spec fn picks(self) -> Seq<Seq<char>> {
        values_at(self.data.variants, self.selected, self.data.variants.len())
    }

    /// The mutations for the tracks.
    pub open spec fn mutations(self, info: Map<i64, TrackInfoModel>) -> Seq<MutationModel> {
        if self.canonical().len() == 0 || self.picks().len() == 0 {
            Seq::empty()
        } else {
            all_track_mutations(
                self.data.tag_name,
                self.picks(),
                self.canonical(),
                self.data.track_ids,
                info,
            )
        }
    }
}

/// Tags with one value in place of those that go.
fn squash_tags(
    tags: &Vec<(String, String)>,
    tag_name: &str,
    gone: &Vec<String>,
    canonical: &str,
) -> (r: Vec<(String, String)>)
    ensures
        r.deep_view() == squashed_tags(
            tags.deep_view(),
            tag_name@,
            gone.deep_view(),
            canonical@,
        ),
{
    let ghost s = tags.deep_view();
    let ghost p = squashed(tag_name@, gone.deep_view());
    let mut out: Vec<(String, String)> = nothing();
    let mut added: bool = false;
    proof {
        crate::lists::lemma_chosen_start(s, p);
        assert(s.take(0) =~= Seq::<(Seq<char>, Seq<char>)>::empty());
    }
    let mut i: usize = 0;
    while i < tags.len()
        invariant
            i <= tags.len(),
            s == tags.deep_view(),
            p == squashed(tag_name@, gone.deep_view()),
            added == (tally(s.take(i as int), p) > 0),
            out.deep_view() == squashed_tags(
                s.take(i as int),
                tag_name@,
                gone.deep_view(),
                canonical@,
            ),
        decreases tags.len() - i,
    {
        proof {
            crate::lists::lemma_chosen_step(s, i as int, p);
            assert(s.take(i as int + 1).drop_last() =~= s.take(i as int));
            assert(s.take(i as int + 1).last() == s[i as int]);
            assert(s[i as int] == (tags[i as int].0@, tags[i as int].1@));
        }
        if text::equal_but_case(tags[i].0.as_str(), tag_name) && text::among(
            gone,
            tags[i].1.as_str(),
        ) {
            if !added {
                let pair: (String, String) = (tags[i].0.clone(), canonical.to_owned());
                proof {
                    assert(pair.deep_view() == (s[i as int].0, canonical@));
                }
                put(&mut out, pair);
                added = true;
            }
        } else {
            let pair: (String, String) = (tags[i].0.clone(), tags[i].1.clone());
            proof {
                assert(pair.deep_view() == s[i as int]);
            }
            put(&mut out, pair);
        }
        i = i + 1;
    }
    proof {
        assert(s.take(s.len() as int) =~= s);
    }
    out
}

/// The mutations of one track.
fn mutate_track(
    tag_name: &str,
    selected: &Vec<String>,
    canonical: &str,
    id: i64,
    track: &TrackInfo,
) -> (r: Vec<Mutation>)
    ensures
        r.deep_view() == track_mutations(
            tag_name@,
            selected.deep_view(),
            canonical@,
            id,
            track.deep_view(),
        ),
{
    let mut out: Vec<Mutation> = nothing();
    let values: Vec<String> = tag_values(&track.tags, tag_name);
    let gone: Vec<String> = going(&values, selected, canonical);
    proof {
        assert(gone.deep_view().len() == gone.len());
    }
    if gone.len() > 0 {
        let tags: Vec<(String, String)> = squash_tags(&track.tags, tag_name, &gone, canonical);
        put(&mut out, Mutation::SetTrackTagsDb { track_id: id, tags });
        put(&mut out, Mutation::FlushTagsToDisk { track_id: id, path: track.path.clone() });
    }
    out
}

impl TagCanonicalityState {
    /// The modal over its data. Filled at the start, the field holds the
    /// commonest value.
    pub fn new(
        data: TagCanonicalityModalData,
        pre_fill: bool,
        group_index: usize,
        total_groups: usize,
    ) -> (r: Self)
        requires
            data.variants.len() <= i32::MAX,
        ensures
            r@ == CanonicityModel::opened(
                data.deep_view(),
                pre_fill,
                group_index,
                total_groups,
            ),
            r@.wf(),
    {
        let value: String = if pre_fill {
            data.default_canonical()
        } else {
            let empty: String = String::new();
            proof {
                assert(empty@ =~= Seq::<char>::empty());
            }
            empty
        };
        let selected: HashSet<usize> = all_below(data.variants.len());
        let mut canonical_input: TextInputState = TextInputState::new();
        canonical_input.set_value(value);
        canonical_input.focused = false;
        TagCanonicalityState {
            data,
            selected,
            cursor: 0,
            canonical_input,
            pre_filled: pre_fill,
            modal: TagCanonicalityModal::Nothing,
            group_index,
            total_groups,
        }
    }

    /// Switches the variant in hand over.
    pub fn toggle_selection(&mut self)
        ensures
            final(self)@ == old(self)@.toggled_here(),
    {
        if self.cursor >= 0 {
            let i: usize = self.cursor as usize;
            if i < self.data.variants.len() {
                toggle(&mut self.selected, i);
            }
        }
    }

    /// Moves the cursor one up.
    pub fn cursor_up(&mut self)
        ensures
            final(self)@ == old(self)@.up(),
    {
        if self.cursor > -1 {
            self.cursor = self.cursor - 1;
            self.canonical_input.focused = self.cursor == -1;
        }
    }

    /// Moves the cursor one down.
    pub fn cursor_down(&mut self)
        requires
            old(self)@.data.variants.len() <= i32::MAX,
        ensures
            final(self)@ == old(self)@.down(),
    {
        proof {
            assert(self@.data.variants.len() == self.data.variants.len());
        }
        let last: i32 = self.data.variants.len() as i32 - 1;
        if self.cursor < last {
            self.cursor = self.cursor + 1;
            self.canonical_input.focused = false;
        }
    }

    /// Whether the text field is in hand.
    pub fn is_on_text_field(&self) -> (r: bool)
        ensures
            r == (self@.cursor == -1),
    {
        self.cursor == -1
    }

    /// Whether the first variant is in hand.
    pub fn is_on_first_item(&self) -> (r: bool)
        ensures
            r == (self@.cursor == 0),
    {
        self.cursor == 0
    }

    /// Whether the last variant is in hand.
    pub fn is_on_last_item(&self) -> (r: bool)
        requires
            self@.data.variants.len() <= i32::MAX,
        ensures
            r == (self@.cursor == self@.data.variants.len() - 1),
    {
        proof {
            assert(self@.data.variants.len() == self.data.variants.len());
        }
        self.cursor == self.data.variants.len() as i32 - 1
    }

    /// Whether it can be confirmed.
    pub fn can_submit(&self) -> (r: bool)
        ensures
            r == self@.ready(),
    {
        self.modal == TagCanonicalityModal::Nothing && self.canonical_value().unicode_len() > 0
            && self.selected.len() > 0
    }

    /// Closes what lies over the modal.
    pub fn close_modal(&mut self)
        ensures
            final(self)@ == (CanonicityModel {
                modal: TagCanonicalityModal::Nothing,
                ..old(self)@
            }),
    {
        self.modal = TagCanonicalityModal::Nothing;
    }

    /// Whether something lies over the modal.
    pub fn has_modal(&self) -> (r: bool)
        ensures
            r == (self@.modal != TagCanonicalityModal::Nothing),
    {
        self.modal != TagCanonicalityModal::Nothing
    }

    /// The value to squash to, without white space at its ends.
    pub fn canonical_value(&self) -> (r: &str)
        ensures
            r@ == self@.canonical(),
    {
        text::trim(self.canonical_input.value())
    }

    /// The values to be squashed, in the order of the variants.
    pub fn selected_variants(&self) -> (r: Vec<String>)
        ensures
            r.deep_view() == self@.picks(),
    {
        selected_values(&self.data.variants, &self.selected)
    }

    /// The mutations that squash the selected values of the tracks.
    pub fn mutations_with_paths(&self, track_info: &HashMap<i64, TrackInfo>) -> (r: Vec<Mutation>)
        ensures
            r.deep_view() == self@.mutations(tracks(track_info@)),
    {
        broadcast use vstd::std_specs::hash::group_hash_axioms;

        let canonical: &str = self.canonical_value();
        let mut out: Vec<Mutation> = nothing();
        if canonical.unicode_len() == 0 {
            return out;
        }
        let selected: Vec<String> = self.selected_variants();
        proof {
            assert(selected.deep_view().len() == selected.len());
        }
        if selected.len() == 0 {
            return out;
        }
        let ghost ids = self.data.track_ids@;
        let ghost info = tracks(track_info@);
        proof {
            assert(ids.take(0) =~= Seq::<i64>::empty());
        }
        let mut i: usize = 0;
        while i < self.data.track_ids.len()
            invariant
                i <= self.data.track_ids.len(),
                ids == self.data.track_ids@,
                info == tracks(track_info@),
                canonical@ == self@.canonical(),
                selected.deep_view() == self@.picks(),
                out.deep_view() == all_track_mutations(
                    self@.data.tag_name,
                    self@.picks(),
                    self@.canonical(),
                    ids.take(i as int),
                    info,
                ),
            decreases self.data.track_ids.len() - i,
        {
            broadcast use vstd::std_specs::hash::group_hash_axioms;

            let id: i64 = self.data.track_ids[i];
            proof {
                assert(ids.take(i as int + 1).drop_last() =~= ids.take(i as int));
                assert(ids.take(i as int + 1).last() == id);
            }
            match track_info.get(&id) {
                Some(track) => {
                    let more: Vec<Mutation> = mutate_track(
                        self.data.tag_name.as_str(),
                        &selected,
                        canonical,
                        id,
                        track,
                    );
                    put_all(&mut out, more);
                },
                None => {
                    proof {
                        assert(out.deep_view() + Seq::<MutationModel>::empty() =~= out.deep_view());
                    }
                },
            }
            i = i + 1;
        }
        proof {
            assert(ids.take(ids.len() as int) =~= ids);
        }
        out
    }
}

/// Squashing leaves none of the values that go, and keeps every other tag, in
/// its place among the others.
pub proof fn law_squash_keeps_the_rest(
    tags: Seq<(Seq<char>, Seq<char>)>,
    tag_name: Seq<char>,
    gone: Seq<Seq<char>>,
    canonical: Seq<char>,
)
    requires
        !gone.contains(canonical),
    ensures
        forall|i: int|
            0 <= i < squashed_tags(tags, tag_name, gone, canonical).len() ==> !squashed(
                tag_name,
                gone,
            )(#[trigger] squashed_tags(tags, tag_name, gone, canonical)[i]),
        squashed_tags(tags, tag_name, gone, canonical).len() == tags.len() - tally(
            tags,
            squashed(tag_name, gone),
        ) + (if tally(tags, squashed(tag_name, gone)) > 0 {
            1int
        } else {
            0
        }),
        forall|i: int|
            0 <= i < tags.len() && !squashed(tag_name, gone)(tags[i]) ==> squashed_tags(
                tags,
                tag_name,
                gone,
                canonical,
            ).contains(#[trigger] tags[i]),
    decreases tags.len(),
{
    let p = squashed(tag_name, gone);
    let after = squashed_tags(tags, tag_name, gone, canonical);
    if tags.len() > 0 {
        let init = tags.drop_last();
        let before = squashed_tags(init, tag_name, gone, canonical);
        law_squash_keeps_the_rest(init, tag_name, gone, canonical);
        crate::lists::lemma_chosen_step(tags, tags.len() - 1, p);
        assert(tags.take(tags.len() - 1) =~= init);
        assert(tags.take(tags.len() as int) =~= tags);
        assert forall|i: int| 0 <= i < tags.len() && !p(tags[i]) implies after.contains(
            #[trigger] tags[i],
        ) by {
            if i < tags.len() - 1 {
                assert(init[i] == tags[i]);
                assert(before.contains(init[i]));
                let k = choose|k: int| 0 <= k < before.len() && before[k] == init[i];
                assert(after[k] == tags[i]);
            } else {
                assert(after[after.len() - 1] == tags[i]);
            }
        }
    }
}

/// A track that is changed at all holds the value that was squashed to.
pub proof fn law_squash_adds_canonical(
    tags: Seq<(Seq<char>, Seq<char>)>,
    tag_name: Seq<char>,
    gone: Seq<Seq<char>>,
    canonical: Seq<char>,
)
    requires
        tally(tags, squashed(tag_name, gone)) > 0,
    ensures
        values_of(squashed_tags(tags, tag_name, gone, canonical), tag_name).contains(canonical),
    decreases tags.len(),
{
    let p = squashed(tag_name, gone);
    let after = squashed_tags(tags, tag_name, gone, canonical);
    let init = tags.drop_last();
    let before = squashed_tags(init, tag_name, gone, canonical);
    let v = crate::tag_canonicity::squash::value_of();
    crate::lists::lemma_chosen_step(tags, tags.len() - 1, p);
    assert(tags.take(tags.len() - 1) =~= init);
    assert(tags.take(tags.len() as int) =~= tags);
    if after != before {
        crate::lists::lemma_picked_step(after, after.len() - 1, of_tag(tag_name), v);
        assert(after.take(after.len() - 1) =~= before);
        assert(after.take(after.len() as int) =~= after);
    }
    let found = values_of(after, tag_name);
    if tally(init, p) > 0 {
        law_squash_adds_canonical(init, tag_name, gone, canonical);
        let old = values_of(before, tag_name);
        let k = choose|k: int| 0 <= k < old.len() && old[k] == canonical;
        assert(found[k] == canonical);
    } else {
        assert(p(tags.last()));
        assert(found.last() == canonical);
    }
}

/// A track none of whose values is selected, or whose selected values are
/// already what is squashed to, is left alone.
pub proof fn law_only_selected_values_change(
    tag_name: Seq<char>,
    selected: Seq<Seq<char>>,
    canonical: Seq<char>,
    id: i64,
    track: TrackInfoModel,
)
    ensures
        (track_mutations(tag_name, selected, canonical, id, track).len() > 0) <==> exists|i: int|
            0 <= i < values_of(track.tags, tag_name).len() && selected.contains(
                #[trigger] values_of(track.tags, tag_name)[i],
            ) && values_of(track.tags, tag_name)[i] != canonical,
{
    let values = values_of(track.tags, tag_name);
    let p = goes(selected, canonical);
    crate::lists::law_chosen(values, p);
    let gone = chosen(values, p);
    if gone.len() > 0 {
        let x = gone[0];
        assert(p(x));
        assert(values.contains(x));
        let i = choose|i: int| 0 <= i < values.len() && values[i] == x;
        assert(selected.contains(values[i]));
    }
    if exists|i: int|
        0 <= i < values.len() && selected.contains(#[trigger] values[i]) && values[i]
            != canonical {
        let i = choose|i: int|
            0 <= i < values.len() && selected.contains(#[trigger] values[i]) && values[i]
                != canonical;
        assert(p(values[i]));
        assert(gone.contains(values[i]));
    }
}

impl CanonicityModel {
    /// Whether a tag of a track has to go: it is the tag in question, its value is
    /// that of a selected variant, and it is not the value to squash to.
    pub open spec fn has_to_go(self, t: (Seq<char>, Seq<char>)) -> bool {
        &&& same_but_case(t.0, self.data.tag_name)
        &&& is_picked(self.data.variants, self.selected, t.1)
        &&& t.1 != trimmed(self.canonical_input.value)
    }

    /// Whether a tag of a track stays.
    pub open spec fn stays(self) -> spec_fn((Seq<char>, Seq<char>)) -> bool {
        |t: (Seq<char>, Seq<char>)| !self.has_to_go(t)
    }

    /// Whether tags are others after squashing: where the first one that has to go
    /// stood, the value to squash to stands, under the same name; the others that
    /// have to go are gone, and the rest stands as it stood.
    pub open spec fn squashes(
        self,
        before: Seq<(Seq<char>, Seq<char>)>,
        after: Seq<(Seq<char>, Seq<char>)>,
    ) -> bool {
        exists|f: int|
            0 <= f < before.len() && self.has_to_go(#[trigger] before[f]) && (forall|k: int|
                0 <= k < f ==> !self.has_to_go(#[trigger] before[k])) && after == before.take(
                f,
            ).push((before[f].0, trimmed(self.canonical_input.value))) + chosen(
                before.skip(f + 1),
                self.stays(),
            )
    }

    /// Whether mutations at a place squash a track: its tags are set in the index,
    /// and then written to its file.
    pub open spec fn squashed_at(
        self,
        mutations: Seq<MutationModel>,
        k: int,
        id: i64,
        track: TrackInfoModel,
    ) -> bool {
        &&& 0 <= k
        &&& k + 1 < mutations.len()
        &&& mutations[k] is SetTrackTagsDb
        &&& mutations[k]->SetTrackTagsDb_track_id == id
        &&& self.squashes(track.tags, mutations[k]->tags)
        &&& mutations[k + 1] == (MutationModel::FlushTagsToDisk { track_id: id, path: track.path })
    }
}

/// Every track that is known and has a value that has to go is squashed, wherever
/// it stands among the tracks.
pub proof fn law_every_bearer_is_squashed(
    m: CanonicityModel,
    info: Map<i64, TrackInfoModel>,
    i: int,
    j: int,
)
    requires
        m.wf(),
        trimmed(m.canonical_input.value).len() > 0,
        0 <= i < m.data.track_ids.len(),
        info.contains_key(m.data.track_ids[i]),
        0 <= j < info[m.data.track_ids[i]].tags.len(),
        m.has_to_go(info[m.data.track_ids[i]].tags[j]),
    ensures
        exists|k: int|
            #[trigger] m.squashed_at(
                m.mutations(info),
                k,
                m.data.track_ids[i],
                info[m.data.track_ids[i]],
            ),
{
    let ids = m.data.track_ids;
    let v = info[ids[i]].tags[j].1;
    law_selected_values(m.data.variants, m.selected, m.data.variants.len());
    assert(m.data.variants.take(m.data.variants.len() as int) =~= m.data.variants);
    assert(m.picks().contains(v));
    lemma_bearer_is_squashed(m, info, ids, i, j);
    let all = all_track_mutations(m.data.tag_name, m.picks(), m.canonical(), ids, info);
    let k = choose|k: int| #[trigger] m.squashed_at(all, k, ids[i], info[ids[i]]);
    assert(m.squashed_at(m.mutations(info), k, ids[i], info[ids[i]]));
}

proof fn lemma_bearer_is_squashed(
    m: CanonicityModel,
    info: Map<i64, TrackInfoModel>,
    ids: Seq<i64>,
    i: int,
    j: int,
)
    requires
        m.wf(),
        0 <= i < ids.len(),
        info.contains_key(ids[i]),
        0 <= j < info[ids[i]].tags.len(),
        m.has_to_go(info[ids[i]].tags[j]),
    ensures
        exists|k: int|
            #[trigger] m.squashed_at(
                all_track_mutations(m.data.tag_name, m.picks(), m.canonical(), ids, info),
                k,
                ids[i],
                info[ids[i]],
            ),
    decreases ids.len(),
{
    let init = ids.drop_last();
    let before = all_track_mutations(m.data.tag_name, m.picks(), m.canonical(), init, info);
    let all = all_track_mutations(m.data.tag_name, m.picks(), m.canonical(), ids, info);
    if i < init.len() {
        lemma_bearer_is_squashed(m, info, init, i, j);
        let k = choose|k: int| #[trigger] m.squashed_at(before, k, init[i], info[init[i]]);
        assert(all[k] == before[k] && all[k + 1] == before[k + 1]);
        assert(m.squashed_at(all, k, ids[i], info[ids[i]]));
    } else {
        let track = info[ids[i]];
        let gone = chosen(values_of(track.tags, m.data.tag_name), goes(m.picks(), m.canonical()));
        lemma_going(m, track.tags);
        lemma_squashes(m, track.tags, j);
        law_values_that_go(track.tags, m.data.tag_name, m.picks(), m.canonical());
        assert(gone.contains(track.tags[j].1));
        let k = before.len() as int;
        assert(m.squashed_at(all, k, ids[i], track));
    }
}

/// What has to go is what is squashed.
proof fn lemma_going(m: CanonicityModel, tags: Seq<(Seq<char>, Seq<char>)>)
    requires
        m.wf(),
    ensures
        forall|k: int|
            0 <= k < tags.len() ==> squashed(
                m.data.tag_name,
                chosen(values_of(tags, m.data.tag_name), goes(m.picks(), m.canonical())),
            )(#[trigger] tags[k]) == m.has_to_go(tags[k]),
        forall|k: int|
            0 <= k < tags.len() && m.has_to_go(#[trigger] tags[k]) ==> m.picks().contains(
                tags[k].1,
            ),
{
    let gone = chosen(values_of(tags, m.data.tag_name), goes(m.picks(), m.canonical()));
    law_values_that_go(tags, m.data.tag_name, m.picks(), m.canonical());
    law_selected_values(m.data.variants, m.selected, m.data.variants.len());
    assert(m.data.variants.take(m.data.variants.len() as int) =~= m.data.variants);
    assert forall|k: int| 0 <= k < tags.len() implies squashed(m.data.tag_name, gone)(
        #[trigger] tags[k],
    ) == m.has_to_go(tags[k]) by {
        assert(gone.contains(tags[k].1) || !gone.contains(tags[k].1));
        assert(m.picks().contains(tags[k].1) == is_picked(
            m.data.variants,
            m.selected,
            tags[k].1,
        ));
    }
    assert forall|k: int| 0 <= k < tags.len() && m.has_to_go(#[trigger] tags[k]) implies m.picks().contains(
        tags[k].1,
    ) by {
        assert(m.picks().contains(tags[k].1) == is_picked(
            m.data.variants,
            m.selected,
            tags[k].1,
        ));
    }
}

proof fn lemma_squashes(m: CanonicityModel, tags: Seq<(Seq<char>, Seq<char>)>, j: int)
    requires
        m.wf(),
        0 <= j < tags.len(),
        m.has_to_go(tags[j]),
    ensures
        m.squashes(
            tags,
            squashed_tags(
                tags,
                m.data.tag_name,
                chosen(values_of(tags, m.data.tag_name), goes(m.picks(), m.canonical())),
                m.canonical(),
            ),
        ),
{
    let gone = chosen(values_of(tags, m.data.tag_name), goes(m.picks(), m.canonical()));
    let p = squashed(m.data.tag_name, gone);
    lemma_going(m, tags);
    let f = crate::lists::first_place(tags, 0, p) as int;
    crate::lists::law_first_place(tags, 0, p);
    assert(p(tags[j]));
    lemma_squashed_prefix(tags, m.data.tag_name, gone, m.canonical(), f, tags.len() as int);
    assert(tags.take(tags.len() as int) =~= tags);
    assert(m.has_to_go(tags[f]));
    let rest = tags.skip(f + 1);
    assert(tags.subrange(f + 1, tags.len() as int) =~= rest);
    assert forall|k: int| 0 <= k < rest.len() implies !p(#[trigger] rest[k]) == m.stays()(
        rest[k],
    ) by {
        assert(rest[k] == tags[f + 1 + k]);
    }
    lemma_chosen_same(rest, |t: (Seq<char>, Seq<char>)| !p(t), m.stays());
}

proof fn lemma_chosen_same<T>(s: Seq<T>, p: spec_fn(T) -> bool, q: spec_fn(T) -> bool)
    requires
        forall|k: int| 0 <= k < s.len() ==> p(#[trigger] s[k]) == q(s[k]),
    ensures
        chosen(s, p) == chosen(s, q),
    decreases s.len(),
{
    if s.len() > 0 {
        let t = s.drop_last();
        assert forall|k: int| 0 <= k < t.len() implies p(#[trigger] t[k]) == q(t[k]) by {
            assert(t[k] == s[k]);
        }
        lemma_chosen_same(t, p, q);
        assert(p(s[s.len() - 1]) == q(s[s.len() - 1]));
    }
}

/// Up to a place behind the first value that goes, the tags before it stand, then
/// the canonical value, then what stays of the tags up to the place.
proof fn lemma_squashed_prefix(
    tags: Seq<(Seq<char>, Seq<char>)>,
    tag_name: Seq<char>,
    gone: Seq<Seq<char>>,
    canonical: Seq<char>,
    f: int,
    n: int,
)
    requires
        0 <= f < tags.len(),
        0 <= n <= tags.len(),
        squashed(tag_name, gone)(tags[f]),
        forall|k: int| 0 <= k < f ==> !squashed(tag_name, gone)(#[trigger] tags[k]),
    ensures
        n <= f ==> squashed_tags(tags.take(n), tag_name, gone, canonical) == tags.take(n) && tally(
            tags.take(n),
            squashed(tag_name, gone),
        ) == 0,
        n > f ==> tally(tags.take(n), squashed(tag_name, gone)) > 0 && squashed_tags(
            tags.take(n),
            tag_name,
            gone,
            canonical,
        ) == tags.take(f).push((tags[f].0, canonical)) + chosen(
            tags.subrange(f + 1, n),
            |t: (Seq<char>, Seq<char>)| !squashed(tag_name, gone)(t),
        ),
    decreases n,
{
    let p = squashed(tag_name, gone);
    let q = |t: (Seq<char>, Seq<char>)| !p(t);
    if n == 0 {
        assert(tags.take(0) =~= Seq::<(Seq<char>, Seq<char>)>::empty());
    } else {
        lemma_squashed_prefix(tags, tag_name, gone, canonical, f, n - 1);
        let s = tags.take(n);
        assert(s.drop_last() =~= tags.take(n - 1));
        assert(s.last() == tags[n - 1]);
        if n <= f {
            assert(!p(tags[n - 1]));
            assert(tags.take(n - 1).push(tags[n - 1]) =~= s);
        } else if n == f + 1 {
            assert(tags.subrange(f + 1, n) =~= Seq::<(Seq<char>, Seq<char>)>::empty());
            assert(tags.take(f).push((tags[f].0, canonical)) + Seq::<
                (Seq<char>, Seq<char>),
            >::empty() =~= tags.take(f).push((tags[f].0, canonical)));
        } else {
            let r = tags.subrange(f + 1, n);
            assert(r.drop_last() =~= tags.subrange(f + 1, n - 1));
            assert(r.last() == tags[n - 1]);
            let head = tags.take(f).push((tags[f].0, canonical));
            if q(tags[n - 1]) {
                assert((head + chosen(r.drop_last(), q)).push(tags[n - 1]) =~= head + chosen(
                    r.drop_last(),
                    q,
                ).push(tags[n - 1]));
            }
        }
    }
}

impl CanonicityModel {
    /// Whether mutations at a place squash one of some tracks that is known.
    pub open spec fn squashes_one_of(
        self,
        mutations: Seq<MutationModel>,
        k: int,
        ids: Seq<i64>,
        info: Map<i64, TrackInfoModel>,
    ) -> bool {
        exists|i: int|
            0 <= i < ids.len() && info.contains_key(#[trigger] ids[i]) && self.squashed_at(
                mutations,
                k,
                ids[i],
                info[ids[i]],
            )
    }
}

/// Nothing is done but squashing: mutations come in pairs, each pair squashes a
/// track that is known and among the tracks in question.
pub proof fn law_only_bearers_are_squashed(m: CanonicityModel, info: Map<i64, TrackInfoModel>)
    requires
        m.wf(),
    ensures
        m.mutations(info).len() % 2 == 0,
        m.mutations(info).len() <= 2 * m.data.track_ids.len(),
        forall|k: int|
            0 <= k < m.mutations(info).len() && k % 2 == 0 ==> #[trigger] m.squashes_one_of(
                m.mutations(info),
                k,
                m.data.track_ids,
                info,
            ),
        trimmed(m.canonical_input.value).len() == 0 ==> m.mutations(info).len() == 0,
{
    lemma_only_bearers(m, info, m.data.track_ids);
}

proof fn lemma_only_bearers(m: CanonicityModel, info: Map<i64, TrackInfoModel>, ids: Seq<i64>)
    requires
        m.wf(),
    ensures
        all_track_mutations(m.data.tag_name, m.picks(), m.canonical(), ids, info).len() % 2 == 0,
        all_track_mutations(m.data.tag_name, m.picks(), m.canonical(), ids, info).len() <= 2
            * ids.len(),
        forall|k: int|
            0 <= k < all_track_mutations(
                m.data.tag_name,
                m.picks(),
                m.canonical(),
                ids,
                info,
            ).len() && k % 2 == 0 ==> #[trigger] m.squashes_one_of(
                all_track_mutations(m.data.tag_name, m.picks(), m.canonical(), ids, info),
                k,
                ids,
                info,
            ),
    decreases ids.len(),
{
    let all = all_track_mutations(m.data.tag_name, m.picks(), m.canonical(), ids, info);
    if ids.len() > 0 {
        let init = ids.drop_last();
        let before = all_track_mutations(m.data.tag_name, m.picks(), m.canonical(), init, info);
        lemma_only_bearers(m, info, init);
        assert forall|k: int| 0 <= k < all.len() && k % 2 == 0 implies #[trigger] m.squashes_one_of(
            all,
            k,
            ids,
            info,
        ) by {
            if k < before.len() {
                assert(m.squashes_one_of(before, k, init, info));
                let i = choose|i: int|
                    0 <= i < init.len() && info.contains_key(#[trigger] init[i]) && m.squashed_at(
                        before,
                        k,
                        init[i],
                        info[init[i]],
                    );
                assert(all[k] == before[k]);
                assert(all[k + 1] == before[k + 1]);
                assert(ids[i] == init[i]);
                assert(m.squashed_at(all, k, ids[i], info[ids[i]]));
            } else {
                let id = ids.last();
                let track = info[id];
                let gone = chosen(
                    values_of(track.tags, m.data.tag_name),
                    goes(m.picks(), m.canonical()),
                );
                law_values_that_go(track.tags, m.data.tag_name, m.picks(), m.canonical());
                assert(gone.contains(gone[0]));
                let j = choose|j: int|
                    0 <= j < track.tags.len() && same_but_case(
                        (#[trigger] track.tags[j]).0,
                        m.data.tag_name,
                    ) && track.tags[j].1 == gone[0];
                lemma_going(m, track.tags);
                assert(squashed(m.data.tag_name, gone)(track.tags[j]));
                lemma_squashes(m, track.tags, j);
                assert(ids[ids.len() - 1] == id);
                assert(m.squashed_at(all, k, id, track));
            }
        }
    }
}

/// Tracks are squashed one after the other, each for itself: what is done for
/// more tracks is what is done for the first, and then what is done for the rest.
pub proof fn law_tracks_are_squashed_in_turn(
    m: CanonicityModel,
    info: Map<i64, TrackInfoModel>,
    first: Seq<i64>,
    rest: Seq<i64>,
)
    ensures
        m.over(first + rest).mutations(info) == m.over(first).mutations(info) + m.over(
            rest,
        ).mutations(info),
    decreases rest.len(),
{
    let a = m.over(first).mutations(info);
    let b = m.over(rest).mutations(info);
    if m.canonical().len() == 0 || m.picks().len() == 0 {
        assert(a + b =~= a);
    } else if rest.len() == 0 {
        assert(first + rest =~= first);
        assert(a + b =~= a);
    } else {
        law_tracks_are_squashed_in_turn(m, info, first, rest.drop_last());
        assert((first + rest).drop_last() =~= first + rest.drop_last());
        assert(m.over(first + rest).mutations(info) =~= a + b);
    }
}

impl CanonicityModel {
    /// The modal over other tracks.
    pub open spec fn over(self, track_ids: Seq<i64>) -> Self {
        CanonicityModel { data: ModalDataModel { track_ids, ..self.data }, ..self }
    }
}

/// The modal can be confirmed exactly where there is something to squash to and
/// something to be squashed.
pub proof fn law_confirming_needs_value_and_variant(m: CanonicityModel)
    requires
        m.wf(),
        m.selected.finite(),
    ensures
        m.ready() <==> trimmed(m.canonical_input.value).len() > 0 && exists|i: usize|
            m.selected.contains(i),
{
    if m.selected.len() > 0 {
        let i = m.selected.choose();
        assert(m.selected.contains(i));
    }
    if exists|i: usize| m.selected.contains(i) {
        let i = choose|i: usize| m.selected.contains(i);
        assert(m.selected.remove(i).len() + 1 == m.selected.len());
    }
}

} // verus!
