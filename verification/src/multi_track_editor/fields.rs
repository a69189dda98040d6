//! The tags of tracks as fields, and the changes between two states of them.

use vstd::prelude::*;

use crate::corpus::{Track, TrackModel};
use crate::lists::{chosen, distinct, first_place, lemma_picked_start, lemma_picked_step, picked};
use crate::multi_track_editor::laws::{apart, gathers, is_common, law_common_changes_are_grouped, law_every_change_is_shown};
use crate::ordering::{in_order, sorted, Ranked};
use crate::screen::{nothing, put, put_all};
use crate::text::{self, signed_decimal, text_before};

pub use crate::tag_editor::types::{FieldEditState, TagChange, TagChangeModel};

verus! {

// ---------------------------------------------------------------------------
// Types
// ---------------------------------------------------------------------------

/// One tag of one track.
#[derive(Debug)]
pub struct TagField {
    pub name: String,
    pub value: String,
    pub editable: bool,
    /// Whether the value is the track's own, and is not filled into others
    pub is_unique_per_track: bool,
}

/// The model of a [`TagField`].
pub struct FieldModel {
    pub name: Seq<char>,
    pub value: Seq<char>,
    pub editable: bool,
    pub is_unique_per_track: bool,
}

impl DeepView for TagField {
    type V = FieldModel;

    open spec fn deep_view(&self) -> FieldModel {
        FieldModel {
            name: self.name@,
            value: self.value@,
            editable: self.editable,
            is_unique_per_track: self.is_unique_per_track,
        }
    }
}

impl Clone for TagField {
    fn clone(&self) -> (r: Self)
        ensures
            r.deep_view() == self.deep_view(),
    {
        TagField {
            name: self.name.clone(),
            value: self.value.clone(),
            editable: self.editable,
            is_unique_per_track: self.is_unique_per_track,
        }
    }
}

/// Tags stand in the alphabetical order of their names.
impl Ranked for TagField {
    open spec fn precedes(a: FieldModel, b: FieldModel) -> bool {
        text_before(a.name, b.name)
    }

    fn before(&self, other: &Self) -> (r: bool) {
        text::comes_before(self.name.as_str(), other.name.as_str())
    }
}

/// Whether one tag comes before another.
pub open spec fn by_key() -> spec_fn(FieldModel, FieldModel) -> bool {
    |a: FieldModel, b: FieldModel| TagField::precedes(a, b)
}

/// The same change to several tracks.
#[derive(Debug)]
pub struct GroupedChange {
    pub field_name: String,
    pub old_value: String,
    pub new_value: String,
    pub track_indices: Vec<usize>,
}

/// The model of a [`GroupedChange`].
pub struct GroupedChangeModel {
    pub field_name: Seq<char>,
    pub old_value: Seq<char>,
    pub new_value: Seq<char>,
    pub track_indices: Seq<usize>,
}

impl DeepView for GroupedChange {
    type V = GroupedChangeModel;

    open spec fn deep_view(&self) -> GroupedChangeModel {
        GroupedChangeModel {
            field_name: self.field_name@,
            old_value: self.old_value@,
            new_value: self.new_value@,
            track_indices: self.track_indices@,
        }
    }
}

/// A group of duplicates that is being resolved.
#[derive(Debug)]
pub struct DuplicateGroupInfo {
    pub group_id: i64,
    pub tracks: Vec<Track>,
    pub resolved: bool,
}

/// The model of a [`DuplicateGroupInfo`].
pub struct DuplicateGroupModel {
    pub group_id: i64,
    pub tracks: Seq<TrackModel>,
    pub resolved: bool,
}

impl DeepView for DuplicateGroupInfo {
    type V = DuplicateGroupModel;

    open spec fn deep_view(&self) -> DuplicateGroupModel {
        DuplicateGroupModel {
            group_id: self.group_id,
            tracks: self.tracks.deep_view(),
            resolved: self.resolved,
        }
    }
}

/// What makes tracks duplicates.
#[derive(Debug, Clone, PartialEq, Eq)]
pub enum DuplicateGroupType {
    /// The same file in several places
    ExactMatch,
    /// Different files with the same tags
    MetadataMatch,
}

// ---------------------------------------------------------------------------
// Tags as fields
// ---------------------------------------------------------------------------

/// A tag with its value, where it has one.
pub open spec fn tag_if(name: Seq<char>, value: Option<Seq<char>>) -> Seq<(Seq<char>, Seq<char>)> {
    match value {
        Some(v) => seq![(name, v)],
        None => Seq::empty(),
    }
}

/// The tags that the index holds of a track.
pub open spec fn indexed_tags(t: TrackModel) -> Seq<(Seq<char>, Seq<char>)> {
    tag_if("artist"@, t.artist) + tag_if("album"@, t.album) + tag_if(
        "album_artist"@,
        t.album_artist,
    ) + tag_if("title"@, t.title) + tag_if(
        "track_number"@,
        match t.track_number {
            Some(n) => Some(signed_decimal(n as int)),
            None => None,
        },
    ) + tag_if("isrc"@, t.isrc)
}

/// The tags that come first, in their order, and whether they are the track's
/// own.
pub open spec fn leading_tags() -> Seq<(Seq<char>, bool)> {
    crate::screen::list8(
        ("track_number"@, true),
        ("title"@, true),
        ("artist"@, false),
        ("album"@, false),
        ("album_artist"@, false),
        ("date"@, false),
        ("genre"@, false),
        ("isrc"@, false),
    )
}

/// The condition of being a tag with a name.
pub open spec fn tag_is(name: Seq<char>) -> spec_fn((Seq<char>, Seq<char>)) -> bool {
    |t: (Seq<char>, Seq<char>)| t.0 == name
}

/// The value of a tag.
pub open spec fn tag_value() -> spec_fn((Seq<char>, Seq<char>)) -> Seq<char> {
    |t: (Seq<char>, Seq<char>)| t.1
}

/// A value as a field of a tag.
pub open spec fn as_value_of(name: Seq<char>, unique: bool) -> spec_fn(Seq<char>) -> FieldModel {
    |v: Seq<char>|
        FieldModel { name, value: v, editable: true, is_unique_per_track: unique }
}

/// The fields of a leading tag: one with its first value, or an empty one. The
/// album artist has a field for each value.
pub open spec fn leading_fields(
    tags: Seq<(Seq<char>, Seq<char>)>,
    name: Seq<char>,
    unique: bool,
) -> Seq<FieldModel> {
    let values = picked(tags, tag_is(name), tag_value());
    if values.len() == 0 {
        seq![as_value_of(name, unique)(Seq::empty())]
    } else if name == "album_artist"@ {
        values.map_values(as_value_of(name, unique))
    } else {
        seq![as_value_of(name, unique)(values[0])]
    }
}

/// The fields of some leading tags.
pub open spec fn all_leading_fields(
    tags: Seq<(Seq<char>, Seq<char>)>,
    leading: Seq<(Seq<char>, bool)>,
) -> Seq<FieldModel>
    decreases leading.len(),
{
    if leading.len() == 0 {
        Seq::empty()
    } else {
        all_leading_fields(tags, leading.drop_last()) + leading_fields(
            tags,
            leading.last().0,
            leading.last().1,
        )
    }
}

/// The names that are not listed among the other tags: the leading tags, and
/// what the file is rather than what it says.
pub open spec fn set_apart() -> Seq<Seq<char>> {
    crate::screen::list13(
        "track_number"@,
        "title"@,
        "artist"@,
        "album"@,
        "album_artist"@,
        "date"@,
        "genre"@,
        "isrc"@,
        "bitrate"@,
        "sample_rate"@,
        "duration"@,
        "path"@,
        "file_type"@,
    )
}

/// The condition of being another tag.
pub open spec fn other_tag() -> spec_fn((Seq<char>, Seq<char>)) -> bool {
    |t: (Seq<char>, Seq<char>)| !set_apart().contains(t.0)
}

/// A tag as a field.
pub open spec fn shared_field() -> spec_fn((Seq<char>, Seq<char>)) -> FieldModel {
    |t: (Seq<char>, Seq<char>)|
        FieldModel { name: t.0, value: t.1, editable: true, is_unique_per_track: false }
}

/// The line that creates a tag.
pub open spec fn creating_field() -> FieldModel {
    FieldModel {
        name: "New Tag"@,
        value: "[Press Enter to create]"@,
        editable: true,
        is_unique_per_track: false,
    }
}

/// The fields of a track: the leading tags, the others in alphabetical order,
/// and the line that creates a tag. Where the tags of the file could not be
/// read, those of the index stand in for them.
pub open spec fn fields_of_track(
    t: TrackModel,
    read: Option<Seq<(Seq<char>, Seq<char>)>>,
) -> Seq<FieldModel> {
    let tags = match read {
        Some(s) => s,
        None => indexed_tags(t),
    };
    (all_leading_fields(tags, leading_tags()) + in_order(
        picked(tags, other_tag(), shared_field()),
        by_key(),
    )).push(creating_field())
}

/// Adds a tag with its value, where it has one.
fn put_tag(tags: &mut Vec<(String, String)>, name: &str, value: &Option<String>)
    ensures
        final(tags).deep_view() == old(tags).deep_view() + tag_if(name@, value.deep_view()),
{
    match value {
        Some(v) => {
            put(tags, (name.to_owned(), v.clone()));
            proof {
                assert(old(tags).deep_view().push((name@, v@)) =~= old(tags).deep_view() + seq![
                    (name@, v@),
                ]);
            }
        },
        None => {
            proof {
                assert(old(tags).deep_view() + Seq::<(Seq<char>, Seq<char>)>::empty() =~= old(
                    tags,
                ).deep_view());
            }
        },
    }
}

/// The tags that the index holds of a track.
fn tags_of_index(t: &Track) -> (r: Vec<(String, String)>)
    ensures
        r.deep_view() == indexed_tags(t.deep_view()),
{
    let mut tags: Vec<(String, String)> = nothing();
    put_tag(&mut tags, "artist", &t.artist);
    proof {
        assert(Seq::<(Seq<char>, Seq<char>)>::empty() + tag_if("artist"@, t.deep_view().artist)
            =~= tag_if("artist"@, t.deep_view().artist));
    }
    put_tag(&mut tags, "album", &t.album);
    put_tag(&mut tags, "album_artist", &t.album_artist);
    put_tag(&mut tags, "title", &t.title);
    let number: Option<String> = match t.track_number {
        Some(n) => Some(text::signed(n as i64)),
        None => None,
    };
    put_tag(&mut tags, "track_number", &number);
    put_tag(&mut tags, "isrc", &t.isrc);
    tags
}

/// The values of a tag.
fn values_named(tags: &Vec<(String, String)>, name: &str) -> (r: Vec<String>)
    ensures
        r.deep_view() == picked(tags.deep_view(), tag_is(name@), tag_value()),
{
    let ghost s = tags.deep_view();
    let mut out: Vec<String> = nothing();
    proof {
        lemma_picked_start(s, tag_is(name@), tag_value());
    }
    let mut i: usize = 0;
    while i < tags.len()
        invariant
            i <= tags.len(),
            s == tags.deep_view(),
            out.deep_view() == picked(s.take(i as int), tag_is(name@), tag_value()),
        decreases tags.len() - i,
    {
        proof {
            lemma_picked_step(s, i as int, tag_is(name@), tag_value());
        }
        if text::same(tags[i].0.as_str(), name) {
            put(&mut out, tags[i].1.clone());
        }
        i = i + 1;
    }
    proof {
        assert(s.take(s.len() as int) =~= s);
    }
    out
}

/// Adds the fields of a leading tag.
fn put_leading(
    fields: &mut Vec<TagField>,
    tags: &Vec<(String, String)>,
    name: &str,
    unique: bool,
)
    ensures
        final(fields).deep_view() == old(fields).deep_view() + leading_fields(
            tags.deep_view(),
            name@,
            unique,
        ),
{
    let values: Vec<String> = values_named(tags, name);
    let ghost vs = values.deep_view();
    let mut made: Vec<TagField> = nothing();
    if values.len() == 0 {
        put(
            &mut made,
            TagField {
                name: name.to_owned(),
                value: String::new(),
                editable: true,
                is_unique_per_track: unique,
            },
        );
    } else if text::same(name, "album_artist") {
        let mut i: usize = 0;
        while i < values.len()
            invariant
                i <= values.len(),
                vs == values.deep_view(),
                made.len() == i,
                forall|k: int|
                    0 <= k < i ==> (#[trigger] made[k]).deep_view() == as_value_of(name@, unique)(
                        vs[k],
                    ),
            decreases values.len() - i,
        {
            made.push(
                TagField {
                    name: name.to_owned(),
                    value: values[i].clone(),
                    editable: true,
                    is_unique_per_track: unique,
                },
            );
            i = i + 1;
        }
        proof {
            assert(made.deep_view() =~= vs.map_values(as_value_of(name@, unique)));
        }
    } else {
        put(
            &mut made,
            TagField {
                name: name.to_owned(),
                value: values[0].clone(),
                editable: true,
                is_unique_per_track: unique,
            },
        );
    }
    put_all(fields, made);
}

/// The names that are not listed among the other tags.
fn names_set_apart() -> (r: Vec<String>)
    ensures
        r.deep_view() == set_apart(),
{
    let mut v: Vec<String> = nothing();
    put(&mut v, "track_number".to_owned());
    put(&mut v, "title".to_owned());
    put(&mut v, "artist".to_owned());
    put(&mut v, "album".to_owned());
    put(&mut v, "album_artist".to_owned());
    put(&mut v, "date".to_owned());
    put(&mut v, "genre".to_owned());
    put(&mut v, "isrc".to_owned());
    put(&mut v, "bitrate".to_owned());
    put(&mut v, "sample_rate".to_owned());
    put(&mut v, "duration".to_owned());
    put(&mut v, "path".to_owned());
    put(&mut v, "file_type".to_owned());
    v
}

/// The other tags as fields, in alphabetical order.
fn other_fields(tags: &Vec<(String, String)>) -> (r: Vec<TagField>)
    ensures
        r.deep_view() == in_order(
            picked(tags.deep_view(), other_tag(), shared_field()),
            by_key(),
        ),
{
    let apart: Vec<String> = names_set_apart();
    let ghost s = tags.deep_view();
    let mut out: Vec<TagField> = nothing();
    proof {
        lemma_picked_start(s, other_tag(), shared_field());
    }
    let mut i: usize = 0;
    while i < tags.len()
        invariant
            i <= tags.len(),
            apart.deep_view() == set_apart(),
            s == tags.deep_view(),
            out.deep_view() == picked(s.take(i as int), other_tag(), shared_field()),
        decreases tags.len() - i,
    {
        proof {
            lemma_picked_step(s, i as int, other_tag(), shared_field());
        }
        if !text::among(&apart, tags[i].0.as_str()) {
            put(
                &mut out,
                TagField {
                    name: tags[i].0.clone(),
                    value: tags[i].1.clone(),
                    editable: true,
                    is_unique_per_track: false,
                },
            );
        }
        i = i + 1;
    }
    proof {
        assert(s.take(s.len() as int) =~= s);
    }
    sorted(out)
}

/// The fields of a track, from the tags that were read from its file.
pub fn track_to_tag_fields(track: &Track, read: Option<Vec<(String, String)>>) -> (r: Vec<
    TagField,
>)
    ensures
        r.deep_view() == fields_of_track(track.deep_view(), read.deep_view()),
{
    let tags: Vec<(String, String)> = match read {
        Some(t) => t,
        None => tags_of_index(track),
    };
    let ghost ts = tags.deep_view();
    let ghost l = leading_tags();
    let mut fields: Vec<TagField> = nothing();
    proof {
        lemma_leading(ts);
    }
    put_leading(&mut fields, &tags, "track_number", true);
    put_leading(&mut fields, &tags, "title", true);
    put_leading(&mut fields, &tags, "artist", false);
    put_leading(&mut fields, &tags, "album", false);
    put_leading(&mut fields, &tags, "album_artist", false);
    put_leading(&mut fields, &tags, "date", false);
    put_leading(&mut fields, &tags, "genre", false);
    put_leading(&mut fields, &tags, "isrc", false);
    put_all(&mut fields, other_fields(&tags));
    put(
        &mut fields,
        TagField {
            name: "New Tag".to_owned(),
            value: "[Press Enter to create]".to_owned(),
            editable: true,
            is_unique_per_track: false,
        },
    );
    fields
}

/// The leading fields one after the other.
proof fn lemma_leading(ts: Seq<(Seq<char>, Seq<char>)>)
    ensures
        all_leading_fields(ts, leading_tags()) == Seq::<FieldModel>::empty() + leading_fields(
            ts,
            "track_number"@,
            true,
        ) + leading_fields(ts, "title"@, true) + leading_fields(ts, "artist"@, false)
            + leading_fields(ts, "album"@, false) + leading_fields(ts, "album_artist"@, false)
            + leading_fields(ts, "date"@, false) + leading_fields(ts, "genre"@, false)
            + leading_fields(ts, "isrc"@, false),
{
    let l8 = leading_tags();
    let l7 = l8.drop_last();
    let l6 = l7.drop_last();
    let l5 = l6.drop_last();
    let l4 = l5.drop_last();
    let l3 = l4.drop_last();
    let l2 = l3.drop_last();
    let l1 = l2.drop_last();
    let l0 = l1.drop_last();
    assert(all_leading_fields(ts, l0) == Seq::<FieldModel>::empty());
    assert(all_leading_fields(ts, l1) == all_leading_fields(ts, l0) + leading_fields(
        ts,
        "track_number"@,
        true,
    ));
    assert(all_leading_fields(ts, l2) == all_leading_fields(ts, l1) + leading_fields(
        ts,
        "title"@,
        true,
    ));
    assert(all_leading_fields(ts, l3) == all_leading_fields(ts, l2) + leading_fields(
        ts,
        "artist"@,
        false,
    ));
    assert(all_leading_fields(ts, l4) == all_leading_fields(ts, l3) + leading_fields(
        ts,
        "album"@,
        false,
    ));
    assert(all_leading_fields(ts, l5) == all_leading_fields(ts, l4) + leading_fields(
        ts,
        "album_artist"@,
        false,
    ));
    assert(all_leading_fields(ts, l6) == all_leading_fields(ts, l5) + leading_fields(
        ts,
        "date"@,
        false,
    ));
    assert(all_leading_fields(ts, l7) == all_leading_fields(ts, l6) + leading_fields(
        ts,
        "genre"@,
        false,
    ));
    assert(all_leading_fields(ts, l8) == all_leading_fields(ts, l7) + leading_fields(
        ts,
        "isrc"@,
        false,
    ));
}

// ---------------------------------------------------------------------------
// Changes
// ---------------------------------------------------------------------------

/// Whether two fields at one place make a change: neither creates a tag, and
/// their values differ.
pub open spec fn changes_value(orig: FieldModel, curr: FieldModel) -> bool {
    orig.name != "New Tag"@ && curr.name != "New Tag"@ && orig.value != curr.value
}

/// The changes that the first `n` fields of a track make, place by place.
pub open spec fn field_changes(
    track_idx: usize,
    orig: Seq<FieldModel>,
    curr: Seq<FieldModel>,
    n: nat,
) -> Seq<TagChangeModel>
    decreases n,
{
    if n == 0 {
        Seq::empty()
    } else {
        let r = field_changes(track_idx, orig, curr, (n - 1) as nat);
        if changes_value(orig[n - 1], curr[n - 1]) {
            r.push(
                TagChangeModel {
                    track_idx,
                    field_name: curr[n - 1].name,
                    old_value: orig[n - 1].value,
                    new_value: curr[n - 1].value,
                },
            )
        } else {
            r
        }
    }
}

/// The smaller of two numbers.
pub open spec fn smaller(a: nat, b: nat) -> nat {
    if a < b {
        a
    } else {
        b
    }
}

/// The changes that the first `n` tracks make.
pub open spec fn track_changes(
    original: Seq<Seq<FieldModel>>,
    current: Seq<Seq<FieldModel>>,
    n: nat,
) -> Seq<TagChangeModel>
    decreases n,
{
    if n == 0 {
        Seq::empty()
    } else {
        track_changes(original, current, (n - 1) as nat) + field_changes(
            (n - 1) as usize,
            original[n - 1],
            current[n - 1],
            smaller(original[n - 1].len(), current[n - 1].len()),
        )
    }
}

/// All changes of the tracks that there is a before and an after of.
pub open spec fn changes_between(
    original: Seq<Seq<FieldModel>>,
    current: Seq<Seq<FieldModel>>,
) -> Seq<TagChangeModel> {
    track_changes(original, current, smaller(original.len(), current.len()))
}

/// The changes between the original and the current tags of all tracks.
pub fn compute_changes(original: &Vec<Vec<TagField>>, current: &Vec<Vec<TagField>>) -> (r: Vec<
    TagChange,
>)
    ensures
        r.deep_view() == changes_between(original.deep_view(), current.deep_view()),
{
    let mut changes: Vec<TagChange> = nothing();
    let n: usize = if original.len() < current.len() {
        original.len()
    } else {
        current.len()
    };
    let mut i: usize = 0;
    while i < n
        invariant
            i <= n <= original.len(),
            n <= current.len(),
            changes.deep_view() == track_changes(
                original.deep_view(),
                current.deep_view(),
                i as nat,
            ),
        decreases n - i,
    {
        let orig: &Vec<TagField> = &original[i];
        let curr: &Vec<TagField> = &current[i];
        let ghost o = orig.deep_view();
        let ghost c = curr.deep_view();
        let m: usize = if orig.len() < curr.len() {
            orig.len()
        } else {
            curr.len()
        };
        let mut made: Vec<TagChange> = nothing();
        let mut k: usize = 0;
        while k < m
            invariant
                k <= m <= orig.len(),
                m <= curr.len(),
                o == orig.deep_view(),
                c == curr.deep_view(),
                made.deep_view() == field_changes(i, o, c, k as nat),
            decreases m - k,
        {
            if !text::same(orig[k].name.as_str(), "New Tag") && !text::same(
                curr[k].name.as_str(),
                "New Tag",
            ) && !(orig[k].value == curr[k].value) {
                put(
                    &mut made,
                    TagChange {
                        track_idx: i,
                        field_name: curr[k].name.clone(),
                        old_value: orig[k].value.clone(),
                        new_value: curr[k].value.clone(),
                    },
                );
            }
            k = k + 1;
        }
        proof {
            assert(original.deep_view()[i as int] == o);
            assert(current.deep_view()[i as int] == c);
        }
        put_all(&mut changes, made);
        i = i + 1;
    }
    changes
}

/// What makes changes the same: the tag, the value before, the value after.
pub type ChangeKey = (Seq<char>, Seq<char>, Seq<char>);

/// The key of a change.
pub open spec fn key_of_change() -> spec_fn(TagChangeModel) -> ChangeKey {
    |c: TagChangeModel| (c.field_name, c.old_value, c.new_value)
}

/// The condition of having a key.
pub open spec fn keyed(key: ChangeKey) -> spec_fn(TagChangeModel) -> bool {
    |c: TagChangeModel| key_of_change()(c) == key
}

/// The track of a change.
pub open spec fn track_of() -> spec_fn(TagChangeModel) -> usize {
    |c: TagChangeModel| c.track_idx
}

/// The tracks that have a change.
pub open spec fn tracks_with(changes: Seq<TagChangeModel>, key: ChangeKey) -> Seq<usize> {
    picked(changes, keyed(key), track_of())
}

/// The different changes, in the order in which they first occur.
pub open spec fn change_keys(changes: Seq<TagChangeModel>) -> Seq<ChangeKey> {
    distinct(changes.map_values(key_of_change()))
}

/// The condition of being a change that occurs more than once.
pub open spec fn shared(changes: Seq<TagChangeModel>) -> spec_fn(ChangeKey) -> bool {
    |key: ChangeKey| tracks_with(changes, key).len() > 1
}

/// The condition of being a change that occurs once.
pub open spec fn lone(changes: Seq<TagChangeModel>) -> spec_fn(ChangeKey) -> bool {
    |key: ChangeKey| !(tracks_with(changes, key).len() > 1)
}

/// A change with the tracks that have it.
pub open spec fn group_of(changes: Seq<TagChangeModel>) -> spec_fn(ChangeKey) -> GroupedChangeModel {
    |key: ChangeKey|
        GroupedChangeModel {
            field_name: key.0,
            old_value: key.1,
            new_value: key.2,
            track_indices: tracks_with(changes, key),
        }
}

/// The condition of being a change of a tag of a track.
pub open spec fn change_at(track_idx: usize, field_name: Seq<char>) -> spec_fn(
    TagChangeModel,
) -> bool {
    |c: TagChangeModel| c.track_idx == track_idx && c.field_name == field_name
}

/// The first change of the tag of the track that has a change.
pub open spec fn single_of(changes: Seq<TagChangeModel>) -> spec_fn(ChangeKey) -> TagChangeModel {
    |key: ChangeKey|
        changes[first_place(
            changes,
            0,
            change_at(tracks_with(changes, key)[0], key.0),
        ) as int]
}

/// Whether a change has the key of another.
fn same_key(a: &TagChange, b: &TagChange) -> (r: bool)
    ensures
        r == (key_of_change()(a.deep_view()) == key_of_change()(b.deep_view())),
{
    a.field_name == b.field_name && a.old_value == b.old_value && a.new_value == b.new_value
}

/// The places where the different changes first occur.
fn first_occurrences(changes: &Vec<TagChange>) -> (r: Vec<usize>)
    ensures
        r.len() == change_keys(changes.deep_view()).len(),
        forall|k: int|
            0 <= k < r.len() ==> #[trigger] r[k] < changes.len() && key_of_change()(
                changes.deep_view()[r[k] as int],
            ) == change_keys(changes.deep_view())[k],
{
    let ghost s = changes.deep_view();
    let ghost keys = s.map_values(key_of_change());
    let mut out: Vec<usize> = Vec::new();
    proof {
        assert(keys.take(0) =~= Seq::<ChangeKey>::empty());
    }
    let mut i: usize = 0;
    while i < changes.len()
        invariant
            i <= changes.len(),
            s == changes.deep_view(),
            keys == s.map_values(key_of_change()),
            out.len() == distinct(keys.take(i as int)).len(),
            forall|k: int|
                0 <= k < out.len() ==> #[trigger] out[k] < changes.len() && keys[out[k] as int]
                    == distinct(keys.take(i as int))[k],
        decreases changes.len() - i,
    {
        let ghost seen = distinct(keys.take(i as int));
        proof {
            crate::lists::lemma_distinct_step(keys, i as int);
        }
        let mut k: usize = 0;
        let mut found: bool = false;
        while k < out.len()
            invariant
                k <= out.len(),
                i < changes.len(),
                s == changes.deep_view(),
                keys == s.map_values(key_of_change()),
                out.len() == seen.len(),
                forall|j: int|
                    0 <= j < out.len() ==> #[trigger] out[j] < changes.len()
                        && keys[out[j] as int] == seen[j],
                found == (exists|j: int| 0 <= j < k && #[trigger] seen[j] == keys[i as int]),
            decreases out.len() - k,
        {
            proof {
                assert(keys[out[k as int] as int] == seen[k as int]);
            }
            if same_key(&changes[out[k]], &changes[i]) {
                found = true;
            }
            k = k + 1;
        }
        proof {
            assert(found == seen.contains(keys[i as int]));
        }
        if !found {
            out.push(i);
        }
        i = i + 1;
    }
    proof {
        assert(keys.take(keys.len() as int) =~= keys);
    }
    out
}

/// The tracks that have the change at a place.
fn tracks_sharing(changes: &Vec<TagChange>, at: usize) -> (r: Vec<usize>)
    requires
        at < changes.len(),
    ensures
        r@ == tracks_with(changes.deep_view(), key_of_change()(changes.deep_view()[at as int])),
{
    let ghost s = changes.deep_view();
    let ghost key = key_of_change()(s[at as int]);
    let mut out: Vec<usize> = Vec::new();
    proof {
        lemma_picked_start(s, keyed(key), track_of());
    }
    let mut i: usize = 0;
    while i < changes.len()
        invariant
            i <= changes.len(),
            at < changes.len(),
            s == changes.deep_view(),
            key == key_of_change()(s[at as int]),
            out@ == picked(s.take(i as int), keyed(key), track_of()),
        decreases changes.len() - i,
    {
        proof {
            lemma_picked_step(s, i as int, keyed(key), track_of());
        }
        if same_key(&changes[i], &changes[at]) {
            out.push(changes[i].track_idx);
        }
        i = i + 1;
    }
    proof {
        assert(s.take(s.len() as int) =~= s);
    }
    out
}

/// The place of the first change of a tag of a track.
fn first_change(changes: &Vec<TagChange>, track_idx: usize, field_name: &str) -> (r: usize)
    ensures
        r == first_place(changes.deep_view(), 0, change_at(track_idx, field_name@)),
{
    let ghost s = changes.deep_view();
    let mut i: usize = 0;
    while i < changes.len() && !(changes[i].track_idx == track_idx && text::same(
        changes[i].field_name.as_str(),
        field_name,
    ))
        invariant
            i <= changes.len(),
            s == changes.deep_view(),
            first_place(s, 0, change_at(track_idx, field_name@)) == first_place(
                s,
                i as nat,
                change_at(track_idx, field_name@),
            ),
        decreases changes.len() - i,
    {
        i = i + 1;
    }
    i
}

/// A change that occurs has a track, and that track a change of its tag.
proof fn lemma_occurs(s: Seq<TagChangeModel>, at: int)
    requires
        0 <= at < s.len(),
    ensures
        tracks_with(s, key_of_change()(s[at])).len() > 0,
        first_place(
            s,
            0,
            change_at(tracks_with(s, key_of_change()(s[at]))[0], s[at].field_name),
        ) < s.len(),
{
    let key = key_of_change()(s[at]);
    let with = chosen(s, keyed(key));
    crate::lists::law_chosen(s, keyed(key));
    assert(keyed(key)(s[at]));
    assert(with.contains(s[at]));
    assert(keyed(key)(with[0]));
    assert(s.contains(with[0]));
    let k = choose|k: int| 0 <= k < s.len() && s[k] == with[0];
    let track = tracks_with(s, key)[0];
    assert(track == with[0].track_idx);
    assert(change_at(track, key.0)(s[k]));
    crate::lists::law_first_place(s, 0, change_at(track, key.0));
}

/// Parts changes into those that several tracks share, with their tracks, and
/// the others.
pub fn group_common_changes(changes: &Vec<TagChange>) -> (r: (Vec<GroupedChange>, Vec<TagChange>))
    ensures
        r.0.deep_view() == picked(
            change_keys(changes.deep_view()),
            shared(changes.deep_view()),
            group_of(changes.deep_view()),
        ),
        r.1.deep_view() == picked(
            change_keys(changes.deep_view()),
            lone(changes.deep_view()),
            single_of(changes.deep_view()),
        ),
        forall|g: GroupedChangeModel| #[trigger]
            r.0.deep_view().contains(g) ==> gathers(changes.deep_view(), g),
        apart(changes.deep_view()) ==> forall|i: int|
            0 <= i < changes.len() ==> (r.1.deep_view().contains(
                #[trigger] changes.deep_view()[i],
            ) <==> !is_common(changes.deep_view(), i)),
{
    let ghost s = changes.deep_view();
    let ghost keys = change_keys(s);
    let firsts: Vec<usize> = first_occurrences(changes);
    let mut grouped: Vec<GroupedChange> = nothing();
    let mut singles: Vec<TagChange> = nothing();
    proof {
        lemma_picked_start(keys, shared(s), group_of(s));
        lemma_picked_start(keys, lone(s), single_of(s));
    }
    let mut i: usize = 0;
    while i < firsts.len()
        invariant
            i <= firsts.len(),
            s == changes.deep_view(),
            keys == change_keys(s),
            firsts.len() == keys.len(),
            forall|k: int|
                0 <= k < firsts.len() ==> #[trigger] firsts[k] < changes.len()
                    && key_of_change()(s[firsts[k] as int]) == keys[k],
            grouped.deep_view() == picked(keys.take(i as int), shared(s), group_of(s)),
            singles.deep_view() == picked(keys.take(i as int), lone(s), single_of(s)),
        decreases firsts.len() - i,
    {
        let at: usize = firsts[i];
        proof {
            lemma_picked_step(keys, i as int, shared(s), group_of(s));
            lemma_picked_step(keys, i as int, lone(s), single_of(s));
            lemma_occurs(s, at as int);
        }
        let tracks: Vec<usize> = tracks_sharing(changes, at);
        if tracks.len() > 1 {
            put(
                &mut grouped,
                GroupedChange {
                    field_name: changes[at].field_name.clone(),
                    old_value: changes[at].old_value.clone(),
                    new_value: changes[at].new_value.clone(),
                    track_indices: tracks,
                },
            );
        } else {
            let f: usize = first_change(changes, tracks[0], changes[at].field_name.as_str());
            put(
                &mut singles,
                TagChange {
                    track_idx: changes[f].track_idx,
                    field_name: changes[f].field_name.clone(),
                    old_value: changes[f].old_value.clone(),
                    new_value: changes[f].new_value.clone(),
                },
            );
        }
        i = i + 1;
    }
    proof {
        assert(keys.take(keys.len() as int) =~= keys);
        assert forall|g: GroupedChangeModel| #[trigger] grouped.deep_view().contains(
            g,
        ) implies gathers(s, g) by {
            law_common_changes_are_grouped(s, g);
        }
        if apart(s) {
            assert forall|i: int| 0 <= i < changes.len() implies (singles.deep_view().contains(
                #[trigger] s[i],
            ) <==> !is_common(s, i)) by {
                law_every_change_is_shown(s, i);
            }
        }
    }
    (grouped, singles)
}

} // verus!
