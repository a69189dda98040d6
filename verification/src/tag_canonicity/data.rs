//! The variants of a tag, and the tracks that hold them.

use vstd::prelude::*;

use serde_json::Value;

use crate::json::{self, json, parsed, Json};
use crate::lists::{lemma_picked_start, lemma_picked_step, picked};
use crate::ordering::{in_order, sorted, Ranked};
use crate::screen::{nothing, put};
use crate::text::{self, text_before};

verus! {

/// A value of a tag, with how many tracks hold it.
#[derive(Debug)]
pub struct TagVariantEntry {
    /// The value
    pub value: String,
    /// How many tracks hold it
    pub count: usize,
}

/// The model of a [`TagVariantEntry`].
pub struct VariantModel {
    pub value: Seq<char>,
    pub count: usize,
}

impl DeepView for TagVariantEntry {
    type V = VariantModel;

    open spec fn deep_view(&self) -> VariantModel {
        VariantModel { value: self.value@, count: self.count }
    }
}

impl Clone for TagVariantEntry {
    fn clone(&self) -> (r: Self)
        ensures
            r.deep_view() == self.deep_view(),
    {
        TagVariantEntry { value: self.value.clone(), count: self.count }
    }
}

/// The commonest variant stands first; those that are as common stand in the
/// order of their values.
impl Ranked for TagVariantEntry {
    open spec fn precedes(a: VariantModel, b: VariantModel) -> bool {
        a.count > b.count || (a.count == b.count && text_before(a.value, b.value))
    }

    fn before(&self, other: &Self) -> (r: bool) {
        self.count > other.count || (self.count == other.count && text::comes_before(
            self.value.as_str(),
            other.value.as_str(),
        ))
    }
}

/// Whether one variant comes before another.
pub open spec fn by_count() -> spec_fn(VariantModel, VariantModel) -> bool {
    |a: VariantModel, b: VariantModel| TagVariantEntry::precedes(a, b)
}

/// A variant from a value and its count.
pub open spec fn variant() -> spec_fn((Seq<char>, usize)) -> VariantModel {
    |c: (Seq<char>, usize)| VariantModel { value: c.0, count: c.1 }
}

/// The variants of values with their counts, in order.
pub open spec fn ranked(counts: Seq<(Seq<char>, usize)>) -> Seq<VariantModel> {
    in_order(counts.map_values(variant()), by_count())
}

/// The variants of values with their counts, in order.
pub fn rank_variants(counts: &Vec<(String, usize)>) -> (r: Vec<TagVariantEntry>)
    ensures
        r.deep_view() == ranked(counts.deep_view()),
{
    let ghost s = counts.deep_view();
    let mut out: Vec<TagVariantEntry> = nothing();
    let mut i: usize = 0;
    while i < counts.len()
        invariant
            i <= counts.len(),
            s == counts.deep_view(),
            out.len() == i,
            forall|k: int| 0 <= k < i ==> (#[trigger] out[k]).deep_view() == variant()(s[k]),
        decreases counts.len() - i,
    {
        let entry: TagVariantEntry = TagVariantEntry {
            value: counts[i].0.clone(),
            count: counts[i].1,
        };
        proof {
            assert(entry.deep_view() == variant()(s[i as int]));
        }
        out.push(entry);
        i = i + 1;
    }
    proof {
        assert(out.deep_view() =~= s.map_values(variant()));
    }
    sorted(out)
}

/// Values of a tag that should be one.
#[derive(Debug)]
pub struct TagCollision {
    pub tag_name: String,
    pub variant_counts: Vec<(String, usize)>,
}

/// An album whose tracks do not agree on its artist.
#[derive(Debug)]
pub struct AlbumArtistIssue {
    pub album: String,
    pub artist_variants: Vec<(String, usize)>,
    pub track_ids: Vec<i64>,
}

/// What a signal is about.
#[derive(Debug, Clone, Copy, PartialEq, Eq, Structural)]
pub enum AggregateSignalType {
    /// A tag with several spellings
    TagCanonicity,
    /// An album whose tracks name different album artists
    InconsistentAlbumArtist,
}

/// A signal over several tracks, with what is known of it as JSON.
#[derive(Debug)]
pub struct AggregateSignal {
    pub signal_type: AggregateSignalType,
    pub metadata_json: Option<String>,
}

/// What the modal works on.
#[derive(Debug)]
pub struct TagCanonicalityModalData {
    /// The tag
    pub tag_name: String,
    /// What the tracks have in common
    pub context_label: Option<String>,
    /// The variants, the commonest first
    pub variants: Vec<TagVariantEntry>,
    /// The tracks
    pub track_ids: Vec<i64>,
}

/// The model of a [`TagCanonicalityModalData`].
pub struct ModalDataModel {
    pub tag_name: Seq<char>,
    pub context_label: Option<Seq<char>>,
    pub variants: Seq<VariantModel>,
    pub track_ids: Seq<i64>,
}

impl DeepView for TagCanonicalityModalData {
    type V = ModalDataModel;

    open spec fn deep_view(&self) -> ModalDataModel {
        ModalDataModel {
            tag_name: self.tag_name@,
            context_label: self.context_label.deep_view(),
            variants: self.variants.deep_view(),
            track_ids: self.track_ids@,
        }
    }
}

/// The value of the first variant, or nothing.
pub open spec fn first_value(variants: Seq<VariantModel>) -> Seq<char> {
    if variants.len() > 0 {
        variants[0].value
    } else {
        Seq::empty()
    }
}

/// The value of the first variant, or nothing.
pub fn most_common(variants: &Vec<TagVariantEntry>) -> (r: String)
    ensures
        r@ == first_value(variants.deep_view()),
{
    if variants.len() > 0 {
        variants[0].value.clone()
    } else {
        let r: String = String::new();
        proof {
            assert(r@ =~= Seq::<char>::empty());
        }
        r
    }
}

/// The condition of a count's being a whole number from zero.
pub open spec fn is_count() -> spec_fn((Seq<char>, Json)) -> bool {
    |e: (Seq<char>, Json)| e.1.as_natural() is Some
}

/// A value with its count.
pub open spec fn value_and_count() -> spec_fn((Seq<char>, Json)) -> (Seq<char>, usize) {
    |e: (Seq<char>, Json)| (e.0, e.1.as_natural()->0 as usize)
}

/// The values of an object with their counts. What is not a count is left out.
pub open spec fn counts_in(j: Json) -> Option<Seq<(Seq<char>, usize)>> {
    match j {
        Json::Object(entries) => Some(picked(entries, is_count(), value_and_count())),
        _ => None,
    }
}

/// The condition of being a whole number.
pub open spec fn is_id() -> spec_fn(Json) -> bool {
    |j: Json| j.as_whole() is Some
}

/// The whole number.
pub open spec fn id() -> spec_fn(Json) -> i64 {
    |j: Json| j.as_whole()->0
}

/// The tracks that are named under `track_ids`. What is not a number is left
/// out, and there are none where there is no list.
pub open spec fn ids_in(j: Json) -> Seq<i64> {
    match j.get("track_ids"@) {
        Some(Json::List(items)) => picked(items, is_id(), id()),
        _ => Seq::empty(),
    }
}

/// The text under a key, if there is one.
pub open spec fn text_in(j: Json, key: Seq<char>) -> Option<Seq<char>> {
    match j.get(key) {
        Some(v) => v.as_text(),
        None => None,
    }
}

/// The counts under a key, if there is an object.
pub open spec fn counts_under(j: Json, key: Seq<char>) -> Option<Seq<(Seq<char>, usize)>> {
    match j.get(key) {
        Some(v) => counts_in(v),
        None => None,
    }
}

impl ModalDataModel {
    /// What a signal's JSON tells. A signal on an album artist needs its
    /// variants; any other needs the name of a tag and its variants.
    pub open spec fn told(kind: AggregateSignalType, j: Json) -> Option<ModalDataModel> {
        if kind == AggregateSignalType::InconsistentAlbumArtist {
            match counts_under(j, "album_artist_variants"@) {
                Some(counts) => Some(
                    ModalDataModel {
                        tag_name: "album_artist"@,
                        context_label: text_in(j, "album"@),
                        variants: ranked(counts),
                        track_ids: ids_in(j),
                    },
                ),
                None => None,
            }
        } else {
            match (text_in(j, "tag_name"@), counts_under(j, "variants"@)) {
                (Some(tag_name), Some(counts)) => Some(
                    ModalDataModel {
                        tag_name,
                        context_label: text_in(j, "context"@),
                        variants: ranked(counts),
                        track_ids: ids_in(j),
                    },
                ),
                _ => None,
            }
        }
    }

    /// What a signal tells: nothing where it has no JSON, or what it has is none.
    pub open spec fn signalled(
        kind: AggregateSignalType,
        metadata: Option<Seq<char>>,
    ) -> Option<ModalDataModel> {
        match metadata {
            Some(s) => match parsed(s) {
                Some(j) => ModalDataModel::told(kind, j),
                None => None,
            },
            None => None,
        }
    }
}

/// The text under a key, if there is one.
fn read_text(v: &Value, key: &str) -> (r: Option<String>)
    ensures
        r.deep_view() == text_in(json(*v), key@),
{
    match json::get(v, key) {
        Some(x) => match json::as_text(x) {
            Some(s) => Some(s.to_owned()),
            None => None,
        },
        None => None,
    }
}

/// The counts under a key, if there is an object.
fn read_counts(v: &Value, key: &str) -> (r: Option<Vec<(String, usize)>>)
    ensures
        r.deep_view() == counts_under(json(*v), key@),
{
    let under: &Value = match json::get(v, key) {
        Some(x) => x,
        None => {
            return None;
        },
    };
    let entries: Vec<(&String, &Value)> = match json::entries(under) {
        Some(es) => es,
        None => {
            return None;
        },
    };
    let ghost s = json(*under)->Object_0;
    let mut out: Vec<(String, usize)> = nothing();
    proof {
        lemma_picked_start(s, is_count(), value_and_count());
    }
    let mut i: usize = 0;
    while i < entries.len()
        invariant
            i <= entries.len(),
            s == entries@.map_values(|e: (&String, &Value)| (e.0@, json(*e.1))),
            out.deep_view() == picked(s.take(i as int), is_count(), value_and_count()),
        decreases entries.len() - i,
    {
        proof {
            lemma_picked_step(s, i as int, is_count(), value_and_count());
            assert(s[i as int] == (entries[i as int].0@, json(*entries[i as int].1)));
        }
        if let Some(n) = json::as_natural(entries[i].1) {
            let pair: (String, usize) = (entries[i].0.clone(), n as usize);
            proof {
                assert(pair.deep_view() == value_and_count()(s[i as int]));
            }
            put(&mut out, pair);
        }
        i = i + 1;
    }
    proof {
        assert(s.take(s.len() as int) =~= s);
    }
    Some(out)
}

/// The tracks that are named.
fn read_ids(v: &Value) -> (r: Vec<i64>)
    ensures
        r@ == ids_in(json(*v)),
{
    let under: &Value = match json::get(v, "track_ids") {
        Some(x) => x,
        None => {
            return Vec::new();
        },
    };
    let items: &Vec<Value> = match json::as_list(under) {
        Some(items) => items,
        None => {
            return Vec::new();
        },
    };
    let ghost s = json(*under)->List_0;
    let mut out: Vec<i64> = Vec::new();
    proof {
        lemma_picked_start(s, is_id(), id());
    }
    let mut i: usize = 0;
    while i < items.len()
        invariant
            i <= items.len(),
            s == items@.map_values(|x: Value| json(x)),
            out@ == picked(s.take(i as int), is_id(), id()),
        decreases items.len() - i,
    {
        proof {
            lemma_picked_step(s, i as int, is_id(), id());
            assert(s[i as int] == json(items[i as int]));
        }
        if let Some(n) = json::as_whole(&items[i]) {
            out.push(n);
        }
        i = i + 1;
    }
    proof {
        assert(s.take(s.len() as int) =~= s);
    }
    out
}

impl TagCanonicalityModalData {
    /// The data of a tag with these variants.
    pub fn from_counts(
        tag_name: String,
        context_label: Option<String>,
        counts: &Vec<(String, usize)>,
        track_ids: Vec<i64>,
    ) -> (r: Self)
        ensures
            r.deep_view() == (ModalDataModel {
                tag_name: tag_name@,
                context_label: context_label.deep_view(),
                variants: ranked(counts.deep_view()),
                track_ids: track_ids@,
            }),
    {
        TagCanonicalityModalData {
            tag_name,
            context_label,
            variants: rank_variants(counts),
            track_ids,
        }
    }

    /// The data of values that should be one. The tracks are not known from it.
    pub fn from_collision(collision: &TagCollision) -> (r: Self)
        ensures
            r.deep_view() == (ModalDataModel {
                tag_name: collision.tag_name@,
                context_label: None,
                variants: ranked(collision.variant_counts.deep_view()),
                track_ids: Seq::empty(),
            }),
    {
        Self::from_counts(
            collision.tag_name.clone(),
            None,
            &collision.variant_counts,
            Vec::new(),
        )
    }

    /// The data of an album whose artist is to be set.
    pub fn from_album_artist_issue(issue: &AlbumArtistIssue) -> (r: Self)
        ensures
            r.deep_view() == (ModalDataModel {
                tag_name: "album_artist"@,
                context_label: Some("Album: "@ + issue.album@),
                variants: ranked(issue.artist_variants.deep_view()),
                track_ids: issue.track_ids@,
            }),
    {
        let mut track_ids: Vec<i64> = Vec::new();
        let mut i: usize = 0;
        while i < issue.track_ids.len()
            invariant
                i <= issue.track_ids.len(),
                track_ids@ == issue.track_ids@.take(i as int),
            decreases issue.track_ids.len() - i,
        {
            track_ids.push(issue.track_ids[i]);
            i = i + 1;
            proof {
                assert(issue.track_ids@.take(i as int) =~= issue.track_ids@.take(i - 1).push(
                    issue.track_ids[i - 1],
                ));
            }
        }
        proof {
            assert(issue.track_ids@.take(i as int) =~= issue.track_ids@);
        }
        Self::from_counts(
            "album_artist".to_owned(),
            Some(text::cat2("Album: ", issue.album.as_str())),
            &issue.artist_variants,
            track_ids,
        )
    }

    /// The data of a signal's JSON, if it has what is needed.
    pub fn from_json(kind: AggregateSignalType, v: &Value) -> (r: Option<Self>)
        ensures
            r.deep_view() == ModalDataModel::told(kind, json(*v)),
    {
        if kind == AggregateSignalType::InconsistentAlbumArtist {
            match read_counts(v, "album_artist_variants") {
                Some(counts) => Some(
                    Self::from_counts(
                        "album_artist".to_owned(),
                        read_text(v, "album"),
                        &counts,
                        read_ids(v),
                    ),
                ),
                None => None,
            }
        } else {
            match read_text(v, "tag_name") {
                Some(tag_name) => match read_counts(v, "variants") {
                    Some(counts) => Some(
                        Self::from_counts(tag_name, read_text(v, "context"), &counts, read_ids(v)),
                    ),
                    None => None,
                },
                None => None,
            }
        }
    }

    /// The data of a signal, if it has what is needed.
    pub fn from_signal(signal: &AggregateSignal) -> (r: Option<Self>)
        ensures
            r.deep_view() == ModalDataModel::signalled(
                signal.signal_type,
                signal.metadata_json.deep_view(),
            ),
    {
        match &signal.metadata_json {
            Some(s) => match json::parse(s.as_str()) {
                Some(v) => Self::from_json(signal.signal_type, &v),
                None => None,
            },
            None => None,
        }
    }

    /// The value to begin with: the commonest, and of several the first in
    /// order; nothing where there are no variants.
    pub fn default_canonical(&self) -> (r: String)
        ensures
            r@ == first_value(self.deep_view().variants),
    {
        most_common(&self.variants)
    }
}

/// The variants stand in order, the commonest first, and none is lost.
pub proof fn law_variants_in_order(counts: Seq<(Seq<char>, usize)>)
    ensures
        crate::ordering::is_ordered(ranked(counts), by_count()),
        ranked(counts).len() == counts.len(),
        ranked(counts).to_multiset() == counts.map_values(variant()).to_multiset(),
{
    let s = counts.map_values(variant());
    assert forall|a: VariantModel| !#[trigger] by_count()(a, a) by {
        text::law_text_before_irreflexive(a.value);
    }
    assert forall|a: VariantModel, b: VariantModel, c: VariantModel| #[trigger]
        by_count()(a, b) && #[trigger] by_count()(b, c) implies by_count()(a, c) by {
        if a.count == b.count && b.count == c.count {
            text::law_text_before_transitive(a.value, b.value, c.value);
        }
    }
    assert forall|a: VariantModel, b: VariantModel, c: VariantModel|
        !#[trigger] by_count()(a, b) && !#[trigger] by_count()(b, c) implies !by_count()(a, c) by {
        text::law_text_before_total(a.value, b.value);
        text::law_text_before_total(b.value, c.value);
        if by_count()(a, c) && a.count == c.count {
            if a.value == b.value || b.value == c.value {
            } else {
                text::law_text_before_transitive(c.value, b.value, a.value);
                text::law_text_before_transitive(a.value, c.value, a.value);
                text::law_text_before_irreflexive(a.value);
            }
        }
    }
    crate::ordering::law_in_order(s, by_count());
}

/// The value to begin with is held by at least as many tracks as any other.
pub proof fn law_default_is_commonest(counts: Seq<(Seq<char>, usize)>, i: int)
    requires
        0 <= i < counts.len(),
    ensures
        ranked(counts).len() > 0,
        first_value(ranked(counts)) == ranked(counts)[0].value,
        ranked(counts)[0].count >= counts[i].1,
{
    law_variants_in_order(counts);
    let s = counts.map_values(variant());
    let x = s[i];
    crate::ordering::law_in_order(s, by_count());
    assert(s.contains(x));
    broadcast use vstd::seq_lib::group_to_multiset_ensures;

    assert(s.to_multiset().count(x) > 0);
    assert(ranked(counts).to_multiset().count(x) > 0);
    assert(ranked(counts).contains(x));
    let k = choose|k: int| 0 <= k < ranked(counts).len() && ranked(counts)[k] == x;
    if k > 0 {
        assert(!by_count()(ranked(counts)[k], ranked(counts)[0]));
    }
}

/// The variants are those that were counted, the commoner first, and of equally
/// common ones the lesser text first.
pub proof fn law_commoner_variants_first(counts: Seq<(Seq<char>, usize)>)
    ensures
        ranked(counts).len() == counts.len(),
        forall|v: VariantModel| #[trigger]
            ranked(counts).contains(v) <==> counts.contains((v.value, v.count)),
        forall|i: int, j: int|
            0 <= i < j < ranked(counts).len() ==> (#[trigger] ranked(counts)[i]).count >= (
            #[trigger] ranked(counts)[j]).count,
        forall|i: int, j: int|
            0 <= i < j < ranked(counts).len() && (#[trigger] ranked(counts)[i]).count == (
            #[trigger] ranked(counts)[j]).count ==> !text_before(
                ranked(counts)[j].value,
                ranked(counts)[i].value,
            ),
{
    law_variants_in_order(counts);
    let all = counts.map_values(variant());
    crate::ordering::law_in_order_contains(all, by_count());
    assert forall|v: VariantModel| #[trigger] ranked(counts).contains(v) <==> counts.contains(
        (v.value, v.count),
    ) by {
        if all.contains(v) {
            let k = choose|k: int| 0 <= k < all.len() && all[k] == v;
            assert(counts[k] == (v.value, v.count));
        }
        if counts.contains((v.value, v.count)) {
            let k = choose|k: int| 0 <= k < counts.len() && counts[k] == (v.value, v.count);
            assert(all[k] == v);
        }
    }
    let r = ranked(counts);
    assert forall|i: int, j: int| 0 <= i < j < r.len() implies !by_count()(
        #[trigger] r[j],
        #[trigger] r[i],
    ) by {}
}

/// What a signal says is taken over: of an album the artists, of any other the tag
/// and its variants, and of both the tracks. One that lacks them says nothing.
pub proof fn law_signal_is_taken_over(kind: AggregateSignalType, j: Json)
    ensures
        ({
            let r = ModalDataModel::told(kind, j);
            let artists = kind == AggregateSignalType::InconsistentAlbumArtist;
            let variants = if artists {
                j.get("album_artist_variants"@)
            } else {
                j.get("variants"@)
            };
            let name = j.get("tag_name"@);
            &&& r is Some <==> variants is Some && variants->0 is Object && (artists || (
            name is Some && name->0.as_text() is Some))
            &&& r is Some && artists ==> r->0.tag_name == "album_artist"@
            &&& r is Some && !artists ==> Some(r->0.tag_name) == name->0.as_text()
            &&& r is Some ==> r->0.variants == ranked(
                picked(variants->0->Object_0, is_count(), value_and_count()),
            )
            &&& r is Some && artists && j.get("album"@) is Some ==> r->0.context_label == j.get(
                "album"@,
            )->0.as_text()
            &&& r is Some && !artists && j.get("context"@) is Some ==> r->0.context_label == j.get(
                "context"@,
            )->0.as_text()
            &&& r is Some && j.get("track_ids"@) is Some && j.get("track_ids"@)->0 is List
                ==> forall|n: i64| #[trigger]
                r->0.track_ids.contains(n) <==> exists|k: int|
                    0 <= k < j.get("track_ids"@)->0->List_0.len() && (#[trigger] j.get(
                        "track_ids"@,
                    )->0->List_0[k]).as_whole() == Some(n)
        }),
{
    let r = ModalDataModel::told(kind, j);
    if r is Some && j.get("track_ids"@) is Some && j.get("track_ids"@)->0 is List {
        let items = j.get("track_ids"@)->0->List_0;
        crate::lists::law_picked(items, is_id(), id());
        assert(r->0.track_ids == picked(items, is_id(), id()));
        assert forall|n: i64| #[trigger] r->0.track_ids.contains(n) <==> exists|k: int|
            0 <= k < items.len() && (#[trigger] items[k]).as_whole() == Some(n) by {
            if r->0.track_ids.contains(n) {
                let k = choose|k: int|
                    0 <= k < items.len() && is_id()(#[trigger] items[k]) && id()(items[k]) == n;
                assert(items[k].as_whole() == Some(n));
            }
            if exists|k: int| 0 <= k < items.len() && (#[trigger] items[k]).as_whole() == Some(n) {
                let k = choose|k: int|
                    0 <= k < items.len() && (#[trigger] items[k]).as_whole() == Some(n);
                assert(is_id()(items[k]) && id()(items[k]) == n);
            }
        }
    }
}

/// A signal is read from its metadata: without any, or with what is no JSON, it
/// says nothing.
pub proof fn law_signal_is_read_from_its_metadata(kind: AggregateSignalType, s: Seq<char>, j: Json)
    ensures
        ModalDataModel::signalled(kind, None) is None,
        parsed(s) is None ==> ModalDataModel::signalled(kind, Some(s)) is None,
        parsed(s) == Some(j) ==> ModalDataModel::signalled(kind, Some(s)) == ModalDataModel::told(
            kind,
            j,
        ),
{
}

} // verus!
