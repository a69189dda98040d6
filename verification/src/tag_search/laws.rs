//! What a search promises: which files it finds, and how the view answers.

use vstd::prelude::*;

use crate::input::InputAction;
use crate::lists::{chosen, law_chosen, law_first_place};
use crate::ordering::{law_in_order, law_in_order_contains};
use crate::tag_search::evaluate::{digits_value, fits, is_digit, law_percent_skips, meets, meets_all, parsed, tag_key, unsigned_part, TaggedFileModel};
use crate::tag_search::state::{by_file_path, found_by, known_tags, starting, SearchModel};
use crate::tag_search::types::{ComparisonOperator, ConditionModel, ConditionType, FileFormat, FileTypeCategory, LogicalOperator, QueryFieldFocus, SearchAnswer, TagSearchModal, TagSearchMode};
use crate::text::{begins_with, decimal, digit, holds, lowercase, signed_decimal, text_before};

verus! {

// ---------------------------------------------------------------------------
// Numbers
// ---------------------------------------------------------------------------

proof fn lemma_written_digits(n: nat)
    ensures
        decimal(n).len() > 0,
        digits_value(decimal(n)) == n,
        forall|i: int| 0 <= i < decimal(n).len() ==> is_digit(#[trigger] decimal(n)[i]),
    decreases n,
{
    let d = n % 10;
    assert(is_digit(digit(d)) && (digit(d) as u8 - '0' as u8) == d);
    if n >= 10 {
        lemma_written_digits(n / 10);
        let s = decimal(n);
        assert(s.drop_last() =~= decimal(n / 10));
        assert(s.last() == digit(d));
    } else {
        let s = decimal(n);
        assert(s.drop_last() =~= Seq::<char>::empty());
        assert(digits_value(s.drop_last()) == 0);
        assert(s.last() == digit(n));
    }
}

/// A number that is written out is read as itself.
pub proof fn law_number_is_read_as_written(n: i64)
    ensures
        parsed(signed_decimal(n as int)) == Some(n),
{
    let s = signed_decimal(n as int);
    if n < 0 {
        lemma_written_digits((-n) as nat);
        assert(unsigned_part(s) =~= decimal((-n) as nat));
    } else {
        lemma_written_digits(n as nat);
        assert(is_digit(decimal(n as nat)[0]));
        assert(unsigned_part(s) == s);
    }
}

/// What is no number is not read as one: nothing at all, and anything with a
/// character in it that is neither a digit nor a sign at its start.
pub proof fn law_only_numbers_are_read(s: Seq<char>, i: int)
    ensures
        s.len() == 0 ==> parsed(s) is None,
        0 <= i < s.len() && !is_digit(s[i]) && (i > 0 || (s[i] != '-' && s[i] != '+'))
            ==> parsed(s) is None,
{
    if 0 <= i < s.len() && !is_digit(s[i]) && (i > 0 || (s[i] != '-' && s[i] != '+')) {
        let d = unsigned_part(s);
        if d.len() < s.len() {
            assert(d[i - 1] == s[i]);
            assert(!is_digit(d[i - 1]));
        } else {
            assert(!is_digit(d[i]));
        }
    }
}

// ---------------------------------------------------------------------------
// Conditions
// ---------------------------------------------------------------------------

/// A condition on the sample rate or the bitrate with numbers at both ends is met
/// exactly by the files whose sample rate, or bitrate, lies between them, the ends
/// being inside. A file of which it is not known counts as having none.
pub proof fn law_range_is_met_inside(f: TaggedFileModel, c: ConditionModel, low: i64, high: i64)
    requires
        c.condition_type == ConditionType::SampleRate || c.condition_type
            == ConditionType::Bitrate,
        c.range_min.value == signed_decimal(low as int),
        c.range_max.value == signed_decimal(high as int),
    ensures
        c.condition_type == ConditionType::SampleRate ==> (f.audio_file.sample_rate matches Some(
            r,
        ) ==> (meets(f, c) <==> low <= r <= high)),
        c.condition_type == ConditionType::SampleRate && f.audio_file.sample_rate is None ==> (
        meets(f, c) <==> low <= 0 <= high),
        c.condition_type == ConditionType::Bitrate ==> (f.audio_file.bitrate_kbps matches Some(b)
            ==> (meets(f, c) <==> low <= b <= high)),
        c.condition_type == ConditionType::Bitrate && f.audio_file.bitrate_kbps is None ==> (
        meets(f, c) <==> low <= 0 <= high),
{
    law_number_is_read_as_written(low);
    law_number_is_read_as_written(high);
}

/// A condition on the length is met exactly by the files that last as many whole
/// seconds as lie between its ends.
pub proof fn law_length_is_met_inside(f: TaggedFileModel, c: ConditionModel, low: i64, high: i64)
    requires
        c.condition_type == ConditionType::Duration,
        c.range_min.value == signed_decimal(low as int),
        c.range_max.value == signed_decimal(high as int),
    ensures
        f.audio_file.duration_ms matches Some(ms) ==> ms >= 0 ==> (meets(f, c) <==> 1000 * low
            < ms + 1 && low <= ms / 1000 && ms / 1000 <= high),
        f.audio_file.duration_ms matches Some(ms) ==> ms >= 0 && low >= 0 && high >= 0 ==> (meets(
            f,
            c,
        ) <==> 1000 * low <= ms < 1000 * (high + 1)),
        f.audio_file.duration_ms is None ==> (meets(f, c) <==> low <= 0 <= high),
{
    law_number_is_read_as_written(low);
    law_number_is_read_as_written(high);
}

/// An end of a range that is left empty, or is no number, sets no limit.
pub proof fn law_open_ends_set_no_limit(f: TaggedFileModel, c: ConditionModel, n: i64)
    requires
        c.condition_type == ConditionType::SampleRate || c.condition_type == ConditionType::Bitrate
            || c.condition_type == ConditionType::Duration,
    ensures
        c.range_min.value.len() == 0 && c.range_max.value.len() == 0 ==> meets(f, c),
        c.condition_type == ConditionType::SampleRate && c.range_min.value.len() == 0
            && c.range_max.value == signed_decimal(n as int) ==> (
        f.audio_file.sample_rate matches Some(r) ==> (meets(f, c) <==> r <= n)),
        c.condition_type == ConditionType::SampleRate && c.range_max.value.len() == 0
            && c.range_min.value == signed_decimal(n as int) ==> (
        f.audio_file.sample_rate matches Some(r) ==> (meets(f, c) <==> n <= r)),
        c.condition_type == ConditionType::Bitrate && c.range_min.value.len() == 0
            && c.range_max.value == signed_decimal(n as int) ==> (
        f.audio_file.bitrate_kbps matches Some(b) ==> (meets(f, c) <==> b <= n)),
        c.condition_type == ConditionType::Bitrate && c.range_max.value.len() == 0
            && c.range_min.value == signed_decimal(n as int) ==> (
        f.audio_file.bitrate_kbps matches Some(b) ==> (meets(f, c) <==> n <= b)),
{
    law_number_is_read_as_written(n);
    law_only_numbers_are_read(c.range_min.value, 0);
    law_only_numbers_are_read(c.range_max.value, 0);
}

/// Whether a condition is met depends on nothing but what it is about: on the
/// sample rate, the bitrate, the length, the type or the tags alone.
pub proof fn law_conditions_look_at_one_thing(
    f: TaggedFileModel,
    g: TaggedFileModel,
    c: ConditionModel,
)
    ensures
        c.condition_type == ConditionType::SampleRate && f.audio_file.sample_rate
            == g.audio_file.sample_rate ==> meets(f, c) == meets(g, c),
        c.condition_type == ConditionType::Bitrate && f.audio_file.bitrate_kbps
            == g.audio_file.bitrate_kbps ==> meets(f, c) == meets(g, c),
        c.condition_type == ConditionType::Duration && f.audio_file.duration_ms
            == g.audio_file.duration_ms ==> meets(f, c) == meets(g, c),
        c.condition_type == ConditionType::FileType && f.audio_file.file_type
            == g.audio_file.file_type ==> meets(f, c) == meets(g, c),
        c.condition_type == ConditionType::Tag && f.tags == g.tags ==> meets(f, c) == meets(g, c),
{
}

/// A condition on a tag is held against the value that the file has under the name
/// of the tag, without regard to case: IS is met by the same value, NOT by another,
/// CONTAINS by one with the text somewhere inside, LIKE by one that fits the
/// pattern.
pub proof fn law_tag_is_compared(f: TaggedFileModel, c: ConditionModel, k: int)
    requires
        c.condition_type == ConditionType::Tag,
        c.tag_name.value.len() > 0,
        c.value.value.len() > 0,
        0 <= k < f.tags.len(),
        f.tags[k].0 == lowercase(c.tag_name.value),
        forall|j: int| 0 <= j < k ==> (#[trigger] f.tags[j]).0 != lowercase(c.tag_name.value),
    ensures
        c.comparison == ComparisonOperator::Is ==> (meets(f, c) <==> lowercase(f.tags[k].1)
            == lowercase(c.value.value)),
        c.comparison == ComparisonOperator::Not ==> (meets(f, c) <==> lowercase(f.tags[k].1)
            != lowercase(c.value.value)),
        c.comparison == ComparisonOperator::Contains ==> (meets(f, c) <==> exists|i: int|
            0 <= i <= lowercase(f.tags[k].1).len() - lowercase(c.value.value).len()
                && #[trigger] lowercase(f.tags[k].1).subrange(
                i,
                i + lowercase(c.value.value).len(),
            ) == lowercase(c.value.value)),
        c.comparison == ComparisonOperator::Like ==> (meets(f, c) <==> fits(
            lowercase(f.tags[k].1),
            lowercase(c.value.value),
        )),
{
    let p = tag_key(lowercase(c.tag_name.value));
    law_first_place(f.tags, 0, p);
    let i = crate::lists::first_place(f.tags, 0, p);
    assert(p(f.tags[k]));
    assert(i <= k);
    assert(p(f.tags[i as int]));
}

/// A file without the tag meets NOT and nothing else; a condition without a name
/// or a value is met by every file.
pub proof fn law_missing_tags_and_empty_conditions(f: TaggedFileModel, c: ConditionModel)
    requires
        c.condition_type == ConditionType::Tag,
    ensures
        c.tag_name.value.len() == 0 || c.value.value.len() == 0 ==> meets(f, c),
        c.tag_name.value.len() > 0 && c.value.value.len() > 0 && (forall|j: int|
            0 <= j < f.tags.len() ==> (#[trigger] f.tags[j]).0 != lowercase(c.tag_name.value))
            ==> (meets(f, c) <==> c.comparison == ComparisonOperator::Not),
{
    law_first_place(f.tags, 0, tag_key(lowercase(c.tag_name.value)));
}

/// A condition on the type is met by the types of its category, in any case.
pub proof fn law_types_of_categories(f: TaggedFileModel, c: ConditionModel)
    requires
        c.condition_type == ConditionType::FileType,
    ensures
        c.file_type_category == FileTypeCategory::Any ==> meets(f, c),
        c.file_type_category == FileTypeCategory::Lossless ==> ({
            let t = lowercase(f.audio_file.file_type);
            meets(f, c) <==> t == "flac"@ || t == "wav"@ || t == "alac"@ || t == "aiff"@ || t
                == "ape"@
        }),
        c.file_type_category == FileTypeCategory::Lossy ==> ({
            let t = lowercase(f.audio_file.file_type);
            meets(f, c) <==> t == "mp3"@ || t == "opus"@ || t == "ogg"@ || t == "aac"@ || t
                == "m4a"@
        }),
        c.file_type_category == FileTypeCategory::Specific(FileFormat::Flac) ==> (meets(f, c)
            <==> lowercase(f.audio_file.file_type) == "flac"@),
        c.file_type_category == FileTypeCategory::Specific(FileFormat::Mp3) ==> (meets(f, c)
            <==> lowercase(f.audio_file.file_type) == "mp3"@),
        c.file_type_category == FileTypeCategory::Specific(FileFormat::Opus) ==> (meets(f, c)
            <==> lowercase(f.audio_file.file_type) == "opus"@),
        c.file_type_category == FileTypeCategory::Specific(FileFormat::Ogg) ==> (meets(f, c)
            <==> lowercase(f.audio_file.file_type) == "ogg"@),
        c.file_type_category == FileTypeCategory::Specific(FileFormat::Wav) ==> (meets(f, c)
            <==> lowercase(f.audio_file.file_type) == "wav"@),
        c.file_type_category == FileTypeCategory::Specific(FileFormat::Aac) ==> (meets(f, c)
            <==> lowercase(f.audio_file.file_type) == "aac"@ || lowercase(f.audio_file.file_type)
            == "m4a"@),
{
}

/// Conditions are joined from the first to the last, each by its own operator to
/// all before it; the operator of the first says nothing.
pub proof fn law_conditions_are_joined_in_turn(
    f: TaggedFileModel,
    conditions: Seq<ConditionModel>,
    c: ConditionModel,
)
    ensures
        meets_all(f, Seq::empty()),
        meets_all(f, seq![c]) == meets(f, c),
        conditions.len() > 0 && c.operator == LogicalOperator::And ==> (meets_all(
            f,
            conditions.push(c),
        ) <==> meets_all(f, conditions) && meets(f, c)),
        conditions.len() > 0 && c.operator == LogicalOperator::Or ==> (meets_all(
            f,
            conditions.push(c),
        ) <==> meets_all(f, conditions) || meets(f, c)),
        conditions.len() > 0 && c.operator == LogicalOperator::Xor ==> (meets_all(
            f,
            conditions.push(c),
        ) <==> (meets_all(f, conditions) && !meets(f, c)) || (!meets_all(f, conditions) && meets(
            f,
            c,
        ))),
{
    assert(conditions.push(c).drop_last() =~= conditions);
}

/// A pattern is held against a value character by character: an underscore stands
/// for any one, and what is neither that nor a percent sign for itself.
pub proof fn law_patterns_character_by_character(value: Seq<char>, c: char, rest: Seq<char>)
    requires
        c != '%',
    ensures
        fits(value, seq![c] + rest) <==> value.len() > 0 && (c == '_' || value[0] == c) && fits(
            value.drop_first(),
            rest,
        ),
        fits(value, Seq::empty()) <==> value.len() == 0,
{
    let pattern = seq![c] + rest;
    assert(pattern.drop_first() =~= rest);
    assert(pattern[0] == c);
}

proof fn lemma_plain_start(value: Seq<char>, part: Seq<char>, rest: Seq<char>)
    requires
        forall|i: int| 0 <= i < part.len() ==> #[trigger] part[i] != '%' && part[i] != '_',
    ensures
        fits(value, part + rest) <==> part.len() <= value.len() && value.take(part.len() as int)
            == part && fits(value.skip(part.len() as int), rest),
    decreases part.len(),
{
    if part.len() == 0 {
        assert(part + rest =~= rest);
        assert(value.take(0) =~= part);
        assert(value.skip(0) =~= value);
    } else {
        let p = part.drop_first();
        assert((part + rest).drop_first() =~= p + rest);
        assert((part + rest)[0] == part[0]);
        assert forall|i: int| 0 <= i < p.len() implies #[trigger] p[i] != '%' && p[i] != '_' by {
            assert(part[i + 1] != '%');
        }
        assert(part[0] != '%' && part[0] != '_');
        if value.len() > 0 {
            let v = value.drop_first();
            lemma_plain_start(v, p, rest);
            if part.len() <= value.len() {
                assert(v.skip(p.len() as int) =~= value.skip(part.len() as int));
                if value[0] == part[0] && v.take(p.len() as int) == p {
                    assert(value.take(part.len() as int) =~= part) by {
                        assert forall|i: int| 0 <= i < part.len() implies value[i] == part[i] by {
                            if i > 0 {
                                assert(v.take(p.len() as int)[i - 1] == p[i - 1]);
                            }
                        }
                    }
                }
                if value.take(part.len() as int) == part {
                    assert(value.take(part.len() as int)[0] == part[0]);
                    assert(v.take(p.len() as int) =~= p) by {
                        assert forall|i: int| 0 <= i < p.len() implies v[i] == p[i] by {
                            assert(value.take(part.len() as int)[i + 1] == part[i + 1]);
                        }
                    }
                }
            }
        }
    }
}

/// A text between two percent signs fits the values that have it somewhere inside:
/// LIKE then finds what CONTAINS finds.
pub proof fn law_like_between_percents_is_contains(value: Seq<char>, part: Seq<char>)
    requires
        forall|i: int| 0 <= i < part.len() ==> #[trigger] part[i] != '%' && part[i] != '_',
    ensures
        fits(value, seq!['%'] + part + seq!['%']) <==> holds(value, part),
{
    let pattern = seq!['%'] + part + seq!['%'];
    let rest = part + seq!['%'];
    assert(pattern.drop_first() =~= rest);
    law_percent_skips(value, pattern);
    assert forall|k: int| 0 <= k <= value.len() implies #[trigger] fits(value.skip(k), rest) == (
    part.len() <= value.len() - k && value.skip(k).take(part.len() as int) == part) by {
        lemma_plain_start(value.skip(k), part, seq!['%']);
        if part.len() <= value.len() - k {
            crate::tag_search::evaluate::law_percent_fits_all(
                value.skip(k).skip(part.len() as int),
            );
        }
    }
    if fits(value, pattern) {
        let k = choose|k: int| 0 <= k <= value.len() && #[trigger] fits(value.skip(k), rest);
        assert(value.subrange(k, k + part.len()) =~= value.skip(k).take(part.len() as int));
    }
    if holds(value, part) {
        let k = choose|k: int|
            0 <= k <= value.len() - part.len() && #[trigger] value.subrange(k, k + part.len())
                == part;
        assert(value.subrange(k, k + part.len()) =~= value.skip(k).take(part.len() as int));
        assert(fits(value.skip(k), rest));
    }
}

// ---------------------------------------------------------------------------
// Searching
// ---------------------------------------------------------------------------

/// A search finds the files that meet its conditions, all of them and no others,
/// in the order of their paths. Where it finds some, it shows them from the first;
/// where it finds none, it says so and stays where it is.
pub proof fn law_search_finds_exactly(m: SearchModel, all: Seq<TaggedFileModel>)
    ensures
        forall|f: TaggedFileModel| #[trigger]
            m.searched(all).results.contains(f) <==> all.contains(f) && meets_all(f, m.conditions),
        m.searched(all).results.len() <= all.len(),
        forall|i: int, j: int|
            0 <= i < j < m.searched(all).results.len() ==> !text_before(
                (#[trigger] m.searched(all).results[j]).audio_file.path,
                (#[trigger] m.searched(all).results[i]).audio_file.path,
            ),
        m.searched(all).results.len() > 0 ==> m.searched(all).mode == TagSearchMode::Results
            && m.searched(all).modal == m.modal,
        m.searched(all).results.len() == 0 ==> m.searched(all).mode == m.mode && m.searched(
            all,
        ).modal == Some(TagSearchModal::NoResults),
        m.searched(all).results_selected == 0,
        m.searched(all).results_scroll == 0,
        m.searched(all).conditions == m.conditions,
{
    let c = chosen(all, found_by(m.conditions));
    let r = m.searched(all).results;
    law_chosen(all, found_by(m.conditions));
    law_in_order(c, by_file_path());
    law_in_order_contains(c, by_file_path());
    crate::tag_search::state::law_results_by_path(m, all);
    assert forall|f: TaggedFileModel| #[trigger] r.contains(f) <==> all.contains(f) && meets_all(
        f,
        m.conditions,
    ) by {
        assert(r.contains(f) <==> c.contains(f));
        if c.contains(f) {
            let k = choose|k: int| 0 <= k < c.len() && c[k] == f;
            assert(found_by(m.conditions)(c[k]) && all.contains(c[k]));
        }
        if all.contains(f) && meets_all(f, m.conditions) {
            let k = choose|k: int| 0 <= k < all.len() && all[k] == f;
            assert(found_by(m.conditions)(all[k]));
        }
    }
    assert forall|i: int, j: int| 0 <= i < j < r.len() implies !text_before(
        (#[trigger] r[j]).audio_file.path,
        (#[trigger] r[i]).audio_file.path,
    ) by {
        assert(!by_file_path()(r[j], r[i]));
    }
}

/// Among the files found, Up and Down go one by one, Enter opens the one in hand,
/// Shift and Enter, or B, hands over all of them in their order, and Esc goes back
/// to the conditions.
pub proof fn law_results_are_walked_and_opened(m: SearchModel)
    requires
        m.modal is None,
        m.mode == TagSearchMode::Results,
        m.results_selected < m.results.len() <= usize::MAX,
    ensures
        m.step(InputAction::NavUp).0.results_selected == (if m.results_selected == 0 {
            0int
        } else {
            m.results_selected - 1
        }),
        m.step(InputAction::NavDown).0.results_selected == (if m.results_selected + 1
            == m.results.len() {
            m.results_selected as int
        } else {
            m.results_selected + 1
        }),
        m.step(InputAction::Confirm) == (
            m,
            SearchAnswer::EditAudioFile(m.results[m.results_selected as int].audio_file),
        ),
        m.step(InputAction::ConfirmAll).0.modal == Some(TagSearchModal::GatheringTags),
        m.step(InputAction::ConfirmAll).0.pending_bulk_edit is Some,
        m.step(InputAction::ConfirmAll).0.pending_bulk_edit->0.len() == m.results.len(),
        forall|i: int|
            0 <= i < m.results.len() ==> #[trigger] m.step(
                InputAction::ConfirmAll,
            ).0.pending_bulk_edit->0[i] == m.results[i].audio_file,
        m.step(InputAction::Char('b')).0 == m.step(InputAction::ConfirmAll).0,
        m.step(InputAction::Char('B')).0 == m.step(InputAction::ConfirmAll).0,
        m.step(InputAction::Cancel).0.mode == TagSearchMode::QueryBuilder,
        m.step(InputAction::Cancel).1 is Nothing,
        m.step(InputAction::Cancel).0.conditions == m.conditions,
{
}

/// Enter on the button searches; on the line that adds a condition it adds an empty
/// one behind the others and goes to it; on an operator, a comparison, a type or a
/// category it takes the next one, of the condition in hand alone.
pub proof fn law_enter_in_the_query(m: SearchModel)
    requires
        m.wf(),
        m.modal is None,
        m.mode == TagSearchMode::QueryBuilder,
        m.conditions.len() < usize::MAX,
    ensures
        m.step(InputAction::Confirm).1 == SearchAnswer::ExecuteSearch <==> m.field_focus
            == QueryFieldFocus::SearchButton,
        m.step(InputAction::Confirm).1 is ExecuteSearch || m.step(InputAction::Confirm).1 is Nothing,
        m.field_focus == QueryFieldFocus::AddCondition ==> m.step(
            InputAction::Confirm,
        ).0.conditions.len() == m.conditions.len() + 1 && m.step(
            InputAction::Confirm,
        ).0.conditions.drop_last() == m.conditions && m.step(
            InputAction::Confirm,
        ).0.focused_condition == m.conditions.len() && m.step(
            InputAction::Confirm,
        ).0.conditions.last().tag_name.value.len() == 0 && m.step(
            InputAction::Confirm,
        ).0.conditions.last().value.value.len() == 0,
        m.field_focus == QueryFieldFocus::Comparison ==> m.step(InputAction::Confirm).0.conditions
            == m.conditions.update(
            m.focused_condition as int,
            ConditionModel {
                comparison: m.conditions[m.focused_condition as int].comparison.next(),
                ..m.conditions[m.focused_condition as int]
            },
        ),
        m.field_focus == QueryFieldFocus::ConditionType ==> m.step(
            InputAction::Confirm,
        ).0.conditions == m.conditions.update(
            m.focused_condition as int,
            ConditionModel {
                condition_type: m.conditions[m.focused_condition as int].condition_type.next(),
                ..m.conditions[m.focused_condition as int]
            },
        ),
        m.field_focus == QueryFieldFocus::FileTypeCategory ==> m.step(
            InputAction::Confirm,
        ).0.conditions == m.conditions.update(
            m.focused_condition as int,
            ConditionModel {
                file_type_category: m.conditions[m.focused_condition as int].file_type_category.next(),
                ..m.conditions[m.focused_condition as int]
            },
        ),
        m.field_focus == QueryFieldFocus::Operator && m.focused_condition > 0 ==> m.step(
            InputAction::Confirm,
        ).0.conditions == m.conditions.update(
            m.focused_condition as int,
            ConditionModel {
                operator: m.conditions[m.focused_condition as int].operator.next(),
                ..m.conditions[m.focused_condition as int]
            },
        ),
        m.field_focus == QueryFieldFocus::TagName || m.field_focus == QueryFieldFocus::Value
            || m.field_focus == QueryFieldFocus::RangeMin || m.field_focus
            == QueryFieldFocus::RangeMax || m.field_focus == QueryFieldFocus::SearchButton
            ==> m.step(InputAction::Confirm).0.conditions == m.conditions,
{
    if m.field_focus == QueryFieldFocus::AddCondition {
        assert(m.step(InputAction::Confirm).0.conditions.drop_last() =~= m.conditions);
    }
}

/// Operators, comparisons, types and categories that are taken in turn all come
/// by, and the first comes again.
pub proof fn law_choices_come_round(
    o: LogicalOperator,
    c: ComparisonOperator,
    t: ConditionType,
)
    ensures
        o.next() != o && o.next().next() != o && o.next().next().next() == o,
        c.next() != c && c.next().next() != c && c.next().next().next() != c
            && c.next().next().next().next() == c,
        t.next() != t && t.next().next() != t && t.next().next().next() != t
            && t.next().next().next().next() != t && t.next().next().next().next().next() == t,
{
}

/// What is typed goes into the field in hand, at its cursor, and into no other
/// field and no other condition; a range takes digits alone.
pub proof fn law_typing_goes_into_the_field(m: SearchModel, c: char, i: int)
    requires
        m.wf(),
        m.modal is None,
        m.mode == TagSearchMode::QueryBuilder,
    ensures
        m.step(InputAction::Char(c)).1 is Nothing,
        m.step(InputAction::Char(c)).0.conditions.len() == m.conditions.len(),
        0 <= i < m.conditions.len() && i != m.focused_condition ==> m.step(
            InputAction::Char(c),
        ).0.conditions[i] == m.conditions[i],
        m.field_focus == QueryFieldFocus::TagName ==> m.step(
            InputAction::Char(c),
        ).0.conditions[m.focused_condition as int].tag_name.value
            == m.conditions[m.focused_condition as int].tag_name.value.insert(
            m.conditions[m.focused_condition as int].tag_name.cursor as int,
            c,
        ) && m.step(InputAction::Char(c)).0.conditions[m.focused_condition as int].value
            == m.conditions[m.focused_condition as int].value,
        m.field_focus == QueryFieldFocus::Value ==> m.step(
            InputAction::Char(c),
        ).0.conditions[m.focused_condition as int].value.value
            == m.conditions[m.focused_condition as int].value.value.insert(
            m.conditions[m.focused_condition as int].value.cursor as int,
            c,
        ) && m.step(InputAction::Char(c)).0.conditions[m.focused_condition as int].tag_name
            == m.conditions[m.focused_condition as int].tag_name,
        m.field_focus == QueryFieldFocus::RangeMin && is_digit(c) ==> m.step(
            InputAction::Char(c),
        ).0.conditions[m.focused_condition as int].range_min.value
            == m.conditions[m.focused_condition as int].range_min.value.insert(
            m.conditions[m.focused_condition as int].range_min.cursor as int,
            c,
        ) && m.step(InputAction::Char(c)).0.conditions[m.focused_condition as int].range_max
            == m.conditions[m.focused_condition as int].range_max,
        m.field_focus == QueryFieldFocus::RangeMax && is_digit(c) ==> m.step(
            InputAction::Char(c),
        ).0.conditions[m.focused_condition as int].range_max.value
            == m.conditions[m.focused_condition as int].range_max.value.insert(
            m.conditions[m.focused_condition as int].range_max.cursor as int,
            c,
        ) && m.step(InputAction::Char(c)).0.conditions[m.focused_condition as int].range_min
            == m.conditions[m.focused_condition as int].range_min,
        (m.field_focus == QueryFieldFocus::RangeMin || m.field_focus == QueryFieldFocus::RangeMax)
            && !is_digit(c) ==> m.step(InputAction::Char(c)).0 == m,
{
    match m.text() {
        Some(t) => {
            assert(t.wf());
            assert(t.insert(seq![c]).value =~= t.value.insert(t.cursor as int, c));
        },
        None => {},
    }
}

/// The arrows go through the fields of a condition from left to right and back,
/// and through the conditions down to the button and up again.
pub proof fn law_arrows_go_through_the_query(m: SearchModel)
    requires
        m.wf(),
        m.modal is None,
        m.mode == TagSearchMode::QueryBuilder,
        m.conditions.len() <= usize::MAX,
    ensures
        m.field_focus == QueryFieldFocus::TagName ==> m.step(InputAction::NavRight).0.field_focus
            == QueryFieldFocus::Comparison && m.step(InputAction::NavLeft).0.field_focus
            == QueryFieldFocus::ConditionType,
        m.field_focus == QueryFieldFocus::Comparison ==> m.step(
            InputAction::NavRight,
        ).0.field_focus == QueryFieldFocus::Value && m.step(InputAction::NavLeft).0.field_focus
            == QueryFieldFocus::TagName,
        m.field_focus == QueryFieldFocus::Value ==> m.step(InputAction::NavLeft).0.field_focus
            == QueryFieldFocus::Comparison && m.step(InputAction::NavRight).0 == m,
        m.field_focus == QueryFieldFocus::RangeMin ==> m.step(InputAction::NavRight).0.field_focus
            == QueryFieldFocus::RangeMax && m.step(InputAction::NavLeft).0.field_focus
            == QueryFieldFocus::ConditionType,
        m.field_focus == QueryFieldFocus::RangeMax ==> m.step(InputAction::NavLeft).0.field_focus
            == QueryFieldFocus::RangeMin,
        m.field_focus == QueryFieldFocus::FileTypeCategory ==> m.step(
            InputAction::NavLeft,
        ).0.field_focus == QueryFieldFocus::ConditionType,
        m.field_focus == QueryFieldFocus::ConditionType ==> m.step(
            InputAction::NavRight,
        ).0.field_focus == (match m.conditions[m.focused_condition as int].condition_type {
            ConditionType::Tag => QueryFieldFocus::TagName,
            ConditionType::FileType => QueryFieldFocus::FileTypeCategory,
            ConditionType::SampleRate => QueryFieldFocus::RangeMin,
            ConditionType::Bitrate => QueryFieldFocus::RangeMin,
            ConditionType::Duration => QueryFieldFocus::RangeMin,
        }),
        m.field_focus == QueryFieldFocus::ConditionType && m.focused_condition > 0 ==> m.step(
            InputAction::NavLeft,
        ).0.field_focus == QueryFieldFocus::Operator,
        m.field_focus == QueryFieldFocus::Operator ==> m.step(InputAction::NavRight).0.field_focus
            == QueryFieldFocus::ConditionType,
        m.field_focus == QueryFieldFocus::AddCondition ==> m.step(InputAction::NavDown).0.field_focus
            == QueryFieldFocus::SearchButton && m.step(InputAction::NavUp).0.focused_condition
            == m.conditions.len() - 1 && m.step(InputAction::NavUp).0.field_focus
            == QueryFieldFocus::ConditionType,
        m.field_focus == QueryFieldFocus::SearchButton ==> m.step(InputAction::NavUp).0.field_focus
            == QueryFieldFocus::AddCondition && m.step(InputAction::NavDown).0 == m,
        m.field_focus != QueryFieldFocus::AddCondition && m.field_focus
            != QueryFieldFocus::SearchButton ==> (if m.focused_condition + 1 < m.conditions.len() {
            m.step(InputAction::NavDown).0.focused_condition == m.focused_condition + 1 && m.step(
                InputAction::NavDown,
            ).0.field_focus == m.field_focus
        } else {
            m.step(InputAction::NavDown).0.field_focus == QueryFieldFocus::AddCondition
        }) && (if m.focused_condition > 0 {
            m.step(InputAction::NavUp).0.focused_condition == m.focused_condition - 1
        } else {
            m.step(InputAction::NavUp).0 == m
        }),
        m.step(InputAction::NavUp).0.conditions == m.conditions,
        m.step(InputAction::NavDown).0.conditions == m.conditions,
        m.step(InputAction::NavLeft).0.conditions == m.conditions,
        m.step(InputAction::NavRight).0.conditions == m.conditions,
{
}

/// Tab in the name of a tag completes it to a known one that starts as it does;
/// anywhere else it leaves for the next view.
pub proof fn law_tab_completes_names(m: SearchModel)
    requires
        m.wf(),
        m.modal is None,
        m.mode == TagSearchMode::QueryBuilder,
    ensures
        m.step(InputAction::CycleNext).1 is CycleNext <==> !(m.field_focus
            == QueryFieldFocus::TagName
            && m.conditions[m.focused_condition as int].tag_name.value.len() > 0),
        m.step(InputAction::CycleNext).1 is CycleNext ==> m.step(InputAction::CycleNext).0 == m,
        m.step(InputAction::CycleNext).1 is Nothing ==> ({
            let before = m.conditions[m.focused_condition as int].tag_name.value;
            let after = m.step(
                InputAction::CycleNext,
            ).0.conditions[m.focused_condition as int].tag_name.value;
            ||| after == before
            ||| begins_with(after, lowercase(before)) && (after == "artist"@ || after
                == "album"@ || after == "album_artist"@ || after == "title"@ || after == "genre"@)
        }),
        m.step(InputAction::CycleNext).1 is Nothing ==> ({
            let q = lowercase(m.conditions[m.focused_condition as int].tag_name.value);
            let after = m.step(
                InputAction::CycleNext,
            ).0.conditions[m.focused_condition as int].tag_name.value;
            q.len() > 0 && (begins_with("artist"@, q) || begins_with("album"@, q) || begins_with(
                "album_artist"@,
                q,
            ) || begins_with("title"@, q) || begins_with("genre"@, q)) ==> begins_with(after, q)
                && (after == "artist"@ || after == "album"@ || after == "album_artist"@ || after
                == "title"@ || after == "genre"@)
        }),
        m.step(InputAction::CyclePrev) == (m, SearchAnswer::CyclePrev),
        m.step(InputAction::Cancel) == (m, SearchAnswer::Cancel),
{
    let query = lowercase(m.conditions[m.focused_condition as int].tag_name.value);
    law_first_place(known_tags(), 0, starting(query));
    let k = known_tags();
    assert(k[0] == "artist"@ && k[1] == "album"@ && k[2] == "album_artist"@ && k[3] == "title"@
        && k[4] == "genre"@);
    assert(forall|i: int| 0 <= i < 5 ==> starting(query)(#[trigger] k[i]) == begins_with(k[i], query));
}

/// The view opens on one empty condition, in the name of its tag, with nothing
/// found yet.
pub proof fn law_search_opens_empty()
    ensures
        SearchModel::opened().conditions.len() == 1,
        SearchModel::opened().conditions[0].tag_name.value.len() == 0,
        SearchModel::opened().conditions[0].condition_type == ConditionType::Tag,
        SearchModel::opened().conditions[0].comparison == ComparisonOperator::Is,
        SearchModel::opened().conditions[0].operator == LogicalOperator::And,
        SearchModel::opened().field_focus == QueryFieldFocus::TagName,
        SearchModel::opened().results.len() == 0,
        SearchModel::opened().mode == TagSearchMode::QueryBuilder,
        SearchModel::opened().modal is None,
{
}

/// A message over the view is closed by Enter or Esc, and by nothing else.
pub proof fn law_message_is_closed(m: SearchModel, action: InputAction)
    requires
        m.modal == Some(TagSearchModal::NoResults),
    ensures
        m.step(action).1 is Nothing,
        m.step(action).0 == (if action is Confirm || action is Cancel {
            SearchModel { modal: None, ..m }
        } else {
            m
        }),
{
}

/// A tag is found whatever the case of its name, the first of that name.
pub proof fn law_tag_is_found_in_any_case(f: TaggedFileModel, name: Seq<char>, v: Seq<char>)
    ensures
        f.value_any_case(name) == Some(v) <==> exists|i: int|
            0 <= i < f.tags.len() && lowercase((#[trigger] f.tags[i]).0) == lowercase(name)
                && f.tags[i].1 == v && forall|k: int|
                0 <= k < i ==> lowercase((#[trigger] f.tags[k]).0) != lowercase(name),
        f.value_any_case(name) is None <==> forall|i: int|
            0 <= i < f.tags.len() ==> lowercase((#[trigger] f.tags[i]).0) != lowercase(name),
{
    let p = crate::tag_search::evaluate::tag_key_any_case(name);
    let at = crate::lists::first_place(f.tags, 0, p);
    crate::lists::law_first_place(f.tags, 0, p);
    if at < f.tags.len() {
        assert(p(f.tags[at as int]));
        assert(lowercase(f.tags[at as int].0) == lowercase(name));
        assert forall|k: int| 0 <= k < at implies lowercase((#[trigger] f.tags[k]).0) != lowercase(
            name,
        ) by {
            assert(!p(f.tags[k]));
        }
    } else {
        assert forall|k: int| 0 <= k < f.tags.len() implies lowercase((#[trigger] f.tags[k]).0)
            != lowercase(name) by {
            assert(!p(f.tags[k]));
        }
    }
    if exists|i: int|
        0 <= i < f.tags.len() && lowercase((#[trigger] f.tags[i]).0) == lowercase(name)
            && f.tags[i].1 == v && forall|k: int|
            0 <= k < i ==> lowercase((#[trigger] f.tags[k]).0) != lowercase(name) {
        let i = choose|i: int|
            0 <= i < f.tags.len() && lowercase((#[trigger] f.tags[i]).0) == lowercase(name)
                && f.tags[i].1 == v && forall|k: int|
                0 <= k < i ==> lowercase((#[trigger] f.tags[k]).0) != lowercase(name);
        if i < at {
            assert(lowercase(f.tags[i].0) != lowercase(name));
        }
        assert(i == at);
    }
}

/// Every key that edits text edits the field in hand, as it does in any other line
/// of text, and no other field.
pub proof fn law_field_in_hand_is_edited(m: SearchModel, action: InputAction)
    requires
        m.wf(),
        m.modal is None,
        m.mode == TagSearchMode::QueryBuilder,
        action is Backspace || action is Delete || action is TextHome || action is TextEnd
            || action is WordLeft || action is WordRight || action is KillToStart
            || action is KillToEnd,
    ensures
        ({
            let f = m.focused_condition as int;
            let n = m.step(action).0.conditions;
            let old = m.conditions[f];
            &&& n.len() == m.conditions.len()
            &&& forall|i: int| 0 <= i < n.len() && i != f ==> #[trigger] n[i] == m.conditions[i]
            &&& m.field_focus == QueryFieldFocus::TagName ==> n[f].tag_name == old.tag_name.step(
                action,
            ) && n[f].value == old.value
            &&& m.field_focus == QueryFieldFocus::Value ==> n[f].value == old.value.step(action)
                && n[f].tag_name == old.tag_name
            &&& m.field_focus == QueryFieldFocus::RangeMin ==> n[f].range_min
                == old.range_min.step(action) && n[f].range_max == old.range_max
            &&& m.field_focus == QueryFieldFocus::RangeMax ==> n[f].range_max
                == old.range_max.step(action) && n[f].range_min == old.range_min
        }),
{
}

} // verus!
