//! Whether a file meets the conditions of a search.

use vstd::prelude::*;

use crate::corpus::{AudioFile, AudioFileModel};
use crate::lists::first_place;
use crate::tag_search::types::{ComparisonOperator, ConditionModel, ConditionType, LogicalOperator, SearchCondition};
use crate::text::{self, holds, lowercase, text_before};
use crate::ordering::Ranked;

verus! {

/// A file with its tags, each name once and in lower case.
#[derive(Debug)]
pub struct AudioFileWithTags {
    pub audio_file: AudioFile,
    pub tags: Vec<(String, String)>,
}

/// The model of an [`AudioFileWithTags`].
pub struct TaggedFileModel {
    pub audio_file: AudioFileModel,
    pub tags: Seq<(Seq<char>, Seq<char>)>,
}

impl DeepView for AudioFileWithTags {
    type V = TaggedFileModel;

    open spec fn deep_view(&self) -> TaggedFileModel {
        TaggedFileModel {
            audio_file: self.audio_file.deep_view(),
            tags: self.tags.deep_view(),
        }
    }
}

/// Files stand in the alphabetical order of their paths.
impl Ranked for AudioFileWithTags {
    open spec fn precedes(a: TaggedFileModel, b: TaggedFileModel) -> bool {
        text_before(a.audio_file.path, b.audio_file.path)
    }

    fn before(&self, other: &Self) -> (r: bool) {
        text::comes_before(self.audio_file.path(), other.audio_file.path())
    }
}

/// The condition of being a tag with a name.
pub open spec fn tag_key(name: Seq<char>) -> spec_fn((Seq<char>, Seq<char>)) -> bool {
    |t: (Seq<char>, Seq<char>)| t.0 == name
}

/// The condition of being a tag with a name, whatever the case.
pub open spec fn tag_key_any_case(name: Seq<char>) -> spec_fn((Seq<char>, Seq<char>)) -> bool {
    |t: (Seq<char>, Seq<char>)| lowercase(t.0) == lowercase(name)
}

impl TaggedFileModel {
    /// The value of a tag.
    pub open spec fn value(self, name: Seq<char>) -> Option<Seq<char>> {
        let i = first_place(self.tags, 0, tag_key(name));
        if i < self.tags.len() {
            Some(self.tags[i as int].1)
        } else {
            None
        }
    }

    /// The value of a tag, whatever the case of its name.
    pub open spec fn value_any_case(self, name: Seq<char>) -> Option<Seq<char>> {
        let i = first_place(self.tags, 0, tag_key_any_case(name));
        if i < self.tags.len() {
            Some(self.tags[i as int].1)
        } else {
            None
        }
    }
}

impl AudioFileWithTags {
    /// The value of a tag, whatever the case of its name.
    pub fn get_tag(&self, name: &str) -> (r: Option<&str>)
        ensures
            r is Some <==> self.deep_view().value_any_case(name@) is Some,
            r is Some ==> Some(r->0@) == self.deep_view().value_any_case(name@),
    {
        let low: String = text::to_lowercase(name);
        let ghost s = self.tags.deep_view();
        let mut i: usize = 0;
        while i < self.tags.len() && !text::same(
            text::to_lowercase(self.tags[i].0.as_str()).as_str(),
            low.as_str(),
        )
            invariant
                i <= self.tags.len(),
                s == self.tags.deep_view(),
                low@ == lowercase(name@),
                first_place(s, 0, tag_key_any_case(name@)) == first_place(
                    s,
                    i as nat,
                    tag_key_any_case(name@),
                ),
            decreases self.tags.len() - i,
        {
            i = i + 1;
        }
        if i < self.tags.len() {
            Some(self.tags[i].1.as_str())
        } else {
            None
        }
    }

    /// The value of a tag.
    fn value_of(&self, name: &str) -> (r: Option<&str>)
        ensures
            r is Some <==> self.deep_view().value(name@) is Some,
            r is Some ==> Some(r->0@) == self.deep_view().value(name@),
    {
        let ghost s = self.tags.deep_view();
        let mut i: usize = 0;
        while i < self.tags.len() && !text::same(self.tags[i].0.as_str(), name)
            invariant
                i <= self.tags.len(),
                s == self.tags.deep_view(),
                first_place(s, 0, tag_key(name@)) == first_place(s, i as nat, tag_key(name@)),
            decreases self.tags.len() - i,
        {
            i = i + 1;
        }
        if i < self.tags.len() {
            Some(self.tags[i].1.as_str())
        } else {
            None
        }
    }
}

// ---------------------------------------------------------------------------
// Patterns
// ---------------------------------------------------------------------------

/// Whether a text fits a pattern: `%` stands for any characters, also for none,
/// `_` for exactly one, and every other character for itself.
pub open spec fn fits(value: Seq<char>, pattern: Seq<char>) -> bool
    decreases pattern.len(), value.len(),
{
    if pattern.len() == 0 {
        value.len() == 0
    } else if pattern[0] == '%' {
        ||| fits(value, pattern.drop_first())
        ||| value.len() > 0 && fits(value.drop_first(), pattern)
    } else {
        &&& value.len() > 0
        &&& pattern[0] == '_' || value[0] == pattern[0]
        &&& fits(value.drop_first(), pattern.drop_first())
    }
}

/// Whether the rest of a text fits the rest of a pattern.
fn fits_from(value: &Vec<char>, i: usize, pattern: &Vec<char>, j: usize) -> (r: bool)
    requires
        i <= value.len(),
        j <= pattern.len(),
    ensures
        r == fits(value@.skip(i as int), pattern@.skip(j as int)),
    decreases pattern.len() - j, value.len() - i,
{
    let ghost v = value@.skip(i as int);
    let ghost p = pattern@.skip(j as int);
    if j == pattern.len() {
        return i == value.len();
    }
    proof {
        assert(p[0] == pattern@[j as int]);
        assert(p.drop_first() =~= pattern@.skip(j as int + 1));
        if i < value.len() {
            assert(v[0] == value@[i as int]);
            assert(v.drop_first() =~= value@.skip(i as int + 1));
        }
    }
    let c: char = pattern[j];
    if c == '%' {
        fits_from(value, i, pattern, j + 1) || (i < value.len() && fits_from(
            value,
            i + 1,
            pattern,
            j,
        ))
    } else {
        i < value.len() && (c == '_' || value[i] == c) && fits_from(value, i + 1, pattern, j + 1)
    }
}

/// Whether a text fits a pattern.
pub fn match_like_pattern(value: &str, pattern: &str) -> (r: bool)
    ensures
        r == fits(value@, pattern@),
{
    let v: Vec<char> = text::chars_of(value);
    let p: Vec<char> = text::chars_of(pattern);
    proof {
        assert(v@.skip(0) =~= value@);
        assert(p@.skip(0) =~= pattern@);
    }
    fits_from(&v, 0, &p, 0)
}

/// A pattern without `%` and `_` fits exactly the text that it is.
pub proof fn law_plain_pattern(value: Seq<char>, pattern: Seq<char>)
    requires
        forall|i: int| 0 <= i < pattern.len() ==> #[trigger] pattern[i] != '%' && pattern[i] != '_',
    ensures
        fits(value, pattern) <==> value == pattern,
    decreases pattern.len(),
{
    if pattern.len() == 0 {
        assert(value.len() == 0 ==> value =~= pattern);
    } else if value.len() > 0 {
        assert forall|i: int| 0 <= i < pattern.drop_first().len() implies #[trigger] pattern.drop_first()[i]
            != '%' && pattern.drop_first()[i] != '_' by {
            assert(pattern[i + 1] != '%');
        }
        assert(pattern[0] != '%' && pattern[0] != '_');
        law_plain_pattern(value.drop_first(), pattern.drop_first());
        if fits(value, pattern) {
            assert(value =~= seq![value[0]] + value.drop_first());
            assert(pattern =~= seq![pattern[0]] + pattern.drop_first());
        }
    }
}

/// The pattern `%` fits every text.
pub proof fn law_percent_fits_all(value: Seq<char>)
    ensures
        fits(value, seq!['%']),
    decreases value.len(),
{
    let p = seq!['%'];
    assert(p.drop_first() =~= Seq::<char>::empty());
    if value.len() == 0 {
        assert(fits(value, p.drop_first()));
    } else {
        law_percent_fits_all(value.drop_first());
    }
}

/// A pattern behind `%` fits exactly the texts of which it fits an end.
pub proof fn law_percent_skips(value: Seq<char>, pattern: Seq<char>)
    requires
        pattern.len() > 0,
        pattern[0] == '%',
    ensures
        fits(value, pattern) <==> exists|k: int|
            0 <= k <= value.len() && #[trigger] fits(value.skip(k), pattern.drop_first()),
    decreases value.len(),
{
    let rest = pattern.drop_first();
    assert(value.skip(0) =~= value);
    if fits(value, rest) {
        assert(fits(value.skip(0), rest));
    }
    if value.len() > 0 {
        law_percent_skips(value.drop_first(), pattern);
        if fits(value.drop_first(), pattern) {
            let k = choose|k: int|
                0 <= k <= value.drop_first().len() && #[trigger] fits(
                    value.drop_first().skip(k),
                    rest,
                );
            assert(value.drop_first().skip(k) =~= value.skip(k + 1));
            assert(fits(value.skip(k + 1), rest));
        }
        if exists|k: int| 0 <= k <= value.len() && #[trigger] fits(value.skip(k), rest) {
            let k = choose|k: int| 0 <= k <= value.len() && #[trigger] fits(value.skip(k), rest);
            if k > 0 {
                assert(value.drop_first().skip(k - 1) =~= value.skip(k));
                assert(fits(value.drop_first().skip(k - 1), rest));
            }
        }
    } else {
        if exists|k: int| 0 <= k <= value.len() && #[trigger] fits(value.skip(k), rest) {
            let k = choose|k: int| 0 <= k <= value.len() && #[trigger] fits(value.skip(k), rest);
            assert(k == 0);
        }
    }
}

// ---------------------------------------------------------------------------
// Ranges
// ---------------------------------------------------------------------------

/// Whether a character is a decimal digit.
pub open spec fn is_digit(c: char) -> bool {
    '0' <= c <= '9'
}

/// The number that some digits stand for.
pub open spec fn digits_value(s: Seq<char>) -> nat
    decreases s.len(),
{
    if s.len() == 0 {
        0
    } else {
        digits_value(s.drop_last()) * 10 + (s.last() as u8 - '0' as u8) as nat
    }
}

/// The digits of a number, without its sign.
pub open spec fn unsigned_part(s: Seq<char>) -> Seq<char> {
    if s.len() > 0 && (s[0] == '-' || s[0] == '+') {
        s.drop_first()
    } else {
        s
    }
}

/// The number that a text stands for, if it is one that fits: a sign or none,
/// then digits and nothing else.
pub open spec fn parsed(s: Seq<char>) -> Option<i64> {
    let d = unsigned_part(s);
    if d.len() == 0 || exists|i: int| 0 <= i < d.len() && !is_digit(#[trigger] d[i]) {
        None
    } else {
        let n: int = if s[0] == '-' {
            -(digits_value(d) as int)
        } else {
            digits_value(d) as int
        };
        if i64::MIN <= n <= i64::MAX {
            Some(n as i64)
        } else {
            None
        }
    }
}

/// A prefix stands for no more than the whole.
proof fn lemma_prefix_value(s: Seq<char>, i: int)
    requires
        0 <= i <= s.len(),
    ensures
        digits_value(s.take(i)) <= digits_value(s),
    decreases s.len() - i,
{
    if i < s.len() {
        lemma_prefix_value(s, i + 1);
        assert(s.take(i + 1).drop_last() =~= s.take(i));
    } else {
        assert(s.take(i) =~= s);
    }
}

/// The number that a text stands for, if it is one that fits.
pub fn parse_number(s: &str) -> (r: Option<i64>)
    ensures
        r == parsed(s@),
{
    let x: Vec<char> = text::chars_of(s);
    let signed: bool = x.len() > 0 && (x[0] == '-' || x[0] == '+');
    let negative: bool = x.len() > 0 && x[0] == '-';
    let from: usize = if signed {
        1
    } else {
        0
    };
    let ghost d = unsigned_part(s@);
    proof {
        assert(d =~= s@.skip(from as int));
    }
    if from == x.len() {
        return None;
    }
    let mut n: u128 = 0;
    let mut i: usize = from;
    let mut big: bool = false;
    proof {
        assert(d.take(0) =~= Seq::<char>::empty());
    }
    while i < x.len()
        invariant
            x@ == s@,
            from <= i <= x.len(),
            d == unsigned_part(s@),
            d == s@.skip(from as int),
            d.len() == x.len() - from,
            forall|k: int| 0 <= k < i - from ==> is_digit(#[trigger] d[k]),
            !big ==> n == digits_value(d.take(i - from)),
            !big ==> n <= 0xffff_ffff_ffff_ffff,
            big ==> digits_value(d) > 0xffff_ffff_ffff_ffff,
        decreases x.len() - i,
    {
        let c: char = x[i];
        proof {
            assert(d[i - from] == c);
        }
        if !('0' <= c && c <= '9') {
            return None;
        }
        if !big {
            n = n * 10 + (c as u8 - 48u8) as u128;
            proof {
                assert(d.take(i - from + 1).drop_last() =~= d.take(i - from));
                assert(n == digits_value(d.take(i - from + 1)));
                lemma_prefix_value(d, i - from + 1);
            }
            if n > 0xffff_ffff_ffff_ffff {
                big = true;
            }
        }
        i = i + 1;
    }
    proof {
        assert(d.take(d.len() as int) =~= d);
    }
    if big {
        return None;
    }
    if negative {
        if n <= 0x8000_0000_0000_0000 {
            Some((-(n as i128)) as i64)
        } else {
            None
        }
    } else if n <= 0x7fff_ffff_ffff_ffff {
        Some(n as i64)
    } else {
        None
    }
}

/// Whether a number lies in a range. An end that is no number bounds nothing.
pub open spec fn in_range(n: int, low: Seq<char>, high: Seq<char>) -> bool {
    &&& parsed(low) matches Some(l) ==> l <= n
    &&& parsed(high) matches Some(h) ==> n <= h
}

/// Whether a number lies in a range.
fn evaluate_range(n: i64, low: &str, high: &str) -> (r: bool)
    ensures
        r == in_range(n as int, low@, high@),
{
    let above: bool = match parse_number(low) {
        Some(l) => l <= n,
        None => true,
    };
    let below: bool = match parse_number(high) {
        Some(h) => n <= h,
        None => true,
    };
    above && below
}

/// Milliseconds in whole seconds, cut towards zero.
pub open spec fn whole_seconds(ms: int) -> int {
    if ms < 0 {
        -((-ms) / 1000)
    } else {
        ms / 1000
    }
}

/// Milliseconds in whole seconds, cut towards zero.
fn seconds_of(ms: i64) -> (r: i64)
    ensures
        r == whole_seconds(ms as int),
{
    if ms < 0 {
        let past: u64 = ((-(ms + 1)) as u64) + 1;
        -((past / 1000) as i64)
    } else {
        ((ms as u64) / 1000) as i64
    }
}

// ---------------------------------------------------------------------------
// Conditions
// ---------------------------------------------------------------------------

/// Whether the value of a tag meets a comparison. A tag that is missing is not
/// the same as anything.
pub open spec fn compares(
    comparison: ComparisonOperator,
    value: Option<Seq<char>>,
    query: Seq<char>,
) -> bool {
    match value {
        Some(v) => match comparison {
            ComparisonOperator::Is => lowercase(v) == query,
            ComparisonOperator::Not => lowercase(v) != query,
            ComparisonOperator::Contains => holds(lowercase(v), query),
            ComparisonOperator::Like => fits(lowercase(v), query),
        },
        None => comparison == ComparisonOperator::Not,
    }
}

/// A number, or zero.
pub open spec fn or_zero(n: Option<i32>) -> int {
    match n {
        Some(k) => k as int,
        None => 0,
    }
}

/// A length of time, or zero.
pub open spec fn time_or_zero(n: Option<i64>) -> int {
    match n {
        Some(k) => k as int,
        None => 0,
    }
}

/// Whether a file meets a condition. One on a tag that lacks a name or a value
/// is met by every file.
pub open spec fn meets(f: TaggedFileModel, c: ConditionModel) -> bool {
    match c.condition_type {
        ConditionType::Tag => if c.tag_name.value.len() == 0 || c.value.value.len() == 0 {
            true
        } else {
            compares(
                c.comparison,
                f.value(lowercase(c.tag_name.value)),
                lowercase(c.value.value),
            )
        },
        ConditionType::FileType => c.file_type_category.includes(f.audio_file.file_type),
        ConditionType::SampleRate => in_range(
            or_zero(f.audio_file.sample_rate),
            c.range_min.value,
            c.range_max.value,
        ),
        ConditionType::Bitrate => in_range(
            or_zero(f.audio_file.bitrate_kbps),
            c.range_min.value,
            c.range_max.value,
        ),
        ConditionType::Duration => in_range(
            whole_seconds(time_or_zero(f.audio_file.duration_ms)),
            c.range_min.value,
            c.range_max.value,
        ),
    }
}

/// Whether a file meets conditions, joined from the first to the last.
pub open spec fn meets_all(f: TaggedFileModel, conditions: Seq<ConditionModel>) -> bool
    decreases conditions.len(),
{
    if conditions.len() == 0 {
        true
    } else if conditions.len() == 1 {
        meets(f, conditions[0])
    } else {
        conditions.last().operator.joins(
            meets_all(f, conditions.drop_last()),
            meets(f, conditions.last()),
        )
    }
}

/// Whether a file meets a condition.
pub fn evaluate_single_condition(f: &AudioFileWithTags, c: &SearchCondition) -> (r: bool)
    ensures
        r == meets(f.deep_view(), c.deep_view()),
{
    match c.condition_type {
        ConditionType::Tag => {
            if c.tag_name.is_empty() || c.value.is_empty() {
                return true;
            }
            let query: String = text::to_lowercase(c.value.value());
            let name: String = text::to_lowercase(c.tag_name.value());
            match f.value_of(name.as_str()) {
                Some(v) => {
                    let low: String = text::to_lowercase(v);
                    match c.comparison {
                        ComparisonOperator::Is => text::same(low.as_str(), query.as_str()),
                        ComparisonOperator::Not => !text::same(low.as_str(), query.as_str()),
                        ComparisonOperator::Contains => text::contains(
                            low.as_str(),
                            query.as_str(),
                        ),
                        ComparisonOperator::Like => match_like_pattern(
                            low.as_str(),
                            query.as_str(),
                        ),
                    }
                },
                None => c.comparison == ComparisonOperator::Not,
            }
        },
        ConditionType::FileType => c.file_type_category.matches(
            f.audio_file.audio.file_type.as_str(),
        ),
        ConditionType::SampleRate => {
            let n: i64 = match f.audio_file.audio.sample_rate {
                Some(k) => k as i64,
                None => 0,
            };
            evaluate_range(n, c.range_min.value(), c.range_max.value())
        },
        ConditionType::Bitrate => {
            let n: i64 = match f.audio_file.audio.bitrate_kbps {
                Some(k) => k as i64,
                None => 0,
            };
            evaluate_range(n, c.range_min.value(), c.range_max.value())
        },
        ConditionType::Duration => {
            let ms: i64 = match f.audio_file.audio.duration_ms {
                Some(k) => k,
                None => 0,
            };
            evaluate_range(seconds_of(ms), c.range_min.value(), c.range_max.value())
        },
    }
}

/// Whether a file meets conditions, joined from the first to the last.
pub fn evaluate_conditions(f: &AudioFileWithTags, conditions: &Vec<SearchCondition>) -> (r: bool)
    ensures
        r == meets_all(f.deep_view(), conditions.deep_view()),
{
    if conditions.len() == 0 {
        return true;
    }
    let ghost all = conditions.deep_view();
    let mut result: bool = evaluate_single_condition(f, &conditions[0]);
    proof {
        assert(all.take(1).len() == 1);
    }
    let mut i: usize = 1;
    while i < conditions.len()
        invariant
            1 <= i <= conditions.len(),
            all == conditions.deep_view(),
            result == meets_all(f.deep_view(), all.take(i as int)),
        decreases conditions.len() - i,
    {
        let met: bool = evaluate_single_condition(f, &conditions[i]);
        result = match conditions[i].operator {
            LogicalOperator::And => result && met,
            LogicalOperator::Or => result || met,
            LogicalOperator::Xor => result != met,
        };
        proof {
            assert(all.take(i as int + 1).drop_last() =~= all.take(i as int));
            assert(all.take(i as int + 1).last() == conditions[i as int].deep_view());
        }
        i = i + 1;
    }
    proof {
        assert(all.take(all.len() as int) =~= all);
    }
    result
}

/// A condition on a tag and its negation never agree, where name and value are
/// given.
pub proof fn law_not_negates_is(f: TaggedFileModel, c: ConditionModel)
    requires
        c.condition_type == ConditionType::Tag,
        c.tag_name.value.len() > 0,
        c.value.value.len() > 0,
    ensures
        meets(f, ConditionModel { comparison: ComparisonOperator::Is, ..c }) != meets(
            f,
            ConditionModel { comparison: ComparisonOperator::Not, ..c },
        ),
{
}

/// A search that was not filled in finds every file.
pub proof fn law_empty_search_finds_all(f: TaggedFileModel)
    ensures
        meets_all(f, seq![ConditionModel::fresh()]),
{
}

/// Where all conditions are joined by "and", a file must meet each.
pub proof fn law_and_needs_all(f: TaggedFileModel, conditions: Seq<ConditionModel>)
    requires
        forall|i: int|
            0 <= i < conditions.len() ==> (#[trigger] conditions[i]).operator
                == LogicalOperator::And,
    ensures
        meets_all(f, conditions) <==> forall|i: int|
            0 <= i < conditions.len() ==> meets(f, #[trigger] conditions[i]),
    decreases conditions.len(),
{
    if conditions.len() > 1 {
        let t = conditions.drop_last();
        assert forall|i: int| 0 <= i < t.len() implies (#[trigger] t[i]).operator
            == LogicalOperator::And by {
            assert(conditions[i].operator == LogicalOperator::And);
        }
        law_and_needs_all(f, t);
        assert(conditions.last() == conditions[conditions.len() - 1]);
        if forall|i: int| 0 <= i < t.len() ==> meets(f, #[trigger] t[i]) {
            if meets(f, conditions.last()) {
                assert forall|i: int| 0 <= i < conditions.len() implies meets(
                    f,
                    #[trigger] conditions[i],
                ) by {
                    if i < t.len() {
                        assert(meets(f, t[i]));
                    }
                }
            }
        }
        if forall|i: int| 0 <= i < conditions.len() ==> meets(f, #[trigger] conditions[i]) {
            assert forall|i: int| 0 <= i < t.len() implies meets(f, #[trigger] t[i]) by {
                assert(meets(f, conditions[i]));
            }
        }
    }
}

} // verus!
