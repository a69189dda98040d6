//! What the browser shows: its lists, the release in hand and its tracks.

use vstd::prelude::*;

use crate::lists::{distinct, law_distinct, tally};
use crate::ordering::{law_in_order, law_in_order_contains};
use crate::paths::{behind_slash, last_dot, lemma_behind_slash, lemma_last_dot};
use crate::release_packing::render::{details_view, first_alternatives, head_folder, held_scroll, is_word, left_entries, overview_view, pin_view, release_rows, slot_view, summary_view, tail_format, tail_name, track_view, tracks_drawn, tracks_shown, with_count, word_counts, WordCount, WordCountModel};
use crate::release_packing::state::{click_rows, PackingModel};
use crate::release_packing::types::{AlternativeModel, FocusedPane, ReleaseModel, SlotModel, TrackInfoModel};
use crate::screen::{law_window_shows_from_there, Rect};
use crate::text::{decimal, dotted, lowercase, padded_left, text_before};
use crate::text_input::TextInputModel;

verus! {

// ---------------------------------------------------------------------------
// Counts
// ---------------------------------------------------------------------------

/// Each word is counted once, with how often it occurs; the commoner come first,
/// and of equally common ones the lesser text.
pub proof fn law_words_are_counted(words: Seq<Seq<char>>)
    ensures
        forall|w: WordCountModel| #[trigger]
            word_counts(words).contains(w) <==> words.contains(w.word) && w.count == tally(
                words,
                |v: Seq<char>| v == w.word,
            ),
        forall|i: int, j: int|
            0 <= i < j < word_counts(words).len() ==> (#[trigger] word_counts(words)[i]).count >= (
            #[trigger] word_counts(words)[j]).count,
        forall|i: int, j: int|
            0 <= i < j < word_counts(words).len() && (#[trigger] word_counts(words)[i]).count == (
            #[trigger] word_counts(words)[j]).count ==> !text_before(
                word_counts(words)[j].word,
                word_counts(words)[i].word,
            ),
        word_counts(words).len() == distinct(words).len(),
{
    let all = distinct(words).map_values(with_count(words));
    let first = |a: WordCountModel, b: WordCountModel|
        <WordCount as crate::ordering::Ranked>::precedes(a, b);
    let r = word_counts(words);
    law_distinct(words);
    lemma_counts_rank();
    law_in_order(all, first);
    law_in_order_contains(all, first);
    assert forall|w: WordCountModel| #[trigger] r.contains(w) <==> words.contains(w.word) && w.count
        == tally(words, |v: Seq<char>| v == w.word) by {
        assert((|v: Seq<char>| v == w.word) =~= is_word(w.word));
        if all.contains(w) {
            let k = choose|k: int| 0 <= k < all.len() && all[k] == w;
            assert(distinct(words).contains(distinct(words)[k]));
            assert(distinct(words)[k] == w.word);
        }
        if words.contains(w.word) && w.count == tally(words, is_word(w.word)) {
            assert(distinct(words).contains(w.word));
            let k = choose|k: int| 0 <= k < distinct(words).len() && distinct(words)[k] == w.word;
            assert(all[k] == w);
            assert(all.contains(w));
        }
    }
    assert forall|i: int, j: int| 0 <= i < j < r.len() implies !first(
        #[trigger] r[j],
        #[trigger] r[i],
    ) by {}
}

proof fn lemma_counts_rank()
    ensures
        crate::ordering::ranks(
            |a: WordCountModel, b: WordCountModel|
                <WordCount as crate::ordering::Ranked>::precedes(a, b),
        ),
{
    assert forall|a: Seq<char>, b: Seq<char>, c: Seq<char>|
        #![trigger text_before(a, b), text_before(b, c)]
        text_before(a, b) && text_before(b, c) implies text_before(a, c) by {
        crate::text::law_text_before_transitive(a, b, c);
    }
    assert forall|a: Seq<char>| !#[trigger] text_before(a, a) by {
        crate::text::law_text_before_irreflexive(a);
    }
    assert forall|a: Seq<char>, b: Seq<char>|
        #![trigger text_before(a, b)]
        !text_before(a, b) && !text_before(b, a) implies a == b by {
        crate::text::law_text_before_total(a, b);
    }
}

/// The folder and the name of a path stand before and behind its last slash, and
/// the format behind its last dot.
pub proof fn law_path_is_taken_apart(p: Seq<char>)
    ensures
        p.contains('/') ==> head_folder(p) + seq!['/'] + tail_name(p) == p,
        !p.contains('/') ==> tail_name(p) == p && head_folder(p) == "?"@,
        !tail_name(p).contains('/'),
        exists|suffix: Seq<char>|
            #![trigger lowercase(suffix)]
            tail_format(p) == lowercase(suffix) && !suffix.contains('.') && suffix == p.skip(
                p.len() - suffix.len(),
            ) && (p.len() > suffix.len() ==> p[p.len() - suffix.len() - 1] == '.'),
{
    lemma_behind_slash(p, p.len());
    let k = behind_slash(p, p.len());
    let name = tail_name(p);
    assert forall|i: int| 0 <= i < name.len() implies #[trigger] name[i] != '/' by {
        assert(p[k + i] != '/');
    }
    if k > 0 {
        assert(p[k - 1] == '/');
        assert(head_folder(p) + seq!['/'] + name =~= p);
    } else {
        assert(name =~= p);
        if p.contains('/') {
            let i = choose|i: int| 0 <= i < p.len() && p[i] == '/';
            assert(p[i] != '/');
        }
    }
    lemma_last_dot(p, p.len());
    let d = last_dot(p, p.len());
    let suffix = p.skip(d as int);
    assert forall|i: int| 0 <= i < suffix.len() implies #[trigger] suffix[i] != '.' by {
        assert(p[d + i] != '.');
    }
    assert(tail_format(p) == lowercase(suffix));
    assert(p.skip(p.len() - suffix.len()) =~= suffix);
}

// ---------------------------------------------------------------------------
// The left list
// ---------------------------------------------------------------------------

/// Each entry has a line: a release its title and how many of its tracks there are,
/// any other file its name. The one in hand is pointed at.
pub proof fn law_entries_are_shown(m: PackingModel, i: int, width: nat)
    requires
        0 <= i < m.entries.len(),
        width >= 10,
        m.entries[i] is Release ==> m.entries[i]->Release_idx < m.releases.len(),
        m.entries[i] is Unmatched ==> m.entries[i]->Unmatched_idx < m.unmatched.len(),
    ensures
        ({
            let l = left_entries(m, width)[i];
            let r = m.releases[m.entries[i]->Release_idx as int];
            let u = m.unmatched[m.entries[i]->Unmatched_idx as int];
            let selected = m.focused_pane == FocusedPane::LeftPane && m.cursor == i;
            let room = (width - 10) as nat;
            &&& left_entries(m, width).len() == m.entries.len()
            &&& l.spans[0].text == (if selected {
                "▸ "@
            } else {
                "  "@
            })
            &&& l.spans[0].style.bold == selected && l.spans[1].style.bold == selected
            &&& m.entries[i] is Release ==> l.spans[1].text == dotted(r.release_title, room)
                && l.spans[2].text == " "@ + decimal(r.tracks.len()) + "/"@ + decimal(
                r.total_tracks as nat,
            )
            &&& m.entries[i] is Release ==> l.spans.len() == 3 + (if r.alternatives.len() > 0 {
                1int
            } else {
                0
            }) + (if r.va_override is Some {
                1int
            } else {
                0
            })
            &&& m.entries[i] is Release && r.alternatives.len() > 0 ==> l.spans[3].text == " +"@
                + decimal(r.alternatives.len())
            &&& m.entries[i] is Unmatched ==> l.spans[1].text == dotted(tail_name(u.path), room)
        }),
{
}

/// Each line of the list can be clicked where it is drawn: under its number, in the
/// row as far below the top.
pub proof fn law_lines_are_clicked_where_drawn(entries: nat, area: Rect, i: int)
    requires
        0 <= i < entries,
        area.y + i <= u16::MAX,
    ensures
        click_rows(entries, area).rows.len() == entries,
        click_rows(entries, area).rows[i].0 == decimal(i as nat),
        click_rows(entries, area).rows[i].1 == area.y + i,
        click_rows(entries, area).list_area == Some(area),
{
}

/// An area that is too small for the list leaves what could be clicked as it was.
pub proof fn law_small_area_draws_no_list(m: PackingModel, area: Rect)
    ensures
        area.height < 2 || area.width < 10 ==> m.drawn_in(area) == m,
        area.height >= 2 && area.width >= 10 ==> m.drawn_in(area).click_targets == click_rows(
            m.entries.len(),
            area,
        ) && m.drawn_in(area).cursor == m.cursor && m.drawn_in(area).entries == m.entries,
{
}

/// A release can be pinned where one is in hand and none is being pinned.
pub proof fn law_release_can_be_pinned(m: PackingModel)
    ensures
        m.can_pin() <==> m.pin_input is None && m.cursor < m.entries.len()
            && m.entries[m.cursor as int] is Release && m.entries[m.cursor as int]->Release_idx
            < m.releases.len(),
{
}

// ---------------------------------------------------------------------------
// The tracks
// ---------------------------------------------------------------------------

/// The tracks of a release are listed, then its gaps; the one in hand is pointed at
/// where the list is in focus, and no other.
pub proof fn law_tracks_and_gaps_are_listed(
    r: ReleaseModel,
    focused: bool,
    cursor: usize,
    i: int,
)
    requires
        0 <= i < r.tracks.len() + r.unfilled.len(),
    ensures
        ({
            let rows = release_rows(r, focused, cursor);
            let l = rows[i];
            let gap = r.unfilled[i - r.tracks.len()];
            &&& rows.len() == r.tracks.len() + r.unfilled.len()
            &&& l.spans[0].text == (if focused && cursor == i {
                "▸ "@
            } else {
                "  "@
            })
            &&& i < r.tracks.len() ==> l.spans[1].text == padded_left(r.tracks[i].track_number, 2)
                + " "@ && l.spans[2].text == dotted(tail_name(r.tracks[i].path), 30)
                && l.spans[3].text == "  "@ + r.tracks[i].score.0
            &&& i >= r.tracks.len() ==> l.spans[1].text == padded_left(
                decimal(gap.track_pos as nat),
                2,
            ) + " "@ && l.spans[3].text == dotted(gap.track_title, 28)
        }),
{
}

/// The track in hand stays among the tracks and gaps of the release, and is among
/// the lines that are shown.
pub proof fn law_track_in_hand_is_shown(m: PackingModel, idx: int, height: nat)
    requires
        0 <= idx < m.releases.len(),
        0 < m.releases[idx].tracks.len() + m.releases[idx].unfilled.len() <= usize::MAX,
        0 < height <= usize::MAX,
    ensures
        ({
            let n = tracks_drawn(m, idx, height);
            let count = m.releases[idx].tracks.len() + m.releases[idx].unfilled.len();
            &&& n.track_cursor < count
            &&& m.track_cursor < count ==> n.track_cursor == m.track_cursor
            &&& m.track_cursor >= count ==> n.track_cursor == count - 1
            &&& n.track_scroll <= n.track_cursor < n.track_scroll + height
            &&& m.track_cursor < count ==> tracks_shown(m, idx, height)[n.track_cursor
                - n.track_scroll] == release_rows(
                m.releases[idx],
                m.focused_pane == FocusedPane::MiddlePane,
                m.track_cursor,
            )[n.track_cursor as int]
        }),
{
    let n = tracks_drawn(m, idx, height);
    crate::release_packing::render::law_line_in_hand_is_shown(
        n.track_cursor as int,
        m.track_scroll as int,
        height as int,
    );
    law_window_shows_from_there(
        release_rows(
            m.releases[idx],
            m.focused_pane == FocusedPane::MiddlePane,
            m.track_cursor,
        ),
        n.track_scroll as nat,
        height,
    );
}

// ---------------------------------------------------------------------------
// The details
// ---------------------------------------------------------------------------

/// The details are of what is in hand: the release while the list is, and else the
/// track or the gap, or the release where there is neither.
pub proof fn law_details_are_of_what_is_in_hand(m: PackingModel)
    requires
        m.cursor < m.entries.len(),
        m.entries[m.cursor as int] is Release,
        m.entries[m.cursor as int]->Release_idx < m.releases.len(),
    ensures
        ({
            let r = m.releases[m.entries[m.cursor as int]->Release_idx as int];
            let left = m.focused_pane == FocusedPane::LeftPane;
            let at = m.track_cursor;
            &&& left ==> details_view(m) == overview_view(r, m.category)
            &&& !left && at < r.tracks.len() ==> details_view(m) == track_view(
                r.tracks[at as int],
                r,
            )
            &&& !left && r.tracks.len() <= at < r.tracks.len() + r.unfilled.len() ==> details_view(
                m,
            ) == slot_view(r.unfilled[at - r.tracks.len()], r)
            &&& !left && at >= r.tracks.len() + r.unfilled.len() ==> details_view(m)
                == summary_view(r, m.category)
        }),
{
}

/// The details of a track are its own.
pub proof fn law_track_details(t: TrackInfoModel, r: ReleaseModel)
    ensures
        ({
            let v = track_view(t, r);
            let b = t.score_breakdown;
            &&& v.len() == 21
            &&& v[2].spans[1].text == t.path
            &&& v[4].spans[1].text == r.release_title
            &&& t.medium_format is Some ==> v[5].spans[1].text == "Disc "@ + decimal(
                t.medium_position as nat,
            ) + ", Track "@ + decimal(t.track_position as nat) + " ("@ + t.medium_format->0 + ")"@
            &&& v[6].spans[1].text == t.track_title
            &&& v[7].spans[1].text == t.recording_id
            &&& v[9].spans[1].text == t.score.1
            &&& v[12].spans[1].text == " "@ + b.acoustid_confidence.text + "  "@
            &&& v[13].spans[1].text == " "@ + b.duration_match.text + "  "@
            &&& v[14].spans[1].text == " "@ + b.title_match.text + "  "@
            &&& v[15].spans[1].text == " "@ + b.artist_match.text + "  "@
            &&& v[16].spans[1].text == " "@ + b.album_match.text + "  "@
            &&& v[17].spans[1].text == " "@ + b.track_number_match.text + "  "@
            &&& v[19].spans[1].text == decimal(t.alternatives_count as nat)
        }),
{
}

/// The details of a gap are its own.
pub proof fn law_gap_details(s: SlotModel, r: ReleaseModel)
    ensures
        ({
            let v = slot_view(s, r);
            &&& v[2].spans[1].text == r.release_title
            &&& v[3].spans[1].text == r.release_artist
            &&& v[4].spans[1].text == "Disc "@ + decimal(s.medium_pos as nat) + ", Track "@
                + decimal(s.track_pos as nat)
            &&& v[5].spans[1].text == s.track_title
            &&& v[6].spans[1].text == s.recording_id
        }),
{
}

/// Each release that lost is shown in three lines, numbered in turn.
pub proof fn law_alternatives_are_shown(all: Seq<AlternativeModel>, n: nat, i: int)
    requires
        0 <= i < n <= all.len(),
    ensures
        first_alternatives(all, n).len() == 3 * n,
        first_alternatives(all, n)[3 * i].spans[0].text == "  "@ + decimal((i + 1) as nat) + ". "@,
        first_alternatives(all, n)[3 * i].spans[1].text == all[i].release_title,
        first_alternatives(all, n)[3 * i + 1].spans[1].text == all[i].release_artist,
        first_alternatives(all, n)[3 * i + 1].spans[3].text == all[i].alternative_score + "/"@
            + all[i].winner_score,
        first_alternatives(all, n)[3 * i + 2].spans[1].text == all[i].release_id,
    decreases n,
{
    lemma_alternatives_len(all, (n - 1) as nat);
    if i < n - 1 {
        law_alternatives_are_shown(all, (n - 1) as nat, i);
    }
}

proof fn lemma_alternatives_len(all: Seq<AlternativeModel>, n: nat)
    ensures
        first_alternatives(all, n).len() == 3 * n,
    decreases n,
{
    if n > 0 {
        lemma_alternatives_len(all, (n - 1) as nat);
    }
}

/// The details are not scrolled past their end.
pub proof fn law_details_end(total: nat, scroll: usize, height: nat)
    requires
        total <= usize::MAX,
    ensures
        total <= height ==> held_scroll(total, scroll, height) == 0,
        total > height ==> held_scroll(total, scroll, height) + height <= total,
        total > height && scroll + height <= total ==> held_scroll(total, scroll, height) == scroll,
        total > height && scroll + height > total ==> held_scroll(total, scroll, height) + height
            == total,
{
}

/// What is typed of an id is shown as it is, with the place of the cursor.
pub proof fn law_typed_id_is_shown(t: TextInputModel, error: Option<Seq<char>>)
    requires
        t.wf(),
    ensures
        ({
            let s = pin_view(t, error)[0].spans;
            &&& t.cursor < t.value.len() ==> s[1].text + s[2].text + s[3].text == t.value
            &&& t.cursor == t.value.len() ==> s[1].text + s[3].text == t.value && s[2].text
                == seq![' ']
            &&& s[1].text.len() == t.cursor
            &&& error is Some ==> pin_view(t, error)[1].spans[0].text == error->0
            &&& error is None ==> pin_view(t, error).len() == 2
        }),
{
    let s = pin_view(t, error)[0].spans;
    if t.cursor < t.value.len() {
        assert(s[1].text + s[2].text + s[3].text =~= t.value);
    } else {
        assert(s[1].text + s[3].text =~= t.value);
    }
}

} // verus!
