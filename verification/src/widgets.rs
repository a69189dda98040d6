//! Small pieces of state that several screens share.

use std::collections::HashSet;

use vstd::prelude::*;


verus! {

/// Which pane of a list-and-buttons screen has the focus.
#[derive(Debug, Clone, Copy, PartialEq, Eq, Structural)]
pub enum FocusPane {
    List,
    Buttons,
}

impl FocusPane {
    /// The pane before this one, round the end.
    #[verifier::allow_in_spec]
    pub fn prev(self) -> Self
        returns
            (match self {
                FocusPane::List => FocusPane::Buttons,
                FocusPane::Buttons => FocusPane::List,
            }),
    {
        match self {
            FocusPane::List => FocusPane::Buttons,
            FocusPane::Buttons => FocusPane::List,
        }
    }

    /// The pane after this one, round the end.
    #[verifier::allow_in_spec]
    pub fn next(self) -> Self
        returns
            (match self {
                FocusPane::List => FocusPane::Buttons,
                FocusPane::Buttons => FocusPane::List,
            }),
    {
        match self {
            FocusPane::List => FocusPane::Buttons,
            FocusPane::Buttons => FocusPane::List,
        }
    }
}

/// Which items of a list are selected, by their place.
#[derive(Debug)]
pub struct BulkSelectionState {
    pub selected: HashSet<usize>,
}

impl View for BulkSelectionState {
    type V = Set<usize>;

    open spec fn view(&self) -> Set<usize> {
        self.selected@
    }
}

/// A selection with one place switched over.
pub open spec fn toggled(s: Set<usize>, i: usize) -> Set<usize> {
    if s.contains(i) {
        s.remove(i)
    } else {
        s.insert(i)
    }
}

/// A selection with some places switched over together: all of them out where
/// all of them are in, else all of them in.
pub open spec fn toggled_all(s: Set<usize>, places: Seq<usize>) -> Set<usize> {
    if forall|k: int| 0 <= k < places.len() ==> s.contains(#[trigger] places[k]) {
        s.difference(places.to_set())
    } else {
        s.union(places.to_set())
    }
}

/// The places below `n`.
pub open spec fn first_places(n: nat) -> Set<usize> {
    Set::new(|i: usize| i < n)
}

/// Switches one place of a selection over.
pub fn toggle(s: &mut HashSet<usize>, i: usize)
    ensures
        final(s)@ == toggled(old(s)@, i),
{
    if s.contains(&i) {
        s.remove(&i);
    } else {
        s.insert(i);
    }
}

/// The selection of every place below `n`.
pub fn all_below(n: usize) -> (r: HashSet<usize>)
    ensures
        r@ == first_places(n as nat),
{
    let mut s: HashSet<usize> = HashSet::new();
    proof {
        assert(s@ =~= first_places(0));
    }
    for i in 0..n
        invariant
            s@ == first_places(i as nat),
    {
        s.insert(i);
        proof {
            assert(s@ =~= first_places((i + 1) as nat));
        }
    }
    s
}

impl BulkSelectionState {
    /// Nothing selected.
    pub fn new() -> (r: Self)
        ensures
            r@ == Set::<usize>::empty(),
    {
        BulkSelectionState { selected: HashSet::new() }
    }

    /// Selects the first `n` places and no others.
    pub fn select_all(&mut self, n: usize)
        ensures
            final(self)@ == first_places(n as nat),
    {
        self.selected = all_below(n);
    }

    /// Switches one place over.
    pub fn toggle(&mut self, i: usize)
        ensures
            final(self)@ == toggled(old(self)@, i),
    {
        toggle(&mut self.selected, i);
    }

    /// Switches some places over together.
    pub fn toggle_all_filtered(&mut self, places: &Vec<usize>)
        ensures
            final(self)@ == toggled_all(old(self)@, places@),
    {
        let ghost start = self@;
        let mut all: bool = true;
        let mut i: usize = 0;
        while i < places.len()
            invariant
                i <= places.len(),
                self@ == start,
                all == (forall|k: int| 0 <= k < i ==> start.contains(#[trigger] places@[k])),
            decreases places.len() - i,
        {
            if !self.selected.contains(&places[i]) {
                all = false;
            }
            i = i + 1;
        }
        i = 0;
        proof {
            assert(places@.take(0).to_set() =~= Set::<usize>::empty());
            assert(start.difference(Set::<usize>::empty()) =~= start);
            assert(start.union(Set::<usize>::empty()) =~= start);
        }
        while i < places.len()
            invariant
                i <= places.len(),
                all ==> self@ == start.difference(places@.take(i as int).to_set()),
                !all ==> self@ == start.union(places@.take(i as int).to_set()),
            decreases places.len() - i,
        {
            let place: usize = places[i];
            if all {
                self.selected.remove(&place);
            } else {
                self.selected.insert(place);
            }
            proof {
                lemma_prefix_set(places@, i as int);
                assert(all ==> self@ =~= start.difference(places@.take(i as int + 1).to_set()));
                assert(!all ==> self@ =~= start.union(places@.take(i as int + 1).to_set()));
            }
            i = i + 1;
        }
        proof {
            assert(places@.take(places.len() as int) =~= places@);
        }
    }

    /// Whether a place is selected.
    pub fn is_selected(&self, i: usize) -> (r: bool)
        ensures
            r == self@.contains(i),
    {
        self.selected.contains(&i)
    }

    /// Whether anything is selected.
    pub fn is_active(&self) -> (r: bool)
        ensures
            r == (self@.len() != 0),
    {
        self.selected.len() != 0
    }

    /// How many places are selected.
    pub fn selection_count(&self) -> (r: usize)
        ensures
            r == self@.len(),
    {
        self.selected.len()
    }

    /// The mark before a place.
    pub fn marker(&self, i: usize) -> (r: &'static str)
        ensures
            r@ == marker_text(self@, i),
    {
        if self.selected.contains(&i) {
            "[x]"
        } else {
            "[ ]"
        }
    }
}

/// The mark before a place: checked where it is selected.
pub open spec fn marker_text(selected: Set<usize>, i: usize) -> Seq<char> {
    if selected.contains(i) {
        "[x]"@
    } else {
        "[ ]"@
    }
}

/// The set of a prefix grows by its next item.
pub proof fn lemma_prefix_set(s: Seq<usize>, i: int)
    requires
        0 <= i < s.len(),
    ensures
        s.take(i + 1).to_set() == s.take(i).to_set().insert(s[i]),
{
    let a = s.take(i + 1);
    let b = s.take(i);
    assert forall|x: usize| a.to_set().contains(x) == b.to_set().insert(s[i]).contains(x) by {
        if a.contains(x) {
            let k = choose|k: int| 0 <= k < a.len() && a[k] == x;
            if k < i {
                assert(b[k] == x);
            }
        }
        if b.contains(x) {
            let k = choose|k: int| 0 <= k < b.len() && b[k] == x;
            assert(a[k] == x);
        }
        assert(a[i] == s[i]);
    }
    assert(a.to_set() =~= b.to_set().insert(s[i]));
}

/// Switching a place over twice restores the selection.
pub proof fn law_toggle_twice(s: Set<usize>, i: usize)
    ensures
        toggled(toggled(s, i), i) == s,
{
    assert(toggled(toggled(s, i), i) =~= s);
}

/// Switching some places over together leaves the others alone, and after it
/// these are all selected or all not.
pub proof fn law_toggle_all(s: Set<usize>, places: Seq<usize>)
    ensures
        forall|i: usize|
            !places.contains(i) ==> #[trigger] toggled_all(s, places).contains(i) == s.contains(i),
        (forall|k: int|
            0 <= k < places.len() ==> toggled_all(s, places).contains(#[trigger] places[k])) || (
        forall|k: int|
            0 <= k < places.len() ==> !toggled_all(s, places).contains(#[trigger] places[k])),
{
    assert forall|k: int| 0 <= k < places.len() implies places.to_set().contains(
        #[trigger] places[k],
    ) by {
        assert(places.contains(places[k]));
    }
}

/// A list in a window, kept so that the cursor is shown: the first place shown.
#[verifier::allow_in_spec]
pub fn scrolled_to(cursor: usize, scroll: usize, height: usize) -> usize
    requires
        scroll + height <= usize::MAX,
    returns
        (if cursor >= scroll + height {
            if height == 0 {
                cursor
            } else {
                (cursor - (height - 1)) as usize
            }
        } else if cursor < scroll {
            cursor
        } else {
            scroll
        }),
{
    if cursor >= scroll + height {
        if height == 0 {
            cursor
        } else {
            cursor - (height - 1)
        }
    } else if cursor < scroll {
        cursor
    } else {
        scroll
    }
}

/// The cursor lies in the window that it was scrolled to.
pub proof fn law_scrolled_to_shows(cursor: usize, scroll: usize, height: usize)
    requires
        scroll + height <= usize::MAX,
        height > 0,
    ensures
        scrolled_to(cursor, scroll, height) <= cursor,
        cursor < scrolled_to(cursor, scroll, height) + height,
{
}

/// The last place of a list, or the first where it is empty.
pub open spec fn last_place(n: nat) -> nat {
    if n == 0 {
        0
    } else {
        (n - 1) as nat
    }
}

/// The place one up.
#[verifier::allow_in_spec]
pub fn up_one(scroll: usize) -> usize
    returns
        (if scroll > 0 {
            (scroll - 1) as usize
        } else {
            0
        }),
{
    if scroll > 0 {
        scroll - 1
    } else {
        0
    }
}

/// The place ten up.
#[verifier::allow_in_spec]
pub fn up_ten(scroll: usize) -> usize
    returns
        (if scroll > 10 {
            (scroll - 10) as usize
        } else {
            0
        }),
{
    if scroll > 10 {
        scroll - 10
    } else {
        0
    }
}

/// The place one down, if there is one.
pub open spec fn down(scroll: usize, n: nat) -> usize {
    if scroll < last_place(n) {
        (scroll + 1) as usize
    } else {
        scroll
    }
}

/// The place ten down, or the last.
pub open spec fn down_page(scroll: usize, n: nat) -> usize {
    if scroll + 10 < last_place(n) {
        (scroll + 10) as usize
    } else {
        last_place(n) as usize
    }
}

/// The place one down, if there is one.
pub fn down_one(scroll: usize, n: usize) -> (r: usize)
    ensures
        r == down(scroll, n as nat),
{
    if n > 0 && scroll < n - 1 {
        scroll + 1
    } else {
        scroll
    }
}

/// The place ten down, or the last.
pub fn down_ten(scroll: usize, n: usize) -> (r: usize)
    ensures
        r == down_page(scroll, n as nat),
{
    let last: usize = if n == 0 {
        0
    } else {
        n - 1
    };
    if last > 10 && scroll < last - 10 {
        scroll + 10
    } else {
        last
    }
}

/// Switching one place changes that place and no other.
pub proof fn law_toggle_changes_one(s: Set<usize>, i: usize, j: usize)
    ensures
        toggled(s, i).contains(i) == !s.contains(i),
        j != i ==> toggled(s, i).contains(j) == s.contains(j),
        marker_text(s, i) == "[x]"@ <==> s.contains(i),
        marker_text(s, i) == "[ ]"@ <==> !s.contains(i),
{
    reveal_strlit("[x]");
    reveal_strlit("[ ]");
    assert("[x]"@[1] != "[ ]"@[1]);
}

/// Switching some places takes them all out where all were in, and else puts them
/// all in.
pub proof fn law_toggle_all_is_all_or_none(s: Set<usize>, places: Seq<usize>, i: usize)
    requires
        places.contains(i),
    ensures
        toggled_all(s, places).contains(i) <==> exists|k: int|
            0 <= k < places.len() && !s.contains(#[trigger] places[k]),
{
    assert(places.to_set().contains(i));
}

/// Down and up go one by one, or ten by ten, and not past the ends.
pub proof fn law_scrolling_stops_at_the_ends(scroll: usize, n: usize)
    requires
        scroll < n,
    ensures
        down(scroll, n as nat) == (if scroll + 1 == n {
            scroll as int
        } else {
            scroll + 1
        }),
        down_page(scroll, n as nat) == (if scroll + 10 < n {
            scroll + 10
        } else {
            n - 1
        }),
        scroll > 0 ==> down(up_one(scroll), n as nat) == scroll,
        up_one(scroll) <= scroll <= up_one(scroll) + 1,
        up_ten(scroll) <= scroll <= up_ten(scroll) + 10,
        up_one(scroll) == scroll ==> scroll == 0,
        up_ten(scroll) > 0 ==> up_ten(scroll) + 10 == scroll,
{
}

} // verus!
