//! Paths as text: names, folders, suffixes, and joining.
//!
//! A path is a string whose components are parted by `/`. Empty components and
//! components `.` behind the first say nothing and are passed over.

use vstd::prelude::*;

use crate::ordering::{in_order, sorted, Ranked};
use crate::screen::{nothing, put};
use crate::text;

verus! {

/// A path without what says nothing at its end: slashes, and components `.`
/// behind a slash.
pub open spec fn solid(p: Seq<char>) -> Seq<char>
    decreases p.len(),
{
    if p.len() > 0 && p.last() == '/' {
        solid(p.drop_last())
    } else if p.len() > 1 && p.last() == '.' && p[p.len() - 2] == '/' {
        solid(p.drop_last())
    } else {
        p
    }
}

/// The place behind the last slash before `end`, or 0 where there is none.
pub open spec fn behind_slash(p: Seq<char>, end: nat) -> nat
    decreases end,
{
    if end == 0 || end > p.len() {
        0
    } else if p[end - 1] == '/' {
        end
    } else {
        behind_slash(p, (end - 1) as nat)
    }
}

/// The last component of a path, if that is a name: not the root, not `.` and
/// not `..`.
pub open spec fn name_in(p: Seq<char>) -> Option<Seq<char>> {
    let t = solid(p);
    let name = t.skip(behind_slash(t, t.len()) as int);
    if name == Seq::<char>::empty() || name == seq!['.'] || name == seq!['.', '.'] {
        None
    } else {
        Some(name)
    }
}

/// The path up to its last component, with the slash before it.
pub open spec fn folder_in(p: Seq<char>) -> Seq<char> {
    let t = solid(p);
    t.take(behind_slash(t, t.len()) as int)
}

/// The suffix of a name: what stands behind its last dot, where the name has a
/// dot other than a first one.
pub open spec fn suffix_in(name: Seq<char>) -> Option<Seq<char>> {
    let dot = last_dot(name, name.len());
    if dot <= 1 {
        None
    } else {
        Some(name.skip(dot as int))
    }
}

/// The place behind the last dot before `end`, or 0 where there is none.
pub open spec fn last_dot(p: Seq<char>, end: nat) -> nat
    decreases end,
{
    if end == 0 || end > p.len() {
        0
    } else if p[end - 1] == '.' {
        end
    } else {
        last_dot(p, (end - 1) as nat)
    }
}

/// A path under a root. A path that begins at the root directory stays as it is.
pub open spec fn under(root: Seq<char>, p: Seq<char>) -> Seq<char> {
    if p.len() > 0 && p[0] == '/' {
        p
    } else if root.len() == 0 || root.last() == '/' {
        root + p
    } else {
        root.push('/') + p
    }
}

/// Where the solid part of a path ends and where its last component starts.
fn cut(x: &Vec<char>) -> (r: (usize, usize))
    ensures
        r.1 <= r.0 <= x.len(),
        solid(x@) == x@.take(r.0 as int),
        behind_slash(solid(x@), solid(x@).len()) == r.1,
{
    let mut end: usize = x.len();
    proof {
        assert(x@.take(x.len() as int) =~= x@);
    }
    while end > 0 && (x[end - 1] == '/' || (end > 1 && x[end - 1] == '.' && x[end - 2] == '/'))
        invariant
            end <= x.len(),
            solid(x@) == solid(x@.take(end as int)),
        decreases end,
    {
        proof {
            assert(x@.take(end as int).drop_last() =~= x@.take(end - 1));
        }
        end = end - 1;
    }
    let ghost t = x@.take(end as int);
    let mut at: usize = end;
    while at > 0 && x[at - 1] != '/'
        invariant
            at <= end <= x.len(),
            t == x@.take(end as int),
            behind_slash(t, t.len()) == behind_slash(t, at as nat),
        decreases at,
    {
        at = at - 1;
    }
    (end, at)
}

/// The last component of a path, if that is a name.
pub fn file_name(p: &str) -> (r: Option<&str>)
    ensures
        r is Some <==> name_in(p@) is Some,
        r is Some ==> Some(r->0@) == name_in(p@),
{
    let x: Vec<char> = text::chars_of(p);
    let (end, at) = cut(&x);
    let name: &str = p.substring_char(at, end);
    proof {
        assert(name@ =~= solid(p@).skip(at as int));
        reveal_strlit("");
        reveal_strlit(".");
        reveal_strlit("..");
        assert(""@ =~= Seq::<char>::empty());
        assert("."@ =~= seq!['.']);
        assert(".."@ =~= seq!['.', '.']);
    }
    if text::same(name, "") || text::same(name, ".") || text::same(name, "..") {
        None
    } else {
        Some(name)
    }
}

/// The last component of a path, or a word in its place.
pub fn name_or(p: &str, other: &str) -> (r: String)
    ensures
        r@ == (match name_in(p@) {
            Some(name) => name,
            None => other@,
        }),
{
    match file_name(p) {
        Some(name) => name.to_owned(),
        None => other.to_owned(),
    }
}

/// The path up to its last component, with the slash before it.
pub fn folder(p: &str) -> (r: &str)
    ensures
        r@ == folder_in(p@),
{
    let x: Vec<char> = text::chars_of(p);
    let (end, at) = cut(&x);
    proof {
        assert(p@.subrange(0, at as int) =~= solid(p@).take(at as int));
    }
    p.substring_char(0, at)
}

/// The suffix of a name.
pub fn suffix(name: &str) -> (r: Option<&str>)
    ensures
        r is Some <==> suffix_in(name@) is Some,
        r is Some ==> Some(r->0@) == suffix_in(name@),
{
    let x: Vec<char> = text::chars_of(name);
    let mut at: usize = x.len();
    while at > 0 && x[at - 1] != '.'
        invariant
            x@ == name@,
            at <= x.len(),
            last_dot(name@, name@.len()) == last_dot(name@, at as nat),
        decreases at,
    {
        at = at - 1;
    }
    if at <= 1 {
        None
    } else {
        let r: &str = name.substring_char(at, x.len());
        proof {
            assert(r@ =~= name@.skip(at as int));
        }
        Some(r)
    }
}

/// A path under a root.
pub fn resolve(root: &str, p: &str) -> (r: String)
    ensures
        r@ == under(root@, p@),
{
    let n: usize = root.unicode_len();
    if p.unicode_len() > 0 && p.get_char(0) == '/' {
        p.to_owned()
    } else if n == 0 || root.get_char(n - 1) == '/' {
        text::cat2(root, p)
    } else {
        let mut s: String = root.to_owned();
        s.push('/');
        s.append(p);
        s
    }
}

/// A part of a path.
pub enum Component {
    /// The slash at the beginning
    Root,
    /// A dot at the beginning
    Dot,
    /// Two dots
    Parent,
    /// A name
    Name(Seq<char>),
}

/// The components before what begins at a place: those of the text before the
/// slash there, or the root where nothing stands before that slash.
pub open spec fn components_before(p: Seq<char>, start: nat) -> Seq<Component>
    decreases start, 0nat,
{
    if start == 0 {
        Seq::empty()
    } else if start == 1 {
        seq![Component::Root]
    } else {
        components_to(p, (start - 1) as nat)
    }
}

/// Components with one more piece of text behind them. An empty piece says
/// nothing, nor does a dot, but for one at the beginning.
pub open spec fn with_piece(before: Seq<Component>, piece: Seq<char>, start: nat) -> Seq<Component> {
    if piece == Seq::<char>::empty() || (piece == seq!['.'] && start > 0) {
        before
    } else if piece == seq!['.'] {
        before.push(Component::Dot)
    } else if piece == seq!['.', '.'] {
        before.push(Component::Parent)
    } else {
        before.push(Component::Name(piece))
    }
}

/// The components of the text before `end`.
pub open spec fn components_to(p: Seq<char>, end: nat) -> Seq<Component>
    decreases end, 1nat,
{
    let start = behind_slash(p, end);
    if start > end {
        Seq::empty()
    } else {
        with_piece(components_before(p, start), p.subrange(start as int, end as int), start)
    }
}

/// The components of a path: the root, a dot at the beginning, pairs of dots,
/// and names. Paths with the same components lead to the same place.
pub open spec fn components(p: Seq<char>) -> Seq<Component> {
    components_to(p, p.len())
}

impl Component {
    /// The place of a kind of component among the kinds.
    pub open spec fn rank(self) -> int {
        match self {
            Component::Root => 0,
            Component::Dot => 1,
            Component::Parent => 2,
            Component::Name(_) => 3,
        }
    }

    /// Whether one component comes before another: the root, then a dot, then
    /// two dots, then names in the order of their text.
    pub open spec fn before(self, other: Component) -> bool {
        match (self, other) {
            (Component::Name(a), Component::Name(b)) => text::text_before(a, b),
            _ => self.rank() < other.rank(),
        }
    }
}

/// Whether one list of components comes before another: the first that differs
/// decides, and a list comes before those that go on from it.
pub open spec fn parts_before(a: Seq<Component>, b: Seq<Component>) -> bool
    decreases a.len(),
{
    if b.len() == 0 {
        false
    } else if a.len() == 0 {
        true
    } else if a[0] != b[0] {
        a[0].before(b[0])
    } else {
        parts_before(a.drop_first(), b.drop_first())
    }
}

/// Whether one path comes before another, by their components.
pub open spec fn path_before(a: Seq<char>, b: Seq<char>) -> bool {
    parts_before(components(a), components(b))
}

/// The condition of being a path, however it is spelt.
pub open spec fn is_path(p: Seq<char>) -> spec_fn(Seq<char>) -> bool {
    |q: Seq<char>| components(q) == components(p)
}

/// A part of a path, as it is worked with.
#[derive(Debug)]
enum Part {
    Root,
    Dot,
    Parent,
    Name(String),
}

impl DeepView for Part {
    type V = Component;

    closed spec fn deep_view(&self) -> Component {
        match self {
            Part::Root => Component::Root,
            Part::Dot => Component::Dot,
            Part::Parent => Component::Parent,
            Part::Name(s) => Component::Name(s@),
        }
    }
}

/// Puts a piece of text behind components.
fn put_piece(parts: &mut Vec<Part>, piece: &str, start: usize)
    ensures
        final(parts).deep_view() == with_piece(old(parts).deep_view(), piece@, start as nat),
{
    proof {
        reveal_strlit(".");
        reveal_strlit("..");
        assert("."@ =~= seq!['.']);
        assert(".."@ =~= seq!['.', '.']);
        assert(piece@.len() == 0 <==> piece@ =~= Seq::<char>::empty());
    }
    if piece.unicode_len() == 0 {
        return;
    }
    if text::same(piece, ".") {
        if start == 0 {
            put(parts, Part::Dot);
        }
    } else if text::same(piece, "..") {
        put(parts, Part::Parent);
    } else {
        put(parts, Part::Name(piece.to_owned()));
    }
}

/// The components of a path.
fn parts_of(p: &str) -> (r: Vec<Part>)
    ensures
        r.deep_view() == components(p@),
{
    let x: Vec<char> = text::chars_of(p);
    let mut parts: Vec<Part> = nothing();
    let mut start: usize = 0;
    let mut i: usize = 0;
    while i < x.len()
        invariant
            x@ == p@,
            start <= i <= x.len(),
            start == behind_slash(p@, i as nat),
            parts.deep_view() == components_before(p@, start as nat),
        decreases x.len() - i,
    {
        if x[i] == '/' {
            put_piece(&mut parts, p.substring_char(start, i), start);
            proof {
                assert(parts.deep_view() == components_to(p@, i as nat));
            }
            if i == 0 {
                proof {
                    assert(p@.subrange(0, 0) =~= Seq::<char>::empty());
                    assert(parts.deep_view() == Seq::<Component>::empty());
                }
                put(&mut parts, Part::Root);
            }
            start = i + 1;
        }
        i = i + 1;
    }
    put_piece(&mut parts, p.substring_char(start, x.len()), start);
    parts
}

/// Whether two parts are the same.
fn same_part(a: &Part, b: &Part) -> (r: bool)
    ensures
        r == (a.deep_view() == b.deep_view()),
{
    match (a, b) {
        (Part::Root, Part::Root) => true,
        (Part::Dot, Part::Dot) => true,
        (Part::Parent, Part::Parent) => true,
        (Part::Name(s), Part::Name(t)) => text::same(s.as_str(), t.as_str()),
        _ => false,
    }
}

fn rank_of(a: &Part) -> (r: u8)
    ensures
        r == a.deep_view().rank(),
{
    match a {
        Part::Root => 0,
        Part::Dot => 1,
        Part::Parent => 2,
        Part::Name(_) => 3,
    }
}

/// Whether one part comes before another.
fn part_before(a: &Part, b: &Part) -> (r: bool)
    ensures
        r == a.deep_view().before(b.deep_view()),
{
    match (a, b) {
        (Part::Name(s), Part::Name(t)) => text::comes_before(s.as_str(), t.as_str()),
        _ => rank_of(a) < rank_of(b),
    }
}

/// Whether one path comes before another.
pub fn comes_before(a: &str, b: &str) -> (r: bool)
    ensures
        r == path_before(a@, b@),
{
    let x: Vec<Part> = parts_of(a);
    let y: Vec<Part> = parts_of(b);
    let ghost s = x.deep_view();
    let ghost t = y.deep_view();
    let mut i: usize = 0;
    proof {
        assert(s.skip(0) =~= s);
        assert(t.skip(0) =~= t);
    }
    while i < x.len() && i < y.len() && same_part(&x[i], &y[i])
        invariant
            s == x.deep_view(),
            t == y.deep_view(),
            i <= x.len(),
            i <= y.len(),
            parts_before(s, t) == parts_before(s.skip(i as int), t.skip(i as int)),
        decreases x.len() - i,
    {
        proof {
            assert(s.skip(i as int).drop_first() =~= s.skip(i as int + 1));
            assert(t.skip(i as int).drop_first() =~= t.skip(i as int + 1));
        }
        i = i + 1;
    }
    proof {
        assert(s.len() == x.len() && t.len() == y.len());
    }
    if i >= y.len() {
        false
    } else if i >= x.len() {
        true
    } else {
        part_before(&x[i], &y[i])
    }
}

/// Whether two texts are the same path.
pub fn same_path(a: &str, b: &str) -> (r: bool)
    ensures
        r == is_path(b@)(a@),
{
    let x: Vec<Part> = parts_of(a);
    let y: Vec<Part> = parts_of(b);
    let ghost s = x.deep_view();
    let ghost t = y.deep_view();
    proof {
        assert(s.len() == x.len() && t.len() == y.len());
    }
    if x.len() != y.len() {
        return false;
    }
    let mut i: usize = 0;
    while i < x.len()
        invariant
            s == x.deep_view(),
            t == y.deep_view(),
            s == components(a@),
            t == components(b@),
            i <= x.len() == y.len(),
            forall|k: int| 0 <= k < i ==> s[k] == t[k],
        decreases x.len() - i,
    {
        if !same_part(&x[i], &y[i]) {
            proof {
                assert(s[i as int] != t[i as int]);
            }
            return false;
        }
        i = i + 1;
    }
    proof {
        assert(s =~= t);
    }
    true
}

/// Whether a path lies in a directory: it is neither empty nor the root.
pub open spec fn lies_in_directory(p: Seq<char>) -> bool {
    components(p).len() > 0 && components(p).last() != Component::Root
}

/// Whether a path lies in a directory.
pub fn has_parent(p: &str) -> (r: bool)
    ensures
        r == lies_in_directory(p@),
{
    let parts: Vec<Part> = parts_of(p);
    proof {
        assert(parts.deep_view().len() == parts.len());
    }
    if parts.len() == 0 {
        return false;
    }
    match &parts[parts.len() - 1] {
        Part::Root => false,
        _ => true,
    }
}

/// A path, to be ordered by its components.
#[derive(Debug)]
pub struct PathText {
    pub text: String,
}

impl DeepView for PathText {
    type V = Seq<char>;

    open spec fn deep_view(&self) -> Seq<char> {
        self.text@
    }
}

impl Ranked for PathText {
    open spec fn precedes(a: Seq<char>, b: Seq<char>) -> bool {
        path_before(a, b)
    }

    fn before(&self, other: &Self) -> (r: bool) {
        comes_before(self.text.as_str(), other.text.as_str())
    }
}

/// Whether one path comes before another, as a relation.
pub open spec fn by_components() -> spec_fn(Seq<char>, Seq<char>) -> bool {
    |a: Seq<char>, b: Seq<char>| PathText::precedes(a, b)
}

/// Paths in the order of their components.
pub fn sorted_paths(paths: Vec<String>) -> (r: Vec<String>)
    ensures
        r.deep_view() == in_order(paths.deep_view(), by_components()),
{
    let ghost all = paths.deep_view();
    let mut wrapped: Vec<PathText> = nothing();
    let mut i: usize = 0;
    while i < paths.len()
        invariant
            i <= paths.len(),
            all == paths.deep_view(),
            wrapped.len() == i,
            forall|k: int| 0 <= k < i ==> (#[trigger] wrapped[k]).deep_view() == all[k],
        decreases paths.len() - i,
    {
        wrapped.push(PathText { text: paths[i].clone() });
        i = i + 1;
    }
    proof {
        assert(wrapped.deep_view() =~= all);
    }
    let ordered: Vec<PathText> = sorted(wrapped);
    let ghost want = ordered.deep_view();
    let mut out: Vec<String> = nothing();
    let mut i: usize = 0;
    while i < ordered.len()
        invariant
            i <= ordered.len(),
            want == ordered.deep_view(),
            out.len() == i,
            forall|k: int| 0 <= k < i ==> (#[trigger] out[k])@ == want[k],
        decreases ordered.len() - i,
    {
        out.push(ordered[i].text.clone());
        i = i + 1;
    }
    proof {
        assert(out.deep_view() =~= want);
    }
    out
}

// ---------------------------------------------------------------------------
// Laws
// ---------------------------------------------------------------------------

proof fn lemma_component_order(a: Component, b: Component, c: Component)
    ensures
        !a.before(a),
        a.before(b) && b.before(c) ==> a.before(c),
        a == b || a.before(b) || b.before(a),
{
    if let Component::Name(x) = a {
        text::law_text_before_irreflexive(x);
        if let Component::Name(y) = b {
            text::law_text_before_total(x, y);
            if let Component::Name(z) = c {
                if text::text_before(x, y) && text::text_before(y, z) {
                    text::law_text_before_transitive(x, y, z);
                }
            }
        }
    }
}

proof fn lemma_parts_irreflexive(a: Seq<Component>)
    ensures
        !parts_before(a, a),
    decreases a.len(),
{
    if a.len() > 0 {
        lemma_parts_irreflexive(a.drop_first());
    }
}

proof fn lemma_parts_transitive(a: Seq<Component>, b: Seq<Component>, c: Seq<Component>)
    requires
        parts_before(a, b),
        parts_before(b, c),
    ensures
        parts_before(a, c),
    decreases a.len(),
{
    if a.len() > 0 && b.len() > 0 && c.len() > 0 {
        lemma_component_order(a[0], b[0], c[0]);
        lemma_component_order(b[0], a[0], b[0]);
        if a[0] == b[0] && b[0] == c[0] {
            lemma_parts_transitive(a.drop_first(), b.drop_first(), c.drop_first());
        }
    }
}

proof fn lemma_parts_total(a: Seq<Component>, b: Seq<Component>)
    ensures
        a == b || parts_before(a, b) || parts_before(b, a),
    decreases a.len(),
{
    if a.len() > 0 && b.len() > 0 {
        lemma_component_order(a[0], b[0], a[0]);
        if a[0] == b[0] {
            lemma_parts_total(a.drop_first(), b.drop_first());
            if a.drop_first() == b.drop_first() {
                assert(a =~= seq![a[0]] + a.drop_first());
                assert(b =~= seq![b[0]] + b.drop_first());
            }
        }
    } else if a.len() == 0 && b.len() == 0 {
        assert(a =~= b);
    }
}

/// The order of paths is a strict one, and of two paths neither comes before the
/// other exactly where they are the same path.
pub proof fn law_path_order(a: Seq<char>, b: Seq<char>, c: Seq<char>)
    ensures
        !path_before(a, a),
        path_before(a, b) && path_before(b, c) ==> path_before(a, c),
        !path_before(a, b) && !path_before(b, a) <==> is_path(a)(b),
{
    let x = components(a);
    let y = components(b);
    let z = components(c);
    lemma_parts_irreflexive(x);
    lemma_parts_total(x, y);
    if parts_before(x, y) && parts_before(y, z) {
        lemma_parts_transitive(x, y, z);
    }
}

/// Paths can be put in order.
pub proof fn law_paths_rank()
    ensures
        crate::ordering::ranks(by_components()),
{
    assert forall|a: Seq<char>| !#[trigger] by_components()(a, a) by {
        law_path_order(a, a, a);
    }
    assert forall|a: Seq<char>, b: Seq<char>, c: Seq<char>| #[trigger]
        by_components()(a, b) && #[trigger] by_components()(b, c) implies by_components()(a, c) by {
        law_path_order(a, b, c);
    }
    assert forall|a: Seq<char>, b: Seq<char>, c: Seq<char>|
        !#[trigger] by_components()(a, b) && !#[trigger] by_components()(b, c) implies !by_components()(
        a,
        c,
    ) by {
        lemma_not_before(a, b, c);
    }
}

/// What need not come after another need not come after what that need not.
pub proof fn lemma_not_before(a: Seq<char>, b: Seq<char>, c: Seq<char>)
    requires
        !path_before(a, b),
        !path_before(b, c),
    ensures
        !path_before(a, c),
{
    let x = components(a);
    let y = components(b);
    let z = components(c);
    lemma_parts_total(x, y);
    lemma_parts_total(y, z);
    if parts_before(x, z) && x != y && y != z {
        lemma_parts_transitive(z, y, x);
        lemma_parts_transitive(x, z, x);
        lemma_parts_irreflexive(x);
    }
}

proof fn lemma_behind_slash_bound(p: Seq<char>, end: nat)
    ensures
        behind_slash(p, end) <= end,
    decreases end,
{
    if 0 < end <= p.len() && p[end - 1] != '/' {
        lemma_behind_slash_bound(p, (end - 1) as nat);
    }
}

proof fn lemma_behind_slash_prefix(p: Seq<char>, q: Seq<char>, end: nat)
    requires
        end <= p.len(),
        end <= q.len(),
        forall|i: int| 0 <= i < end ==> p[i] == q[i],
    ensures
        behind_slash(p, end) == behind_slash(q, end),
        behind_slash(p, end) <= end,
    decreases end,
{
    if end > 0 && p[end - 1] != '/' {
        lemma_behind_slash_prefix(p, q, (end - 1) as nat);
    }
}

proof fn lemma_components_prefix(p: Seq<char>, q: Seq<char>, end: nat)
    requires
        end <= p.len(),
        end <= q.len(),
        forall|i: int| 0 <= i < end ==> p[i] == q[i],
    ensures
        components_to(p, end) == components_to(q, end),
    decreases end,
{
    lemma_behind_slash_prefix(p, q, end);
    let start = behind_slash(p, end);
    assert(p.subrange(start as int, end as int) =~= q.subrange(start as int, end as int));
    if start > 1 {
        lemma_components_prefix(p, q, (start - 1) as nat);
    }
}

/// A slash behind a path says nothing.
pub proof fn law_slash_at_the_end(p: Seq<char>)
    requires
        p.len() > 0,
    ensures
        components(p.push('/')) == components(p),
{
    let q = p.push('/');
    let n = q.len();
    assert(behind_slash(q, n) == n);
    assert(q.subrange(n as int, n as int) =~= Seq::<char>::empty());
    lemma_components_prefix(p, q, p.len());
}

/// The name of a path is its last component, where that is a name.
pub proof fn law_name_is_last_component(p: Seq<char>, name: Seq<char>)
    ensures
        name_in(p) == Some(name) <==> components(p).len() > 0 && components(p).last()
            == Component::Name(name),
    decreases p.len(),
{
    let n = p.len();
    let t = p.drop_last();
    lemma_behind_slash_bound(p, n);
    let start = behind_slash(p, n);
    if n > 0 && p.last() == '/' {
        assert(p.subrange(n as int, n as int) =~= Seq::<char>::empty());
        if n == 1 {
            assert(t =~= Seq::<char>::empty());
            assert(name_in(p) is None) by {
                assert(solid(t) == t);
                assert(t.skip(0) =~= Seq::<char>::empty());
            }
        } else {
            lemma_components_prefix(p, t, (n - 1) as nat);
            law_name_is_last_component(t, name);
        }
    } else if n > 1 && p.last() == '.' && p[n - 2] == '/' {
        assert(behind_slash(p, (n - 1) as nat) == n - 1);
        assert(start == n - 1);
        assert(p.subrange(n - 1, n as int) =~= seq!['.']);
        assert(p.subrange(n - 1, n - 1) =~= Seq::<char>::empty());
        assert(components_to(p, (n - 1) as nat) == components_before(p, (n - 1) as nat));
        lemma_components_prefix(p, t, (n - 1) as nat);
        law_name_is_last_component(t, name);
    } else {
        let piece = p.subrange(start as int, n as int);
        assert(p.skip(start as int) =~= piece);
        if n > 0 {
            lemma_behind_slash_bound(p, (n - 1) as nat);
            assert(start < n);
            assert(piece.len() > 0);
            if piece == seq!['.'] && start > 0 {
                lemma_slash_before(p, n);
                assert(piece[0] == p[start as int]);
                assert(false);
            }
        } else {
            assert(piece =~= Seq::<char>::empty());
        }
    }
}

proof fn lemma_slash_before(p: Seq<char>, end: nat)
    requires
        end <= p.len(),
        behind_slash(p, end) > 0,
    ensures
        p[behind_slash(p, end) - 1] == '/',
    decreases end,
{
    if end > 0 && p[end - 1] != '/' {
        lemma_slash_before(p, (end - 1) as nat);
    }
}

/// A name joined to a folder is the name of the path.
pub proof fn law_name_of_joined(root: Seq<char>, name: Seq<char>)
    requires
        name.len() > 0,
        !name.contains('/'),
        name != seq!['.'],
        name != seq!['.', '.'],
        root.len() > 0,
    ensures
        name_in(under(root, name)) == Some(name),
{
    let p = under(root, name);
    let k = (p.len() - name.len()) as int;
    assert(name[0] != '/') by {
        assert(name.contains(name[0]));
    }
    assert(p.skip(k) =~= name);
    assert forall|i: int| k <= i < p.len() implies #[trigger] p[i] != '/' by {
        assert(p[i] == name[i - k]);
        assert(name.contains(name[i - k]));
    }
    assert(p.last() == name.last());
    assert(p[k - 1] == '/');
    if p.last() == '.' && p[p.len() - 2] == '/' {
        assert(p.len() - 2 < k);
        assert(name.len() == 1);
        assert(name =~= seq!['.']);
    }
    assert(solid(p) == p);
    lemma_behind_slash_at(p, p.len(), k);
}

proof fn lemma_behind_slash_at(p: Seq<char>, end: nat, k: int)
    requires
        0 < k <= end <= p.len(),
        p[k - 1] == '/',
        forall|i: int| k <= i < end ==> #[trigger] p[i] != '/',
    ensures
        behind_slash(p, end) == k,
    decreases end,
{
    if end > k {
        lemma_behind_slash_at(p, (end - 1) as nat, k);
    }
}

/// A path under a root is the path itself where it starts at a slash; else it is
/// the root and the path with one slash between them, which a root that ends in
/// one, or that is empty, does not get.
pub proof fn law_under_joins(root: Seq<char>, p: Seq<char>)
    ensures
        p.len() > 0 && p[0] == '/' ==> under(root, p) == p,
        !(p.len() > 0 && p[0] == '/') ==> ({
            let r = under(root, p);
            &&& r.take(root.len() as int) == root
            &&& r.skip(r.len() - p.len()) == p
            &&& root.len() > 0 ==> r[r.len() - p.len() - 1] == '/'
            &&& r.len() == root.len() + p.len() + (if root.len() > 0 && root.last() != '/' {
                1int
            } else {
                0
            })
        }),
{
    if !(p.len() > 0 && p[0] == '/') {
        let r = under(root, p);
        assert(r.take(root.len() as int) =~= root);
        assert(r.skip(r.len() - p.len()) =~= p);
    }
}

proof fn lemma_solid(p: Seq<char>)
    ensures
        solid(p).len() <= p.len(),
        solid(p) == p.take(solid(p).len() as int),
        forall|i: int| solid(p).len() <= i < p.len() ==> #[trigger] p[i] == '/' || p[i] == '.',
        solid(p).len() > 0 ==> solid(p).last() != '/',
    decreases p.len(),
{
    if solid(p) != p {
        let q = p.drop_last();
        lemma_solid(q);
        assert(q.take(solid(q).len() as int) =~= p.take(solid(q).len() as int));
        assert forall|i: int| solid(p).len() <= i < p.len() implies #[trigger] p[i] == '/' || p[i]
            == '.' by {
            if i < q.len() {
                assert(q[i] == p[i]);
            }
        }
    } else {
        assert(p.take(p.len() as int) =~= p);
        if p.len() > 0 && p.last() == '/' {
            lemma_solid(p.drop_last());
            assert(solid(p) == solid(p.drop_last()));
        }
    }
}

pub proof fn lemma_behind_slash(p: Seq<char>, end: nat)
    requires
        end <= p.len(),
    ensures
        behind_slash(p, end) <= end,
        behind_slash(p, end) > 0 ==> p[behind_slash(p, end) - 1] == '/',
        forall|i: int| behind_slash(p, end) <= i < end ==> #[trigger] p[i] != '/',
    decreases end,
{
    if end > 0 && p[end - 1] != '/' {
        lemma_behind_slash(p, (end - 1) as nat);
    }
}

/// The folder and the name of a path make up the path without the slashes and
/// dots at its end. The name holds no slash, and the folder ends in one.
pub proof fn law_folder_and_name_make_the_path(p: Seq<char>)
    ensures
        folder_in(p).len() > 0 ==> folder_in(p).last() == '/',
        name_in(p) is Some ==> {
            let name = name_in(p)->0;
            let all = folder_in(p) + name;
            &&& name.len() > 0
            &&& !name.contains('/')
            &&& name != seq!['.']
            &&& name != seq!['.', '.']
            &&& all.len() <= p.len()
            &&& all == p.take(all.len() as int)
            &&& forall|i: int| all.len() <= i < p.len() ==> #[trigger] p[i] == '/' || p[i] == '.'
        },
{
    let t = solid(p);
    lemma_solid(p);
    lemma_behind_slash(t, t.len());
    let at = behind_slash(t, t.len());
    assert(t.take(at as int) + t.skip(at as int) =~= t);
    assert forall|i: int| 0 <= i < t.skip(at as int).len() implies #[trigger] t.skip(at as int)[i]
        != '/' by {
        assert(t[at + i] != '/');
    }
    if name_in(p) is Some {
        let all = folder_in(p) + name_in(p)->0;
        assert(all == t);
        assert(t.skip(at as int).len() > 0) by {
            if t.skip(at as int).len() == 0 {
                assert(t.skip(at as int) =~= Seq::<char>::empty());
            }
        }
    }
}

pub proof fn lemma_last_dot(p: Seq<char>, end: nat)
    requires
        end <= p.len(),
    ensures
        last_dot(p, end) <= end,
        last_dot(p, end) > 0 ==> p[last_dot(p, end) - 1] == '.',
        forall|i: int| last_dot(p, end) <= i < end ==> #[trigger] p[i] != '.',
    decreases end,
{
    if end > 0 && p[end - 1] != '.' {
        lemma_last_dot(p, (end - 1) as nat);
    }
}

/// The suffix of a name is what stands behind its last dot; a name has none where
/// it has no dot but one at its start.
pub proof fn law_suffix_is_behind_the_last_dot(name: Seq<char>)
    ensures
        suffix_in(name) is None <==> forall|i: int| 0 < i < name.len() ==> #[trigger] name[i] != '.',
        suffix_in(name) is Some ==> {
            let s = suffix_in(name)->0;
            &&& !s.contains('.')
            &&& s.len() + 1 < name.len()
            &&& name[name.len() - s.len() - 1] == '.'
            &&& name.skip(name.len() - s.len()) == s
        },
{
    lemma_last_dot(name, name.len());
    let dot = last_dot(name, name.len());
    if dot > 1 {
        assert(name[dot - 1] == '.');
        let s = name.skip(dot as int);
        assert forall|i: int| 0 <= i < s.len() implies #[trigger] s[i] != '.' by {
            assert(name[dot + i] != '.');
        }
        assert(name.skip(name.len() - s.len()) =~= s);
    }
}

/// Whether two paths agree in their first components, and the first is the lesser
/// one behind them: it ends, or has the lesser component there.
pub open spec fn lesser_at(a: Seq<Component>, b: Seq<Component>, k: int) -> bool {
    &&& 0 <= k <= a.len()
    &&& k < b.len()
    &&& forall|i: int| 0 <= i < k ==> #[trigger] a[i] == b[i]
    &&& k == a.len() || (a[k] != b[k] && (match (a[k], b[k]) {
        (Component::Name(x), Component::Name(y)) => text::text_before(x, y),
        (_, Component::Name(_)) => true,
        (Component::Root, _) => true,
        (Component::Dot, Component::Parent) => true,
        _ => false,
    }))
}

/// Paths come in the order of the first component in which they differ.
pub proof fn law_paths_by_first_difference(a: Seq<Component>, b: Seq<Component>)
    ensures
        parts_before(a, b) <==> exists|k: int| lesser_at(a, b, k),
    decreases a.len(),
{
    if b.len() > 0 {
        if a.len() == 0 {
            assert(lesser_at(a, b, 0));
        } else if a[0] != b[0] {
            if parts_before(a, b) {
                assert(lesser_at(a, b, 0));
            }
            if exists|k: int| lesser_at(a, b, k) {
                let k = choose|k: int| lesser_at(a, b, k);
                if k > 0 {
                    assert(a[0] == b[0]);
                }
            }
        } else {
            let c = a.drop_first();
            let d = b.drop_first();
            law_paths_by_first_difference(c, d);
            if parts_before(a, b) {
                let k = choose|k: int| lesser_at(c, d, k);
                assert forall|i: int| 0 <= i < k + 1 implies #[trigger] a[i] == b[i] by {
                    if i > 0 {
                        assert(c[i - 1] == d[i - 1]);
                    }
                }
                assert(lesser_at(a, b, k + 1));
            }
            if exists|k: int| lesser_at(a, b, k) {
                let k = choose|k: int| lesser_at(a, b, k);
                assert(k > 0);
                assert forall|i: int| 0 <= i < k - 1 implies #[trigger] c[i] == d[i] by {
                    assert(a[i + 1] == b[i + 1]);
                }
                assert(lesser_at(c, d, k - 1));
            }
        }
    }
}

} // verus!
