//! A one-line text field with a cursor.

use vstd::prelude::*;

use crate::input::{InputAction, KeyCode, KeyEvent};
use crate::text;

verus! {

/// The state of a text field. The cursor counts characters.
#[derive(Debug, Clone)]
pub struct TextInputState {
    pub value: String,
    pub cursor: usize,
    pub focused: bool,
}

/// The model of a [`TextInputState`].
pub struct TextInputModel {
    pub value: Seq<char>,
    pub cursor: nat,
    pub focused: bool,
}

/// The place after the word that a place stands in or before.
pub open spec fn word_end(s: Seq<char>, at: nat) -> nat
    decreases s.len() - at,
{
    if at >= s.len() {
        s.len()
    } else if s[at as int] == ' ' {
        word_end(s, at + 1)
    } else {
        run_end(s, at)
    }
}

/// The end of a run of characters other than blanks.
pub open spec fn run_end(s: Seq<char>, at: nat) -> nat
    decreases s.len() - at,
{
    if at >= s.len() {
        s.len()
    } else if s[at as int] == ' ' {
        at
    } else {
        run_end(s, at + 1)
    }
}

/// The start of the word that a place stands in or behind.
pub open spec fn word_start(s: Seq<char>, at: nat) -> nat
    decreases at,
{
    if at == 0 || at > s.len() {
        0
    } else if s[at - 1] == ' ' {
        word_start(s, (at - 1) as nat)
    } else {
        run_start(s, at)
    }
}

/// The start of a run of characters other than blanks.
pub open spec fn run_start(s: Seq<char>, at: nat) -> nat
    decreases at,
{
    if at == 0 || at > s.len() {
        0
    } else if s[at - 1] == ' ' {
        at
    } else {
        run_start(s, (at - 1) as nat)
    }
}

impl TextInputModel {
    /// The cursor stands inside the text or at its end.
    pub open spec fn wf(self) -> bool {
        self.cursor <= self.value.len()
    }

    /// An empty field.
    pub open spec fn empty() -> Self {
        TextInputModel { value: Seq::empty(), cursor: 0, focused: false }
    }

    /// Text put in at the cursor, which moves behind it.
    pub open spec fn insert(self, s: Seq<char>) -> Self {
        TextInputModel {
            value: self.value.take(self.cursor as int) + s + self.value.skip(self.cursor as int),
            cursor: self.cursor + s.len(),
            ..self
        }
    }

    /// The character before the cursor taken out.
    pub open spec fn backspace(self) -> Self {
        if self.cursor == 0 {
            self
        } else {
            TextInputModel {
                value: self.value.remove(self.cursor - 1),
                cursor: (self.cursor - 1) as nat,
                ..self
            }
        }
    }

    /// The character at the cursor taken out.
    pub open spec fn delete(self) -> Self {
        if self.cursor < self.value.len() {
            TextInputModel { value: self.value.remove(self.cursor as int), ..self }
        } else {
            self
        }
    }

    /// The cursor moved.
    pub open spec fn at(self, cursor: nat) -> Self {
        TextInputModel { cursor, ..self }
    }

    /// Another text, with the cursor at its end.
    pub open spec fn with_value(self, value: Seq<char>) -> Self {
        TextInputModel { value, cursor: value.len(), ..self }
    }

    /// The field with or without the focus.
    pub open spec fn focus(self, focused: bool) -> Self {
        TextInputModel { focused, ..self }
    }

    /// The field after an input. Inputs that do not edit change nothing.
    pub open spec fn step(self, action: InputAction) -> Self {
        match action {
            InputAction::Char(c) => self.insert(seq![c]),
            InputAction::Toggle => self.insert(seq![' ']),
            InputAction::Paste(s) => self.insert(s@),
            InputAction::Backspace => self.backspace(),
            InputAction::Delete => self.delete(),
            InputAction::NavLeft => if self.cursor == 0 { self } else { self.at((self.cursor - 1) as nat) },
            InputAction::NavRight => if self.cursor < self.value.len() { self.at(self.cursor + 1) } else { self },
            InputAction::Home | InputAction::TextHome => self.at(0),
            InputAction::End | InputAction::TextEnd => self.at(self.value.len()),
            InputAction::WordLeft => self.at(word_start(self.value, self.cursor)),
            InputAction::WordRight => self.at(word_end(self.value, self.cursor)),
            InputAction::KillToStart => TextInputModel { value: self.value.skip(self.cursor as int), cursor: 0, ..self },
            InputAction::KillToEnd => TextInputModel { value: self.value.take(self.cursor as int), ..self },
            _ => self,
        }
    }

    /// The editing action that a key stands for, if any.
    pub open spec fn key_step(self, key: KeyEvent) -> Self {
        match key.code {
            KeyCode::Char(c) => if !key.control {
                self.step(InputAction::Char(c))
            } else if c == 'a' {
                self.step(InputAction::TextHome)
            } else if c == 'e' {
                self.step(InputAction::TextEnd)
            } else if c == 'u' {
                self.step(InputAction::KillToStart)
            } else if c == 'k' {
                self.step(InputAction::KillToEnd)
            } else {
                self
            },
            KeyCode::Backspace => self.step(InputAction::Backspace),
            KeyCode::Delete => self.step(InputAction::Delete),
            KeyCode::Left => self.step(InputAction::NavLeft),
            KeyCode::Right => self.step(InputAction::NavRight),
            KeyCode::Home => self.step(InputAction::Home),
            KeyCode::End => self.step(InputAction::End),
            _ => self,
        }
    }
}

impl View for TextInputState {
    type V = TextInputModel;

    open spec fn view(&self) -> TextInputModel {
        TextInputModel { value: self.value@, cursor: self.cursor as nat, focused: self.focused }
    }
}

impl TextInputState {
    /// An empty field without the focus.
    pub fn new() -> (r: Self)
        ensures
            r@ == TextInputModel::empty(),
            r@.wf(),
    {
        TextInputState { value: String::new(), cursor: 0, focused: false }
    }

    /// The text in the field.
    pub fn value(&self) -> (r: &str)
        ensures
            r@ == self@.value,
    {
        self.value.as_str()
    }

    /// Whether the field holds no text.
    pub fn is_empty(&self) -> (r: bool)
        ensures
            r == (self@.value.len() == 0),
    {
        self.value.as_str().is_empty()
    }

    /// Puts another text into the field, with the cursor at its end.
    pub fn set_value(&mut self, value: String)
        ensures
            final(self)@ == old(self)@.with_value(value@),
            final(self)@.wf(),
    {
        self.cursor = value.as_str().unicode_len();
        self.value = value;
    }

    /// Empties the field.
    pub fn clear(&mut self)
        ensures
            final(self)@ == old(self)@.with_value(Seq::empty()),
            final(self)@.wf(),
    {
        self.value.clear();
        self.cursor = 0;
    }

    /// Puts text in at the cursor.
    pub fn insert_str(&mut self, s: &str)
        requires
            old(self)@.wf(),
        ensures
            final(self)@ == old(self)@.insert(s@),
            final(self)@.wf(),
    {
        let n: usize = self.value.as_str().unicode_len();
        let k: usize = s.unicode_len();
        let mut t: String = self.value.as_str().substring_char(0, self.cursor).to_owned();
        t.append(s);
        t.append(self.value.as_str().substring_char(self.cursor, n));
        proof {
            assert(self.value@.subrange(0, self.cursor as int) =~= self.value@.take(
                self.cursor as int,
            ));
            assert(self.value@.subrange(self.cursor as int, n as int) =~= self.value@.skip(
                self.cursor as int,
            ));
        }
        let m: usize = t.as_str().unicode_len();
        proof {
            assert(m == n + k);
        }
        self.value = t;
        self.cursor = self.cursor + k;
    }

    /// Puts one character in at the cursor.
    pub fn insert_char(&mut self, c: char)
        requires
            old(self)@.wf(),
        ensures
            final(self)@ == old(self)@.insert(seq![c]),
            final(self)@.wf(),
    {
        let mut s: String = String::new();
        s.push(c);
        self.insert_str(s.as_str());
    }

    /// Takes out the character at a place.
    fn take_out(&mut self, at: usize)
        requires
            at < old(self)@.value.len(),
        ensures
            final(self)@ == (TextInputModel { value: old(self)@.value.remove(at as int), ..old(self)@ }),
    {
        let n: usize = self.value.as_str().unicode_len();
        let mut t: String = self.value.as_str().substring_char(0, at).to_owned();
        t.append(self.value.as_str().substring_char(at + 1, n));
        proof {
            assert(t@ =~= self.value@.remove(at as int));
        }
        self.value = t;
    }

    fn word_left(&self) -> (r: usize)
        requires
            self@.wf(),
        ensures
            r == word_start(self@.value, self@.cursor),
    {
        let chars: Vec<char> = text::chars_of(self.value.as_str());
        let mut at: usize = self.cursor;
        while at > 0 && chars[at - 1] == ' '
            invariant
                chars@ == self@.value,
                at <= chars.len(),
                word_start(self@.value, self@.cursor) == word_start(self@.value, at as nat),
            decreases at,
        {
            at = at - 1;
        }
        proof {
            if at > 0 {
                assert(word_start(self@.value, at as nat) == run_start(self@.value, at as nat));
            } else {
                assert(word_start(self@.value, 0) == run_start(self@.value, 0));
            }
        }
        while at > 0 && chars[at - 1] != ' '
            invariant
                chars@ == self@.value,
                at <= chars.len(),
                word_start(self@.value, self@.cursor) == run_start(self@.value, at as nat),
            decreases at,
        {
            at = at - 1;
        }
        at
    }

    fn word_right(&self) -> (r: usize)
        requires
            self@.wf(),
        ensures
            r == word_end(self@.value, self@.cursor),
    {
        let chars: Vec<char> = text::chars_of(self.value.as_str());
        let mut at: usize = self.cursor;
        while at < chars.len() && chars[at] == ' '
            invariant
                chars@ == self@.value,
                at <= chars.len(),
                word_end(self@.value, self@.cursor) == word_end(self@.value, at as nat),
            decreases chars.len() - at,
        {
            at = at + 1;
        }
        proof {
            assert(word_end(self@.value, at as nat) == run_end(self@.value, at as nat));
        }
        while at < chars.len() && chars[at] != ' '
            invariant
                chars@ == self@.value,
                at <= chars.len(),
                word_end(self@.value, self@.cursor) == run_end(self@.value, at as nat),
            decreases chars.len() - at,
        {
            at = at + 1;
        }
        at
    }

    /// Edits the text or moves the cursor, as the input asks.
    pub fn handle_input(&mut self, action: &InputAction)
        requires
            old(self)@.wf(),
        ensures
            final(self)@ == old(self)@.step(*action),
            final(self)@.wf(),
    {
        proof {
            lemma_words(self@.value, self@.cursor);
        }
        match action {
            InputAction::Char(c) => {
                self.insert_char(*c);
            },
            InputAction::Toggle => {
                self.insert_char(' ');
            },
            InputAction::Paste(s) => {
                self.insert_str(s.as_str());
            },
            InputAction::Backspace => {
                if self.cursor > 0 {
                    self.take_out(self.cursor - 1);
                    self.cursor = self.cursor - 1;
                }
            },
            InputAction::Delete => {
                if self.cursor < self.value.as_str().unicode_len() {
                    self.take_out(self.cursor);
                }
            },
            InputAction::NavLeft => {
                if self.cursor > 0 {
                    self.cursor = self.cursor - 1;
                }
            },
            InputAction::NavRight => {
                if self.cursor < self.value.as_str().unicode_len() {
                    self.cursor = self.cursor + 1;
                }
            },
            InputAction::Home | InputAction::TextHome => {
                self.cursor = 0;
            },
            InputAction::End | InputAction::TextEnd => {
                self.cursor = self.value.as_str().unicode_len();
            },
            InputAction::WordLeft => {
                self.cursor = self.word_left();
            },
            InputAction::WordRight => {
                self.cursor = self.word_right();
            },
            InputAction::KillToStart => {
                let n: usize = self.value.as_str().unicode_len();
                let t: String = self.value.as_str().substring_char(self.cursor, n).to_owned();
                proof {
                    assert(t@ =~= self.value@.skip(self.cursor as int));
                }
                self.value = t;
                self.cursor = 0;
            },
            InputAction::KillToEnd => {
                let t: String = self.value.as_str().substring_char(0, self.cursor).to_owned();
                proof {
                    assert(t@ =~= self.value@.take(self.cursor as int));
                }
                self.value = t;
            },
            _ => {},
        }
    }

    /// Edits the text or moves the cursor, as the key asks.
    pub fn handle_key(&mut self, key: KeyEvent)
        requires
            old(self)@.wf(),
        ensures
            final(self)@ == old(self)@.key_step(key),
            final(self)@.wf(),
    {
        match key.code {
            KeyCode::Char(c) => {
                if !key.control {
                    self.handle_input(&InputAction::Char(c));
                } else if c == 'a' {
                    self.handle_input(&InputAction::TextHome);
                } else if c == 'e' {
                    self.handle_input(&InputAction::TextEnd);
                } else if c == 'u' {
                    self.handle_input(&InputAction::KillToStart);
                } else if c == 'k' {
                    self.handle_input(&InputAction::KillToEnd);
                }
            },
            KeyCode::Backspace => {
                self.handle_input(&InputAction::Backspace);
            },
            KeyCode::Delete => {
                self.handle_input(&InputAction::Delete);
            },
            KeyCode::Left => {
                self.handle_input(&InputAction::NavLeft);
            },
            KeyCode::Right => {
                self.handle_input(&InputAction::NavRight);
            },
            KeyCode::Home => {
                self.handle_input(&InputAction::Home);
            },
            KeyCode::End => {
                self.handle_input(&InputAction::End);
            },
            _ => {},
        }
    }

    /// The text before the cursor, the character under it (a blank at the end
    /// of the text), and the text behind that character.
    pub fn cursor_splits(&self) -> (r: (String, String, String))
        requires
            self@.wf(),
        ensures
            r.0@ == self@.value.take(self@.cursor as int),
            r.1@ == (if self@.cursor < self@.value.len() {
                seq![self@.value[self@.cursor as int]]
            } else {
                seq![' ']
            }),
            r.2@ == (if self@.cursor < self@.value.len() {
                self@.value.skip(self@.cursor as int + 1)
            } else {
                Seq::empty()
            }),
    {
        let n: usize = self.value.as_str().unicode_len();
        let before: String = self.value.as_str().substring_char(0, self.cursor).to_owned();
        let mut under: String = String::new();
        let after: String;
        if self.cursor < n {
            under.push(self.value.as_str().get_char(self.cursor));
            after = self.value.as_str().substring_char(self.cursor + 1, n).to_owned();
        } else {
            under.push(' ');
            after = String::new();
        }
        proof {
            assert(before@ =~= self@.value.take(self@.cursor as int));
            assert(self@.cursor < n ==> after@ =~= self@.value.skip(self@.cursor as int + 1));
        }
        (before, under, after)
    }
}

proof fn lemma_run_start(s: Seq<char>, at: nat)
    ensures
        run_start(s, at) <= at,
    decreases at,
{
    if at > 0 && at <= s.len() && s[at - 1] != ' ' {
        lemma_run_start(s, (at - 1) as nat);
    }
}

proof fn lemma_word_start(s: Seq<char>, at: nat)
    ensures
        word_start(s, at) <= at,
    decreases at,
{
    lemma_run_start(s, at);
    if at > 0 && at <= s.len() && s[at - 1] == ' ' {
        lemma_word_start(s, (at - 1) as nat);
    }
}

proof fn lemma_run_end(s: Seq<char>, at: nat)
    ensures
        run_end(s, at) <= s.len(),
    decreases s.len() - at,
{
    if at < s.len() && s[at as int] != ' ' {
        lemma_run_end(s, at + 1);
    }
}

proof fn lemma_word_end(s: Seq<char>, at: nat)
    ensures
        word_end(s, at) <= s.len(),
    decreases s.len() - at,
{
    lemma_run_end(s, at);
    if at < s.len() && s[at as int] == ' ' {
        lemma_word_end(s, at + 1);
    }
}

proof fn lemma_words(s: Seq<char>, at: nat)
    ensures
        word_start(s, at) <= at,
        word_end(s, at) <= s.len(),
{
    lemma_word_start(s, at);
    lemma_word_end(s, at);
}

/// Taking back a character just typed restores the field.
pub proof fn law_backspace_undoes_typing(m: TextInputModel, c: char)
    requires
        m.wf(),
    ensures
        m.step(InputAction::Char(c)).step(InputAction::Backspace) == m,
{
    let typed = m.step(InputAction::Char(c));
    assert(typed.value.remove(typed.cursor - 1) =~= m.value);
}

/// Whatever the input, the cursor stays inside the text or at its end.
pub proof fn law_cursor_stays_in_text(m: TextInputModel, action: InputAction)
    requires
        m.wf(),
    ensures
        m.step(action).wf(),
{
    lemma_words(m.value, m.cursor);
}

/// What is typed or pasted goes in at the cursor, and the cursor behind it; what
/// stood before and behind it stays.
pub proof fn law_text_goes_in_at_the_cursor(m: TextInputModel, s: Seq<char>)
    requires
        m.wf(),
    ensures
        ({
            let n = m.insert(s);
            let at = m.cursor as int;
            &&& n.value.len() == m.value.len() + s.len()
            &&& n.value.take(at) == m.value.take(at)
            &&& n.value.subrange(at, at + s.len()) == s
            &&& n.value.skip(at + s.len()) == m.value.skip(at)
            &&& n.cursor == m.cursor + s.len()
            &&& n.focused == m.focused
        }),
{
    let n = m.insert(s);
    let at = m.cursor as int;
    assert(n.value.take(at) =~= m.value.take(at));
    assert(n.value.subrange(at, at + s.len()) =~= s);
    assert(n.value.skip(at + s.len()) =~= m.value.skip(at));
}

/// What each action does to the text: what it takes in, which characters it takes
/// out, and where it leaves the cursor.
pub proof fn law_actions_edit_the_text(m: TextInputModel, action: InputAction)
    requires
        m.wf(),
    ensures
        ({
            let n = m.step(action);
            let at = m.cursor as int;
            let behind = m.value.skip(at);
            let before = m.value.take(at);
            &&& n.focused == m.focused
            &&& action is Char ==> n.value == before.push(action->Char_0) + behind && n.cursor == at
                + 1
            &&& action is Toggle ==> n.value == before.push(' ') + behind && n.cursor == at + 1
            &&& action is Paste ==> n.value == before + action->Paste_0@ + behind && n.cursor == at
                + action->Paste_0@.len()
            &&& action is Backspace ==> (if at == 0 {
                n == m
            } else {
                n.value == m.value.take(at - 1) + behind && n.cursor == at - 1
            })
            &&& action is Delete ==> (if at == m.value.len() {
                n == m
            } else {
                n.value == before + m.value.skip(at + 1) && n.cursor == at
            })
            &&& action is NavLeft ==> n.value == m.value && n.cursor == (if at == 0 {
                0
            } else {
                at - 1
            })
            &&& action is NavRight ==> n.value == m.value && n.cursor == (if at == m.value.len() {
                at
            } else {
                at + 1
            })
            &&& action is Home || action is TextHome ==> n.value == m.value && n.cursor == 0
            &&& action is End || action is TextEnd ==> n.value == m.value && n.cursor
                == m.value.len()
            &&& action is KillToStart ==> n.value == behind && n.cursor == 0
            &&& action is KillToEnd ==> n.value == before && n.cursor == at
            &&& action is WordLeft || action is WordRight ==> n.value == m.value
        }),
{
    let n = m.step(action);
    let at = m.cursor as int;
    let behind = m.value.skip(at);
    let before = m.value.take(at);
    if action is Char {
        assert(n.value =~= before.push(action->Char_0) + behind);
    }
    if action is Toggle {
        assert(n.value =~= before.push(' ') + behind);
    }
    if action is Backspace && at > 0 {
        assert(n.value =~= m.value.take(at - 1) + behind);
    }
    if action is Delete && at < m.value.len() {
        assert(n.value =~= before + m.value.skip(at + 1));
    }
}

proof fn lemma_to_run_end(s: Seq<char>, at: nat)
    requires
        at <= s.len(),
    ensures
        at <= run_end(s, at) <= s.len(),
        run_end(s, at) < s.len() ==> s[run_end(s, at) as int] == ' ',
        forall|i: int| at <= i < run_end(s, at) ==> #[trigger] s[i] != ' ',
    decreases s.len() - at,
{
    if at < s.len() && s[at as int] != ' ' {
        lemma_to_run_end(s, at + 1);
    }
}

proof fn lemma_over_word(s: Seq<char>, at: nat) -> (k: int)
    requires
        at <= s.len(),
    ensures
        at <= k <= word_end(s, at) <= s.len(),
        forall|i: int| at <= i < k ==> #[trigger] s[i] == ' ',
        forall|i: int| k <= i < word_end(s, at) ==> #[trigger] s[i] != ' ',
        word_end(s, at) < s.len() ==> s[word_end(s, at) as int] == ' ' && k < word_end(s, at),
    decreases s.len() - at,
{
    if at < s.len() && s[at as int] == ' ' {
        lemma_over_word(s, at + 1)
    } else {
        if at < s.len() {
            lemma_to_run_end(s, at);
        }
        at as int
    }
}

/// Whether blanks stand from one place to another, and from there a word or a part
/// of one to a third.
pub open spec fn blanks_and_word(s: Seq<char>, from: int, word: int, to: int) -> bool {
    &&& from <= word <= to
    &&& forall|i: int| from <= i < word ==> #[trigger] s[i] == ' '
    &&& forall|i: int| word <= i < to ==> #[trigger] s[i] != ' '
}

/// Whether a word or a part of one stands from one place to another, and from
/// there blanks to a third.
pub open spec fn word_and_blanks(s: Seq<char>, from: int, word: int, to: int) -> bool {
    &&& from <= word <= to
    &&& forall|i: int| from <= i < word ==> #[trigger] s[i] != ' '
    &&& forall|i: int| word <= i < to ==> #[trigger] s[i] == ' '
}

/// A word to the right: over the blanks behind the cursor and the word behind
/// them, to its end.
pub proof fn law_word_to_the_right(m: TextInputModel)
    requires
        m.wf(),
    ensures
        ({
            let n = m.step(InputAction::WordRight).cursor;
            &&& m.cursor <= n <= m.value.len()
            &&& n < m.value.len() ==> m.value[n as int] == ' ' && m.value[n - 1] != ' ' && m.cursor
                < n
            &&& exists|k: int| blanks_and_word(m.value, m.cursor as int, k, n as int)
        }),
{
    let k = lemma_over_word(m.value, m.cursor);
    let n = m.step(InputAction::WordRight).cursor;
    assert(n == word_end(m.value, m.cursor));
    assert(blanks_and_word(m.value, m.cursor as int, k, n as int));
}

proof fn lemma_to_run_start(s: Seq<char>, at: nat)
    requires
        at <= s.len(),
    ensures
        run_start(s, at) <= at,
        run_start(s, at) > 0 ==> s[run_start(s, at) - 1] == ' ',
        forall|i: int| run_start(s, at) <= i < at ==> #[trigger] s[i] != ' ',
    decreases at,
{
    if at > 0 && s[at - 1] != ' ' {
        lemma_to_run_start(s, (at - 1) as nat);
    }
}

proof fn lemma_back_over_word(s: Seq<char>, at: nat) -> (k: int)
    requires
        at <= s.len(),
    ensures
        word_start(s, at) <= k <= at,
        forall|i: int| k <= i < at ==> #[trigger] s[i] == ' ',
        forall|i: int| word_start(s, at) <= i < k ==> #[trigger] s[i] != ' ',
        word_start(s, at) > 0 ==> s[word_start(s, at) - 1] == ' ' && word_start(s, at) < k,
    decreases at,
{
    if at > 0 && s[at - 1] == ' ' {
        lemma_back_over_word(s, (at - 1) as nat)
    } else {
        if at > 0 {
            lemma_to_run_start(s, at);
        }
        at as int
    }
}

/// A word to the left: over the blanks before the cursor and the word before
/// them, to its start.
pub proof fn law_word_to_the_left(m: TextInputModel)
    requires
        m.wf(),
    ensures
        ({
            let n = m.step(InputAction::WordLeft).cursor;
            &&& n <= m.cursor
            &&& n > 0 ==> m.value[n - 1] == ' ' && m.value[n as int] != ' ' && n < m.cursor
            &&& exists|k: int| word_and_blanks(m.value, n as int, k, m.cursor as int)
        }),
{
    let k = lemma_back_over_word(m.value, m.cursor);
    let n = m.step(InputAction::WordLeft).cursor;
    assert(n == word_start(m.value, m.cursor));
    assert(word_and_blanks(m.value, n as int, k, m.cursor as int));
}

/// What each key does: characters go in, Ctrl and a letter moves or clears as in a
/// shell, and the other keys move and delete by one.
pub proof fn law_keys_edit_the_text(m: TextInputModel, key: KeyEvent)
    requires
        m.wf(),
    ensures
        ({
            let n = m.key_step(key);
            let at = m.cursor as int;
            let behind = m.value.skip(at);
            let before = m.value.take(at);
            &&& n.wf()
            &&& key.code is Char && !key.control ==> n.value == before.push(key.code->Char_0)
                + behind && n.cursor == at + 1
            &&& key.control && key.code == KeyCode::Char('a') ==> n.value == m.value && n.cursor == 0
            &&& key.control && key.code == KeyCode::Char('e') ==> n.value == m.value && n.cursor
                == m.value.len()
            &&& key.control && key.code == KeyCode::Char('u') ==> n.value == behind && n.cursor == 0
            &&& key.control && key.code == KeyCode::Char('k') ==> n.value == before && n.cursor == at
            &&& key.code == KeyCode::Backspace && at > 0 ==> n.value == m.value.take(at - 1)
                + behind && n.cursor == at - 1
            &&& key.code == KeyCode::Delete && at < m.value.len() ==> n.value == before
                + m.value.skip(at + 1) && n.cursor == at
            &&& key.code == KeyCode::Left ==> n.value == m.value && n.cursor == (if at == 0 {
                0
            } else {
                at - 1
            })
            &&& key.code == KeyCode::Right ==> n.value == m.value && n.cursor == (if at
                == m.value.len() {
                at
            } else {
                at + 1
            })
            &&& key.code == KeyCode::Home ==> n.value == m.value && n.cursor == 0
            &&& key.code == KeyCode::End ==> n.value == m.value && n.cursor == m.value.len()
            &&& key.code == KeyCode::Enter || key.code == KeyCode::Esc || key.code == KeyCode::Tab
                || key.code == KeyCode::Up || key.code == KeyCode::Down ==> n == m
        }),
{
    if key.code is Char {
        law_actions_edit_the_text(m, InputAction::Char(key.code->Char_0));
    }
    law_actions_edit_the_text(m, InputAction::Backspace);
    law_actions_edit_the_text(m, InputAction::Delete);
}

} // verus!
