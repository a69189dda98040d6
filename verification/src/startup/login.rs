//! The login screen.

use vstd::prelude::*;

use crate::input::{KeyCode, KeyEvent};
use crate::screen::{ink, line, line_of, list4, list6, nothing, put, span, Color, Line, LineModel, Span, Style};
use crate::text::{self, repeated, trimmed};
use crate::text_input::{TextInputModel, TextInputState};

verus! {

/// The fields of the form.
#[derive(Debug, Clone, Copy, PartialEq, Eq, Structural)]
pub enum LoginField {
    Username,
    Password,
}

/// The form.
#[derive(Debug)]
pub struct LoginState {
    pub username: TextInputState,
    pub password: TextInputState,
    pub focused: LoginField,
    pub error_message: Option<String>,
}

/// The model of a [`LoginState`].
pub struct LoginModel {
    pub username: TextInputModel,
    pub password: TextInputModel,
    pub focused: LoginField,
    pub error_message: Option<Seq<char>>,
}

impl View for LoginState {
    type V = LoginModel;

    open spec fn view(&self) -> LoginModel {
        LoginModel {
            username: self.username@,
            password: self.password@,
            focused: self.focused,
            error_message: self.error_message.deep_view(),
        }
    }
}

/// What the form asks for.
#[derive(Debug)]
pub enum LoginAction {
    /// Nothing
    Nothing,
    /// Try these
    Submit { username: String, password: String },
    /// Leave
    Cancelled,
}

/// The model of a [`LoginAction`].
pub enum LoginAnswer {
    Nothing,
    Submit { username: Seq<char>, password: Seq<char> },
    Cancelled,
}

impl DeepView for LoginAction {
    type V = LoginAnswer;

    open spec fn deep_view(&self) -> LoginAnswer {
        match self {
            LoginAction::Nothing => LoginAnswer::Nothing,
            LoginAction::Submit { username, password } => LoginAnswer::Submit {
                username: username@,
                password: password@,
            },
            LoginAction::Cancelled => LoginAnswer::Cancelled,
        }
    }
}

/// A field as it shows: a password as stars.
pub open spec fn displayed(value: Seq<char>, masked: bool) -> Seq<char> {
    if masked {
        repeated('*', value.len())
    } else {
        value
    }
}

/// The line of a field.
pub open spec fn field_line(t: TextInputModel, masked: bool) -> LineModel {
    let d = displayed(t.value, masked);
    if t.focused {
        line_of(
            list4(
                span(" "@, Style::plain()),
                span(d.take(t.cursor as int), ink(Color::White)),
                span(
                    if t.cursor < d.len() {
                        seq![d[t.cursor as int]]
                    } else {
                        " "@
                    },
                    ink(Color::Black).bg(Color::Cyan),
                ),
                span(
                    if t.cursor < d.len() {
                        d.skip(t.cursor as int + 1)
                    } else {
                        Seq::empty()
                    },
                    ink(Color::White),
                ),
            ),
        )
    } else {
        line(" "@ + d, ink(Color::White))
    }
}

impl LoginModel {
    /// The cursors stand in their texts.
    pub open spec fn wf(self) -> bool {
        self.username.wf() && self.password.wf()
    }

    /// The form as it opens.
    pub open spec fn opened() -> Self {
        LoginModel {
            username: TextInputModel { focused: true, ..TextInputModel::empty() },
            password: TextInputModel::empty(),
            focused: LoginField::Username,
            error_message: None,
        }
    }

    /// The focus on a field.
    pub open spec fn focus(self, field: LoginField) -> Self {
        LoginModel {
            username: TextInputModel {
                focused: field == LoginField::Username,
                ..self.username
            },
            password: TextInputModel {
                focused: field == LoginField::Password,
                ..self.password
            },
            focused: field,
            ..self
        }
    }

    /// The focus on the other field.
    pub open spec fn other(self) -> Self {
        match self.focused {
            LoginField::Username => self.focus(LoginField::Password),
            LoginField::Password => self.focus(LoginField::Username),
        }
    }

    /// The form with a message, or without.
    pub open spec fn said(self, error_message: Option<Seq<char>>) -> Self {
        LoginModel { error_message, ..self }
    }

    /// The form with a key typed into the field that has the focus.
    pub open spec fn typed(self, key: KeyEvent) -> Self {
        match self.focused {
            LoginField::Username => LoginModel { username: self.username.key_step(key), ..self },
            LoginField::Password => LoginModel { password: self.password.key_step(key), ..self },
        }
    }

    /// The answer to a key.
    pub open spec fn key_step(self, key: KeyEvent) -> (LoginModel, LoginAnswer) {
        match key.code {
            KeyCode::Tab => (self.other().said(None), LoginAnswer::Nothing),
            KeyCode::Down => (self.other().said(None), LoginAnswer::Nothing),
            KeyCode::BackTab => (self.other().said(None), LoginAnswer::Nothing),
            KeyCode::Up => (self.other().said(None), LoginAnswer::Nothing),
            KeyCode::Enter => {
                let username = trimmed(self.username.value);
                if username.len() == 0 {
                    (
                        self.said(Some("Username required"@)).focus(LoginField::Username),
                        LoginAnswer::Nothing,
                    )
                } else {
                    (self, LoginAnswer::Submit { username, password: self.password.value })
                }
            },
            KeyCode::Esc => (self, LoginAnswer::Cancelled),
            _ => (self.typed(key).said(None), LoginAnswer::Nothing),
        }
    }

    /// The form after a login was refused: the password is to be typed again.
    pub open spec fn refused(self, why: Seq<char>) -> Self {
        LoginModel {
            password: self.password.with_value(Seq::empty()),
            error_message: Some(why),
            ..self
        }.focus(LoginField::Password)
    }

    /// The last line: the message, or the keys.
    pub open spec fn last_line(self) -> LineModel {
        match self.error_message {
            Some(why) => line(" "@ + why, ink(Color::Red)),
            None => line_of(
                list6(
                    span(" Tab"@, ink(Color::Yellow)),
                    span(" next  "@, ink(Color::DarkGray)),
                    span("Enter"@, ink(Color::Green)),
                    span(" login  "@, ink(Color::DarkGray)),
                    span("Esc"@, ink(Color::DarkGray)),
                    span(" exit"@, ink(Color::DarkGray)),
                ),
            ),
        }
    }
}

/// The label of a field.
#[verifier::allow_in_spec]
pub fn label_style(focused: bool) -> Style
    returns
        (if focused {
            ink(Color::Cyan)
        } else {
            ink(Color::DarkGray)
        }),
{
    if focused {
        ink(Color::Cyan)
    } else {
        ink(Color::DarkGray)
    }
}

/// The line of a field, a password as stars.
pub fn render_login_field(input: &TextInputState, masked: bool) -> (r: Line)
    requires
        input@.wf(),
    ensures
        r.deep_view() == field_line(input@, masked),
{
    let value: &str = input.value();
    let n: usize = value.unicode_len();
    let shown: String = if masked {
        text::repeat('*', n)
    } else {
        value.to_owned()
    };
    let d: &str = shown.as_str();
    if !input.focused {
        return Line::styled(text::cat2(" ", d).as_str(), ink(Color::White));
    }
    let at: usize = input.cursor;
    let before: &str = d.substring_char(0, at);
    let mut spans: Vec<Span> = nothing();
    put(&mut spans, Span::raw(" "));
    put(&mut spans, Span::styled(before, ink(Color::White)));
    proof {
        assert(before@ =~= d@.take(at as int));
    }
    if at < n {
        let mut under: String = String::new();
        under.push(d.get_char(at));
        let after: &str = d.substring_char(at + 1, n);
        proof {
            assert(under@ =~= seq![d@[at as int]]);
            assert(after@ =~= d@.skip(at as int + 1));
        }
        put(&mut spans, Span::styled(under.as_str(), ink(Color::Black).bg(Color::Cyan)));
        put(&mut spans, Span::styled(after, ink(Color::White)));
    } else {
        put(&mut spans, Span::styled(" ", ink(Color::Black).bg(Color::Cyan)));
        let empty: String = String::new();
        proof {
            assert(empty@ =~= Seq::<char>::empty());
        }
        put(&mut spans, Span::styled(empty.as_str(), ink(Color::White)));
    }
    Line::of(spans)
}

impl LoginState {
    /// An empty form, with the focus on the name.
    pub fn new() -> (r: Self)
        ensures
            r@ == LoginModel::opened(),
            r@.wf(),
    {
        let mut username: TextInputState = TextInputState::new();
        username.focused = true;
        LoginState {
            username,
            password: TextInputState::new(),
            focused: LoginField::Username,
            error_message: None,
        }
    }

    /// Moves the focus to a field.
    pub fn focus_field(&mut self, field: LoginField)
        ensures
            final(self)@ == old(self)@.focus(field),
    {
        self.username.focused = field == LoginField::Username;
        self.password.focused = field == LoginField::Password;
        self.focused = field;
    }

    /// Moves the focus to the other field.
    pub fn focus_next(&mut self)
        ensures
            final(self)@ == old(self)@.other(),
    {
        match self.focused {
            LoginField::Username => self.focus_field(LoginField::Password),
            LoginField::Password => self.focus_field(LoginField::Username),
        }
    }

    /// Answers a key.
    pub fn handle_key(&mut self, key: KeyEvent) -> (r: LoginAction)
        requires
            old(self)@.wf(),
        ensures
            (final(self)@, r.deep_view()) == old(self)@.key_step(key),
            final(self)@.wf(),
    {
        match key.code {
            KeyCode::Tab | KeyCode::Down | KeyCode::BackTab | KeyCode::Up => {
                self.focus_next();
                self.error_message = None;
                LoginAction::Nothing
            },
            KeyCode::Enter => {
                let username: String = text::trim(self.username.value()).to_owned();
                if username.as_str().unicode_len() == 0 {
                    self.error_message = Some("Username required".to_owned());
                    self.focus_field(LoginField::Username);
                    LoginAction::Nothing
                } else {
                    let password: String = self.password.value().to_owned();
                    LoginAction::Submit { username, password }
                }
            },
            KeyCode::Esc => LoginAction::Cancelled,
            _ => {
                match self.focused {
                    LoginField::Username => self.username.handle_key(key),
                    LoginField::Password => self.password.handle_key(key),
                }
                self.error_message = None;
                LoginAction::Nothing
            },
        }
    }

    /// Notes that a login was refused.
    pub fn login_refused(&mut self, why: String)
        requires
            old(self)@.wf(),
        ensures
            final(self)@ == old(self)@.refused(why@),
            final(self)@.wf(),
    {
        self.error_message = Some(why);
        self.password.clear();
        self.focus_field(LoginField::Password);
    }

    /// The last line: the message, or the keys.
    pub fn render_last_line(&self) -> (r: Line)
        ensures
            r.deep_view() == self@.last_line(),
    {
        match &self.error_message {
            Some(why) => Line::styled(text::cat2(" ", why.as_str()).as_str(), ink(Color::Red)),
            None => {
                let mut spans: Vec<Span> = nothing();
                put(&mut spans, Span::styled(" Tab", ink(Color::Yellow)));
                put(&mut spans, Span::styled(" next  ", ink(Color::DarkGray)));
                put(&mut spans, Span::styled("Enter", ink(Color::Green)));
                put(&mut spans, Span::styled(" login  ", ink(Color::DarkGray)));
                put(&mut spans, Span::styled("Esc", ink(Color::DarkGray)));
                put(&mut spans, Span::styled(" exit", ink(Color::DarkGray)));
                Line::of(spans)
            },
        }
    }
}

/// Exactly one field has the focus, whatever key comes.
pub proof fn law_one_field_focused(m: LoginModel, key: KeyEvent)
    requires
        m.username.focused == (m.focused == LoginField::Username),
        m.password.focused == (m.focused == LoginField::Password),
    ensures
        ({
            let n = m.key_step(key).0;
            n.username.focused == (n.focused == LoginField::Username) && n.password.focused == (
            n.focused == LoginField::Password)
        }),
{
}

/// No login is tried without a name.
pub proof fn law_no_login_without_name(m: LoginModel, key: KeyEvent)
    ensures
        m.key_step(key).1 matches LoginAnswer::Submit { username, password } ==> username.len() > 0
            && password == m.password.value && key.code == KeyCode::Enter,
{
}

/// A password shows as many stars as it has characters, and none of them.
pub proof fn law_password_is_hidden(value: Seq<char>, other: Seq<char>)
    requires
        value.len() == other.len(),
    ensures
        displayed(value, true) == displayed(other, true),
        displayed(value, true).len() == value.len(),
{
}

/// Enter hands over the trimmed name and the password as it is, where there is a
/// name, and else asks for one; Esc leaves.
pub proof fn law_enter_hands_over_the_login(m: LoginModel, key: KeyEvent)
    ensures
        m.key_step(key).1 is Submit <==> key.code == KeyCode::Enter && trimmed(
            m.username.value,
        ).len() > 0,
        m.key_step(key).1 is Submit ==> m.key_step(key).1 == (LoginAnswer::Submit {
            username: trimmed(m.username.value),
            password: m.password.value,
        }),
        m.key_step(key).1 is Cancelled <==> key.code == KeyCode::Esc,
        key.code == KeyCode::Enter && trimmed(m.username.value).len() == 0 ==> m.key_step(
            key,
        ).0.error_message is Some && m.key_step(key).0.focused == LoginField::Username,
{
}

/// Tab and the arrows go to the other field; what is typed goes into the field in
/// hand and leaves the other as it is.
pub proof fn law_login_keys_go_to_one_field(m: LoginModel, key: KeyEvent)
    ensures
        ({
            let n = m.key_step(key).0;
            let over = key.code == KeyCode::Tab || key.code == KeyCode::BackTab || key.code
                == KeyCode::Up || key.code == KeyCode::Down;
            &&& over ==> n.focused == (if m.focused == LoginField::Username {
                LoginField::Password
            } else {
                LoginField::Username
            })
            &&& n.focused != m.focused ==> over || (key.code == KeyCode::Enter && trimmed(
                m.username.value,
            ).len() == 0)
            &&& over || key.code == KeyCode::Enter || key.code == KeyCode::Esc
                ==> n.username.value == m.username.value && n.password.value == m.password.value
            &&& key.code is Char && m.focused == LoginField::Username ==> n.username
                == m.username.key_step(key) && n.password == m.password
            &&& key.code is Char && m.focused == LoginField::Password ==> n.password
                == m.password.key_step(key) && n.username == m.username
            &&& over || key.code is Char ==> n.error_message is None
        }),
{
}

/// A login that is refused keeps the name, empties the password and goes to it.
pub proof fn law_refused_login_asks_again(m: LoginModel, why: Seq<char>)
    ensures
        m.refused(why).username.value == m.username.value,
        m.refused(why).password.value.len() == 0,
        m.refused(why).password.cursor == 0,
        m.refused(why).focused == LoginField::Password,
        m.refused(why).password.focused,
        !m.refused(why).username.focused,
        m.refused(why).error_message == Some(why),
{
}

/// The login opens empty, at the name.
pub proof fn law_login_opens_empty()
    ensures
        LoginModel::opened().username.value.len() == 0,
        LoginModel::opened().password.value.len() == 0,
        LoginModel::opened().focused == LoginField::Username,
        LoginModel::opened().username.focused,
        !LoginModel::opened().password.focused,
        LoginModel::opened().error_message is None,
{
}

/// A field shows what is typed, or a star for each character; the place of the
/// cursor is lit where the field is in hand.
pub proof fn law_field_shows_what_is_typed(t: TextInputModel, masked: bool)
    requires
        t.wf(),
    ensures
        ({
            let s = field_line(t, masked).spans;
            let shown = if masked {
                repeated('*', t.value.len())
            } else {
                t.value
            };
            &&& !t.focused ==> s.len() == 1 && s[0].text == " "@ + shown
            &&& t.focused && t.cursor < t.value.len() ==> s[1].text + s[2].text + s[3].text == shown
            &&& t.focused && t.cursor == t.value.len() ==> s[1].text + s[3].text == shown
            &&& t.focused ==> s[1].text.len() == t.cursor && s[2].style.bg is Some
        }),
{
    let s = field_line(t, masked).spans;
    let shown = displayed(t.value, masked);
    if t.focused && t.cursor < t.value.len() {
        assert(s[1].text + s[2].text + s[3].text =~= shown);
    }
    if t.focused && t.cursor == t.value.len() {
        assert(s[1].text + s[3].text =~= shown);
    }
}

} // verus!
