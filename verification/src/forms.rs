//! The add/edit host form: cursor-addressed text fields, the auth-method
//! selector, field focus movement, validation, and conversion of the form
//! contents into a host record.
use vstd::prelude::*;
use vstd::string::*;

use crate::config::AuthMethodConfig;
use crate::models::{AuthMethod, AuthView, ServerConnection};
use crate::text::{
    chars_to_string, dec_str, digits_val, parse_u16_chars, parses_as_u16, string_to_chars,
    trim_chars, trim_spec, unsigned_part,
};

verus! {

/// A text input field with a character-addressed cursor.
#[derive(Debug)]
pub struct InputField {
    pub label: String,
    pub value: Vec<char>,
    pub placeholder: String,
    pub is_focused: bool,
    pub cursor_position: usize,
    pub is_password: bool,
}

/// Mathematical image of an input field.
#[verifier::ext_equal]
pub struct FieldView {
    pub label: Seq<char>,
    pub value: Seq<char>,
    pub placeholder: Seq<char>,
    pub is_focused: bool,
    pub cursor_position: usize,
    pub is_password: bool,
}

impl View for InputField {
    type V = FieldView;

    open spec fn view(&self) -> FieldView {
        FieldView {
            label: self.label@,
            value: self.value@,
            placeholder: self.placeholder@,
            is_focused: self.is_focused,
            cursor_position: self.cursor_position,
            is_password: self.is_password,
        }
    }
}

impl Clone for InputField {
    fn clone(&self) -> (r: Self)
        ensures
            r@ == self@,
    {
        let mut value: Vec<char> = Vec::new();
        let mut i: usize = 0;
        while i < self.value.len()
            invariant
                i <= self.value@.len(),
                value@ == self.value@.take(i as int),
            decreases self.value@.len() - i,
        {
            value.push(self.value[i]);
            proof {
                assert(self.value@.take(i + 1) =~= self.value@.take(i as int).push(
                    self.value@[i as int],
                ));
            }
            i = i + 1;
        }
        let r = InputField {
            label: self.label.clone(),
            value,
            placeholder: self.placeholder.clone(),
            is_focused: self.is_focused,
            cursor_position: self.cursor_position,
            is_password: self.is_password,
        };
        proof {
            assert(self.value@.take(self.value@.len() as int) =~= self.value@);
            assert(r@ =~= self@);
        }
        r
    }
}

/// The cursor never passes the end of the value.
pub open spec fn field_wf(f: FieldView) -> bool {
    f.cursor_position <= f.value.len()
}

/// A masked rendering: one star per character.
pub open spec fn stars(n: nat) -> Seq<char> {
    Seq::new(n, |i: int| '*')
}

impl InputField {
    /// An empty, unfocused text field.
    pub fn new(label: &str, placeholder: &str) -> (r: Self)
        ensures
            r@ == (FieldView {
                label: label@,
                value: Seq::empty(),
                placeholder: placeholder@,
                is_focused: false,
                cursor_position: 0,
                is_password: false,
            }),
            field_wf(r@),
    {
        let r = InputField {
            label: String::from_str(label),
            value: Vec::new(),
            placeholder: String::from_str(placeholder),
            is_focused: false,
            cursor_position: 0,
            is_password: false,
        };
        proof {
            assert(r@ =~= (FieldView {
                label: label@,
                value: Seq::empty(),
                placeholder: placeholder@,
                is_focused: false,
                cursor_position: 0,
                is_password: false,
            }));
        }
        r
    }

    /// Inserts a character at the cursor and advances the cursor past it.
    pub fn insert_char(&mut self, c: char)
        requires
            field_wf(old(self)@),
            old(self)@.value.len() < usize::MAX,
        ensures
            final(self)@.value == old(self)@.value.insert(old(self)@.cursor_position as int, c),
            final(self)@.cursor_position == old(self)@.cursor_position + 1,
            final(self)@.label == old(self)@.label,
            final(self)@.placeholder == old(self)@.placeholder,
            final(self)@.is_focused == old(self)@.is_focused,
            final(self)@.is_password == old(self)@.is_password,
            field_wf(final(self)@),
    {
        self.value.insert(self.cursor_position, c);
        self.cursor_position = self.cursor_position + 1;
    }

    /// Deletes the character before the cursor, if any, moving the cursor
    /// back over it.
    pub fn delete_char(&mut self)
        requires
            field_wf(old(self)@),
        ensures
            old(self)@.cursor_position > 0 ==> {
                &&& final(self)@.value == old(self)@.value.remove(
                    old(self)@.cursor_position - 1,
                )
                &&& final(self)@.cursor_position == old(self)@.cursor_position - 1
            },
            old(self)@.cursor_position == 0 ==> *final(self) == *old(self),
            final(self)@.label == old(self)@.label,
            final(self)@.placeholder == old(self)@.placeholder,
            final(self)@.is_focused == old(self)@.is_focused,
            final(self)@.is_password == old(self)@.is_password,
            field_wf(final(self)@),
    {
        if self.cursor_position > 0 {
            self.value.remove(self.cursor_position - 1);
            self.cursor_position = self.cursor_position - 1;
        }
    }

    /// Deletes the character under the cursor, if any; the cursor stays.
    pub fn delete_char_forward(&mut self)
        requires
            field_wf(old(self)@),
        ensures
            old(self)@.cursor_position < old(self)@.value.len() ==> final(self)@.value == old(self)@.value.remove(old(self)@.cursor_position as int),
            old(self)@.cursor_position >= old(self)@.value.len() ==> *final(self) == *old(self),
            final(self)@.cursor_position == old(self)@.cursor_position,
            final(self)@.label == old(self)@.label,
            final(self)@.placeholder == old(self)@.placeholder,
            final(self)@.is_focused == old(self)@.is_focused,
            final(self)@.is_password == old(self)@.is_password,
            field_wf(final(self)@),
    {
        if self.cursor_position < self.value.len() {
            self.value.remove(self.cursor_position);
        }
    }

    pub fn move_cursor_left(&mut self)
        ensures
            final(self)@.cursor_position == if old(self)@.cursor_position > 0 {
                (old(self)@.cursor_position - 1) as usize
            } else {
                0
            },
            final(self)@.value == old(self)@.value,
            final(self)@.label == old(self)@.label,
            final(self)@.placeholder == old(self)@.placeholder,
            final(self)@.is_focused == old(self)@.is_focused,
            final(self)@.is_password == old(self)@.is_password,
            field_wf(old(self)@) ==> field_wf(final(self)@),
    {
        if self.cursor_position > 0 {
            self.cursor_position = self.cursor_position - 1;
        }
    }

    pub fn move_cursor_right(&mut self)
        ensures
            final(self)@.cursor_position == if old(self)@.cursor_position < old(self)@.value.len() {
                (old(self)@.cursor_position + 1) as usize
            } else {
                old(self)@.cursor_position
            },
            final(self)@.value == old(self)@.value,
            final(self)@.label == old(self)@.label,
            final(self)@.placeholder == old(self)@.placeholder,
            final(self)@.is_focused == old(self)@.is_focused,
            final(self)@.is_password == old(self)@.is_password,
            field_wf(old(self)@) ==> field_wf(final(self)@),
    {
        if self.cursor_position < self.value.len() {
            self.cursor_position = self.cursor_position + 1;
        }
    }

    pub fn move_cursor_to_start(&mut self)
        ensures
            final(self)@ == (FieldView { cursor_position: 0, ..old(self)@ }),
            field_wf(old(self)@) ==> field_wf(final(self)@),
    {
        self.cursor_position = 0;
    }

    pub fn move_cursor_to_end(&mut self)
        ensures
            final(self)@ == (FieldView {
                cursor_position: old(self)@.value.len() as usize,
                ..old(self)@
            }),
            field_wf(final(self)@),
    {
        self.cursor_position = self.value.len();
    }

    /// What the field shows: the value, or one star per character for a
    /// non-empty password field.
    pub fn display_value(&self) -> (r: String)
        ensures
            self@.is_password && self@.value.len() > 0 ==> r@ == stars(self@.value.len()),
            !(self@.is_password && self@.value.len() > 0) ==> r@ == self@.value,
    {
        if self.is_password && self.value.len() > 0 {
            let n: usize = self.value.len();
            let mut masked: Vec<char> = Vec::new();
            let mut i: usize = 0;
            while i < n
                invariant
                    0 <= i <= n,
                    masked@ =~= stars(i as nat),
                decreases n - i,
            {
                masked.push('*');
                proof {
                    assert(masked@ =~= stars((i + 1) as nat));
                }
                i = i + 1;
            }
            chars_to_string(&masked)
        } else {
            chars_to_string(&self.value)
        }
    }
}

/// The auth-method choices the form offers, in selector order.
#[derive(Debug, Clone, Copy, PartialEq, Eq, Structural)]
pub enum AuthMethodSelection {
    Agent,
    Password,
    PublicKey,
    Interactive,
}

/// The selector order of the auth-method choices.
pub open spec fn selection_order() -> Seq<AuthMethodSelection> {
    seq![
        AuthMethodSelection::Agent,
        AuthMethodSelection::Password,
        AuthMethodSelection::PublicKey,
        AuthMethodSelection::Interactive,
    ]
}

/// The selection after this one, wrapping around.
pub open spec fn next_selection(s: AuthMethodSelection) -> AuthMethodSelection {
    match s {
        AuthMethodSelection::Agent => AuthMethodSelection::Password,
        AuthMethodSelection::Password => AuthMethodSelection::PublicKey,
        AuthMethodSelection::PublicKey => AuthMethodSelection::Interactive,
        AuthMethodSelection::Interactive => AuthMethodSelection::Agent,
    }
}

/// The selection before this one, wrapping around.
pub open spec fn previous_selection(s: AuthMethodSelection) -> AuthMethodSelection {
    match s {
        AuthMethodSelection::Agent => AuthMethodSelection::Interactive,
        AuthMethodSelection::Password => AuthMethodSelection::Agent,
        AuthMethodSelection::PublicKey => AuthMethodSelection::Password,
        AuthMethodSelection::Interactive => AuthMethodSelection::PublicKey,
    }
}

/// The selection standing for an auth method of a host record.
pub open spec fn selection_of(a: AuthView) -> AuthMethodSelection {
    match a {
        AuthView::Agent => AuthMethodSelection::Agent,
        AuthView::Password => AuthMethodSelection::Password,
        AuthView::PublicKey { key_path } => AuthMethodSelection::PublicKey,
        AuthView::Interactive => AuthMethodSelection::Interactive,
    }
}

/// The configured auth method a selection stands for; key-based selection
/// carries the conventional default key path.
pub open spec fn auth_of_selection(s: AuthMethodSelection) -> AuthView {
    match s {
        AuthMethodSelection::Agent => AuthView::Agent,
        AuthMethodSelection::Password => AuthView::Password,
        AuthMethodSelection::PublicKey => AuthView::PublicKey { key_path: "~/.ssh/id_rsa"@ },
        AuthMethodSelection::Interactive => AuthView::Interactive,
    }
}

impl AuthMethodSelection {
    /// All choices in selector order.
    pub fn variants() -> (r: Vec<AuthMethodSelection>)
        ensures
            r@ == selection_order(),
    {
        let mut r: Vec<AuthMethodSelection> = Vec::new();
        r.push(AuthMethodSelection::Agent);
        r.push(AuthMethodSelection::Password);
        r.push(AuthMethodSelection::PublicKey);
        r.push(AuthMethodSelection::Interactive);
        proof {
            assert(r@ =~= selection_order());
        }
        r
    }

    pub fn display_name(&self) -> (r: &'static str)
        ensures
            self is Agent ==> r@ == "SSH Agent"@,
            self is Password ==> r@ == "Password"@,
            self is PublicKey ==> r@ == "Public Key"@,
            self is Interactive ==> r@ == "Interactive"@,
    {
        match self {
            AuthMethodSelection::Agent => "SSH Agent",
            AuthMethodSelection::Password => "Password",
            AuthMethodSelection::PublicKey => "Public Key",
            AuthMethodSelection::Interactive => "Interactive",
        }
    }

    pub fn description(&self) -> (r: &'static str)
        ensures
            self is Agent ==> r@ == "Use SSH agent for authentication"@,
            self is Password ==> r@ == "Use password authentication (not recommended)"@,
            self is PublicKey ==> r@ == "Use public key authentication"@,
            self is Interactive ==> r@ == "Interactive keyboard authentication"@,
    {
        match self {
            AuthMethodSelection::Agent => "Use SSH agent for authentication",
            AuthMethodSelection::Password => "Use password authentication (not recommended)",
            AuthMethodSelection::PublicKey => "Use public key authentication",
            AuthMethodSelection::Interactive => "Interactive keyboard authentication",
        }
    }

    /// The configured auth method this selection stands for.
    pub fn to_config(&self) -> (r: AuthMethodConfig)
        ensures
            r@ == auth_of_selection(*self),
    {
        match self {
            AuthMethodSelection::Agent => AuthMethodConfig::Agent,
            AuthMethodSelection::Password => AuthMethodConfig::Password,
            AuthMethodSelection::PublicKey => AuthMethodConfig::PublicKey {
                key_path: String::from_str("~/.ssh/id_rsa"),
            },
            AuthMethodSelection::Interactive => AuthMethodConfig::Interactive,
        }
    }

    /// The selection standing for a host record's auth method.
    pub fn from_auth(auth: &AuthMethod) -> (r: AuthMethodSelection)
        ensures
            r == selection_of(auth@),
    {
        match auth {
            AuthMethod::Agent => AuthMethodSelection::Agent,
            AuthMethod::Password => AuthMethodSelection::Password,
            AuthMethod::PublicKey { key_path } => AuthMethodSelection::PublicKey,
            AuthMethod::Interactive => AuthMethodSelection::Interactive,
        }
    }
}

/// Words joined by a separator.
pub open spec fn join_sep(parts: Seq<Seq<char>>, sep: Seq<char>) -> Seq<char>
    decreases parts.len(),
{
    if parts.len() == 0 {
        Seq::empty()
    } else if parts.len() == 1 {
        parts[0]
    } else {
        parts[0] + sep + join_sep(parts.skip(1), sep)
    }
}

proof fn lemma_join_sep_push(parts: Seq<Seq<char>>, sep: Seq<char>, x: Seq<char>)
    ensures
        join_sep(parts.push(x), sep) == if parts.len() == 0 {
            x
        } else {
            join_sep(parts, sep) + sep + x
        },
    decreases parts.len(),
{
    if parts.len() == 0 {
        assert(parts.push(x)[0] == x);
    } else {
        assert(parts.push(x).skip(1) =~= parts.skip(1).push(x));
        lemma_join_sep_push(parts.skip(1), sep, x);
        if parts.len() == 1 {
            assert(parts.skip(1).len() == 0);
        }
    }
}

/// Joins strings with a separator between them.
pub fn join_with_sep(parts: &Vec<String>, sep: &str) -> (r: String)
    ensures
        r@ == join_sep(parts.deep_view(), sep@),
{
    let mut s = String::new();
    let n: usize = parts.len();
    let mut i: usize = 0;
    while i < n
        invariant
            0 <= i <= n == parts@.len(),
            s@ == join_sep(parts.deep_view().take(i as int), sep@),
        decreases n - i,
    {
        if i > 0 {
            s.append(sep);
        }
        s.append(parts[i].as_str());
        proof {
            assert(parts.deep_view().take(i + 1) =~= parts.deep_view().take(i as int).push(
                parts.deep_view()[i as int],
            ));
            lemma_join_sep_push(parts.deep_view().take(i as int), sep@, parts.deep_view()[i as int]);
        }
        i = i + 1;
    }
    proof {
        assert(parts.deep_view().take(n as int) =~= parts.deep_view());
    }
    s
}

/// The chunks of a comma-separated string: `cur` is the chunk being read.
pub open spec fn split_acc(s: Seq<char>, cur: Seq<char>) -> Seq<Seq<char>>
    decreases s.len(),
{
    if s.len() == 0 {
        seq![cur]
    } else if s[0] == ',' {
        seq![cur] + split_acc(s.skip(1), Seq::empty())
    } else {
        split_acc(s.skip(1), cur.push(s[0]))
    }
}

/// The chunks of a comma-separated string, as the standard splitter yields
/// them: an empty string yields one empty chunk.
pub open spec fn split_commas(s: Seq<char>) -> Seq<Seq<char>> {
    split_acc(s, Seq::empty())
}

/// The tag list read from the tags field: comma-separated chunks, each
/// trimmed, empty ones dropped.
pub open spec fn tags_of(s: Seq<char>) -> Seq<Seq<char>> {
    split_commas(s).map_values(|t: Seq<char>| trim_spec(t)).filter(|t: Seq<char>| t.len() > 0)
}

/// The images of a chunk list.
pub open spec fn chunk_views(v: Seq<Vec<char>>) -> Seq<Seq<char>> {
    Seq::new(v.len(), |i: int| v[i]@)
}

/// Splits a comma-separated character string into its chunks.
fn split_commas_exec(v: &Vec<char>) -> (r: Vec<Vec<char>>)
    ensures
        chunk_views(r@) == split_commas(v@),
{
    let n: usize = v.len();
    let mut done: Vec<Vec<char>> = Vec::new();
    let mut cur: Vec<char> = Vec::new();
    let mut i: usize = 0;
    proof {
        assert(v@.skip(0) =~= v@);
        assert(chunk_views(done@) =~= Seq::<Seq<char>>::empty());
        assert(chunk_views(done@) + split_acc(v@, cur@) =~= split_acc(v@, cur@));
    }
    while i < n
        invariant
            0 <= i <= n == v@.len(),
            split_commas(v@) == chunk_views(done@) + split_acc(v@.skip(i as int), cur@),
        decreases n - i,
    {
        let c = v[i];
        proof {
            assert(v@.skip(i as int)[0] == v@[i as int]);
            assert(v@.skip(i as int).skip(1) =~= v@.skip(i + 1));
        }
        if c == ',' {
            let ghost prev = done@;
            let ghost prev_cur = cur@;
            done.push(cur);
            cur = Vec::new();
            proof {
                assert(chunk_views(done@) =~= chunk_views(prev).push(prev_cur));
                assert(split_acc(v@.skip(i as int), prev_cur) == seq![prev_cur] + split_acc(
                    v@.skip(i + 1),
                    Seq::empty(),
                ));
                assert(chunk_views(prev).push(prev_cur) + split_acc(v@.skip(i + 1), cur@)
                    =~= chunk_views(prev) + (seq![prev_cur] + split_acc(
                    v@.skip(i + 1),
                    Seq::empty(),
                )));
            }
        } else {
            proof {
                assert(split_acc(v@.skip(i as int), cur@) == split_acc(
                    v@.skip(i + 1),
                    cur@.push(v@[i as int]),
                ));
            }
            cur.push(c);
        }
        i = i + 1;
    }
    proof {
        assert(v@.skip(n as int) =~= Seq::<char>::empty());
        assert(split_acc(v@.skip(n as int), cur@) == seq![cur@]);
    }
    let ghost prev = done@;
    let ghost prev_cur = cur@;
    done.push(cur);
    proof {
        assert(chunk_views(done@) =~= chunk_views(prev).push(prev_cur));
        assert(chunk_views(prev).push(prev_cur) =~= chunk_views(prev) + seq![prev_cur]);
        assert(chunk_views(done@) =~= split_commas(v@));
    }
    done
}

/// Reads the tag list out of the tags field: chunks between commas,
/// trimmed, with empty entries dropped.
pub fn parse_tags(v: &Vec<char>) -> (r: Vec<String>)
    ensures
        r.deep_view() == tags_of(v@),
{
    let chunks = split_commas_exec(v);
    let n: usize = chunks.len();
    let mut r: Vec<String> = Vec::new();
    let mut i: usize = 0;
    let ghost cviews = chunk_views(chunks@);
    proof {
        reveal(Seq::filter);
        assert(cviews.take(0).map_values(|t: Seq<char>| trim_spec(t)) =~= Seq::<Seq<char>>::empty());
    }
    while i < n
        invariant
            0 <= i <= n == chunks@.len(),
            cviews == chunk_views(chunks@),
            cviews == split_commas(v@),
            r.deep_view() == cviews.take(i as int).map_values(|t: Seq<char>| trim_spec(t)).filter(
                |t: Seq<char>| t.len() > 0,
            ),
        decreases n - i,
    {
        let trimmed = trim_chars(&chunks[i]);
        proof {
            assert(cviews[i as int] == chunks@[i as int]@);
            assert(trimmed@ == trim_spec(cviews[i as int]));
            assert(cviews.take(i + 1) =~= cviews.take(i as int).push(cviews[i as int]));
            assert(cviews.take(i + 1).map_values(|t: Seq<char>| trim_spec(t)) =~= cviews.take(
                i as int,
            ).map_values(|t: Seq<char>| trim_spec(t)).push(trim_spec(cviews[i as int])));
            lemma_filter_push_tags(
                cviews.take(i as int).map_values(|t: Seq<char>| trim_spec(t)),
                trim_spec(cviews[i as int]),
            );
        }
        if trimmed.len() > 0 {
            r.push(chars_to_string(&trimmed));
            proof {
                assert(r.deep_view() =~= cviews.take(i + 1).map_values(
                    |t: Seq<char>| trim_spec(t),
                ).filter(|t: Seq<char>| t.len() > 0));
            }
        } else {
            proof {
                assert(r.deep_view() =~= cviews.take(i + 1).map_values(
                    |t: Seq<char>| trim_spec(t),
                ).filter(|t: Seq<char>| t.len() > 0));
            }
        }
        i = i + 1;
    }
    proof {
        assert(cviews.take(n as int) =~= cviews);
    }
    r
}

proof fn lemma_filter_push_tags(s: Seq<Seq<char>>, x: Seq<char>)
    ensures
        s.push(x).filter(|t: Seq<char>| t.len() > 0) == if x.len() > 0 {
            s.filter(|t: Seq<char>| t.len() > 0).push(x)
        } else {
            s.filter(|t: Seq<char>| t.len() > 0)
        },
{
    reveal(Seq::filter);
    assert(s.push(x).drop_last() =~= s);
    assert(s.push(x).last() == x);
}

/// The add/edit host form: five text fields, the auth selector, and the
/// tags field.
#[derive(Debug)]
pub struct ServerForm {
    /// Name, host, port, username, description — in that order.
    pub fields: Vec<InputField>,
    pub auth_method: AuthMethodSelection,
    pub auth_method_focused: bool,
    /// Index of the focused field; the tags field sits at index five.
    pub current_field: usize,
    pub is_editing: bool,
    pub original_id: Option<String>,
    pub tags_input: InputField,
}

/// Mathematical image of the form.
#[verifier::ext_equal]
pub struct FormView {
    pub fields: Seq<FieldView>,
    pub auth_method: AuthMethodSelection,
    pub auth_method_focused: bool,
    pub current_field: usize,
    pub is_editing: bool,
    pub original_id: Option<Seq<char>>,
    pub tags_input: FieldView,
}

/// The images of a field list.
pub open spec fn field_views(v: Seq<InputField>) -> Seq<FieldView> {
    Seq::new(v.len(), |i: int| v[i]@)
}

impl View for ServerForm {
    type V = FormView;

    open spec fn view(&self) -> FormView {
        FormView {
            fields: field_views(self.fields@),
            auth_method: self.auth_method,
            auth_method_focused: self.auth_method_focused,
            current_field: self.current_field,
            is_editing: self.is_editing,
            original_id: match self.original_id {
                Some(id) => Some(id@),
                None => None,
            },
            tags_input: self.tags_input@,
        }
    }
}

/// The form always has its five fields, the focus index never passes the
/// tags slot, and every cursor sits inside its value.
pub open spec fn form_wf(f: FormView) -> bool {
    &&& f.fields.len() == 5
    &&& f.current_field <= 5
    &&& forall|i: int| 0 <= i < 5 ==> field_wf(#[trigger] f.fields[i])
    &&& field_wf(f.tags_input)
}

/// Exactly the field the focus index points at is focused, and only when
/// the auth selector is not.
pub open spec fn focus_consistent(f: FormView) -> bool {
    &&& forall|i: int|
        0 <= i < f.fields.len() ==> (#[trigger] f.fields[i]).is_focused == (i
            == f.current_field && !f.auth_method_focused)
    &&& f.tags_input.is_focused == (f.current_field == f.fields.len() && !f.auth_method_focused)
}

/// Everything of the form but its focus state.
pub open spec fn same_form_content(a: FormView, b: FormView) -> bool {
    &&& a.fields.len() == b.fields.len()
    &&& forall|i: int|
        0 <= i < a.fields.len() ==> (#[trigger] a.fields[i]) == (FieldView {
            is_focused: a.fields[i].is_focused,
            ..b.fields[i]
        })
    &&& a.auth_method == b.auth_method
    &&& a.is_editing == b.is_editing
    &&& a.original_id == b.original_id
    &&& a.tags_input == (FieldView { is_focused: a.tags_input.is_focused, ..b.tags_input })
}

/// The validation failures of the form, in display order.
pub open spec fn validate_errors(f: FormView) -> Seq<Seq<char>> {
    (if trim_spec(f.fields[0].value).len() == 0 {
        seq!["Name is required"@]
    } else {
        Seq::empty()
    }) + (if trim_spec(f.fields[1].value).len() == 0 {
        seq!["Host is required"@]
    } else {
        Seq::empty()
    }) + (if trim_spec(f.fields[2].value).len() == 0 {
        seq!["Port is required"@]
    } else if !parses_as_u16(f.fields[2].value) {
        seq!["Port must be a valid number (1-65535)"@]
    } else {
        Seq::empty()
    }) + (if trim_spec(f.fields[3].value).len() == 0 {
        seq!["Username is required"@]
    } else {
        Seq::empty()
    })
}

impl ServerForm {
    /// A blank form for adding a host.
    pub fn new_add_form() -> (r: Self)
        ensures
            form_wf(r@),
            focus_consistent(r@),
            r@.fields[0].label == "Name"@ && r@.fields[0].placeholder == "My Server"@,
            r@.fields[1].label == "Host"@ && r@.fields[1].placeholder == "example.com"@,
            r@.fields[2].label == "Port"@ && r@.fields[2].placeholder == "22"@,
            r@.fields[3].label == "Username"@ && r@.fields[3].placeholder == "user"@,
            r@.fields[4].label == "Description"@ && r@.fields[4].placeholder
                == "Optional description"@,
            r@.tags_input.label == "Tags"@ && r@.tags_input.placeholder == "web,production"@,
            forall|i: int| 0 <= i < 5 ==> (#[trigger] r@.fields[i]).value.len() == 0,
            forall|i: int| 0 <= i < 5 ==> (#[trigger] r@.fields[i]).cursor_position == 0,
            r@.tags_input.value.len() == 0,
            r@.auth_method is Agent,
            r@.auth_method_focused == false,
            r@.current_field == 0,
            r@.is_editing == false,
            r@.original_id is None,
    {
        let mut fields: Vec<InputField> = Vec::new();
        fields.push(InputField::new("Name", "My Server"));
        fields.push(InputField::new("Host", "example.com"));
        fields.push(InputField::new("Port", "22"));
        fields.push(InputField::new("Username", "user"));
        fields.push(InputField::new("Description", "Optional description"));
        let tags_input = InputField::new("Tags", "web,production");
        let mut form = ServerForm {
            fields,
            auth_method: AuthMethodSelection::Agent,
            auth_method_focused: false,
            current_field: 0,
            is_editing: false,
            original_id: None,
            tags_input,
        };
        form.update_focus();
        form
    }

    /// A form pre-filled from an existing host record for editing, with
    /// each cursor at the end of its value.
    pub fn new_edit_form(connection: &ServerConnection) -> (r: Self)
        ensures
            form_wf(r@),
            focus_consistent(r@),
            r@.fields[0].value == connection@.name,
            r@.fields[1].value == connection@.host,
            r@.fields[2].value == dec_str(connection@.port as int),
            r@.fields[3].value == connection@.username,
            r@.fields[4].value == (match connection@.description {
                Some(d) => d,
                None => Seq::<char>::empty(),
            }),
            r@.tags_input.value == join_sep(connection@.tags, ","@),
            r@.auth_method == selection_of(connection@.auth_method),
            r@.current_field == 0,
            r@.auth_method_focused == false,
            r@.is_editing == true,
            r@.original_id == Some(connection@.id),
    {
        let mut form = Self::new_add_form();
        form.is_editing = true;
        form.original_id = Some(connection.id.clone());
        set_field_value(&mut form.fields, 0, string_to_chars(connection.name.as_str()));
        set_field_value(&mut form.fields, 1, string_to_chars(connection.host.as_str()));
        let port_str = crate::text::u16_to_string(connection.port);
        set_field_value(&mut form.fields, 2, string_to_chars(port_str.as_str()));
        set_field_value(&mut form.fields, 3, string_to_chars(connection.username.as_str()));
        match &connection.description {
            Some(desc) => {
                set_field_value(&mut form.fields, 4, string_to_chars(desc.as_str()));
            },
            None => {},
        }
        form.auth_method = AuthMethodSelection::from_auth(&connection.auth_method);
        let joined = join_with_sep(&connection.tags, ",");
        let tag_chars = string_to_chars(joined.as_str());
        let ghost tv = tag_chars@;
        form.tags_input.value = tag_chars;
        form.tags_input.cursor_position = form.tags_input.value.len();
        proof {
            assert(connection.tags.deep_view() =~= connection@.tags);
        }
        form.update_focus();
        form
    }

    /// The field the focus sits on, for editing; the auth selector and the
    /// tags slot are handled by their own paths.
    pub fn current_field_mut(&mut self) -> (r: Option<&mut InputField>)
        requires
            form_wf(old(self)@),
    {
        if self.auth_method_focused {
            None
        } else if self.current_field == self.fields.len() {
            Some(&mut self.tags_input)
        } else {
            Some(&mut self.fields[self.current_field])
        }
    }

    /// Moves focus to the next field: off the auth selector to the first
    /// field, forward through the fields and the tags slot, then wrapping
    /// to the first field.
    pub fn next_field(&mut self)
        requires
            form_wf(old(self)@),
        ensures
            form_wf(final(self)@),
            focus_consistent(final(self)@),
            same_form_content(final(self)@, old(self)@),
            old(self)@.auth_method_focused ==> final(self)@.current_field == 0 && !final(self)@.auth_method_focused,
            !old(self)@.auth_method_focused && old(self)@.current_field < 5 ==> final(self)@.current_field == old(self)@.current_field + 1,
            !old(self)@.auth_method_focused && old(self)@.current_field == 5 ==> final(self)@.current_field == 0,
            final(self)@.auth_method_focused == false,
    {
        if self.auth_method_focused {
            self.auth_method_focused = false;
            self.current_field = 0;
        } else if self.current_field < self.fields.len() {
            self.current_field = self.current_field + 1;
        } else {
            self.current_field = 0;
        }
        self.update_focus();
    }

    /// Moves focus to the previous field: from the first field to the auth
    /// selector, off the selector to the tags slot, otherwise one back.
    pub fn previous_field(&mut self)
        requires
            form_wf(old(self)@),
        ensures
            form_wf(final(self)@),
            focus_consistent(final(self)@),
            same_form_content(final(self)@, old(self)@),
            old(self)@.current_field == 0 && old(self)@.auth_method_focused ==> final(self)@.current_field == 5 && !final(self)@.auth_method_focused,
            old(self)@.current_field == 0 && !old(self)@.auth_method_focused ==> final(self)@.auth_method_focused && final(self)@.current_field == 0,
            old(self)@.current_field == 5 && !old(self)@.auth_method_focused ==> final(self)@.current_field == 4 && !final(self)@.auth_method_focused,
            0 < old(self)@.current_field < 5 ==> final(self)@.current_field == old(self)@.current_field - 1 && final(self)@.auth_method_focused == old(self)@.auth_method_focused,
    {
        if self.current_field == 0 {
            if self.auth_method_focused {
                self.current_field = self.fields.len();
                self.auth_method_focused = false;
            } else {
                self.auth_method_focused = true;
            }
        } else if self.current_field == self.fields.len() {
            self.current_field = self.fields.len() - 1;
        } else {
            self.current_field = self.current_field - 1;
        }
        self.update_focus();
    }

    /// Re-derives every focus flag from the focus index and the auth
    /// selector.
    fn update_focus(&mut self)
        requires
            form_wf(old(self)@),
        ensures
            form_wf(final(self)@),
            focus_consistent(final(self)@),
            same_form_content(final(self)@, old(self)@),
            final(self)@.current_field == old(self)@.current_field,
            final(self)@.auth_method_focused == old(self)@.auth_method_focused,
    {
        let n: usize = self.fields.len();
        let ghost olds = self@;
        let mut i: usize = 0;
        while i < n
            invariant
                0 <= i <= n == self.fields@.len(),
                n == 5,
                form_wf(olds),
                self.auth_method == olds.auth_method,
                self.auth_method_focused == olds.auth_method_focused,
                self.current_field == olds.current_field,
                self.is_editing == olds.is_editing,
                (match self.original_id {
                    Some(id) => Some(id@),
                    None => None,
                }) == olds.original_id,
                self.tags_input@ == olds.tags_input,
                forall|k: int|
                    0 <= k < i ==> (#[trigger] self.fields@[k])@ == (FieldView {
                        is_focused: (k == olds.current_field && !olds.auth_method_focused),
                        ..olds.fields[k]
                    }),
                forall|k: int| i <= k < n ==> (#[trigger] self.fields@[k])@ == olds.fields[k],
            decreases n - i,
        {
            let focused = i == self.current_field && !self.auth_method_focused;
            let mut f = self.fields[i].clone();
            proof {
                assert((self.fields@[i as int])@ == olds.fields[i as int]);
            }
            f.is_focused = focused;
            self.fields.set(i, f);
            i = i + 1;
        }
        let tags_focused = self.current_field == n && !self.auth_method_focused;
        self.tags_input.is_focused = tags_focused;
        proof {
            assert(final(self)@.tags_input =~= (FieldView {
                is_focused: (olds.current_field == 5 && !olds.auth_method_focused),
                ..olds.tags_input
            }));
        }
    }

    /// Steps the auth selector forward, wrapping around.
    pub fn next_auth_method(&mut self)
        ensures
            final(self)@ == (FormView {
                auth_method: next_selection(old(self)@.auth_method),
                ..old(self)@
            }),
    {
        self.auth_method = match self.auth_method {
            AuthMethodSelection::Agent => AuthMethodSelection::Password,
            AuthMethodSelection::Password => AuthMethodSelection::PublicKey,
            AuthMethodSelection::PublicKey => AuthMethodSelection::Interactive,
            AuthMethodSelection::Interactive => AuthMethodSelection::Agent,
        };
        proof {
            assert(final(self)@ =~= (FormView {
                auth_method: next_selection(old(self)@.auth_method),
                ..old(self)@
            }));
        }
    }

    /// Steps the auth selector backward, wrapping around.
    pub fn previous_auth_method(&mut self)
        ensures
            final(self)@ == (FormView {
                auth_method: previous_selection(old(self)@.auth_method),
                ..old(self)@
            }),
    {
        self.auth_method = match self.auth_method {
            AuthMethodSelection::Agent => AuthMethodSelection::Interactive,
            AuthMethodSelection::Password => AuthMethodSelection::Agent,
            AuthMethodSelection::PublicKey => AuthMethodSelection::Password,
            AuthMethodSelection::Interactive => AuthMethodSelection::PublicKey,
        };
        proof {
            assert(final(self)@ =~= (FormView {
                auth_method: previous_selection(old(self)@.auth_method),
                ..old(self)@
            }));
        }
    }

    /// The validation failures of the form, in display order: the name,
    /// host, port and username must be present, and the port must be a
    /// number between 1 and 65535 as the standard parser reads it.
    pub fn validate(&self) -> (r: Vec<String>)
        requires
            form_wf(self@),
        ensures
            r.deep_view() == validate_errors(self@),
    {
        let mut errors: Vec<String> = Vec::new();
        let t0 = trim_chars(&self.fields[0].value);
        if t0.len() == 0 {
            errors.push(String::from_str("Name is required"));
        }
        let t1 = trim_chars(&self.fields[1].value);
        if t1.len() == 0 {
            errors.push(String::from_str("Host is required"));
        }
        let t2 = trim_chars(&self.fields[2].value);
        if t2.len() == 0 {
            errors.push(String::from_str("Port is required"));
        } else {
            match parse_u16_chars(&self.fields[2].value) {
                Some(_) => {},
                None => {
                    errors.push(String::from_str("Port must be a valid number (1-65535)"));
                },
            }
        }
        let t3 = trim_chars(&self.fields[3].value);
        if t3.len() == 0 {
            errors.push(String::from_str("Username is required"));
        }
        proof {
            assert((self.fields@[0])@ == self@.fields[0]);
            assert((self.fields@[1])@ == self@.fields[1]);
            assert((self.fields@[2])@ == self@.fields[2]);
            assert((self.fields@[3])@ == self@.fields[3]);
            assert(errors.deep_view() =~= validate_errors(self@));
        }
        errors
    }

    /// Whether anything has been typed into the form.
    pub fn has_input(&self) -> (r: bool)
        requires
            form_wf(self@),
        ensures
            r == ((exists|i: int| 0 <= i < 5 && (#[trigger] self@.fields[i]).value.len() > 0)
                || self@.tags_input.value.len() > 0),
    {
        let n: usize = self.fields.len();
        let mut i: usize = 0;
        while i < n
            invariant
                0 <= i <= n == 5,
                form_wf(self@),
                n == self.fields@.len(),
                forall|k: int| 0 <= k < i ==> (#[trigger] self@.fields[k]).value.len() == 0,
            decreases n - i,
        {
            if self.fields[i].value.len() > 0 {
                proof {
                    assert((self.fields@[i as int])@ == self@.fields[i as int]);
                    assert(self@.fields[i as int].value.len() > 0);
                }
                return true;
            }
            proof {
                assert((self.fields@[i as int])@ == self@.fields[i as int]);
            }
            i = i + 1;
        }
        self.tags_input.value.len() > 0
    }
}

/// Replaces one field's text with the given characters and puts the cursor
/// at its end; the label, placeholder and the other fields are untouched.
fn set_field_value(fields: &mut Vec<InputField>, i: usize, value: Vec<char>)
    requires
        i < old(fields)@.len(),
    ensures
        final(fields)@.len() == old(fields)@.len(),
        forall|k: int|
            0 <= k < old(fields)@.len() && k != i ==> (#[trigger] final(fields)@[k])@ == (old(
                fields,
            )@[k])@,
        (final(fields)@[i as int])@ == (FieldView {
            value: value@,
            cursor_position: value@.len() as usize,
            ..(old(fields)@[i as int])@
        }),
        field_wf((final(fields)@[i as int])@),
{
    let mut f = fields[i].clone();
    f.value = value;
    f.cursor_position = f.value.len();
    fields.set(i, f);
}

proof fn lemma_validate_segments(f: FormView)
    requires
        validate_errors(f).len() == 0,
    ensures
        trim_spec(f.fields[2].value).len() > 0,
        parses_as_u16(f.fields[2].value),
        trim_spec(f.fields[0].value).len() > 0,
        trim_spec(f.fields[1].value).len() > 0,
        trim_spec(f.fields[3].value).len() > 0,
{
}

impl ServerForm {
    /// Builds the host record the form describes, or the joined validation
    /// failures. Textual fields are trimmed; the port is read by the
    /// standard parser; key-based auth carries the conventional default key
    /// path; the tags field is split on commas; an edited record keeps its
    /// original id, a new one draws a fresh id.
    pub fn to_server_connection(&self) -> (r: Result<ServerConnection, String>)
        requires
            form_wf(self@),
        ensures
            validate_errors(self@).len() > 0 ==> ({
                &&& r matches Err(m)
                &&& m@ == join_sep(validate_errors(self@), "; "@)
            }),
            validate_errors(self@).len() == 0 ==> ({
                &&& r matches Ok(c)
                &&& c@.name == trim_spec(self@.fields[0].value)
                &&& c@.host == trim_spec(self@.fields[1].value)
                &&& c@.port == digits_val(unsigned_part(self@.fields[2].value))
                &&& c@.username == trim_spec(self@.fields[3].value)
                &&& c@.description == (if trim_spec(self@.fields[4].value).len() > 0 {
                    Some(trim_spec(self@.fields[4].value))
                } else {
                    None::<Seq<char>>
                })
                &&& c@.auth_method == auth_of_selection(self@.auth_method)
                &&& c@.tags == tags_of(self@.tags_input.value)
                &&& (self@.original_id matches Some(id) ==> c@.id == id)
                &&& (self@.original_id is None ==> c@.id.len() == 36)
                &&& c@.health_status is Unknown
                &&& c@.security_status is Unknown
                &&& c@.active_sessions.len() == 0
            }),
    {
        let errors = self.validate();
        if errors.len() > 0 {
            return Err(join_with_sep(&errors, "; "));
        }
        proof {
            lemma_validate_segments(self@);
            assert((self.fields@[2])@ == self@.fields[2]);
        }
        let port: u16 = match parse_u16_chars(&self.fields[2].value) {
            Some(p) => p,
            None => {
                proof {
                    assert(false);
                }
                return Err(String::new());
            },
        };
        let name_chars = trim_chars(&self.fields[0].value);
        let host_chars = trim_chars(&self.fields[1].value);
        let user_chars = trim_chars(&self.fields[3].value);
        let mut connection = ServerConnection::new(
            chars_to_string(&name_chars),
            chars_to_string(&host_chars),
            port,
            chars_to_string(&user_chars),
        );
        let desc_chars = trim_chars(&self.fields[4].value);
        if desc_chars.len() > 0 {
            connection.description = Some(chars_to_string(&desc_chars));
        }
        connection.auth_method = self.auth_method.to_config().to_auth_method();
        connection.tags = parse_tags(&self.tags_input.value);
        match &self.original_id {
            Some(original_id) => {
                connection.id = original_id.clone();
            },
            None => {},
        }
        proof {
            assert((self.fields@[0])@ == self@.fields[0]);
            assert((self.fields@[1])@ == self@.fields[1]);
            assert((self.fields@[3])@ == self@.fields[3]);
            assert((self.fields@[4])@ == self@.fields[4]);
        }
        Ok(connection)
    }
}

} // verus!
