//! Importing a request from a cURL command: the import page's fields, the variables it
//! registers, and the request document it writes.
use vstd::prelude::*;
use crate::config::{DataPart, FileUpload, NameValue, PartView, RequestParam};
use crate::curl::ImportedRequest;
use crate::documents::{body_text, params_from_parts, part_param, parts_body, RequestDocument};
use crate::text::{
    chars_of, contains, copy_str, ends_with, eq_str, find, find_str, starts_with, starts_with_str,
    string_of, strip_prefix, strip_prefix_str, strip_suffix, strip_suffix_str, trim, trim_str,
};

verus! {

/// The field of the import page that has focus.
#[derive(Clone, Copy, PartialEq, Eq, Structural, Debug)]
pub enum CurlImportFocus {
    Name,
    Description,
    RegisteredVariables,
    Workspace,
    Command,
}

impl CurlImportFocus {
    /// Whether the field takes typed text.
    pub fn is_input(self) -> (r: bool)
        ensures
            r == (self != CurlImportFocus::Workspace),
    {
        match self {
            CurlImportFocus::Workspace => false,
            _ => true,
        }
    }

    pub open spec fn spec_next(self, reverse: bool) -> CurlImportFocus {
        match (self, reverse) {
            (CurlImportFocus::Name, false) => CurlImportFocus::Description,
            (CurlImportFocus::Command, true) => CurlImportFocus::Description,
            (CurlImportFocus::Description, false) => CurlImportFocus::RegisteredVariables,
            (CurlImportFocus::Name, true) => CurlImportFocus::RegisteredVariables,
            (CurlImportFocus::RegisteredVariables, false) => CurlImportFocus::Workspace,
            (CurlImportFocus::Description, true) => CurlImportFocus::Workspace,
            (CurlImportFocus::Workspace, false) => CurlImportFocus::Command,
            (CurlImportFocus::RegisteredVariables, true) => CurlImportFocus::Command,
            (CurlImportFocus::Command, false) => CurlImportFocus::Name,
            (CurlImportFocus::Workspace, true) => CurlImportFocus::Name,
        }
    }

    /// The field that focus moves to, forward or, when `reverse`, backward.
    pub fn next(self, reverse: bool) -> (r: CurlImportFocus)
        ensures
            r == self.spec_next(reverse),
    {
        match (self, reverse) {
            (CurlImportFocus::Name, false) | (CurlImportFocus::Command, true) => CurlImportFocus::Description,
            (CurlImportFocus::Description, false) | (CurlImportFocus::Name, true) => CurlImportFocus::RegisteredVariables,
            (CurlImportFocus::RegisteredVariables, false) | (CurlImportFocus::Description, true) => CurlImportFocus::Workspace,
            (CurlImportFocus::Workspace, false) | (CurlImportFocus::RegisteredVariables, true) => CurlImportFocus::Command,
            (CurlImportFocus::Command, false) | (CurlImportFocus::Workspace, true) => CurlImportFocus::Name,
        }
    }
}

/// Why the registered variables of an import were refused.
pub enum VariableEntryError {
    /// An entry between commas is empty.
    EmptyVariable,
    /// A quoted default is not closed.
    UnclosedDefault,
    /// An entry is not a `{{name}}` placeholder with an optional `= default`.
    InvalidVariable(String),
    /// A variable is registered twice.
    DuplicateVariable(String),
    /// A default value cannot be read.
    InvalidDefault(String),
}

pub enum EntryErrorView {
    EmptyVariable,
    UnclosedDefault,
    InvalidVariable(Seq<char>),
    DuplicateVariable(Seq<char>),
    InvalidDefault(Seq<char>),
}

impl View for VariableEntryError {
    type V = EntryErrorView;

    open spec fn view(&self) -> EntryErrorView {
        match self {
            VariableEntryError::EmptyVariable => EntryErrorView::EmptyVariable,
            VariableEntryError::UnclosedDefault => EntryErrorView::UnclosedDefault,
            VariableEntryError::InvalidVariable(s) => EntryErrorView::InvalidVariable(s@),
            VariableEntryError::DuplicateVariable(s) => EntryErrorView::DuplicateVariable(s@),
            VariableEntryError::InvalidDefault(s) => EntryErrorView::InvalidDefault(s@),
        }
    }
}

/// How far splitting the registered variables has come: where the current entry starts,
/// the open quote, whether the last character escapes the next, whether the last separator
/// was a comma, and the entries so far.
pub struct SplitState {
    pub start: int,
    pub quote: Option<char>,
    pub escaped: bool,
    pub comma: bool,
    pub entries: Seq<Seq<char>>,
}

pub open spec fn is_separator(c: char) -> bool {
    c == ',' || c == '\n' || c == '\r'
}

/// One character read: inside quotes a backslash escapes the next character and the
/// opening quote closes them; outside, a quote opens them and a comma or line break ends
/// an entry, which must not be empty before a comma.
pub open spec fn split_step(input: Seq<char>, i: int, st: SplitState) -> Result<SplitState, EntryErrorView> {
    let c = input[i];
    if st.escaped {
        Ok(SplitState { escaped: false, ..st })
    } else if st.quote is Some {
        if c == '\\' {
            Ok(SplitState { escaped: true, ..st })
        } else if st.quote == Some(c) {
            Ok(SplitState { quote: None, ..st })
        } else {
            Ok(st)
        }
    } else if c == '\'' || c == '"' {
        Ok(SplitState { quote: Some(c), ..st })
    } else if is_separator(c) {
        let entry = trim(input.subrange(st.start, i));
        if entry.len() == 0 && c == ',' {
            Err(EntryErrorView::EmptyVariable)
        } else {
            Ok(
                SplitState {
                    start: i + 1,
                    comma: c == ',',
                    entries: if entry.len() == 0 {
                        st.entries
                    } else {
                        st.entries.push(entry)
                    },
                    ..st
                },
            )
        }
    } else {
        Ok(st)
    }
}

pub open spec fn split_run(input: Seq<char>, i: int, st: SplitState) -> Result<SplitState, EntryErrorView>
    decreases input.len() - i,
{
    if i < 0 || i >= input.len() {
        Ok(st)
    } else {
        match split_step(input, i, st) {
            Err(e) => Err(e),
            Ok(next) => split_run(input, i + 1, next),
        }
    }
}

pub open spec fn split_start() -> SplitState {
    SplitState { start: 0, quote: None, escaped: false, comma: false, entries: Seq::empty() }
}

/// The entries of the registered-variables field: separated by commas and line breaks
/// outside quotes, trimmed; blank input has none; an unclosed quote, or an empty entry
/// before a comma or after a final comma, is refused.
pub open spec fn spec_split_variable_entries(input: Seq<char>) -> Result<Seq<Seq<char>>, EntryErrorView> {
    match split_run(input, 0, split_start()) {
        Err(e) => Err(e),
        Ok(st) => if st.quote is Some || st.escaped {
            Err(EntryErrorView::UnclosedDefault)
        } else {
            let tail = trim(input.subrange(st.start, input.len() as int));
            if tail.len() == 0 {
                if trim(input).len() == 0 {
                    Ok(Seq::empty())
                } else if st.comma {
                    Err(EntryErrorView::EmptyVariable)
                } else {
                    Ok(st.entries)
                }
            } else {
                Ok(st.entries.push(tail))
            }
        },
    }
}

fn trimmed_range(v: &Vec<char>, start: usize, end: usize) -> (r: String)
    requires
        start <= end <= v@.len(),
    ensures
        r@ == trim(v@.subrange(start as int, end as int)),
{
    let mut piece: Vec<char> = Vec::new();
    let mut k: usize = start;
    while k < end
        invariant
            start <= k <= end <= v@.len(),
            piece@ == v@.subrange(start as int, k as int),
        decreases end - k,
    {
        piece.push(v[k]);
        assert(piece@ =~= v@.subrange(start as int, k + 1));
        k = k + 1;
    }
    trim_str(string_of(piece.as_slice()).as_str())
}

pub fn split_variable_entries(input: &str) -> (r: Result<Vec<String>, VariableEntryError>)
    ensures
        match r {
            Ok(v) => spec_split_variable_entries(input@) == Ok::<Seq<Seq<char>>, EntryErrorView>(
                crate::text::views(v@),
            ),
            Err(e) => spec_split_variable_entries(input@) == Err::<Seq<Seq<char>>, EntryErrorView>(e@),
        },
{
    let v = chars_of(input);
    let ghost s0 = split_start();
    let mut entries: Vec<String> = Vec::new();
    let mut start: usize = 0;
    let mut quote: Option<char> = None;
    let mut escaped = false;
    let mut comma = false;
    let mut i: usize = 0;
    assert(crate::text::views(entries@) =~= Seq::<Seq<char>>::empty());
    while i < v.len()
        invariant
            v@ == input@,
            s0 == split_start(),
            i <= v@.len(),
            start <= i,
            split_run(input@, 0, s0) == split_run(
                input@,
                i as int,
                SplitState { start: start as int, quote, escaped, comma, entries: crate::text::views(entries@) },
            ),
        decreases v@.len() - i,
    {
        let c = v[i];
        let ghost st = SplitState {
            start: start as int,
            quote,
            escaped,
            comma,
            entries: crate::text::views(entries@),
        };
        assert(c == input@[i as int]);
        if escaped {
            escaped = false;
        } else if quote.is_some() {
            if c == '\\' {
                escaped = true;
            } else if quote == Some(c) {
                quote = None;
            }
        } else if c == '\'' || c == '"' {
            quote = Some(c);
        } else if c == ',' || c == '\n' || c == '\r' {
            let entry = trimmed_range(&v, start, i);
            if entry.as_str().is_empty() {
                if c == ',' {
                    assert(split_step(input@, i as int, st) == Err::<SplitState, EntryErrorView>(
                        EntryErrorView::EmptyVariable,
                    ));
                    assert(split_run(input@, i as int, st) == Err::<SplitState, EntryErrorView>(
                        EntryErrorView::EmptyVariable,
                    ));

                    return Err(VariableEntryError::EmptyVariable);
                }
            } else {
                let ghost before = crate::text::views(entries@);
                entries.push(entry);
                assert(crate::text::views(entries@) =~= before.push(entry@));
            }
            start = i + 1;
            comma = c == ',';
        }
        assert(split_step(input@, i as int, st) == Ok::<SplitState, EntryErrorView>(
            SplitState {
                start: start as int,
                quote,
                escaped,
                comma,
                entries: crate::text::views(entries@),
            },
        ));
        i = i + 1;
    }
    assert(split_run(input@, 0, s0) == Ok::<SplitState, EntryErrorView>(
        SplitState {
            start: start as int,
            quote,
            escaped,
            comma,
            entries: crate::text::views(entries@),
        },
    ));
    if quote.is_some() || escaped {
        return Err(VariableEntryError::UnclosedDefault);
    }
    let tail = trimmed_range(&v, start, v.len());
    if tail.as_str().is_empty() {
        if trim_str(input).as_str().is_empty() {
            return Ok(Vec::new());
        }
        if comma {
            return Err(VariableEntryError::EmptyVariable);
        }
        return Ok(entries);
    }
    let ghost before = crate::text::views(entries@);
    entries.push(tail);
    assert(crate::text::views(entries@) =~= before.push(tail@));
    Ok(entries)
}

/// An entry split into its placeholder, up to and with the first `}}`, and the default after
/// an `=`, both trimmed; an entry without `}}`, or with something other than `= ...` after
/// it, is refused.
pub open spec fn spec_split_variable_default(entry: Seq<char>) -> Result<(Seq<char>, Option<Seq<char>>), EntryErrorView> {
    let close = find(entry, "}}"@);
    if close < 0 {
        Err(EntryErrorView::InvalidVariable(entry))
    } else {
        let placeholder = trim(entry.take(close + 2));
        let rest = trim(entry.skip(close + 2));
        if rest.len() == 0 {
            Ok((placeholder, None))
        } else {
            match strip_prefix(rest, "="@) {
                Some(d) => Ok((placeholder, Some(trim(d)))),
                None => Err(EntryErrorView::InvalidVariable(entry)),
            }
        }
    }
}

pub fn split_variable_default(entry: &str) -> (r: Result<(String, Option<String>), VariableEntryError>)
    ensures
        match r {
            Ok((p, d)) => spec_split_variable_default(entry@) == Ok::<
                (Seq<char>, Option<Seq<char>>),
                EntryErrorView,
            >((p@, d.deep_view())),
            Err(e) => spec_split_variable_default(entry@) == Err::<
                (Seq<char>, Option<Seq<char>>),
                EntryErrorView,
            >(e@),
        },
{
    let close = match find_str(entry, "}}") {
        Some(k) => k,
        None => return Err(VariableEntryError::InvalidVariable(copy_str(entry))),
    };
    proof {
        crate::text::lemma_find_bounds(entry@, "}}"@);
        reveal_strlit("}}");
    }
    let v = chars_of(entry);
    let end = close + 2;
    let placeholder = trimmed_range(&v, 0, end);
    let rest = trimmed_range(&v, end, v.len());
    assert(v@.subrange(0, end as int) =~= entry@.take(end as int));
    assert(v@.subrange(end as int, v@.len() as int) =~= entry@.skip(end as int));
    if rest.as_str().is_empty() {
        return Ok((placeholder, None));
    }
    match strip_prefix_str(rest.as_str(), "=") {
        Some(d) => Ok((placeholder, Some(trim_str(d.as_str())))),
        None => Err(VariableEntryError::InvalidVariable(copy_str(entry))),
    }
}

/// The name in a `{{name}}` placeholder: trimmed, not empty, without braces.
pub open spec fn spec_placeholder_name(placeholder: Seq<char>) -> Option<Seq<char>> {
    match strip_prefix(placeholder, "{{"@) {
        Some(a) => match strip_suffix(a, "}}"@) {
            Some(b) => {
                let name = trim(b);
                if name.len() > 0 && !name.contains('{') && !name.contains('}') {
                    Some(name)
                } else {
                    None
                }
            },
            None => None,
        },
        None => None,
    }
}

pub fn placeholder_name(placeholder: &str) -> (r: Option<String>)
    ensures
        r.deep_view() == spec_placeholder_name(placeholder@),
{
    let a = match strip_prefix_str(placeholder, "{{") {
        Some(a) => a,
        None => return None,
    };
    let b = match strip_suffix_str(a.as_str(), "}}") {
        Some(b) => b,
        None => return None,
    };
    let name = trim_str(b.as_str());
    if !name.as_str().is_empty() && !crate::text::contains_char(name.as_str(), '{') && !crate::text::contains_char(
        name.as_str(),
        '}',
    ) {
        Some(name)
    } else {
        None
    }
}

/// Whether `serde_json` reads the text as a JSON value.
pub uninterp spec fn json_parses(text: Seq<char>) -> bool;

/// `serde_json::from_str::<serde_json::Value>`: whether the text is one JSON value. What
/// it accepts follows the JSON grammar and is named, not restated.
#[verifier::external_body]
pub(crate) fn parses_as_json(text: &str) -> (r: bool)
    ensures
        r == json_parses(text@),
{
    serde_json::from_str::<serde_json::Value>(text).is_ok()
}

/// What a variable's default is once read: empty, JSON text, the text inside single quotes,
/// or plain text that is not JSON.
pub enum DefaultValue {
    Empty,
    Json(String),
    Quoted(String),
    Plain(String),
}

pub enum DefaultView {
    Empty,
    Json(Seq<char>),
    Quoted(Seq<char>),
    Plain(Seq<char>),
}

impl View for DefaultValue {
    type V = DefaultView;

    open spec fn view(&self) -> DefaultView {
        match self {
            DefaultValue::Empty => DefaultView::Empty,
            DefaultValue::Json(s) => DefaultView::Json(s@),
            DefaultValue::Quoted(s) => DefaultView::Quoted(s@),
            DefaultValue::Plain(s) => DefaultView::Plain(s@),
        }
    }
}

/// A default as written: empty; a double-quoted JSON string, which must parse; a
/// single-quoted text, which must be closed; else JSON when it parses, plain text when not.
pub open spec fn spec_parse_default(value: Seq<char>) -> Result<DefaultView, EntryErrorView> {
    if value.len() == 0 {
        Ok(DefaultView::Empty)
    } else if starts_with(value, "\""@) {
        if json_parses(value) {
            Ok(DefaultView::Json(value))
        } else {
            Err(EntryErrorView::InvalidDefault(value))
        }
    } else if starts_with(value, "'"@) {
        if !ends_with(value, "'"@) || value.len() < 2 {
            Err(EntryErrorView::InvalidDefault(value))
        } else {
            Ok(DefaultView::Quoted(value.subrange(1, value.len() - 1)))
        }
    } else if json_parses(value) {
        Ok(DefaultView::Json(value))
    } else {
        Ok(DefaultView::Plain(value))
    }
}

pub fn parse_variable_default(value: &str) -> (r: Result<DefaultValue, VariableEntryError>)
    ensures
        match r {
            Ok(d) => spec_parse_default(value@) == Ok::<DefaultView, EntryErrorView>(d@),
            Err(e) => spec_parse_default(value@) == Err::<DefaultView, EntryErrorView>(e@),
        },
{
    if value.is_empty() {
        return Ok(DefaultValue::Empty);
    }
    if starts_with_str(value, "\"") {
        if parses_as_json(value) {
            return Ok(DefaultValue::Json(copy_str(value)));
        }
        return Err(VariableEntryError::InvalidDefault(copy_str(value)));
    }
    if starts_with_str(value, "'") {
        let v = chars_of(value);
        if !crate::text::ends_with_str(value, "'") || v.len() < 2 {
            return Err(VariableEntryError::InvalidDefault(copy_str(value)));
        }
        let mut inner: Vec<char> = Vec::new();
        let mut k: usize = 1;
        while k < v.len() - 1
            invariant
                v@ == value@,
                2 <= v@.len(),
                1 <= k <= v@.len() - 1,
                inner@ == v@.subrange(1, k as int),
            decreases v@.len() - 1 - k,
        {
            inner.push(v[k]);
            assert(inner@ =~= v@.subrange(1, k + 1));
            k = k + 1;
        }
        return Ok(DefaultValue::Quoted(string_of(inner.as_slice())));
    }
    if parses_as_json(value) {
        Ok(DefaultValue::Json(copy_str(value)))
    } else {
        Ok(DefaultValue::Plain(copy_str(value)))
    }
}

/// A variable that an import registers, with its default when one was given.
pub struct RegisteredVariable {
    pub name: String,
    pub default: Option<DefaultValue>,
}

pub struct RegisteredView {
    pub name: Seq<char>,
    pub default: Option<DefaultView>,
}

impl View for RegisteredVariable {
    type V = RegisteredView;

    open spec fn view(&self) -> RegisteredView {
        RegisteredView {
            name: self.name@,
            default: match &self.default {
                Some(d) => Some(d@),
                None => None,
            },
        }
    }
}

/// One entry read as a variable: placeholder and default split, the name taken from the
/// placeholder, the default read.
pub open spec fn spec_entry_variable(entry: Seq<char>) -> Result<RegisteredView, EntryErrorView> {
    match spec_split_variable_default(entry) {
        Err(e) => Err(e),
        Ok((placeholder, default)) => match spec_placeholder_name(placeholder) {
            None => Err(EntryErrorView::InvalidVariable(placeholder)),
            Some(name) => match default {
                None => Ok(RegisteredView { name, default: None }),
                Some(d) => match spec_parse_default(d) {
                    Ok(v) => Ok(RegisteredView { name, default: Some(v) }),
                    Err(e) => Err(e),
                },
            },
        },
    }
}

pub open spec fn registered_names(vs: Seq<RegisteredView>) -> Seq<Seq<char>> {
    vs.map_values(|v: RegisteredView| v.name)
}

/// The entries read one by one; a name registered twice is refused at its second entry,
/// after its placeholder is read and before its default is.
pub open spec fn registered_run(entries: Seq<Seq<char>>) -> Result<Seq<RegisteredView>, EntryErrorView>
    decreases entries.len(),
{
    if entries.len() == 0 {
        Ok(Seq::empty())
    } else {
        match registered_run(entries.drop_last()) {
            Err(e) => Err(e),
            Ok(done) => match spec_split_variable_default(entries.last()) {
                Err(e) => Err(e),
                Ok((placeholder, default)) => match spec_placeholder_name(placeholder) {
                    None => Err(EntryErrorView::InvalidVariable(placeholder)),
                    Some(name) => if registered_names(done).contains(name) {
                        Err(EntryErrorView::DuplicateVariable(name))
                    } else {
                        match default {
                            None => Ok(done.push(RegisteredView { name, default: None })),
                            Some(d) => match spec_parse_default(d) {
                                Ok(v) => Ok(done.push(RegisteredView { name, default: Some(v) })),
                                Err(e) => Err(e),
                            },
                        }
                    },
                },
            },
        }
    }
}

/// The variables that the registered-variables field of an import declares.
pub open spec fn spec_parse_registered_variables(input: Seq<char>) -> Result<Seq<RegisteredView>, EntryErrorView> {
    match spec_split_variable_entries(input) {
        Err(e) => Err(e),
        Ok(entries) => registered_run(entries),
    }
}

proof fn lemma_registered_error_stays(entries: Seq<Seq<char>>, k: int)
    requires
        0 <= k <= entries.len(),
        registered_run(entries.take(k)) is Err,
    ensures
        registered_run(entries) == registered_run(entries.take(k)),
    decreases entries.len() - k,
{
    if k < entries.len() {
        assert(entries.take(k + 1).drop_last() =~= entries.take(k));
        lemma_registered_error_stays(entries, k + 1);
    } else {
        assert(entries.take(k) =~= entries);
    }
}

fn has_name(vs: &Vec<RegisteredVariable>, name: &str) -> (r: bool)
    ensures
        r == registered_names(vs@.map_values(|v: RegisteredVariable| v@)).contains(name@),
{
    let ghost names = registered_names(vs@.map_values(|v: RegisteredVariable| v@));
    let mut i: usize = 0;
    while i < vs.len()
        invariant
            names == registered_names(vs@.map_values(|v: RegisteredVariable| v@)),
            i <= vs@.len(),
            forall|j: int| 0 <= j < i ==> #[trigger] names[j] != name@,
        decreases vs@.len() - i,
    {
        assert(names[i as int] == vs@[i as int].name@);
        if eq_str(vs[i].name.as_str(), name) {
            assert(names.contains(name@));
            return true;
        }
        i = i + 1;
    }
    false
}

pub fn parse_registered_variables(input: &str) -> (r: Result<Vec<RegisteredVariable>, VariableEntryError>)
    ensures
        match r {
            Ok(v) => spec_parse_registered_variables(input@) == Ok::<Seq<RegisteredView>, EntryErrorView>(
                v@.map_values(|x: RegisteredVariable| x@),
            ),
            Err(e) => spec_parse_registered_variables(input@) == Err::<Seq<RegisteredView>, EntryErrorView>(
                e@,
            ),
        },
{
    let entries = match split_variable_entries(input) {
        Ok(e) => e,
        Err(e) => return Err(e),
    };
    let ghost ev = crate::text::views(entries@);
    let mut out: Vec<RegisteredVariable> = Vec::new();
    let mut i: usize = 0;
    assert(ev.take(0) =~= Seq::<Seq<char>>::empty());
    assert(out@.map_values(|x: RegisteredVariable| x@) =~= Seq::<RegisteredView>::empty());
    while i < entries.len()
        invariant
            ev == crate::text::views(entries@),
            spec_split_variable_entries(input@) == Ok::<Seq<Seq<char>>, EntryErrorView>(ev),
            i <= ev.len(),
            registered_run(ev.take(i as int)) == Ok::<Seq<RegisteredView>, EntryErrorView>(
                out@.map_values(|x: RegisteredVariable| x@),
            ),
        decreases ev.len() - i,
    {
        assert(ev.take(i + 1).drop_last() =~= ev.take(i as int));
        assert(ev.take(i + 1).last() == entries@[i as int]@);
        let (placeholder, default) = match split_variable_default(entries[i].as_str()) {
            Ok(x) => x,
            Err(e) => {
                proof {
                    lemma_registered_error_stays(ev, i + 1);
                }
                return Err(e);
            },
        };
        let name = match placeholder_name(placeholder.as_str()) {
            Some(n) => n,
            None => {
                proof {
                    lemma_registered_error_stays(ev, i + 1);
                }
                return Err(VariableEntryError::InvalidVariable(placeholder));
            },
        };
        if has_name(&out, name.as_str()) {
            proof {
                lemma_registered_error_stays(ev, i + 1);
            }
            return Err(VariableEntryError::DuplicateVariable(name));
        }
        let parsed = match default {
            None => None,
            Some(d) => match parse_variable_default(d.as_str()) {
                Ok(v) => Some(v),
                Err(e) => {
                    proof {
                        lemma_registered_error_stays(ev, i + 1);
                    }
                    return Err(e);
                },
            },
        };
        let var = RegisteredVariable { name, default: parsed };
        let ghost before = out@.map_values(|x: RegisteredVariable| x@);
        let ghost vv = var@;
        out.push(var);
        assert(out@.map_values(|x: RegisteredVariable| x@) =~= before.push(vv));
        i = i + 1;
    }
    assert(ev.take(ev.len() as int) =~= ev);
    Ok(out)
}


/// The request file an import writes: the name and description given on the page, the
/// command's method, URL, headers, form and uploads, its query parts as parameters, its
/// body parts joined into one body, the timeout in whole seconds, and a TLS choice only
/// when the command skips verification.
pub open spec fn spec_imported_document(
    r: crate::curl::ImportedView,
    name: Seq<char>,
    description: Seq<char>,
    timeout: Option<u64>,
    d: RequestDocument,
) -> bool {
    &&& d.name@ == name
    &&& d.description@ == description
    &&& d.method@ == r.method
    &&& d.url@ == r.url
    &&& d.timeout == timeout
    &&& d.skip_ssl_verification == (if r.skip_ssl_verification {
        Some(true)
    } else {
        None
    })
    &&& d.headers.deep_view() == r.headers
    &&& d.params.deep_view() == r.query_parts.map_values(|p: PartView| part_param(p))
    &&& d.body.deep_view() == parts_body(r.body_parts)
    &&& d.form.deep_view() == r.form
    &&& d.files.deep_view() == r.files
    &&& d.extracts@.len() == 0
}

/// The request document for an imported command; `timeout` is the command's `--max-time`
/// in whole seconds, when it gives one.
pub fn imported_request_document(
    request: ImportedRequest,
    name: String,
    description: String,
    timeout: Option<u64>,
) -> (r: RequestDocument)
    ensures
        spec_imported_document(request@, name@, description@, timeout, r),
{
    let ghost rv = request@;
    let qs = request.query_parts.as_slice();
    let bs = request.body_parts.as_slice();
    assert(qs.deep_view() =~= rv.query_parts);
    assert(bs.deep_view() =~= rv.body_parts);
    assert(request.headers.deep_view() =~= rv.headers);
    let params = params_from_parts(qs);
    let body = body_text(bs);
    RequestDocument {
        name,
        description,
        method: request.method,
        url: request.url,
        timeout,
        skip_ssl_verification: if request.skip_ssl_verification {
            Some(true)
        } else {
            None
        },
        headers: request.headers,
        params,
        body,
        form: request.form,
        files: request.files,
        extracts: Vec::new(),
    }
}

} // verus!
