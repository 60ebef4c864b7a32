//! Editing a request's headers, parameters or body in an external editor: the documents
//! handed to the editor and how what comes back is taken into the draft and the dialog.
use vstd::prelude::*;
use crate::config::{DataPart, PartView};
use crate::dialog::{DataPartSource, ParamRowView, ParamSource, ParamsDialogRow};
use crate::request_body_formatter::{pretty_json, pretty_json_text};
use crate::session::{row_named, HeaderRow, HeaderSource, RequestDraft, RowView};
use crate::text::{
    contains_char, copy_str, decimal, decimal_string, eq_ignore_case, eq_ignore_case_str, eq_str,
    push_str, trim, trim_str,
};
use crate::validation::{check_header_name, check_header_value, header_name_allowed, header_value_allowed};

verus! {

/// Where an edited header says it comes from.
#[derive(Clone, Copy, PartialEq, Eq, Structural, Debug)]
pub enum TemporaryHeaderSource {
    Inherited,
    Request,
}

/// A header as the editor document lists it.
pub struct TemporaryHeader {
    pub name: String,
    pub value: String,
    pub enabled: bool,
    pub source: TemporaryHeaderSource,
}

pub struct TemporaryHeaderView {
    pub name: Seq<char>,
    pub value: Seq<char>,
    pub enabled: bool,
    pub source: TemporaryHeaderSource,
}

impl View for TemporaryHeader {
    type V = TemporaryHeaderView;

    open spec fn view(&self) -> TemporaryHeaderView {
        TemporaryHeaderView { name: self.name@, value: self.value@, enabled: self.enabled, source: self.source }
    }
}

impl DeepView for TemporaryHeader {
    type V = TemporaryHeaderView;

    open spec fn deep_view(&self) -> TemporaryHeaderView {
        self@
    }
}

/// The entry of the editor document for a dialog row: inherited rows say so.
pub fn temporary_header(row: &HeaderRow) -> (r: TemporaryHeader)
    ensures
        r@ == (TemporaryHeaderView {
            name: row.name@,
            value: row.value@,
            enabled: row.enabled,
            source: if row.source == HeaderSource::Collection {
                TemporaryHeaderSource::Inherited
            } else {
                TemporaryHeaderSource::Request
            },
        }),
{
    TemporaryHeader {
        name: copy_str(row.name.as_str()),
        value: copy_str(row.value.as_str()),
        enabled: row.enabled,
        source: if row.source == HeaderSource::Collection {
            TemporaryHeaderSource::Inherited
        } else {
            TemporaryHeaderSource::Request
        },
    }
}

/// Why an edited header is refused: a blank name, a name or value that HTTP refuses, or a
/// value over more than one line.
pub open spec fn header_problem(h: TemporaryHeaderView) -> Option<Seq<char>> {
    let name = trim(h.name);
    if name.len() == 0 {
        Some("Header name cannot be empty"@)
    } else if !header_name_allowed(name) {
        Some("Invalid Header name: "@ + name + ": invalid HTTP header name"@)
    } else if !header_value_allowed(h.value) {
        Some("Invalid Header value: "@ + name + ": failed to parse header value"@)
    } else if h.value.contains('\n') || h.value.contains('\r') {
        Some("Header value must not contain line breaks: "@ + name)
    } else {
        None
    }
}

fn joined(a: &str, b: &str, c: &str) -> (r: String)
    ensures
        r@ == a@ + b@ + c@,
{
    let mut m = copy_str(a);
    push_str(&mut m, b);
    push_str(&mut m, c);
    m
}

pub fn validate_temporary_header(h: &TemporaryHeader) -> (r: Result<(), String>)
    ensures
        match r {
            Ok(()) => header_problem(h@) is None,
            Err(e) => header_problem(h@) == Some(e@),
        },
{
    let name = trim_str(h.name.as_str());
    if name.as_str().is_empty() {
        return Err(copy_str("Header name cannot be empty"));
    }
    if check_header_name(name.as_str()).is_err() {
        return Err(joined("Invalid Header name: ", name.as_str(), ": invalid HTTP header name"));
    }
    if check_header_value(h.value.as_str()).is_err() {
        return Err(joined("Invalid Header value: ", name.as_str(), ": failed to parse header value"));
    }
    if contains_char(h.value.as_str(), '\n') || contains_char(h.value.as_str(), '\r') {
        let mut m = copy_str("Header value must not contain line breaks: ");
        push_str(&mut m, name.as_str());
        return Err(m);
    }
    Ok(())
}

/// The first problem among the edited headers, in their order.
pub open spec fn first_header_problem(hs: Seq<TemporaryHeaderView>) -> Option<Seq<char>>
    decreases hs.len(),
{
    if hs.len() == 0 {
        None
    } else {
        match first_header_problem(hs.drop_last()) {
            Some(e) => Some(e),
            None => header_problem(hs.last()),
        }
    }
}

/// The header is one that the dialog showed as inherited, unchanged.
pub open spec fn still_inherited(current: Seq<RowView>, h: TemporaryHeaderView) -> bool {
    exists|j: int|
        0 <= j < current.len() && (#[trigger] current[j]).source == HeaderSource::Collection && eq_ignore_case(
            current[j].name,
            trim(h.name),
        ) && current[j].value == h.value && current[j].enabled == h.enabled
}

/// The row an edited header becomes: its name trimmed; inherited only when it says so and
/// is unchanged, else the request's own.
pub open spec fn edited_row(current: Seq<RowView>, h: TemporaryHeaderView) -> RowView {
    RowView {
        name: trim(h.name),
        value: h.value,
        enabled: h.enabled,
        source: if h.source == TemporaryHeaderSource::Inherited && still_inherited(current, h) {
            HeaderSource::Collection
        } else {
            HeaderSource::Request
        },
    }
}

pub open spec fn edited_rows(current: Seq<RowView>, hs: Seq<TemporaryHeaderView>) -> Seq<RowView> {
    hs.map_values(|h: TemporaryHeaderView| edited_row(current, h))
}

/// The rows followed by each inherited header that none of them names any more, turned
/// off and marked suppressed.
pub open spec fn with_suppressed(rows: Seq<RowView>, current: Seq<RowView>) -> Seq<RowView>
    decreases current.len(),
{
    if current.len() == 0 {
        rows
    } else {
        let r = with_suppressed(rows, current.drop_last());
        let c = current.last();
        if c.source == HeaderSource::Collection && !row_named(r, c.name) {
            r.push(RowView { enabled: false, source: HeaderSource::Suppressed, ..c })
        } else {
            r
        }
    }
}

pub open spec fn not_inherited(rows: Seq<RowView>) -> Seq<RowView> {
    rows.filter(|r: RowView| r.source != HeaderSource::Collection)
}

pub open spec fn not_suppressed(rows: Seq<RowView>) -> Seq<RowView> {
    rows.filter(|r: RowView| r.source != HeaderSource::Suppressed)
}

/// What an edited header document comes to: the draft's rows (all but the inherited) and
/// the dialog's rows (all but the suppressed); the first problem when a header is refused.
pub open spec fn spec_apply_headers(current: Seq<RowView>, hs: Seq<TemporaryHeaderView>) -> Result<
    (Seq<RowView>, Seq<RowView>),
    Seq<char>,
> {
    match first_header_problem(hs) {
        Some(e) => Err(e),
        None => {
            let all = with_suppressed(edited_rows(current, hs), current);
            Ok((not_inherited(all), not_suppressed(all)))
        },
    }
}

fn is_still_inherited(current: &Vec<HeaderRow>, h: &TemporaryHeader, name: &str) -> (r: bool)
    requires
        name@ == trim(h.name@),
    ensures
        r == still_inherited(current.deep_view(), h@),
{
    let ghost cv = current.deep_view();
    let mut i: usize = 0;
    while i < current.len()
        invariant
            cv == current.deep_view(),
            i <= cv.len(),
            name@ == trim(h.name@),
            forall|j: int| 0 <= j < i ==> !({
                &&& (#[trigger] cv[j]).source == HeaderSource::Collection
                &&& eq_ignore_case(cv[j].name, trim(h.name@))
                &&& cv[j].value == h.value@
                &&& cv[j].enabled == h.enabled
            }),
        decreases cv.len() - i,
    {
        let c = &current[i];
        assert(cv[i as int] == c@);
        if c.source == HeaderSource::Collection && eq_ignore_case_str(c.name.as_str(), name) && eq_str(
            c.value.as_str(),
            h.value.as_str(),
        ) && c.enabled == h.enabled {
            return true;
        }
        i = i + 1;
    }
    false
}

fn named_row(rows: &Vec<HeaderRow>, name: &str) -> (r: bool)
    ensures
        r == row_named(rows.deep_view(), name@),
{
    let ghost rv = rows.deep_view();
    let mut i: usize = 0;
    while i < rows.len()
        invariant
            rv == rows.deep_view(),
            i <= rv.len(),
            forall|j: int| 0 <= j < i ==> !eq_ignore_case((#[trigger] rv[j]).name, name@),
        decreases rv.len() - i,
    {
        assert(rv[i as int] == rows@[i as int]@);
        if eq_ignore_case_str(rows[i].name.as_str(), name) {
            return true;
        }
        i = i + 1;
    }
    false
}

fn rows_without(rows: &Vec<HeaderRow>, source: HeaderSource) -> (r: Vec<HeaderRow>)
    ensures
        r.deep_view() == rows.deep_view().filter(|x: RowView| x.source != source),
{
    let ghost rv = rows.deep_view();
    let mut out: Vec<HeaderRow> = Vec::new();
    let mut i: usize = 0;
    assert(rv.take(0).filter(|x: RowView| x.source != source) =~= Seq::<RowView>::empty());
    while i < rows.len()
        invariant
            rv == rows.deep_view(),
            i <= rv.len(),
            out.deep_view() == rv.take(i as int).filter(|x: RowView| x.source != source),
        decreases rv.len() - i,
    {
        proof {
            reveal_with_fuel(Seq::<_>::filter, 1);
        }
        assert(rv.take(i + 1).drop_last() =~= rv.take(i as int));
        assert(rv.take(i + 1).last() == rows@[i as int]@);
        if rows[i].source != source {
            let row = rows[i].clone();
            let ghost before = out.deep_view();
            let ghost x = row@;
            out.push(row);
            assert(out.deep_view() =~= before.push(x));
        }
        i = i + 1;
    }
    assert(rv.take(rv.len() as int) =~= rv);
    out
}

/// Takes an edited header document into the draft and the dialog: `current` are the rows
/// the dialog showed; the result is the draft's rows and the dialog's new rows.
pub fn apply_edited_headers(current: &Vec<HeaderRow>, edited: &Vec<TemporaryHeader>) -> (r: Result<
    (Vec<HeaderRow>, Vec<HeaderRow>),
    String,
>)
    ensures
        match r {
            Ok((draft, dialog)) => spec_apply_headers(current.deep_view(), edited.deep_view()) == Ok::<
                (Seq<RowView>, Seq<RowView>),
                Seq<char>,
            >((draft.deep_view(), dialog.deep_view())),
            Err(e) => spec_apply_headers(current.deep_view(), edited.deep_view()) == Err::<
                (Seq<RowView>, Seq<RowView>),
                Seq<char>,
            >(e@),
        },
{
    let ghost cv = current.deep_view();
    let ghost ev = edited.deep_view();
    let mut rows: Vec<HeaderRow> = Vec::new();
    let mut i: usize = 0;
    while i < edited.len()
        invariant
            cv == current.deep_view(),
            ev == edited.deep_view(),
            i <= ev.len(),
            first_header_problem(ev.take(i as int)) is None,
            rows.deep_view() == edited_rows(cv, ev.take(i as int)),
        decreases ev.len() - i,
    {
        let h = &edited[i];
        assert(ev.take(i + 1).drop_last() =~= ev.take(i as int));
        assert(ev.take(i + 1).last() == h@);
        match validate_temporary_header(h) {
            Err(e) => {
                proof {
                    lemma_problem_stays(ev, i + 1);
                }
                return Err(e);
            },
            Ok(()) => {},
        }
        let name = trim_str(h.name.as_str());
        let inherited = is_still_inherited(current, h, name.as_str());
        let row = HeaderRow {
            name,
            value: copy_str(h.value.as_str()),
            enabled: h.enabled,
            source: if h.source == TemporaryHeaderSource::Inherited && inherited {
                HeaderSource::Collection
            } else {
                HeaderSource::Request
            },
        };
        let ghost before = rows.deep_view();
        let ghost x = row@;
        rows.push(row);
        assert(rows.deep_view() =~= before.push(x));
        assert(edited_rows(cv, ev.take(i + 1)) =~= edited_rows(cv, ev.take(i as int)).push(x));
        i = i + 1;
    }
    assert(ev.take(ev.len() as int) =~= ev);
    let ghost first = rows.deep_view();
    let mut j: usize = 0;
    while j < current.len()
        invariant
            cv == current.deep_view(),
            j <= cv.len(),
            rows.deep_view() == with_suppressed(first, cv.take(j as int)),
        decreases cv.len() - j,
    {
        let c = &current[j];
        assert(cv.take(j + 1).drop_last() =~= cv.take(j as int));
        assert(cv.take(j + 1).last() == c@);
        if c.source == HeaderSource::Collection && !named_row(&rows, c.name.as_str()) {
            let row = HeaderRow {
                name: copy_str(c.name.as_str()),
                value: copy_str(c.value.as_str()),
                enabled: false,
                source: HeaderSource::Suppressed,
            };
            let ghost before = rows.deep_view();
            let ghost x = row@;
            rows.push(row);
            assert(rows.deep_view() =~= before.push(x));
        }
        j = j + 1;
    }
    assert(cv.take(cv.len() as int) =~= cv);
    let draft = rows_without(&rows, HeaderSource::Collection);
    let dialog = rows_without(&rows, HeaderSource::Suppressed);
    Ok((draft, dialog))
}

proof fn lemma_problem_stays(hs: Seq<TemporaryHeaderView>, k: int)
    requires
        0 <= k <= hs.len(),
        first_header_problem(hs.take(k)) is Some,
    ensures
        first_header_problem(hs) == first_header_problem(hs.take(k)),
    decreases hs.len() - k,
{
    if k < hs.len() {
        assert(hs.take(k + 1).drop_last() =~= hs.take(k));
        lemma_problem_stays(hs, k + 1);
    } else {
        assert(hs.take(k) =~= hs);
    }
}

/// Where an edited parameter says it comes from.
#[derive(Clone, Copy, PartialEq, Eq, Structural, Debug)]
pub enum TemporaryParamSource {
    Url,
    Query,
    Form,
    Body,
}

/// How an edited query or body parameter is kept.
#[derive(Clone, Copy, PartialEq, Eq, Structural, Debug)]
pub enum TemporaryParamEncoding {
    Raw,
    UrlEncoded,
}

/// A parameter as the editor document lists it.
pub struct TemporaryParam {
    pub source: TemporaryParamSource,
    pub name: String,
    pub value: String,
    pub has_equals: bool,
    pub encoding: Option<TemporaryParamEncoding>,
}

pub open spec fn param_source_of(s: TemporaryParamSource) -> ParamSource {
    match s {
        TemporaryParamSource::Url => ParamSource::Url,
        TemporaryParamSource::Query => ParamSource::Query,
        TemporaryParamSource::Form => ParamSource::Form,
        TemporaryParamSource::Body => ParamSource::Body,
    }
}

pub open spec fn part_source_of(e: Option<TemporaryParamEncoding>) -> Option<DataPartSource> {
    match e {
        Some(TemporaryParamEncoding::Raw) => Some(DataPartSource::Raw),
        Some(TemporaryParamEncoding::UrlEncoded) => Some(DataPartSource::UrlEncoded),
        None => None,
    }
}

/// The entry of the editor document for a parameters dialog row.
pub fn temporary_param(row: &ParamsDialogRow) -> (r: TemporaryParam)
    ensures
        param_source_of(r.source) == row.source,
        r.name@ == row.key@,
        r.value@ == row.value@,
        r.has_equals == row.has_equals,
        part_source_of(r.encoding) == row.part_type,
{
    TemporaryParam {
        source: match row.source {
            ParamSource::Url => TemporaryParamSource::Url,
            ParamSource::Query => TemporaryParamSource::Query,
            ParamSource::Form => TemporaryParamSource::Form,
            ParamSource::Body => TemporaryParamSource::Body,
        },
        name: copy_str(row.key.as_str()),
        value: copy_str(row.value.as_str()),
        has_equals: row.has_equals,
        encoding: match row.part_type {
            Some(DataPartSource::Raw) => Some(TemporaryParamEncoding::Raw),
            Some(DataPartSource::UrlEncoded) => Some(TemporaryParamEncoding::UrlEncoded),
            None => None,
        },
    }
}

/// The dialog row an edited parameter becomes; URL and form parameters take no encoding.
pub fn param_row(p: &TemporaryParam) -> (r: Result<ParamsDialogRow, String>)
    ensures
        match r {
            Ok(row) => !((p.source == TemporaryParamSource::Url || p.source == TemporaryParamSource::Form)
                && p.encoding is Some) && row@ == (ParamRowView {
                source: param_source_of(p.source),
                key: p.name@,
                value: p.value@,
                part_type: part_source_of(p.encoding),
                has_equals: p.has_equals,
            }),
            Err(e) => (p.source == TemporaryParamSource::Url || p.source == TemporaryParamSource::Form)
                && p.encoding is Some && e@ == "url and form parameters do not accept encoding"@,
        },
{
    let source = match p.source {
        TemporaryParamSource::Url => ParamSource::Url,
        TemporaryParamSource::Query => ParamSource::Query,
        TemporaryParamSource::Form => ParamSource::Form,
        TemporaryParamSource::Body => ParamSource::Body,
    };
    let part_type = match p.encoding {
        Some(TemporaryParamEncoding::Raw) => Some(DataPartSource::Raw),
        Some(TemporaryParamEncoding::UrlEncoded) => Some(DataPartSource::UrlEncoded),
        None => None,
    };
    if (p.source == TemporaryParamSource::Url || p.source == TemporaryParamSource::Form) && p.encoding.is_some() {
        return Err(copy_str("url and form parameters do not accept encoding"));
    }
    Ok(ParamsDialogRow {
        source,
        key: copy_str(p.name.as_str()),
        value: copy_str(p.value.as_str()),
        part_type,
        has_equals: p.has_equals,
    })
}

/// The dialog rows of an edited parameter document; the first refused one decides.
pub fn param_rows(edited: &Vec<TemporaryParam>) -> (r: Result<Vec<ParamsDialogRow>, String>)
    ensures
        match r {
            Ok(rows) => rows@.len() == edited@.len() && forall|j: int| 0 <= j < rows@.len() ==> ({
                let p = #[trigger] edited@[j];
                !((p.source == TemporaryParamSource::Url || p.source == TemporaryParamSource::Form)
                    && p.encoding is Some) && rows@[j]@ == (ParamRowView {
                    source: param_source_of(p.source),
                    key: p.name@,
                    value: p.value@,
                    part_type: part_source_of(p.encoding),
                    has_equals: p.has_equals,
                })
            }),
            Err(e) => exists|j: int| 0 <= j < edited@.len() && ({
                let p = #[trigger] edited@[j];
                (p.source == TemporaryParamSource::Url || p.source == TemporaryParamSource::Form)
                    && p.encoding is Some
            }) && e@ == "url and form parameters do not accept encoding"@,
        },
{
    let mut rows: Vec<ParamsDialogRow> = Vec::new();
    let mut i: usize = 0;
    while i < edited.len()
        invariant
            i <= edited@.len(),
            rows@.len() == i,
            forall|j: int| 0 <= j < i ==> ({
                let p = #[trigger] edited@[j];
                !((p.source == TemporaryParamSource::Url || p.source == TemporaryParamSource::Form)
                    && p.encoding is Some) && rows@[j]@ == (ParamRowView {
                    source: param_source_of(p.source),
                    key: p.name@,
                    value: p.value@,
                    part_type: part_source_of(p.encoding),
                    has_equals: p.has_equals,
                })
            }),
        decreases edited@.len() - i,
    {
        match param_row(&edited[i]) {
            Ok(row) => rows.push(row),
            Err(e) => {
                assert(edited@[i as int] == edited@[i as int]);
                return Err(e);
            },
        }
        i = i + 1;
    }
    Ok(rows)
}

/// What the body editor opens on.
#[derive(Clone, Copy, PartialEq, Eq, Structural, Debug)]
pub enum BodyEditorChoice {
    /// The body is form fields or encoded parameters: the parameter document opens.
    Params,
    /// The body holds uploads or mixes encoded and raw parts: nothing opens.
    Unavailable,
    /// The body opens as text.
    Text,
}

/// What editing the body opens on: the parameters when the draft has a form and no body,
/// or a body of encoded parts only; nothing when it has uploads or any encoded part;
/// else the body text.
pub open spec fn spec_body_editor_choice(body_parts: Seq<PartView>, form_len: nat, files_len: nat) -> BodyEditorChoice {
    let all_encoded = forall|i: int| 0 <= i < body_parts.len() ==> (#[trigger] body_parts[i]) is UrlEncoded;
    let any_encoded = exists|i: int| 0 <= i < body_parts.len() && (#[trigger] body_parts[i]) is UrlEncoded;
    if body_parts.len() == 0 && form_len > 0 {
        BodyEditorChoice::Params
    } else if body_parts.len() > 0 && all_encoded {
        BodyEditorChoice::Params
    } else if files_len > 0 || any_encoded {
        BodyEditorChoice::Unavailable
    } else {
        BodyEditorChoice::Text
    }
}

pub fn body_editor_choice(draft: &RequestDraft) -> (r: BodyEditorChoice)
    ensures
        r == spec_body_editor_choice(draft.body_parts.deep_view(), draft.form@.len(), draft.files@.len()),
{
    let ghost bv = draft.body_parts.deep_view();
    let mut encoded: usize = 0;
    let mut i: usize = 0;
    while i < draft.body_parts.len()
        invariant
            bv == draft.body_parts.deep_view(),
            i <= bv.len(),
            encoded <= i,
            (encoded == i) == forall|j: int| 0 <= j < i ==> (#[trigger] bv[j]) is UrlEncoded,
            (encoded > 0) == exists|j: int| 0 <= j < i && (#[trigger] bv[j]) is UrlEncoded,
        decreases bv.len() - i,
    {
        assert(bv[i as int] == draft.body_parts@[i as int]@);
        match &draft.body_parts[i] {
            DataPart::UrlEncoded(_) => {
                encoded = encoded + 1;
            },
            DataPart::Raw(_) => {
                assert(!(bv[i as int] is UrlEncoded));
            },
        }
        i = i + 1;
    }
    let n = draft.body_parts.len();
    if n == 0 && draft.form.len() > 0 {
        BodyEditorChoice::Params
    } else if n > 0 && encoded == n {
        BodyEditorChoice::Params
    } else if draft.files.len() > 0 || encoded > 0 {
        BodyEditorChoice::Unavailable
    } else {
        BodyEditorChoice::Text
    }
}

/// The text the body editor opens with: the JSON body pretty-printed when it is JSON,
/// else the body as it is; and whether it is JSON.
pub fn body_editor_contents(body: &str) -> (r: (String, bool))
    ensures
        match pretty_json(body@) {
            Some(p) => r.0@ == p && r.1,
            None => r.0@ == body@ && !r.1,
        },
{
    match pretty_json_text(body) {
        Some(p) => (p, true),
        None => (copy_str(body), false),
    }
}

/// The body parts that an edited body text becomes: none for an empty text, else the text.
pub open spec fn spec_edited_body(text: Seq<char>) -> Seq<PartView> {
    if text.len() == 0 {
        Seq::empty()
    } else {
        seq![PartView::Raw(text)]
    }
}

/// The body parts for the text that comes back from the editor: a JSON document must
/// still read as JSON and is pretty-printed; other text is taken as it is.
pub fn edited_body_parts(contents: &str, json: bool) -> (r: Result<Vec<DataPart>, String>)
    ensures
        match r {
            Ok(parts) => if json {
                pretty_json(contents@) matches Some(p) && parts.deep_view() == spec_edited_body(p)
            } else {
                parts.deep_view() == spec_edited_body(contents@)
            },
            Err(e) => json && pretty_json(contents@) is None && e@ == "Invalid JSON request body"@,
        },
{
    let body = if json {
        match pretty_json_text(contents) {
            Some(p) => p,
            None => {
                return Err(copy_str("Invalid JSON request body"));
            },
        }
    } else {
        copy_str(contents)
    };
    if body.as_str().is_empty() {
        let v: Vec<DataPart> = Vec::new();
        assert(v.deep_view() =~= Seq::<PartView>::empty());
        Ok(v)
    } else {
        let ghost b = body@;
        let v = vec![DataPart::Raw(body)];
        assert(v.deep_view() =~= seq![PartView::Raw(b)]);
        Ok(v)
    }
}

/// The name of the temporary file that an editor opens: `postui-editor-<process>-<sequence>.<extension>`.
pub open spec fn spec_editor_file_name(process: u32, sequence: u64, extension: Seq<char>) -> Seq<char> {
    "postui-editor-"@ + decimal(process as nat) + "-"@ + decimal(sequence as nat) + "."@ + extension
}

pub fn editor_file_name(process: u32, sequence: u64, extension: &str) -> (r: String)
    ensures
        r@ == spec_editor_file_name(process, sequence, extension@),
{
    let mut m = copy_str("postui-editor-");
    push_str(&mut m, decimal_string(process as u64).as_str());
    push_str(&mut m, "-");
    push_str(&mut m, decimal_string(sequence).as_str());
    push_str(&mut m, ".");
    push_str(&mut m, extension);
    m
}

/// Where the selection of a table goes once its rows change: no further than the last row.
pub fn clamped_selection(selected: usize, len: usize) -> (r: usize)
    ensures
        r == if len == 0 {
            0
        } else if selected < len {
            selected as int
        } else {
            len - 1
        },
{
    let last = if len == 0 {
        0
    } else {
        len - 1
    };
    if selected < last {
        selected
    } else {
        last
    }
}


/// The entry of the editor document for a dialog row, as values.
pub open spec fn temporary_view(r: RowView) -> TemporaryHeaderView {
    TemporaryHeaderView {
        name: r.name,
        value: r.value,
        enabled: r.enabled,
        source: if r.source == HeaderSource::Collection {
            TemporaryHeaderSource::Inherited
        } else {
            TemporaryHeaderSource::Request
        },
    }
}

proof fn lemma_no_problem(hs: Seq<TemporaryHeaderView>)
    requires
        forall|i: int| 0 <= i < hs.len() ==> header_problem(#[trigger] hs[i]) is None,
    ensures
        first_header_problem(hs) is None,
    decreases hs.len(),
{
    if hs.len() > 0 {
        lemma_no_problem(hs.drop_last());
        assert(header_problem(hs[hs.len() - 1]) is None);
    }
}

proof fn lemma_nothing_suppressed(rows: Seq<RowView>, current: Seq<RowView>)
    requires
        forall|i: int| 0 <= i < current.len() && (#[trigger] current[i]).source == HeaderSource::Collection
            ==> row_named(rows, current[i].name),
    ensures
        with_suppressed(rows, current) == rows,
    decreases current.len(),
{
    if current.len() > 0 {
        lemma_nothing_suppressed(rows, current.drop_last());
        let c = current[current.len() - 1];
        if c.source == HeaderSource::Collection {
            assert(row_named(rows, c.name));
        }
    }
}

proof fn lemma_filter_keeps_all(rows: Seq<RowView>, source: HeaderSource)
    requires
        forall|i: int| 0 <= i < rows.len() ==> (#[trigger] rows[i]).source != source,
    ensures
        rows.filter(|x: RowView| x.source != source) == rows,
    decreases rows.len(),
{
    reveal_with_fuel(Seq::<_>::filter, 1);
    if rows.len() > 0 {
        lemma_filter_keeps_all(rows.drop_last(), source);
        assert(rows.drop_last().push(rows.last()) =~= rows);
    } else {
        assert(rows.filter(|x: RowView| x.source != source) =~= rows);
    }
}

/// Saving the header document unchanged changes nothing: the draft keeps the dialog's own
/// rows and the dialog keeps its rows, when each row's name is trimmed and valid, its
/// value valid, and no row is suppressed.
pub proof fn law_unchanged_header_document(current: Seq<RowView>)
    requires
        forall|i: int| 0 <= i < current.len() ==> {
            &&& trim((#[trigger] current[i]).name) == current[i].name
            &&& current[i].source != HeaderSource::Suppressed
            &&& header_problem(temporary_view(current[i])) is None
        },
    ensures
        spec_apply_headers(current, current.map_values(|r: RowView| temporary_view(r))) == Ok::<
            (Seq<RowView>, Seq<RowView>),
            Seq<char>,
        >((not_inherited(current), current)),
{
    let temps = current.map_values(|r: RowView| temporary_view(r));
    assert forall|i: int| 0 <= i < temps.len() implies header_problem(#[trigger] temps[i]) is None by {
        assert(temps[i] == temporary_view(current[i]));
    }
    lemma_no_problem(temps);
    assert forall|i: int| 0 <= i < current.len() implies edited_row(current, #[trigger] temps[i]) == current[i] by {
        let c = current[i];
        assert(temps[i] == temporary_view(c));
        if c.source == HeaderSource::Collection {
            assert(eq_ignore_case(current[i].name, trim(temps[i].name)));
            assert(still_inherited(current, temps[i]));
        }
    }
    assert(edited_rows(current, temps) =~= current);
    assert forall|i: int| 0 <= i < current.len() && (#[trigger] current[i]).source == HeaderSource::Collection
        implies row_named(current, current[i].name) by {
        assert(eq_ignore_case(current[i].name, current[i].name));
    }
    lemma_nothing_suppressed(current, current);
    lemma_filter_keeps_all(current, HeaderSource::Suppressed);
}

} // verus!
