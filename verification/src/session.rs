//! A request as the user edits it: its draft beside the request it came from, and what
//! committing the draft makes of the scenario.
use vstd::prelude::*;
use crate::config::{
    lemma_override_at, lemma_override_index, override_at, override_views, spec_for_configuration,
    ApiRequest, ConfigurationView, DataPart, FileUpload, FileView, NameValue, OverrideView,
    ParamView, PartView, RequestOverride, RequestParam, RequestView, ResponseExtract,
    WorkspaceConfiguration,
};
use crate::i18n::UiText;
use crate::text::{eq_ignore_case, eq_ignore_case_str, eq_str, trim, trim_str};
use crate::validation::override_view_empty;

verus! {

/// Where a header shown in the headers dialog comes from.
#[derive(Clone, Copy, PartialEq, Eq, Structural, Debug)]
pub enum HeaderSource {
    Collection,
    Request,
    Suppressed,
}

/// A header as the headers dialog shows it.
pub struct HeaderRow {
    pub name: String,
    pub value: String,
    pub enabled: bool,
    pub source: HeaderSource,
}

pub struct RowView {
    pub name: Seq<char>,
    pub value: Seq<char>,
    pub enabled: bool,
    pub source: HeaderSource,
}

impl View for HeaderRow {
    type V = RowView;

    open spec fn view(&self) -> RowView {
        RowView { name: self.name@, value: self.value@, enabled: self.enabled, source: self.source }
    }
}

impl DeepView for HeaderRow {
    type V = RowView;

    open spec fn deep_view(&self) -> RowView {
        self@
    }
}

impl Clone for HeaderRow {
    fn clone(&self) -> (r: Self)
        ensures
            r@ == self@,
    {
        HeaderRow {
            name: self.name.clone(),
            value: self.value.clone(),
            enabled: self.enabled,
            source: self.source,
        }
    }
}

/// How far a request has come.
#[derive(Clone, Copy, PartialEq, Eq, Structural, Debug)]
pub enum RequestStatus {
    NotSent,
    Sending,
    Success,
    Failed,
    Timeout,
}

impl RequestStatus {
    /// A response succeeded when its status is below 400.
    pub fn from_http_status(status: u16) -> (r: RequestStatus)
        ensures
            r == (if status < 400 {
                RequestStatus::Success
            } else {
                RequestStatus::Failed
            }),
    {
        if status < 400 {
            RequestStatus::Success
        } else {
            RequestStatus::Failed
        }
    }

    /// A failed request timed out or failed otherwise.
    pub fn from_error(is_timeout: bool) -> (r: RequestStatus)
        ensures
            r == (if is_timeout {
                RequestStatus::Timeout
            } else {
                RequestStatus::Failed
            }),
    {
        if is_timeout {
            RequestStatus::Timeout
        } else {
            RequestStatus::Failed
        }
    }

    pub open spec fn spec_label(self, text: UiText) -> Seq<char> {
        match self {
            RequestStatus::NotSent => text.text("Not sent"@, "未发送"@),
            RequestStatus::Sending => text.text("Sending"@, "请求中"@),
            RequestStatus::Success => text.text("Success"@, "成功"@),
            RequestStatus::Failed => text.text("Failed"@, "失败"@),
            RequestStatus::Timeout => text.text("Timeout"@, "超时"@),
        }
    }

    pub fn label(self, text: UiText) -> (r: &'static str)
        ensures
            r@ == self.spec_label(text),
    {
        match self {
            RequestStatus::NotSent => text.request_status_not_sent(),
            RequestStatus::Sending => text.request_status_sending(),
            RequestStatus::Success => text.request_status_success(),
            RequestStatus::Failed => text.request_status_failed(),
            RequestStatus::Timeout => text.request_status_timeout(),
        }
    }
}


fn opt_str_eq(a: &Option<String>, b: &Option<String>) -> (r: bool)
    ensures
        r == (a.deep_view() == b.deep_view()),
{
    match (a, b) {
        (Some(x), Some(y)) => eq_str(x.as_str(), y.as_str()),
        (None, None) => true,
        _ => false,
    }
}

fn param_eq(a: &RequestParam, b: &RequestParam) -> (r: bool)
    ensures
        r == (a@ == b@),
{
    eq_str(a.name.as_str(), b.name.as_str()) && eq_str(a.value.as_str(), b.value.as_str())
        && a.has_equals == b.has_equals
}

fn part_eq(a: &DataPart, b: &DataPart) -> (r: bool)
    ensures
        r == (a@ == b@),
{
    match (a, b) {
        (DataPart::Raw(x), DataPart::Raw(y)) => eq_str(x.as_str(), y.as_str()),
        (DataPart::UrlEncoded(x), DataPart::UrlEncoded(y)) => param_eq(x, y),
        _ => false,
    }
}

fn file_eq(a: &FileUpload, b: &FileUpload) -> (r: bool)
    ensures
        r == (a@ == b@),
{
    eq_str(a.field.as_str(), b.field.as_str()) && eq_str(a.path.as_str(), b.path.as_str())
        && opt_str_eq(&a.filename, &b.filename) && opt_str_eq(&a.content_type, &b.content_type)
}

fn header_eq(a: &NameValue, b: &NameValue) -> (r: bool)
    ensures
        r == (a@ == b@),
{
    eq_str(a.name.as_str(), b.name.as_str()) && eq_str(a.value.as_str(), b.value.as_str())
}

pub fn parts_eq(a: &Vec<DataPart>, b: &Vec<DataPart>) -> (r: bool)
    ensures
        r == (a.deep_view() == b.deep_view()),
{
    if a.len() != b.len() {
        assert(a.deep_view().len() != b.deep_view().len());
        return false;
    }
    let mut i: usize = 0;
    while i < a.len()
        invariant
            a@.len() == b@.len(),
            i <= a@.len(),
            forall|j: int| 0 <= j < i ==> (#[trigger] a@[j])@ == b@[j]@,
        decreases a@.len() - i,
    {
        if !part_eq(&a[i], &b[i]) {
            assert(a.deep_view()[i as int] != b.deep_view()[i as int]);
            return false;
        }
        i = i + 1;
    }
    assert(a.deep_view() =~= b.deep_view());
    true
}

pub fn params_eq(a: &Vec<RequestParam>, b: &Vec<RequestParam>) -> (r: bool)
    ensures
        r == (a.deep_view() == b.deep_view()),
{
    if a.len() != b.len() {
        assert(a.deep_view().len() != b.deep_view().len());
        return false;
    }
    let mut i: usize = 0;
    while i < a.len()
        invariant
            a@.len() == b@.len(),
            i <= a@.len(),
            forall|j: int| 0 <= j < i ==> (#[trigger] a@[j])@ == b@[j]@,
        decreases a@.len() - i,
    {
        if !param_eq(&a[i], &b[i]) {
            assert(a.deep_view()[i as int] != b.deep_view()[i as int]);
            return false;
        }
        i = i + 1;
    }
    assert(a.deep_view() =~= b.deep_view());
    true
}

pub fn files_eq(a: &Vec<FileUpload>, b: &Vec<FileUpload>) -> (r: bool)
    ensures
        r == (a.deep_view() == b.deep_view()),
{
    if a.len() != b.len() {
        assert(a.deep_view().len() != b.deep_view().len());
        return false;
    }
    let mut i: usize = 0;
    while i < a.len()
        invariant
            a@.len() == b@.len(),
            i <= a@.len(),
            forall|j: int| 0 <= j < i ==> (#[trigger] a@[j])@ == b@[j]@,
        decreases a@.len() - i,
    {
        if !file_eq(&a[i], &b[i]) {
            assert(a.deep_view()[i as int] != b.deep_view()[i as int]);
            return false;
        }
        i = i + 1;
    }
    assert(a.deep_view() =~= b.deep_view());
    true
}

pub fn headers_eq(a: &Vec<NameValue>, b: &Vec<NameValue>) -> (r: bool)
    ensures
        r == (a.deep_view() == b.deep_view()),
{
    if a.len() != b.len() {
        assert(a.deep_view().len() != b.deep_view().len());
        return false;
    }
    let mut i: usize = 0;
    while i < a.len()
        invariant
            a@.len() == b@.len(),
            i <= a@.len(),
            forall|j: int| 0 <= j < i ==> (#[trigger] a@[j])@ == b@[j]@,
        decreases a@.len() - i,
    {
        if !header_eq(&a[i], &b[i]) {
            assert(a.deep_view()[i as int] != b.deep_view()[i as int]);
            return false;
        }
        i = i + 1;
    }
    assert(a.deep_view() =~= b.deep_view());
    true
}

fn copy_parts(v: &Vec<DataPart>) -> (r: Vec<DataPart>)
    ensures
        r.deep_view() == v.deep_view(),
{
    let mut out: Vec<DataPart> = Vec::new();
    let mut i: usize = 0;
    while i < v.len()
        invariant
            i <= v@.len(),
            out.deep_view() == v.deep_view().take(i as int),
        decreases v@.len() - i,
    {
        let x = v[i].clone();
        let ghost before = out.deep_view();
        out.push(x);
        assert(out.deep_view() =~= before.push(x@));
        assert(v.deep_view().take(i + 1) =~= before.push(x@));
        i = i + 1;
    }
    assert(v.deep_view().take(v@.len() as int) =~= v.deep_view());
    out
}

fn copy_params(v: &Vec<RequestParam>) -> (r: Vec<RequestParam>)
    ensures
        r.deep_view() == v.deep_view(),
{
    let mut out: Vec<RequestParam> = Vec::new();
    let mut i: usize = 0;
    while i < v.len()
        invariant
            i <= v@.len(),
            out.deep_view() == v.deep_view().take(i as int),
        decreases v@.len() - i,
    {
        let x = v[i].clone();
        let ghost before = out.deep_view();
        out.push(x);
        assert(out.deep_view() =~= before.push(x@));
        assert(v.deep_view().take(i + 1) =~= before.push(x@));
        i = i + 1;
    }
    assert(v.deep_view().take(v@.len() as int) =~= v.deep_view());
    out
}

fn copy_files(v: &Vec<FileUpload>) -> (r: Vec<FileUpload>)
    ensures
        r.deep_view() == v.deep_view(),
{
    let mut out: Vec<FileUpload> = Vec::new();
    let mut i: usize = 0;
    while i < v.len()
        invariant
            i <= v@.len(),
            out.deep_view() == v.deep_view().take(i as int),
        decreases v@.len() - i,
    {
        let x = v[i].clone();
        let ghost before = out.deep_view();
        out.push(x);
        assert(out.deep_view() =~= before.push(x@));
        assert(v.deep_view().take(i + 1) =~= before.push(x@));
        i = i + 1;
    }
    assert(v.deep_view().take(v@.len() as int) =~= v.deep_view());
    out
}

fn copy_headers(v: &Vec<NameValue>) -> (r: Vec<NameValue>)
    ensures
        r.deep_view() == v.deep_view(),
{
    let mut out: Vec<NameValue> = Vec::new();
    let mut i: usize = 0;
    while i < v.len()
        invariant
            i <= v@.len(),
            out.deep_view() == v.deep_view().take(i as int),
        decreases v@.len() - i,
    {
        let x = v[i].clone();
        let ghost before = out.deep_view();
        out.push(x);
        assert(out.deep_view() =~= before.push(x@));
        assert(v.deep_view().take(i + 1) =~= before.push(x@));
        i = i + 1;
    }
    assert(v.deep_view().take(v@.len() as int) =~= v.deep_view());
    out
}


/// A request as the user is editing it.
pub struct RequestDraft {
    pub method: String,
    pub timeout_seconds: u64,
    pub url: Option<String>,
    pub headers: Vec<HeaderRow>,
    pub query_parts: Vec<DataPart>,
    pub form: Vec<RequestParam>,
    pub files: Vec<FileUpload>,
    pub body_parts: Vec<DataPart>,
}

pub struct DraftView {
    pub method: Seq<char>,
    pub timeout_seconds: u64,
    pub url: Option<Seq<char>>,
    pub headers: Seq<RowView>,
    pub query_parts: Seq<PartView>,
    pub form: Seq<ParamView>,
    pub files: Seq<FileView>,
    pub body_parts: Seq<PartView>,
}

impl View for RequestDraft {
    type V = DraftView;

    open spec fn view(&self) -> DraftView {
        DraftView {
            method: self.method@,
            timeout_seconds: self.timeout_seconds,
            url: self.url.deep_view(),
            headers: self.headers.deep_view(),
            query_parts: self.query_parts.deep_view(),
            form: self.form.deep_view(),
            files: self.files.deep_view(),
            body_parts: self.body_parts.deep_view(),
        }
    }
}

/// The header rows that a request's own headers become: enabled, from the request.
pub open spec fn request_rows(hs: Seq<(Seq<char>, Seq<char>)>) -> Seq<RowView> {
    hs.map_values(
        |h: (Seq<char>, Seq<char>)| RowView { name: h.0, value: h.1, enabled: true, source: HeaderSource::Request },
    )
}

/// The draft that editing a request starts from.
pub open spec fn draft_of(r: RequestView) -> DraftView {
    DraftView {
        method: r.method,
        timeout_seconds: r.timeout_seconds,
        url: Some(r.url),
        headers: request_rows(r.headers),
        query_parts: r.query_parts,
        form: r.form,
        files: r.files,
        body_parts: r.body_parts,
    }
}

/// The headers a draft sends of its own: the enabled rows with a name, the name trimmed.
pub open spec fn enabled_rows(rows: Seq<RowView>) -> Seq<(Seq<char>, Seq<char>)>
    decreases rows.len(),
{
    if rows.len() == 0 {
        Seq::empty()
    } else {
        let r = rows.last();
        if r.enabled && trim(r.name).len() > 0 {
            enabled_rows(rows.drop_last()).push((trim(r.name), r.value))
        } else {
            enabled_rows(rows.drop_last())
        }
    }
}

/// The rows stand for exactly these headers: enabled rows of the request, in order, with
/// the same names and values.
pub open spec fn spec_headers_match(rows: Seq<RowView>, hs: Seq<(Seq<char>, Seq<char>)>) -> bool {
    &&& rows.len() == hs.len()
    &&& forall|i: int| 0 <= i < rows.len() ==> {
        &&& (#[trigger] rows[i]).enabled
        &&& rows[i].source == HeaderSource::Request
        &&& rows[i].name == hs[i].0
        &&& rows[i].value == hs[i].1
    }
}

/// Whether one of the headers has the name, up to ASCII case.
pub open spec fn named_in(hs: Seq<(Seq<char>, Seq<char>)>, name: Seq<char>) -> bool {
    exists|j: int| 0 <= j < hs.len() && eq_ignore_case((#[trigger] hs[j]).0, name)
}

/// Whether one of the rows has the name, up to ASCII case.
pub open spec fn row_named(rows: Seq<RowView>, name: Seq<char>) -> bool {
    exists|j: int| 0 <= j < rows.len() && eq_ignore_case((#[trigger] rows[j]).name, name)
}

/// The headers whose names none of `others` has.
pub open spec fn not_named_in(hs: Seq<(Seq<char>, Seq<char>)>, others: Seq<(Seq<char>, Seq<char>)>) -> Seq<
    (Seq<char>, Seq<char>),
>
    decreases hs.len(),
{
    if hs.len() == 0 {
        Seq::empty()
    } else if named_in(others, hs.last().0) {
        not_named_in(hs.drop_last(), others)
    } else {
        not_named_in(hs.drop_last(), others).push(hs.last())
    }
}

/// The headers whose names no row has.
pub open spec fn not_in_rows(hs: Seq<(Seq<char>, Seq<char>)>, rows: Seq<RowView>) -> Seq<(Seq<char>, Seq<char>)>
    decreases hs.len(),
{
    if hs.len() == 0 {
        Seq::empty()
    } else if row_named(rows, hs.last().0) {
        not_in_rows(hs.drop_last(), rows)
    } else {
        not_in_rows(hs.drop_last(), rows).push(hs.last())
    }
}

/// The headers a draft inherits: the workspace's that the scenario does not set, then the
/// scenario's, less those that the draft's own rows name.
pub open spec fn spec_inherited(
    workspace: Seq<(Seq<char>, Seq<char>)>,
    scenario: Seq<(Seq<char>, Seq<char>)>,
    rows: Seq<RowView>,
) -> Seq<(Seq<char>, Seq<char>)> {
    not_in_rows(not_named_in(workspace, scenario) + scenario, rows)
}

/// The draft holds what the scenario makes of the request: each field as the scenario's
/// override for it sets it, else as the request has it.
pub open spec fn spec_matches_configuration(d: DraftView, source: RequestView, c: ConfigurationView) -> bool {
    let o = override_at(c.request_overrides, source.id);
    let method = match o {
        Some(x) => match x.method {
            Some(m) => m,
            None => source.method,
        },
        None => source.method,
    };
    let url = match o {
        Some(x) => match x.url {
            Some(u) => u,
            None => source.url,
        },
        None => source.url,
    };
    let timeout = match o {
        Some(x) => match x.timeout_seconds {
            Some(t) => t,
            None => match c.timeout_seconds {
                Some(t) => t,
                None => source.timeout_seconds,
            },
        },
        None => match c.timeout_seconds {
            Some(t) => t,
            None => source.timeout_seconds,
        },
    };
    let headers = match o {
        Some(x) => match x.headers {
            Some(h) => h,
            None => source.headers,
        },
        None => source.headers,
    };
    let query = match o {
        Some(x) => match x.query_parts {
            Some(q) => q,
            None => source.query_parts,
        },
        None => source.query_parts,
    };
    let body = match o {
        Some(x) => match x.body_parts {
            Some(b) => b,
            None => source.body_parts,
        },
        None => source.body_parts,
    };
    let form = match o {
        Some(x) => match x.form {
            Some(f) => f,
            None => source.form,
        },
        None => source.form,
    };
    let files = match o {
        Some(x) => match x.files {
            Some(f) => f,
            None => source.files,
        },
        None => source.files,
    };
    &&& d.method == method
    &&& d.url == Some(url)
    &&& d.timeout_seconds == timeout
    &&& spec_headers_match(d.headers, headers)
    &&& d.query_parts == query
    &&& d.body_parts == body
    &&& d.form == form
    &&& d.files == files
}

pub fn headers_match(rows: &Vec<HeaderRow>, headers: &Vec<NameValue>) -> (r: bool)
    ensures
        r == spec_headers_match(rows.deep_view(), headers.deep_view()),
{
    if rows.len() != headers.len() {
        return false;
    }
    let mut i: usize = 0;
    while i < rows.len()
        invariant
            rows@.len() == headers@.len(),
            i <= rows@.len(),
            forall|j: int| 0 <= j < i ==> {
                &&& (#[trigger] rows@[j]).enabled
                &&& rows@[j].source == HeaderSource::Request
                &&& rows@[j].name@ == headers@[j].name@
                &&& rows@[j].value@ == headers@[j].value@
            },
        decreases rows@.len() - i,
    {
        let row = &rows[i];
        if !(row.enabled && row.source == HeaderSource::Request && eq_str(row.name.as_str(), headers[i].name.as_str())
            && eq_str(row.value.as_str(), headers[i].value.as_str())) {
            assert(rows.deep_view()[i as int] == rows@[i as int]@);
            assert(headers.deep_view()[i as int] == headers@[i as int]@);
            return false;
        }
        i = i + 1;
    }
    assert forall|j: int| 0 <= j < rows.deep_view().len() implies {
        &&& (#[trigger] rows.deep_view()[j]).enabled
        &&& rows.deep_view()[j].source == HeaderSource::Request
        &&& rows.deep_view()[j].name == headers.deep_view()[j].0
        &&& rows.deep_view()[j].value == headers.deep_view()[j].1
    } by {
        assert(rows.deep_view()[j] == rows@[j]@);
        assert(headers.deep_view()[j] == headers@[j]@);
    }
    true
}

fn has_named(hs: &Vec<NameValue>, name: &str) -> (r: bool)
    ensures
        r == named_in(hs.deep_view(), name@),
{
    let mut i: usize = 0;
    while i < hs.len()
        invariant
            i <= hs@.len(),
            forall|j: int| 0 <= j < i ==> !eq_ignore_case((#[trigger] hs.deep_view()[j]).0, name@),
        decreases hs@.len() - i,
    {
        assert(hs.deep_view()[i as int] == hs@[i as int]@);
        if eq_ignore_case_str(hs[i].name.as_str(), name) {
            return true;
        }
        i = i + 1;
    }
    false
}

fn has_row_named(rows: &Vec<HeaderRow>, name: &str) -> (r: bool)
    ensures
        r == row_named(rows.deep_view(), name@),
{
    let mut i: usize = 0;
    while i < rows.len()
        invariant
            i <= rows@.len(),
            forall|j: int| 0 <= j < i ==> !eq_ignore_case((#[trigger] rows.deep_view()[j]).name, name@),
        decreases rows@.len() - i,
    {
        assert(rows.deep_view()[i as int] == rows@[i as int]@);
        if eq_ignore_case_str(rows[i].name.as_str(), name) {
            return true;
        }
        i = i + 1;
    }
    false
}

impl RequestDraft {
    /// The draft that editing `request` starts from.
    pub fn from_request(request: &ApiRequest) -> (r: RequestDraft)
        ensures
            r@ == draft_of(request@),
    {
        let mut rows: Vec<HeaderRow> = Vec::new();
        let mut i: usize = 0;
        while i < request.headers.len()
            invariant
                i <= request.headers@.len(),
                rows.deep_view() == request_rows(request.headers.deep_view().take(i as int)),
            decreases request.headers@.len() - i,
        {
            let h = &request.headers[i];
            let row = HeaderRow {
                name: h.name.clone(),
                value: h.value.clone(),
                enabled: true,
                source: HeaderSource::Request,
            };
            let ghost before = rows.deep_view();
            let ghost rv = row@;
            rows.push(row);
            assert(rows.deep_view() =~= before.push(rv));
            assert(request.headers.deep_view().take(i + 1) =~= request.headers.deep_view().take(i as int).push(h@));
            assert(rows.deep_view() =~= request_rows(request.headers.deep_view().take(i + 1)));
            i = i + 1;
        }
        assert(request.headers.deep_view().take(request.headers@.len() as int) =~= request.headers.deep_view());
        RequestDraft {
            method: request.method.clone(),
            timeout_seconds: request.timeout_seconds,
            url: Some(request.url.clone()),
            headers: rows,
            query_parts: copy_parts(&request.query_parts),
            form: copy_params(&request.form),
            files: copy_files(&request.files),
            body_parts: copy_parts(&request.body_parts),
        }
    }

    /// The headers the draft sends of its own.
    pub fn enabled_headers(&self) -> (r: Vec<NameValue>)
        ensures
            r.deep_view() == enabled_rows(self.headers.deep_view()),
    {
        let ghost rv = self.headers.deep_view();
        let mut out: Vec<NameValue> = Vec::new();
        let mut i: usize = 0;
        assert(rv.take(0) =~= Seq::<RowView>::empty());
        while i < self.headers.len()
            invariant
                rv == self.headers.deep_view(),
                i <= rv.len(),
                out.deep_view() == enabled_rows(rv.take(i as int)),
            decreases rv.len() - i,
        {
            assert(rv.take(i + 1).drop_last() =~= rv.take(i as int));
            assert(rv.take(i + 1).last() == self.headers@[i as int]@);
            let row = &self.headers[i];
            let name = trim_str(row.name.as_str());
            if row.enabled && !name.as_str().is_empty() {
                let ghost before = out.deep_view();
                let h = NameValue { name, value: row.value.clone() };
                out.push(h);
                assert(out.deep_view() =~= before.push(h@));
            }
            i = i + 1;
        }
        assert(rv.take(rv.len() as int) =~= rv);
        out
    }

    /// The headers the draft inherits from the workspace and the scenario.
    pub fn inherited_headers(&self, workspace_headers: &Vec<NameValue>, configuration: &WorkspaceConfiguration) -> (r: Vec<NameValue>)
        ensures
            r.deep_view() == spec_inherited(
                workspace_headers.deep_view(),
                configuration.headers.deep_view(),
                self.headers.deep_view(),
            ),
    {
        let ghost wv = workspace_headers.deep_view();
        let ghost cv = configuration.headers.deep_view();
        let mut first: Vec<NameValue> = Vec::new();
        let mut i: usize = 0;
        assert(wv.take(0) =~= Seq::<(Seq<char>, Seq<char>)>::empty());
        while i < workspace_headers.len()
            invariant
                wv == workspace_headers.deep_view(),
                cv == configuration.headers.deep_view(),
                i <= wv.len(),
                first.deep_view() == not_named_in(wv.take(i as int), cv),
            decreases wv.len() - i,
        {
            assert(wv.take(i + 1).drop_last() =~= wv.take(i as int));
            assert(wv.take(i + 1).last() == workspace_headers@[i as int]@);
            if !has_named(&configuration.headers, workspace_headers[i].name.as_str()) {
                let h = workspace_headers[i].clone();
                let ghost before = first.deep_view();
                first.push(h);
                assert(first.deep_view() =~= before.push(h@));
            }
            i = i + 1;
        }
        assert(wv.take(wv.len() as int) =~= wv);
        let mut j: usize = 0;
        let ghost base = first.deep_view();
        while j < configuration.headers.len()
            invariant
                cv == configuration.headers.deep_view(),
                j <= cv.len(),
                first.deep_view() == base + cv.take(j as int),
            decreases cv.len() - j,
        {
            let h = configuration.headers[j].clone();
            let ghost before = first.deep_view();
            first.push(h);
            assert(first.deep_view() =~= before.push(h@));
            assert(cv.take(j + 1) =~= cv.take(j as int).push(h@));
            j = j + 1;
        }
        assert(cv.take(cv.len() as int) =~= cv);
        let ghost all = first.deep_view();
        let ghost rows = self.headers.deep_view();
        let mut out: Vec<NameValue> = Vec::new();
        let mut k: usize = 0;
        assert(all.take(0) =~= Seq::<(Seq<char>, Seq<char>)>::empty());
        while k < first.len()
            invariant
                all == first.deep_view(),
                rows == self.headers.deep_view(),
                k <= all.len(),
                out.deep_view() == not_in_rows(all.take(k as int), rows),
            decreases all.len() - k,
        {
            assert(all.take(k + 1).drop_last() =~= all.take(k as int));
            assert(all.take(k + 1).last() == first@[k as int]@);
            if !has_row_named(&self.headers, first[k].name.as_str()) {
                let h = first[k].clone();
                let ghost before = out.deep_view();
                out.push(h);
                assert(out.deep_view() =~= before.push(h@));
            }
            k = k + 1;
        }
        assert(all.take(all.len() as int) =~= all);
        out
    }
}


/// The position of the first override for request `id`.
pub fn find_override(overrides: &Vec<(String, RequestOverride)>, id: &str) -> (r: Option<usize>)
    ensures
        match r {
            Some(k) => k < overrides@.len() && override_at(override_views(overrides@), id@) == Some(
                overrides@[k as int].1@,
            ) && overrides@[k as int].0@ == id@ && k == crate::config::override_index(overrides@, id@),
            None => override_at(override_views(overrides@), id@) is None
                && crate::config::override_index(overrides@, id@) < 0,
        },
{
    proof {
        lemma_override_at(overrides@, id@);
        lemma_override_index(overrides@, id@);
    }
    let mut i: usize = 0;
    while i < overrides.len()
        invariant
            i <= overrides@.len(),
            forall|j: int| 0 <= j < i ==> (#[trigger] overrides@[j]).0@ != id@,
            -1 <= crate::config::override_index(overrides@, id@) < overrides@.len(),
            crate::config::override_index(overrides@, id@) >= 0 ==> overrides@[crate::config::override_index(
                overrides@,
                id@,
            )].0@ == id@,
            crate::config::override_index(overrides@, id@) >= 0 ==> forall|j: int|
                0 <= j < crate::config::override_index(overrides@, id@) ==> overrides@[j].0@ != id@,
            crate::config::override_index(overrides@, id@) < 0 ==> forall|j: int|
                0 <= j < overrides@.len() ==> overrides@[j].0@ != id@,
            override_at(override_views(overrides@), id@) == (if crate::config::override_index(
                overrides@,
                id@,
            ) < 0 {
                None
            } else {
                Some(overrides@[crate::config::override_index(overrides@, id@)].1@)
            }),
        decreases overrides@.len() - i,
    {
        if eq_str(overrides[i].0.as_str(), id) {
            return Some(i);
        }
        i = i + 1;
    }
    None
}

impl RequestDraft {
    /// Whether the draft holds just what the scenario makes of the request.
    pub fn matches_configuration(&self, source: &ApiRequest, configuration: &WorkspaceConfiguration) -> (r: bool)
        ensures
            r == spec_matches_configuration(self@, source@, configuration@),
    {
        let o: Option<&RequestOverride> = match find_override(&configuration.request_overrides, source.id.as_str()) {
            Some(k) => Some(&configuration.request_overrides[k].1),
            None => None,
        };
        let method = match o {
            Some(x) => match &x.method {
                Some(m) => m,
                None => &source.method,
            },
            None => &source.method,
        };
        let url = match o {
            Some(x) => match &x.url {
                Some(u) => u,
                None => &source.url,
            },
            None => &source.url,
        };
        let base_timeout = match configuration.timeout_seconds {
            Some(t) => t,
            None => source.timeout_seconds,
        };
        let timeout = match o {
            Some(x) => match x.timeout_seconds {
                Some(t) => t,
                None => base_timeout,
            },
            None => base_timeout,
        };
        let headers = match o {
            Some(x) => match &x.headers {
                Some(h) => h,
                None => &source.headers,
            },
            None => &source.headers,
        };
        let query = match o {
            Some(x) => match &x.query_parts {
                Some(q) => q,
                None => &source.query_parts,
            },
            None => &source.query_parts,
        };
        let body = match o {
            Some(x) => match &x.body_parts {
                Some(b) => b,
                None => &source.body_parts,
            },
            None => &source.body_parts,
        };
        let form = match o {
            Some(x) => match &x.form {
                Some(f) => f,
                None => &source.form,
            },
            None => &source.form,
        };
        let files = match o {
            Some(x) => match &x.files {
                Some(f) => f,
                None => &source.files,
            },
            None => &source.files,
        };
        let url_same = match &self.url {
            Some(u) => eq_str(u.as_str(), url.as_str()),
            None => false,
        };
        eq_str(self.method.as_str(), method.as_str()) && url_same && self.timeout_seconds == timeout
            && headers_match(&self.headers, headers) && parts_eq(&self.query_parts, query)
            && parts_eq(&self.body_parts, body) && params_eq(&self.form, form) && files_eq(
            &self.files,
            files,
        )
    }
}

/// What the request sends with its draft in the scenario: the scenario's request with the
/// draft's method, URL, timeout, parameters, form, uploads and body, and the inherited
/// headers followed by the draft's own.
pub open spec fn spec_effective_request(
    source: RequestView,
    d: DraftView,
    c: ConfigurationView,
    workspace_headers: Seq<(Seq<char>, Seq<char>)>,
) -> RequestView {
    let base = spec_for_configuration(source, c);
    RequestView {
        method: d.method,
        url: match d.url {
            Some(u) => u,
            None => base.url,
        },
        timeout_seconds: d.timeout_seconds,
        headers: spec_inherited(workspace_headers, c.headers, d.headers) + enabled_rows(d.headers),
        query_parts: d.query_parts,
        form: d.form,
        files: d.files,
        body_parts: d.body_parts,
        ..base
    }
}

pub fn effective_request(
    source: &ApiRequest,
    draft: &RequestDraft,
    configuration: &WorkspaceConfiguration,
    workspace_headers: &Vec<NameValue>,
) -> (r: ApiRequest)
    ensures
        r@ == spec_effective_request(source@, draft@, configuration@, workspace_headers.deep_view()),
{
    let mut effective = source.for_configuration(configuration);
    effective.method = draft.method.clone();
    if let Some(url) = &draft.url {
        effective.url = url.clone();
    }
    effective.timeout_seconds = draft.timeout_seconds;
    let mut headers = draft.inherited_headers(workspace_headers, configuration);
    let own = draft.enabled_headers();
    let ghost first = headers.deep_view();
    let mut i: usize = 0;
    while i < own.len()
        invariant
            i <= own@.len(),
            headers.deep_view() == first + own.deep_view().take(i as int),
        decreases own@.len() - i,
    {
        let h = own[i].clone();
        let ghost before = headers.deep_view();
        headers.push(h);
        assert(headers.deep_view() =~= before.push(h@));
        assert(own.deep_view().take(i + 1) =~= own.deep_view().take(i as int).push(h@));
        i = i + 1;
    }
    assert(own.deep_view().take(own@.len() as int) =~= own.deep_view());
    effective.headers = headers;
    effective.query_parts = copy_parts(&draft.query_parts);
    effective.form = copy_params(&draft.form);
    effective.files = copy_files(&draft.files);
    effective.body_parts = copy_parts(&draft.body_parts);
    effective
}


fn extract_eq(a: &ResponseExtract, b: &ResponseExtract) -> (r: bool)
    ensures
        r == (a@ == b@),
{
    eq_str(a.variable.as_str(), b.variable.as_str()) && eq_str(a.path.as_str(), b.path.as_str())
}

pub fn extracts_eq(a: &Vec<ResponseExtract>, b: &Vec<ResponseExtract>) -> (r: bool)
    ensures
        r == (a.deep_view() == b.deep_view()),
{
    if a.len() != b.len() {
        assert(a.deep_view().len() != b.deep_view().len());
        return false;
    }
    let mut i: usize = 0;
    while i < a.len()
        invariant
            a@.len() == b@.len(),
            i <= a@.len(),
            forall|j: int| 0 <= j < i ==> (#[trigger] a@[j])@ == b@[j]@,
        decreases a@.len() - i,
    {
        if !extract_eq(&a[i], &b[i]) {
            assert(a.deep_view()[i as int] != b.deep_view()[i as int]);
            return false;
        }
        i = i + 1;
    }
    assert(a.deep_view() =~= b.deep_view());
    true
}

fn copy_extracts(v: &Vec<ResponseExtract>) -> (r: Vec<ResponseExtract>)
    ensures
        r.deep_view() == v.deep_view(),
{
    let mut out: Vec<ResponseExtract> = Vec::new();
    let mut i: usize = 0;
    while i < v.len()
        invariant
            i <= v@.len(),
            out.deep_view() == v.deep_view().take(i as int),
        decreases v@.len() - i,
    {
        let x = v[i].clone();
        let ghost before = out.deep_view();
        out.push(x);
        assert(out.deep_view() =~= before.push(x@));
        assert(v.deep_view().take(i + 1) =~= before.push(x@));
        i = i + 1;
    }
    assert(v.deep_view().take(v@.len() as int) =~= v.deep_view());
    out
}

fn override_eq(a: &RequestOverride, b: &RequestOverride) -> (r: bool)
    ensures
        r == (a@ == b@),
{
    let m = opt_str_eq(&a.method, &b.method);
    let u = opt_str_eq(&a.url, &b.url);
    let t = a.timeout_seconds == b.timeout_seconds;
    let k = a.skip_ssl_verification == b.skip_ssl_verification;
    let h = match (&a.headers, &b.headers) {
        (Some(x), Some(y)) => headers_eq(x, y),
        (None, None) => true,
        _ => false,
    };
    let q = match (&a.query_parts, &b.query_parts) {
        (Some(x), Some(y)) => parts_eq(x, y),
        (None, None) => true,
        _ => false,
    };
    let bd = match (&a.body_parts, &b.body_parts) {
        (Some(x), Some(y)) => parts_eq(x, y),
        (None, None) => true,
        _ => false,
    };
    let f = match (&a.form, &b.form) {
        (Some(x), Some(y)) => params_eq(x, y),
        (None, None) => true,
        _ => false,
    };
    let fl = match (&a.files, &b.files) {
        (Some(x), Some(y)) => files_eq(x, y),
        (None, None) => true,
        _ => false,
    };
    let x = match (&a.extracts, &b.extracts) {
        (Some(x), Some(y)) => extracts_eq(x, y),
        (None, None) => true,
        _ => false,
    };
    m && u && t && k && h && q && bd && f && fl && x
}

/// The request as committing its draft to the workspace's own scenario leaves it: the
/// draft's fields replace the request's, its enabled headers become the request's headers.
pub open spec fn spec_commit_default(s: RequestView, d: DraftView) -> RequestView {
    RequestView {
        method: d.method,
        url: match d.url {
            Some(u) => u,
            None => s.url,
        },
        timeout_seconds: d.timeout_seconds,
        headers: enabled_rows(d.headers),
        query_parts: d.query_parts,
        body_parts: d.body_parts,
        form: d.form,
        files: d.files,
        ..s
    }
}

pub fn commit_default_draft(source: &mut ApiRequest, draft: &RequestDraft)
    ensures
        final(source)@ == spec_commit_default(old(source)@, draft@),
{
    source.method = draft.method.clone();
    if let Some(url) = &draft.url {
        source.url = url.clone();
    }
    source.timeout_seconds = draft.timeout_seconds;
    source.headers = draft.enabled_headers();
    source.query_parts = copy_parts(&draft.query_parts);
    source.body_parts = copy_parts(&draft.body_parts);
    source.form = copy_params(&draft.form);
    source.files = copy_files(&draft.files);
}

/// The override that a scenario should hold for a request once its draft is committed: each
/// field that the draft changes from the request, the TLS choice and extractions that the
/// previous override had; none when it would set nothing.
pub open spec fn spec_next_override(s: RequestView, d: DraftView, c: ConfigurationView) -> Option<OverrideView> {
    let previous = override_at(c.request_overrides, s.id);
    let base_timeout = match c.timeout_seconds {
        Some(t) => t,
        None => s.timeout_seconds,
    };
    let headers = enabled_rows(d.headers);
    let o = OverrideView {
        method: if d.method != s.method {
            Some(d.method)
        } else {
            None
        },
        url: match d.url {
            Some(u) => if trim(u).len() > 0 && u != s.url {
                Some(u)
            } else {
                None
            },
            None => None,
        },
        timeout_seconds: if d.timeout_seconds != base_timeout {
            Some(d.timeout_seconds)
        } else {
            None
        },
        skip_ssl_verification: match previous {
            Some(p) => p.skip_ssl_verification,
            None => None,
        },
        headers: if headers != s.headers {
            Some(headers)
        } else {
            None
        },
        query_parts: if d.query_parts != s.query_parts {
            Some(d.query_parts)
        } else {
            None
        },
        body_parts: if d.body_parts != s.body_parts {
            Some(d.body_parts)
        } else {
            None
        },
        form: if d.form != s.form {
            Some(d.form)
        } else {
            None
        },
        files: if d.files != s.files {
            Some(d.files)
        } else {
            None
        },
        extracts: match previous {
            Some(p) => p.extracts,
            None => None,
        },
    };
    if override_view_empty(o) {
        None
    } else {
        Some(o)
    }
}

/// The position of the first entry for request `id`, or -1.
pub open spec fn override_pos(ov: Seq<(Seq<char>, OverrideView)>, id: Seq<char>) -> int
    decreases ov.len(),
{
    if ov.len() == 0 {
        -1
    } else if ov[0].0 == id {
        0
    } else {
        let r = override_pos(ov.drop_first(), id);
        if r < 0 {
            -1
        } else {
            r + 1
        }
    }
}

pub proof fn lemma_override_pos(overrides: Seq<(String, RequestOverride)>, id: Seq<char>)
    ensures
        override_pos(override_views(overrides), id) == crate::config::override_index(overrides, id),
    decreases overrides.len(),
{
    if overrides.len() > 0 {
        assert(override_views(overrides).drop_first() =~= override_views(overrides.drop_first()));
        lemma_override_pos(overrides.drop_first(), id);
    }
}

/// A scenario's overrides once the draft of request `s` is committed: unchanged when the
/// override would stay as it is; else the request's entry set to the new override, a new
/// entry put in its place by request id, or the entry taken out when there is none.
pub open spec fn spec_committed_overrides(s: RequestView, d: DraftView, c: ConfigurationView) -> Seq<
    (Seq<char>, OverrideView),
> {
    let ov = c.request_overrides;
    let previous = override_at(ov, s.id);
    let next = spec_next_override(s, d, c);
    let k = override_pos(ov, s.id);
    if previous == next {
        ov
    } else {
        match next {
            Some(o) => if k >= 0 {
                ov.update(k, (s.id, o))
            } else {
                crate::loading::insert_by_name(ov, (s.id, o))
            },
            None => if k >= 0 {
                ov.remove(k)
            } else {
                ov
            },
        }
    }
}

fn changed_opt<T>(changed: bool, value: T) -> (r: Option<T>)
    ensures
        r == (if changed {
            Some(value)
        } else {
            None
        }),
{
    if changed {
        Some(value)
    } else {
        None
    }
}

/// Commits a draft: to the request itself in the workspace's own scenario (one without a
/// file), else to the scenario's override for the request.
pub fn commit_draft(source: &mut ApiRequest, draft: &RequestDraft, configuration: &mut WorkspaceConfiguration)
    ensures
        old(configuration).path is None ==> final(source)@ == spec_commit_default(old(source)@, draft@)
            && final(configuration)@ == old(configuration)@,
        old(configuration).path is Some ==> final(source)@ == old(source)@ && final(configuration)@
            == (ConfigurationView {
            request_overrides: spec_committed_overrides(old(source)@, draft@, old(configuration)@),
            ..old(configuration)@
        }),
{
    if configuration.path.is_none() {
        commit_default_draft(source, draft);
        return;
    }
    let ghost c0 = configuration@;
    let base_timeout = match configuration.timeout_seconds {
        Some(t) => t,
        None => source.timeout_seconds,
    };
    let found = find_override(&configuration.request_overrides, source.id.as_str());
    proof {
        lemma_override_pos(configuration.request_overrides@, source.id@);
        lemma_override_index(configuration.request_overrides@, source.id@);
    }
    let (skip_ssl_verification, extracts) = match found {
        Some(k) => {
            let p = &configuration.request_overrides[k].1;
            let x = match &p.extracts {
                Some(e) => Some(copy_extracts(e)),
                None => None,
            };
            (p.skip_ssl_verification, x)
        },
        None => (None, None),
    };
    let headers = draft.enabled_headers();
    let headers_changed = !headers_eq(&headers, &source.headers);
    let url = match &draft.url {
        Some(u) => if !trim_str(u.as_str()).as_str().is_empty() && !eq_str(u.as_str(), source.url.as_str()) {
            Some(u.clone())
        } else {
            None
        },
        None => None,
    };
    let query_changed = !parts_eq(&draft.query_parts, &source.query_parts);
    let body_changed = !parts_eq(&draft.body_parts, &source.body_parts);
    let form_changed = !params_eq(&draft.form, &source.form);
    let files_changed = !files_eq(&draft.files, &source.files);
    let method_changed = !eq_str(draft.method.as_str(), source.method.as_str());
    let next = RequestOverride {
        method: changed_opt(method_changed, draft.method.clone()),
        url,
        timeout_seconds: changed_opt(draft.timeout_seconds != base_timeout, draft.timeout_seconds),
        skip_ssl_verification,
        headers: changed_opt(headers_changed, headers),
        query_parts: changed_opt(query_changed, copy_parts(&draft.query_parts)),
        body_parts: changed_opt(body_changed, copy_parts(&draft.body_parts)),
        form: changed_opt(form_changed, copy_params(&draft.form)),
        files: changed_opt(files_changed, copy_files(&draft.files)),
        extracts,
    };
    let next_empty = next.is_empty();
    assert(next_empty == override_view_empty(next@));
    assert(spec_next_override(source@, draft@, c0) == (if next_empty {
        None
    } else {
        Some(next@)
    }));
    let same = match found {
        Some(k) => !next_empty && override_eq(&configuration.request_overrides[k].1, &next),
        None => next_empty,
    };
    if same {
        return;
    }
    let id = source.id.clone();
    match found {
        Some(k) => {
            if next_empty {
                configuration.request_overrides.remove(k);
                assert(override_views(configuration.request_overrides@) =~= override_views(
                    old(configuration).request_overrides@,
                ).remove(k as int));
            } else {
                let ghost nv = next@;
                configuration.request_overrides.set(k, (id, next));
                assert(override_views(configuration.request_overrides@) =~= override_views(
                    old(configuration).request_overrides@,
                ).update(k as int, (source.id@, nv)));
            }
        },
        None => {
            if !next_empty {
                let ghost nv = next@;
                let ghost ov = override_views(configuration.request_overrides@);
                let mut j: usize = 0;
                while j < configuration.request_overrides.len() && !crate::loading::text_le_exec(
                    id.as_str(),
                    configuration.request_overrides[j].0.as_str(),
                )
                    invariant
                        j <= configuration.request_overrides@.len(),
                        ov == override_views(configuration.request_overrides@),
                        id@ == source.id@,
                        forall|q: int| 0 <= q < j ==> !crate::loading::text_le(source.id@, #[trigger] ov[q].0),
                    decreases configuration.request_overrides@.len() - j,
                {
                    assert(ov[j as int].0 == configuration.request_overrides@[j as int].0@);
                    j = j + 1;
                }
                proof {
                    if j < configuration.request_overrides@.len() {
                        assert(ov[j as int].0 == configuration.request_overrides@[j as int].0@);
                    }
                    assert(crate::loading::is_insert_point(ov, source.id@, j as int));
                    crate::loading::lemma_insert_point(ov, (source.id@, nv), j as int);
                }
                configuration.request_overrides.insert(j, (id, next));
                assert(override_views(configuration.request_overrides@) =~= ov.insert(j as int, (source.id@, nv)));
            }
        },
    }
}


/// The rows that a request's headers become stand for exactly those headers.
pub proof fn law_request_rows_match(hs: Seq<(Seq<char>, Seq<char>)>)
    ensures
        spec_headers_match(request_rows(hs), hs),
{
}

/// A draft opened on a request as a scenario sends it holds just what the scenario makes of
/// that request.
pub proof fn law_fresh_draft_matches(source: RequestView, c: ConfigurationView)
    ensures
        spec_matches_configuration(draft_of(spec_for_configuration(source, c)), source, c),
{
    let e = spec_for_configuration(source, c);
    law_request_rows_match(e.headers);
}

proof fn lemma_override_pos_bounds(ov: Seq<(Seq<char>, OverrideView)>, id: Seq<char>)
    ensures
        -1 <= override_pos(ov, id) < ov.len(),
        override_pos(ov, id) >= 0 ==> ov[override_pos(ov, id)].0 == id,
    decreases ov.len(),
{
    if ov.len() > 0 && ov[0].0 != id {
        lemma_override_pos_bounds(ov.drop_first(), id);
    }
}

/// Committing a draft keeps a scenario's overrides ordered by request id, as the map that
/// keeps them by id orders them.
pub proof fn law_commit_keeps_override_order(s: RequestView, d: DraftView, c: ConfigurationView)
    requires
        crate::loading::ordered_by_name(c.request_overrides),
    ensures
        crate::loading::ordered_by_name(spec_committed_overrides(s, d, c)),
{
    let ov = c.request_overrides;
    let k = override_pos(ov, s.id);
    lemma_override_pos_bounds(ov, s.id);
    let r = spec_committed_overrides(s, d, c);
    match spec_next_override(s, d, c) {
        Some(o) => if k < 0 {
            crate::loading::lemma_insert_ordered(ov, (s.id, o));
        } else {
            assert forall|i: int, j: int| 0 <= i < j < r.len() implies crate::loading::text_le(
                #[trigger] r[i].0,
                #[trigger] r[j].0,
            ) by {
                if override_at(ov, s.id) != Some(o) {
                    assert(r[i].0 == ov[i].0 && r[j].0 == ov[j].0);
                }
            }
        },
        None => if k >= 0 {
            assert forall|i: int, j: int| 0 <= i < j < r.len() implies crate::loading::text_le(
                #[trigger] r[i].0,
                #[trigger] r[j].0,
            ) by {
                if override_at(ov, s.id) != None::<OverrideView> {
                    let fi = if i < k { i } else { i + 1 };
                    let fj = if j < k { j } else { j + 1 };
                    assert(r[i] == ov[fi] && r[j] == ov[fj]);
                }
            }
        },
    }
}

} // verus!
