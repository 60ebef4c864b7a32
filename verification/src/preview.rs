//! The dialogs that the request preview opens on a draft, and what closing them writes back.
use vstd::prelude::*;
use crate::config::{param_from_text, param_text, DataPart, NameValue, ParamView, PartView, RequestParam, WorkspaceConfiguration};
use crate::dialog::{
    DataPartSource, HeadersDialog, InlineTable, KeyValueField, ParamRowView, ParamSource, ParamsDialog,
    ParamsDialogRow,
};
use crate::session::{
    headers_eq, params_eq, parts_eq, row_named, spec_inherited, HeaderRow, HeaderSource, RequestDraft, RowView,
};
use crate::text::{eq_ignore_case_str, eq_str, trim, trim_str};

verus! {

/// The rows of the headers dialog: the inherited headers, enabled and marked as the
/// collection's, then the draft's own rows that are not suppressed.
pub open spec fn spec_header_dialog_rows(
    workspace: Seq<(Seq<char>, Seq<char>)>,
    scenario: Seq<(Seq<char>, Seq<char>)>,
    rows: Seq<RowView>,
) -> Seq<RowView> {
    spec_inherited(workspace, scenario, rows).map_values(
        |h: (Seq<char>, Seq<char>)| RowView { name: h.0, value: h.1, enabled: true, source: HeaderSource::Collection },
    ) + rows.filter(|r: RowView| r.source != HeaderSource::Suppressed)
}

pub fn header_dialog_rows(draft: &RequestDraft, workspace_headers: &Vec<NameValue>, configuration: &WorkspaceConfiguration) -> (r: Vec<HeaderRow>)
    ensures
        r.deep_view() == spec_header_dialog_rows(
            workspace_headers.deep_view(),
            configuration.headers.deep_view(),
            draft.headers.deep_view(),
        ),
{
    let inherited = draft.inherited_headers(workspace_headers, configuration);
    let ghost iv = inherited.deep_view();
    let mut out: Vec<HeaderRow> = Vec::new();
    let mut i: usize = 0;
    while i < inherited.len()
        invariant
            iv == inherited.deep_view(),
            i <= iv.len(),
            out.deep_view() == iv.take(i as int).map_values(
                |h: (Seq<char>, Seq<char>)| RowView { name: h.0, value: h.1, enabled: true, source: HeaderSource::Collection },
            ),
        decreases iv.len() - i,
    {
        let row = HeaderRow {
            name: inherited[i].name.clone(),
            value: inherited[i].value.clone(),
            enabled: true,
            source: HeaderSource::Collection,
        };
        let ghost before = out.deep_view();
        let ghost rv = row@;
        out.push(row);
        assert(out.deep_view() =~= before.push(rv));
        assert(iv.take(i + 1) =~= iv.take(i as int).push(iv[i as int]));
        assert(out.deep_view() =~= iv.take(i + 1).map_values(
            |h: (Seq<char>, Seq<char>)| RowView { name: h.0, value: h.1, enabled: true, source: HeaderSource::Collection },
        ));
        i = i + 1;
    }
    assert(iv.take(iv.len() as int) =~= iv);
    let ghost first = out.deep_view();
    let ghost dv = draft.headers.deep_view();
    let mut j: usize = 0;
    assert(dv.take(0).filter(|r: RowView| r.source != HeaderSource::Suppressed) =~= Seq::<RowView>::empty());
    while j < draft.headers.len()
        invariant
            dv == draft.headers.deep_view(),
            j <= dv.len(),
            out.deep_view() == first + dv.take(j as int).filter(|r: RowView| r.source != HeaderSource::Suppressed),
        decreases dv.len() - j,
    {
        assert(dv.take(j + 1).drop_last() =~= dv.take(j as int));
        assert(dv.take(j + 1).last() == draft.headers@[j as int]@);
        proof {
            reveal_with_fuel(Seq::<_>::filter, 1);
        }
        if draft.headers[j].source != HeaderSource::Suppressed {
            let row = draft.headers[j].clone();
            let ghost before = out.deep_view();
            let ghost rv = row@;
            out.push(row);
            assert(out.deep_view() =~= before.push(rv));
        }
        j = j + 1;
    }
    assert(dv.take(dv.len() as int) =~= dv);
    out
}

/// The headers dialog opened on a draft: its rows, the first selected, the value column chosen.
pub fn headers_dialog(
    request_id: String,
    draft: &RequestDraft,
    workspace_headers: &Vec<NameValue>,
    configuration: &WorkspaceConfiguration,
) -> (r: HeadersDialog)
    ensures
        r.request_id == request_id,
        r.rows.deep_view() == spec_header_dialog_rows(
            workspace_headers.deep_view(),
            configuration.headers.deep_view(),
            draft.headers.deep_view(),
        ),
        r.table.selected == 0,
        r.table.field == KeyValueField::Value,
        r.table.editor is None,
        r.preset_selection is None,
        r.wf(),
{
    let rows = header_dialog_rows(draft, workspace_headers, configuration);
    let mut table = InlineTable::new();
    table.field = KeyValueField::Value;
    HeadersDialog { request_id, rows, table, preset_selection: None }
}

/// A parameter as a dialog row.
pub open spec fn param_row(source: ParamSource, p: ParamView, part_type: Option<DataPartSource>, has_equals: bool) -> ParamRowView {
    ParamRowView { source, key: p.name, value: p.value, part_type, has_equals }
}

pub open spec fn query_row(part: PartView) -> ParamRowView {
    match part {
        PartView::Raw(text) => {
            let p = param_from_text(text);
            param_row(ParamSource::Query, p, Some(DataPartSource::Raw), p.has_equals)
        },
        PartView::UrlEncoded(p) => param_row(ParamSource::Query, p, Some(DataPartSource::UrlEncoded), p.has_equals),
    }
}

pub open spec fn all_encoded(parts: Seq<PartView>) -> bool {
    forall|i: int| 0 <= i < parts.len() ==> (#[trigger] parts[i]) is UrlEncoded
}

pub open spec fn body_row(part: PartView) -> ParamRowView {
    match part {
        PartView::UrlEncoded(p) => param_row(ParamSource::Body, p, Some(DataPartSource::UrlEncoded), p.has_equals),
        PartView::Raw(text) => param_row(ParamSource::Body, param_from_text(text), None, false),
    }
}

/// The rows of the parameters dialog: the URL's query parameters, the query parts, the
/// form fields, and the body's parameters when the body holds only encoded parameters.
pub open spec fn spec_params_dialog_rows(
    url_params: Seq<ParamView>,
    query: Seq<PartView>,
    form: Seq<ParamView>,
    body: Seq<PartView>,
) -> Seq<ParamRowView> {
    url_params.map_values(|p: ParamView| param_row(ParamSource::Url, p, None, p.has_equals))
        + query.map_values(|q: PartView| query_row(q))
        + form.map_values(|p: ParamView| param_row(ParamSource::Form, p, None, true))
        + if all_encoded(body) {
        body.map_values(|b: PartView| body_row(b))
    } else {
        Seq::empty()
    }
}

fn row_of(source: ParamSource, p: &RequestParam, part_type: Option<DataPartSource>, has_equals: bool) -> (r: ParamsDialogRow)
    ensures
        r@ == param_row(source, p@, part_type, has_equals),
{
    ParamsDialogRow { source, key: p.name.clone(), value: p.value.clone(), part_type, has_equals }
}

fn all_encoded_exec(parts: &Vec<DataPart>) -> (r: bool)
    ensures
        r == all_encoded(parts.deep_view()),
{
    let mut i: usize = 0;
    while i < parts.len()
        invariant
            i <= parts@.len(),
            forall|j: int| 0 <= j < i ==> (#[trigger] parts.deep_view()[j]) is UrlEncoded,
        decreases parts@.len() - i,
    {
        assert(parts.deep_view()[i as int] == parts@[i as int]@);
        match &parts[i] {
            DataPart::Raw(_) => return false,
            DataPart::UrlEncoded(_) => {},
        }
        i = i + 1;
    }
    true
}

/// The rows of the parameters dialog for a draft, given the parameters of its URL's query.
pub fn params_dialog_rows(url_params: &Vec<RequestParam>, draft: &RequestDraft) -> (r: Vec<ParamsDialogRow>)
    ensures
        r.deep_view() == spec_params_dialog_rows(
            url_params.deep_view(),
            draft.query_parts.deep_view(),
            draft.form.deep_view(),
            draft.body_parts.deep_view(),
        ),
{
    let mut out: Vec<ParamsDialogRow> = Vec::new();
    let ghost uv = url_params.deep_view();
    let mut i: usize = 0;
    while i < url_params.len()
        invariant
            uv == url_params.deep_view(),
            i <= uv.len(),
            out.deep_view() == uv.take(i as int).map_values(|p: ParamView| param_row(ParamSource::Url, p, None, p.has_equals)),
        decreases uv.len() - i,
    {
        let row = row_of(ParamSource::Url, &url_params[i], None, url_params[i].has_equals);
        let ghost before = out.deep_view();
        let ghost rv = row@;
        assert(uv[i as int] == url_params@[i as int]@);
        out.push(row);
        assert(out.deep_view() =~= before.push(rv));
        assert(uv.take(i + 1) =~= uv.take(i as int).push(uv[i as int]));
        assert(out.deep_view() =~= uv.take(i + 1).map_values(|p: ParamView| param_row(ParamSource::Url, p, None, p.has_equals)));
        i = i + 1;
    }
    assert(uv.take(uv.len() as int) =~= uv);
    let ghost a = out.deep_view();
    let ghost qv = draft.query_parts.deep_view();
    let mut j: usize = 0;
    while j < draft.query_parts.len()
        invariant
            qv == draft.query_parts.deep_view(),
            j <= qv.len(),
            out.deep_view() == a + qv.take(j as int).map_values(|q: PartView| query_row(q)),
        decreases qv.len() - j,
    {
        let row = match &draft.query_parts[j] {
            DataPart::Raw(text) => {
                let p = RequestParam::from_text(text.as_str());
                let h = p.has_equals;
                row_of(ParamSource::Query, &p, Some(DataPartSource::Raw), h)
            },
            DataPart::UrlEncoded(p) => row_of(ParamSource::Query, p, Some(DataPartSource::UrlEncoded), p.has_equals),
        };
        let ghost before = out.deep_view();
        let ghost rv = row@;
        out.push(row);
        assert(out.deep_view() =~= before.push(rv));
        assert(qv[j as int] == draft.query_parts@[j as int]@);
        assert(qv.take(j + 1) =~= qv.take(j as int).push(qv[j as int]));
        assert(out.deep_view() =~= a + qv.take(j + 1).map_values(|q: PartView| query_row(q)));
        j = j + 1;
    }
    assert(qv.take(qv.len() as int) =~= qv);
    let ghost b = out.deep_view();
    let ghost fv = draft.form.deep_view();
    let mut k: usize = 0;
    while k < draft.form.len()
        invariant
            fv == draft.form.deep_view(),
            k <= fv.len(),
            out.deep_view() == b + fv.take(k as int).map_values(|p: ParamView| param_row(ParamSource::Form, p, None, true)),
        decreases fv.len() - k,
    {
        let row = row_of(ParamSource::Form, &draft.form[k], None, true);
        let ghost before = out.deep_view();
        let ghost rv = row@;
        assert(fv[k as int] == draft.form@[k as int]@);
        out.push(row);
        assert(out.deep_view() =~= before.push(rv));
        assert(fv.take(k + 1) =~= fv.take(k as int).push(fv[k as int]));
        assert(out.deep_view() =~= b + fv.take(k + 1).map_values(|p: ParamView| param_row(ParamSource::Form, p, None, true)));
        k = k + 1;
    }
    assert(fv.take(fv.len() as int) =~= fv);
    let ghost c = out.deep_view();
    let ghost bv = draft.body_parts.deep_view();
    if all_encoded_exec(&draft.body_parts) {
        let mut m: usize = 0;
        while m < draft.body_parts.len()
            invariant
                bv == draft.body_parts.deep_view(),
                m <= bv.len(),
                out.deep_view() == c + bv.take(m as int).map_values(|x: PartView| body_row(x)),
            decreases bv.len() - m,
        {
            let row = match &draft.body_parts[m] {
                DataPart::UrlEncoded(p) => row_of(ParamSource::Body, p, Some(DataPartSource::UrlEncoded), p.has_equals),
                DataPart::Raw(text) => {
                    let p = RequestParam::from_text(text.as_str());
                    row_of(ParamSource::Body, &p, None, false)
                },
            };
            let ghost before = out.deep_view();
            let ghost rv = row@;
            out.push(row);
            assert(out.deep_view() =~= before.push(rv));
            assert(bv[m as int] == draft.body_parts@[m as int]@);
            assert(bv.take(m + 1) =~= bv.take(m as int).push(bv[m as int]));
            assert(out.deep_view() =~= c + bv.take(m + 1).map_values(|x: PartView| body_row(x)));
            m = m + 1;
        }
        assert(bv.take(bv.len() as int) =~= bv);
    } else {
        assert(out.deep_view() =~= c + Seq::<ParamRowView>::empty());
    }
    out
}

/// The parameters dialog opened on a draft, with the first row and the name column selected.
pub fn params_dialog(request_id: String, url_params: &Vec<RequestParam>, draft: &RequestDraft) -> (r: ParamsDialog)
    ensures
        r.request_id == request_id,
        r.rows.deep_view() == spec_params_dialog_rows(
            url_params.deep_view(),
            draft.query_parts.deep_view(),
            draft.form.deep_view(),
            draft.body_parts.deep_view(),
        ),
        r.table.selected == 0,
        r.table.field == KeyValueField::Name,
        r.table.editor is None,
        r.wf(),
{
    let rows = params_dialog_rows(url_params, draft);
    ParamsDialog { request_id, rows, table: InlineTable::new() }
}


/// The dialog's rows that the request keeps: its own rows with a name, the name trimmed.
pub open spec fn own_rows(rows: Seq<RowView>) -> Seq<RowView>
    decreases rows.len(),
{
    if rows.len() == 0 {
        Seq::empty()
    } else {
        let r = rows.last();
        if r.source == HeaderSource::Request && trim(r.name).len() > 0 {
            own_rows(rows.drop_last()).push(RowView { name: trim(r.name), ..r })
        } else {
            own_rows(rows.drop_last())
        }
    }
}

/// The draft's suppressed rows whose names none of `visible` has.
pub open spec fn kept_suppressed(rows: Seq<RowView>, visible: Seq<RowView>) -> Seq<RowView>
    decreases rows.len(),
{
    if rows.len() == 0 {
        Seq::empty()
    } else {
        let r = rows.last();
        if r.source == HeaderSource::Suppressed && !row_named(visible, r.name) {
            kept_suppressed(rows.drop_last(), visible).push(r)
        } else {
            kept_suppressed(rows.drop_last(), visible)
        }
    }
}

/// The draft's header rows once the headers dialog is written back: the request's own
/// rows, then the suppressed rows that none of them names.
pub open spec fn spec_synced_headers(dialog_rows: Seq<RowView>, draft_rows: Seq<RowView>) -> Seq<RowView> {
    let visible = own_rows(dialog_rows);
    visible + kept_suppressed(draft_rows, visible)
}

fn rows_eq(a: &Vec<HeaderRow>, b: &Vec<HeaderRow>) -> (r: bool)
    ensures
        r == (a.deep_view() == b.deep_view()),
{
    if a.len() != b.len() {
        assert(a.deep_view().len() != b.deep_view().len());
        return false;
    }
    let mut i: usize = 0;
    while i < a.len()
        invariant
            a@.len() == b@.len(),
            i <= a@.len(),
            forall|j: int| 0 <= j < i ==> (#[trigger] a@[j])@ == b@[j]@,
        decreases a@.len() - i,
    {
        let same = eq_str(a[i].name.as_str(), b[i].name.as_str()) && eq_str(a[i].value.as_str(), b[i].value.as_str())
            && a[i].enabled == b[i].enabled && a[i].source == b[i].source;
        if !same {
            assert(a.deep_view()[i as int] != b.deep_view()[i as int]);
            return false;
        }
        i = i + 1;
    }
    assert(a.deep_view() =~= b.deep_view());
    true
}

fn has_row_named_exec(rows: &Vec<HeaderRow>, name: &str) -> (r: bool)
    ensures
        r == row_named(rows.deep_view(), name@),
{
    let mut i: usize = 0;
    while i < rows.len()
        invariant
            i <= rows@.len(),
            forall|j: int| 0 <= j < i ==> !crate::text::eq_ignore_case((#[trigger] rows.deep_view()[j]).name, name@),
        decreases rows@.len() - i,
    {
        assert(rows.deep_view()[i as int] == rows@[i as int]@);
        if eq_ignore_case_str(rows[i].name.as_str(), name) {
            return true;
        }
        i = i + 1;
    }
    false
}

/// Writes the headers dialog back to the draft; whether the draft's rows changed.
pub fn sync_header_dialog(draft_rows: &mut Vec<HeaderRow>, dialog_rows: &Vec<HeaderRow>) -> (r: bool)
    ensures
        r == (spec_synced_headers(dialog_rows.deep_view(), old(draft_rows).deep_view()) != old(draft_rows).deep_view()),
        final(draft_rows).deep_view() == spec_synced_headers(dialog_rows.deep_view(), old(draft_rows).deep_view()),
{
    let ghost dv = dialog_rows.deep_view();
    let mut rows: Vec<HeaderRow> = Vec::new();
    let mut i: usize = 0;
    assert(dv.take(0) =~= Seq::<RowView>::empty());
    while i < dialog_rows.len()
        invariant
            dv == dialog_rows.deep_view(),
            i <= dv.len(),
            rows.deep_view() == own_rows(dv.take(i as int)),
        decreases dv.len() - i,
    {
        assert(dv.take(i + 1).drop_last() =~= dv.take(i as int));
        assert(dv.take(i + 1).last() == dialog_rows@[i as int]@);
        let name = trim_str(dialog_rows[i].name.as_str());
        if dialog_rows[i].source == HeaderSource::Request && !name.as_str().is_empty() {
            let row = HeaderRow {
                name,
                value: dialog_rows[i].value.clone(),
                enabled: dialog_rows[i].enabled,
                source: dialog_rows[i].source,
            };
            let ghost before = rows.deep_view();
            let ghost rv = row@;
            rows.push(row);
            assert(rows.deep_view() =~= before.push(rv));
        }
        i = i + 1;
    }
    assert(dv.take(dv.len() as int) =~= dv);
    let ghost visible = rows.deep_view();
    let ghost ov = draft_rows.deep_view();
    let mut extra: Vec<HeaderRow> = Vec::new();
    let mut j: usize = 0;
    assert(ov.take(0) =~= Seq::<RowView>::empty());
    while j < draft_rows.len()
        invariant
            ov == draft_rows.deep_view(),
            visible == rows.deep_view(),
            j <= ov.len(),
            extra.deep_view() == kept_suppressed(ov.take(j as int), visible),
        decreases ov.len() - j,
    {
        assert(ov.take(j + 1).drop_last() =~= ov.take(j as int));
        assert(ov.take(j + 1).last() == draft_rows@[j as int]@);
        if draft_rows[j].source == HeaderSource::Suppressed && !has_row_named_exec(&rows, draft_rows[j].name.as_str()) {
            let row = draft_rows[j].clone();
            let ghost before = extra.deep_view();
            let ghost rv = row@;
            extra.push(row);
            assert(extra.deep_view() =~= before.push(rv));
        }
        j = j + 1;
    }
    assert(ov.take(ov.len() as int) =~= ov);
    let mut k: usize = 0;
    let ghost start = rows.deep_view();
    while k < extra.len()
        invariant
            k <= extra@.len(),
            rows.deep_view() == start + extra.deep_view().take(k as int),
        decreases extra@.len() - k,
    {
        let row = extra[k].clone();
        let ghost before = rows.deep_view();
        let ghost rv = row@;
        rows.push(row);
        assert(rows.deep_view() =~= before.push(rv));
        assert(extra.deep_view().take(k + 1) =~= extra.deep_view().take(k as int).push(rv));
        k = k + 1;
    }
    assert(extra.deep_view().take(extra@.len() as int) =~= extra.deep_view());
    if rows_eq(draft_rows, &rows) {
        return false;
    }
    *draft_rows = rows;
    true
}


/// What the rows of the parameters dialog write back: the URL's parameters, the query
/// parts, the form fields and the body parts.
pub struct ParamsParts {
    pub url_params: Seq<ParamView>,
    pub query_parts: Seq<PartView>,
    pub form: Seq<ParamView>,
    pub body_parts: Seq<PartView>,
}

/// One row taken in: a row without key and value is dropped, a form row needs a key; URL
/// rows keep the trimmed value, the others the value as typed.
pub open spec fn take_row(acc: ParamsParts, row: ParamRowView) -> ParamsParts {
    let key = trim(row.key);
    let value = trim(row.value);
    let filled = key.len() > 0 || value.len() > 0;
    match row.source {
        ParamSource::Url => if filled {
            ParamsParts {
                url_params: acc.url_params.push(ParamView { name: key, value, has_equals: row.has_equals }),
                ..acc
            }
        } else {
            acc
        },
        ParamSource::Query => if filled {
            let kind = match row.part_type {
                Some(k) => k,
                None => DataPartSource::Raw,
            };
            ParamsParts {
                query_parts: acc.query_parts.push(
                    kind.spec_to_part(ParamView { name: key, value: row.value, has_equals: row.has_equals }),
                ),
                ..acc
            }
        } else {
            acc
        },
        ParamSource::Form => if key.len() > 0 {
            ParamsParts {
                form: acc.form.push(ParamView { name: key, value: row.value, has_equals: true }),
                ..acc
            }
        } else {
            acc
        },
        ParamSource::Body => if filled {
            let kind = match row.part_type {
                Some(k) => k,
                None => DataPartSource::UrlEncoded,
            };
            ParamsParts {
                body_parts: acc.body_parts.push(
                    kind.spec_to_part(ParamView { name: key, value: row.value, has_equals: row.has_equals }),
                ),
                ..acc
            }
        } else {
            acc
        },
    }
}

pub open spec fn spec_params_from_rows(rows: Seq<ParamRowView>) -> ParamsParts
    decreases rows.len(),
{
    if rows.len() == 0 {
        ParamsParts { url_params: Seq::empty(), query_parts: Seq::empty(), form: Seq::empty(), body_parts: Seq::empty() }
    } else {
        take_row(spec_params_from_rows(rows.drop_last()), rows.last())
    }
}

/// Reads the rows of the parameters dialog.
pub fn params_from_rows(rows: &Vec<ParamsDialogRow>) -> (r: (Vec<RequestParam>, Vec<DataPart>, Vec<RequestParam>, Vec<DataPart>))
    ensures
        (ParamsParts {
            url_params: r.0.deep_view(),
            query_parts: r.1.deep_view(),
            form: r.2.deep_view(),
            body_parts: r.3.deep_view(),
        }) == spec_params_from_rows(rows.deep_view()),
{
    let ghost rv = rows.deep_view();
    let mut url_params: Vec<RequestParam> = Vec::new();
    let mut query_parts: Vec<DataPart> = Vec::new();
    let mut form: Vec<RequestParam> = Vec::new();
    let mut body_parts: Vec<DataPart> = Vec::new();
    let mut i: usize = 0;
    assert(rv.take(0) =~= Seq::<ParamRowView>::empty());
    assert(url_params.deep_view() =~= Seq::<ParamView>::empty());
    assert(query_parts.deep_view() =~= Seq::<PartView>::empty());
    assert(form.deep_view() =~= Seq::<ParamView>::empty());
    assert(body_parts.deep_view() =~= Seq::<PartView>::empty());
    while i < rows.len()
        invariant
            rv == rows.deep_view(),
            i <= rv.len(),
            (ParamsParts {
                url_params: url_params.deep_view(),
                query_parts: query_parts.deep_view(),
                form: form.deep_view(),
                body_parts: body_parts.deep_view(),
            }) == spec_params_from_rows(rv.take(i as int)),
        decreases rv.len() - i,
    {
        assert(rv.take(i + 1).drop_last() =~= rv.take(i as int));
        assert(rv.take(i + 1).last() == rows@[i as int]@);
        let row = &rows[i];
        let key = trim_str(row.key.as_str());
        let value = trim_str(row.value.as_str());
        let filled = !key.as_str().is_empty() || !value.as_str().is_empty();
        match row.source {
            ParamSource::Url => {
                if filled {
                    let p = RequestParam::new(key, value, row.has_equals);
                    let ghost before = url_params.deep_view();
                    let ghost pv = p@;
                    url_params.push(p);
                    assert(url_params.deep_view() =~= before.push(pv));
                }
            },
            ParamSource::Query => {
                if filled {
                    let kind = match row.part_type {
                        Some(k) => k,
                        None => DataPartSource::Raw,
                    };
                    let part = kind.to_part(RequestParam::new(key, row.value.clone(), row.has_equals));
                    let ghost before = query_parts.deep_view();
                    let ghost pv = part@;
                    query_parts.push(part);
                    assert(query_parts.deep_view() =~= before.push(pv));
                }
            },
            ParamSource::Form => {
                if !key.as_str().is_empty() {
                    let p = RequestParam::new(key, row.value.clone(), true);
                    let ghost before = form.deep_view();
                    let ghost pv = p@;
                    form.push(p);
                    assert(form.deep_view() =~= before.push(pv));
                }
            },
            ParamSource::Body => {
                if filled {
                    let kind = match row.part_type {
                        Some(k) => k,
                        None => DataPartSource::UrlEncoded,
                    };
                    let part = kind.to_part(RequestParam::new(key, row.value.clone(), row.has_equals));
                    let ghost before = body_parts.deep_view();
                    let ghost pv = part@;
                    body_parts.push(part);
                    assert(body_parts.deep_view() =~= before.push(pv));
                }
            },
        }
        i = i + 1;
    }
    assert(rv.take(rv.len() as int) =~= rv);
    (url_params, query_parts, form, body_parts)
}

/// Whether writing the parts back replaces the body: when there are body rows, or when
/// the body holds only encoded parameters.
pub open spec fn replaces_body(body: Seq<PartView>, draft_body: Seq<PartView>) -> bool {
    body.len() > 0 || all_encoded(draft_body)
}

/// Writes the parameters dialog back to the draft, with the URL rebuilt from its
/// parameters; whether anything changed. A raw body stays unless body rows replace it.
pub fn apply_params(draft: &mut RequestDraft, url: Option<String>, query_parts: Vec<DataPart>, form: Vec<RequestParam>, body_parts: Vec<DataPart>) -> (r: bool)
    ensures
        r == (old(draft).url.deep_view() != url.deep_view() || old(draft).query_parts.deep_view()
            != query_parts.deep_view() || old(draft).form.deep_view() != form.deep_view() || (replaces_body(
            body_parts.deep_view(),
            old(draft).body_parts.deep_view(),
        ) && old(draft).body_parts.deep_view() != body_parts.deep_view())),
        r ==> final(draft)@ == (crate::session::DraftView {
            url: url.deep_view(),
            query_parts: query_parts.deep_view(),
            form: form.deep_view(),
            body_parts: if replaces_body(body_parts.deep_view(), old(draft).body_parts.deep_view()) {
                body_parts.deep_view()
            } else {
                old(draft).body_parts.deep_view()
            },
            ..old(draft)@
        }),
        !r ==> final(draft)@ == old(draft)@,
{
    let replace_body = body_parts.len() > 0 || all_encoded_exec(&draft.body_parts);
    let url_same = match (&draft.url, &url) {
        (Some(a), Some(b)) => eq_str(a.as_str(), b.as_str()),
        (None, None) => true,
        _ => false,
    };
    let changed = !url_same || !parts_eq(&draft.query_parts, &query_parts) || !params_eq(&draft.form, &form) || (
    replace_body && !parts_eq(&draft.body_parts, &body_parts));
    if changed {
        draft.url = url;
        draft.query_parts = query_parts;
        draft.form = form;
        if replace_body {
            draft.body_parts = body_parts;
        }
    }
    changed
}

/// The draft's rows after a header row is removed in the dialog: a row with a name is kept
/// as suppressed, in place of any row of that name in any ASCII case, so that an inherited
/// header of that name stays off; a row without a name leaves the draft as it is.
pub open spec fn spec_after_removal(rows: Seq<RowView>, removed: RowView) -> Seq<RowView> {
    if trim(removed.name).len() == 0 {
        rows
    } else {
        rows.filter(|r: RowView| !crate::text::eq_ignore_case(r.name, removed.name)).push(
            RowView { enabled: false, source: HeaderSource::Suppressed, ..removed },
        )
    }
}

/// Suppresses a header row removed from the dialog; whether the draft's rows changed.
pub fn suppress_removed_header(draft_rows: &mut Vec<HeaderRow>, removed: HeaderRow) -> (r: bool)
    ensures
        final(draft_rows).deep_view() == spec_after_removal(old(draft_rows).deep_view(), removed@),
        r == (trim(removed.name@).len() > 0),
{
    let blank = trim_str(removed.name.as_str());
    if blank.as_str().is_empty() {
        return false;
    }
    let ghost ov = draft_rows.deep_view();
    let mut kept: Vec<HeaderRow> = Vec::new();
    let mut i: usize = 0;
    assert(ov.take(0) =~= Seq::<RowView>::empty());
    while i < draft_rows.len()
        invariant
            ov == draft_rows.deep_view(),
            i <= ov.len(),
            kept.deep_view() == ov.take(i as int).filter(|r: RowView| !crate::text::eq_ignore_case(r.name, removed.name@)),
        decreases ov.len() - i,
    {
        proof {
            let f = |r: RowView| !crate::text::eq_ignore_case(r.name, removed.name@);
            assert(ov.take(i + 1).drop_last() =~= ov.take(i as int));
            assert(ov.take(i + 1).last() == draft_rows@[i as int]@);
            ov.take(i as int).lemma_filter_push(ov[i as int], f);
            assert(ov.take(i as int).push(ov[i as int]) =~= ov.take(i + 1));
        }
        if !eq_ignore_case_str(draft_rows[i].name.as_str(), removed.name.as_str()) {
            let row = draft_rows[i].clone();
            let ghost before = kept.deep_view();
            let ghost rv = row@;
            kept.push(row);
            assert(kept.deep_view() =~= before.push(rv));
        }
        i = i + 1;
    }
    assert(ov.take(ov.len() as int) =~= ov);
    let ghost before = kept.deep_view();
    let row = HeaderRow { name: removed.name, value: removed.value, enabled: false, source: HeaderSource::Suppressed };
    let ghost rv = row@;
    kept.push(row);
    assert(kept.deep_view() =~= before.push(rv));
    *draft_rows = kept;
    true
}

} // verus!
