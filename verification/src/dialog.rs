//! The headers and parameters dialogs: tables of rows, a selected cell, and an input that
//! edits it.
use vstd::prelude::*;
use crate::config::{DataPart, ParamView, PartView, RequestParam};
use crate::editor::{edit_inv, spec_handle, EditAction, EditCommand, EditInput, EditView};
use crate::session::{HeaderRow, HeaderSource, RowView};
use crate::text::{copy_str, eq_ignore_case, eq_ignore_case_str, eq_str};
use crate::view::ListScrollState;

verus! {

/// The column of a table that is selected.
#[derive(Clone, Copy, PartialEq, Eq, Structural, Debug)]
pub enum KeyValueField {
    Name,
    Value,
}

/// Where a parameter in the parameters dialog comes from.
#[derive(Clone, Copy, PartialEq, Eq, Structural, Debug)]
pub enum ParamSource {
    Url,
    Query,
    Form,
    Body,
}

/// How a query or body parameter is kept: as raw text or as an encoded name and value.
#[derive(Clone, Copy, PartialEq, Eq, Structural, Debug)]
pub enum DataPartSource {
    Raw,
    UrlEncoded,
}

/// The tabs of the request preview.
#[derive(Clone, Copy, PartialEq, Eq, Structural, Debug)]
pub enum PreviewTab {
    Body,
    Headers,
    Params,
}

impl DataPartSource {
    pub open spec fn spec_to_part(self, p: ParamView) -> PartView {
        match self {
            DataPartSource::Raw => PartView::Raw(crate::config::param_text(p)),
            DataPartSource::UrlEncoded => PartView::UrlEncoded(p),
        }
    }

    /// The part that a parameter becomes: its text, or the parameter itself.
    pub fn to_part(self, value: RequestParam) -> (r: DataPart)
        ensures
            r@ == self.spec_to_part(value@),
    {
        match self {
            DataPartSource::Raw => DataPart::Raw(value.to_text()),
            DataPartSource::UrlEncoded => DataPart::UrlEncoded(value),
        }
    }
}

/// A row of the parameters dialog.
pub struct ParamsDialogRow {
    pub source: ParamSource,
    pub key: String,
    pub value: String,
    pub part_type: Option<DataPartSource>,
    pub has_equals: bool,
}

pub struct ParamRowView {
    pub source: ParamSource,
    pub key: Seq<char>,
    pub value: Seq<char>,
    pub part_type: Option<DataPartSource>,
    pub has_equals: bool,
}

impl View for ParamsDialogRow {
    type V = ParamRowView;

    open spec fn view(&self) -> ParamRowView {
        ParamRowView {
            source: self.source,
            key: self.key@,
            value: self.value@,
            part_type: self.part_type,
            has_equals: self.has_equals,
        }
    }
}

impl DeepView for ParamsDialogRow {
    type V = ParamRowView;

    open spec fn deep_view(&self) -> ParamRowView {
        self@
    }
}

/// The commands a dialog takes.
#[derive(Clone, Copy, PartialEq, Eq, Structural, Debug)]
pub enum DialogCommand {
    Back,
    Up,
    Down,
    Left,
    Right,
    Delete,
    Activate,
    Toggle,
    Add,
}

/// What a key in a dialog asks of the application.
#[derive(Clone, Copy, PartialEq, Eq, Structural, Debug)]
pub enum DialogAction {
    /// Nothing for the application to do.
    Idle,
    Changed,
    RemoveRow { tab: PreviewTab, index: usize },
    Apply,
    Cancel,
}

/// An index moved by `direction` within `0..length`: back without going below zero,
/// forward without passing the last index; zero for an empty list.
pub open spec fn spec_move_index(current: usize, direction: int, length: usize) -> usize {
    if length == 0 {
        0
    } else if direction < 0 {
        if current >= -direction {
            (current + direction) as usize
        } else {
            0
        }
    } else {
        let target = if current + direction <= usize::MAX {
            current + direction
        } else {
            usize::MAX as int
        };
        if target < length - 1 {
            target as usize
        } else {
            (length - 1) as usize
        }
    }
}

pub fn move_index(current: usize, direction: isize, length: usize) -> (r: usize)
    ensures
        r == spec_move_index(current, direction as int, length),
{
    if length == 0 {
        return 0;
    }
    if direction < 0 {
        let back: usize = if direction == isize::MIN {
            (isize::MAX as usize) + 1
        } else {
            (-direction) as usize
        };
        current.saturating_sub(back)
    } else {
        let target = current.saturating_add(direction as usize);
        if target < length - 1 {
            target
        } else {
            length - 1
        }
    }
}

/// The number of header presets the add menu offers, besides an empty row.
pub const HEADER_PRESET_COUNT: usize = 6;

pub open spec fn spec_header_preset(i: usize) -> Option<(Seq<char>, Seq<char>)> {
    if i == 0 {
        Some(("Authorization"@, "Bearer "@))
    } else if i == 1 {
        Some(("Accept"@, "application/json"@))
    } else if i == 2 {
        Some(("Content-Type"@, "application/json"@))
    } else if i == 3 {
        Some(("Cookie"@, ""@))
    } else if i == 4 {
        Some(("User-Agent"@, ""@))
    } else if i == 5 {
        Some(("X-Request-Id"@, ""@))
    } else {
        None
    }
}

/// The `i`-th header preset: a name and the value it starts with.
pub fn header_preset(i: usize) -> (r: Option<(&'static str, &'static str)>)
    ensures
        match r {
            Some((n, v)) => spec_header_preset(i) == Some((n@, v@)),
            None => spec_header_preset(i) is None,
        },
{
    if i == 0 {
        Some(("Authorization", "Bearer "))
    } else if i == 1 {
        Some(("Accept", "application/json"))
    } else if i == 2 {
        Some(("Content-Type", "application/json"))
    } else if i == 3 {
        Some(("Cookie", ""))
    } else if i == 4 {
        Some(("User-Agent", ""))
    } else if i == 5 {
        Some(("X-Request-Id", ""))
    } else {
        None
    }
}

/// A table of a dialog: the selected row and column, its scroll position, and the input
/// that edits the selected cell, when one is open.
pub struct InlineTable {
    pub selected: usize,
    pub scroll: ListScrollState,
    pub field: KeyValueField,
    pub editor: Option<EditInput>,
}

impl InlineTable {
    pub fn new() -> (r: InlineTable)
        ensures
            r.selected == 0,
            r.field == KeyValueField::Name,
            r.editor is None,
    {
        InlineTable { selected: 0, scroll: ListScrollState::new(), field: KeyValueField::Name, editor: None }
    }

    /// An open input keeps its cursor within its value.
    pub open spec fn wf(&self) -> bool {
        self.editor matches Some(e) ==> edit_inv(e@)
    }
}

pub open spec fn header_column(row: RowView, field: KeyValueField) -> Seq<char> {
    match field {
        KeyValueField::Name => row.name,
        KeyValueField::Value => row.value,
    }
}

pub open spec fn param_column(row: ParamRowView, field: KeyValueField) -> Seq<char> {
    match field {
        KeyValueField::Name => row.key,
        KeyValueField::Value => row.value,
    }
}

/// An input just opened on a text: all of it selected, the cursor at its end.
pub open spec fn opened_on(text: Seq<char>) -> EditView {
    EditView { value: text, cursor: text.len(), mode: crate::editor::EditMode::Replace }
}

fn opened(text: &String) -> (r: EditInput)
    ensures
        r@ == opened_on(text@),
        edit_inv(r@),
{
    EditInput::new(text.clone())
}


/// The headers dialog of a request: its rows, its table, and the preset menu when open.
pub struct HeadersDialog {
    pub request_id: String,
    pub rows: Vec<HeaderRow>,
    pub table: InlineTable,
    pub preset_selection: Option<usize>,
}

pub struct HeadersView {
    pub rows: Seq<RowView>,
    pub selected: usize,
    pub field: KeyValueField,
    pub editor: Option<EditView>,
    pub preset: Option<usize>,
}

impl HeadersDialog {
    pub open spec fn hv(&self) -> HeadersView {
        HeadersView {
            rows: self.rows.deep_view(),
            selected: self.table.selected,
            field: self.table.field,
            editor: match &self.table.editor {
                Some(e) => Some(e@),
                None => None,
            },
            preset: self.preset_selection,
        }
    }
}

/// Committing the open input to the selected cell: a cell that changes makes its row the
/// request's own; the input closes either way.
pub open spec fn headers_commit(d: HeadersView) -> HeadersView {
    match d.editor {
        None => d,
        Some(e) => if d.selected < d.rows.len() {
            let row = d.rows[d.selected as int];
            let changed = header_column(row, d.field) != e.value;
            let next = if !changed {
                row
            } else {
                match d.field {
                    KeyValueField::Name => RowView { name: e.value, source: HeaderSource::Request, ..row },
                    KeyValueField::Value => RowView { value: e.value, source: HeaderSource::Request, ..row },
                }
            };
            HeadersView { rows: d.rows.update(d.selected as int, next), editor: None, ..d }
        } else {
            HeadersView { editor: None, ..d }
        },
    }
}

/// A new empty row of the request's own, selected, with its name being edited.
pub open spec fn headers_add_row(d: HeadersView) -> HeadersView {
    let rows = d.rows.push(
        RowView { name: Seq::empty(), value: Seq::empty(), enabled: true, source: HeaderSource::Request },
    );
    HeadersView {
        rows,
        selected: (rows.len() - 1) as usize,
        field: KeyValueField::Name,
        editor: Some(opened_on(Seq::empty())),
        ..d
    }
}

/// The first row with a name, up to ASCII case, or -1.
pub open spec fn row_index(rows: Seq<RowView>, name: Seq<char>) -> int
    decreases rows.len(),
{
    if rows.len() == 0 {
        -1
    } else {
        let k = row_index(rows.drop_last(), name);
        if k >= 0 {
            k
        } else if eq_ignore_case(rows.last().name, name) {
            rows.len() - 1
        } else {
            -1
        }
    }
}

/// Choosing preset `selected`: a preset whose header is there opens its value for editing;
/// another adds its header; the entry after the presets adds an empty row.
pub open spec fn headers_add_preset(d: HeadersView, selected: usize) -> HeadersView {
    let d0 = HeadersView { preset: None, ..d };
    match spec_header_preset(selected) {
        None => headers_add_row(d0),
        Some((name, value)) => {
            let k = row_index(d0.rows, name);
            if k >= 0 {
                HeadersView {
                    selected: k as usize,
                    field: KeyValueField::Value,
                    editor: Some(opened_on(d0.rows[k].value)),
                    ..d0
                }
            } else {
                let rows = d0.rows.push(RowView { name, value, enabled: true, source: HeaderSource::Request });
                HeadersView {
                    rows,
                    selected: (rows.len() - 1) as usize,
                    field: KeyValueField::Value,
                    editor: Some(opened_on(value)),
                    ..d0
                }
            }
        },
    }
}

/// The selected row of the request's own turned on or off; others stay as they are.
pub open spec fn headers_toggle(d: HeadersView) -> HeadersView {
    if d.selected < d.rows.len() && d.rows[d.selected as int].source == HeaderSource::Request {
        let row = d.rows[d.selected as int];
        HeadersView { rows: d.rows.update(d.selected as int, RowView { enabled: !row.enabled, ..row }), ..d }
    } else {
        d
    }
}

/// Removing row `index`: the input closes and the selection stays on the same place, or
/// on the last row.
pub open spec fn headers_remove(d: HeadersView, index: usize) -> HeadersView {
    if index >= d.rows.len() {
        d
    } else {
        let rows = d.rows.remove(index as int);
        HeadersView {
            rows,
            editor: None,
            selected: if index < rows.len() {
                index
            } else if rows.len() > 0 {
                (rows.len() - 1) as usize
            } else {
                0
            },
            ..d
        }
    }
}

/// What a key does in the headers dialog: in the preset menu it moves through the presets
/// and the empty entry, picks one or closes the menu; with an input open it goes to the
/// input; else it moves the selection, edits, toggles, removes, adds or closes.
pub open spec fn headers_handle(
    d: HeadersView,
    menu: Option<DialogCommand>,
    table: Option<DialogCommand>,
    edit: Option<EditCommand>,
    typed: Option<char>,
) -> (HeadersView, DialogAction) {
    match d.preset {
        Some(sel) => match menu {
            Some(DialogCommand::Back) => (HeadersView { preset: None, ..d }, DialogAction::Idle),
            Some(DialogCommand::Up) => (
                HeadersView { preset: Some(spec_move_index(sel, -1, (HEADER_PRESET_COUNT + 1) as usize)), ..d },
                DialogAction::Idle,
            ),
            Some(DialogCommand::Down) => (
                HeadersView { preset: Some(spec_move_index(sel, 1, (HEADER_PRESET_COUNT + 1) as usize)), ..d },
                DialogAction::Idle,
            ),
            Some(DialogCommand::Activate) => (headers_add_preset(d, sel), DialogAction::Changed),
            _ => (d, DialogAction::Idle),
        },
        None => match d.editor {
            Some(e) => {
                let (e2, action) = spec_handle(e, edit, typed);
                match action {
                    EditAction::Continue => (HeadersView { editor: Some(e2), ..d }, DialogAction::Idle),
                    EditAction::Confirm => (
                        headers_commit(HeadersView { editor: Some(e2), ..d }),
                        DialogAction::Changed,
                    ),
                    EditAction::Cancel => (HeadersView { editor: None, ..d }, DialogAction::Idle),
                }
            },
            None => headers_table(d, table),
        },
    }
}

/// What a table command does in the headers dialog.
pub open spec fn headers_table(d: HeadersView, table: Option<DialogCommand>) -> (HeadersView, DialogAction) {
        match table {
            Some(DialogCommand::Back) => (d, DialogAction::Cancel),
            Some(DialogCommand::Up) => (
                HeadersView { selected: spec_move_index(d.selected, -1, d.rows.len() as usize), ..d },
                DialogAction::Idle,
            ),
            Some(DialogCommand::Down) => (
                HeadersView { selected: spec_move_index(d.selected, 1, d.rows.len() as usize), ..d },
                DialogAction::Idle,
            ),
            Some(DialogCommand::Left) => (HeadersView { field: KeyValueField::Name, ..d }, DialogAction::Idle),
            Some(DialogCommand::Right) => (HeadersView { field: KeyValueField::Value, ..d }, DialogAction::Idle),
            Some(DialogCommand::Delete) => (
                d,
                DialogAction::RemoveRow { tab: PreviewTab::Headers, index: d.selected },
            ),
            Some(DialogCommand::Activate) => (
                if d.selected < d.rows.len() {
                    HeadersView {
                        editor: Some(opened_on(header_column(d.rows[d.selected as int], d.field))),
                        ..d
                    }
                } else {
                    d
                },
                DialogAction::Idle,
            ),
            Some(DialogCommand::Toggle) => (headers_toggle(d), DialogAction::Changed),
            Some(DialogCommand::Add) => (HeadersView { preset: Some(0), ..d }, DialogAction::Idle),
            None => (d, DialogAction::Idle),
        }
}

fn first_named(rows: &Vec<HeaderRow>, name: &str) -> (r: Option<usize>)
    ensures
        match r {
            Some(k) => k as int == row_index(rows.deep_view(), name@) && k < rows@.len(),
            None => row_index(rows.deep_view(), name@) < 0,
        },
{
    let ghost rv = rows.deep_view();
    let mut i: usize = 0;
    assert(rv.take(0) =~= Seq::<RowView>::empty());
    while i < rows.len()
        invariant
            rv == rows.deep_view(),
            i <= rv.len(),
            row_index(rv.take(i as int), name@) < 0,
        decreases rv.len() - i,
    {
        assert(rv.take(i + 1).drop_last() =~= rv.take(i as int));
        assert(rv.take(i + 1).last() == rows@[i as int]@);
        if eq_ignore_case_str(rows[i].name.as_str(), name) {
            proof {
                lemma_row_index_prefix(rv, name@, i + 1);
            }
            return Some(i);
        }
        i = i + 1;
    }
    assert(rv.take(rv.len() as int) =~= rv);
    None
}

proof fn lemma_row_index_prefix(rows: Seq<RowView>, name: Seq<char>, k: int)
    requires
        0 <= k <= rows.len(),
        row_index(rows.take(k), name) >= 0,
    ensures
        row_index(rows, name) == row_index(rows.take(k), name),
    decreases rows.len() - k,
{
    if k < rows.len() {
        assert(rows.take(k + 1).drop_last() =~= rows.take(k));
        lemma_row_index_prefix(rows, name, k + 1);
    } else {
        assert(rows.take(k) =~= rows);
    }
}

proof fn lemma_row_index_bounds(rows: Seq<RowView>, name: Seq<char>)
    ensures
        -1 <= row_index(rows, name) < rows.len(),
    decreases rows.len(),
{
    if rows.len() > 0 {
        lemma_row_index_bounds(rows.drop_last(), name);
    }
}

impl HeadersDialog {
    pub open spec fn wf(&self) -> bool {
        self.table.wf()
    }

    pub fn commit_editor(&mut self)
        requires
            old(self).wf(),
        ensures
            final(self).wf(),
            final(self).hv() == headers_commit(old(self).hv()),
            final(self).request_id == old(self).request_id,
    {
        let editor = match self.table.editor.take() {
            Some(e) => e,
            None => return,
        };
        if self.table.selected >= self.rows.len() {
            return;
        }
        let value = editor.confirmed_value();
        let k = self.table.selected;
        let mut row = self.rows[k].clone();
        let changed = match self.table.field {
            KeyValueField::Name => {
                if !eq_str(row.name.as_str(), value.as_str()) {
                    row.name = value;
                    true
                } else {
                    false
                }
            },
            KeyValueField::Value => {
                if !eq_str(row.value.as_str(), value.as_str()) {
                    row.value = value;
                    true
                } else {
                    false
                }
            },
        };
        if changed {
            row.source = HeaderSource::Request;
        }
        let ghost rv = row@;
        let ghost before = self.rows.deep_view();
        self.rows.set(k, row);
        assert(self.rows.deep_view() =~= before.update(k as int, rv));
    }

    pub fn add_row(&mut self)
        requires
            old(self).wf(),
        ensures
            final(self).wf(),
            final(self).hv() == headers_add_row(old(self).hv()),
            final(self).request_id == old(self).request_id,
    {
        let ghost before = self.rows.deep_view();
        let row = HeaderRow { name: String::new(), value: String::new(), enabled: true, source: HeaderSource::Request };
        let ghost rv = row@;
        self.rows.push(row);
        assert(rv.name =~= Seq::<char>::empty());
        assert(rv.value =~= Seq::<char>::empty());
        assert(self.rows.deep_view() =~= before.push(rv));
        self.table.selected = self.rows.len() - 1;
        self.table.field = KeyValueField::Name;
        self.table.editor = Some(EditInput::new(String::new()));
    }

    fn add_preset(&mut self, selected: usize)
        requires
            old(self).wf(),
        ensures
            final(self).wf(),
            final(self).hv() == headers_add_preset(old(self).hv(), selected),
            final(self).request_id == old(self).request_id,
    {
        self.preset_selection = None;
        let (name, value) = match header_preset(selected) {
            Some(p) => p,
            None => {
                self.add_row();
                return;
            },
        };
        proof {
            lemma_row_index_bounds(self.rows.deep_view(), name@);
        }
        if let Some(index) = first_named(&self.rows, name) {
            self.table.selected = index;
            self.table.field = KeyValueField::Value;
            assert(self.rows.deep_view()[index as int] == self.rows@[index as int]@);
            self.table.editor = Some(opened(&self.rows[index].value));
            return;
        }
        let ghost before = self.rows.deep_view();
        let row = HeaderRow { name: copy_str(name), value: copy_str(value), enabled: true, source: HeaderSource::Request };
        let ghost rv = row@;
        self.rows.push(row);
        assert(self.rows.deep_view() =~= before.push(rv));
        self.table.selected = self.rows.len() - 1;
        self.table.field = KeyValueField::Value;
        self.table.editor = Some(EditInput::new(copy_str(value)));
    }

    /// Opens the preset menu, closing any open input.
    pub fn open_preset_menu(&mut self)
        ensures
            final(self).wf(),
            final(self).hv() == (HeadersView { editor: None, preset: Some(0), ..old(self).hv() }),
            final(self).request_id == old(self).request_id,
    {
        self.table.editor = None;
        self.preset_selection = Some(0);
    }

    /// Removes row `index`, giving it back, when there is one.
    pub fn remove_row(&mut self, index: usize) -> (r: Option<HeaderRow>)
        requires
            old(self).wf(),
        ensures
            final(self).wf(),
            final(self).hv() == headers_remove(old(self).hv(), index),
            final(self).request_id == old(self).request_id,
            match r {
                Some(row) => index < old(self).rows@.len() && row@ == old(self).hv().rows[index as int],
                None => index >= old(self).rows@.len(),
            },
    {
        if index >= self.rows.len() {
            return None;
        }
        self.table.editor = None;
        let ghost before = self.rows.deep_view();
        let removed = self.rows.remove(index);
        assert(self.rows.deep_view() =~= before.remove(index as int));
        let n = self.rows.len();
        self.table.selected = if index < n {
            index
        } else if n > 0 {
            n - 1
        } else {
            0
        };
        Some(removed)
    }

    pub fn toggle_selected(&mut self)
        requires
            old(self).wf(),
        ensures
            final(self).wf(),
            final(self).hv() == headers_toggle(old(self).hv()),
            final(self).request_id == old(self).request_id,
    {
        let k = self.table.selected;
        if k < self.rows.len() && self.rows[k].source == HeaderSource::Request {
            let ghost before = self.rows.deep_view();
            let mut row = self.rows[k].clone();
            row.enabled = !row.enabled;
            let ghost rv = row@;
            self.rows.set(k, row);
            assert(self.rows.deep_view() =~= before.update(k as int, rv));
        }
    }

    /// Carries out a key: `menu`, `table` and `edit` are what it means in the preset menu,
    /// in the table and in an input; `typed` is the character it types, if any.
    pub fn handle_key(
        &mut self,
        menu: Option<DialogCommand>,
        table: Option<DialogCommand>,
        edit: Option<EditCommand>,
        typed: Option<char>,
    ) -> (r: DialogAction)
        requires
            old(self).wf(),
        ensures
            final(self).wf(),
            (final(self).hv(), r) == headers_handle(old(self).hv(), menu, table, edit, typed),
            final(self).request_id == old(self).request_id,
    {
        if let Some(selected) = self.preset_selection {
            return self.handle_preset_menu(selected, menu);
        }
        if self.table.editor.is_some() {
            return self.handle_editor(edit, typed);
        }
        self.handle_table(table)
    }

    fn handle_preset_menu(&mut self, selected: usize, menu: Option<DialogCommand>) -> (r: DialogAction)
        requires
            old(self).wf(),
            old(self).preset_selection == Some(selected),
        ensures
            final(self).wf(),
            (final(self).hv(), r) == headers_handle(old(self).hv(), menu, None, None, None),
            final(self).request_id == old(self).request_id,
    {
        match menu {
            Some(DialogCommand::Back) => {
                self.preset_selection = None;
                DialogAction::Idle
            },
            Some(DialogCommand::Up) => {
                self.preset_selection = Some(move_index(selected, -1, HEADER_PRESET_COUNT + 1));
                DialogAction::Idle
            },
            Some(DialogCommand::Down) => {
                self.preset_selection = Some(move_index(selected, 1, HEADER_PRESET_COUNT + 1));
                DialogAction::Idle
            },
            Some(DialogCommand::Activate) => {
                self.add_preset(selected);
                DialogAction::Changed
            },
            _ => DialogAction::Idle,
        }
    }

    fn handle_editor(&mut self, edit: Option<EditCommand>, typed: Option<char>) -> (r: DialogAction)
        requires
            old(self).wf(),
            old(self).preset_selection is None,
            old(self).table.editor is Some,
        ensures
            final(self).wf(),
            (final(self).hv(), r) == headers_handle(old(self).hv(), None, None, edit, typed),
            final(self).request_id == old(self).request_id,
    {
        let mut editor = self.table.editor.take().unwrap();
        let action = editor.handle_command(edit, typed);
        match action {
            EditAction::Continue => {
                self.table.editor = Some(editor);
                DialogAction::Idle
            },
            EditAction::Confirm => {
                self.table.editor = Some(editor);
                self.commit_editor();
                DialogAction::Changed
            },
            EditAction::Cancel => DialogAction::Idle,
        }
    }

    fn handle_table(&mut self, table: Option<DialogCommand>) -> (r: DialogAction)
        requires
            old(self).wf(),
            old(self).preset_selection is None,
            old(self).table.editor is None,
        ensures
            final(self).wf(),
            (final(self).hv(), r) == headers_handle(old(self).hv(), None, table, None, None),
            final(self).request_id == old(self).request_id,
    {
        match table {
            Some(DialogCommand::Back) => DialogAction::Cancel,
            Some(DialogCommand::Up) => {
                self.table.selected = move_index(self.table.selected, -1, self.rows.len());
                DialogAction::Idle
            },
            Some(DialogCommand::Down) => {
                self.table.selected = move_index(self.table.selected, 1, self.rows.len());
                DialogAction::Idle
            },
            Some(DialogCommand::Left) => {
                self.table.field = KeyValueField::Name;
                DialogAction::Idle
            },
            Some(DialogCommand::Right) => {
                self.table.field = KeyValueField::Value;
                DialogAction::Idle
            },
            Some(DialogCommand::Delete) => DialogAction::RemoveRow { tab: PreviewTab::Headers, index: self.table.selected },
            Some(DialogCommand::Activate) => {
                let k = self.table.selected;
                if k < self.rows.len() {
                    assert(self.rows.deep_view()[k as int] == self.rows@[k as int]@);
                    let text = match self.table.field {
                        KeyValueField::Name => &self.rows[k].name,
                        KeyValueField::Value => &self.rows[k].value,
                    };
                    self.table.editor = Some(opened(text));
                }
                DialogAction::Idle
            },
            Some(DialogCommand::Toggle) => {
                self.toggle_selected();
                DialogAction::Changed
            },
            Some(DialogCommand::Add) => {
                self.preset_selection = Some(0);
                DialogAction::Idle
            },
            None => DialogAction::Idle,
        }
    }
}


/// The parameters dialog of a request.
pub struct ParamsDialog {
    pub request_id: String,
    pub rows: Vec<ParamsDialogRow>,
    pub table: InlineTable,
}

pub struct ParamsView {
    pub rows: Seq<ParamRowView>,
    pub selected: usize,
    pub field: KeyValueField,
    pub editor: Option<EditView>,
}

/// Committing the open input to the selected cell; a query row that gets a value also gets
/// an `=`.
pub open spec fn params_commit(d: ParamsView) -> ParamsView {
    match d.editor {
        None => d,
        Some(e) => if d.selected < d.rows.len() {
            let row = d.rows[d.selected as int];
            let next = match d.field {
                KeyValueField::Name => if row.key != e.value {
                    ParamRowView { key: e.value, ..row }
                } else {
                    row
                },
                KeyValueField::Value => if row.value != e.value {
                    ParamRowView {
                        value: e.value,
                        has_equals: if row.source == ParamSource::Query {
                            true
                        } else {
                            row.has_equals
                        },
                        ..row
                    }
                } else {
                    row
                },
            };
            ParamsView { rows: d.rows.update(d.selected as int, next), editor: None, ..d }
        } else {
            ParamsView { editor: None, ..d }
        },
    }
}

pub open spec fn has_source(rows: Seq<ParamRowView>, source: ParamSource) -> bool {
    exists|i: int| 0 <= i < rows.len() && (#[trigger] rows[i]).source == source
}

/// Where a new parameter goes: to the form when there are only form rows, to the body
/// when there are body rows and no URL or query rows, else to the query.
pub open spec fn new_param_source(rows: Seq<ParamRowView>) -> ParamSource {
    if has_source(rows, ParamSource::Form) && !has_source(rows, ParamSource::Url) && !has_source(
        rows,
        ParamSource::Query,
    ) && !has_source(rows, ParamSource::Body) {
        ParamSource::Form
    } else if has_source(rows, ParamSource::Body) && !has_source(rows, ParamSource::Url) && !has_source(
        rows,
        ParamSource::Query,
    ) {
        ParamSource::Body
    } else {
        ParamSource::Query
    }
}

pub open spec fn params_add_row(d: ParamsView) -> ParamsView {
    let source = new_param_source(d.rows);
    let rows = d.rows.push(
        ParamRowView {
            source,
            key: Seq::empty(),
            value: Seq::empty(),
            part_type: if source == ParamSource::Query || source == ParamSource::Body {
                Some(DataPartSource::UrlEncoded)
            } else {
                None
            },
            has_equals: true,
        },
    );
    ParamsView {
        rows,
        selected: (rows.len() - 1) as usize,
        field: KeyValueField::Name,
        editor: Some(opened_on(Seq::empty())),
    }
}

pub open spec fn params_remove(d: ParamsView, index: usize) -> ParamsView {
    if index >= d.rows.len() {
        d
    } else {
        let rows = d.rows.remove(index as int);
        ParamsView {
            rows,
            editor: None,
            selected: if index < rows.len() {
                index
            } else if rows.len() > 0 {
                (rows.len() - 1) as usize
            } else {
                0
            },
            ..d
        }
    }
}

/// What a key does in the parameters dialog: with an input open it goes to the input; else
/// it moves the selection, edits, removes, adds or closes.
pub open spec fn params_handle(
    d: ParamsView,
    table: Option<DialogCommand>,
    edit: Option<EditCommand>,
    typed: Option<char>,
) -> (ParamsView, DialogAction) {
    match d.editor {
        Some(e) => {
            let (e2, action) = spec_handle(e, edit, typed);
            match action {
                EditAction::Continue => (ParamsView { editor: Some(e2), ..d }, DialogAction::Idle),
                EditAction::Confirm => (params_commit(ParamsView { editor: Some(e2), ..d }), DialogAction::Changed),
                EditAction::Cancel => (ParamsView { editor: None, ..d }, DialogAction::Idle),
            }
        },
        None => match table {
            Some(DialogCommand::Back) => (d, DialogAction::Cancel),
            Some(DialogCommand::Up) => (
                ParamsView { selected: spec_move_index(d.selected, -1, d.rows.len() as usize), ..d },
                DialogAction::Idle,
            ),
            Some(DialogCommand::Down) => (
                ParamsView { selected: spec_move_index(d.selected, 1, d.rows.len() as usize), ..d },
                DialogAction::Idle,
            ),
            Some(DialogCommand::Left) => (ParamsView { field: KeyValueField::Name, ..d }, DialogAction::Idle),
            Some(DialogCommand::Right) => (ParamsView { field: KeyValueField::Value, ..d }, DialogAction::Idle),
            Some(DialogCommand::Delete) => (d, DialogAction::RemoveRow { tab: PreviewTab::Params, index: d.selected }),
            Some(DialogCommand::Activate) => (
                if d.selected < d.rows.len() {
                    ParamsView { editor: Some(opened_on(param_column(d.rows[d.selected as int], d.field))), ..d }
                } else {
                    d
                },
                DialogAction::Idle,
            ),
            Some(DialogCommand::Add) => (params_add_row(d), DialogAction::Idle),
            _ => (d, DialogAction::Idle),
        },
    }
}

fn any_source(rows: &Vec<ParamsDialogRow>, source: ParamSource) -> (r: bool)
    ensures
        r == has_source(rows.deep_view(), source),
{
    let mut i: usize = 0;
    while i < rows.len()
        invariant
            i <= rows@.len(),
            forall|j: int| 0 <= j < i ==> (#[trigger] rows.deep_view()[j]).source != source,
        decreases rows@.len() - i,
    {
        assert(rows.deep_view()[i as int] == rows@[i as int]@);
        if rows[i].source == source {
            return true;
        }
        i = i + 1;
    }
    false
}

impl ParamsDialog {
    pub open spec fn pv(&self) -> ParamsView {
        ParamsView {
            rows: self.rows.deep_view(),
            selected: self.table.selected,
            field: self.table.field,
            editor: match &self.table.editor {
                Some(e) => Some(e@),
                None => None,
            },
        }
    }

    pub open spec fn wf(&self) -> bool {
        self.table.wf()
    }

    pub fn commit_editor(&mut self)
        requires
            old(self).wf(),
        ensures
            final(self).wf(),
            final(self).pv() == params_commit(old(self).pv()),
            final(self).request_id == old(self).request_id,
    {
        let editor = match self.table.editor.take() {
            Some(e) => e,
            None => return,
        };
        if self.table.selected >= self.rows.len() {
            return;
        }
        let value = editor.confirmed_value();
        let k = self.table.selected;
        let ghost before = self.rows.deep_view();
        let old_row = &self.rows[k];
        let row = match self.table.field {
            KeyValueField::Name => if !eq_str(old_row.key.as_str(), value.as_str()) {
                ParamsDialogRow {
                    source: old_row.source,
                    key: value,
                    value: old_row.value.clone(),
                    part_type: old_row.part_type,
                    has_equals: old_row.has_equals,
                }
            } else {
                clone_row(old_row)
            },
            KeyValueField::Value => if !eq_str(old_row.value.as_str(), value.as_str()) {
                ParamsDialogRow {
                    source: old_row.source,
                    key: old_row.key.clone(),
                    value,
                    part_type: old_row.part_type,
                    has_equals: if old_row.source == ParamSource::Query {
                        true
                    } else {
                        old_row.has_equals
                    },
                }
            } else {
                clone_row(old_row)
            },
        };
        let ghost rv = row@;
        self.rows.set(k, row);
        assert(self.rows.deep_view() =~= before.update(k as int, rv));
    }

    pub fn add_row(&mut self)
        requires
            old(self).wf(),
        ensures
            final(self).wf(),
            final(self).pv() == params_add_row(old(self).pv()),
            final(self).request_id == old(self).request_id,
    {
        let form = any_source(&self.rows, ParamSource::Form);
        let url = any_source(&self.rows, ParamSource::Url);
        let query = any_source(&self.rows, ParamSource::Query);
        let body = any_source(&self.rows, ParamSource::Body);
        let source = if form && !url && !query && !body {
            ParamSource::Form
        } else if body && !url && !query {
            ParamSource::Body
        } else {
            ParamSource::Query
        };
        let part_type = if source == ParamSource::Query || source == ParamSource::Body {
            Some(DataPartSource::UrlEncoded)
        } else {
            None
        };
        let ghost before = self.rows.deep_view();
        let row = ParamsDialogRow { source, key: String::new(), value: String::new(), part_type, has_equals: true };
        let ghost rv = row@;
        self.rows.push(row);
        assert(rv.key =~= Seq::<char>::empty());
        assert(rv.value =~= Seq::<char>::empty());
        assert(self.rows.deep_view() =~= before.push(rv));
        self.table.selected = self.rows.len() - 1;
        self.table.field = KeyValueField::Name;
        self.table.editor = Some(EditInput::new(String::new()));
    }

    pub fn remove_row(&mut self, index: usize)
        requires
            old(self).wf(),
        ensures
            final(self).wf(),
            final(self).pv() == params_remove(old(self).pv(), index),
            final(self).request_id == old(self).request_id,
    {
        if index >= self.rows.len() {
            return;
        }
        self.table.editor = None;
        let ghost before = self.rows.deep_view();
        self.rows.remove(index);
        assert(self.rows.deep_view() =~= before.remove(index as int));
        let n = self.rows.len();
        self.table.selected = if index < n {
            index
        } else if n > 0 {
            n - 1
        } else {
            0
        };
    }

    /// Carries out a key: `table` and `edit` are what it means in the table and in an input;
    /// `typed` is the character it types, if any.
    pub fn handle_key(&mut self, table: Option<DialogCommand>, edit: Option<EditCommand>, typed: Option<char>) -> (r: DialogAction)
        requires
            old(self).wf(),
        ensures
            final(self).wf(),
            (final(self).pv(), r) == params_handle(old(self).pv(), table, edit, typed),
            final(self).request_id == old(self).request_id,
    {
        if self.table.editor.is_some() {
            let mut editor = self.table.editor.take().unwrap();
            let action = editor.handle_command(edit, typed);
            return match action {
                EditAction::Continue => {
                    self.table.editor = Some(editor);
                    DialogAction::Idle
                },
                EditAction::Confirm => {
                    self.table.editor = Some(editor);
                    self.commit_editor();
                    DialogAction::Changed
                },
                EditAction::Cancel => DialogAction::Idle,
            };
        }
        self.handle_table(table)
    }

    fn handle_table(&mut self, table: Option<DialogCommand>) -> (r: DialogAction)
        requires
            old(self).wf(),
            old(self).table.editor is None,
        ensures
            final(self).wf(),
            (final(self).pv(), r) == params_handle(old(self).pv(), table, None, None),
            final(self).request_id == old(self).request_id,
    {
        match table {
            Some(DialogCommand::Back) => DialogAction::Cancel,
            Some(DialogCommand::Up) => {
                self.table.selected = move_index(self.table.selected, -1, self.rows.len());
                DialogAction::Idle
            },
            Some(DialogCommand::Down) => {
                self.table.selected = move_index(self.table.selected, 1, self.rows.len());
                DialogAction::Idle
            },
            Some(DialogCommand::Left) => {
                self.table.field = KeyValueField::Name;
                DialogAction::Idle
            },
            Some(DialogCommand::Right) => {
                self.table.field = KeyValueField::Value;
                DialogAction::Idle
            },
            Some(DialogCommand::Delete) => DialogAction::RemoveRow { tab: PreviewTab::Params, index: self.table.selected },
            Some(DialogCommand::Activate) => {
                let k = self.table.selected;
                if k < self.rows.len() {
                    assert(self.rows.deep_view()[k as int] == self.rows@[k as int]@);
                    let text = match self.table.field {
                        KeyValueField::Name => &self.rows[k].key,
                        KeyValueField::Value => &self.rows[k].value,
                    };
                    self.table.editor = Some(opened(text));
                }
                DialogAction::Idle
            },
            Some(DialogCommand::Add) => {
                self.add_row();
                DialogAction::Idle
            },
            _ => DialogAction::Idle,
        }
    }
}

fn clone_row(row: &ParamsDialogRow) -> (r: ParamsDialogRow)
    ensures
        r@ == row@,
{
    ParamsDialogRow {
        source: row.source,
        key: row.key.clone(),
        value: row.value.clone(),
        part_type: row.part_type,
        has_equals: row.has_equals,
    }
}


/// A click on the cell of row `index` in column `field`: it selects the cell; with `edit` it
/// opens an input on the cell's text unless one is open on that very cell and the click
/// gives a column, and it puts the cursor on that column.
pub open spec fn spec_click(
    selected: usize,
    current_field: KeyValueField,
    editor: Option<EditView>,
    len: nat,
    index: usize,
    field: KeyValueField,
    edit: bool,
    cursor: Option<usize>,
    text: Seq<char>,
) -> (usize, KeyValueField, Option<EditView>) {
    if index >= len {
        (selected, current_field, editor)
    } else if !edit {
        (index, field, editor)
    } else {
        let same_cell = selected == index && current_field == field;
        let e = if cursor is None || !same_cell || editor is None {
            opened_on(text)
        } else {
            editor->0
        };
        let placed = match cursor {
            Some(column) => EditView {
                cursor: crate::editor::spec_text_position(e.value, 0, column as nat) as nat,
                mode: crate::editor::EditMode::Insert,
                ..e
            },
            None => e,
        };
        (index, field, Some(placed))
    }
}

fn click_table(table: &mut InlineTable, len: usize, index: usize, field: KeyValueField, edit: bool, cursor: Option<usize>, text: &String)
    requires
        old(table).wf(),
    ensures
        final(table).wf(),
        (final(table).selected, final(table).field, match &final(table).editor {
            Some(e) => Some(e@),
            None => None,
        }) == spec_click(
            old(table).selected,
            old(table).field,
            match &old(table).editor {
                Some(e) => Some(e@),
                None => None,
            },
            len as nat,
            index,
            field,
            edit,
            cursor,
            text@,
        ),
{
    if index >= len {
        return;
    }
    let same_cell = table.selected == index && table.field == field;
    table.selected = index;
    table.field = field;
    if !edit {
        return;
    }
    if cursor.is_none() || !same_cell || table.editor.is_none() {
        table.editor = Some(opened(text));
    }
    if let Some(column) = cursor {
        let mut e = table.editor.take().unwrap();
        e.place_cursor(column);
        table.editor = Some(e);
    }
}

impl HeadersDialog {
    pub fn click_cell(&mut self, index: usize, field: KeyValueField, edit: bool, cursor: Option<usize>)
        requires
            old(self).wf(),
        ensures
            final(self).wf(),
            final(self).rows@ == old(self).rows@,
            final(self).preset_selection == old(self).preset_selection,
            (final(self).hv().selected, final(self).hv().field, final(self).hv().editor) == spec_click(
                old(self).hv().selected,
                old(self).hv().field,
                old(self).hv().editor,
                old(self).rows@.len(),
                index,
                field,
                edit,
                cursor,
                if index < old(self).rows@.len() {
                    header_column(old(self).hv().rows[index as int], field)
                } else {
                    Seq::empty()
                },
            ),
    {
        let empty = String::new();
        let text = if index < self.rows.len() {
            assert(self.rows.deep_view()[index as int] == self.rows@[index as int]@);
            match field {
                KeyValueField::Name => &self.rows[index].name,
                KeyValueField::Value => &self.rows[index].value,
            }
        } else {
            &empty
        };
        let len = self.rows.len();
        click_table(&mut self.table, len, index, field, edit, cursor, text);
    }
}

impl ParamsDialog {
    pub fn click_cell(&mut self, index: usize, field: KeyValueField, edit: bool, cursor: Option<usize>)
        requires
            old(self).wf(),
        ensures
            final(self).wf(),
            final(self).rows@ == old(self).rows@,
            (final(self).pv().selected, final(self).pv().field, final(self).pv().editor) == spec_click(
                old(self).pv().selected,
                old(self).pv().field,
                old(self).pv().editor,
                old(self).rows@.len(),
                index,
                field,
                edit,
                cursor,
                if index < old(self).rows@.len() {
                    param_column(old(self).pv().rows[index as int], field)
                } else {
                    Seq::empty()
                },
            ),
    {
        let empty = String::new();
        let text = if index < self.rows.len() {
            assert(self.rows.deep_view()[index as int] == self.rows@[index as int]@);
            match field {
                KeyValueField::Name => &self.rows[index].key,
                KeyValueField::Value => &self.rows[index].value,
            }
        } else {
            &empty
        };
        let len = self.rows.len();
        click_table(&mut self.table, len, index, field, edit, cursor, text);
    }
}

/// An open dialog over the request preview.
pub enum Dialog {
    Headers(HeadersDialog),
    Params(ParamsDialog),
}

impl Dialog {
    pub open spec fn wf(&self) -> bool {
        match self {
            Dialog::Headers(d) => d.wf(),
            Dialog::Params(d) => d.wf(),
        }
    }

    pub fn preview_tab(&self) -> (r: PreviewTab)
        ensures
            r == (match self {
                Dialog::Headers(_) => PreviewTab::Headers,
                Dialog::Params(_) => PreviewTab::Params,
            }),
    {
        match self {
            Dialog::Headers(_) => PreviewTab::Headers,
            Dialog::Params(_) => PreviewTab::Params,
        }
    }

    pub fn table_row_count(&self) -> (r: usize)
        ensures
            r == (match self {
                Dialog::Headers(d) => d.rows@.len(),
                Dialog::Params(d) => d.rows@.len(),
            }),
    {
        match self {
            Dialog::Headers(d) => d.rows.len(),
            Dialog::Params(d) => d.rows.len(),
        }
    }

    /// Closes any open input, and the preset menu of the headers dialog.
    pub fn cancel_editor(&mut self)
        requires
            old(self).wf(),
        ensures
            final(self).wf(),
            match (*old(self), *final(self)) {
                (Dialog::Headers(a), Dialog::Headers(b)) => b.hv() == (HeadersView {
                    editor: None,
                    preset: None,
                    ..a.hv()
                }) && b.request_id == a.request_id,
                (Dialog::Params(a), Dialog::Params(b)) => b.pv() == (ParamsView { editor: None, ..a.pv() })
                    && b.request_id == a.request_id,
                _ => false,
            },
    {
        match self {
            Dialog::Headers(d) => {
                d.preset_selection = None;
                d.table.editor = None;
            },
            Dialog::Params(d) => {
                d.table.editor = None;
            },
        }
    }

    pub fn is_editing(&self) -> (r: bool)
        ensures
            r == (match self {
                Dialog::Headers(d) => d.table.editor is Some,
                Dialog::Params(d) => d.table.editor is Some,
            }),
    {
        match self {
            Dialog::Headers(d) => d.table.editor.is_some(),
            Dialog::Params(d) => d.table.editor.is_some(),
        }
    }
}

} // verus!
