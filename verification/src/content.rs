//! The content tab of the request preview: where its editable values sit, and the editor
//! opened on one of them.
use vstd::prelude::*;
use crate::config::ApiRequest;
use crate::dialog::PreviewTab;
use crate::editor::{display_width, terminal_width, EditInput, EditMode};
use crate::text::{chars_of, copy_str, string_of};
use crate::view::ScrollState;

verus! {

/// The columns between a name and its value on a content line.
pub const VALUE_GAP: usize = 2;

/// Where an editable value of the content tab comes from.
#[derive(Clone, Copy, PartialEq, Eq, Structural, Debug)]
pub enum ContentFieldSource {
    Body,
    Form(usize),
    File(usize),
}

/// An editable value: its content line, the column where it starts, and its source.
#[derive(Clone, Copy, PartialEq, Eq, Structural, Debug)]
pub struct ContentField {
    pub line: usize,
    pub column: usize,
    pub source: ContentFieldSource,
}

/// The column where a value starts after a name of width `w`.
pub open spec fn value_column(w: nat) -> usize {
    if w + VALUE_GAP <= usize::MAX {
        (w + VALUE_GAP) as usize
    } else {
        usize::MAX
    }
}

/// The fields of a list of names starting at `line`, one line each.
pub open spec fn fields_of(names: Seq<Seq<char>>, line: int, file: bool) -> Seq<ContentField>
    decreases names.len(),
{
    if names.len() == 0 {
        Seq::empty()
    } else {
        let k = (names.len() - 1) as usize;
        fields_of(names.drop_last(), line, file).push(
            ContentField {
                line: (line + k) as usize,
                column: value_column(display_width(names.last())),
                source: if file {
                    ContentFieldSource::File(k)
                } else {
                    ContentFieldSource::Form(k)
                },
            },
        )
    }
}

/// The form fields and the files of the content tab: the form under its heading line,
/// then, after a blank line when the form showed, the files under theirs.
pub open spec fn spec_content_value_fields(form: Seq<Seq<char>>, files: Seq<Seq<char>>) -> Seq<
    ContentField,
> {
    let form_fields = if form.len() == 0 {
        Seq::empty()
    } else {
        fields_of(form, 1, false)
    };
    let after_form: int = if form.len() == 0 {
        0
    } else {
        1 + form.len() as int
    };
    let files_fields = if files.len() == 0 {
        Seq::empty()
    } else {
        fields_of(files, after_form + if form.len() == 0 {
            1int
        } else {
            2int
        }, true)
    };
    form_fields + files_fields
}

pub open spec fn form_names(r: ApiRequest) -> Seq<Seq<char>> {
    r.form@.map_values(|p: crate::config::RequestParam| p.name@)
}

pub open spec fn file_fields(r: ApiRequest) -> Seq<Seq<char>> {
    r.files@.map_values(|f: crate::config::FileUpload| f.field@)
}

fn push_fields(
    out: &mut Vec<ContentField>,
    names: &Vec<String>,
    line: usize,
    file: bool,
)
    requires
        line + names@.len() <= usize::MAX,
    ensures
        final(out)@ == old(out)@ + fields_of(names@.map_values(|s: String| s@), line as int, file),
{
    let ghost ns = names@.map_values(|s: String| s@);
    let mut i: usize = 0;
    while i < names.len()
        invariant
            i <= names@.len(),
            line + names@.len() <= usize::MAX,
            ns == names@.map_values(|s: String| s@),
            out@ == old(out)@ + fields_of(ns.take(i as int), line as int, file),
        decreases names@.len() - i,
    {
        let w = terminal_width(names[i].as_str());
        let column = w.saturating_add(VALUE_GAP);
        let source = if file {
            ContentFieldSource::File(i)
        } else {
            ContentFieldSource::Form(i)
        };
        out.push(ContentField { line: line + i, column, source });
        proof {
            assert(ns.take(i + 1).drop_last() =~= ns.take(i as int));
            assert(ns.take(i + 1).last() == names@[i as int]@);
        }
        i = i + 1;
    }
    proof {
        assert(ns.take(names@.len() as int) =~= ns);
    }
}

/// Where the form fields and the files of a request sit in the content tab.
pub fn content_value_fields(request: &ApiRequest) -> (r: Vec<ContentField>)
    requires
        request.form@.len() + request.files@.len() + 3 <= usize::MAX,
    ensures
        r@ == spec_content_value_fields(form_names(*request), file_fields(*request)),
{
    let mut form: Vec<String> = Vec::new();
    let mut i: usize = 0;
    while i < request.form.len()
        invariant
            i <= request.form@.len(),
            form@.len() == i,
            forall|k: int| 0 <= k < i ==> #[trigger] form@[k]@ == request.form@[k].name@,
        decreases request.form@.len() - i,
    {
        form.push(copy_str(request.form[i].name.as_str()));
        i = i + 1;
    }
    let mut files: Vec<String> = Vec::new();
    let mut j: usize = 0;
    while j < request.files.len()
        invariant
            j <= request.files@.len(),
            files@.len() == j,
            forall|k: int| 0 <= k < j ==> #[trigger] files@[k]@ == request.files@[k].field@,
        decreases request.files@.len() - j,
    {
        files.push(copy_str(request.files[j].field.as_str()));
        j = j + 1;
    }
    proof {
        assert(form@.map_values(|s: String| s@) =~= form_names(*request));
        assert(files@.map_values(|s: String| s@) =~= file_fields(*request));
    }
    let mut out: Vec<ContentField> = Vec::new();
    let mut line: usize = 0;
    if form.len() > 0 {
        line = 1;
        push_fields(&mut out, &form, line, false);
        line = line + form.len();
    }
    if files.len() > 0 {
        line = line + if form.len() == 0 {
            1
        } else {
            2
        };
        push_fields(&mut out, &files, line, true);
    }
    proof {
        assert(out@ =~= spec_content_value_fields(form_names(*request), file_fields(*request)));
    }
    out
}

/// What the content editor edits: a value of the body's JSON (the rendered body and the
/// characters the value takes in it), or a form field or a file by index.
pub enum ContentTarget {
    Body { document: String, start: usize, end: usize },
    Form(usize),
    File(usize),
}

/// An editor over one value of the content tab, at the line and column where it shows.
pub struct ContentEditor {
    pub target: ContentTarget,
    pub line: usize,
    pub column: usize,
    pub input: EditInput,
}

/// The rendered body with the edited value in place of the old one.
pub open spec fn spliced(document: Seq<char>, start: int, end: int, value: Seq<char>) -> Seq<char> {
    document.take(start) + value + document.skip(end)
}

/// The columns that the editor takes: the value's width, at least one, and one more for
/// the insert cursor; no more than the largest `usize`.
pub open spec fn editor_width(value: Seq<char>, mode: EditMode) -> int {
    let w = (if display_width(value) >= 1 {
        display_width(value) as int
    } else {
        1
    }) + if mode == EditMode::Insert {
        1int
    } else {
        0
    };
    if w > usize::MAX {
        usize::MAX as int
    } else {
        w
    }
}

impl ContentEditor {
    /// The rendered body after the edit, when a body value is edited.
    pub fn display_document(&self) -> (r: Option<String>)
        requires
            self.target matches ContentTarget::Body { document, start, end } ==> start <= end
                <= document@.len(),
        ensures
            match self.target {
                ContentTarget::Body { document, start, end } => r matches Some(t) && t@ == spliced(
                    document@,
                    start as int,
                    end as int,
                    self.input@.value,
                ),
                _ => r is None,
            },
    {
        match &self.target {
            ContentTarget::Body { document, start, end } => {
                let d = chars_of(document.as_str());
                let v = chars_of(self.input.value().as_str());
                let mut out: Vec<char> = Vec::new();
                let mut i: usize = 0;
                while i < *start
                    invariant
                        i <= *start <= *end <= d@.len(),
                        out@ == d@.take(i as int),
                    decreases *start - i,
                {
                    out.push(d[i]);
                    i = i + 1;
                    proof {
                        assert(d@.take(i as int) =~= d@.take(i - 1).push(d@[i - 1]));
                    }
                }
                let mut j: usize = 0;
                while j < v.len()
                    invariant
                        j <= v@.len(),
                        out@ == d@.take(*start as int) + v@.take(j as int),
                    decreases v@.len() - j,
                {
                    out.push(v[j]);
                    j = j + 1;
                    proof {
                        assert(v@.take(j as int) =~= v@.take(j - 1).push(v@[j - 1]));
                    }
                }
                proof {
                    assert(v@.take(v@.len() as int) =~= v@);
                }
                let mut k: usize = *end;
                while k < d.len()
                    invariant
                        *end <= k <= d@.len(),
                        out@ == d@.take(*start as int) + v@ + d@.subrange(*end as int, k as int),
                    decreases d@.len() - k,
                {
                    out.push(d[k]);
                    k = k + 1;
                    proof {
                        assert(d@.subrange(*end as int, k as int) =~= d@.subrange(*end as int, k - 1).push(
                            d@[k - 1],
                        ));
                    }
                }
                proof {
                    assert(d@.subrange(*end as int, d@.len() as int) =~= d@.skip(*end as int));
                }
                Some(string_of(out.as_slice()))
            },
            _ => None,
        }
    }

    /// The columns that the value and the cursor mark take.
    pub fn display_width(&self) -> (r: usize)
        ensures
            r == editor_width(self.input@.value, self.input@.mode),
    {
        let w = terminal_width(self.input.value().as_str());
        let w = if w >= 1 {
            w
        } else {
            1
        };
        match self.input.mode() {
            EditMode::Insert => w.saturating_add(1),
            EditMode::Replace => w,
        }
    }

    /// Whether a click at a line and column falls on the edited value: on its line, from
    /// its column on; a body value ends with its width, other values reach the line's end.
    pub fn covers(&self, line: usize, column: usize) -> (r: bool)
        ensures
            r == (self.line == line && column >= self.column && match self.target {
                ContentTarget::Body { .. } => column < if self.column + editor_width(
                    self.input@.value,
                    self.input@.mode,
                ) > usize::MAX {
                    usize::MAX as int
                } else {
                    self.column + editor_width(self.input@.value, self.input@.mode)
                },
                _ => true,
            }),
    {
        if self.line != line || column < self.column {
            return false;
        }
        match self.target {
            ContentTarget::Body { .. } => column < self.column.saturating_add(self.display_width()),
            _ => true,
        }
    }
}

/// The state of the content tab: the tab shown, its scroll, the selected value and the
/// editor when one is open.
pub struct PreviewContentState {
    pub active_tab: PreviewTab,
    pub scroll: ScrollState,
    pub field_cursor: usize,
    pub editor: Option<ContentEditor>,
}

impl PreviewContentState {
    pub fn new() -> (r: PreviewContentState)
        ensures
            r.active_tab == PreviewTab::Body,
            r.scroll.offset == 0 && r.scroll.viewport == 0,
            r.field_cursor == 0,
            r.editor is None,
    {
        PreviewContentState {
            active_tab: PreviewTab::Body,
            scroll: ScrollState::new(),
            field_cursor: 0,
            editor: None,
        }
    }

    /// Back to the top of the content, on its first value.
    pub fn reset_content(&mut self)
        ensures
            final(self).scroll.offset == 0,
            final(self).scroll.viewport == old(self).scroll.viewport,
            final(self).field_cursor == 0,
            final(self).active_tab == old(self).active_tab,
            final(self).editor == old(self).editor,
    {
        self.scroll.reset();
        self.field_cursor = 0;
    }

    pub fn is_editing(&self) -> (r: bool)
        ensures
            r == (self.editor is Some),
    {
        self.editor.is_some()
    }

    pub fn cancel_editor(&mut self)
        ensures
            final(self).editor is None,
            final(self).active_tab == old(self).active_tab,
            final(self).scroll == old(self).scroll,
            final(self).field_cursor == old(self).field_cursor,
    {
        self.editor = None;
    }
}

} // verus!
