//! The page that imports a request from a curl command: its text fields, its focus and
//! the progress of an import that runs elsewhere.
use vstd::prelude::*;
use crate::curl_import::CurlImportFocus;
use crate::editor::{spec_text_position, text_position};
use crate::text::{chars_of, copy_str, string_of, trim, trim_str};

verus! {

/// A one-field text input: the text and a cursor counted in characters.
pub struct CurlImportField {
    value: Vec<char>,
    cursor: usize,
}

pub struct FieldView {
    pub value: Seq<char>,
    pub cursor: int,
}

/// An edit of the focused field.
pub enum FieldEdit {
    Insert(String),
    Backspace,
    Delete,
    Clear,
    MoveLeft,
    MoveRight,
}

pub enum FieldEditView {
    Insert(Seq<char>),
    Backspace,
    Delete,
    Clear,
    MoveLeft,
    MoveRight,
}

impl View for FieldEdit {
    type V = FieldEditView;

    open spec fn view(&self) -> FieldEditView {
        match self {
            FieldEdit::Insert(s) => FieldEditView::Insert(s@),
            FieldEdit::Backspace => FieldEditView::Backspace,
            FieldEdit::Delete => FieldEditView::Delete,
            FieldEdit::Clear => FieldEditView::Clear,
            FieldEdit::MoveLeft => FieldEditView::MoveLeft,
            FieldEdit::MoveRight => FieldEditView::MoveRight,
        }
    }
}

/// What an edit makes of a field: text goes in at the cursor, which ends after it;
/// backspace and delete take the character before or at the cursor; the arrows move the
/// cursor by one character within the text; clear empties the field.
pub open spec fn spec_edit(f: FieldView, e: FieldEditView) -> FieldView {
    match e {
        FieldEditView::Insert(s) => FieldView {
            value: f.value.take(f.cursor) + s + f.value.skip(f.cursor),
            cursor: f.cursor + s.len(),
        },
        FieldEditView::Backspace => if f.cursor == 0 {
            f
        } else {
            FieldView { value: f.value.remove(f.cursor - 1), cursor: f.cursor - 1 }
        },
        FieldEditView::Delete => if f.cursor >= f.value.len() {
            f
        } else {
            FieldView { value: f.value.remove(f.cursor), cursor: f.cursor }
        },
        FieldEditView::Clear => FieldView { value: Seq::empty(), cursor: 0 },
        FieldEditView::MoveLeft => if f.cursor == 0 {
            f
        } else {
            FieldView { value: f.value, cursor: f.cursor - 1 }
        },
        FieldEditView::MoveRight => if f.cursor >= f.value.len() {
            f
        } else {
            FieldView { value: f.value, cursor: f.cursor + 1 }
        },
    }
}

impl View for CurlImportField {
    type V = FieldView;

    closed spec fn view(&self) -> FieldView {
        FieldView { value: self.value@, cursor: self.cursor as int }
    }
}

impl CurlImportField {
    pub closed spec fn wf(&self) -> bool {
        self.cursor <= self.value@.len()
    }

    pub fn new() -> (r: CurlImportField)
        ensures
            r.wf(),
            r@.value == Seq::<char>::empty(),
            r@.cursor == 0,
    {
        CurlImportField { value: Vec::new(), cursor: 0 }
    }

    pub fn value(&self) -> (r: String)
        ensures
            r@ == self@.value,
    {
        string_of(self.value.as_slice())
    }

    pub fn cursor(&self) -> (r: usize)
        requires
            self.wf(),
        ensures
            r == self@.cursor,
            r <= self@.value.len(),
    {
        self.cursor
    }

    /// Puts the cursor at a line and column of the text, as a click places it.
    pub fn place_cursor(&mut self, line: usize, column: usize)
        requires
            old(self).wf(),
        ensures
            final(self).wf(),
            final(self)@.value == old(self)@.value,
            final(self)@.cursor == spec_text_position(old(self)@.value, line as nat, column as nat),
    {
        self.cursor = text_position(&self.value, line, column);
    }

    /// Applies an edit; an insertion that could not be held is left out.
    pub fn edit(&mut self, e: FieldEdit)
        requires
            old(self).wf(),
        ensures
            final(self).wf(),
            !(e@ matches FieldEditView::Insert(s) && old(self)@.value.len() + s.len() > usize::MAX)
                ==> final(self)@ == spec_edit(old(self)@, e@),
    {
        let ghost before = self@;
        match e {
            FieldEdit::Insert(s) => {
                let t = chars_of(s.as_str());
                if t.len() > usize::MAX - self.value.len() {
                    return;
                }
                let mut out: Vec<char> = Vec::new();
                let mut i: usize = 0;
                while i < self.cursor
                    invariant
                        i <= self.cursor <= self.value@.len(),
                        out@ == self.value@.take(i as int),
                    decreases self.cursor - i,
                {
                    out.push(self.value[i]);
                    i = i + 1;
                    proof {
                        assert(self.value@.take(i as int) =~= self.value@.take(i - 1).push(
                            self.value@[i - 1],
                        ));
                    }
                }
                let mut j: usize = 0;
                while j < t.len()
                    invariant
                        j <= t@.len(),
                        out@ == self.value@.take(self.cursor as int) + t@.take(j as int),
                    decreases t@.len() - j,
                {
                    out.push(t[j]);
                    j = j + 1;
                    proof {
                        assert(t@.take(j as int) =~= t@.take(j - 1).push(t@[j - 1]));
                    }
                }
                let mut k: usize = self.cursor;
                while k < self.value.len()
                    invariant
                        self.cursor <= k <= self.value@.len(),
                        out@ == self.value@.take(self.cursor as int) + t@ + self.value@.subrange(
                            self.cursor as int,
                            k as int,
                        ),
                    decreases self.value@.len() - k,
                {
                    proof {
                        assert(t@.take(t@.len() as int) =~= t@);
                    }
                    out.push(self.value[k]);
                    k = k + 1;
                    proof {
                        assert(self.value@.subrange(self.cursor as int, k as int) =~= self.value@.subrange(
                            self.cursor as int,
                            k - 1,
                        ).push(self.value@[k - 1]));
                    }
                }
                proof {
                    assert(t@.take(t@.len() as int) =~= t@);
                    assert(self.value@.subrange(self.cursor as int, self.value@.len() as int)
                        =~= self.value@.skip(self.cursor as int));
                }
                self.cursor = self.cursor + t.len();
                self.value = out;
            },
            FieldEdit::Backspace => {
                if self.cursor > 0 {
                    self.value.remove(self.cursor - 1);
                    self.cursor = self.cursor - 1;
                }
            },
            FieldEdit::Delete => {
                if self.cursor < self.value.len() {
                    self.value.remove(self.cursor);
                }
            },
            FieldEdit::Clear => {
                self.value = Vec::new();
                self.cursor = 0;
            },
            FieldEdit::MoveLeft => {
                if self.cursor > 0 {
                    self.cursor = self.cursor - 1;
                }
            },
            FieldEdit::MoveRight => {
                if self.cursor < self.value.len() {
                    self.cursor = self.cursor + 1;
                }
            },
        }
    }
}

/// How far an import has come.
#[derive(Clone, Copy, PartialEq, Eq, Structural)]
pub enum ImportStage {
    Parsing,
    Saving,
}

/// The import: none running, one running at a stage, or one that failed with a message.
pub enum CurlImportState {
    Idle,
    Running(ImportStage),
    Failed(String),
}

/// What the running import reported, as the page's owner hands it over: nothing yet, that
/// its worker is gone, that the command was read, or that it finished.
pub enum ImportEvent {
    Empty,
    Disconnected,
    Parsed,
    Finished(Result<(), String>),
}

/// What a poll came to for the page's owner.
#[derive(PartialEq, Eq, Structural, Debug)]
pub enum ImportPoll {
    Pending,
    Changed,
    Complete,
}

/// What the page shows of the import: its stage while it runs, or the failure.
pub enum ImportStatus<'a> {
    Parsing,
    Saving,
    Failed(&'a str),
}

/// The page: four text fields, the focus and the import's state.
pub struct CurlImportPage {
    pub name: CurlImportField,
    pub description: CurlImportField,
    pub registered_variables: CurlImportField,
    pub command: CurlImportField,
    pub focus: CurlImportFocus,
    pub state: CurlImportState,
}

/// The field that a focus edits; the workspace entry has none.
pub open spec fn field_at(p: CurlImportPage, focus: CurlImportFocus) -> Option<FieldView> {
    match focus {
        CurlImportFocus::Name => Some(p.name@),
        CurlImportFocus::Description => Some(p.description@),
        CurlImportFocus::RegisteredVariables => Some(p.registered_variables@),
        CurlImportFocus::Command => Some(p.command@),
        CurlImportFocus::Workspace => None,
    }
}

/// The fields that an import takes, or the field that stops it: the name and the command
/// must hold more than white space.
pub open spec fn spec_import_fields(name: Seq<char>, description: Seq<char>, command: Seq<char>) -> Result<
    (Seq<char>, Seq<char>, Seq<char>),
    CurlImportFocus,
> {
    if trim(name).len() == 0 {
        Err(CurlImportFocus::Name)
    } else if trim(command).len() == 0 {
        Err(CurlImportFocus::Command)
    } else {
        Ok((trim(name), trim(description), command))
    }
}

impl CurlImportPage {
    pub open spec fn wf(&self) -> bool {
        &&& self.name.wf()
        &&& self.description.wf()
        &&& self.registered_variables.wf()
        &&& self.command.wf()
    }

    pub open spec fn running(&self) -> bool {
        self.state is Running
    }

    /// A fresh page: empty fields, the name focused, no import.
    pub fn new() -> (r: CurlImportPage)
        ensures
            r.wf(),
            r.focus == CurlImportFocus::Name,
            r.state is Idle,
            r.name@.value.len() == 0 && r.description@.value.len() == 0,
            r.registered_variables@.value.len() == 0 && r.command@.value.len() == 0,
    {
        CurlImportPage {
            name: CurlImportField::new(),
            description: CurlImportField::new(),
            registered_variables: CurlImportField::new(),
            command: CurlImportField::new(),
            focus: CurlImportFocus::Name,
            state: CurlImportState::Idle,
        }
    }

    pub fn command(&self) -> (r: String)
        ensures
            r@ == self.command@.value,
    {
        self.command.value()
    }

    pub fn focused(&self, focus: CurlImportFocus) -> (r: bool)
        ensures
            r == (self.focus == focus),
    {
        self.focus == focus
    }

    pub fn is_running(&self) -> (r: bool)
        ensures
            r == self.running(),
    {
        match self.state {
            CurlImportState::Running(_) => true,
            _ => false,
        }
    }

    pub fn status(&self) -> (r: Option<ImportStatus<'_>>)
        ensures
            match self.state {
                CurlImportState::Idle => r is None,
                CurlImportState::Running(ImportStage::Parsing) => r matches Some(ImportStatus::Parsing),
                CurlImportState::Running(ImportStage::Saving) => r matches Some(ImportStatus::Saving),
                CurlImportState::Failed(m) => r matches Some(ImportStatus::Failed(e)) && e@ == m@,
            },
    {
        match &self.state {
            CurlImportState::Idle => None,
            CurlImportState::Running(ImportStage::Parsing) => Some(ImportStatus::Parsing),
            CurlImportState::Running(ImportStage::Saving) => Some(ImportStatus::Saving),
            CurlImportState::Failed(m) => Some(ImportStatus::Failed(m.as_str())),
        }
    }

    /// The text of the field at a focus; empty for the workspace entry.
    pub fn field_value(&self, focus: CurlImportFocus) -> (r: String)
        ensures
            r@ == match field_at(*self, focus) {
                Some(f) => f.value,
                None => Seq::empty(),
            },
    {
        match focus {
            CurlImportFocus::Name => self.name.value(),
            CurlImportFocus::Description => self.description.value(),
            CurlImportFocus::RegisteredVariables => self.registered_variables.value(),
            CurlImportFocus::Command => self.command.value(),
            CurlImportFocus::Workspace => String::new(),
        }
    }

    /// The cursor of the field at a focus; zero for the workspace entry.
    pub fn cursor(&self, focus: CurlImportFocus) -> (r: usize)
        requires
            self.wf(),
        ensures
            r == match field_at(*self, focus) {
                Some(f) => f.cursor,
                None => 0,
            },
    {
        match focus {
            CurlImportFocus::Name => self.name.cursor(),
            CurlImportFocus::Description => self.description.cursor(),
            CurlImportFocus::RegisteredVariables => self.registered_variables.cursor(),
            CurlImportFocus::Command => self.command.cursor(),
            CurlImportFocus::Workspace => 0,
        }
    }

    /// Applies an edit to the focused field; the workspace entry takes none.
    pub fn edit_active_field(&mut self, e: FieldEdit)
        requires
            old(self).wf(),
        ensures
            final(self).wf(),
            final(self).focus == old(self).focus,
            final(self).state == old(self).state,
            forall|f: CurlImportFocus| f != old(self).focus ==> field_at(*final(self), f) == field_at(*old(self), f),
            (match field_at(*old(self), old(self).focus) {
                Some(before) => !(e@ matches FieldEditView::Insert(s) && before.value.len() + s.len()
                    > usize::MAX) ==> field_at(*final(self), old(self).focus) == Some(spec_edit(before, e@)),
                None => true,
            }),
    {
        match self.focus {
            CurlImportFocus::Name => self.name.edit(e),
            CurlImportFocus::Description => self.description.edit(e),
            CurlImportFocus::RegisteredVariables => self.registered_variables.edit(e),
            CurlImportFocus::Command => self.command.edit(e),
            CurlImportFocus::Workspace => {},
        }
    }

    /// Focuses a field and places its cursor at a line and column.
    pub fn place_cursor(&mut self, focus: CurlImportFocus, line: usize, column: usize)
        requires
            old(self).wf(),
        ensures
            final(self).wf(),
            final(self).focus == focus,
            final(self).state == old(self).state,
            forall|f: CurlImportFocus| f != focus ==> field_at(*final(self), f) == field_at(*old(self), f),
            (match field_at(*old(self), focus) {
                Some(before) => field_at(*final(self), focus) == Some(FieldView {
                    value: before.value,
                    cursor: spec_text_position(before.value, line as nat, column as nat),
                }),
                None => true,
            }),
    {
        self.focus = focus;
        match focus {
            CurlImportFocus::Name => self.name.place_cursor(line, column),
            CurlImportFocus::Description => self.description.place_cursor(line, column),
            CurlImportFocus::RegisteredVariables => self.registered_variables.place_cursor(line, column),
            CurlImportFocus::Command => self.command.place_cursor(line, column),
            CurlImportFocus::Workspace => {},
        }
    }

    /// The name, description and command to import, trimmed but for the command; `None`
    /// while an import runs, or when the name or the command is blank, which then takes
    /// the focus.
    pub fn import_fields(&mut self) -> (r: Option<(String, String, String)>)
        requires
            old(self).wf(),
        ensures
            final(self).wf(),
            final(self).state == old(self).state,
            forall|f: CurlImportFocus| field_at(*final(self), f) == field_at(*old(self), f),
            old(self).running() ==> r is None && final(self).focus == old(self).focus,
            !old(self).running() ==> match spec_import_fields(
                old(self).name@.value,
                old(self).description@.value,
                old(self).command@.value,
            ) {
                Ok((n, d, c)) => r matches Some((rn, rd, rc)) && rn@ == n && rd@ == d && rc@ == c
                    && final(self).focus == old(self).focus,
                Err(focus) => r is None && final(self).focus == focus,
            },
    {
        if self.is_running() {
            return None;
        }
        let name = trim_str(self.name.value().as_str());
        if name.as_str().is_empty() {
            self.focus = CurlImportFocus::Name;
            return None;
        }
        let command = self.command.value();
        if trim_str(command.as_str()).as_str().is_empty() {
            self.focus = CurlImportFocus::Command;
            return None;
        }
        let description = trim_str(self.description.value().as_str());
        Some((name, description, command))
    }

    /// Editing after a failure clears the failure.
    pub fn mark_editing(&mut self)
        requires
            old(self).wf(),
        ensures
            final(self).wf(),
            final(self).focus == old(self).focus,
            forall|f: CurlImportFocus| field_at(*final(self), f) == field_at(*old(self), f),
            old(self).state is Failed ==> final(self).state is Idle,
            !(old(self).state is Failed) ==> final(self).state == old(self).state,
    {
        if let CurlImportState::Failed(_) = self.state {
            self.state = CurlImportState::Idle;
        }
    }

    /// An import starts, reading the command first.
    pub fn start_import(&mut self)
        requires
            old(self).wf(),
        ensures
            final(self).wf(),
            final(self).focus == old(self).focus,
            forall|f: CurlImportFocus| field_at(*final(self), f) == field_at(*old(self), f),
            final(self).state == CurlImportState::Running(ImportStage::Parsing),
    {
        self.state = CurlImportState::Running(ImportStage::Parsing);
    }

    /// An import cannot start: the failure shows and the focus goes to the field at fault.
    pub fn fail(&mut self, message: String, focus: CurlImportFocus)
        requires
            old(self).wf(),
        ensures
            final(self).wf(),
            final(self).focus == focus,
            forall|f: CurlImportFocus| field_at(*final(self), f) == field_at(*old(self), f),
            final(self).state == CurlImportState::Failed(message),
    {
        self.state = CurlImportState::Failed(message);
        self.focus = focus;
    }

    /// Takes what the running import reported. Without a running import, or without news,
    /// nothing changes. A lost worker fails with `stopped`; a read command moves on to
    /// saving; a finished import completes, or fails with its error; each failure focuses
    /// the command.
    pub fn poll_import(&mut self, event: ImportEvent, stopped: &str) -> (r: ImportPoll)
        requires
            old(self).wf(),
        ensures
            final(self).wf(),
            forall|f: CurlImportFocus| field_at(*final(self), f) == field_at(*old(self), f),
            !old(self).running() || event is Empty ==> r == ImportPoll::Pending && final(self).state
                == old(self).state && final(self).focus == old(self).focus,
            old(self).running() ==> match event {
                ImportEvent::Empty => true,
                ImportEvent::Disconnected => r == ImportPoll::Changed && (final(self).state matches CurlImportState::Failed(m) && m@ == stopped@)
                    && final(self).focus == CurlImportFocus::Command,
                ImportEvent::Parsed => r == ImportPoll::Changed && final(self).state == CurlImportState::Running(
                    ImportStage::Saving,
                ) && final(self).focus == old(self).focus,
                ImportEvent::Finished(Ok(())) => r == ImportPoll::Complete && final(self).state == old(self).state
                    && final(self).focus == old(self).focus,
                ImportEvent::Finished(Err(e)) => r == ImportPoll::Changed && final(self).state == CurlImportState::Failed(e)
                    && final(self).focus == CurlImportFocus::Command,
            },
    {
        if !self.is_running() {
            return ImportPoll::Pending;
        }
        match event {
            ImportEvent::Empty => ImportPoll::Pending,
            ImportEvent::Disconnected => {
                self.state = CurlImportState::Failed(copy_str(stopped));
                self.focus = CurlImportFocus::Command;
                ImportPoll::Changed
            },
            ImportEvent::Parsed => {
                self.state = CurlImportState::Running(ImportStage::Saving);
                ImportPoll::Changed
            },
            ImportEvent::Finished(Ok(())) => ImportPoll::Complete,
            ImportEvent::Finished(Err(e)) => {
                self.state = CurlImportState::Failed(e);
                self.focus = CurlImportFocus::Command;
                ImportPoll::Changed
            },
        }
    }
}

/// Typing text into a field and deleting it again with as many backspaces restores the
/// field.
pub proof fn law_insert_then_backspace(f: FieldView, c: char)
    requires
        0 <= f.cursor <= f.value.len(),
    ensures
        spec_edit(spec_edit(f, FieldEditView::Insert(seq![c])), FieldEditView::Backspace) == f,
{
    let g = spec_edit(f, FieldEditView::Insert(seq![c]));
    assert(g.value.remove(g.cursor - 1) =~= f.value);
}

} // verus!
