//! Diagnostics about a workspace's configuration: what failed, in which file and field.
use vstd::prelude::*;
use crate::request_curl::lines;
use crate::text::{
    contains, contains_str, copy_str, decimal, decimal_string, push_str, split, split_once,
    split_once_str, split_str, starts_with, starts_with_str, strip_prefix, strip_prefix_str,
    strip_suffix_str, trim, trim_str,
};

verus! {

/// What went wrong with a configuration file.
#[derive(Clone, Copy, PartialEq, Eq, Structural)]
pub enum DiagnosticKind {
    /// The file could not be read; `not_found` when it does not exist.
    Read { not_found: bool },
    /// The file is not valid YAML for what it should hold.
    Parse,
    /// The file holds a value that the workspace refuses.
    Invalid,
}

impl DiagnosticKind {
    pub open spec fn spec_code(self) -> Seq<char> {
        match self {
            DiagnosticKind::Read { .. } => "CONFIG_READ"@,
            DiagnosticKind::Parse => "CONFIG_PARSE"@,
            DiagnosticKind::Invalid => "CONFIG_INVALID"@,
        }
    }

    pub open spec fn spec_summary(self) -> Seq<char> {
        match self {
            DiagnosticKind::Read { .. } => "Could not read configuration"@,
            DiagnosticKind::Parse => "Invalid YAML"@,
            DiagnosticKind::Invalid => "Invalid configuration"@,
        }
    }

    pub fn code(self) -> (r: &'static str)
        ensures
            r@ == self.spec_code(),
    {
        match self {
            DiagnosticKind::Read { .. } => "CONFIG_READ",
            DiagnosticKind::Parse => "CONFIG_PARSE",
            DiagnosticKind::Invalid => "CONFIG_INVALID",
        }
    }

    pub fn summary(self) -> (r: &'static str)
        ensures
            r@ == self.spec_summary(),
    {
        match self {
            DiagnosticKind::Read { .. } => "Could not read configuration",
            DiagnosticKind::Parse => "Invalid YAML",
            DiagnosticKind::Invalid => "Invalid configuration",
        }
    }
}

/// A diagnostic as values.
pub struct DiagnosticView {
    pub kind: DiagnosticKind,
    pub path: Seq<char>,
    pub field: Seq<char>,
    pub location: Option<(u64, u64)>,
    pub detail: Seq<char>,
}

/// A problem with one configuration file: its kind, the file, the field, where in the
/// file when known, and what was wrong.
pub struct ConfigDiagnostic {
    kind: DiagnosticKind,
    path: String,
    field: String,
    location: Option<(u64, u64)>,
    detail: String,
}

impl View for ConfigDiagnostic {
    type V = DiagnosticView;

    closed spec fn view(&self) -> DiagnosticView {
        DiagnosticView {
            kind: self.kind,
            path: self.path@,
            field: self.field@,
            location: self.location,
            detail: self.detail@,
        }
    }
}

impl Clone for ConfigDiagnostic {
    fn clone(&self) -> (r: Self)
        ensures
            r@ == self@,
    {
        ConfigDiagnostic {
            kind: self.kind,
            path: self.path.clone(),
            field: self.field.clone(),
            location: self.location,
            detail: self.detail.clone(),
        }
    }
}

/// The text a diagnostic displays: a header line with its code and summary, then the
/// file, the field, the location when known and the detail, each on a line of its own.
pub open spec fn diagnostic_text(d: DiagnosticView) -> Seq<char> {
    "error["@ + d.kind.spec_code() + "]: "@ + d.kind.spec_summary() + "\n  file: "@ + d.path
        + "\n  field: "@ + d.field + "\n"@ + match d.location {
        Some((line, column)) => "  location: line "@ + decimal(line as nat) + ", column "@
            + decimal(column as nat) + "\n"@,
        None => Seq::empty(),
    } + "  detail: "@ + d.detail
}

impl ConfigDiagnostic {
    /// A file that could not be read; `detail` is what the reading error said.
    pub fn read(path: &str, not_found: bool, detail: String) -> (r: Self)
        ensures
            r@ == (DiagnosticView {
                kind: DiagnosticKind::Read { not_found },
                path: path@,
                field: "configuration file"@,
                location: None,
                detail: detail@,
            }),
    {
        ConfigDiagnostic {
            kind: DiagnosticKind::Read { not_found },
            path: copy_str(path),
            field: copy_str("configuration file"),
            location: None,
            detail,
        }
    }

    pub fn parse(path: &str, field: String, detail: String, location: Option<(u64, u64)>) -> (r: Self)
        ensures
            r@ == (DiagnosticView {
                kind: DiagnosticKind::Parse,
                path: path@,
                field: field@,
                location,
                detail: detail@,
            }),
    {
        ConfigDiagnostic { kind: DiagnosticKind::Parse, path: copy_str(path), field, location, detail }
    }

    pub fn invalid(path: &str, field: String, detail: String) -> (r: Self)
        ensures
            r@ == (DiagnosticView {
                kind: DiagnosticKind::Invalid,
                path: path@,
                field: field@,
                location: None,
                detail: detail@,
            }),
    {
        ConfigDiagnostic {
            kind: DiagnosticKind::Invalid,
            path: copy_str(path),
            field,
            location: None,
            detail,
        }
    }

    pub fn kind(&self) -> (r: DiagnosticKind)
        ensures
            r == self@.kind,
    {
        self.kind
    }

    pub fn path(&self) -> (r: &str)
        ensures
            r@ == self@.path,
    {
        self.path.as_str()
    }

    pub fn field(&self) -> (r: &str)
        ensures
            r@ == self@.field,
    {
        self.field.as_str()
    }

    pub fn location(&self) -> (r: Option<(u64, u64)>)
        ensures
            r == self@.location,
    {
        self.location
    }

    pub fn detail(&self) -> (r: &str)
        ensures
            r@ == self@.detail,
    {
        self.detail.as_str()
    }

    pub fn is_not_found(&self) -> (r: bool)
        ensures
            r == (self@.kind == DiagnosticKind::Read { not_found: true }),
    {
        match self.kind {
            DiagnosticKind::Read { not_found } => not_found,
            _ => false,
        }
    }

    /// The text the diagnostic displays.
    pub fn message(&self) -> (r: String)
        ensures
            r@ == diagnostic_text(self@),
    {
        let mut m = copy_str("error[");
        push_str(&mut m, self.kind.code());
        push_str(&mut m, "]: ");
        push_str(&mut m, self.kind.summary());
        push_str(&mut m, "\n  file: ");
        push_str(&mut m, self.path.as_str());
        push_str(&mut m, "\n  field: ");
        push_str(&mut m, self.field.as_str());
        push_str(&mut m, "\n");
        let ghost head = m@;
        match self.location {
            Some((line, column)) => {
                push_str(&mut m, "  location: line ");
                push_str(&mut m, decimal_string(line).as_str());
                push_str(&mut m, ", column ");
                push_str(&mut m, decimal_string(column).as_str());
                push_str(&mut m, "\n");
            },
            None => {},
        }
        push_str(&mut m, "  detail: ");
        push_str(&mut m, self.detail.as_str());
        assert(m@ =~= diagnostic_text(self@));
        m
    }
}

/// What loading a workspace can fail with: a diagnostic, or a message of no file.
pub enum LoadError {
    Config(ConfigDiagnostic),
    Other(String),
}

pub enum LoadErrorView {
    Config(DiagnosticView),
    Other(Seq<char>),
}

impl View for LoadError {
    type V = LoadErrorView;

    open spec fn view(&self) -> LoadErrorView {
        match self {
            LoadError::Config(d) => LoadErrorView::Config(d@),
            LoadError::Other(m) => LoadErrorView::Other(m@),
        }
    }
}

/// The text an error displays: a diagnostic's text, or the message.
pub open spec fn error_text(e: LoadErrorView) -> Seq<char> {
    match e {
        LoadErrorView::Config(d) => diagnostic_text(d),
        LoadErrorView::Other(m) => m,
    }
}

impl LoadError {
    pub fn text(&self) -> (r: String)
        ensures
            r@ == error_text(self@),
    {
        match self {
            LoadError::Config(d) => d.message(),
            LoadError::Other(m) => m.clone(),
        }
    }
}

/// An error that marks `path` invalid in `field`.
pub fn invalid(path: &str, field: String, detail: String) -> (r: LoadError)
    ensures
        r@ == LoadErrorView::Config(
            DiagnosticView {
                kind: DiagnosticKind::Invalid,
                path: path@,
                field: field@,
                location: None,
                detail: detail@,
            },
        ),
{
    LoadError::Config(ConfigDiagnostic::invalid(path, field, detail))
}

/// The diagnostic that an error carries, if it carries one.
pub fn from_error(error: &LoadError) -> (r: Option<ConfigDiagnostic>)
    ensures
        match error@ {
            LoadErrorView::Config(d) => r matches Some(x) && x@ == d,
            LoadErrorView::Other(_) => r is None,
        },
{
    match error {
        LoadError::Config(d) => Some(d.clone()),
        LoadError::Other(_) => None,
    }
}

pub fn is_config_error(error: &LoadError) -> (r: bool)
    ensures
        r == (error@ is Config),
{
    match error {
        LoadError::Config(_) => true,
        LoadError::Other(_) => false,
    }
}

/// Whether the error is a diagnostic of a file that does not exist.
pub fn is_not_found(error: &LoadError) -> (r: bool)
    ensures
        r == (error@ matches LoadErrorView::Config(d) && d.kind == DiagnosticKind::Read {
            not_found: true,
        }),
{
    match error {
        LoadError::Config(d) => d.is_not_found(),
        LoadError::Other(_) => false,
    }
}

/// The error that a failure of `path`'s `field` stands as: a diagnostic is kept, any
/// other error becomes a diagnostic that marks the field invalid with the error's text.
pub open spec fn standardized(e: LoadErrorView, path: Seq<char>, field: Seq<char>) -> LoadErrorView {
    match e {
        LoadErrorView::Config(d) => LoadErrorView::Config(d),
        LoadErrorView::Other(m) => LoadErrorView::Config(
            DiagnosticView {
                kind: DiagnosticKind::Invalid,
                path,
                field,
                location: None,
                detail: m,
            },
        ),
    }
}

pub fn standardize_error(error: LoadError, path: &str, field: String) -> (r: LoadError)
    ensures
        r@ == standardized(error@, path@, field@),
{
    match error {
        LoadError::Config(d) => LoadError::Config(d),
        LoadError::Other(m) => invalid(path, field, m),
    }
}

/// The first line of a YAML parser's message, without the `error: ` it may begin with and
/// without the `line L column C: ` position that the diagnostic gives apart.
pub open spec fn spec_yaml_detail(text: Seq<char>) -> Seq<char> {
    let ls = lines(text);
    let first_line = trim(
        if ls.len() > 0 {
            ls[0]
        } else {
            text
        },
    );
    let detail = match strip_prefix(first_line, "error: "@) {
        Some(d) => d,
        None => first_line,
    };
    match split_once(detail, ": "@) {
        Some((prefix, message)) => if starts_with(prefix, "line "@) && contains(
            prefix,
            " column "@,
        ) {
            message
        } else {
            detail
        },
        None => detail,
    }
}

pub fn yaml_detail(text: &str) -> (r: String)
    ensures
        r@ == spec_yaml_detail(text@),
{
    let parts = split_str(text, '\n');
    proof {
        crate::text::lemma_split_nonempty(text@, '\n');
    }
    let ghost ls = lines(text@);
    let first = if parts.len() > 1 {
        assert(ls[0] == crate::request_curl::without_cr(parts@[0]@));
        match strip_suffix_str(parts[0].as_str(), "\r") {
            Some(x) => x,
            None => parts[0].clone(),
        }
    } else {
        proof {
            let k = crate::text::find(text@, seq!['\n']);
            if k >= 0 {
                crate::text::lemma_split_step(text@, '\n', k);
                crate::text::lemma_split_nonempty(text@.skip(k + 1), '\n');
            }
            assert(parts@[0]@ == text@);
        }
        parts[0].clone()
    };
    assert(first@ == (if ls.len() > 0 { ls[0] } else { text@ }));
    let first_line = trim_str(first.as_str());
    let detail = match strip_prefix_str(first_line.as_str(), "error: ") {
        Some(d) => d,
        None => first_line,
    };
    match split_once_str(detail.as_str(), ": ") {
        Some((prefix, message)) => {
            if starts_with_str(prefix.as_str(), "line ") && contains_str(prefix.as_str(), " column ") {
                message
            } else {
                detail
            }
        },
        None => detail,
    }
}

} // verus!
