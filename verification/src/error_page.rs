//! The page that shows configuration errors and names the file to open for them.
use vstd::prelude::*;
use crate::diagnostics::{diagnostic_text, error_text, ConfigDiagnostic, DiagnosticKind, DiagnosticView, LoadError, LoadErrorView};
use crate::text::{copy_str, decimal, decimal_string, eq_str, push_str};

verus! {

/// The errors' text, the file that the editor opens for them, and what opening an
/// editor last failed with.
pub struct ErrorPage {
    pub message: String,
    pub path: String,
    pub editor_error: Option<String>,
}

pub open spec fn diagnostics_view(ds: Seq<ConfigDiagnostic>) -> Seq<DiagnosticView> {
    ds.map_values(|d: ConfigDiagnostic| d@)
}

/// Each diagnostic's text after a blank line.
pub open spec fn listed(ds: Seq<DiagnosticView>) -> Seq<char>
    decreases ds.len(),
{
    if ds.len() == 0 {
        Seq::empty()
    } else {
        listed(ds.drop_last()) + "\n\n"@ + diagnostic_text(ds.last())
    }
}

/// The page's text for a list of diagnostics: their number, then each of them.
pub open spec fn diagnostics_message(ds: Seq<DiagnosticView>) -> Seq<char> {
    "Configuration errors: "@ + decimal(ds.len()) + listed(ds)
}

fn append_listed(message: &mut String, diagnostics: &Vec<ConfigDiagnostic>)
    ensures
        final(message)@ == old(message)@ + listed(diagnostics_view(diagnostics@)),
{
    let mut i: usize = 0;
    while i < diagnostics.len()
        invariant
            i <= diagnostics@.len(),
            message@ == old(message)@ + listed(diagnostics_view(diagnostics@.take(i as int))),
        decreases diagnostics@.len() - i,
    {
        proof {
            assert(diagnostics_view(diagnostics@.take(i + 1)).drop_last() =~= diagnostics_view(
                diagnostics@.take(i as int),
            ));
        }
        push_str(message, "\n\n");
        push_str(message, diagnostics[i].message().as_str());
        i = i + 1;
    }
    proof {
        assert(diagnostics@.take(diagnostics@.len() as int) =~= diagnostics@);
    }
}

impl ErrorPage {
    /// The page for the diagnostics of a load, opening the first one's file; `None` when
    /// there are none.
    pub fn from_diagnostics(diagnostics: &Vec<ConfigDiagnostic>) -> (r: Option<ErrorPage>)
        ensures
            diagnostics@.len() == 0 <==> r is None,
            r matches Some(p) ==> p.message@ == diagnostics_message(diagnostics_view(diagnostics@))
                && p.path@ == diagnostics@[0]@.path && p.editor_error is None,
    {
        if diagnostics.len() == 0 {
            return None;
        }
        let mut message = copy_str("Configuration errors: ");
        push_str(&mut message, decimal_string(diagnostics.len() as u64).as_str());
        append_listed(&mut message, diagnostics);
        Some(ErrorPage { message, path: copy_str(diagnostics[0].path()), editor_error: None })
    }

    /// Adds more diagnostics below the ones shown.
    pub fn append_diagnostics(&mut self, diagnostics: &Vec<ConfigDiagnostic>)
        ensures
            final(self).message@ == old(self).message@ + listed(diagnostics_view(diagnostics@)),
            final(self).path == old(self).path,
            final(self).editor_error == old(self).editor_error,
    {
        append_listed(&mut self.message, diagnostics);
    }

    /// The page for a load error. A diagnostic shows its own text and opens its file,
    /// unless it is about the workspace itself or names a directory (which the caller
    /// looked up: `diagnostic_path_is_dir`); then the fallback file opens. Any other error
    /// shows as the fallback file's invalid configuration.
    pub fn from_error(error: &LoadError, fallback_path: &str, diagnostic_path_is_dir: bool) -> (r: ErrorPage)
        ensures
            r.editor_error is None,
            match error@ {
                LoadErrorView::Config(d) => r.message@ == diagnostic_text(d) && r.path@ == if d.field
                    == "workspace"@ || diagnostic_path_is_dir {
                    fallback_path@
                } else {
                    d.path
                },
                LoadErrorView::Other(m) => r.path@ == fallback_path@ && r.message@ == diagnostic_text(
                    DiagnosticView {
                        kind: DiagnosticKind::Invalid,
                        path: fallback_path@,
                        field: "configuration"@,
                        location: None,
                        detail: m,
                    },
                ),
            },
    {
        match error {
            LoadError::Config(d) => {
                let path = if eq_str(d.field(), "workspace") || diagnostic_path_is_dir {
                    copy_str(fallback_path)
                } else {
                    copy_str(d.path())
                };
                ErrorPage { message: d.message(), path, editor_error: None }
            },
            LoadError::Other(m) => {
                let diagnostic = ConfigDiagnostic::invalid(fallback_path, copy_str("configuration"), m.clone());
                ErrorPage::from_message(copy_str(fallback_path), diagnostic.message())
            },
        }
    }

    pub fn from_message(path: String, message: String) -> (r: ErrorPage)
        ensures
            r.path == path,
            r.message == message,
            r.editor_error is None,
    {
        ErrorPage { message, path, editor_error: None }
    }
}

} // verus!
