//! The decisions around reloading a workspace and switching its scenario; the work itself
//! (reading files, running the reload elsewhere) is done by the caller.
use vstd::prelude::*;
use crate::diagnostics::{diagnostic_text, ConfigDiagnostic, DiagnosticKind, DiagnosticView};
use crate::error_page::ErrorPage;
use crate::files::{join_path, join_path_str};
use crate::text::{copy_str, eq_str, views};

verus! {

/// What a request to reload the workspace comes to.
#[derive(Clone, Copy, PartialEq, Eq, Structural, Debug)]
pub enum ReloadAction {
    /// A reload is already running.
    Ignore,
    /// A request is being sent: a warning, and no reload.
    BusySending,
    /// The reload starts.
    Start,
}

pub fn reload_action(reloading: bool, any_sending: bool) -> (r: ReloadAction)
    ensures
        r == if reloading {
            ReloadAction::Ignore
        } else if any_sending {
            ReloadAction::BusySending
        } else {
            ReloadAction::Start
        },
{
    if reloading {
        ReloadAction::Ignore
    } else if any_sending {
        ReloadAction::BusySending
    } else {
        ReloadAction::Start
    }
}

/// What choosing a scenario comes to.
#[derive(Clone, Copy, PartialEq, Eq, Structural, Debug)]
pub enum SwitchAction {
    /// A reload is running: nothing happens.
    Ignore,
    /// The scenario is the active one: the menu closes.
    Close,
    /// A request is being sent: a warning, and no switch.
    BusySending,
    /// The scenario becomes the active one.
    Switch,
}

pub fn switch_action(reloading: bool, already_active: bool, any_sending: bool) -> (r: SwitchAction)
    ensures
        r == if reloading {
            SwitchAction::Ignore
        } else if already_active {
            SwitchAction::Close
        } else if any_sending {
            SwitchAction::BusySending
        } else {
            SwitchAction::Switch
        },
{
    if reloading {
        SwitchAction::Ignore
    } else if already_active {
        SwitchAction::Close
    } else if any_sending {
        SwitchAction::BusySending
    } else {
        SwitchAction::Switch
    }
}

/// The scenario a reloaded workspace starts in: the one that was active, while it still
/// exists, else the workspace's default.
pub open spec fn spec_reloaded_configuration(names: Seq<Seq<char>>, active: Seq<char>, default: Seq<char>) -> Seq<char> {
    if names.contains(active) {
        active
    } else {
        default
    }
}

pub fn reloaded_configuration(names: &Vec<String>, active: &str, default: &str) -> (r: String)
    ensures
        r@ == spec_reloaded_configuration(views(names@), active@, default@),
{
    let ghost nv = views(names@);
    let mut i: usize = 0;
    while i < names.len()
        invariant
            nv == views(names@),
            i <= nv.len(),
            forall|j: int| 0 <= j < i ==> nv[j] != active@,
        decreases nv.len() - i,
    {
        assert(nv[i as int] == names@[i as int]@);
        if eq_str(names[i].as_str(), active) {
            return copy_str(active);
        }
        i = i + 1;
    }
    copy_str(default)
}

/// The request selected after a reload: the one that was selected, where it now stands,
/// else the reloaded workspace's own choice.
pub open spec fn spec_reselected(ids: Seq<Seq<char>>, previous: Option<Seq<char>>, fallback: Option<usize>) -> Option<int> {
    match previous {
        Some(id) => if ids.contains(id) {
            Some(ids.index_of_first(id).unwrap())
        } else {
            match fallback {
                Some(f) => Some(f as int),
                None => None,
            }
        },
        None => match fallback {
            Some(f) => Some(f as int),
            None => None,
        },
    }
}

pub fn reselected_request(ids: &Vec<String>, previous: Option<&str>, fallback: Option<usize>) -> (r: Option<usize>)
    ensures
        match r {
            Some(k) => spec_reselected(views(ids@), match previous {
                Some(p) => Some(p@),
                None => None,
            }, fallback) == Some(k as int),
            None => spec_reselected(views(ids@), match previous {
                Some(p) => Some(p@),
                None => None,
            }, fallback) is None,
        },
{
    let ghost iv = views(ids@);
    if let Some(p) = previous {
        let mut i: usize = 0;
        while i < ids.len()
            invariant
                iv == views(ids@),
                previous == Some(p),
                i <= iv.len(),
                forall|j: int| 0 <= j < i ==> iv[j] != p@,
            decreases iv.len() - i,
        {
            assert(iv[i as int] == ids@[i as int]@);
            if eq_str(ids[i].as_str(), p) {
                proof {
                    assert(iv[i as int] == p@);
                    assert(iv.contains(p@));
                    iv.index_of_first_ensures(p@);
                    let idx = iv.index_of_first(p@).unwrap();
                    assert(idx == i);
                }
                return Some(i);
            }
            i = i + 1;
        }
        assert(!iv.contains(p@));
    }
    fallback
}

/// The page shown when a reload stops without an answer: the workspace file, marked
/// invalid in `workspace reload`.
pub fn reload_stopped_page(workspace: &str) -> (r: ErrorPage)
    ensures
        r.path@ == join_path(workspace@, "postui.yaml"@),
        r.message@ == diagnostic_text(
            DiagnosticView {
                kind: DiagnosticKind::Invalid,
                path: join_path(workspace@, "postui.yaml"@),
                field: "workspace reload"@,
                location: None,
                detail: "Workspace reload ended unexpectedly"@,
            },
        ),
        r.editor_error is None,
{
    let path = join_path_str(workspace, "postui.yaml");
    let d = ConfigDiagnostic::invalid(
        path.as_str(),
        copy_str("workspace reload"),
        copy_str("Workspace reload ended unexpectedly"),
    );
    ErrorPage::from_message(path, d.message())
}

} // verus!
