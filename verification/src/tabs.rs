//! The tabs of the request preview and of the response, and the response menu.
use vstd::prelude::*;
use crate::dialog::PreviewTab;
use crate::i18n::UiText;
use crate::text::{eq_ignore_case, eq_ignore_case_str, trim, trim_str};

verus! {

/// What the response menu offers, in menu order.
#[derive(Clone, Copy, PartialEq, Eq, Structural, Debug)]
pub enum ResponseMenuAction {
    Download,
    CopyBody,
    CopyHeaders,
}

/// The number of entries of the response menu.
pub const RESPONSE_MENU_LENGTH: usize = 3;

pub open spec fn menu_entry(index: int) -> Option<ResponseMenuAction> {
    if index == 0 {
        Some(ResponseMenuAction::Download)
    } else if index == 1 {
        Some(ResponseMenuAction::CopyBody)
    } else if index == 2 {
        Some(ResponseMenuAction::CopyHeaders)
    } else {
        None
    }
}

impl ResponseMenuAction {
    /// The entries in menu order.
    pub fn all() -> (r: Vec<ResponseMenuAction>)
        ensures
            r@.len() == RESPONSE_MENU_LENGTH,
            forall|i: int| 0 <= i < r@.len() ==> menu_entry(i) == Some(#[trigger] r@[i]),
    {
        vec![ResponseMenuAction::Download, ResponseMenuAction::CopyBody, ResponseMenuAction::CopyHeaders]
    }

    /// The entry at a menu position, if there is one.
    pub fn from_index(index: usize) -> (r: Option<ResponseMenuAction>)
        ensures
            r == menu_entry(index as int),
    {
        if index == 0 {
            Some(ResponseMenuAction::Download)
        } else if index == 1 {
            Some(ResponseMenuAction::CopyBody)
        } else if index == 2 {
            Some(ResponseMenuAction::CopyHeaders)
        } else {
            None
        }
    }
}

/// The tabs of the response view.
#[derive(Clone, Copy, PartialEq, Eq, Structural, Debug)]
pub enum ResponseTab {
    Raw,
    Formatted,
    Headers,
}

pub open spec fn response_tab_next(t: ResponseTab) -> ResponseTab {
    match t {
        ResponseTab::Raw => ResponseTab::Formatted,
        ResponseTab::Formatted => ResponseTab::Headers,
        ResponseTab::Headers => ResponseTab::Raw,
    }
}

pub open spec fn response_tab_previous(t: ResponseTab) -> ResponseTab {
    match t {
        ResponseTab::Raw => ResponseTab::Headers,
        ResponseTab::Formatted => ResponseTab::Raw,
        ResponseTab::Headers => ResponseTab::Formatted,
    }
}

pub open spec fn response_tab_toggled(t: ResponseTab) -> ResponseTab {
    match t {
        ResponseTab::Raw => ResponseTab::Formatted,
        ResponseTab::Formatted => ResponseTab::Raw,
        ResponseTab::Headers => ResponseTab::Formatted,
    }
}

impl ResponseTab {
    /// The response view opens on the formatted body.
    pub fn initial() -> (r: ResponseTab)
        ensures
            r == ResponseTab::Formatted,
    {
        ResponseTab::Formatted
    }

    pub fn next(self) -> (r: ResponseTab)
        ensures
            r == response_tab_next(self),
    {
        match self {
            ResponseTab::Raw => ResponseTab::Formatted,
            ResponseTab::Formatted => ResponseTab::Headers,
            ResponseTab::Headers => ResponseTab::Raw,
        }
    }

    pub fn previous(self) -> (r: ResponseTab)
        ensures
            r == response_tab_previous(self),
    {
        match self {
            ResponseTab::Raw => ResponseTab::Headers,
            ResponseTab::Formatted => ResponseTab::Raw,
            ResponseTab::Headers => ResponseTab::Formatted,
        }
    }

    /// Switches between the raw and the formatted body; from the headers, to the formatted
    /// body.
    pub fn toggle_format(self) -> (r: ResponseTab)
        ensures
            r == response_tab_toggled(self),
    {
        match self {
            ResponseTab::Raw => ResponseTab::Formatted,
            ResponseTab::Formatted => ResponseTab::Raw,
            ResponseTab::Headers => ResponseTab::Formatted,
        }
    }
}

pub open spec fn preview_tab_next(t: PreviewTab) -> PreviewTab {
    match t {
        PreviewTab::Body => PreviewTab::Params,
        PreviewTab::Params => PreviewTab::Headers,
        PreviewTab::Headers => PreviewTab::Body,
    }
}

pub open spec fn preview_tab_previous(t: PreviewTab) -> PreviewTab {
    match t {
        PreviewTab::Body => PreviewTab::Headers,
        PreviewTab::Params => PreviewTab::Body,
        PreviewTab::Headers => PreviewTab::Params,
    }
}

pub open spec fn preview_tab_label(t: PreviewTab, text: UiText) -> Seq<char> {
    match t {
        PreviewTab::Body => text.text("Body"@, "请求体"@),
        PreviewTab::Params => text.text("Params"@, "参数"@),
        PreviewTab::Headers => text.text("Headers"@, "请求头"@),
    }
}

impl PreviewTab {
    /// The tabs in display order.
    pub fn all() -> (r: Vec<PreviewTab>)
        ensures
            r@ == seq![PreviewTab::Body, PreviewTab::Params, PreviewTab::Headers],
    {
        let r = vec![PreviewTab::Body, PreviewTab::Params, PreviewTab::Headers];
        assert(r@ =~= seq![PreviewTab::Body, PreviewTab::Params, PreviewTab::Headers]);
        r
    }

    pub fn next(self) -> (r: PreviewTab)
        ensures
            r == preview_tab_next(self),
    {
        match self {
            PreviewTab::Body => PreviewTab::Params,
            PreviewTab::Params => PreviewTab::Headers,
            PreviewTab::Headers => PreviewTab::Body,
        }
    }

    pub fn previous(self) -> (r: PreviewTab)
        ensures
            r == preview_tab_previous(self),
    {
        match self {
            PreviewTab::Body => PreviewTab::Headers,
            PreviewTab::Params => PreviewTab::Body,
            PreviewTab::Headers => PreviewTab::Params,
        }
    }

    pub fn label(self, text: UiText) -> (r: &'static str)
        ensures
            r@ == preview_tab_label(self, text),
    {
        match self {
            PreviewTab::Body => text.body(),
            PreviewTab::Params => text.params(),
            PreviewTab::Headers => text.headers(),
        }
    }
}

/// The methods whose requests the preview edits: GET and POST, in any case, around white
/// space.
pub open spec fn spec_supports_method(method: Seq<char>) -> bool {
    eq_ignore_case(trim(method), "GET"@) || eq_ignore_case(trim(method), "POST"@)
}

pub fn supports_method(method: &str) -> (r: bool)
    ensures
        r == spec_supports_method(method@),
{
    let m = trim_str(method);
    eq_ignore_case_str(m.as_str(), "GET") || eq_ignore_case_str(m.as_str(), "POST")
}

/// Stepping to the next tab and back returns to the same tab, in both views.
pub proof fn law_tab_round_trip(p: PreviewTab, t: ResponseTab)
    ensures
        preview_tab_previous(preview_tab_next(p)) == p,
        preview_tab_next(preview_tab_previous(p)) == p,
        response_tab_previous(response_tab_next(t)) == t,
        response_tab_next(response_tab_previous(t)) == t,
{
}

/// Toggling the format twice from a body tab returns to it.
pub proof fn law_toggle_format_twice(t: ResponseTab)
    requires
        t != ResponseTab::Headers,
    ensures
        response_tab_toggled(response_tab_toggled(t)) == t,
{
}

} // verus!
