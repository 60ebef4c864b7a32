//! Which part of the screen a key goes to: the topmost open layer, and the shortcut context
//! that the key is read in.
use vstd::prelude::*;
use crate::view::Focus;

verus! {

/// What receives keys, from the topmost down.
#[derive(Clone, Copy, PartialEq, Eq, Structural, Debug)]
pub enum Layer {
    ErrorPage,
    Help,
    CurlImport,
    Prompt,
    ResponseSearch,
    RequestSearch,
    ResponseMenu,
    TableEditor,
    Table,
    ContentEditor,
    Main,
}

/// The shortcut table a key is looked up in.
#[derive(Clone, Copy, PartialEq, Eq, Structural, Debug)]
pub enum Context {
    Global,
    Requests,
    Preview,
    Response,
    Headers,
    Params,
    Menu,
    Editor,
    Confirm,
    CurlImport,
}

/// Which table dialog is open.
#[derive(Clone, Copy, PartialEq, Eq, Structural, Debug)]
pub enum DialogKind {
    Configurations,
    Headers,
    Params,
}

/// What is open on the screen.
#[derive(Clone, Copy, PartialEq, Eq, Structural, Debug)]
pub struct OpenLayers {
    pub error_page: bool,
    pub help: bool,
    pub curl_import: bool,
    pub prompt: bool,
    pub response_search: bool,
    pub request_search: bool,
    pub response_menu: bool,
    pub dialog: Option<DialogKind>,
    pub dialog_editing: bool,
    pub content_editing: bool,
}

/// The topmost open layer: an error page over help, over the curl import, over a prompt,
/// over the response search, the request search, the response menu, a table being edited,
/// a table, the content editor; else the main screen.
pub open spec fn spec_layer(o: OpenLayers) -> Layer {
    if o.error_page {
        Layer::ErrorPage
    } else if o.help {
        Layer::Help
    } else if o.curl_import {
        Layer::CurlImport
    } else if o.prompt {
        Layer::Prompt
    } else if o.response_search {
        Layer::ResponseSearch
    } else if o.request_search {
        Layer::RequestSearch
    } else if o.response_menu {
        Layer::ResponseMenu
    } else if o.dialog is Some && o.dialog_editing {
        Layer::TableEditor
    } else if o.dialog is Some {
        Layer::Table
    } else if o.content_editing {
        Layer::ContentEditor
    } else {
        Layer::Main
    }
}

pub fn layer(o: &OpenLayers) -> (r: Layer)
    ensures
        r == spec_layer(*o),
{
    if o.error_page {
        return Layer::ErrorPage;
    }
    if o.help {
        return Layer::Help;
    }
    if o.curl_import {
        return Layer::CurlImport;
    }
    if o.prompt {
        return Layer::Prompt;
    }
    if o.response_search {
        return Layer::ResponseSearch;
    }
    if o.request_search {
        return Layer::RequestSearch;
    }
    if o.response_menu {
        return Layer::ResponseMenu;
    }
    if o.dialog.is_some() && o.dialog_editing {
        return Layer::TableEditor;
    }
    if o.dialog.is_some() {
        return Layer::Table;
    }
    if o.content_editing {
        return Layer::ContentEditor;
    }
    Layer::Main
}

/// The context of the focused pane.
pub open spec fn spec_focus_context(focus: Focus) -> Context {
    match focus {
        Focus::Requests => Context::Requests,
        Focus::Preview => Context::Preview,
        Focus::Response => Context::Response,
        Focus::Header => Context::Global,
    }
}

pub fn focus_context(focus: Focus) -> (r: Context)
    ensures
        r == spec_focus_context(focus),
{
    match focus {
        Focus::Requests => Context::Requests,
        Focus::Preview => Context::Preview,
        Focus::Response => Context::Response,
        Focus::Header => Context::Global,
    }
}

/// The context keys are read in: the curl import's own; a prompt's confirmation; any text
/// input's editor keys; a menu for the response menu and the scenario list; the headers or
/// parameters table while the preview has the focus; else the focused pane's.
pub open spec fn spec_key_context(o: OpenLayers, focus: Focus) -> Context {
    match spec_layer(o) {
        Layer::CurlImport => Context::CurlImport,
        Layer::Prompt => Context::Confirm,
        Layer::ResponseSearch | Layer::RequestSearch | Layer::TableEditor | Layer::ContentEditor => Context::Editor,
        Layer::ResponseMenu => Context::Menu,
        Layer::Table => match o.dialog {
            Some(DialogKind::Configurations) => Context::Menu,
            Some(DialogKind::Headers) => if focus == Focus::Preview {
                Context::Headers
            } else {
                spec_focus_context(focus)
            },
            Some(DialogKind::Params) => if focus == Focus::Preview {
                Context::Params
            } else {
                spec_focus_context(focus)
            },
            None => spec_focus_context(focus),
        },
        _ => spec_focus_context(focus),
    }
}

pub fn key_context(o: &OpenLayers, focus: Focus) -> (r: Context)
    ensures
        r == spec_key_context(*o, focus),
{
    match layer(o) {
        Layer::CurlImport => Context::CurlImport,
        Layer::Prompt => Context::Confirm,
        Layer::ResponseSearch | Layer::RequestSearch | Layer::TableEditor | Layer::ContentEditor => Context::Editor,
        Layer::ResponseMenu => Context::Menu,
        Layer::Table => match o.dialog {
            Some(DialogKind::Configurations) => Context::Menu,
            Some(DialogKind::Headers) => if focus == Focus::Preview {
                Context::Headers
            } else {
                focus_context(focus)
            },
            Some(DialogKind::Params) => if focus == Focus::Preview {
                Context::Params
            } else {
                focus_context(focus)
            },
            None => focus_context(focus),
        },
        _ => focus_context(focus),
    }
}

/// Whether a key is being typed into some text: a search, a table cell, the content editor
/// or the curl import's fields.
pub open spec fn spec_is_editing(o: OpenLayers) -> bool {
    match spec_layer(o) {
        Layer::CurlImport | Layer::ResponseSearch | Layer::RequestSearch | Layer::TableEditor
        | Layer::ContentEditor => true,
        _ => false,
    }
}

pub fn is_editing(o: &OpenLayers) -> (r: bool)
    ensures
        r == spec_is_editing(*o),
{
    match layer(o) {
        Layer::CurlImport | Layer::ResponseSearch | Layer::RequestSearch | Layer::TableEditor
        | Layer::ContentEditor => true,
        _ => false,
    }
}

/// Where pasted text goes.
#[derive(Clone, Copy, PartialEq, Eq, Structural, Debug)]
pub enum PasteTarget {
    CurlImport,
    ResponseSearch,
    RequestSearch,
    Table,
    ContentEditor,
    Nowhere,
}

/// Pasted text goes to the topmost layer that takes text; the error page, help, a prompt,
/// the response menu and the main screen take none.
pub open spec fn spec_paste_target(o: OpenLayers) -> PasteTarget {
    match spec_layer(o) {
        Layer::CurlImport => PasteTarget::CurlImport,
        Layer::ResponseSearch => PasteTarget::ResponseSearch,
        Layer::RequestSearch => PasteTarget::RequestSearch,
        Layer::Table | Layer::TableEditor => PasteTarget::Table,
        Layer::ContentEditor => PasteTarget::ContentEditor,
        _ => PasteTarget::Nowhere,
    }
}

pub fn paste_target(o: &OpenLayers) -> (r: PasteTarget)
    ensures
        r == spec_paste_target(*o),
{
    match layer(o) {
        Layer::CurlImport => PasteTarget::CurlImport,
        Layer::ResponseSearch => PasteTarget::ResponseSearch,
        Layer::RequestSearch => PasteTarget::RequestSearch,
        Layer::Table | Layer::TableEditor => PasteTarget::Table,
        Layer::ContentEditor => PasteTarget::ContentEditor,
        _ => PasteTarget::Nowhere,
    }
}

/// While an error page is shown, every key goes to it, in the page's own context or that
/// of the focused pane.
pub proof fn law_error_page_takes_keys(o: OpenLayers, focus: Focus)
    requires
        o.error_page,
    ensures
        spec_layer(o) == Layer::ErrorPage,
        spec_key_context(o, focus) == spec_focus_context(focus),
        !spec_is_editing(o),
        spec_paste_target(o) == PasteTarget::Nowhere,
{
}

} // verus!
