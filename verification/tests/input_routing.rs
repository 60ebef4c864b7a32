use postui::input_routing::{
    focus_context, is_editing, key_context, layer, paste_target, Context, DialogKind, Layer,
    OpenLayers, PasteTarget,
};
use postui::preview::suppress_removed_header;
use postui::session::{HeaderRow, HeaderSource};
use postui::view::Focus;

fn closed() -> OpenLayers {
    OpenLayers {
        error_page: false,
        help: false,
        curl_import: false,
        prompt: false,
        response_search: false,
        request_search: false,
        response_menu: false,
        dialog: None,
        dialog_editing: false,
        content_editing: false,
    }
}

#[test]
fn the_topmost_layer_takes_keys() {
    assert_eq!(layer(&closed()), Layer::Main);
    let all = OpenLayers {
        error_page: true,
        help: true,
        curl_import: true,
        prompt: true,
        response_search: true,
        request_search: true,
        response_menu: true,
        dialog: Some(DialogKind::Headers),
        dialog_editing: true,
        content_editing: true,
    };
    assert_eq!(layer(&all), Layer::ErrorPage);
    assert_eq!(layer(&OpenLayers { error_page: false, ..all }), Layer::Help);
    let table = OpenLayers { dialog: Some(DialogKind::Params), content_editing: true, ..closed() };
    assert_eq!(layer(&table), Layer::Table);
    assert_eq!(layer(&OpenLayers { dialog_editing: true, ..table }), Layer::TableEditor);
    assert_eq!(layer(&OpenLayers { content_editing: true, dialog_editing: true, ..closed() }), Layer::ContentEditor);
}

#[test]
fn contexts_follow_layer_and_focus() {
    assert_eq!(focus_context(Focus::Header), Context::Global);
    assert_eq!(key_context(&closed(), Focus::Requests), Context::Requests);
    assert_eq!(key_context(&OpenLayers { prompt: true, ..closed() }, Focus::Requests), Context::Confirm);
    assert_eq!(key_context(&OpenLayers { request_search: true, ..closed() }, Focus::Requests), Context::Editor);
    let headers = OpenLayers { dialog: Some(DialogKind::Headers), ..closed() };
    assert_eq!(key_context(&headers, Focus::Preview), Context::Headers);
    assert_eq!(key_context(&headers, Focus::Response), Context::Response);
    let scenarios = OpenLayers { dialog: Some(DialogKind::Configurations), ..closed() };
    assert_eq!(key_context(&scenarios, Focus::Requests), Context::Menu);
    assert_eq!(key_context(&OpenLayers { error_page: true, ..closed() }, Focus::Preview), Context::Preview);
}

#[test]
fn paste_goes_where_text_is_typed() {
    assert_eq!(paste_target(&closed()), PasteTarget::Nowhere);
    assert!(!is_editing(&closed()));
    let prompt = OpenLayers { prompt: true, ..closed() };
    assert_eq!(paste_target(&prompt), PasteTarget::Nowhere);
    assert!(!is_editing(&prompt));
    let table = OpenLayers { dialog: Some(DialogKind::Headers), ..closed() };
    assert_eq!(paste_target(&table), PasteTarget::Table);
    assert!(!is_editing(&table));
    assert!(is_editing(&OpenLayers { dialog_editing: true, ..table }));
    assert_eq!(paste_target(&OpenLayers { curl_import: true, ..closed() }), PasteTarget::CurlImport);
}

fn row(name: &str, value: &str, enabled: bool, source: HeaderSource) -> HeaderRow {
    HeaderRow { name: name.to_string(), value: value.to_string(), enabled, source }
}

#[test]
fn removed_headers_stay_suppressed() {
    let mut rows = vec![
        row("Accept", "*/*", true, HeaderSource::Request),
        row("X-Env", "old", false, HeaderSource::Suppressed),
    ];
    assert!(suppress_removed_header(&mut rows, row("x-env", "test", true, HeaderSource::Collection)));
    assert_eq!(rows.len(), 2);
    assert_eq!(rows[0].name, "Accept");
    assert_eq!(rows[1].name, "x-env");
    assert_eq!(rows[1].value, "test");
    assert!(!rows[1].enabled);
    assert_eq!(rows[1].source, HeaderSource::Suppressed);
    assert!(!suppress_removed_header(&mut rows, row("  ", "", true, HeaderSource::Request)));
    assert_eq!(rows.len(), 2);
}
