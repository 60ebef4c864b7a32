pub mod text;
pub mod config;
pub mod i18n;
pub mod documents;
pub mod headers;
pub mod curl;
pub mod http_method;
pub mod request_curl;
pub mod validation;
pub mod files;
pub mod diagnostics;
pub mod request_file;
pub mod loading;
pub mod cli;
pub mod line_index;
pub mod session;
pub mod view;
pub mod curl_import;
pub mod editor;
pub mod dialog;
pub mod preview;
pub mod runtime;
pub mod request_list;
pub mod extracts;
pub mod request_body_formatter;
pub mod tabs;
pub mod curl_import_page;
pub mod error_page;
pub mod content;
pub mod response_search;
pub mod external_editing;
pub mod workspace_actions;
pub mod workspace;
pub mod response;
pub mod highlight_cache;
pub mod request_operations;
pub mod log_redaction;
pub mod request_session;
pub mod input_routing;
pub mod workspace_session;
pub mod keyed;
pub mod variables;
pub mod json_scalars;
