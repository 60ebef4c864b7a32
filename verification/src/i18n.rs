//! The interface texts in each supported language.
use vstd::prelude::*;
use crate::text::{decimal, decimal_string, push_str};

verus! {

#[derive(PartialEq, Eq, Structural, Clone, Copy, Debug)]
pub enum Language {
    English,
    Chinese,
}

/// Why a request could not be completed, as the interface reports it.
#[derive(PartialEq, Eq, Structural, Clone, Copy, Debug)]
pub enum HttpErrorKind {
    InvalidRequest,
    Upload,
    Timeout,
    Connection,
    Transport,
    ResponseTooLarge,
    ClientInitialization,
}

/// How the formatted response view relates to the raw text.
#[derive(PartialEq, Eq, Structural, Clone, Copy, Debug)]
pub enum FormatNote {
    Original,
    Limited,
    Invalid,
}

#[derive(Clone, Copy, Debug)]
pub struct UiText {
    pub language: Language,
}

impl UiText {
    /// The English or the Chinese form, as the language asks.
    pub open spec fn text(self, english: Seq<char>, chinese: Seq<char>) -> Seq<char> {
        match self.language {
            Language::English => english,
            Language::Chinese => chinese,
        }
    }

    pub fn new(language: Language) -> (r: Self)
        ensures
            r.language == language,
    {
        UiText { language }
    }

    fn pick(self, english: &'static str, chinese: &'static str) -> (r: &'static str)
        ensures
            r@ == self.text(english@, chinese@),
    {
        match self.language {
            Language::English => english,
            Language::Chinese => chinese,
        }
    }

    /// `prefix`, then `value`, in the chosen language's wording.
    fn with_value(self, english: &'static str, chinese: &'static str, value: &str) -> (r: String)
        ensures
            r@ == self.text(english@, chinese@) + value@,
    {
        let mut out = String::new();
        push_str(&mut out, self.pick(english, chinese));
        push_str(&mut out, value);
        out
    }

    pub fn workspace(self) -> (r: &'static str)
        ensures
            r@ == self.text("Workspace"@, "工作区"@),
    {
        self.pick("Workspace", "工作区")
    }

    pub fn variables(self) -> (r: &'static str)
        ensures
            r@ == self.text("Variables"@, "变量"@),
    {
        self.pick("Variables", "变量")
    }

    pub fn headers(self) -> (r: &'static str)
        ensures
            r@ == self.text("Headers"@, "请求头"@),
    {
        self.pick("Headers", "请求头")
    }

    pub fn request_editor(self) -> (r: &'static str)
        ensures
            r@ == self.text("Request"@, "请求"@),
    {
        self.pick("Request", "请求")
    }

    pub fn params(self) -> (r: &'static str)
        ensures
            r@ == self.text("Params"@, "参数"@),
    {
        self.pick("Params", "参数")
    }

    pub fn add_entry(self) -> (r: &'static str)
        ensures
            r@ == self.text("Add row"@, "添加行"@),
    {
        self.pick("Add row", "添加行")
    }

    pub fn body(self) -> (r: &'static str)
        ensures
            r@ == self.text("Body"@, "请求体"@),
    {
        self.pick("Body", "请求体")
    }

    pub fn content(self) -> (r: &'static str)
        ensures
            r@ == self.text("Content"@, "内容"@),
    {
        self.pick("Content", "内容")
    }

    pub fn form(self) -> (r: &'static str)
        ensures
            r@ == self.text("Form"@, "表单"@),
    {
        self.pick("Form", "表单")
    }

    pub fn files(self) -> (r: &'static str)
        ensures
            r@ == self.text("Files"@, "文件"@),
    {
        self.pick("Files", "文件")
    }

    pub fn no_content(self) -> (r: &'static str)
        ensures
            r@ == self.text("Request body: empty"@, "请求体：空"@),
    {
        self.pick("Request body: empty", "请求体：空")
    }

    pub fn no_requests(self) -> (r: &'static str)
        ensures
            r@ == self.text("Request list: empty"@, "接口列表：空"@),
    {
        self.pick("Request list: empty", "接口列表：空")
    }

    pub fn enter_url(self) -> (r: &'static str)
        ensures
            r@ == self.text("URL required"@, "地址未设置"@),
    {
        self.pick("URL required", "地址未设置")
    }

    pub fn request_url_required(self) -> (r: &'static str)
        ensures
            r@ == self.text("URL required"@, "地址未设置"@),
    {
        self.pick("URL required", "地址未设置")
    }

    pub fn request_selection_required(self) -> (r: &'static str)
        ensures
            r@ == self.text("No request selected"@, "未选择接口"@),
    {
        self.pick("No request selected", "未选择接口")
    }

    pub fn delete_request(self) -> (r: &'static str)
        ensures
            r@ == self.text("Delete request"@, "删除请求"@),
    {
        self.pick("Delete request", "删除请求")
    }

    pub fn delete_request_message(self) -> (r: &'static str)
        ensures
            r@ == self.text("Delete request and source file?"@, "删除接口及其源文件？"@),
    {
        self.pick("Delete request and source file?", "删除接口及其源文件？")
    }

    pub fn request_deleted(self) -> (r: &'static str)
        ensures
            r@ == self.text("Request deleted"@, "请求已删除"@),
    {
        self.pick("Request deleted", "请求已删除")
    }

    pub fn quit_title(self) -> (r: &'static str)
        ensures
            r@ == self.text("Discard session changes?"@, "丢弃会话修改？"@),
    {
        self.pick("Discard session changes?", "丢弃会话修改？")
    }

    pub fn quit_modified_message(self) -> (r: &'static str)
        ensures
            r@ == self.text("Exit clears all unsaved request changes."@, "退出后清除全部未保存的请求修改。"@),
    {
        self.pick("Exit clears all unsaved request changes.", "退出后清除全部未保存的请求修改。")
    }

    pub fn request_selector(self) -> (r: &'static str)
        ensures
            r@ == self.text("Requests"@, "接口"@),
    {
        self.pick("Requests", "接口")
    }

    pub fn help_title(self) -> (r: &'static str)
        ensures
            r@ == self.text("Key map"@, "按键表"@),
    {
        self.pick("Key map", "按键表")
    }

    pub fn request_restored(self) -> (r: &'static str)
        ensures
            r@ == self.text("Reset"@, "已重置"@),
    {
        self.pick("Reset", "已重置")
    }

    pub fn configuration_restored(self) -> (r: &'static str)
        ensures
            r@ == self.text("Reset"@, "已重置"@),
    {
        self.pick("Reset", "已重置")
    }

    pub fn request_in_progress(self) -> (r: &'static str)
        ensures
            r@ == self.text("Request in progress"@, "请求处理中"@),
    {
        self.pick("Request in progress", "请求处理中")
    }

    pub fn request_cancelled(self) -> (r: &'static str)
        ensures
            r@ == self.text("Cancelled"@, "已取消"@),
    {
        self.pick("Cancelled", "已取消")
    }

    pub fn workspace_reloaded(self) -> (r: &'static str)
        ensures
            r@ == self.text("Reloaded"@, "已重载"@),
    {
        self.pick("Reloaded", "已重载")
    }

    pub fn reload_while_sending(self) -> (r: &'static str)
        ensures
            r@ == self.text("Request in progress"@, "请求处理中"@),
    {
        self.pick("Request in progress", "请求处理中")
    }

    pub fn request_status_not_sent(self) -> (r: &'static str)
        ensures
            r@ == self.text("Not sent"@, "未发送"@),
    {
        self.pick("Not sent", "未发送")
    }

    pub fn request_status_sending(self) -> (r: &'static str)
        ensures
            r@ == self.text("Sending"@, "请求中"@),
    {
        self.pick("Sending", "请求中")
    }

    pub fn request_status_success(self) -> (r: &'static str)
        ensures
            r@ == self.text("Success"@, "成功"@),
    {
        self.pick("Success", "成功")
    }

    pub fn request_status_failed(self) -> (r: &'static str)
        ensures
            r@ == self.text("Failed"@, "失败"@),
    {
        self.pick("Failed", "失败")
    }

    pub fn request_status_timeout(self) -> (r: &'static str)
        ensures
            r@ == self.text("Timeout"@, "超时"@),
    {
        self.pick("Timeout", "超时")
    }

    pub fn address(self) -> (r: &'static str)
        ensures
            r@ == self.text("URL"@, "地址"@),
    {
        self.pick("URL", "地址")
    }

    pub fn description(self) -> (r: &'static str)
        ensures
            r@ == self.text("Description"@, "说明"@),
    {
        self.pick("Description", "说明")
    }

    pub fn current_value(self) -> (r: &'static str)
        ensures
            r@ == self.text("Current"@, "当前值"@),
    {
        self.pick("Current", "当前值")
    }

    pub fn value(self) -> (r: &'static str)
        ensures
            r@ == self.text("Value"@, "值"@),
    {
        self.pick("Value", "值")
    }

    pub fn name(self) -> (r: &'static str)
        ensures
            r@ == self.text("Name"@, "名称"@),
    {
        self.pick("Name", "名称")
    }

    pub fn default_value(self) -> (r: &'static str)
        ensures
            r@ == self.text("Default"@, "默认值"@),
    {
        self.pick("Default", "默认值")
    }

    pub fn no_variables(self) -> (r: &'static str)
        ensures
            r@ == self.text("Variables: empty"@, "变量：空"@),
    {
        self.pick("Variables: empty", "变量：空")
    }

    pub fn no_headers(self) -> (r: &'static str)
        ensures
            r@ == self.text("Headers: empty"@, "请求头：空"@),
    {
        self.pick("Headers: empty", "请求头：空")
    }

    pub fn configuration_switched(self) -> (r: &'static str)
        ensures
            r@ == self.text("Switched"@, "已切换"@),
    {
        self.pick("Switched", "已切换")
    }

    pub fn no_params(self) -> (r: &'static str)
        ensures
            r@ == self.text("Params: empty"@, "参数：空"@),
    {
        self.pick("Params: empty", "参数：空")
    }

    pub fn invalid_body_value(self) -> (r: &'static str)
        ensures
            r@ == self.text("Invalid value for the selected JSON type"@, "输入值不符合当前 JSON 类型"@),
    {
        self.pick("Invalid value for the selected JSON type", "输入值不符合当前 JSON 类型")
    }

    pub fn empty_description(self) -> (r: &'static str)
        ensures
            r@ == self.text("—"@, "—"@),
    {
        self.pick("—", "—")
    }

    pub fn cancel_request(self) -> (r: &'static str)
        ensures
            r@ == self.text("Cancel"@, "取消"@),
    {
        self.pick("Cancel", "取消")
    }

    pub fn response(self) -> (r: &'static str)
        ensures
            r@ == self.text("Response"@, "响应"@),
    {
        self.pick("Response", "响应")
    }

    pub fn response_menu(self) -> (r: &'static str)
        ensures
            r@ == self.text("Actions"@, "操作"@),
    {
        self.pick("Actions", "操作")
    }

    pub fn response_zoom(self) -> (r: &'static str)
        ensures
            r@ == self.text("Zoom"@, "放大"@),
    {
        self.pick("Zoom", "放大")
    }

    pub fn response_restore(self) -> (r: &'static str)
        ensures
            r@ == self.text("Restore"@, "还原"@),
    {
        self.pick("Restore", "还原")
    }

    pub fn response_download(self) -> (r: &'static str)
        ensures
            r@ == self.text("Download"@, "下载"@),
    {
        self.pick("Download", "下载")
    }

    pub fn response_copy_body(self) -> (r: &'static str)
        ensures
            r@ == self.text("Copy body"@, "复制响应体"@),
    {
        self.pick("Copy body", "复制响应体")
    }

    pub fn response_copy_headers(self) -> (r: &'static str)
        ensures
            r@ == self.text("Copy headers"@, "复制响应头"@),
    {
        self.pick("Copy headers", "复制响应头")
    }

    pub fn response_show_raw(self) -> (r: &'static str)
        ensures
            r@ == self.text("Raw"@, "原文"@),
    {
        self.pick("Raw", "原文")
    }

    pub fn response_show_formatted(self) -> (r: &'static str)
        ensures
            r@ == self.text("Formatted"@, "格式化"@),
    {
        self.pick("Formatted", "格式化")
    }

    pub fn response_headers_tab(self) -> (r: &'static str)
        ensures
            r@ == self.text("Headers"@, "响应头"@),
    {
        self.pick("Headers", "响应头")
    }

    pub fn response_preparing_highlight(self) -> (r: &'static str)
        ensures
            r@ == self.text("INDEXING SYNTAX…"@, "语法索引中…"@),
    {
        self.pick("INDEXING SYNTAX…", "语法索引中…")
    }

    pub fn response_headers(self) -> (r: &'static str)
        ensures
            r@ == self.text("Response headers"@, "响应头"@),
    {
        self.pick("Response headers", "响应头")
    }

    pub fn response_search_no_match(self) -> (r: &'static str)
        ensures
            r@ == self.text("No match"@, "未找到匹配项"@),
    {
        self.pick("No match", "未找到匹配项")
    }

    pub fn response_action_no_response(self) -> (r: &'static str)
        ensures
            r@ == self.text("No response"@, "无响应"@),
    {
        self.pick("No response", "无响应")
    }

    pub fn binary_response_download(self) -> (r: &'static str)
        ensures
            r@ == self.text("Binary response cannot be copied as text; download it instead"@, "二进制响应无法按文本复制，请改用下载"@),
    {
        self.pick("Binary response cannot be copied as text; download it instead", "二进制响应无法按文本复制，请改用下载")
    }

    pub fn response_copied(self) -> (r: &'static str)
        ensures
            r@ == self.text("Copied"@, "已复制"@),
    {
        self.pick("Copied", "已复制")
    }

    pub fn response_downloaded(self) -> (r: &'static str)
        ensures
            r@ == self.text("Saved"@, "已保存"@),
    {
        self.pick("Saved", "已保存")
    }

    pub fn waiting_response(self) -> (r: &'static str)
        ensures
            r@ == self.text("REQUEST IN FLIGHT…"@, "请求传输中…"@),
    {
        self.pick("REQUEST IN FLIGHT…", "请求传输中…")
    }

    pub fn request_not_sent(self) -> (r: &'static str)
        ensures
            r@ == self.text("Response: not available"@, "响应：不可用"@),
    {
        self.pick("Response: not available", "响应：不可用")
    }

    pub fn response_body(self) -> (r: &'static str)
        ensures
            r@ == self.text("Response body"@, "响应体"@),
    {
        self.pick("Response body", "响应体")
    }

    pub fn empty_response(self) -> (r: &'static str)
        ensures
            r@ == self.text("Empty response"@, "响应为空"@),
    {
        self.pick("Empty response", "响应为空")
    }

    pub fn request_delete_failed(self, error: &str) -> (r: String)
        ensures
            r@ == self.text("Could not delete request: "@, "删除请求失败："@) + error@,
    {
        self.with_value("Could not delete request: ", "删除请求失败：", error)
    }

    pub fn theme_load_failed(self, error: &str) -> (r: String)
        ensures
            r@ == self.text("Could not load theme: "@, "加载主题失败："@) + error@,
    {
        self.with_value("Could not load theme: ", "加载主题失败：", error)
    }

    pub fn invalid_method(self, method: &str) -> (r: String)
        ensures
            r@ == self.text("Invalid HTTP method: "@, "无效的 HTTP 方法："@) + method@,
    {
        self.with_value("Invalid HTTP method: ", "无效的 HTTP 方法：", method)
    }

    pub fn response_copy_failed(self, error: &str) -> (r: String)
        ensures
            r@ == self.text("Could not copy response: "@, "复制响应失败："@) + error@,
    {
        self.with_value("Could not copy response: ", "复制响应失败：", error)
    }

    pub fn response_download_failed(self, error: &str) -> (r: String)
        ensures
            r@ == self.text("Could not save response: "@, "保存响应失败："@) + error@,
    {
        self.with_value("Could not save response: ", "保存响应失败：", error)
    }

    pub fn response_extract_failures(self, count: u64) -> (r: String)
        ensures
            r@ == decimal(count as nat) + self.text(" field(s) failed"@, " 个字段提取失败"@),
    {
        let mut out = decimal_string(count);
        push_str(&mut out, self.pick(" field(s) failed", " 个字段提取失败"));
        out
    }

    pub fn binary_response_summary(self, bytes: u64) -> (r: String)
        ensures
            r@ == self.text("Binary response · "@, "二进制响应 · "@) + decimal(bytes as nat)
                + self.text(" bytes · use Actions → Download"@, " 字节 · 请使用 操作 → 下载"@),
    {
        let mut out = String::new();
        push_str(&mut out, self.pick("Binary response · ", "二进制响应 · "));
        let number = decimal_string(bytes);
        push_str(&mut out, number.as_str());
        push_str(&mut out, self.pick(" bytes · use Actions → Download", " 字节 · 请使用 操作 → 下载"));
        out
    }

    pub fn response_body_limited(self, shown: u64, total: u64) -> (r: String)
        ensures
            r@ == self.text("Large response: showing "@, "响应过大：仅显示 "@) + decimal(shown as nat)
                + self.text(" of "@, " / "@) + decimal(total as nat) + self.text(
                " bytes; use Actions → Download"@,
                " 字节，可在操作中下载"@,
            ),
    {
        let mut out = String::new();
        push_str(&mut out, self.pick("Large response: showing ", "响应过大：仅显示 "));
        let first = decimal_string(shown);
        push_str(&mut out, first.as_str());
        push_str(&mut out, self.pick(" of ", " / "));
        let second = decimal_string(total);
        push_str(&mut out, second.as_str());
        push_str(&mut out, self.pick(" bytes; use Actions → Download", " 字节，可在操作中下载"));
        out
    }

    pub fn send_button(self, loading: bool) -> (r: &'static str)
        ensures
            r@ == (if loading {
                self.text("Sending…"@, "发送中…"@)
            } else {
                self.text("Send"@, "发送"@)
            }),
    {
        if loading {
            self.pick("Sending…", "发送中…")
        } else {
            self.pick("Send", "发送")
        }
    }

    pub fn request_error(self, error: HttpErrorKind) -> (r: &'static str)
        ensures
            r@ == (match error {
                HttpErrorKind::InvalidRequest => self.text(
                    "Invalid request; check the URL, method, headers and file types"@,
                    "请求参数无效；请检查地址、方法、请求头和文件类型"@,
                ),
                HttpErrorKind::Upload => self.text(
                    "Cannot read upload file; check its path and read permissions"@,
                    "无法读取上传文件；请检查文件路径和读取权限"@,
                ),
                HttpErrorKind::Timeout => self.text(
                    "Request timed out; check the service or increase the timeout"@,
                    "请求超时；请检查服务状态或增加超时时间"@,
                ),
                HttpErrorKind::Connection => self.text(
                    "Cannot connect; check the address, network and proxy settings"@,
                    "无法连接服务；请检查地址、网络和代理设置"@,
                ),
                HttpErrorKind::Transport => self.text(
                    "Request interrupted; check the network and service before retrying"@,
                    "请求传输中断；请检查网络和服务状态后重试"@,
                ),
                HttpErrorKind::ResponseTooLarge => self.text(
                    "Response exceeds max_response_bytes; increase the limit if needed"@,
                    "响应超过 max_response_bytes 限制；如确有需要，可提高配置上限"@,
                ),
                HttpErrorKind::ClientInitialization => self.text(
                    "Cannot initialize the HTTP client; check system and proxy settings"@,
                    "无法初始化 HTTP 客户端；请检查系统和代理设置"@,
                ),
            }),
    {
        match error {
            HttpErrorKind::InvalidRequest => self.pick(
                "Invalid request; check the URL, method, headers and file types",
                "请求参数无效；请检查地址、方法、请求头和文件类型",
            ),
            HttpErrorKind::Upload => self.pick(
                "Cannot read upload file; check its path and read permissions",
                "无法读取上传文件；请检查文件路径和读取权限",
            ),
            HttpErrorKind::Timeout => self.pick(
                "Request timed out; check the service or increase the timeout",
                "请求超时；请检查服务状态或增加超时时间",
            ),
            HttpErrorKind::Connection => self.pick(
                "Cannot connect; check the address, network and proxy settings",
                "无法连接服务；请检查地址、网络和代理设置",
            ),
            HttpErrorKind::Transport => self.pick(
                "Request interrupted; check the network and service before retrying",
                "请求传输中断；请检查网络和服务状态后重试",
            ),
            HttpErrorKind::ResponseTooLarge => self.pick(
                "Response exceeds max_response_bytes; increase the limit if needed",
                "响应超过 max_response_bytes 限制；如确有需要，可提高配置上限",
            ),
            HttpErrorKind::ClientInitialization => self.pick(
                "Cannot initialize the HTTP client; check system and proxy settings",
                "无法初始化 HTTP 客户端；请检查系统和代理设置",
            ),
        }
    }

    pub fn response_format_note(self, note: FormatNote) -> (r: &'static str)
        ensures
            r@ == (match note {
                FormatNote::Original => self.text(
                    "Original text (format preserved)"@,
                    "保留原文格式"@,
                ),
                FormatNote::Limited => self.text(
                    "Formatting limit reached · showing Raw"@,
                    "超出格式化限制 · 显示 Raw"@,
                ),
                FormatNote::Invalid => self.text(
                    "Invalid or unsupported structure · showing Raw"@,
                    "结构无效或不支持 · 显示 Raw"@,
                ),
            }),
    {
        match note {
            FormatNote::Original => self.pick("Original text (format preserved)", "保留原文格式"),
            FormatNote::Limited => self.pick(
                "Formatting limit reached · showing Raw",
                "超出格式化限制 · 显示 Raw",
            ),
            FormatNote::Invalid => self.pick(
                "Invalid or unsupported structure · showing Raw",
                "结构无效或不支持 · 显示 Raw",
            ),
        }
    }
}

} // verus!
