//! The cURL commands that request files may hold in place of structured fields.
use vstd::prelude::*;
use crate::config::{param_from_text, DataPart, FileUpload, FileView, NameValue, ParamView, PartView, RequestParam};
use crate::files::{file_name, path_file_name};
use crate::headers::{header_views, insert_header_if_missing, with_header_if_missing};
use crate::text::{
    contains, contains_str, copy_str, eq_ignore_case, eq_ignore_case_str, eq_str, push_char,
    push_str, split, split_once, split_once_str, split_str, starts_with, starts_with_str, strip_prefix,
    strip_prefix_str, strip_suffix, strip_suffix_str, trim, trim_end, trim_end_str, trim_str, views,
};

verus! {

/// The words of a text split as a POSIX shell would, or `None` for unbalanced quotes.
pub uninterp spec fn shell_words(text: Seq<char>) -> Option<Seq<Seq<char>>>;

/// `shlex::split`: POSIX-shell word splitting. The result is named, not described.
#[verifier::external_body]
fn shell_split(text: &str) -> (r: Option<Vec<String>>)
    ensures
        r matches Some(words) ==> shell_words(text@) == Some(views(words@)),
        r is None ==> shell_words(text@) is None,
{
    shlex::split(text)
}

/// What a request's cURL command sets.
pub struct ParsedCommand {
    pub url: Option<String>,
    pub method: Option<String>,
    pub headers: Vec<NameValue>,
    pub data: Vec<DataPart>,
    pub query_data: Vec<DataPart>,
    pub form: Vec<RequestParam>,
    pub files: Vec<FileUpload>,
    pub get_mode: bool,
}

pub struct CommandView {
    pub url: Option<Seq<char>>,
    pub method: Option<Seq<char>>,
    pub headers: Seq<(Seq<char>, Seq<char>)>,
    pub data: Seq<PartView>,
    pub query_data: Seq<PartView>,
    pub form: Seq<ParamView>,
    pub files: Seq<FileView>,
    pub get_mode: bool,
}

impl View for ParsedCommand {
    type V = CommandView;

    open spec fn view(&self) -> CommandView {
        CommandView {
            url: self.url.deep_view(),
            method: self.method.deep_view(),
            headers: header_views(self.headers@),
            data: self.data.deep_view(),
            query_data: self.query_data.deep_view(),
            form: self.form.deep_view(),
            files: self.files.deep_view(),
            get_mode: self.get_mode,
        }
    }
}

pub open spec fn command_start() -> CommandView {
    CommandView {
        url: None,
        method: None,
        headers: Seq::empty(),
        data: Seq::empty(),
        query_data: Seq::empty(),
        form: Seq::empty(),
        files: Seq::empty(),
        get_mode: false,
    }
}

/// `接口 <id><rest>`: how every message of this module begins.
pub open spec fn msg(id: Seq<char>, rest: Seq<char>) -> Seq<char> {
    "接口 "@ + id + rest
}

fn message(id: &str, rest: &str) -> (r: String)
    ensures
        r@ == msg(id@, rest@),
{
    let mut m = copy_str("接口 ");
    push_str(&mut m, id);
    push_str(&mut m, rest);
    m
}

fn message_with(id: &str, middle: &str, value: &str) -> (r: String)
    ensures
        r@ == msg(id@, middle@ + value@),
{
    let mut m = message(id, middle);
    push_str(&mut m, value);
    assert(m@ =~= msg(id@, middle@ + value@));
    m
}

pub open spec fn is_value_option(o: Seq<char>) -> bool {
    ||| o == "-X"@ ||| o == "--request"@ ||| o == "-H"@ ||| o == "--header"@ ||| o == "-d"@
    ||| o == "--url"@ ||| o == "--data"@ ||| o == "--data-ascii"@ ||| o == "--data-binary"@
    ||| o == "--data-raw"@ ||| o == "--data-urlencode"@ ||| o == "--json"@ ||| o == "-F"@
    ||| o == "--form"@ ||| o == "--form-string"@ ||| o == "-o"@ ||| o == "--output"@ ||| o
        == "-b"@ ||| o == "--cookie"@ ||| o == "-A"@ ||| o == "--user-agent"@ ||| o == "-e"@
    ||| o == "--referer"@
}

pub fn value_option(o: &str) -> (r: bool)
    ensures
        r == is_value_option(o@),
{
    eq_str(o, "-X") || eq_str(o, "--request") || eq_str(o, "-H") || eq_str(o, "--header")
        || eq_str(o, "-d") || eq_str(o, "--url") || eq_str(o, "--data") || eq_str(o, "--data-ascii")
        || eq_str(o, "--data-binary") || eq_str(o, "--data-raw") || eq_str(o, "--data-urlencode")
        || eq_str(o, "--json") || eq_str(o, "-F") || eq_str(o, "--form") || eq_str(
        o,
        "--form-string",
    ) || eq_str(o, "-o") || eq_str(o, "--output") || eq_str(o, "-b") || eq_str(o, "--cookie")
        || eq_str(o, "-A") || eq_str(o, "--user-agent") || eq_str(o, "-e") || eq_str(
        o,
        "--referer",
    )
}

pub open spec fn is_ignored_flag(v: Seq<char>) -> bool {
    ||| v == "--location"@ ||| v == "--compressed"@ ||| v == "--silent"@ ||| v == "--show-error"@
    ||| v == "--fail"@ ||| v == "--fail-with-body"@ ||| v == "--globoff"@ ||| v == "--path-as-is"@
    ||| v == "--http1.1"@ ||| v == "--http2"@ ||| v == "--http2-prior-knowledge"@ ||| v
        == "--no-buffer"@ ||| v == "--verbose"@ ||| v == "-s"@ ||| v == "-S"@ ||| v == "-f"@ ||| v
        == "-v"@ ||| v == "-i"@ ||| v == "-sS"@ ||| v == "-O"@ ||| v == "--remote-name"@ ||| v
        == "--remote-name-all"@ ||| v == "-J"@ ||| v == "--remote-header-name"@ ||| v == "-OJ"@
}

pub fn is_ignored_curl_flag(v: &str) -> (r: bool)
    ensures
        r == is_ignored_flag(v@),
{
    eq_str(v, "--location") || eq_str(v, "--compressed") || eq_str(v, "--silent") || eq_str(
        v,
        "--show-error",
    ) || eq_str(v, "--fail") || eq_str(v, "--fail-with-body") || eq_str(v, "--globoff") || eq_str(
        v,
        "--path-as-is",
    ) || eq_str(v, "--http1.1") || eq_str(v, "--http2") || eq_str(v, "--http2-prior-knowledge")
        || eq_str(v, "--no-buffer") || eq_str(v, "--verbose") || eq_str(v, "-s") || eq_str(v, "-S")
        || eq_str(v, "-f") || eq_str(v, "-v") || eq_str(v, "-i") || eq_str(v, "-sS") || eq_str(
        v,
        "-O",
    ) || eq_str(v, "--remote-name") || eq_str(v, "--remote-name-all") || eq_str(v, "-J")
        || eq_str(v, "--remote-header-name") || eq_str(v, "-OJ")
}

/// An option with its value in the same token: `-XPOST`, or `--data=x` for a value option.
pub open spec fn spec_attached_option(token: Seq<char>) -> Option<(Seq<char>, Seq<char>)> {
    if starts_with(token, "-X"@) && token.len() > 2 {
        Some(("-X"@, token.skip(2)))
    } else if starts_with(token, "-H"@) && token.len() > 2 {
        Some(("-H"@, token.skip(2)))
    } else if starts_with(token, "-d"@) && token.len() > 2 {
        Some(("-d"@, token.skip(2)))
    } else if starts_with(token, "-F"@) && token.len() > 2 {
        Some(("-F"@, token.skip(2)))
    } else if starts_with(token, "-o"@) && token.len() > 2 {
        Some(("-o"@, token.skip(2)))
    } else {
        match split_once(token, "="@) {
            Some((option, value)) => if is_value_option(option) {
                Some((option, value))
            } else {
                None
            },
            None => None,
        }
    }
}

fn attached_after(token: &str, option: &'static str) -> (r: Option<String>)
    ensures
        r matches Some(v) ==> starts_with(token@, option@) && token@.len() > option@.len() && v@
            == token@.skip(option@.len() as int),
        r is None ==> !(starts_with(token@, option@) && token@.len() > option@.len()),
{
    match strip_prefix_str(token, option) {
        Some(value) => {
            if value.as_str().is_empty() {
                None
            } else {
                Some(value)
            }
        },
        None => None,
    }
}

proof fn lemma_two_char_literals()
    ensures
        "-X"@.len() == 2,
        "-H"@.len() == 2,
        "-d"@.len() == 2,
        "-F"@.len() == 2,
        "-o"@.len() == 2,
{
    reveal_strlit("-X");
    reveal_strlit("-H");
    reveal_strlit("-d");
    reveal_strlit("-F");
    reveal_strlit("-o");
}

pub fn attached_option(token: &str) -> (r: Option<(String, String)>)
    ensures
        match r {
            Some((o, v)) => spec_attached_option(token@) == Some((o@, v@)),
            None => spec_attached_option(token@) is None,
        },
{
    proof {
        lemma_two_char_literals();
    }
    if let Some(v) = attached_after(token, "-X") {
        return Some((copy_str("-X"), v));
    }
    if let Some(v) = attached_after(token, "-H") {
        return Some((copy_str("-H"), v));
    }
    if let Some(v) = attached_after(token, "-d") {
        return Some((copy_str("-d"), v));
    }
    if let Some(v) = attached_after(token, "-F") {
        return Some((copy_str("-F"), v));
    }
    if let Some(v) = attached_after(token, "-o") {
        return Some((copy_str("-o"), v));
    }
    match split_once_str(token, "=") {
        Some((option, value)) => {
            if value_option(option.as_str()) {
                Some((option, value))
            } else {
                None
            }
        },
        None => None,
    }
}

pub open spec fn spec_form_field(value: Seq<char>, id: Seq<char>) -> Result<(Seq<char>, Seq<char>), Seq<char>> {
    match split_once(value, "="@) {
        None => Err(msg(id, " 的 curl 表单字段格式无效: "@ + value)),
        Some((field, content)) => if trim(field).len() == 0 {
            Err(msg(id, " 的 curl 表单字段名称不能为空"@))
        } else {
            Ok((trim(field), content))
        },
    }
}

/// The `filename=` and `type=` attributes of an upload, in order; later ones win.
pub open spec fn file_attrs(
    parts: Seq<Seq<char>>,
    id: Seq<char>,
    filename: Option<Seq<char>>,
    content_type: Option<Seq<char>>,
) -> Result<(Option<Seq<char>>, Option<Seq<char>>), Seq<char>>
    decreases parts.len(),
{
    if parts.len() == 0 {
        Ok((filename, content_type))
    } else {
        match split_once(parts[0], "="@) {
            None => Err(msg(id, " 的 curl 文件参数格式无效: "@ + parts[0])),
            Some((key, value)) => if trim(key) == "filename"@ {
                file_attrs(parts.drop_first(), id, Some(trim(value)), content_type)
            } else if trim(key) == "type"@ {
                file_attrs(parts.drop_first(), id, filename, Some(trim(value)))
            } else {
                Err(msg(id, " 的 curl 文件参数不支持: "@ + trim(key)))
            },
        }
    }
}

pub open spec fn cmd_form(c: CommandView, value: Seq<char>, id: Seq<char>) -> Result<CommandView, Seq<char>> {
    match spec_form_field(value, id) {
        Err(e) => Err(e),
        Ok((field, content)) => if starts_with(content, "@"@) {
            let parts = split(content.skip(1), ';');
            let path = trim(parts[0]);
            if path.len() == 0 {
                Err(msg(id, " 的 curl 上传文件路径不能为空"@))
            } else {
                match file_attrs(parts.drop_first(), id, None, None) {
                    Err(e) => Err(e),
                    Ok((filename, content_type)) => Ok(
                        CommandView {
                            files: c.files.push(FileView { field, path, filename, content_type }),
                            ..c
                        },
                    ),
                }
            }
        } else {
            Ok(
                CommandView {
                    form: c.form.push(ParamView { name: field, value: content, has_equals: true }),
                    ..c
                },
            )
        },
    }
}

pub open spec fn body_file_message(id: Seq<char>, option: Seq<char>) -> Seq<char> {
    msg(id, " 的 curl 参数 "@ + option + " 不支持通过 @ 读取请求体文件，请使用 --form 上传文件"@)
}

pub open spec fn cmd_body(c: CommandView, option: Seq<char>, value: Seq<char>, id: Seq<char>) -> Result<
    CommandView,
    Seq<char>,
> {
    if option == "--data-urlencode"@ {
        Ok(CommandView { data: c.data.push(PartView::UrlEncoded(param_from_text(value))), ..c })
    } else if option == "--data-raw"@ {
        Ok(CommandView { data: c.data.push(PartView::Raw(value)), ..c })
    } else if starts_with(value, "@"@) {
        Err(body_file_message(id, option))
    } else if option == "--json"@ {
        Ok(
            CommandView {
                data: c.data.push(PartView::Raw(value)),
                headers: with_header_if_missing(
                    with_header_if_missing(c.headers, "Content-Type"@, "application/json"@),
                    "Accept"@,
                    "application/json"@,
                ),
                ..c
            },
        )
    } else {
        Ok(CommandView { data: c.data.push(PartView::Raw(value)), ..c })
    }
}

pub open spec fn cmd_set_url(c: CommandView, value: Seq<char>, id: Seq<char>) -> Result<CommandView, Seq<char>> {
    if c.url is Some {
        Err(msg(id, " 的 curl 命令包含多个 URL"@))
    } else {
        Ok(CommandView { url: Some(value), ..c })
    }
}

pub open spec fn is_body_option(o: Seq<char>) -> bool {
    ||| o == "-d"@ ||| o == "--data"@ ||| o == "--data-ascii"@ ||| o == "--data-binary"@
    ||| o == "--data-raw"@ ||| o == "--data-urlencode"@ ||| o == "--json"@
}

/// What value option `option` with `value` does.
pub open spec fn cmd_option_value(c: CommandView, option: Seq<char>, value: Seq<char>, id: Seq<char>) -> Result<
    CommandView,
    Seq<char>,
> {
    if option == "-X"@ || option == "--request"@ {
        Ok(CommandView { method: Some(value), ..c })
    } else if option == "-H"@ || option == "--header"@ {
        match split_once(value, ":"@) {
            None => Err(msg(id, " 的 curl 请求头格式无效: "@ + value)),
            Some((name, rest)) => if trim(name).len() == 0 {
                Err(msg(id, " 的 curl 请求头名称不能为空"@))
            } else {
                Ok(CommandView { headers: c.headers.push((trim(name), trim(rest))), ..c })
            },
        }
    } else if is_body_option(option) {
        cmd_body(c, option, value, id)
    } else if option == "-F"@ || option == "--form"@ {
        cmd_form(c, value, id)
    } else if option == "--form-string"@ {
        match spec_form_field(value, id) {
            Err(e) => Err(e),
            Ok((field, content)) => Ok(
                CommandView {
                    form: c.form.push(ParamView { name: field, value: content, has_equals: true }),
                    ..c
                },
            ),
        }
    } else if option == "-o"@ || option == "--output"@ {
        Ok(c)
    } else if option == "-b"@ || option == "--cookie"@ {
        Ok(CommandView { headers: c.headers.push(("Cookie"@, value)), ..c })
    } else if option == "-A"@ || option == "--user-agent"@ {
        Ok(CommandView { headers: c.headers.push(("User-Agent"@, value)), ..c })
    } else if option == "-e"@ || option == "--referer"@ {
        Ok(CommandView { headers: c.headers.push(("Referer"@, value)), ..c })
    } else {
        cmd_set_url(c, value, id)
    }
}

pub struct CmdState {
    pub index: int,
    pub stop: bool,
    pub cmd: CommandView,
}

pub open spec fn cmd_step(tokens: Seq<Seq<char>>, id: Seq<char>, st: CmdState) -> Result<CmdState, Seq<char>> {
    let t = tokens[st.index];
    if st.stop {
        match cmd_set_url(st.cmd, t, id) {
            Err(e) => Err(e),
            Ok(c) => Ok(CmdState { index: st.index + 1, stop: st.stop, cmd: c }),
        }
    } else if t == "--"@ {
        Ok(CmdState { index: st.index + 1, stop: true, cmd: st.cmd })
    } else {
        match spec_attached_option(t) {
            Some((o, v)) => match cmd_option_value(st.cmd, o, v, id) {
                Err(e) => Err(e),
                Ok(c) => Ok(CmdState { index: st.index + 1, stop: st.stop, cmd: c }),
            },
            None => if is_value_option(t) {
                if st.index + 1 < tokens.len() {
                    match cmd_option_value(st.cmd, t, tokens[st.index + 1], id) {
                        Err(e) => Err(e),
                        Ok(c) => Ok(CmdState { index: st.index + 2, stop: st.stop, cmd: c }),
                    }
                } else {
                    Err(msg(id, " 的 curl 参数 "@ + t + " 缺少值"@))
                }
            } else if t == "-G"@ || t == "--get"@ {
                Ok(CmdState { index: st.index + 1, stop: st.stop, cmd: CommandView { get_mode: true, method: Some("GET"@), ..st.cmd } })
            } else if is_ignored_flag(t) {
                Ok(CmdState { index: st.index + 1, stop: st.stop, cmd: st.cmd })
            } else if starts_with(t, "-"@) {
                Err(msg(id, " 的 curl 参数不支持: "@ + t))
            } else {
                match cmd_set_url(st.cmd, t, id) {
                    Err(e) => Err(e),
                    Ok(c) => Ok(CmdState { index: st.index + 1, stop: st.stop, cmd: c }),
                }
            },
        }
    }
}

pub open spec fn cmd_run(tokens: Seq<Seq<char>>, id: Seq<char>, st: CmdState) -> Result<CommandView, Seq<char>>
    decreases tokens.len() - st.index,
{
    if st.index < 0 || st.index >= tokens.len() {
        Ok(st.cmd)
    } else {
        match cmd_step(tokens, id, st) {
            Err(e) => Err(e),
            Ok(next) => if next.index <= st.index || next.index > tokens.len() {
                Ok(next.cmd)
            } else {
                cmd_run(tokens, id, next)
            },
        }
    }
}

/// The tokens after `curl` applied from the start.
pub open spec fn spec_parse_curl_tokens(tokens: Seq<Seq<char>>, id: Seq<char>) -> Result<CommandView, Seq<char>> {
    cmd_run(tokens, id, CmdState { index: 0, stop: false, cmd: command_start() })
}

pub fn split_form_field(value: &str, request_id: &str) -> (r: Result<(String, String), String>)
    ensures
        match r {
            Ok((f, c)) => spec_form_field(value@, request_id@) == Ok::<(Seq<char>, Seq<char>), Seq<char>>((f@, c@)),
            Err(e) => spec_form_field(value@, request_id@) == Err::<(Seq<char>, Seq<char>), Seq<char>>(e@),
        },
{
    match split_once_str(value, "=") {
        None => Err(message_with(request_id, " 的 curl 表单字段格式无效: ", value)),
        Some((field, content)) => {
            let field = trim_str(field.as_str());
            if field.as_str().is_empty() {
                return Err(message(request_id, " 的 curl 表单字段名称不能为空"));
            }
            Ok((field, content))
        },
    }
}

fn file_attributes(parts: &Vec<String>, request_id: &str) -> (r: Result<
    (Option<String>, Option<String>),
    String,
>)
    requires
        parts@.len() >= 1,
    ensures
        match r {
            Ok((f, t)) => file_attrs(views(parts@).drop_first(), request_id@, None, None) == Ok::<
                (Option<Seq<char>>, Option<Seq<char>>),
                Seq<char>,
            >((f.deep_view(), t.deep_view())),
            Err(e) => file_attrs(views(parts@).drop_first(), request_id@, None, None) == Err::<
                (Option<Seq<char>>, Option<Seq<char>>),
                Seq<char>,
            >(e@),
        },
{
    let ghost pv = views(parts@).drop_first();
    let mut filename: Option<String> = None;
    let mut content_type: Option<String> = None;
    let mut i: usize = 1;
    assert(pv.skip(0) =~= pv);
    while i < parts.len()
        invariant
            pv == views(parts@).drop_first(),
            1 <= i <= parts@.len(),
            file_attrs(pv, request_id@, None, None) == file_attrs(
                pv.skip(i - 1),
                request_id@,
                filename.deep_view(),
                content_type.deep_view(),
            ),
        decreases parts@.len() - i,
    {
        assert(pv.skip(i - 1)[0] == parts@[i as int]@);
        assert(pv.skip(i - 1).drop_first() =~= pv.skip(i as int));
        match split_once_str(parts[i].as_str(), "=") {
            None => {
                return Err(message_with(request_id, " 的 curl 文件参数格式无效: ", parts[i].as_str()));
            },
            Some((key, value)) => {
                let key = trim_str(key.as_str());
                if eq_str(key.as_str(), "filename") {
                    filename = Some(trim_str(value.as_str()));
                } else if eq_str(key.as_str(), "type") {
                    content_type = Some(trim_str(value.as_str()));
                } else {
                    return Err(message_with(request_id, " 的 curl 文件参数不支持: ", key.as_str()));
                }
            },
        }
        i = i + 1;
    }
    assert(pv.skip(i - 1) =~= Seq::<Seq<char>>::empty());
    Ok((filename, content_type))
}

pub fn parse_form(parsed: &mut ParsedCommand, value: &str, request_id: &str) -> (r: Result<(), String>)
    ensures
        match r {
            Ok(()) => cmd_form(old(parsed)@, value@, request_id@) == Ok::<CommandView, Seq<char>>(final(parsed)@),
            Err(e) => cmd_form(old(parsed)@, value@, request_id@) == Err::<CommandView, Seq<char>>(e@),
        },
{
    let (field, content) = match split_form_field(value, request_id) {
        Ok(pair) => pair,
        Err(e) => return Err(e),
    };
    if starts_with_str(content.as_str(), "@") {
        let file = match strip_prefix_str(content.as_str(), "@") {
            Some(rest) => rest,
            None => String::new(),
        };
        let parts = split_str(file.as_str(), ';');
        proof {
            reveal_strlit("@");
            crate::text::lemma_split_nonempty(file@, ';');
        }
        assert(views(parts@)[0] == parts@[0]@);
        let path = trim_str(parts[0].as_str());
        if path.as_str().is_empty() {
            return Err(message(request_id, " 的 curl 上传文件路径不能为空"));
        }
        let (filename, content_type) = match file_attributes(&parts, request_id) {
            Ok(pair) => pair,
            Err(e) => return Err(e),
        };
        let upload = FileUpload { field, path, filename, content_type };
        let ghost before = parsed.files.deep_view();
        parsed.files.push(upload);
        assert(parsed.files.deep_view() =~= before.push(upload@));
    } else {
        let param = RequestParam::new(field, content, true);
        let ghost before = parsed.form.deep_view();
        parsed.form.push(param);
        assert(parsed.form.deep_view() =~= before.push(param@));
    }
    Ok(())
}

pub fn parse_form_string(form: &mut Vec<RequestParam>, value: &str, request_id: &str) -> (r: Result<
    (),
    String,
>)
    ensures
        match r {
            Ok(()) => spec_form_field(value@, request_id@) matches Ok((f, c)) && final(form).deep_view()
                == old(form).deep_view().push(ParamView { name: f, value: c, has_equals: true }),
            Err(e) => spec_form_field(value@, request_id@) == Err::<(Seq<char>, Seq<char>), Seq<char>>(e@),
        },
{
    let (field, content) = match split_form_field(value, request_id) {
        Ok(pair) => pair,
        Err(e) => return Err(e),
    };
    let param = RequestParam::new(field, content, true);
    let ghost before = form.deep_view();
    form.push(param);
    assert(form.deep_view() =~= before.push(param@));
    Ok(())
}

pub fn reject_body_file(value: &str, option: &str, request_id: &str) -> (r: Result<(), String>)
    ensures
        match r {
            Ok(()) => !starts_with(value@, "@"@),
            Err(e) => starts_with(value@, "@"@) && e@ == body_file_message(request_id@, option@),
        },
{
    if starts_with_str(value, "@") {
        let mut m = message_with(request_id, " 的 curl 参数 ", option);
        push_str(&mut m, " 不支持通过 @ 读取请求体文件，请使用 --form 上传文件");
        assert(m@ =~= body_file_message(request_id@, option@));
        return Err(m);
    }
    Ok(())
}

pub fn parse_body_argument(parsed: &mut ParsedCommand, option: &str, value: &str, request_id: &str) -> (r: Result<(), String>)
    ensures
        match r {
            Ok(()) => cmd_body(old(parsed)@, option@, value@, request_id@) == Ok::<CommandView, Seq<char>>(final(parsed)@),
            Err(e) => cmd_body(old(parsed)@, option@, value@, request_id@) == Err::<CommandView, Seq<char>>(e@),
        },
{
    let ghost before = parsed.data.deep_view();
    if eq_str(option, "--data-urlencode") {
        let part = DataPart::UrlEncoded(RequestParam::from_text(value));
        parsed.data.push(part);
        assert(parsed.data.deep_view() =~= before.push(part@));
        return Ok(());
    }
    if eq_str(option, "--data-raw") {
        let part = DataPart::Raw(copy_str(value));
        parsed.data.push(part);
        assert(parsed.data.deep_view() =~= before.push(part@));
        return Ok(());
    }
    if let Err(e) = reject_body_file(value, option, request_id) {
        return Err(e);
    }
    let part = DataPart::Raw(copy_str(value));
    parsed.data.push(part);
    assert(parsed.data.deep_view() =~= before.push(part@));
    if eq_str(option, "--json") {
        insert_header_if_missing(&mut parsed.headers, "Content-Type", "application/json");
        insert_header_if_missing(&mut parsed.headers, "Accept", "application/json");
    }
    Ok(())
}

pub fn set_url(url: &mut Option<String>, value: &str, request_id: &str) -> (r: Result<(), String>)
    ensures
        match r {
            Ok(()) => (*old(url)) is None && final(url).deep_view() == Some(value@),
            Err(e) => (*old(url)) is Some && e@ == msg(request_id@, " 的 curl 命令包含多个 URL"@),
        },
{
    if url.is_some() {
        *url = Some(copy_str(value));
        return Err(message(request_id, " 的 curl 命令包含多个 URL"));
    }
    *url = Some(copy_str(value));
    Ok(())
}

fn push_header(headers: &mut Vec<NameValue>, name: &str, value: &str)
    ensures
        header_views(final(headers)@) == header_views(old(headers)@).push((name@, value@)),
{
    let ghost before = header_views(headers@);
    headers.push(NameValue { name: copy_str(name), value: copy_str(value) });
    assert(header_views(headers@) =~= before.push((name@, value@)));
}

pub fn parse_option_value(parsed: &mut ParsedCommand, option: &str, value: &str, request_id: &str) -> (r: Result<(), String>)
    requires
        is_value_option(option@),
    ensures
        match r {
            Ok(()) => cmd_option_value(old(parsed)@, option@, value@, request_id@) == Ok::<CommandView, Seq<char>>(final(parsed)@),
            Err(e) => cmd_option_value(old(parsed)@, option@, value@, request_id@) == Err::<CommandView, Seq<char>>(e@),
        },
{
    if eq_str(option, "-X") || eq_str(option, "--request") {
        parsed.method = Some(copy_str(value));
        return Ok(());
    }
    if eq_str(option, "-H") || eq_str(option, "--header") {
        return match split_once_str(value, ":") {
            None => Err(message_with(request_id, " 的 curl 请求头格式无效: ", value)),
            Some((name, rest)) => {
                let name = trim_str(name.as_str());
                if name.as_str().is_empty() {
                    return Err(message(request_id, " 的 curl 请求头名称不能为空"));
                }
                let rest = trim_str(rest.as_str());
                push_header(&mut parsed.headers, name.as_str(), rest.as_str());
                Ok(())
            },
        };
    }
    if eq_str(option, "-d") || eq_str(option, "--data") || eq_str(option, "--data-ascii") || eq_str(
        option,
        "--data-binary",
    ) || eq_str(option, "--data-raw") || eq_str(option, "--data-urlencode") || eq_str(option, "--json") {
        return parse_body_argument(parsed, option, value, request_id);
    }
    if eq_str(option, "-F") || eq_str(option, "--form") {
        return parse_form(parsed, value, request_id);
    }
    if eq_str(option, "--form-string") {
        return parse_form_string(&mut parsed.form, value, request_id);
    }
    if eq_str(option, "-o") || eq_str(option, "--output") {
        return Ok(());
    }
    if eq_str(option, "-b") || eq_str(option, "--cookie") {
        push_header(&mut parsed.headers, "Cookie", value);
        return Ok(());
    }
    if eq_str(option, "-A") || eq_str(option, "--user-agent") {
        push_header(&mut parsed.headers, "User-Agent", value);
        return Ok(());
    }
    if eq_str(option, "-e") || eq_str(option, "--referer") {
        push_header(&mut parsed.headers, "Referer", value);
        return Ok(());
    }
    set_url(&mut parsed.url, value, request_id)
}

/// Applies the token at `index`; gives the index of the next unread token.
pub fn parse_curl_option(
    parsed: &mut ParsedCommand,
    tokens: &Vec<String>,
    index: usize,
    request_id: &str,
) -> (r: Result<usize, String>)
    requires
        index < tokens.len(),
        tokens@[index as int]@ != "--"@,
    ensures
        ({
            let st = CmdState { index: index as int, stop: false, cmd: old(parsed)@ };
            match r {
                Ok(n) => cmd_step(views(tokens@), request_id@, st) == Ok::<CmdState, Seq<char>>(
                    CmdState { index: n as int, stop: false, cmd: final(parsed)@ },
                ) && index < n <= tokens.len(),
                Err(e) => cmd_step(views(tokens@), request_id@, st) == Err::<CmdState, Seq<char>>(e@),
            }
        }),
{
    let ghost tv = views(tokens@);
    let token = &tokens[index];
    assert(tv[index as int] == token@);
    assert(token@ != "--"@ ==> true);
    if let Some((option, value)) = attached_option(token.as_str()) {
        proof {
            lemma_attached_is_value_option(token@);
        }
        return match parse_option_value(parsed, option.as_str(), value.as_str(), request_id) {
            Ok(()) => Ok(index + 1),
            Err(e) => Err(e),
        };
    }
    if value_option(token.as_str()) {
        if index + 1 < tokens.len() {
            assert(tv[index + 1] == tokens@[index + 1]@);
            return match parse_option_value(parsed, token.as_str(), tokens[index + 1].as_str(), request_id) {
                Ok(()) => Ok(index + 2),
                Err(e) => Err(e),
            };
        }
        let mut m = message_with(request_id, " 的 curl 参数 ", token.as_str());
        push_str(&mut m, " 缺少值");
        assert(m@ =~= msg(request_id@, " 的 curl 参数 "@ + token@ + " 缺少值"@));
        return Err(m);
    }
    if eq_str(token.as_str(), "-G") || eq_str(token.as_str(), "--get") {
        parsed.get_mode = true;
        parsed.method = Some(copy_str("GET"));
        return Ok(index + 1);
    }
    if is_ignored_curl_flag(token.as_str()) {
        return Ok(index + 1);
    }
    if starts_with_str(token.as_str(), "-") {
        return Err(message_with(request_id, " 的 curl 参数不支持: ", token.as_str()));
    }
    match set_url(&mut parsed.url, token.as_str(), request_id) {
        Ok(()) => Ok(index + 1),
        Err(e) => Err(e),
    }
}

proof fn lemma_attached_is_value_option(token: Seq<char>)
    ensures
        spec_attached_option(token) matches Some((o, v)) ==> is_value_option(o),
{
}

pub fn parse_curl_tokens(parsed: &mut ParsedCommand, tokens: &Vec<String>, request_id: &str) -> (r: Result<(), String>)
    requires
        old(parsed)@ == command_start(),
    ensures
        match r {
            Ok(()) => spec_parse_curl_tokens(views(tokens@), request_id@) == Ok::<CommandView, Seq<char>>(final(parsed)@),
            Err(e) => spec_parse_curl_tokens(views(tokens@), request_id@) == Err::<CommandView, Seq<char>>(e@),
        },
{
    let ghost tv = views(tokens@);
    let mut stop_options = false;
    let mut index: usize = 0;
    while index < tokens.len()
        invariant
            tv == views(tokens@),
            index <= tokens@.len(),
            spec_parse_curl_tokens(tv, request_id@) == cmd_run(
                tv,
                request_id@,
                CmdState { index: index as int, stop: stop_options, cmd: parsed@ },
            ),
        decreases tokens@.len() - index,
    {
        let ghost st = CmdState { index: index as int, stop: stop_options, cmd: parsed@ };
        assert(tv[index as int] == tokens@[index as int]@);
        if stop_options {
            match set_url(&mut parsed.url, tokens[index].as_str(), request_id) {
                Ok(()) => {},
                Err(e) => return Err(e),
            }
            index = index + 1;
        } else if eq_str(tokens[index].as_str(), "--") {
            stop_options = true;
            index = index + 1;
        } else {
            match parse_curl_option(parsed, tokens, index, request_id) {
                Ok(n) => {
                    index = n;
                },
                Err(e) => return Err(e),
            }
        }
        assert(cmd_step(tv, request_id@, st) == Ok::<CmdState, Seq<char>>(
            CmdState { index: index as int, stop: stop_options, cmd: parsed@ },
        ));
    }
    Ok(())
}

pub open spec fn names_curl(token: Seq<char>) -> bool {
    match file_name(token) {
        Some(name) => eq_ignore_case(name, "curl"@) || eq_ignore_case(name, "curl.exe"@),
        None => false,
    }
}

pub fn is_curl_command(token: &str) -> (r: bool)
    ensures
        r == names_curl(token@),
{
    match path_file_name(token) {
        Some(name) => eq_ignore_case_str(name.as_str(), "curl") || eq_ignore_case_str(name.as_str(), "curl.exe"),
        None => false,
    }
}

/// A line without the `\r` that ended it.
pub open spec fn without_cr(line: Seq<char>) -> Seq<char> {
    match strip_suffix(line, "\r"@) {
        Some(x) => x,
        None => line,
    }
}

/// The lines of a text, as `str::lines` gives them: split at `\n`, a `\r` before the
/// `\n` dropped, no empty last line.
pub open spec fn lines(text: Seq<char>) -> Seq<Seq<char>> {
    let parts = split(text, '\n');
    let body = parts.drop_last().map_values(|p: Seq<char>| without_cr(p));
    if parts.last().len() == 0 {
        body
    } else {
        body.push(parts.last())
    }
}

/// What cleaning has gathered: the command so far, whether a fence was seen, whether inside it.
pub struct CleanState {
    pub command: Seq<char>,
    pub saw_fence: bool,
    pub in_fence: bool,
}

pub open spec fn clean_line(st: CleanState, line: Seq<char>) -> CleanState {
    let t = trim(line);
    if starts_with(t, "```"@) {
        if st.saw_fence && st.in_fence {
            CleanState { in_fence: false, ..st }
        } else if !st.saw_fence {
            CleanState { saw_fence: true, in_fence: true, ..st }
        } else {
            st
        }
    } else if st.saw_fence && !st.in_fence {
        st
    } else if t.len() == 0 || starts_with(t, "#"@) || starts_with(t, "//"@) {
        st
    } else {
        let l = trim_end(line);
        match strip_suffix(l, "\\"@) {
            Some(x) => CleanState { command: st.command + x + " "@, ..st },
            None => match strip_suffix(l, "`"@) {
                Some(x) => CleanState { command: st.command + x + " "@, ..st },
                None => CleanState { command: st.command + l + "\n"@, ..st },
            },
        }
    }
}

pub open spec fn clean_lines(ls: Seq<Seq<char>>) -> CleanState
    decreases ls.len(),
{
    if ls.len() == 0 {
        CleanState { command: Seq::empty(), saw_fence: false, in_fence: false }
    } else {
        clean_line(clean_lines(ls.drop_last()), ls.last())
    }
}

/// The command that a request's text holds: inside the first code fence if there is one,
/// without blank and comment lines, with continued lines joined.
pub open spec fn clean(source: Seq<char>) -> Seq<char> {
    clean_lines(lines(source)).command
}

fn clean_step(command: &mut String, saw_fence: &mut bool, in_fence: &mut bool, line: &str)
    ensures
        (CleanState { command: final(command)@, saw_fence: *final(saw_fence), in_fence: *final(in_fence) }) == clean_line(
            CleanState { command: old(command)@, saw_fence: *old(saw_fence), in_fence: *old(in_fence) },
            line@,
        ),
{
    let trimmed = trim_str(line);
    if starts_with_str(trimmed.as_str(), "```") {
        if *saw_fence && *in_fence {
            *in_fence = false;
        } else if !*saw_fence {
            *saw_fence = true;
            *in_fence = true;
        }
        return;
    }
    if *saw_fence && !*in_fence {
        return;
    }
    if trimmed.as_str().is_empty() || starts_with_str(trimmed.as_str(), "#") || starts_with_str(
        trimmed.as_str(),
        "//",
    ) {
        return;
    }
    let l = trim_end_str(line);
    if let Some(x) = strip_suffix_str(l.as_str(), "\\") {
        push_str(command, x.as_str());
        push_str(command, " ");
    } else if let Some(x) = strip_suffix_str(l.as_str(), "`") {
        push_str(command, x.as_str());
        push_str(command, " ");
    } else {
        push_str(command, l.as_str());
        push_str(command, "\n");
    }
}

pub fn clean_command_block(source: &str) -> (r: String)
    ensures
        r@ == clean(source@),
{
    let parts = split_str(source, '\n');
    let ghost pv = views(parts@);
    proof {
        crate::text::lemma_split_nonempty(source@, '\n');
    }
    let ghost ls = lines(source@);
    let mut command = String::new();
    let mut saw_fence = false;
    let mut in_fence = false;
    let last = parts.len() - 1;
    let mut i: usize = 0;
    assert(ls.take(0) =~= Seq::<Seq<char>>::empty());
    while i < last
        invariant
            pv == views(parts@),
            pv == split(source@, '\n'),
            ls == lines(source@),
            last == parts@.len() - 1,
            i <= last,
            (CleanState { command: command@, saw_fence, in_fence }) == clean_lines(ls.take(i as int)),
        decreases last - i,
    {
        let line = match strip_suffix_str(parts[i].as_str(), "\r") {
            Some(x) => x,
            None => parts[i].clone(),
        };
        assert(ls[i as int] == without_cr(pv[i as int]));
        assert(pv[i as int] == parts@[i as int]@);
        assert(ls.take(i + 1).drop_last() =~= ls.take(i as int));
        clean_step(&mut command, &mut saw_fence, &mut in_fence, line.as_str());
        i = i + 1;
    }
    if !parts[last].as_str().is_empty() {
        assert(pv[last as int] == parts@[last as int]@);
        assert(ls.take(last + 1).drop_last() =~= ls.take(last as int));
        assert(ls.take(last + 1) =~= ls);
        clean_step(&mut command, &mut saw_fence, &mut in_fence, parts[last].as_str());
    } else {
        assert(ls.take(last as int) =~= ls);
    }
    command
}

/// In GET mode, raw data is split into query pieces at `&`, dropping empty ones.
pub open spec fn query_pieces(data: Seq<PartView>) -> Seq<PartView>
    decreases data.len(),
{
    if data.len() == 0 {
        Seq::empty()
    } else {
        query_pieces(data.drop_last()) + match data.last() {
            PartView::Raw(v) => split(v, '&').filter(|p: Seq<char>| p.len() > 0).map_values(
                |p: Seq<char>| PartView::Raw(p),
            ),
            part => seq![part],
        }
    }
}

pub fn split_query_data_part(part: DataPart) -> (r: Vec<DataPart>)
    ensures
        r.deep_view() == (match part@ {
            PartView::Raw(v) => split(v, '&').filter(|p: Seq<char>| p.len() > 0).map_values(
                |p: Seq<char>| PartView::Raw(p),
            ),
            other => seq![other],
        }),
{
    match part {
        DataPart::Raw(value) => {
            let pieces = split_str(value.as_str(), '&');
            let ghost pv = views(pieces@);
            let mut out: Vec<DataPart> = Vec::new();
            let mut i: usize = 0;
            assert(pv.take(0).filter(|p: Seq<char>| p.len() > 0) =~= Seq::<Seq<char>>::empty());
            while i < pieces.len()
                invariant
                    pv == views(pieces@),
                    i <= pieces@.len(),
                    out.deep_view() == pv.take(i as int).filter(|p: Seq<char>| p.len() > 0).map_values(
                        |p: Seq<char>| PartView::Raw(p),
                    ),
                decreases pieces@.len() - i,
            {
                let ghost before = out.deep_view();
                assert(pv.take(i + 1).drop_last() =~= pv.take(i as int));
                assert(pv.take(i + 1).last() == pieces@[i as int]@);
                proof {
                    reveal_with_fuel(Seq::<_>::filter, 1);
                }
                if !pieces[i].as_str().is_empty() {
                    let p = DataPart::Raw(pieces[i].clone());
                    out.push(p);
                    assert(out.deep_view() =~= before.push(p@));
                }
                assert(out.deep_view() =~= pv.take(i + 1).filter(|p: Seq<char>| p.len() > 0).map_values(
                    |p: Seq<char>| PartView::Raw(p),
                ));
                i = i + 1;
            }
            assert(pv.take(pv.len() as int) =~= pv);
            out
        },
        other => {
            let ghost v = other@;
            let out = vec![other];
            assert(out.deep_view() =~= seq![v]);
            out
        },
    }
}


/// Whether `i` is the first word that names the curl program.
pub open spec fn is_first_curl(words: Seq<Seq<char>>, i: int) -> bool {
    &&& 0 <= i < words.len()
    &&& names_curl(words[i])
    &&& forall|j: int| 0 <= j < i ==> !names_curl(#[trigger] words[j])
}

pub proof fn lemma_first_curl_unique(words: Seq<Seq<char>>, i: int, k: int)
    requires
        is_first_curl(words, i),
        is_first_curl(words, k),
    ensures
        i == k,
{
    if i < k {
        assert(!names_curl(words[i]));
    } else if k < i {
        assert(!names_curl(words[k]));
    }
}

/// What the command has once its words are read: a URL is owed; in GET mode the data
/// become query pieces; data or a form make a request without a method a POST, and data
/// bring a form-encoded `Content-Type` unless one is set; data and a form together are refused.
pub open spec fn finish_command(c: CommandView, id: Seq<char>) -> Result<CommandView, Seq<char>> {
    if c.url matches Some(u) && trim(u).len() > 0 {
        let c1 = if c.get_mode {
            CommandView { query_data: query_pieces(c.data), data: Seq::empty(), ..c }
        } else {
            c
        };
        let has_data = c1.data.len() > 0;
        let has_form = c1.form.len() > 0 || c1.files.len() > 0;
        if has_data && has_form {
            Err(msg(id, " 的 curl 命令不能同时使用 data 和 form"@))
        } else if has_data {
            Ok(
                CommandView {
                    method: if c1.method is None {
                        Some("POST"@)
                    } else {
                        c1.method
                    },
                    headers: with_header_if_missing(
                        c1.headers,
                        "Content-Type"@,
                        "application/x-www-form-urlencoded"@,
                    ),
                    ..c1
                },
            )
        } else if has_form && c1.method is None {
            Ok(CommandView { method: Some("POST"@), ..c1 })
        } else {
            Ok(c1)
        }
    } else {
        Err(msg(id, " 的 curl 命令缺少 URL"@))
    }
}

/// A request's command read from its words: the words after the first that names curl.
pub open spec fn spec_parse_curl_words(words: Seq<Seq<char>>, id: Seq<char>) -> Result<
    CommandView,
    Seq<char>,
> {
    if exists|i: int| is_first_curl(words, i) {
        let start = choose|i: int| is_first_curl(words, i);
        match spec_parse_curl_tokens(words.subrange(start + 1, words.len() as int), id) {
            Ok(c) => finish_command(c, id),
            Err(e) => Err(e),
        }
    } else {
        Err(msg(id, " 的 request 中没有找到 curl 命令"@))
    }
}

/// A request's command read from its text: not blank, cleaned, free of command
/// substitution, split into words as a shell would.
pub open spec fn spec_parse_curl(source: Seq<char>, id: Seq<char>) -> Result<CommandView, Seq<char>> {
    if trim(source).len() == 0 {
        Err(msg(id, " 缺少 request 内容"@))
    } else {
        let command = clean(source);
        if contains(command, "$("@) || contains(command, "`"@) {
            Err(msg(id, " 的 request 不支持 shell 命令替换"@))
        } else {
            match shell_words(command) {
                None => Err(msg(id, " 的 request 存在未闭合的引号"@)),
                Some(words) => spec_parse_curl_words(words, id),
            }
        }
    }
}

fn new_command() -> (r: ParsedCommand)
    ensures
        r@ == command_start(),
{
    let r = ParsedCommand {
        url: None,
        method: None,
        headers: Vec::new(),
        data: Vec::new(),
        query_data: Vec::new(),
        form: Vec::new(),
        files: Vec::new(),
        get_mode: false,
    };
    assert(r@.headers =~= Seq::<(Seq<char>, Seq<char>)>::empty());
    assert(r@.data =~= Seq::<PartView>::empty());
    assert(r@.query_data =~= Seq::<PartView>::empty());
    assert(r@.form =~= Seq::<ParamView>::empty());
    assert(r@.files =~= Seq::<FileView>::empty());
    r
}

fn query_data_of(data: &Vec<DataPart>) -> (r: Vec<DataPart>)
    ensures
        r.deep_view() == query_pieces(data.deep_view()),
{
    let ghost dv = data.deep_view();
    let mut out: Vec<DataPart> = Vec::new();
    let mut i: usize = 0;
    assert(dv.take(0) =~= Seq::<PartView>::empty());
    while i < data.len()
        invariant
            dv == data.deep_view(),
            i <= data@.len(),
            out.deep_view() == query_pieces(dv.take(i as int)),
        decreases data@.len() - i,
    {
        let pieces = split_query_data_part(data[i].clone());
        let ghost before = out.deep_view();
        let mut j: usize = 0;
        while j < pieces.len()
            invariant
                j <= pieces@.len(),
                out.deep_view() == before + pieces.deep_view().take(j as int),
            decreases pieces@.len() - j,
        {
            let c = pieces[j].clone();
            assert(c@ == pieces.deep_view()[j as int]);
            let ghost prev = out.deep_view();
            out.push(c);
            assert(out.deep_view() =~= prev.push(c@));
            assert(pieces.deep_view().take(j + 1) =~= pieces.deep_view().take(j as int).push(c@));
            assert(out.deep_view() =~= before + pieces.deep_view().take(j + 1));
            j = j + 1;
        }
        assert(pieces.deep_view().take(pieces@.len() as int) =~= pieces.deep_view());
        assert(dv.take(i + 1).drop_last() =~= dv.take(i as int));
        assert(dv.take(i + 1).last() == dv[i as int]);
        i = i + 1;
    }
    assert(dv.take(dv.len() as int) =~= dv);
    out
}

fn finish_parsed(parsed: ParsedCommand, request_id: &str) -> (r: Result<ParsedCommand, String>)
    ensures
        match r {
            Ok(p) => finish_command(parsed@, request_id@) == Ok::<CommandView, Seq<char>>(p@),
            Err(e) => finish_command(parsed@, request_id@) == Err::<CommandView, Seq<char>>(e@),
        },
{
    let mut parsed = parsed;
    let ghost c = parsed@;
    let has_url = match &parsed.url {
        Some(u) => !trim_str(u.as_str()).as_str().is_empty(),
        None => false,
    };
    if !has_url {
        return Err(message(request_id, " 的 curl 命令缺少 URL"));
    }
    if parsed.get_mode {
        let pieces = query_data_of(&parsed.data);
        parsed.query_data = pieces;
        parsed.data = Vec::new();
        assert(parsed@.data =~= Seq::<PartView>::empty());
    }
    let ghost c1 = parsed@;
    let has_data = parsed.data.len() > 0;
    let has_form = parsed.form.len() > 0 || parsed.files.len() > 0;
    if has_data && has_form {
        return Err(message(request_id, " 的 curl 命令不能同时使用 data 和 form"));
    }
    if has_data {
        if parsed.method.is_none() {
            parsed.method = Some(copy_str("POST"));
        }
        insert_header_if_missing(&mut parsed.headers, "Content-Type", "application/x-www-form-urlencoded");
    } else if has_form && parsed.method.is_none() {
        parsed.method = Some(copy_str("POST"));
    }
    Ok(parsed)
}

/// What follows the word splitting of `parse_curl`, for words already split.
pub fn parse_curl_words(words: &Vec<String>, request_id: &str) -> (r: Result<ParsedCommand, String>)
    ensures
        match r {
            Ok(p) => spec_parse_curl_words(views(words@), request_id@) == Ok::<CommandView, Seq<char>>(p@),
            Err(e) => spec_parse_curl_words(views(words@), request_id@) == Err::<CommandView, Seq<char>>(e@),
        },
{
    let ghost wv = views(words@);
    let mut start: usize = 0;
    while start < words.len() && !is_curl_command(words[start].as_str())
        invariant
            wv == views(words@),
            start <= words@.len(),
            forall|j: int| 0 <= j < start ==> !names_curl(#[trigger] wv[j]),
        decreases words@.len() - start,
    {
        start = start + 1;
    }
    if start == words.len() {
        assert forall|i: int| !is_first_curl(wv, i) by {
            if 0 <= i < wv.len() {
                assert(!names_curl(wv[i]));
            }
        }
        return Err(message(request_id, " 的 request 中没有找到 curl 命令"));
    }
    assert(wv[start as int] == words@[start as int]@);
    assert(is_first_curl(wv, start as int));
    proof {
        let k = choose|i: int| is_first_curl(wv, i);
        lemma_first_curl_unique(wv, k, start as int);
    }
    let mut tokens: Vec<String> = Vec::new();
    let mut i: usize = start + 1;
    while i < words.len()
        invariant
            wv == views(words@),
            start < i <= words@.len(),
            views(tokens@) == wv.subrange(start + 1, i as int),
        decreases words@.len() - i,
    {
        let w = words[i].clone();
        assert(w@ == wv[i as int]);
        let ghost prev = views(tokens@);
        tokens.push(w);
        assert(views(tokens@) =~= prev.push(w@));
        assert(views(tokens@) =~= wv.subrange(start + 1, i + 1));
        i = i + 1;
    }
    let mut parsed = new_command();
    match parse_curl_tokens(&mut parsed, &tokens, request_id) {
        Ok(()) => {},
        Err(e) => return Err(e),
    }
    finish_parsed(parsed, request_id)
}

/// Reads the cURL command of request `request_id` from the text of its `request` field.
pub fn parse_curl(source: &str, request_id: &str) -> (r: Result<ParsedCommand, String>)
    ensures
        match r {
            Ok(p) => spec_parse_curl(source@, request_id@) == Ok::<CommandView, Seq<char>>(p@),
            Err(e) => spec_parse_curl(source@, request_id@) == Err::<CommandView, Seq<char>>(e@),
        },
{
    if trim_str(source).as_str().is_empty() {
        return Err(message(request_id, " 缺少 request 内容"));
    }
    let command = clean_command_block(source);
    if contains_str(command.as_str(), "$(") || contains_str(command.as_str(), "`") {
        return Err(message(request_id, " 的 request 不支持 shell 命令替换"));
    }
    match shell_split(command.as_str()) {
        None => Err(message(request_id, " 的 request 存在未闭合的引号")),
        Some(words) => parse_curl_words(&words, request_id),
    }
}

} // verus!
