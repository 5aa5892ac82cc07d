//! Push notification channels (bark, ServerChan, Telegram, DingTalk,
//! WxPusher, WeCom): the request each channel's wire protocol asks for, and
//! how its reply is judged. The requests are sent outside the library.

use vstd::prelude::*;

use crate::json::{
    JsonModel, JsonValue, get_bool, get_i64, get_str, json_bool, json_i64, json_integer,
    json_str, json_string, json_string_list, lemma_member_at, members_of, model_member, model_of,
    push_member, str_models,
};
use crate::oidc::nonblank;
use crate::text::{
    lemma_replace_absent, cat, chars_ends_with, chars_of, chars_starts_with, decimal_int, ends_with, nonempty_trimmed,
    parse_i64, parse_i64_spec, replace, replace_str, split, split_trim_nonempty, starts_with,
    str_eq, string_of, string_views, strip_all, strip_suffixes, sub_chars, trim, trim_chars,
};

verus! {

/// The push channel kinds this module handles (everything but `webhook`,
/// `custom_http` and `email`).
pub const CHANNEL_KINDS: [&'static str; 8] = [
    "bark",
    "serverchan",
    "telegram",
    "dingtalk",
    "wxpusher",
    "wxpusher_spt",
    "wecom_app",
    "wecom_webhook",
];

/// Whether `kind` names a push channel.
pub open spec fn is_push_kind(kind: Seq<char>) -> bool {
    kind == "bark"@ || kind == "serverchan"@ || kind == "telegram"@ || kind == "dingtalk"@ || kind
        == "wxpusher"@ || kind == "wxpusher_spt"@ || kind == "wecom_app"@ || kind
        == "wecom_webhook"@
}

/// Whether `kind` is one of `CHANNEL_KINDS`.
pub fn is_push_channel(kind: &str) -> (r: bool)
    ensures
        r == is_push_kind(kind@),
{
    str_eq(kind, "bark") || str_eq(kind, "serverchan") || str_eq(kind, "telegram") || str_eq(
        kind,
        "dingtalk",
    ) || str_eq(kind, "wxpusher") || str_eq(kind, "wxpusher_spt") || str_eq(kind, "wecom_app")
        || str_eq(kind, "wecom_webhook")
}

/// How a channel's reply is judged.
#[derive(Clone, Copy, Debug, PartialEq, Eq)]
pub enum ResponseCheck {
    /// A success status is enough.
    Status,
    /// A success status, and the JSON reply's integer `field` (when present)
    /// equal to `ok`.
    BusinessCode { field: &'static str, ok: i64 },
    /// A success status, and the JSON reply's `success` is `true`.
    SuccessFlag,
}

/// The body a request carries.
#[derive(Debug)]
pub enum RequestBody {
    Empty,
    Json(JsonValue),
    Text(String),
}

/// One HTTP request a channel sends.
#[derive(Debug)]
pub struct ChannelRequest {
    /// The method's name, as `http::Method` spells it.
    pub method: String,
    pub url: String,
    /// Query parameters appended to the URL.
    pub query: Vec<(String, String)>,
    pub headers: Vec<(String, String)>,
    pub body: RequestBody,
    pub check: ResponseCheck,
}

/// A request body as mathematics sees it.
pub enum BodyModel {
    Empty,
    Json(JsonModel),
    Text(Seq<char>),
}

/// A request as mathematics sees it.
pub struct RequestModel {
    pub method: Seq<char>,
    pub url: Seq<char>,
    pub query: Seq<(Seq<char>, Seq<char>)>,
    pub headers: Seq<(Seq<char>, Seq<char>)>,
    pub body: BodyModel,
    pub check: ResponseCheck,
}

/// The characters of name/value pairs.
pub open spec fn pairs_view(p: Seq<(String, String)>) -> Seq<(Seq<char>, Seq<char>)> {
    p.map_values(|x: (String, String)| (x.0@, x.1@))
}

/// The model of a body.
pub open spec fn body_model(b: RequestBody) -> BodyModel {
    match b {
        RequestBody::Empty => BodyModel::Empty,
        RequestBody::Json(j) => BodyModel::Json(model_of(j)),
        RequestBody::Text(t) => BodyModel::Text(t@),
    }
}

/// The model of a request.
pub open spec fn request_model(r: ChannelRequest) -> RequestModel {
    RequestModel {
        method: r.method@,
        url: r.url@,
        query: pairs_view(r.query@),
        headers: pairs_view(r.headers@),
        body: body_model(r.body),
        check: r.check,
    }
}

/// A POST of a JSON body to `url`, without query or extra headers.
pub open spec fn post_json(url: Seq<char>, payload: JsonModel, check: ResponseCheck) -> RequestModel {
    RequestModel {
        method: "POST"@,
        url,
        query: Seq::empty(),
        headers: Seq::empty(),
        body: BodyModel::Json(payload),
        check,
    }
}

/// The model of a planned request, or the message of why there is none.
pub open spec fn plan_model(r: Result<ChannelRequest, String>) -> Result<RequestModel, Seq<char>> {
    match r {
        Ok(q) => Ok(request_model(q)),
        Err(e) => Err(e@),
    }
}

fn post_json_request(url: String, payload: JsonValue, check: ResponseCheck) -> (r: ChannelRequest)
    ensures
        request_model(r) == post_json(url@, model_of(payload), check),
{
    let r = ChannelRequest {
        method: String::from_str("POST"),
        url,
        query: Vec::new(),
        headers: Vec::new(),
        body: RequestBody::Json(payload),
        check,
    };
    assert(pairs_view(r.query@) =~= Seq::<(Seq<char>, Seq<char>)>::empty());
    r
}

/// A setting of a channel: a string member, trimmed, when not blank.
pub open spec fn cfg_value(config: JsonValue, key: Seq<char>) -> Option<Seq<char>> {
    match json_str(config, key) {
        Some(s) => nonblank(s),
        None => None,
    }
}

/// A channel setting (`config[key]` as a trimmed, non-blank string).
pub fn cfg_str(config: &JsonValue, key: &str) -> (r: Option<String>)
    ensures
        crate::oidc::opt_string_view(r) == cfg_value(*config, key@),
{
    match get_str(config, key) {
        Some(s) => {
            let c = chars_of(s.as_str());
            let t = trim_chars(c.as_slice());
            if t.len() > 0 {
                Some(string_of(t.as_slice()))
            } else {
                None
            }
        },
        None => None,
    }
}

/// `url` with a trailing slash.
pub open spec fn with_slash(url: Seq<char>) -> Seq<char> {
    if ends_with(url, "/"@) {
        url
    } else {
        url + "/"@
    }
}

/// `url` with a scheme: kept when it starts with `http://` or `https://`,
/// else prefixed with `https://`.
pub open spec fn with_scheme(url: Seq<char>) -> Seq<char> {
    if starts_with(url, "http://"@) || starts_with(url, "https://"@) {
        url
    } else {
        "https://"@ + url
    }
}

/// Append a `/` unless the URL already ends with one.
pub fn ensure_trailing_slash(url: &str) -> (r: String)
    ensures
        r@ == with_slash(url@),
{
    let v = chars_of(url);
    let slash = chars_of("/");
    if chars_ends_with(v.as_slice(), slash.as_slice()) {
        String::from_str(url)
    } else {
        cat(url, "/")
    }
}

/// Prefix `https://` unless the URL has an http(s) scheme.
pub fn ensure_scheme(url: &str) -> (r: String)
    ensures
        r@ == with_scheme(url@),
{
    let v = chars_of(url);
    let http = chars_of("http://");
    let https = chars_of("https://");
    if chars_starts_with(v.as_slice(), http.as_slice()) || chars_starts_with(
        v.as_slice(),
        https.as_slice(),
    ) {
        String::from_str(url)
    } else {
        cat("https://", url)
    }
}

/// The plain-text message: title, newline, body.
pub open spec fn plain(title: Seq<char>, body: Seq<char>) -> Seq<char> {
    title + "\n"@ + body
}

/// The title and the body on two lines.
pub fn plain_body(title: &str, body: &str) -> (r: String)
    ensures
        r@ == plain(title@, body@),
{
    let t = cat(title, "\n");
    cat(t.as_str(), body)
}

/// The body with each literal `\r\n` escape turned into `to`.
pub open spec fn unescaped(body: Seq<char>, to: Seq<char>) -> Seq<char> {
    replace(body, "\\r\\n"@, to)
}

fn unescape(body: &str, to: &str) -> (r: String)
    ensures
        r@ == unescaped(body@, to@),
{
    proof {
        reveal_strlit("\\r\\n");
    }
    replace_str(body, "\\r\\n", to)
}

/// The first 99 characters.
pub open spec fn summary_of(content: Seq<char>) -> Seq<char> {
    if content.len() <= 99 {
        content
    } else {
        content.take(99)
    }
}

fn summary(content: &str) -> (r: String)
    ensures
        r@ == summary_of(content@),
{
    let v = chars_of(content);
    if v.len() <= 99 {
        String::from_str(content)
    } else {
        let head = sub_chars(v.as_slice(), 0, 99);
        assert(head@ =~= v@.take(99));
        string_of(head.as_slice())
    }
}

/// The bark request: the device URL (with a trailing slash) and the title,
/// the body and the optional sound, group and icon.
pub open spec fn bark_plan(config: JsonValue, title: Seq<char>, body: Seq<char>) -> Result<
    RequestModel,
    Seq<char>,
> {
    match cfg_value(config, "url"@) {
        None => Err("bark channel requires a device URL (e.g. https://api.day.app/yourkey)"@),
        Some(url) => {
            let base = seq![("title"@, JsonModel::Str(title)), ("body"@, JsonModel::Str(unescaped(body, "\n"@)))];
            let m1 = match cfg_value(config, "sound"@) {
                Some(v) => base.push(("sound"@, JsonModel::Str(v))),
                None => base,
            };
            let m2 = match cfg_value(config, "group"@) {
                Some(v) => m1.push(("group"@, JsonModel::Str(v))),
                None => m1,
            };
            let m3 = match cfg_value(config, "icon"@) {
                Some(v) => m2.push(("icon"@, JsonModel::Str(v))),
                None => m2,
            };
            Ok(post_json(with_slash(url), JsonModel::Object(m3), ResponseCheck::Status))
        },
    }
}

fn push_optional(
    fields: &mut Vec<(String, JsonValue)>,
    config: &JsonValue,
    key: &str,
) -> (r: Ghost<Seq<(Seq<char>, JsonModel)>>)
    ensures
        members_of(final(fields)@) == match cfg_value(*config, key@) {
            Some(v) => members_of(old(fields)@).push((key@, JsonModel::Str(v))),
            None => members_of(old(fields)@),
        },
{
    match cfg_str(config, key) {
        Some(v) => push_member(fields, key, json_string(v.as_str())),
        None => {},
    }
    Ghost(members_of(fields@))
}

fn bark_request(config: &JsonValue, title: &str, body: &str) -> (r: Result<ChannelRequest, String>)
    ensures
        plan_model(r) == bark_plan(*config, title@, body@),
{
    let url = match cfg_str(config, "url") {
        Some(u) => u,
        None => {
            return Err(
                String::from_str(
                    "bark channel requires a device URL (e.g. https://api.day.app/yourkey)",
                ),
            );
        },
    };
    let mut fields: Vec<(String, JsonValue)> = Vec::new();
    push_member(&mut fields, "title", json_string(title));
    let text = unescape(body, "\n");
    push_member(&mut fields, "body", json_string(text.as_str()));
    assert(members_of(fields@) =~= seq![
        ("title"@, JsonModel::Str(title@)),
        ("body"@, JsonModel::Str(unescaped(body@, "\n"@))),
    ]);
    push_optional(&mut fields, config, "sound");
    push_optional(&mut fields, config, "group");
    push_optional(&mut fields, config, "icon");
    let target = ensure_trailing_slash(url.as_str());
    Ok(post_json_request(target, JsonValue::Object(fields), ResponseCheck::Status))
}

/// The ServerChan request: the SendKey (without trailing `.send`) in the
/// URL, the title as `text` and the body as `desp`.
pub open spec fn serverchan_plan(config: JsonValue, title: Seq<char>, body: Seq<char>) -> Result<
    RequestModel,
    Seq<char>,
> {
    match cfg_value(config, "sendkey"@) {
        None => Err("serverchan channel requires a SendKey"@),
        Some(key) => Ok(
            post_json(
                "https://sctapi.ftqq.com/"@ + strip_suffixes(key, ".send"@) + ".send"@,
                JsonModel::Object(
                    seq![("text"@, JsonModel::Str(title)), ("desp"@, JsonModel::Str(unescaped(body, "\n\n"@)))],
                ),
                ResponseCheck::Status,
            ),
        ),
    }
}

fn serverchan_request(config: &JsonValue, title: &str, body: &str) -> (r: Result<
    ChannelRequest,
    String,
>)
    ensures
        plan_model(r) == serverchan_plan(*config, title@, body@),
{
    let key = match cfg_str(config, "sendkey") {
        Some(k) => k,
        None => {
            return Err(String::from_str("serverchan channel requires a SendKey"));
        },
    };
    proof {
        reveal_strlit(".send");
    }
    let stripped = strip_all(key.as_str(), ".send");
    let u1 = cat("https://sctapi.ftqq.com/", stripped.as_str());
    let url = cat(u1.as_str(), ".send");
    let mut fields: Vec<(String, JsonValue)> = Vec::new();
    push_member(&mut fields, "text", json_string(title));
    let desp = unescape(body, "\n\n");
    push_member(&mut fields, "desp", json_string(desp.as_str()));
    assert(members_of(fields@) =~= seq![
        ("text"@, JsonModel::Str(title@)),
        ("desp"@, JsonModel::Str(unescaped(body@, "\n\n"@))),
    ]);
    Ok(post_json_request(url, JsonValue::Object(fields), ResponseCheck::Status))
}

/// The Telegram request: the bot token in the URL (on `host` when one is
/// configured) and an HTML message with the title in bold.
pub open spec fn telegram_plan(config: JsonValue, title: Seq<char>, body: Seq<char>) -> Result<
    RequestModel,
    Seq<char>,
> {
    match cfg_value(config, "token"@) {
        None => Err("telegram channel requires a bot token"@),
        Some(token) => match cfg_value(config, "chat_id"@) {
            None => Err("telegram channel requires a chat id"@),
            Some(chat) => {
                let text = "<b>"@ + title + "</b>\n"@ + unescaped(body, "\n"@);
                let url = match cfg_value(config, "host"@) {
                    Some(host) => with_slash(with_scheme(host)) + "bot"@ + token + "/sendMessage"@,
                    None => "https://api.telegram.org/bot"@ + token + "/sendMessage"@,
                };
                Ok(
                    post_json(
                        url,
                        JsonModel::Object(
                            seq![
                                ("chat_id"@, JsonModel::Str(chat)),
                                ("text"@, JsonModel::Str(text)),
                                ("disable_web_page_preview"@, JsonModel::Bool(true)),
                                ("parse_mode"@, JsonModel::Str("HTML"@)),
                            ],
                        ),
                        ResponseCheck::Status,
                    ),
                )
            },
        },
    }
}

fn telegram_request(config: &JsonValue, title: &str, body: &str) -> (r: Result<
    ChannelRequest,
    String,
>)
    ensures
        plan_model(r) == telegram_plan(*config, title@, body@),
{
    let token = match cfg_str(config, "token") {
        Some(t) => t,
        None => {
            return Err(String::from_str("telegram channel requires a bot token"));
        },
    };
    let chat = match cfg_str(config, "chat_id") {
        Some(c) => c,
        None => {
            return Err(String::from_str("telegram channel requires a chat id"));
        },
    };
    let t1 = cat("<b>", title);
    let t2 = cat(t1.as_str(), "</b>\n");
    let rest = unescape(body, "\n");
    let text = cat(t2.as_str(), rest.as_str());
    let url = match cfg_str(config, "host") {
        Some(host) => {
            let h = ensure_scheme(host.as_str());
            let base = ensure_trailing_slash(h.as_str());
            let a = cat(base.as_str(), "bot");
            let b = cat(a.as_str(), token.as_str());
            cat(b.as_str(), "/sendMessage")
        },
        None => {
            let a = cat("https://api.telegram.org/bot", token.as_str());
            cat(a.as_str(), "/sendMessage")
        },
    };
    let mut fields: Vec<(String, JsonValue)> = Vec::new();
    push_member(&mut fields, "chat_id", json_string(chat.as_str()));
    push_member(&mut fields, "text", json_string(text.as_str()));
    push_member(&mut fields, "disable_web_page_preview", JsonValue::Bool(true));
    push_member(&mut fields, "parse_mode", json_string("HTML"));
    assert(members_of(fields@) =~= seq![
        ("chat_id"@, JsonModel::Str(chat@)),
        ("text"@, JsonModel::Str(text@)),
        ("disable_web_page_preview"@, JsonModel::Bool(true)),
        ("parse_mode"@, JsonModel::Str("HTML"@)),
    ]);
    Ok(post_json_request(url, JsonValue::Object(fields), ResponseCheck::Status))
}

/// The DingTalk robot request: a markdown message, judged by `errcode == 0`.
pub open spec fn dingtalk_plan(config: JsonValue, title: Seq<char>, body: Seq<char>) -> Result<
    RequestModel,
    Seq<char>,
> {
    match cfg_value(config, "access_token"@) {
        None => Err("dingtalk channel requires a robot access token"@),
        Some(token) => Ok(
            post_json(
                "https://oapi.dingtalk.com/robot/send?access_token="@ + token,
                JsonModel::Object(
                    seq![
                        ("msgtype"@, JsonModel::Str("markdown"@)),
                        (
                            "markdown"@,
                            JsonModel::Object(
                                seq![
                                    ("title"@, JsonModel::Str(title)),
                                    (
                                        "text"@,
                                        JsonModel::Str(
                                            "#### "@ + title + "\n\n"@ + unescaped(body, "\n\n"@),
                                        ),
                                    ),
                                ],
                            ),
                        ),
                    ],
                ),
                ResponseCheck::BusinessCode { field: "errcode", ok: 0 },
            ),
        ),
    }
}

fn dingtalk_request(config: &JsonValue, title: &str, body: &str) -> (r: Result<
    ChannelRequest,
    String,
>)
    ensures
        plan_model(r) == dingtalk_plan(*config, title@, body@),
{
    let token = match cfg_str(config, "access_token") {
        Some(t) => t,
        None => {
            return Err(String::from_str("dingtalk channel requires a robot access token"));
        },
    };
    let url = cat("https://oapi.dingtalk.com/robot/send?access_token=", token.as_str());
    let h = cat("#### ", title);
    let h2 = cat(h.as_str(), "\n\n");
    let rest = unescape(body, "\n\n");
    let text = cat(h2.as_str(), rest.as_str());
    let mut inner: Vec<(String, JsonValue)> = Vec::new();
    push_member(&mut inner, "title", json_string(title));
    push_member(&mut inner, "text", json_string(text.as_str()));
    assert(members_of(inner@) =~= seq![
        ("title"@, JsonModel::Str(title@)),
        ("text"@, JsonModel::Str(text@)),
    ]);
    let mut fields: Vec<(String, JsonValue)> = Vec::new();
    push_member(&mut fields, "msgtype", json_string("markdown"));
    let ghost inner_model = model_of(JsonValue::Object(inner));
    push_member(&mut fields, "markdown", JsonValue::Object(inner));
    assert(members_of(fields@) =~= seq![
        ("msgtype"@, JsonModel::Str("markdown"@)),
        ("markdown"@, inner_model),
    ]);
    Ok(
        post_json_request(
            url,
            JsonValue::Object(fields),
            ResponseCheck::BusinessCode { field: "errcode", ok: 0 },
        ),
    )
}

/// The WxPusher (app token) request, judged by `success == true`.
pub open spec fn wxpusher_plan(config: JsonValue, title: Seq<char>, body: Seq<char>) -> Result<
    RequestModel,
    Seq<char>,
> {
    match cfg_value(config, "app_token"@) {
        None => Err("wxpusher channel requires an appToken"@),
        Some(app_token) => match cfg_value(config, "uid"@) {
            None => Err("wxpusher channel requires a uid"@),
            Some(uid) => {
                let content = plain(title, unescaped(body, "\n"@));
                Ok(
                    post_json(
                        "https://wxpusher.zjiecode.com/api/send/message"@,
                        JsonModel::Object(
                            seq![
                                ("appToken"@, JsonModel::Str(app_token)),
                                ("content"@, JsonModel::Str(content)),
                                ("summary"@, JsonModel::Str(summary_of(content))),
                                ("contentType"@, JsonModel::Number("1"@)),
                                ("uids"@, JsonModel::Array(seq![JsonModel::Str(uid)])),
                            ],
                        ),
                        ResponseCheck::SuccessFlag,
                    ),
                )
            },
        },
    }
}

/// A JSON number given by its text.
fn json_number(text: &str) -> (r: JsonValue)
    ensures
        model_of(r) == JsonModel::Number(text@),
{
    JsonValue::Number(String::from_str(text))
}

fn wxpusher_request(config: &JsonValue, title: &str, body: &str) -> (r: Result<
    ChannelRequest,
    String,
>)
    ensures
        plan_model(r) == wxpusher_plan(*config, title@, body@),
{
    let app_token = match cfg_str(config, "app_token") {
        Some(t) => t,
        None => {
            return Err(String::from_str("wxpusher channel requires an appToken"));
        },
    };
    let uid = match cfg_str(config, "uid") {
        Some(u) => u,
        None => {
            return Err(String::from_str("wxpusher channel requires a uid"));
        },
    };
    let text = unescape(body, "\n");
    let content = plain_body(title, text.as_str());
    let sum = summary(content.as_str());
    let mut uids: Vec<String> = Vec::new();
    uids.push(uid);
    let ghost uid_view = uids@[0]@;
    let list = json_string_list(&uids);
    assert(str_models(string_views(uids@)) =~= seq![JsonModel::Str(uid_view)]);
    let mut fields: Vec<(String, JsonValue)> = Vec::new();
    push_member(&mut fields, "appToken", json_string(app_token.as_str()));
    push_member(&mut fields, "content", json_string(content.as_str()));
    push_member(&mut fields, "summary", json_string(sum.as_str()));
    push_member(&mut fields, "contentType", json_number("1"));
    push_member(&mut fields, "uids", list);
    assert(members_of(fields@) =~= seq![
        ("appToken"@, JsonModel::Str(app_token@)),
        ("content"@, JsonModel::Str(content@)),
        ("summary"@, JsonModel::Str(summary_of(content@))),
        ("contentType"@, JsonModel::Number("1"@)),
        ("uids"@, JsonModel::Array(seq![JsonModel::Str(uid_view)])),
    ]);
    Ok(post_json_request(
        String::from_str("https://wxpusher.zjiecode.com/api/send/message"),
        JsonValue::Object(fields),
        ResponseCheck::SuccessFlag,
    ))
}

/// At most the first ten codes.
pub open spec fn first_ten(codes: Seq<Seq<char>>) -> Seq<Seq<char>> {
    if codes.len() <= 10 {
        codes
    } else {
        codes.take(10)
    }
}

/// The WxPusher simple-push request for up to ten SPT codes, judged by
/// `code == 1000`.
pub open spec fn wxpusher_spt_plan(config: JsonValue, title: Seq<char>, body: Seq<char>) -> Result<
    RequestModel,
    Seq<char>,
> {
    match cfg_value(config, "spt"@) {
        None => Err("wxpusher_spt channel requires an SPT code"@),
        Some(raw) => {
            let spts = first_ten(nonempty_trimmed(split(raw, ","@)));
            if spts.len() == 0 {
                Err("wxpusher_spt channel requires at least one SPT code"@)
            } else {
                let content = plain(title, unescaped(body, "\n"@));
                Ok(
                    post_json(
                        "https://wxpusher.zjiecode.com/api/send/message/simple-push"@,
                        JsonModel::Object(
                            seq![
                                ("content"@, JsonModel::Str(content)),
                                ("summary"@, JsonModel::Str(summary_of(content))),
                                ("contentType"@, JsonModel::Number("1"@)),
                                ("sptList"@, JsonModel::Array(str_models(spts))),
                            ],
                        ),
                        ResponseCheck::BusinessCode { field: "code", ok: 1000 },
                    ),
                )
            }
        },
    }
}

fn wxpusher_spt_request(config: &JsonValue, title: &str, body: &str) -> (r: Result<
    ChannelRequest,
    String,
>)
    ensures
        plan_model(r) == wxpusher_spt_plan(*config, title@, body@),
{
    let raw = match cfg_str(config, "spt") {
        Some(s) => s,
        None => {
            return Err(String::from_str("wxpusher_spt channel requires an SPT code"));
        },
    };
    let mut spts = split_trim_nonempty(raw.as_str(), ",");
    if spts.len() > 10 {
        spts.truncate(10);
        assert(string_views(spts@) =~= first_ten(nonempty_trimmed(split(raw@, ","@))));
    }
    if spts.len() == 0 {
        return Err(String::from_str("wxpusher_spt channel requires at least one SPT code"));
    }
    let text = unescape(body, "\n");
    let content = plain_body(title, text.as_str());
    let sum = summary(content.as_str());
    let list = json_string_list(&spts);
    let mut fields: Vec<(String, JsonValue)> = Vec::new();
    push_member(&mut fields, "content", json_string(content.as_str()));
    push_member(&mut fields, "summary", json_string(sum.as_str()));
    push_member(&mut fields, "contentType", json_number("1"));
    push_member(&mut fields, "sptList", list);
    assert(members_of(fields@) =~= seq![
        ("content"@, JsonModel::Str(content@)),
        ("summary"@, JsonModel::Str(summary_of(content@))),
        ("contentType"@, JsonModel::Number("1"@)),
        ("sptList"@, JsonModel::Array(str_models(first_ten(nonempty_trimmed(split(raw@, ","@)))))),
    ]);
    Ok(post_json_request(
        String::from_str("https://wxpusher.zjiecode.com/api/send/message/simple-push"),
        JsonValue::Object(fields),
        ResponseCheck::BusinessCode { field: "code", ok: 1000 },
    ))
}

/// The WeCom group-robot request, judged by `errcode == 0`.
pub open spec fn wecom_webhook_plan(config: JsonValue, title: Seq<char>, body: Seq<char>) -> Result<
    RequestModel,
    Seq<char>,
> {
    match cfg_value(config, "key"@) {
        None => Err("wecom_webhook channel requires a webhook key"@),
        Some(key) => Ok(
            post_json(
                "https://qyapi.weixin.qq.com/cgi-bin/webhook/send?key="@ + key,
                text_message(plain(title, unescaped(body, "\n"@))),
                ResponseCheck::BusinessCode { field: "errcode", ok: 0 },
            ),
        ),
    }
}

/// A WeCom text message: `{"msgtype": "text", "text": {"content": ...}}`.
pub open spec fn text_message(content: Seq<char>) -> JsonModel {
    JsonModel::Object(
        seq![
            ("msgtype"@, JsonModel::Str("text"@)),
            ("text"@, JsonModel::Object(seq![("content"@, JsonModel::Str(content))])),
        ],
    )
}

fn text_message_json(content: &str) -> (r: JsonValue)
    ensures
        model_of(r) == text_message(content@),
{
    let mut inner: Vec<(String, JsonValue)> = Vec::new();
    push_member(&mut inner, "content", json_string(content));
    assert(members_of(inner@) =~= seq![("content"@, JsonModel::Str(content@))]);
    let ghost im = model_of(JsonValue::Object(inner));
    let mut fields: Vec<(String, JsonValue)> = Vec::new();
    push_member(&mut fields, "msgtype", json_string("text"));
    push_member(&mut fields, "text", JsonValue::Object(inner));
    assert(members_of(fields@) =~= seq![("msgtype"@, JsonModel::Str("text"@)), ("text"@, im)]);
    JsonValue::Object(fields)
}

fn wecom_webhook_request(config: &JsonValue, title: &str, body: &str) -> (r: Result<
    ChannelRequest,
    String,
>)
    ensures
        plan_model(r) == wecom_webhook_plan(*config, title@, body@),
{
    let key = match cfg_str(config, "key") {
        Some(k) => k,
        None => {
            return Err(String::from_str("wecom_webhook channel requires a webhook key"));
        },
    };
    let url = cat("https://qyapi.weixin.qq.com/cgi-bin/webhook/send?key=", key.as_str());
    let text = unescape(body, "\n");
    let content = plain_body(title, text.as_str());
    Ok(
        post_json_request(
            url,
            text_message_json(content.as_str()),
            ResponseCheck::BusinessCode { field: "errcode", ok: 0 },
        ),
    )
}

/// The two steps of a WeCom application message: fetch an access token,
/// then send the message with it.
#[derive(Debug)]
pub struct WecomPlan {
    /// The token request (`GET {base}cgi-bin/gettoken?corpid=..&corpsecret=..`).
    pub token: ChannelRequest,
    /// The API base, with a trailing slash.
    pub base: String,
    pub to_user: String,
    /// The agent id: a number when it parses as one, else the text.
    pub agent_id: JsonValue,
    /// The plain-text message.
    pub content: String,
}

/// The model of a WeCom application plan: the token request, the base, the
/// recipient, the agent id and the content.
pub open spec fn wecom_model(p: WecomPlan) -> (RequestModel, Seq<char>, Seq<char>, JsonModel, Seq<char>) {
    (request_model(p.token), p.base@, p.to_user@, model_of(p.agent_id), p.content@)
}

/// The agent id as WeCom expects it.
pub open spec fn agent_id_model(agentid: Seq<char>) -> JsonModel {
    match parse_i64_spec(agentid) {
        Some(n) => JsonModel::Number(decimal_int(n as int)),
        None => JsonModel::Str(agentid),
    }
}

/// The WeCom application plan of a channel.
pub open spec fn wecom_app_plan(config: JsonValue, title: Seq<char>, body: Seq<char>) -> Result<
    (RequestModel, Seq<char>, Seq<char>, JsonModel, Seq<char>),
    Seq<char>,
> {
    match cfg_value(config, "corpid"@) {
        None => Err("wecom_app channel requires a corpid"@),
        Some(corpid) => match cfg_value(config, "secret"@) {
            None => Err("wecom_app channel requires a secret"@),
            Some(secret) => match cfg_value(config, "agentid"@) {
                None => Err("wecom_app channel requires an agentid"@),
                Some(agentid) => {
                    let base = match cfg_value(config, "proxy"@) {
                        Some(proxy) => with_slash(with_scheme(proxy)),
                        None => "https://qyapi.weixin.qq.com/"@,
                    };
                    let token = RequestModel {
                        method: "GET"@,
                        url: base + "cgi-bin/gettoken"@,
                        query: seq![("corpid"@, corpid), ("corpsecret"@, secret)],
                        headers: Seq::empty(),
                        body: BodyModel::Empty,
                        check: ResponseCheck::Status,
                    };
                    Ok(
                        (
                            token,
                            base,
                            match cfg_value(config, "to_user"@) {
                                Some(t) => t,
                                None => "@all"@,
                            },
                            agent_id_model(agentid),
                            plain(title, unescaped(body, "\n"@)),
                        ),
                    )
                },
            },
        },
    }
}

fn wecom_app_request(config: &JsonValue, title: &str, body: &str) -> (r: Result<WecomPlan, String>)
    ensures
        match r {
            Ok(p) => wecom_app_plan(*config, title@, body@) == Ok::<
                (RequestModel, Seq<char>, Seq<char>, JsonModel, Seq<char>),
                Seq<char>,
            >(wecom_model(p)),
            Err(e) => wecom_app_plan(*config, title@, body@) == Err::<
                (RequestModel, Seq<char>, Seq<char>, JsonModel, Seq<char>),
                Seq<char>,
            >(e@),
        },
{
    let corpid = match cfg_str(config, "corpid") {
        Some(v) => v,
        None => {
            return Err(String::from_str("wecom_app channel requires a corpid"));
        },
    };
    let secret = match cfg_str(config, "secret") {
        Some(v) => v,
        None => {
            return Err(String::from_str("wecom_app channel requires a secret"));
        },
    };
    let agentid = match cfg_str(config, "agentid") {
        Some(v) => v,
        None => {
            return Err(String::from_str("wecom_app channel requires an agentid"));
        },
    };
    let to_user = match cfg_str(config, "to_user") {
        Some(t) => t,
        None => String::from_str("@all"),
    };
    let base = match cfg_str(config, "proxy") {
        Some(proxy) => {
            let p = ensure_scheme(proxy.as_str());
            ensure_trailing_slash(p.as_str())
        },
        None => String::from_str("https://qyapi.weixin.qq.com/"),
    };
    let ac = chars_of(agentid.as_str());
    let agent_id = match parse_i64(ac.as_slice()) {
        Some(n) => json_integer(n),
        None => json_string(agentid.as_str()),
    };
    let mut query: Vec<(String, String)> = Vec::new();
    query.push((String::from_str("corpid"), corpid));
    query.push((String::from_str("corpsecret"), secret));
    let token = ChannelRequest {
        method: String::from_str("GET"),
        url: cat(base.as_str(), "cgi-bin/gettoken"),
        query,
        headers: Vec::new(),
        body: RequestBody::Empty,
        check: ResponseCheck::Status,
    };
    assert(pairs_view(token.query@) =~= seq![("corpid"@, corpid@), ("corpsecret"@, secret@)]);
    assert(pairs_view(token.headers@) =~= Seq::<(Seq<char>, Seq<char>)>::empty());
    let text = unescape(body, "\n");
    let content = plain_body(title, text.as_str());
    Ok(WecomPlan { token, base, to_user, agent_id, content })
}

/// The message request of a WeCom plan once the token reply is in, `None`
/// when the reply carries no `access_token` string.
pub open spec fn wecom_message(
    plan: (RequestModel, Seq<char>, Seq<char>, JsonModel, Seq<char>),
    token: Option<Seq<char>>,
) -> Option<RequestModel> {
    match token {
        None => None,
        Some(t) => Some(
            post_json(
                plan.1 + "cgi-bin/message/send?access_token="@ + t,
                JsonModel::Object(
                    seq![
                        ("touser"@, JsonModel::Str(plan.2)),
                        ("msgtype"@, JsonModel::Str("text"@)),
                        ("agentid"@, plan.3),
                        ("text"@, JsonModel::Object(seq![("content"@, JsonModel::Str(plan.4))])),
                    ],
                ),
                ResponseCheck::BusinessCode { field: "errcode", ok: 0 },
            ),
        ),
    }
}

/// Build the WeCom message request from the token reply.
pub fn wecom_message_request(plan: WecomPlan, token_reply: &JsonValue) -> (r: Option<ChannelRequest>)
    ensures
        match r {
            Some(q) => wecom_message(wecom_model(plan), json_str(*token_reply, "access_token"@))
                == Some(request_model(q)),
            None => wecom_message(wecom_model(plan), json_str(*token_reply, "access_token"@)) is None,
        },
{
    let token = match get_str(token_reply, "access_token") {
        Some(t) => t,
        None => {
            return None;
        },
    };
    let ghost pm = wecom_model(plan);
    let u1 = cat(plan.base.as_str(), "cgi-bin/message/send?access_token=");
    let url = cat(u1.as_str(), token.as_str());
    let mut inner: Vec<(String, JsonValue)> = Vec::new();
    push_member(&mut inner, "content", json_string(plan.content.as_str()));
    assert(members_of(inner@) =~= seq![("content"@, JsonModel::Str(plan.content@))]);
    let ghost im = model_of(JsonValue::Object(inner));
    let mut fields: Vec<(String, JsonValue)> = Vec::new();
    push_member(&mut fields, "touser", json_string(plan.to_user.as_str()));
    push_member(&mut fields, "msgtype", json_string("text"));
    push_member(&mut fields, "agentid", plan.agent_id);
    push_member(&mut fields, "text", JsonValue::Object(inner));
    assert(members_of(fields@) =~= seq![
        ("touser"@, JsonModel::Str(pm.2)),
        ("msgtype"@, JsonModel::Str("text"@)),
        ("agentid"@, pm.3),
        ("text"@, im),
    ]);
    Some(
        post_json_request(
            url,
            JsonValue::Object(fields),
            ResponseCheck::BusinessCode { field: "errcode", ok: 0 },
        ),
    )
}

/// What a push channel sends.
#[derive(Debug)]
pub enum PushPlan {
    /// One request.
    Request(ChannelRequest),
    /// The two WeCom application steps.
    WecomApp(WecomPlan),
}

/// A push plan as mathematics sees it.
pub enum PushModel {
    Request(RequestModel),
    WecomApp((RequestModel, Seq<char>, Seq<char>, JsonModel, Seq<char>)),
}

/// The model of a planned push, or the message of why there is none.
pub open spec fn push_model(r: Result<PushPlan, String>) -> Result<PushModel, Seq<char>> {
    match r {
        Ok(PushPlan::Request(q)) => Ok(PushModel::Request(request_model(q))),
        Ok(PushPlan::WecomApp(p)) => Ok(PushModel::WecomApp(wecom_model(p))),
        Err(e) => Err(e@),
    }
}

/// A single-request plan as a push plan.
pub open spec fn single(r: Result<RequestModel, Seq<char>>) -> Result<PushModel, Seq<char>> {
    match r {
        Ok(q) => Ok(PushModel::Request(q)),
        Err(e) => Err(e),
    }
}

/// The push a channel kind makes with its configuration.
pub open spec fn push_plan_of(kind: Seq<char>, config: JsonValue, title: Seq<char>, body: Seq<char>) -> Result<
    PushModel,
    Seq<char>,
> {
    if kind == "bark"@ {
        single(bark_plan(config, title, body))
    } else if kind == "serverchan"@ {
        single(serverchan_plan(config, title, body))
    } else if kind == "telegram"@ {
        single(telegram_plan(config, title, body))
    } else if kind == "dingtalk"@ {
        single(dingtalk_plan(config, title, body))
    } else if kind == "wxpusher"@ {
        single(wxpusher_plan(config, title, body))
    } else if kind == "wxpusher_spt"@ {
        single(wxpusher_spt_plan(config, title, body))
    } else if kind == "wecom_app"@ {
        match wecom_app_plan(config, title, body) {
            Ok(p) => Ok(PushModel::WecomApp(p)),
            Err(e) => Err(e),
        }
    } else if kind == "wecom_webhook"@ {
        single(wecom_webhook_plan(config, title, body))
    } else {
        Err("unsupported push channel kind: "@ + kind)
    }
}

/// Every push channel needs configuration: with none at all, each kind
/// refuses to plan rather than sending something half-configured.
pub proof fn law_push_channels_need_config(kind: Seq<char>, config: JsonValue, title: Seq<char>, body: Seq<char>)
    requires
        is_push_kind(kind),
        forall|k: Seq<char>| #[trigger] config.spec_get(k) is None,
    ensures
        push_plan_of(kind, config, title, body) is Err,
{
}

/// A ServerChan push, for every configuration with a SendKey, POSTs JSON to
/// the key's `.send` URL whose `text` is the notification's title and whose
/// `desp` is its body, each literal `\r\n` in it turned into a blank line
/// (so a body without a backslash is sent as it is).
pub proof fn law_serverchan_sends_title_and_body(config: JsonValue, title: Seq<char>, body: Seq<char>)
    requires
        cfg_value(config, "sendkey"@) is Some,
    ensures
        push_plan_of("serverchan"@, config, title, body) matches Ok(PushModel::Request(q)) && {
            &&& q.method == "POST"@
            &&& q.url == "https://sctapi.ftqq.com/"@ + strip_suffixes(
                cfg_value(config, "sendkey"@).unwrap(),
                ".send"@,
            ) + ".send"@
            &&& q.body matches BodyModel::Json(payload) && {
                &&& model_member(payload, "text"@) == Some(JsonModel::Str(title))
                &&& model_member(payload, "desp"@) == Some(
                    JsonModel::Str(replace(body, "\\r\\n"@, "\n\n"@)),
                )
                &&& (forall|j: int| 0 <= j < body.len() ==> body[j] != '\\') ==> model_member(
                    payload,
                    "desp"@,
                ) == Some(JsonModel::Str(body))
            }
        },
{
    reveal_strlit("serverchan");
    reveal_strlit("bark");
    reveal_strlit("text");
    reveal_strlit("desp");
    reveal_strlit("\\r\\n");
    assert("serverchan"@[0] != "bark"@[0]);
    assert("text"@[0] != "desp"@[0]);
    let q = serverchan_plan(config, title, body)->Ok_0;
    let m = q.body->Json_0->Object_0;
    assert(m[0].0 == "text"@ && m[1].0 == "desp"@);
    lemma_member_at(m, 0, "text"@);
    lemma_member_at(m, 1, "desp"@);
    if forall|j: int| 0 <= j < body.len() ==> body[j] != '\\' {
        assert("\\r\\n"@[0] == '\\');
        lemma_replace_absent(body, "\\r\\n"@, "\n\n"@);
    }
}

fn as_push(q: Result<ChannelRequest, String>) -> (p: Result<PushPlan, String>)
    ensures
        push_model(p) == single(plan_model(q)),
{
    match q {
        Ok(x) => Ok(PushPlan::Request(x)),
        Err(e) => Err(e),
    }
}

/// Plan a push through `kind` with `config`: the request of the channel's
/// protocol, or the message of what its configuration lacks.
pub fn push_to_channel(kind: &str, config: &JsonValue, title: &str, body: &str) -> (r: Result<
    PushPlan,
    String,
>)
    ensures
        push_model(r) == push_plan_of(kind@, *config, title@, body@),
{
    if str_eq(kind, "bark") {
        as_push(bark_request(config, title, body))
    } else if str_eq(kind, "serverchan") {
        as_push(serverchan_request(config, title, body))
    } else if str_eq(kind, "telegram") {
        as_push(telegram_request(config, title, body))
    } else if str_eq(kind, "dingtalk") {
        as_push(dingtalk_request(config, title, body))
    } else if str_eq(kind, "wxpusher") {
        as_push(wxpusher_request(config, title, body))
    } else if str_eq(kind, "wxpusher_spt") {
        as_push(wxpusher_spt_request(config, title, body))
    } else if str_eq(kind, "wecom_app") {
        match wecom_app_request(config, title, body) {
            Ok(p) => Ok(PushPlan::WecomApp(p)),
            Err(e) => Err(e),
        }
    } else if str_eq(kind, "wecom_webhook") {
        as_push(wecom_webhook_request(config, title, body))
    } else {
        Err(cat("unsupported push channel kind: ", kind))
    }
}

/// Whether a JSON reply passes a business-code check: the integer `field`,
/// when present, equals `ok`.
pub open spec fn code_ok(reply: JsonValue, field: Seq<char>, ok: i64) -> bool {
    match json_i64(reply, field) {
        Some(code) => code == ok,
        None => true,
    }
}

/// `check_business_code`'s decision on a decoded reply.
pub fn business_code_ok(reply: &JsonValue, field: &str, ok: i64) -> (r: bool)
    ensures
        r == code_ok(*reply, field@, ok),
{
    match get_i64(reply, field) {
        Some(code) => code == ok,
        None => true,
    }
}

/// Whether a WxPusher reply reports `success: true`.
pub fn wxpusher_succeeded(reply: &JsonValue) -> (r: bool)
    ensures
        r == (json_bool(*reply, "success"@) == Some(true)),
{
    match get_bool(reply, "success") {
        Some(b) => b,
        None => false,
    }
}

} // verus!
