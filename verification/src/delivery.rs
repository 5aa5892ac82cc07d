//! One delivery path for every notification channel kind: the message
//! variables, the timestamp they show, and what a channel sends.

use vstd::prelude::*;

use crate::clock::{format_in_zone, iana_zone_known, unix_now, zone_is_known, zone_time_text};
use crate::email::{normalize_recipient, recipient_of};
use crate::json::{JsonModel, JsonValue, get_str, json_str, json_string, members_of, model_of, push_member};
use crate::oidc::{opt_string_view, opt_view};
use crate::push_channels::{
    BodyModel, ChannelRequest, PushModel, PushPlan, RequestBody, RequestModel, ResponseCheck,
    WecomPlan, is_push_kind, pairs_view, push_model, push_plan_of, push_to_channel,
    request_model, wecom_model,
};
use crate::text::{append_chars, cat, chars_of, decimal_int, i64_decimal, replace, replace_str, str_eq, string_of};

verus! {

/// The wall-clock text of `timestamp` in `timezone` (UTC when there is none
/// or it is not a known zone), empty when the timestamp is out of range.
pub open spec fn notification_time(timestamp: i64, timezone: Option<Seq<char>>) -> Seq<char> {
    let zone = match timezone {
        Some(z) => if iana_zone_known(z) {
            z
        } else {
            "UTC"@
        },
        None => "UTC"@,
    };
    match zone_time_text(timestamp, zone) {
        Some(t) => t,
        None => Seq::empty(),
    }
}

/// Render a Unix timestamp in the task's time zone as `%Y-%m-%d %H:%M:%S`:
/// the `{t}` variable of notification templates.
pub fn format_notification_time(timestamp: i64, timezone: Option<&str>) -> (r: String)
    ensures
        r@ == notification_time(timestamp, opt_view(timezone)),
{
    let zone: &str = match timezone {
        Some(z) => if zone_is_known(z) {
            z
        } else {
            "UTC"
        },
        None => "UTC",
    };
    match format_in_zone(timestamp, zone) {
        Some(t) => t,
        None => String::new(),
    }
}

/// Values substituted into a notification's title and body templates (and
/// into a custom HTTP channel's URL, headers and body).
pub struct TemplateVars<'a> {
    pub event: &'a str,
    pub task_id: i64,
    pub task_name: &'a str,
    pub run_id: i64,
    pub status: String,
    pub error: &'a str,
    pub log: &'a str,
    pub time: String,
}

/// `value` with each known placeholder replaced, in this order: `{event}`,
/// `{task_id}`, `{task}`, `{run_id}`, `{status}`, `{error}`, `{log}`,
/// `{t}`. Unknown placeholders stay as written.
pub open spec fn rendered(v: TemplateVars, value: Seq<char>) -> Seq<char> {
    let a = replace(value, "{event}"@, v.event@);
    let b = replace(a, "{task_id}"@, decimal_int(v.task_id as int));
    let c = replace(b, "{task}"@, v.task_name@);
    let d = replace(c, "{run_id}"@, decimal_int(v.run_id as int));
    let e = replace(d, "{status}"@, v.status@);
    let f = replace(e, "{error}"@, v.error@);
    let g = replace(f, "{log}"@, v.log@);
    replace(g, "{t}"@, v.time@)
}

/// Text without a `{` renders as itself: only placeholders change.
pub proof fn law_plain_text_renders_unchanged(v: TemplateVars, value: Seq<char>)
    requires
        forall|j: int| 0 <= j < value.len() ==> value[j] != '{',
    ensures
        rendered(v, value) == value,
{
    reveal_strlit("{event}");
    reveal_strlit("{task_id}");
    reveal_strlit("{task}");
    reveal_strlit("{run_id}");
    reveal_strlit("{status}");
    reveal_strlit("{error}");
    reveal_strlit("{log}");
    reveal_strlit("{t}");
    crate::text::lemma_replace_absent(value, "{event}"@, v.event@);
    crate::text::lemma_replace_absent(value, "{task_id}"@, decimal_int(v.task_id as int));
    crate::text::lemma_replace_absent(value, "{task}"@, v.task_name@);
    crate::text::lemma_replace_absent(value, "{run_id}"@, decimal_int(v.run_id as int));
    crate::text::lemma_replace_absent(value, "{status}"@, v.status@);
    crate::text::lemma_replace_absent(value, "{error}"@, v.error@);
    crate::text::lemma_replace_absent(value, "{log}"@, v.log@);
    crate::text::lemma_replace_absent(value, "{t}"@, v.time@);
}

impl<'a> TemplateVars<'a> {
    /// Replace every known `{placeholder}` in `value`.
    pub fn render(&self, value: &str) -> (r: String)
        ensures
            r@ == rendered(*self, value@),
    {
        proof {
            reveal_strlit("{event}");
            reveal_strlit("{task_id}");
            reveal_strlit("{task}");
            reveal_strlit("{run_id}");
            reveal_strlit("{status}");
            reveal_strlit("{error}");
            reveal_strlit("{log}");
            reveal_strlit("{t}");
        }
        let task_id = string_of(i64_decimal(self.task_id).as_slice());
        let run_id = string_of(i64_decimal(self.run_id).as_slice());
        let a = replace_str(value, "{event}", self.event);
        let b = replace_str(a.as_str(), "{task_id}", task_id.as_str());
        let c = replace_str(b.as_str(), "{task}", self.task_name);
        let d = replace_str(c.as_str(), "{run_id}", run_id.as_str());
        let e = replace_str(d.as_str(), "{status}", self.status.as_str());
        let f = replace_str(e.as_str(), "{error}", self.error);
        let g = replace_str(f.as_str(), "{log}", self.log);
        replace_str(g.as_str(), "{t}", self.time.as_str())
    }
}

/// Placeholder values for a message not tied to a run (a channel test):
/// event `test`, task `qdrust channel test`, ids 0, status `200`, no error,
/// a fixed log line, and the current time in `timezone`.
pub fn test_vars(timezone: Option<&str>) -> (r: TemplateVars<'static>)
    ensures
        r.event@ == "test"@,
        r.task_id == 0,
        r.task_name@ == "qdrust channel test"@,
        r.run_id == 0,
        r.status@ == "200"@,
        r.error@ == ""@,
        r.log@ == "This is a test message from qdrust. If you can read this, the channel works."@,
        exists|t: i64| r.time@ == notification_time(t, opt_view(timezone)),
{
    let now = unix_now();
    let time = format_notification_time(now, timezone);
    TemplateVars {
        event: "test",
        task_id: 0,
        task_name: "qdrust channel test",
        run_id: 0,
        status: String::from_str("200"),
        error: "",
        log: "This is a test message from qdrust. If you can read this, the channel works.",
        time,
    }
}

/// The title template of a channel test.
pub const TEST_TITLE: &'static str = "[qdrust] Test notification";

/// The body template of a channel test.
pub const TEST_BODY: &'static str = "This is a test message from qdrust.\nIf you can read this, the channel works.\nTime: {t}";

/// The JSON payload of a channel test: event `test`, no task, run, status
/// or error, and the rendered title and body.
pub open spec fn test_payload(title: Seq<char>, body: Seq<char>) -> JsonModel {
    JsonModel::Object(
        seq![
            ("event"@, JsonModel::Str("test"@)),
            ("task_id"@, JsonModel::Null),
            ("task_name"@, JsonModel::Null),
            ("run_id"@, JsonModel::Null),
            ("http_status"@, JsonModel::Null),
            ("error"@, JsonModel::Null),
            ("title"@, JsonModel::Str(title)),
            ("body"@, JsonModel::Str(body)),
        ],
    )
}

/// The message a channel test sends: the generic title and body rendered
/// with `vars`, and their payload. Title and body templates belong to the
/// bindings of a task, so a channel on its own can only be sent this one.
pub fn channel_test_message(vars: &TemplateVars) -> (r: (String, String, JsonValue))
    ensures
        r.0@ == rendered(*vars, TEST_TITLE@),
        r.1@ == rendered(*vars, TEST_BODY@),
        model_of(r.2) == test_payload(r.0@, r.1@),
{
    let title = vars.render(TEST_TITLE);
    let body = vars.render(TEST_BODY);
    let mut fields: Vec<(String, JsonValue)> = Vec::new();
    push_member(&mut fields, "event", json_string("test"));
    push_member(&mut fields, "task_id", JsonValue::Null);
    push_member(&mut fields, "task_name", JsonValue::Null);
    push_member(&mut fields, "run_id", JsonValue::Null);
    push_member(&mut fields, "http_status", JsonValue::Null);
    push_member(&mut fields, "error", JsonValue::Null);
    push_member(&mut fields, "title", json_string(title.as_str()));
    push_member(&mut fields, "body", json_string(body.as_str()));
    let ghost fv = fields@;
    let payload = JsonValue::Object(fields);
    assert(model_of(payload) == JsonModel::Object(members_of(fv)));
    assert(test_payload(title@, body@)->Object_0 =~= members_of(fv));
    (title, body, payload)
}

/// A character HTTP allows in a method name (a `tchar`).
pub open spec fn is_method_char(c: char) -> bool {
    ('a' <= c && c <= 'z') || ('A' <= c && c <= 'Z') || ('0' <= c && c <= '9') || c == '!'
        || c == '#' || c == '$' || c == '%' || c == '&' || c == '\'' || c == '*' || c == '+'
        || c == '-' || c == '.' || c == '^' || c == '_' || c == '`' || c == '|' || c == '~'
}

/// A name `http::Method` accepts: not empty, made of method characters.
pub open spec fn is_method(m: Seq<char>) -> bool {
    m.len() > 0 && forall|i: int| 0 <= i < m.len() ==> is_method_char(#[trigger] m[i])
}

/// `reqwest::Method::from_bytes(m)` succeeds, which its source shows it does
/// exactly for a non-empty name of `tchar` bytes.
#[verifier::external_body]
fn method_parses(m: &str) -> (r: bool)
    ensures
        r == is_method(m@),
{
    reqwest::Method::from_bytes(m.as_bytes()).is_ok()
}

/// The string-valued headers of a custom HTTP channel, values rendered.
pub open spec fn rendered_headers(fields: Seq<(String, JsonValue)>, vars: TemplateVars) -> Seq<
    (Seq<char>, Seq<char>),
>
    decreases fields.len(),
{
    if fields.len() == 0 {
        Seq::empty()
    } else {
        let rest = rendered_headers(fields.drop_last(), vars);
        match fields.last().1 {
            JsonValue::Str(v) => rest.push((fields.last().0@, rendered(vars, v@))),
            _ => rest,
        }
    }
}

/// The e-mail a channel sends: to the normalized recipient, from the
/// channel's sender when it names one.
#[derive(Clone, Debug)]
pub struct EmailDelivery {
    pub to: String,
    pub from: Option<String>,
}

/// What delivering through a channel sends.
#[derive(Debug)]
pub enum DeliveryPlan {
    /// One HTTP request.
    Request(ChannelRequest),
    /// The two WeCom application steps.
    WecomApp(WecomPlan),
    /// A mail with the message's title and body.
    Email(EmailDelivery),
}

/// A delivery plan as mathematics sees it.
pub enum DeliveryModel {
    Push(PushModel),
    Email(Seq<char>, Option<Seq<char>>),
}

/// The model of a planned delivery, or the message of why there is none.
pub open spec fn delivery_model(r: Result<DeliveryPlan, String>) -> Result<DeliveryModel, Seq<char>> {
    match r {
        Ok(DeliveryPlan::Request(q)) => Ok(DeliveryModel::Push(PushModel::Request(request_model(q)))),
        Ok(DeliveryPlan::WecomApp(p)) => Ok(DeliveryModel::Push(PushModel::WecomApp(wecom_model(p)))),
        Ok(DeliveryPlan::Email(e)) => Ok(DeliveryModel::Email(e.to@, opt_string_view(e.from))),
        Err(e) => Err(e@),
    }
}

/// The custom HTTP request of a channel.
pub open spec fn custom_http_plan(config: JsonValue, payload: JsonModel, vars: TemplateVars) -> Result<
    RequestModel,
    Seq<char>,
> {
    match json_str(config, "url"@) {
        None => Err("custom HTTP channel requires a url"@),
        Some(url) => {
            let method = match json_str(config, "method"@) {
                Some(m) => m,
                None => "POST"@,
            };
            if !is_method(method) {
                Err("custom HTTP channel has an invalid method: "@ + method)
            } else {
                let headers = match config.spec_get("headers"@) {
                    Some(JsonValue::Object(fields)) => rendered_headers(fields@, vars),
                    _ => Seq::empty(),
                };
                let configured = match json_str(config, "body"@) {
                    Some(b) => b,
                    None => Seq::empty(),
                };
                Ok(
                    RequestModel {
                        method,
                        url: rendered(vars, url),
                        query: Seq::empty(),
                        headers,
                        body: if configured.len() == 0 {
                            BodyModel::Json(payload)
                        } else {
                            BodyModel::Text(rendered(vars, configured))
                        },
                        check: ResponseCheck::Status,
                    },
                )
            }
        },
    }
}

/// What delivering a message through `kind` with `config` sends: a webhook
/// posts the payload to its URL; a custom HTTP channel sends its method to
/// its rendered URL with its rendered headers and body (the payload when it
/// configures none); an e-mail channel mails its recipient; a push channel
/// follows its protocol; any other kind is refused.
pub open spec fn delivery_of(
    kind: Seq<char>,
    config: JsonValue,
    title: Seq<char>,
    body: Seq<char>,
    payload: JsonModel,
    vars: TemplateVars,
) -> Result<DeliveryModel, Seq<char>> {
    if kind == "webhook"@ {
        match json_str(config, "url"@) {
            None => Err("webhook channel requires a url"@),
            Some(url) => Ok(
                DeliveryModel::Push(
                    PushModel::Request(
                        RequestModel {
                            method: "POST"@,
                            url,
                            query: Seq::empty(),
                            headers: Seq::empty(),
                            body: BodyModel::Json(payload),
                            check: ResponseCheck::Status,
                        },
                    ),
                ),
            ),
        }
    } else if kind == "custom_http"@ {
        match custom_http_plan(config, payload, vars) {
            Ok(q) => Ok(DeliveryModel::Push(PushModel::Request(q))),
            Err(e) => Err(e),
        }
    } else if kind == "email"@ {
        let to = match json_str(config, "to"@) {
            Some(t) => recipient_of(t),
            None => None,
        };
        match to {
            None => Err("email channel requires a valid recipient"@),
            Some(t) => Ok(DeliveryModel::Email(t, json_str(config, "from"@))),
        }
    } else if is_push_kind(kind) {
        match push_plan_of(kind, config, title, body) {
            Ok(p) => Ok(DeliveryModel::Push(p)),
            Err(e) => Err(e),
        }
    } else {
        Err("unsupported notification channel kind: "@ + kind)
    }
}

fn header_pairs(fields: &Vec<(String, JsonValue)>, vars: &TemplateVars) -> (r: Vec<(String, String)>)
    ensures
        pairs_view(r@) == rendered_headers(fields@, *vars),
{
    let mut out: Vec<(String, String)> = Vec::new();
    let mut i: usize = 0;
    while i < fields.len()
        invariant
            i <= fields.len(),
            pairs_view(out@) == rendered_headers(fields@.take(i as int), *vars),
        decreases fields.len() - i,
    {
        proof {
            assert(fields@.take(i + 1).drop_last() =~= fields@.take(i as int));
            assert(fields@.take(i + 1).last() == fields@[i as int]);
        }
        match &fields[i].1 {
            JsonValue::Str(v) => {
                let ghost before = out@;
                let name = String::from_str(fields[i].0.as_str());
                out.push((name, vars.render(v.as_str())));
                assert(pairs_view(out@) =~= pairs_view(before).push(
                    (fields@[i as int].0@, rendered(*vars, v@)),
                ));
            },
            _ => {},
        }
        i = i + 1;
    }
    assert(fields@.take(fields.len() as int) =~= fields@);
    out
}

fn custom_http_request(config: &JsonValue, payload: JsonValue, vars: &TemplateVars) -> (r: Result<
    ChannelRequest,
    String,
>)
    ensures
        crate::push_channels::plan_model(r) == custom_http_plan(*config, model_of(payload), *vars),
{
    let url = match get_str(config, "url") {
        Some(u) => u,
        None => {
            return Err(String::from_str("custom HTTP channel requires a url"));
        },
    };
    let method = match get_str(config, "method") {
        Some(m) => m.clone(),
        None => String::from_str("POST"),
    };
    if !method_parses(method.as_str()) {
        return Err(cat("custom HTTP channel has an invalid method: ", method.as_str()));
    }
    let headers = match config.get("headers") {
        Some(JsonValue::Object(fields)) => header_pairs(fields, vars),
        _ => Vec::new(),
    };
    proof {
        if !(config.spec_get("headers"@) matches Some(JsonValue::Object(_))) {
            assert(pairs_view(headers@) =~= Seq::<(Seq<char>, Seq<char>)>::empty());
        }
    }
    let configured = match get_str(config, "body") {
        Some(b) => b.clone(),
        None => String::new(),
    };
    let ghost pm = model_of(payload);
    let body = if configured.as_str().is_empty() {
        proof {
            assert(configured@.len() == 0);
        }
        RequestBody::Json(payload)
    } else {
        RequestBody::Text(vars.render(configured.as_str()))
    };
    let r = ChannelRequest {
        method,
        url: vars.render(url.as_str()),
        query: Vec::new(),
        headers,
        body,
        check: ResponseCheck::Status,
    };
    assert(pairs_view(r.query@) =~= Seq::<(Seq<char>, Seq<char>)>::empty());
    Ok(r)
}

/// A message ready to hand to a channel.
pub struct Message<'a> {
    pub title: &'a str,
    pub body: &'a str,
    /// The JSON body of webhook-style channels that configure none.
    pub payload: &'a JsonValue,
}

/// Plan the delivery of one rendered message through `kind` with `config`;
/// `vars` renders a custom HTTP channel's placeholders. A missing or
/// malformed configuration is an error saying what is missing.
pub fn deliver(kind: &str, config: &JsonValue, message: &Message, vars: &TemplateVars) -> (r: Result<
    DeliveryPlan,
    String,
>)
    ensures
        delivery_model(r) == delivery_of(
            kind@,
            *config,
            message.title@,
            message.body@,
            model_of(*message.payload),
            *vars,
        ),
{
    let title = message.title;
    let body = message.body;
    if str_eq(kind, "webhook") {
        match get_str(config, "url") {
            None => Err(String::from_str("webhook channel requires a url")),
            Some(url) => {
                let r = ChannelRequest {
                    method: String::from_str("POST"),
                    url: url.clone(),
                    query: Vec::new(),
                    headers: Vec::new(),
                    body: RequestBody::Json(message.payload.deep_clone()),
                    check: ResponseCheck::Status,
                };
                assert(pairs_view(r.query@) =~= Seq::<(Seq<char>, Seq<char>)>::empty());
                Ok(DeliveryPlan::Request(r))
            },
        }
    } else if str_eq(kind, "custom_http") {
        match custom_http_request(config, message.payload.deep_clone(), vars) {
            Ok(q) => Ok(DeliveryPlan::Request(q)),
            Err(e) => Err(e),
        }
    } else if str_eq(kind, "email") {
        let to = match get_str(config, "to") {
            Some(t) => normalize_recipient(t.as_str()),
            None => None,
        };
        match to {
            None => Err(String::from_str("email channel requires a valid recipient")),
            Some(t) => {
                let from = match get_str(config, "from") {
                    Some(f) => Some(f.clone()),
                    None => None,
                };
                Ok(DeliveryPlan::Email(EmailDelivery { to: t, from }))
            },
        }
    } else if crate::push_channels::is_push_channel(kind) {
        match push_to_channel(kind, config, title, body) {
            Ok(PushPlan::Request(q)) => Ok(DeliveryPlan::Request(q)),
            Ok(PushPlan::WecomApp(p)) => Ok(DeliveryPlan::WecomApp(p)),
            Err(e) => Err(e),
        }
    } else {
        Err(cat("unsupported notification channel kind: ", kind))
    }
}

} // verus!
