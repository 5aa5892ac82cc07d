use qdrust::delivery::{
    channel_test_message, deliver, format_notification_time, test_vars, DeliveryPlan, Message,
};
use qdrust::json::JsonValue;
use qdrust::push_channels::{
    business_code_ok, ensure_scheme, ensure_trailing_slash, is_push_channel, plain_body,
    push_to_channel, wecom_message_request, wxpusher_succeeded, PushPlan, RequestBody,
    ResponseCheck, CHANNEL_KINDS,
};

fn object(members: Vec<(&str, JsonValue)>) -> JsonValue {
    JsonValue::Object(members.into_iter().map(|(k, v)| (k.to_string(), v)).collect())
}

fn text(s: &str) -> JsonValue {
    JsonValue::Str(s.to_string())
}

#[test]
fn recognizes_push_kinds() {
    for kind in CHANNEL_KINDS {
        assert!(is_push_channel(kind), "{kind} should be a push channel");
    }
    assert!(!is_push_channel("webhook"));
    assert!(!is_push_channel("email"));
    assert!(!is_push_channel("unknown"));
}

#[test]
fn rejects_missing_config() {
    for kind in CHANNEL_KINDS {
        let result = push_to_channel(kind, &object(vec![]), "t", "b");
        assert!(result.is_err(), "{kind} should fail without config");
    }
}

#[test]
fn rejects_unsupported_kind() {
    let err = push_to_channel("nope", &object(vec![]), "t", "b").unwrap_err();
    assert!(err.contains("unsupported"));
}

#[test]
fn helpers_normalize_urls() {
    assert_eq!(ensure_trailing_slash("https://a.b/c"), "https://a.b/c/");
    assert_eq!(ensure_scheme("qyapi.weixin.qq.com/"), "https://qyapi.weixin.qq.com/");
}

#[test]
fn urls_already_in_shape_are_kept() {
    assert_eq!(ensure_trailing_slash("https://a.b/c/"), "https://a.b/c/");
    assert_eq!(ensure_scheme("http://x.y/"), "http://x.y/");
}

#[test]
fn bark_posts_the_title_and_unescaped_body_to_the_device_url() {
    let config = object(vec![("url", text("https://api.day.app/key")), ("sound", text("bell"))]);
    let plan = push_to_channel("bark", &config, "T", "a\\r\\nb").unwrap();
    match plan {
        PushPlan::Request(req) => {
            assert_eq!(req.method, "POST");
            assert_eq!(req.url, "https://api.day.app/key/");
            assert_eq!(req.check, ResponseCheck::Status);
            match req.body {
                RequestBody::Json(body) => {
                    assert_eq!(body.get("title"), Some(&text("T")));
                    assert_eq!(body.get("body"), Some(&text("a\nb")));
                    assert_eq!(body.get("sound"), Some(&text("bell")));
                    assert_eq!(body.get("group"), None);
                }
                other => panic!("unexpected body {other:?}"),
            }
        }
        other => panic!("unexpected plan {other:?}"),
    }
}

#[test]
fn a_plain_body_joins_title_and_body() {
    assert_eq!(plain_body("T", "B"), "T\nB");
}

#[test]
fn business_codes_and_success_flags() {
    let ok = object(vec![("errcode", JsonValue::Number("0".into()))]);
    let bad = object(vec![("errcode", JsonValue::Number("40001".into()))]);
    assert!(business_code_ok(&ok, "errcode", 0));
    assert!(!business_code_ok(&bad, "errcode", 0));
    assert!(business_code_ok(&object(vec![]), "errcode", 0));
    assert!(wxpusher_succeeded(&object(vec![("success", JsonValue::Bool(true))])));
    assert!(!wxpusher_succeeded(&object(vec![("success", JsonValue::Bool(false))])));
}

#[test]
fn wecom_app_sends_the_message_with_the_token_it_was_given() {
    let config = object(vec![
        ("corpid", text("corp")),
        ("secret", text("secret")),
        ("agentid", text("1000002")),
    ]);
    let plan = push_to_channel("wecom_app", &config, "T", "B").unwrap();
    let wecom = match plan {
        PushPlan::WecomApp(p) => p,
        other => panic!("unexpected plan {other:?}"),
    };
    let refused = object(vec![("errcode", JsonValue::Number("40013".into()))]);
    assert!(wecom_message_request(wecom, &refused).is_none());

    let plan = push_to_channel("wecom_app", &config, "T", "B").unwrap();
    let wecom = match plan {
        PushPlan::WecomApp(p) => p,
        other => panic!("unexpected plan {other:?}"),
    };
    let granted = object(vec![
        ("errcode", JsonValue::Number("0".into())),
        ("access_token", text("tok")),
    ]);
    let send = wecom_message_request(wecom, &granted).unwrap();
    assert_eq!(
        send.url,
        "https://qyapi.weixin.qq.com/cgi-bin/message/send?access_token=tok"
    );
    match send.body {
        RequestBody::Json(body) => {
            assert_eq!(body.get("touser"), Some(&text("@all")));
            assert_eq!(body.get("agentid"), Some(&JsonValue::Number("1000002".into())));
        }
        other => panic!("unexpected body {other:?}"),
    }
}

fn payload() -> JsonValue {
    object(vec![])
}

#[test]
fn test_vars_feed_a_placeholder_template() {
    let vars = test_vars(Some("Asia/Shanghai"));
    assert_eq!(
        vars.render("[{event}] {task} #{task_id} status={status}"),
        "[test] qdrust channel test #0 status=200"
    );
    assert_eq!(format_notification_time(0, Some("Asia/Shanghai")), "1970-01-01 08:00:00");
    assert!(!vars.time.is_empty());
}

#[test]
fn unknown_channel_kind_is_reported_not_ignored() {
    let p = payload();
    let vars = test_vars(None);
    let err = deliver(
        "carrier-pigeon",
        &object(vec![]),
        &Message { title: "t", body: "b", payload: &p },
        &vars,
    )
    .unwrap_err();
    assert!(err.contains("unsupported notification channel kind: carrier-pigeon"));
}

#[test]
fn a_channel_missing_required_config_fails_loudly() {
    let p = payload();
    let vars = test_vars(None);
    let err = deliver("webhook", &object(vec![]), &Message { title: "t", body: "b", payload: &p }, &vars)
        .unwrap_err();
    assert!(err.contains("webhook channel requires a url"));
}

#[test]
fn a_webhook_posts_the_payload_to_its_url() {
    let p = object(vec![("event", text("success"))]);
    let vars = test_vars(None);
    let config = object(vec![("url", text("https://hooks.example.com/x"))]);
    let plan = deliver("webhook", &config, &Message { title: "t", body: "b", payload: &p }, &vars).unwrap();
    match plan {
        DeliveryPlan::Request(req) => {
            assert_eq!(req.method, "POST");
            assert_eq!(req.url, "https://hooks.example.com/x");
            match req.body {
                RequestBody::Json(body) => assert_eq!(body.get("event"), Some(&text("success"))),
                other => panic!("unexpected body {other:?}"),
            }
        }
        other => panic!("unexpected plan {other:?}"),
    }
}

#[test]
fn a_custom_http_channel_renders_its_url_and_body() {
    let p = payload();
    let vars = test_vars(None);
    let config = object(vec![
        ("url", text("https://x.example.com/{event}")),
        ("method", text("PUT")),
        ("body", text("task={task}")),
        ("headers", object(vec![("X-Event", text("{event}"))])),
    ]);
    let plan = deliver("custom_http", &config, &Message { title: "t", body: "b", payload: &p }, &vars).unwrap();
    match plan {
        DeliveryPlan::Request(req) => {
            assert_eq!(req.method, "PUT");
            assert_eq!(req.url, "https://x.example.com/test");
            assert_eq!(req.headers, vec![("X-Event".to_string(), "test".to_string())]);
            match req.body {
                RequestBody::Text(t) => assert_eq!(t, "task=qdrust channel test"),
                other => panic!("unexpected body {other:?}"),
            }
        }
        other => panic!("unexpected plan {other:?}"),
    }
    let bad = object(vec![("url", text("https://x")), ("method", text("NOT A METHOD"))]);
    let err = deliver("custom_http", &bad, &Message { title: "t", body: "b", payload: &p }, &vars).unwrap_err();
    assert_eq!(err, "custom HTTP channel has an invalid method: NOT A METHOD");
}

#[test]
fn an_email_channel_mails_its_normalized_recipient() {
    let p = payload();
    let vars = test_vars(None);
    let config = object(vec![("to", text("Ops <ops@example.com>"))]);
    match deliver("email", &config, &Message { title: "t", body: "b", payload: &p }, &vars).unwrap() {
        DeliveryPlan::Email(mail) => {
            assert_eq!(mail.to, "ops@example.com");
            assert_eq!(mail.from, None);
        }
        other => panic!("unexpected plan {other:?}"),
    }
    let err = deliver("email", &object(vec![("to", text("nobody"))]), &Message { title: "t", body: "b", payload: &p }, &vars)
        .unwrap_err();
    assert_eq!(err, "email channel requires a valid recipient");
}

#[test]
fn a_channel_test_sends_the_generic_message() {
    let vars = test_vars(Some("Asia/Shanghai"));
    let (title, body, payload) = channel_test_message(&vars);
    assert_eq!(title, "[qdrust] Test notification");
    assert_eq!(
        body,
        format!(
            "This is a test message from qdrust.\nIf you can read this, the channel works.\nTime: {}",
            vars.time
        )
    );
    assert_eq!(payload.get("event"), Some(&text("test")));
    assert_eq!(payload.get("task_id"), Some(&JsonValue::Null));
    assert_eq!(payload.get("title"), Some(&text(&title)));
    assert_eq!(payload.get("body"), Some(&text(&body)));
}
