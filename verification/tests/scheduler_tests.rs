use qdrust::api::runtime_settings;
use qdrust::delivery::{format_notification_time, TemplateVars};
use qdrust::email::normalize_recipient;
use qdrust::json::JsonValue;
use qdrust::model::Task;
use qdrust::scheduler::{
    bounded_error, default_title, due, due_at, is_cancellation, prune_before, retention_days,
    retry_delay, retry_origin, run_policy, run_status, step_name, task_variables, truncate_name,
};

#[test]
fn the_run_policy_reads_the_live_setting_instead_of_a_boot_snapshot() {
    let mut settings = runtime_settings();
    assert!(!run_policy(None, &settings).allow_private_network);
    assert!(!run_policy(None, &settings).allow_invalid_certificates);
    settings.allow_private_network = true;
    settings.allow_invalid_certificates = true;
    assert!(run_policy(None, &settings).allow_private_network);
    assert!(run_policy(None, &settings).allow_invalid_certificates);
}

#[test]
fn the_run_policy_takes_the_task_timeout_and_defaults_the_rest() {
    let settings = runtime_settings();
    assert_eq!(run_policy(Some(45), &settings).request_timeout_secs, 45);
    for value in [None, Some(0), Some(-5)] {
        assert_eq!(run_policy(value, &settings).request_timeout_secs, 30);
    }
}

#[test]
fn one_relaxation_never_drags_the_other_along() {
    let mut settings = runtime_settings();
    settings.allow_private_network = true;
    let policy = run_policy(None, &settings);
    assert!(policy.allow_private_network);
    assert!(!policy.allow_invalid_certificates);
}

#[test]
fn bounds_persisted_error_text() {
    let message = "x".repeat(5_000);
    let bounded = bounded_error(&message);
    assert!(bounded.len() <= 4_099);
    assert!(bounded.ends_with("..."));
}

#[test]
fn a_short_error_is_persisted_as_it_is() {
    assert_eq!(bounded_error("boom"), "boom");
    let exact = "y".repeat(4_096);
    assert_eq!(bounded_error(&exact), exact);
}

#[test]
fn normalizes_email_recipients() {
    assert_eq!(normalize_recipient("a@b.com"), Some("a@b.com".into()));
    assert_eq!(normalize_recipient("Ops <ops@example.com>"), Some("ops@example.com".into()));
    assert_eq!(normalize_recipient("not an address"), None);
}

fn due_probe_task(cron: &str, last_run_at: Option<i64>, timezone: Option<&str>) -> Task {
    Task {
        id: 1,
        name: "probe".into(),
        cron: cron.into(),
        method: "GET".into(),
        url: "api://util/delay".into(),
        headers: JsonValue::Object(Vec::new()),
        body: None,
        disabled: false,
        created_at: 0,
        updated_at: 0,
        last_run_at,
        last_status: None,
        last_error: None,
        template_id: None,
        grp: None,
        timeout_seconds: None,
        retry_count: None,
        retry_interval_seconds: None,
        priority: None,
        timezone: timezone.map(str::to_string),
        random_delay_max_seconds: None,
        variables: None,
    }
}

fn now_secs() -> i64 {
    std::time::SystemTime::now()
        .duration_since(std::time::UNIX_EPOCH)
        .unwrap()
        .as_secs() as i64
}

#[test]
fn never_run_task_is_not_due_until_scheduled_time() {
    let task = due_probe_task("0 0 8 * * *", None, Some("Asia/Shanghai"));
    assert!(!due(&task, 15, "Asia/Shanghai"));
    let task = due_probe_task("0 0 8 * * *", Some(0), Some("Asia/Shanghai"));
    assert!(!due(&task, 15, "Asia/Shanghai"));
}

#[test]
fn task_becomes_due_once_scheduled_time_passes() {
    let last_run = now_secs() - 120;
    let task = due_probe_task("0 * * * * *", Some(last_run), None);
    assert!(due(&task, 15, "UTC"));

    let last_run = now_secs() - 30;
    let task = due_probe_task("0 0 8 * * *", Some(last_run), None);
    assert!(!due(&task, 15, "UTC"));
}

#[test]
fn unparsable_cron_and_disabled_tasks_are_never_due() {
    let task = due_probe_task("not a cron", None, None);
    assert!(!due(&task, 15, "UTC"));
    let mut task = due_probe_task("0 * * * * *", None, None);
    task.disabled = true;
    assert!(!due(&task, 15, "UTC"));
}

#[test]
fn a_daily_schedule_fires_on_the_tick_after_its_moment() {
    // 2024-01-01 08:00:00 UTC is 1704096000.
    let moment = 1_704_096_000i64;
    let task = due_probe_task("0 0 8 * * *", Some(moment - 3_600), None);
    assert!(!due_at(&task, 15, "UTC", moment - 1));
    assert!(due_at(&task, 15, "UTC", moment));
    // The same moment in Shanghai is eight hours earlier in UTC.
    let task = due_probe_task("0 0 8 * * *", Some(moment - 8 * 3_600 - 60), Some("Asia/Shanghai"));
    assert!(due_at(&task, 15, "UTC", moment - 8 * 3_600));
    // An unknown zone falls back to the default.
    let task = due_probe_task("0 0 8 * * *", Some(moment - 60), Some("Mars/Olympus"));
    assert!(due_at(&task, 15, "UTC", moment));
}

fn template_vars<'a>(event: &'a str, error: &'a str, log: &'a str, status: Option<u16>) -> TemplateVars<'a> {
    TemplateVars {
        event,
        task_id: 7,
        task_name: "daily check",
        run_id: 42,
        status: status.map(|s| s.to_string()).unwrap_or_default(),
        error,
        log,
        time: "2026-09-11 20:00:00".into(),
    }
}

#[test]
fn notification_template_substitutes_every_variable() {
    let vars = template_vars("failure", "boom", "line one", Some(500));
    assert_eq!(
        vars.render("{event}|{task_id}|{task}|{run_id}|{status}|{error}|{log}|{t}"),
        "failure|7|daily check|42|500|boom|line one|2026-09-11 20:00:00"
    );
}

#[test]
fn notification_template_keeps_unknown_placeholders_and_blanks_missing_status() {
    let vars = template_vars("success", "", "", None);
    assert_eq!(vars.render("s={status} {nope}"), "s= {nope}");
}

#[test]
fn plain_text_renders_as_itself() {
    let vars = template_vars("success", "e", "l", Some(200));
    assert_eq!(vars.render("no placeholders here"), "no placeholders here");
}

#[test]
fn notification_time_uses_the_task_timezone() {
    assert_eq!(format_notification_time(0, Some("Asia/Shanghai")), "1970-01-01 08:00:00");
    assert_eq!(format_notification_time(0, None), "1970-01-01 00:00:00");
    assert_eq!(format_notification_time(0, Some("Mars/Olympus")), "1970-01-01 00:00:00");
}

#[test]
fn step_names_and_statuses() {
    let methods = vec!["GET".to_string()];
    assert_eq!(step_name(&methods, 0, "https://a.b/c"), "GET https://a.b/c");
    assert_eq!(step_name(&methods, 1, "https://a.b/c"), "step-2");
    let long = "u".repeat(300);
    let named = step_name(&methods, 0, &long);
    assert_eq!(named.chars().count(), 203);
    assert!(named.ends_with("..."));
    assert_eq!(truncate_name("abcdef", 3), "abc...");
    assert_eq!(truncate_name("abc", 3), "abc");
    assert_eq!(run_status(Some(302)), 302);
    assert_eq!(run_status(None), 204);
    assert!(is_cancellation("step 2: execution cancelled by user"));
    assert!(!is_cancellation("timeout"));
}

#[test]
fn retries_count_against_the_first_run_of_the_chain() {
    assert_eq!(retry_origin(None, None, 9), None);
    assert_eq!(retry_origin(Some(0), Some(3), 9), None);
    assert_eq!(retry_origin(Some(2), None, 9), Some(9));
    assert_eq!(retry_origin(Some(2), Some(3), 9), Some(3));
    assert_eq!(retry_delay(Some(2), 1, Some(10)), Some(10));
    assert_eq!(retry_delay(Some(2), 2, Some(10)), None);
    assert_eq!(retry_delay(Some(-1), 50, None), Some(60));
    assert_eq!(retry_delay(Some(3), 0, Some(-4)), Some(60));
    assert_eq!(retry_delay(None, 0, Some(10)), None);
}

#[test]
fn retention_and_pruning() {
    assert_eq!(retention_days(Some(7), 30), 7);
    assert_eq!(retention_days(Some(0), 30), 30);
    assert_eq!(retention_days(None, 0), 0);
    assert_eq!(prune_before(1_000_000, 1), Some(1_000_000 - 86_400));
    assert_eq!(prune_before(1_000_000, 0), None);
}

#[test]
fn default_titles_name_the_outcome() {
    assert_eq!(default_title("daily", "success"), "[qdrust] Task \"daily\" succeeded");
    assert_eq!(default_title("daily", "failure"), "[qdrust] Task \"daily\" failed");
}

#[test]
fn task_variables_keep_scalar_members_as_text() {
    let mut task = due_probe_task("0 * * * * *", None, None);
    task.variables = Some(JsonValue::Object(vec![
        ("user".to_string(), JsonValue::Str("alice".to_string())),
        ("n".to_string(), JsonValue::Number("3".to_string())),
        ("on".to_string(), JsonValue::Bool(true)),
        ("skip".to_string(), JsonValue::Null),
    ]));
    assert_eq!(
        task_variables(&task),
        vec![
            ("user".to_string(), "alice".to_string()),
            ("n".to_string(), "3".to_string()),
            ("on".to_string(), "true".to_string()),
        ]
    );
}

#[test]
fn a_run_stamped_at_the_last_representable_second_is_not_due() {
    // 8210266876799 is +262142-12-31 23:59:59 UTC, the last second chrono holds.
    let last = 8_210_266_876_799i64;
    let task = due_probe_task("0 * * * * *", Some(last), None);
    assert!(!due_at(&task, 15, "UTC", i64::MAX));
    // One second further is out of range, so the schedule counts from one tick ago.
    let task = due_probe_task("0 * * * * *", Some(last + 1), None);
    assert!(due_at(&task, 15, "UTC", 1_704_096_000));
    assert!(!due_at(&task, 15, "UTC", 1_704_096_030));
}
