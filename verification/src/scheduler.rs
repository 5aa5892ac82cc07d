//! The scheduler's decisions: when a task is due, what a run may do, what a
//! run's steps and outcome are called, whether it is retried, and what its
//! notifications say and to whom they go. The loops that claim runs and
//! execute templates run outside the library.

use vstd::prelude::*;

use crate::api::RuntimeSettings;
use crate::clock::{
    cron_is_valid, cron_next_after, cron_parses, iana_zone_known, next_fire_after, unix_now,
    utc_timestamp_ok, utc_timestamp_valid, zone_is_known, MAX_UTC_SECS,
};
use crate::crypto::random_at_most;
use crate::delivery::{TemplateVars, rendered};
use crate::json::{
    JsonModel, JsonValue, json_integer, json_string, lemma_member_at, members_of, model_member,
    model_of, push_member,
};
use crate::library::{bounded, bounded_text};
use crate::model::{NotificationAction, Task};
use crate::oidc::{opt_string_view, opt_view};
use crate::text::{
    append_chars, append_str, cat, chars_of, decimal, decimal_int, i64_decimal, str_eq,
    string_of, sub_chars, trim, trim_chars, u64_decimal,
};

verus! {

/// What a single run is allowed to do.
#[derive(Clone, Copy, Debug, PartialEq, Eq, Structural)]
pub struct RunPolicy {
    /// Per-request timeout in seconds.
    pub request_timeout_secs: u64,
    /// Private-network targets allowed.
    pub allow_private_network: bool,
    /// Invalid certificates accepted; granted separately from the above.
    pub allow_invalid_certificates: bool,
}

/// The policy a run executes under: the task's positive timeout (30 seconds
/// otherwise) and the two switches as the settings hold them now.
pub fn run_policy(timeout_seconds: Option<i64>, settings: &RuntimeSettings) -> (r: RunPolicy)
    ensures
        r.request_timeout_secs == match timeout_seconds {
            Some(v) => if v > 0 {
                v as u64
            } else {
                30u64
            },
            None => 30u64,
        },
        r.allow_private_network == settings.allow_private_network,
        r.allow_invalid_certificates == settings.allow_invalid_certificates,
{
    let timeout: u64 = match timeout_seconds {
        Some(v) => if v > 0 {
            v as u64
        } else {
            30
        },
        None => 30,
    };
    RunPolicy {
        request_timeout_secs: timeout,
        allow_private_network: settings.allow_private_network,
        allow_invalid_certificates: settings.allow_invalid_certificates,
    }
}

/// The zone a task's schedule is read in: its own when it names a known
/// zone, else the server's default.
pub open spec fn task_zone(timezone: Option<Seq<char>>, default_zone: Seq<char>) -> Seq<char> {
    match timezone {
        Some(z) => if iana_zone_known(z) {
            z
        } else {
            default_zone
        },
        None => default_zone,
    }
}

/// The moment the schedule is counted from: the last run when there is a
/// positive, representable one, else one interval before now (so a new task
/// waits for its next scheduled moment).
pub open spec fn schedule_since(last_run_at: Option<i64>, interval_secs: u64, now: i64) -> int {
    match last_run_at {
        Some(s) => if s > 0 && utc_timestamp_valid(s) {
            s as int
        } else {
            now - interval_secs
        },
        None => now - interval_secs,
    }
}

/// Whether a task fires at `now`: enabled, a cron that parses, and a
/// scheduled moment after `since` that is not after `now`. Counted from the
/// last second chrono can represent, nothing follows, so the task is not due.
pub open spec fn due_spec(task: Task, interval_secs: u64, default_zone: Seq<char>, now: i64) -> bool {
    !task.disabled && cron_parses(task.cron@) && schedule_since(task.last_run_at, interval_secs, now)
        != MAX_UTC_SECS && match cron_next_after(
        task.cron@,
        task_zone(opt_string_view(task.timezone), default_zone),
        schedule_since(task.last_run_at, interval_secs, now) as i64,
    ) {
        Some(next) => next <= now,
        None => false,
    }
}

/// A disabled task, or one whose cron expression does not parse, is never
/// due, whatever the time.
pub proof fn law_disabled_or_unparsable_never_due(
    task: Task,
    interval_secs: u64,
    default_zone: Seq<char>,
    now: i64,
)
    requires
        task.disabled || !cron_parses(task.cron@),
    ensures
        !due_spec(task, interval_secs, default_zone, now),
{
}

/// Whether `task` fires on the tick at `now` (Unix seconds), with the
/// scheduler's tick `interval_secs` and the server's default zone.
pub fn due_at(task: &Task, interval_secs: u64, default_zone: &str, now: i64) -> (r: bool)
    requires
        interval_secs <= i64::MAX,
        now - interval_secs >= i64::MIN,
    ensures
        r == due_spec(*task, interval_secs, default_zone@, now),
{
    if task.disabled {
        return false;
    }
    if !cron_is_valid(task.cron.as_str()) {
        return false;
    }
    let zone: &str = match &task.timezone {
        Some(z) => if zone_is_known(z.as_str()) {
            z.as_str()
        } else {
            default_zone
        },
        None => default_zone,
    };
    let fallback: i64 = now - (interval_secs as i64);
    let since: i64 = match task.last_run_at {
        Some(s) => if s > 0 && utc_timestamp_ok(s) {
            s
        } else {
            fallback
        },
        None => fallback,
    };
    if since == MAX_UTC_SECS {
        return false;
    }
    match next_fire_after(task.cron.as_str(), zone, since) {
        Some(next) => next <= now,
        None => false,
    }
}

/// Whether `task` fires on this tick, now.
pub fn due(task: &Task, interval_secs: u64, default_zone: &str) -> (r: bool)
    requires
        interval_secs <= i64::MAX,
    ensures
        exists|now: i64| r == due_spec(*task, interval_secs, default_zone@, now),
{
    let mut now = unix_now();
    let floor: i64 = i64::MIN + (interval_secs as i64);
    if now < floor {
        now = floor;
    }
    due_at(task, interval_secs, default_zone, now)
}

/// A task's variables as the executor takes them: the string, number and
/// boolean members of its variables object, as text, in order; other
/// members are skipped.
pub open spec fn scalar_members(fields: Seq<(String, JsonValue)>) -> Seq<(Seq<char>, Seq<char>)>
    decreases fields.len(),
{
    if fields.len() == 0 {
        Seq::empty()
    } else {
        let rest = scalar_members(fields.drop_last());
        let (k, v) = fields.last();
        match v {
            JsonValue::Str(s) => rest.push((k@, s@)),
            JsonValue::Number(t) => rest.push((k@, t@)),
            JsonValue::Bool(b) => rest.push((k@, if b { "true"@ } else { "false"@ })),
            _ => rest,
        }
    }
}

/// The text pairs of a list of string pairs.
pub open spec fn text_pairs(p: Seq<(String, String)>) -> Seq<(Seq<char>, Seq<char>)> {
    p.map_values(|x: (String, String)| (x.0@, x.1@))
}

/// Flatten a task's stored variables into name/value text pairs.
pub fn task_variables(task: &Task) -> (r: Vec<(String, String)>)
    ensures
        text_pairs(r@) == match task.variables {
            Some(JsonValue::Object(fields)) => scalar_members(fields@),
            _ => Seq::empty(),
        },
{
    let mut out: Vec<(String, String)> = Vec::new();
    match &task.variables {
        Some(JsonValue::Object(fields)) => {
            let mut i: usize = 0;
            while i < fields.len()
                invariant
                    i <= fields.len(),
                    text_pairs(out@) == scalar_members(fields@.take(i as int)),
                decreases fields.len() - i,
            {
                proof {
                    assert(fields@.take(i + 1).drop_last() =~= fields@.take(i as int));
                    assert(fields@.take(i + 1).last() == fields@[i as int]);
                }
                let name = String::from_str(fields[i].0.as_str());
                let ghost before = out@;
                let value: Option<String> = match &fields[i].1 {
                    JsonValue::Str(s) => Some(String::from_str(s.as_str())),
                    JsonValue::Number(t) => Some(String::from_str(t.as_str())),
                    JsonValue::Bool(b) => Some(
                        String::from_str(
                            if *b {
                                "true"
                            } else {
                                "false"
                            },
                        ),
                    ),
                    _ => None,
                };
                match value {
                    Some(v) => {
                        out.push((name, v));
                        assert(text_pairs(out@) =~= text_pairs(before).push(
                            (out@.last().0@, out@.last().1@),
                        ));
                    },
                    None => {},
                }
                i = i + 1;
            }
            assert(fields@.take(fields.len() as int) =~= fields@);
        },
        _ => {
            assert(text_pairs(out@) =~= Seq::<(Seq<char>, Seq<char>)>::empty());
        },
    }
    out
}

/// Bound an error before it is persisted: 4096 characters, then `...`.
pub fn bounded_error(message: &str) -> (r: String)
    ensures
        r@ == bounded_text(message@),
{
    bounded(message)
}

/// A name cut to `max` characters, with `...` when it was longer.
pub open spec fn truncated(name: Seq<char>, max: nat) -> Seq<char> {
    if name.len() > max {
        name.take(max as int) + "..."@
    } else {
        name
    }
}

/// Cut a step name to `max` characters.
pub fn truncate_name(name: &str, max: usize) -> (r: String)
    ensures
        r@ == truncated(name@, max as nat),
{
    let v = chars_of(name);
    if v.len() > max {
        let mut head = sub_chars(v.as_slice(), 0, max);
        assert(head@ =~= v@.take(max as int));
        append_str(&mut head, "...");
        string_of(head.as_slice())
    } else {
        String::from_str(name)
    }
}

/// The name of the step at `index`: its method and URL (cut to 200
/// characters) while the template's method hints last, else `step-N`.
pub open spec fn step_label(methods: Seq<String>, index: int, url: Seq<char>) -> Seq<char> {
    if 0 <= index < methods.len() {
        truncated(methods[index]@ + " "@ + url, 200)
    } else {
        "step-"@ + decimal((index + 1) as nat)
    }
}

/// Name a recorded step.
pub fn step_name(methods: &Vec<String>, index: usize, url: &str) -> (r: String)
    requires
        index < u64::MAX,
    ensures
        r@ == step_label(methods@, index as int, url@),
{
    if index < methods.len() {
        let mut v = chars_of(methods[index].as_str());
        append_str(&mut v, " ");
        append_str(&mut v, url);
        let full = string_of(v.as_slice());
        truncate_name(full.as_str(), 200)
    } else {
        let n = u64_decimal((index as u64) + 1);
        let mut v = chars_of("step-");
        append_chars(&mut v, n.as_slice());
        string_of(v.as_slice())
    }
}

/// The log line a template run leaves: its `__log__` variable, trimmed,
/// when it is a non-blank string.
pub fn run_log_line(log_variable: Option<&JsonValue>) -> (r: Option<String>)
    ensures
        opt_string_view(r) == match log_variable {
            Some(JsonValue::Str(s)) => crate::oidc::nonblank(s@),
            _ => None,
        },
{
    match log_variable {
        Some(JsonValue::Str(s)) => {
            let c = chars_of(s.as_str());
            let t = trim_chars(c.as_slice());
            if t.len() > 0 {
                Some(string_of(t.as_slice()))
            } else {
                None
            }
        },
        _ => None,
    }
}

/// The status a template run reports: its last step's, or 204 when it made
/// no request.
pub fn run_status(last_step_status: Option<u16>) -> (r: u16)
    ensures
        r == match last_step_status {
            Some(s) => s,
            None => 204u16,
        },
{
    match last_step_status {
        Some(s) => s,
        None => 204,
    }
}

/// Whether a failure is the run being cancelled through the API.
pub fn is_cancellation(message: &str) -> (r: bool)
    ensures
        r == crate::text::contains(message@, "execution cancelled"@),
{
    let v = chars_of(message);
    let p = chars_of("execution cancelled");
    crate::text::chars_contains(v.as_slice(), p.as_slice())
}

/// The run a failed run's retries count against (the first of the chain),
/// or `None` when the task asks for no retry.
pub fn retry_origin(retry_count: Option<i64>, retry_of: Option<i64>, run_id: i64) -> (r: Option<i64>)
    ensures
        r == if match retry_count {
            Some(c) => c,
            None => 0,
        } == 0 {
            None::<i64>
        } else {
            Some(
                match retry_of {
                    Some(o) => o,
                    None => run_id,
                },
            )
        },
{
    let count = match retry_count {
        Some(c) => c,
        None => 0,
    };
    if count == 0 {
        None
    } else {
        Some(
            match retry_of {
                Some(o) => o,
                None => run_id,
            },
        )
    }
}

/// The retry count a task asks for: 0 (never) when unset.
pub open spec fn retry_budget(retry_count: Option<i64>) -> i64 {
    match retry_count {
        Some(c) => c,
        None => 0,
    }
}

/// The delay before another retry, given how many the chain already has:
/// retried while `retry_count` is -1 (always) or above `done`, after the
/// task's positive interval or 60 seconds.
pub open spec fn retry_wait(retry_count: Option<i64>, done: i64, interval: Option<i64>) -> Option<i64> {
    let c = retry_budget(retry_count);
    if c != 0 && (c == -1 || done < c) {
        Some(
            match interval {
                Some(v) => if v > 0 {
                    v
                } else {
                    60
                },
                None => 60,
            },
        )
    } else {
        None
    }
}

/// Retries keep to the task's count: none for 0, at most N for a positive
/// N, without end for -1; and each waits a positive number of seconds.
pub proof fn law_retries_keep_to_their_count(retry_count: Option<i64>, done: i64, interval: Option<i64>)
    ensures
        retry_budget(retry_count) == 0 ==> retry_wait(retry_count, done, interval) is None,
        retry_budget(retry_count) > 0 ==> (retry_wait(retry_count, done, interval) is Some
            <==> done < retry_budget(retry_count)),
        retry_budget(retry_count) == -1 ==> retry_wait(retry_count, done, interval) is Some,
        retry_wait(retry_count, done, interval) is Some ==> retry_wait(
            retry_count,
            done,
            interval,
        ).unwrap() > 0,
{
}

/// The delay before another retry of a failed run.
pub fn retry_delay(retry_count: Option<i64>, done: i64, interval: Option<i64>) -> (r: Option<i64>)
    ensures
        r == retry_wait(retry_count, done, interval),
{
    let c = match retry_count {
        Some(c) => c,
        None => 0,
    };
    if c != 0 && (c == -1 || done < c) {
        Some(
            match interval {
                Some(v) => if v > 0 {
                    v
                } else {
                    60
                },
                None => 60,
            },
        )
    } else {
        None
    }
}

/// The random delay a scheduled run waits: none when the task sets no
/// positive maximum, else between 0 and the maximum (at most a week).
pub fn jitter(random_delay_max_seconds: Option<i64>) -> (r: Option<i64>)
    ensures
        match random_delay_max_seconds {
            Some(m) => if m > 0 {
                r is Some && 0 <= r.unwrap() <= m && r.unwrap() <= 604800
            } else {
                r is None
            },
            None => r is None,
        },
{
    match random_delay_max_seconds {
        Some(m) => if m > 0 {
            let cap: i64 = if m < 604800 {
                m
            } else {
                604800
            };
            Some(random_at_most(cap))
        } else {
            None
        },
        None => None,
    }
}

/// The retention in days: the stored setting when positive, else the
/// configured value.
pub fn retention_days(setting: Option<i64>, fallback: u64) -> (r: u64)
    ensures
        r == match setting {
            Some(d) => if d > 0 {
                d as u64
            } else {
                fallback
            },
            None => fallback,
        },
{
    match setting {
        Some(d) => if d > 0 {
            d as u64
        } else {
            fallback
        },
        None => fallback,
    }
}

/// The cutoff before which run logs are pruned, `None` when retention is off.
pub fn prune_before(now: i64, retention: u64) -> (r: Option<i64>)
    requires
        retention * 86400 <= i64::MAX,
        now - retention * 86400 >= i64::MIN,
    ensures
        r == if retention > 0 {
            Some((now - retention * 86400) as i64)
        } else {
            None::<i64>
        },
{
    if retention > 0 {
        Some(now - (retention as i64) * 86400)
    } else {
        None
    }
}

/// The word a notification uses for its event.
pub open spec fn outcome_word(event: Seq<char>) -> Seq<char> {
    if event == "success"@ {
        "succeeded"@
    } else {
        "failed"@
    }
}

/// The default notification title: `[qdrust] Task "<name>" succeeded` (or
/// `failed`).
pub fn default_title(task_name: &str, event: &str) -> (r: String)
    ensures
        r@ == "[qdrust] Task \""@ + task_name@ + "\" "@ + outcome_word(event@),
{
    let mut v = chars_of("[qdrust] Task \"");
    append_str(&mut v, task_name);
    append_str(&mut v, "\" ");
    if str_eq(event, "success") {
        append_str(&mut v, "succeeded");
    } else {
        append_str(&mut v, "failed");
    }
    string_of(v.as_slice())
}

/// An optional status as text, `-` when absent.
pub open spec fn status_text(status: Option<u16>) -> Seq<char> {
    match status {
        Some(s) => decimal(s as nat),
        None => "-"@,
    }
}

/// The default notification body: task, event, run, HTTP status and error,
/// one per line, `-` for what is missing.
pub fn default_body(
    task_name: &str,
    event: &str,
    run_id: i64,
    http_status: Option<u16>,
    error_message: Option<&str>,
) -> (r: String)
    ensures
        r@ == "Task: "@ + task_name@ + "\nEvent: "@ + event@ + "\nRun: #"@ + decimal_int(
            run_id as int,
        ) + "\nHTTP status: "@ + status_text(http_status) + "\nError: "@ + match error_message {
            Some(e) => e@,
            None => "-"@,
        } + "\n"@,
{
    let mut v = chars_of("Task: ");
    append_str(&mut v, task_name);
    append_str(&mut v, "\nEvent: ");
    append_str(&mut v, event);
    append_str(&mut v, "\nRun: #");
    let id = i64_decimal(run_id);
    append_chars(&mut v, id.as_slice());
    append_str(&mut v, "\nHTTP status: ");
    match http_status {
        Some(st) => {
            let d = u64_decimal(st as u64);
            append_chars(&mut v, d.as_slice());
        },
        None => append_str(&mut v, "-"),
    }
    append_str(&mut v, "\nError: ");
    match error_message {
        Some(e) => append_str(&mut v, e),
        None => append_str(&mut v, "-"),
    }
    append_str(&mut v, "\n");
    string_of(v.as_slice())
}

/// The JSON payload of webhook-style channels.
pub open spec fn payload_model(
    event: Seq<char>,
    task_id: i64,
    task_name: Seq<char>,
    run_id: i64,
    http_status: Option<u16>,
    error_message: Option<Seq<char>>,
) -> JsonModel {
    JsonModel::Object(
        seq![
            ("event"@, JsonModel::Str(event)),
            ("task_id"@, JsonModel::Number(decimal_int(task_id as int))),
            ("task_name"@, JsonModel::Str(task_name)),
            ("run_id"@, JsonModel::Number(decimal_int(run_id as int))),
            (
                "http_status"@,
                match http_status {
                    Some(s) => JsonModel::Number(decimal_int(s as int)),
                    None => JsonModel::Null,
                },
            ),
            (
                "error"@,
                match error_message {
                    Some(e) => JsonModel::Str(e),
                    None => JsonModel::Null,
                },
            ),
        ],
    )
}

/// Build the payload: event, task id and name, run id, HTTP status and
/// error (`null` when absent).
pub fn notification_payload(
    event: &str,
    task_id: i64,
    task_name: &str,
    run_id: i64,
    http_status: Option<u16>,
    error_message: Option<&str>,
) -> (r: JsonValue)
    ensures
        model_of(r) == payload_model(
            event@,
            task_id,
            task_name@,
            run_id,
            http_status,
            opt_view(error_message),
        ),
{
    let mut fields: Vec<(String, JsonValue)> = Vec::new();
    push_member(&mut fields, "event", json_string(event));
    push_member(&mut fields, "task_id", json_integer(task_id));
    push_member(&mut fields, "task_name", json_string(task_name));
    push_member(&mut fields, "run_id", json_integer(run_id));
    let status = match http_status {
        Some(st) => json_integer(st as i64),
        None => JsonValue::Null,
    };
    assert(model_of(status) == match http_status {
        Some(s) => JsonModel::Number(decimal_int(s as int)),
        None => JsonModel::Null,
    });
    push_member(&mut fields, "http_status", status);
    let err = match error_message {
        Some(e) => json_string(e),
        None => JsonValue::Null,
    };
    assert(model_of(err) == match opt_view(error_message) {
        Some(e) => JsonModel::Str(e),
        None => JsonModel::Null,
    });
    push_member(&mut fields, "error", err);
    assert(members_of(fields@) =~= seq![
        ("event"@, JsonModel::Str(event@)),
        ("task_id"@, JsonModel::Number(decimal_int(task_id as int))),
        ("task_name"@, JsonModel::Str(task_name@)),
        ("run_id"@, JsonModel::Number(decimal_int(run_id as int))),
        (
            "http_status"@,
            match http_status {
                Some(s) => JsonModel::Number(decimal_int(s as int)),
                None => JsonModel::Null,
            },
        ),
        (
            "error"@,
            match opt_view(error_message) {
                Some(e) => JsonModel::Str(e),
                None => JsonModel::Null,
            },
        ),
    ]);
    let ghost fv = fields@;
    let r = JsonValue::Object(fields);
    assert(model_of(r) == JsonModel::Object(members_of(fv)));
    let ghost pm = payload_model(event@, task_id, task_name@, run_id, http_status, opt_view(error_message));
    assert(pm is Object);
    assert(pm->Object_0 =~= members_of(fv));
    r
}

/// Whether an action fires for this run: an automatic-only action skips
/// manual runs, and a failure is reported only once the recent failures reach
/// the action's threshold.
pub open spec fn notifies(action: NotificationAction, automatic: bool, event: Seq<char>, failure_count: i64) -> bool {
    !(action.automatic_only && !automatic) && !(event == "failure"@ && failure_count
        < action.failure_threshold)
}

/// Decide whether a bound action sends for this run.
pub fn should_notify(action: &NotificationAction, automatic: bool, event: &str, failure_count: i64) -> (r:
    bool)
    ensures
        r == notifies(*action, automatic, event@, failure_count),
{
    if action.automatic_only && !automatic {
        return false;
    }
    if str_eq(event, "failure") && failure_count < action.failure_threshold {
        return false;
    }
    true
}

/// Whether a run was started by the scheduler rather than by hand.
pub fn is_automatic(trigger: Option<&str>) -> (r: bool)
    ensures
        r == match trigger {
            Some(t) => t@ != "manual"@,
            None => false,
        },
{
    match trigger {
        Some(t) => !str_eq(t, "manual"),
        None => false,
    }
}

/// The moment a notification shows: the run's finish time, else its enqueue
/// time, else now.
pub fn notification_timestamp(run_times: Option<(Option<i64>, i64)>, now: i64) -> (r: i64)
    ensures
        r == match run_times {
            Some((finished, created)) => match finished {
                Some(f) => f,
                None => created,
            },
            None => now,
        },
{
    match run_times {
        Some((finished, created)) => match finished {
            Some(f) => f,
            None => created,
        },
        None => now,
    }
}

/// The title and body an action sends: its templates rendered when it has
/// them, the defaults otherwise.
pub fn notification_text(
    action: &NotificationAction,
    vars: &TemplateVars,
    default_title: &str,
    default_body: &str,
) -> (r: (String, String))
    ensures
        r.0@ == match action.title_template {
            Some(t) => rendered(*vars, t@),
            None => default_title@,
        },
        r.1@ == match action.body_template {
            Some(b) => rendered(*vars, b@),
            None => default_body@,
        },
{
    let title = match &action.title_template {
        Some(t) => vars.render(t.as_str()),
        None => String::from_str(default_title),
    };
    let body = match &action.body_template {
        Some(b) => vars.render(b.as_str()),
        None => String::from_str(default_body),
    };
    (title, body)
}

/// Who is told about a run: a run the scheduler started reaches every
/// action unless it is a failure below the action's threshold; a run started
/// by hand never reaches an action that asked for automatic runs only; an
/// action that did not ask for that is told alike whoever started the run;
/// and a failure is told exactly once the recent failures reach the
/// threshold.
pub proof fn law_who_is_notified(
    action: NotificationAction,
    automatic: bool,
    event: Seq<char>,
    failure_count: i64,
)
    ensures
        event != "failure"@ ==> notifies(action, true, event, failure_count),
        action.automatic_only ==> !notifies(action, false, event, failure_count),
        !action.automatic_only ==> (notifies(action, true, event, failure_count)
            == notifies(action, false, event, failure_count)),
        notifies(action, true, "failure"@, failure_count) <==> failure_count
            >= action.failure_threshold,
        notifies(action, automatic, event, failure_count) ==> (automatic
            || !action.automatic_only),
{
}

/// The webhook payload names the run it reports: its `event`, `task_id`,
/// `task_name` and `run_id` members carry exactly the arguments (the ids as
/// their decimal numbers), its `http_status` the status or `null`, and its
/// `error` the message or `null`.
pub proof fn law_payload_names_the_run(
    event: Seq<char>,
    task_id: i64,
    task_name: Seq<char>,
    run_id: i64,
    http_status: Option<u16>,
    error_message: Option<Seq<char>>,
)
    ensures
        ({
            let p = payload_model(event, task_id, task_name, run_id, http_status, error_message);
            &&& model_member(p, "event"@) == Some(JsonModel::Str(event))
            &&& model_member(p, "task_id"@) == Some(JsonModel::Number(decimal_int(task_id as int)))
            &&& model_member(p, "task_name"@) == Some(JsonModel::Str(task_name))
            &&& model_member(p, "run_id"@) == Some(JsonModel::Number(decimal_int(run_id as int)))
            &&& model_member(p, "http_status"@) == Some(
                match http_status {
                    Some(s) => JsonModel::Number(decimal_int(s as int)),
                    None => JsonModel::Null,
                },
            )
            &&& model_member(p, "error"@) == Some(
                match error_message {
                    Some(e) => JsonModel::Str(e),
                    None => JsonModel::Null,
                },
            )
        }),
{
    reveal_strlit("event");
    reveal_strlit("task_id");
    reveal_strlit("task_name");
    reveal_strlit("run_id");
    reveal_strlit("http_status");
    reveal_strlit("error");
    let m = payload_model(event, task_id, task_name, run_id, http_status, error_message)->Object_0;
    assert(m[0].0 == "event"@ && m[1].0 == "task_id"@ && m[2].0 == "task_name"@);
    assert(m[3].0 == "run_id"@ && m[4].0 == "http_status"@ && m[5].0 == "error"@);
    assert("event"@ != "task_id"@ && "event"@ != "task_name"@ && "event"@ != "run_id"@);
    assert("event"@[1] != "error"@[1]);
    assert("event"@ != "http_status"@ && "event"@ != "error"@);
    assert("task_id"@ != "task_name"@ && "task_id"@ != "run_id"@ && "task_id"@ != "http_status"@);
    assert("task_id"@ != "error"@ && "task_name"@ != "run_id"@ && "task_name"@ != "http_status"@);
    assert("task_name"@ != "error"@ && "run_id"@ != "http_status"@ && "run_id"@ != "error"@);
    assert("http_status"@ != "error"@);
    lemma_member_at(m, 0, "event"@);
    lemma_member_at(m, 1, "task_id"@);
    lemma_member_at(m, 2, "task_name"@);
    lemma_member_at(m, 3, "run_id"@);
    lemma_member_at(m, 4, "http_status"@);
    lemma_member_at(m, 5, "error"@);
}

} // verus!
