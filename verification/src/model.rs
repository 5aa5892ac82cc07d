//! The records the server stores and exchanges.

use vstd::prelude::*;

use crate::json::JsonValue;

verus! {

/// A local account.
#[derive(Clone, Debug)]
pub struct User {
    pub id: i64,
    pub username: String,
    pub role: String,
    pub disabled: bool,
    pub email: Option<String>,
    pub email_verified: bool,
    pub created_at: i64,
    pub updated_at: i64,
}

/// An account with its password hash and session version.
#[derive(Clone, Debug)]
pub struct UserCredentials {
    pub user: User,
    pub password_hash: String,
    pub session_version: i64,
}

/// A session resolved from its token.
#[derive(Clone, Debug)]
pub struct AuthenticatedSession {
    pub user: User,
    pub csrf_token_hash: String,
    pub expires_at: i64,
}

/// The raw tokens of a freshly created session.
#[derive(Clone, Debug)]
pub struct IssuedSession {
    pub session_token: String,
    pub csrf_token: String,
    pub expires_at: i64,
}

/// A username/password login request.
#[derive(Clone, Debug)]
pub struct AuthCredentials {
    pub username: String,
    pub password: String,
}

/// The account a login produced and when its session expires.
#[derive(Clone, Debug)]
pub struct AuthResponse {
    pub user: User,
    pub expires_at: i64,
}

/// A password change request.
#[derive(Clone, Debug)]
pub struct ChangePassword {
    pub current_password: String,
    pub new_password: String,
}

/// A scheduled task. `headers` and `variables` are JSON objects.
#[derive(Debug)]
pub struct Task {
    pub id: i64,
    pub name: String,
    pub cron: String,
    pub method: String,
    pub url: String,
    pub headers: JsonValue,
    pub body: Option<String>,
    pub disabled: bool,
    pub created_at: i64,
    pub updated_at: i64,
    pub last_run_at: Option<i64>,
    pub last_status: Option<i64>,
    pub last_error: Option<String>,
    pub template_id: Option<i64>,
    pub grp: Option<String>,
    pub timeout_seconds: Option<i64>,
    pub retry_count: Option<i64>,
    pub retry_interval_seconds: Option<i64>,
    pub priority: Option<i64>,
    pub timezone: Option<String>,
    pub random_delay_max_seconds: Option<i64>,
    pub variables: Option<JsonValue>,
}

/// A self-registration request.
#[derive(Clone, Debug)]
pub struct RegisterUser {
    pub username: String,
    pub password: String,
    pub email: Option<String>,
}

/// An email verification token.
#[derive(Clone, Debug)]
pub struct VerifyEmail {
    pub token: String,
}

/// An administrator's change to an account.
#[derive(Clone, Debug)]
pub struct AdminUserUpdate {
    pub disabled: Option<bool>,
    pub role: Option<String>,
}

/// A password reset request.
#[derive(Clone, Debug)]
pub struct ForgotPassword {
    pub username: String,
}

/// A password reset with its token.
#[derive(Clone, Debug)]
pub struct ResetPassword {
    pub token: String,
    pub new_password: String,
}

/// A stored site setting.
#[derive(Debug)]
pub struct SiteSetting {
    pub key: String,
    pub value: JsonValue,
    pub updated_at: i64,
}

/// A new value for a site setting.
#[derive(Debug)]
pub struct SetSiteSetting {
    pub value: JsonValue,
}

/// An action applied to several tasks.
#[derive(Clone, Debug)]
pub struct BatchTaskOperation {
    pub ids: Vec<i64>,
    pub action: String,
}

/// A log purge request.
#[derive(Clone, Debug)]
pub struct ClearLogs {
    pub older_than_days: Option<i64>,
}

/// How many tasks a batch action changed.
#[derive(Clone, Debug)]
pub struct BatchTaskResult {
    pub updated: usize,
}

/// The outcome of validating a QD HAR template.
#[derive(Clone, Debug)]
pub struct QdHarValidation {
    pub valid: bool,
    pub entries: usize,
    pub enabled: usize,
    pub requests: usize,
    pub controls: usize,
    pub extract_variables: usize,
}

/// One request of a template test run.
#[derive(Clone, Debug)]
pub struct TemplateTestStep {
    pub index: usize,
    pub url: String,
    pub status: u16,
    pub body_size: usize,
}

/// A template library source a user browses and imports from.
#[derive(Clone, Debug)]
pub struct TemplateSubscription {
    pub id: i64,
    pub owner_id: i64,
    pub name: String,
    pub url: String,
    pub enabled: bool,
    pub created_at: i64,
    pub updated_at: i64,
}

/// A new subscription.
#[derive(Clone, Debug)]
pub struct CreateTemplateSubscription {
    pub name: String,
    pub url: String,
}

/// A change to a subscription.
#[derive(Clone, Debug)]
pub struct UpdateTemplateSubscription {
    pub name: Option<String>,
    pub url: Option<String>,
    pub enabled: Option<bool>,
}

/// One template a source offers, resolved against what is installed.
#[derive(Clone, Debug)]
pub struct LibraryEntry {
    pub name: String,
    pub author: Option<String>,
    pub comments: Option<String>,
    pub version: Option<String>,
    pub date: Option<String>,
    pub filename: String,
    pub url: Option<String>,
    pub comment_url: Option<String>,
    pub installed: bool,
    pub installed_template_id: Option<i64>,
    pub installed_version: Option<String>,
    pub update_available: bool,
    pub source_id: Option<i64>,
    pub source_name: Option<String>,
}

/// A source's catalogue.
#[derive(Clone, Debug)]
pub struct TemplateLibrary {
    pub subscription_id: i64,
    pub source_kind: String,
    pub manifest_version: Option<String>,
    pub entries: Vec<LibraryEntry>,
}

/// Every source's catalogue in one list.
#[derive(Clone, Debug)]
pub struct LibraryOverview {
    pub entries: Vec<LibraryEntry>,
    pub sources: Vec<LibrarySourceStatus>,
    pub truncated: bool,
}

/// How one source contributed to the overview.
#[derive(Clone, Debug)]
pub struct LibrarySourceStatus {
    pub subscription_id: i64,
    pub name: String,
    pub source_kind: Option<String>,
    pub entries: usize,
    pub cached: bool,
    pub error: Option<String>,
}

/// An entry with its upstream document, not yet written.
#[derive(Debug)]
pub struct LibraryPreview {
    pub entry: LibraryEntry,
    pub har: JsonValue,
}

/// Entry names to import.
#[derive(Clone, Debug)]
pub struct ImportLibraryTemplates {
    pub names: Vec<String>,
}

/// A previewed template saved after editing.
#[derive(Debug)]
pub struct ApplyLibraryTemplate {
    pub entry: String,
    pub template_id: Option<i64>,
    pub name: String,
    pub description: Option<String>,
    pub har: JsonValue,
}

/// The outcome of an import, entry by entry.
#[derive(Clone, Debug)]
pub struct LibraryImportResult {
    pub imported: usize,
    pub updated: usize,
    pub failed: Vec<LibraryImportFailure>,
    pub templates: Vec<LibraryImportOutcome>,
}

/// One entry an import wrote.
#[derive(Clone, Debug)]
pub struct LibraryImportOutcome {
    pub name: String,
    pub template_id: i64,
    pub updated: bool,
}

/// One entry an import could not write.
#[derive(Clone, Debug)]
pub struct LibraryImportFailure {
    pub name: String,
    pub error: String,
}

/// Provenance of a template imported from a source.
#[derive(Clone, Debug)]
pub struct TemplateImport {
    pub subscription_id: i64,
    pub template_id: i64,
    pub entry_name: String,
    pub entry_version: Option<String>,
}

/// A request to publish a template.
#[derive(Clone, Debug)]
pub struct PushRequest {
    pub id: i64,
    pub owner_id: i64,
    pub template_id: i64,
    pub status: String,
    pub note: Option<String>,
    pub reviewed_by: Option<i64>,
    pub reviewed_at: Option<i64>,
    pub created_at: i64,
}

/// A new publish request.
#[derive(Clone, Debug)]
pub struct CreatePushRequest {
    pub template_id: i64,
    pub note: Option<String>,
}

/// An administrator's decision on a publish request.
#[derive(Clone, Debug)]
pub struct DecidePushRequest {
    pub approve: bool,
    pub note: Option<String>,
}

/// One execution of a task.
#[derive(Clone, Debug)]
pub struct Run {
    pub id: i64,
    pub task_id: i64,
    pub status: String,
    pub http_status: Option<i64>,
    pub error: Option<String>,
    pub log: Option<String>,
    pub started_at: Option<i64>,
    pub finished_at: Option<i64>,
    pub created_at: i64,
    pub lease_owner: Option<String>,
    pub lease_expires_at: Option<i64>,
    pub attempt: i64,
    pub cancel_requested: bool,
    pub run_after: Option<i64>,
    pub retry_of: Option<i64>,
    pub trigger: String,
}

/// One step of a run.
#[derive(Clone, Debug)]
pub struct RunStep {
    pub id: i64,
    pub run_id: i64,
    pub step_index: i64,
    pub name: String,
    pub status: String,
    pub http_status: Option<i64>,
    pub body_size: i64,
    pub error: Option<String>,
    pub started_at: i64,
    pub finished_at: i64,
}

/// A notification channel; `config` is its JSON settings.
#[derive(Debug)]
pub struct NotificationChannel {
    pub id: i64,
    pub name: String,
    pub kind: String,
    pub config: JsonValue,
    pub enabled: bool,
    pub created_at: i64,
    pub updated_at: i64,
}

/// A new notification channel.
#[derive(Debug)]
pub struct CreateNotificationChannel {
    pub name: String,
    pub kind: String,
    pub config: JsonValue,
    pub enabled: bool,
}

/// A change to a notification channel.
#[derive(Debug)]
pub struct UpdateNotificationChannel {
    pub name: Option<String>,
    pub config: Option<JsonValue>,
    pub enabled: Option<bool>,
}

/// A binding of a task event to a channel.
#[derive(Clone, Debug)]
pub struct NotificationAction {
    pub id: i64,
    pub task_id: i64,
    pub channel_id: i64,
    pub event: String,
    pub failure_threshold: i64,
    pub automatic_only: bool,
    pub title_template: Option<String>,
    pub body_template: Option<String>,
    pub created_at: i64,
}

/// A new binding.
#[derive(Clone, Debug)]
pub struct CreateNotificationAction {
    pub channel_id: i64,
    pub event: String,
    pub failure_threshold: i64,
    pub automatic_only: bool,
    pub title_template: Option<String>,
    pub body_template: Option<String>,
}

/// The same binding for several tasks.
#[derive(Clone, Debug)]
pub struct BatchCreateNotificationAction {
    pub task_ids: Vec<i64>,
    pub action: CreateNotificationAction,
}

/// A partial change to a binding; absent fields keep their value.
#[derive(Clone, Debug)]
pub struct UpdateNotificationAction {
    pub channel_id: Option<i64>,
    pub event: Option<String>,
    pub failure_threshold: Option<i64>,
    pub automatic_only: Option<bool>,
    pub title_template: Option<String>,
    pub body_template: Option<String>,
}

/// A channel with the binding that selected it.
#[derive(Debug)]
pub struct NotificationDelivery {
    pub channel: NotificationChannel,
    pub action: NotificationAction,
}

/// A registered plugin.
#[derive(Debug)]
pub struct PluginManifest {
    pub id: i64,
    pub name: String,
    pub command: String,
    pub config: JsonValue,
    pub enabled: bool,
    pub created_at: i64,
    pub updated_at: i64,
}

/// A new plugin.
#[derive(Debug)]
pub struct CreatePluginManifest {
    pub name: String,
    pub command: String,
    pub config: JsonValue,
    pub enabled: bool,
}

/// A change to a plugin.
#[derive(Debug)]
pub struct UpdatePluginManifest {
    pub name: Option<String>,
    pub command: Option<String>,
    pub config: Option<JsonValue>,
    pub enabled: Option<bool>,
}

/// An ad-hoc plugin call with its query pairs.
#[derive(Clone, Debug)]
pub struct InvokePlugin {
    pub action: String,
    pub query: Vec<(String, String)>,
}

/// A link between an external identity and a local account.
#[derive(Clone, Debug)]
pub struct ExternalIdentity {
    pub id: i64,
    pub user_id: i64,
    pub provider: String,
    pub issuer: String,
    pub subject: String,
    pub email: Option<String>,
    pub created_at: i64,
    pub last_login_at: i64,
}

/// The provider-independent identity an external login presents.
#[derive(Clone, Debug)]
pub struct ExternalIdentityClaim {
    pub provider: String,
    pub issuer: String,
    pub subject: String,
    pub email: Option<String>,
    pub username_hint: Option<String>,
    pub groups: Vec<String>,
}

/// The account an external identity resolved to, or why not.
#[derive(Clone, Debug)]
pub struct ExternalLoginResolution {
    pub user: Option<User>,
    pub created: bool,
    pub refusal: Option<String>,
}

/// A stored single-use OIDC login state.
#[derive(Clone, Debug)]
pub struct OidcLoginState {
    pub state_hash: String,
    pub nonce_hash: String,
    pub pkce_verifier_encrypted: String,
    pub redirect_uri: String,
    pub created_at: i64,
    pub expires_at: i64,
}

/// A new task. `headers` holds the members of a JSON object.
#[derive(Debug)]
pub struct CreateTask {
    pub name: String,
    pub cron: String,
    pub method: Option<String>,
    /// Request URL of a task not bound to a template.
    pub url: String,
    pub headers: Vec<(String, JsonValue)>,
    pub body: Option<String>,
    pub disabled: bool,
    pub template_id: Option<i64>,
    pub grp: Option<String>,
    pub timeout_seconds: Option<i64>,
    /// 0 = never retry, -1 = always, N = up to N retries.
    pub retry_count: Option<i64>,
    pub retry_interval_seconds: Option<i64>,
    pub priority: Option<i64>,
    pub timezone: Option<String>,
    pub random_delay_max_seconds: Option<i64>,
    pub variables: Option<JsonValue>,
}

/// A partial change to a task; `Some(None)` clears a field.
#[derive(Debug)]
pub struct UpdateTask {
    pub name: Option<String>,
    pub cron: Option<String>,
    pub method: Option<String>,
    pub url: Option<String>,
    pub headers: Option<Vec<(String, JsonValue)>>,
    pub body: Option<String>,
    pub disabled: Option<bool>,
    pub template_id: Option<i64>,
    pub grp: Option<Option<String>>,
    pub timeout_seconds: Option<Option<i64>>,
    pub retry_count: Option<Option<i64>>,
    pub retry_interval_seconds: Option<Option<i64>>,
    pub priority: Option<Option<i64>>,
    pub timezone: Option<Option<String>>,
    pub random_delay_max_seconds: Option<Option<i64>>,
    pub variables: Option<Option<JsonValue>>,
}

/// A stored template: a native definition or a QD HAR (both as JSON).
#[derive(Debug)]
pub struct Template {
    pub id: i64,
    pub name: String,
    pub description: Option<String>,
    pub schema_version: i64,
    pub source_format: String,
    pub definition: Option<JsonValue>,
    pub qd_har: Option<JsonValue>,
    /// Input variables, in first-appearance order.
    pub variables: Vec<String>,
    /// Default values of those variables, by name.
    pub variable_defaults: Vec<(String, String)>,
    pub created_at: i64,
    pub updated_at: i64,
    /// How many of the owner's tasks are bound to it.
    pub task_count: i64,
    pub grp: Option<String>,
}

/// A new native template.
#[derive(Debug)]
pub struct CreateTemplate {
    pub name: String,
    pub description: Option<String>,
    pub definition: JsonValue,
    pub grp: Option<String>,
}

/// A partial change to a native template.
#[derive(Debug)]
pub struct UpdateTemplate {
    pub name: Option<String>,
    pub description: Option<String>,
    pub definition: Option<JsonValue>,
    pub grp: Option<Option<String>>,
}

/// A QD HAR to import as a template.
#[derive(Debug)]
pub struct ImportQdHarTemplate {
    pub name: String,
    pub description: Option<String>,
    pub har: JsonValue,
}

/// A QD HAR replacing a template's source.
#[derive(Debug)]
pub struct UpdateQdHarTemplate {
    pub name: String,
    pub description: Option<String>,
    pub har: JsonValue,
}

/// A QD HAR to check without saving.
#[derive(Debug)]
pub struct ValidateQdHar {
    pub har: JsonValue,
}

/// The variables a template test runs with, by name.
#[derive(Debug)]
pub struct TestTemplate {
    pub variables: Vec<(String, JsonValue)>,
}

/// A template test's outcome; nothing is persisted.
#[derive(Debug)]
pub struct TemplateTestResult {
    pub steps: Vec<TemplateTestStep>,
    pub variables: Vec<(String, JsonValue)>,
    pub log: Option<String>,
}

} // verus!
