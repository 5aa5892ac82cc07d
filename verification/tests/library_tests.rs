use qdrust::json::JsonValue;
use qdrust::library::{
    decode_base64, direct_catalogue, file_stem, looks_like_qd_template, manifest_catalogue,
    manifest_raw_entry, parse_github_url, plain_text, version_is_newer, CatalogueCache,
    CatalogueError, ManifestEntry, RawEntry, CATALOGUE_TTL_SECS, MANIFEST_FILE,
};
use qdrust::library::library_entry;
use qdrust::library::{
    apply_target, import_plan, offered_entry, record_missing, record_outcome, Catalogue, ImportStep,
    SelectionError,
};
use qdrust::model::{
    LibraryImportOutcome, LibraryImportResult, LibraryOverview, LibraryPreview,
    LibrarySourceStatus, TemplateImport,
};

/// The shape qd-today/templates publishes: a `har` map keyed by template
/// name, values carrying metadata plus either a base64 `content` or a
/// `filename` to download.
const MANIFEST: &str = r#"{
    "version": "20230315",
    "har": {
        "雨晨分享站": {
            "name": "雨晨分享站",
            "author": "loveyanglove",
            "url": "https://raw.githubusercontent.com/qd-today/templates/master/雨晨分享站.har",
            "update": true,
            "comments": "账号密码签到<br>日志显示",
            "filename": "雨晨分享站.har",
            "content": "W3siYSI6MX1d",
            "date": "2026-04-25 10:00:03",
            "version": "20260425",
            "commenturl": "https://github.com/qd-today/templates/issues/780"
        },
        "S1论坛签到": {
            "name": "S1论坛签到",
            "author": "Antiky",
            "filename": "saraba1st.har",
            "date": "2023-01-11 20:30:00",
            "version": "20230112"
        },
        "坏记录": {
            "name": "坏记录",
            "author": "nobody",
            "date": "2020-01-01 00:00:00",
            "version": "20200101"
        }
    }
}"#;

fn field(record: &serde_json::Value, key: &str) -> Option<String> {
    record.get(key).and_then(|v| v.as_str()).map(|s| s.to_string())
}

fn manifest_entry(record: &serde_json::Value) -> ManifestEntry {
    ManifestEntry {
        author: field(record, "author"),
        comments: field(record, "comments"),
        version: field(record, "version"),
        date: field(record, "date"),
        filename: field(record, "filename"),
        url: field(record, "url"),
        commenturl: field(record, "commenturl"),
        content: field(record, "content"),
    }
}

/// The manifest's version and its records in key order.
fn parse_manifest(text: &str) -> (Option<String>, Vec<(String, ManifestEntry)>) {
    let value: serde_json::Value = serde_json::from_str(text).unwrap();
    let version = field(&value, "version");
    let mut records = Vec::new();
    if let Some(har) = value.get("har").and_then(|h| h.as_object()) {
        for (key, record) in har {
            records.push((key.clone(), manifest_entry(record)));
        }
    }
    (version, records)
}

fn record<'a>(records: &'a [(String, ManifestEntry)], key: &str) -> &'a ManifestEntry {
    &records.iter().find(|(k, _)| k == key).unwrap().1
}

#[test]
fn manifest_entries_carry_the_metadata_the_browser_shows() {
    let (version, records) = parse_manifest(MANIFEST);
    assert_eq!(version.as_deref(), Some("20230315"));
    assert_eq!(records.len(), 3);

    let entry = manifest_raw_entry("雨晨分享站", record(&records, "雨晨分享站")).unwrap();
    assert_eq!(entry.name, "雨晨分享站");
    assert_eq!(entry.author.as_deref(), Some("loveyanglove"));
    assert_eq!(entry.version.as_deref(), Some("20260425"));
    assert_eq!(entry.filename, "雨晨分享站.har");
    assert_eq!(
        entry.comment_url.as_deref(),
        Some("https://github.com/qd-today/templates/issues/780")
    );
    assert_eq!(entry.content.as_deref(), Some("W3siYSI6MX1d"));
}

#[test]
fn manifest_entry_without_a_filename_derives_one_from_its_key() {
    let (_, records) =
        parse_manifest(r#"{"har": {"fallback": {"name": "fallback", "content": "W3siYSI6MX1d"}}}"#);
    let entry = manifest_raw_entry("fallback", record(&records, "fallback")).unwrap();
    assert_eq!(entry.filename, "fallback.har");
    assert_eq!(entry.content.as_deref(), Some("W3siYSI6MX1d"));

    let (_, records) = parse_manifest(
        r#"{"har": {"linked": {"name": "linked", "url": "https://example.com/linked.har"}}}"#,
    );
    let entry = manifest_raw_entry("linked", record(&records, "linked")).unwrap();
    assert_eq!(entry.filename, "linked.har");
    assert_eq!(entry.url.as_deref(), Some("https://example.com/linked.har"));
}

#[test]
fn manifest_drops_records_that_offer_no_way_to_fetch_the_har() {
    let (_, records) =
        parse_manifest(r#"{"har": {"empty": {"name": "empty", "version": "20240101"}}}"#);
    assert!(manifest_raw_entry("empty", record(&records, "empty")).is_none());
}

#[test]
fn a_manifest_catalogue_keeps_the_usable_records_in_key_order() {
    let (version, records) = parse_manifest(MANIFEST);
    let catalogue = manifest_catalogue(version, &records).unwrap();
    assert_eq!(catalogue.source_kind, "manifest");
    assert_eq!(catalogue.manifest_version.as_deref(), Some("20230315"));
    assert_eq!(catalogue.entries.len(), 2);
    assert_eq!(catalogue.entries[0].name, "S1论坛签到");
    assert_eq!(catalogue.entries[1].name, "雨晨分享站");

    let (version, records) =
        parse_manifest(r#"{"har": {"empty": {"name": "empty", "version": "20240101"}}}"#);
    let refused = manifest_catalogue(version, &records).unwrap_err();
    assert_eq!(refused, CatalogueError::EmptyManifest);
    assert_eq!(refused.message(), "tpls_history.json lists no usable templates");
}

#[test]
fn version_comparison_uses_the_numeric_form_when_it_parses() {
    assert!(version_is_newer(Some("20260425"), Some("20230112")));
    assert!(!version_is_newer(Some("20230112"), Some("20260425")));
    assert!(!version_is_newer(Some("20230112"), Some("20230112")));
    assert!(!version_is_newer(Some("20260425"), None));
    assert!(!version_is_newer(None, Some("20230112")));
    assert!(!version_is_newer(Some("  "), Some("20230112")));
}

#[test]
fn non_numeric_versions_compare_as_text() {
    assert!(version_is_newer(Some("v2"), Some("v1")));
    assert!(!version_is_newer(Some("v1"), Some("v2")));
    assert!(!version_is_newer(Some("v1"), Some("v1")));
}

fn rainy_entry() -> RawEntry {
    RawEntry {
        name: "雨晨分享站".into(),
        author: None,
        comments: Some("账号密码签到<br>日志显示".into()),
        version: Some("20260425".into()),
        date: None,
        filename: "雨晨分享站.har".into(),
        url: None,
        comment_url: None,
        content: None,
    }
}

#[test]
fn installed_entries_report_an_available_update() {
    let entry = rainy_entry();
    let linked = TemplateImport {
        subscription_id: 7,
        template_id: 42,
        entry_name: "雨晨分享站".into(),
        entry_version: Some("20230112".into()),
    };
    let listed = library_entry(&entry, Some(&linked));
    assert!(listed.installed);
    assert_eq!(listed.installed_template_id, Some(42));
    assert!(listed.update_available);
    assert_eq!(listed.comments.as_deref(), Some("账号密码签到\n日志显示"));

    let not_installed = library_entry(&entry, None);
    assert!(!not_installed.installed);
    assert!(!not_installed.update_available);
    assert_eq!(not_installed.installed_template_id, None);
}

#[test]
fn comments_are_reduced_to_plain_text() {
    assert_eq!(plain_text("账号密码签到<br>日志显示"), "账号密码签到\n日志显示");
    assert_eq!(plain_text("<p>a</p><p>b</p>"), "a\nb");
    assert_eq!(plain_text("a<br><br>b"), "a\nb");
    assert_eq!(plain_text("  spaced  "), "spaced");
    assert_eq!(plain_text("a &amp; b &lt;c&gt;"), "a & b <c>");
    assert_eq!(plain_text("<br/>"), "");
    assert_eq!(plain_text(""), "");
}

#[test]
fn base64_content_decodes_and_tolerates_whitespace() {
    assert_eq!(decode_base64("W3siYSI6MX1d").unwrap(), b"[{\"a\":1}]");
    assert_eq!(decode_base64("W3siYSI6MX1d\n").unwrap(), b"[{\"a\":1}]");
    assert!(decode_base64("not base64 !!").is_err());
}

#[test]
fn base64_content_may_leave_out_its_padding() {
    assert_eq!(decode_base64("YQ").unwrap(), b"a");
    assert_eq!(decode_base64("Y Q =\n=").unwrap(), b"a");
}

#[test]
fn github_urls_parse_into_owner_repo_and_branch() {
    let source = parse_github_url("https://github.com/qd-today/templates").unwrap();
    assert_eq!(source.owner, "qd-today");
    assert_eq!(source.repo, "templates");
    assert_eq!(source.branch, "HEAD");
    assert_eq!(
        source.raw_url("雨晨分享站.har"),
        "https://raw.githubusercontent.com/qd-today/templates/HEAD/雨晨分享站.har"
    );

    let branched =
        parse_github_url("https://github.com/qd-today/templates/tree/master/sub").unwrap();
    assert_eq!(branched.branch, "master");
    assert_eq!(
        parse_github_url("https://github.com/owner/repo.git").unwrap().repo,
        "repo"
    );
    assert!(parse_github_url("https://example.com/tpl.har").is_none());
}

#[test]
fn a_source_links_its_files_on_github() {
    let source = parse_github_url("https://github.com/qd-today/templates").unwrap();
    assert_eq!(
        source.blob_url("a.har"),
        "https://github.com/qd-today/templates/blob/HEAD/a.har"
    );
    assert_eq!(
        source.tree_url(),
        "https://api.github.com/repos/qd-today/templates/git/trees/HEAD?recursive=1"
    );
}

#[test]
fn tree_scan_only_accepts_template_files() {
    assert!(looks_like_qd_template("雨晨分享站.har"));
    assert!(looks_like_qd_template("sub/模板.json"));
    assert!(!looks_like_qd_template(MANIFEST_FILE));
    assert!(!looks_like_qd_template("README.md"));
    assert!(!looks_like_qd_template(".github/workflows/ci.yaml"));
    assert_eq!(file_stem("sub/雨晨分享站.har"), "雨晨分享站");
}

#[test]
fn catalogue_falls_back_to_a_single_entry_for_a_direct_file_url() {
    let catalogue = direct_catalogue("https://example.com/naive.har");
    assert_eq!(catalogue.source_kind, "files");
    assert_eq!(catalogue.entries.len(), 1);
    assert_eq!(catalogue.entries[0].name, "naive");
    assert_eq!(
        catalogue.entries[0].url.as_deref(),
        Some("https://example.com/naive.har")
    );
}

#[test]
fn json_shape_matches_what_the_browser_renders() {
    let entry = library_entry(
        &RawEntry {
            name: "S1论坛签到".into(),
            author: Some("Antiky".into()),
            comments: None,
            version: Some("20230112".into()),
            date: Some("2023-01-11 20:30:00".into()),
            filename: "saraba1st.har".into(),
            url: Some("https://example.com/saraba1st.har".into()),
            comment_url: None,
            content: None,
        },
        None,
    );
    assert_eq!(entry.name, "S1论坛签到");
    assert_eq!(entry.author.as_deref(), Some("Antiky"));
    assert!(!entry.installed);
    assert!(!entry.update_available);
    assert_eq!(entry.installed_template_id, None);
}

#[test]
fn import_result_carries_the_ids_the_browser_acts_on() {
    let result = LibraryImportResult {
        imported: 1,
        updated: 1,
        failed: Vec::new(),
        templates: vec![
            LibraryImportOutcome { name: "S1论坛签到".into(), template_id: 7, updated: false },
            LibraryImportOutcome { name: "雨晨分享站".into(), template_id: 9, updated: true },
        ],
    };
    assert_eq!(result.imported, 1);
    assert_eq!(result.updated, 1);
    assert_eq!(result.templates[0].name, "S1论坛签到");
    assert_eq!(result.templates[0].template_id, 7);
    assert!(!result.templates[0].updated);
    assert_eq!(result.templates[1].template_id, 9);
    assert!(result.templates[1].updated);
}

fn raw_entry(name: &str) -> RawEntry {
    RawEntry {
        name: name.into(),
        author: Some("loveyanglove".into()),
        comments: None,
        version: Some("20260425".into()),
        date: Some("2026-04-25 10:00:03".into()),
        filename: format!("{name}.har"),
        url: None,
        comment_url: None,
        content: None,
    }
}

#[test]
fn the_catalogue_cache_reuses_a_recent_read_and_a_refresh_skips_it() {
    let mut cache = CatalogueCache::new();
    let url = "https://example.com/naive.har";
    let ttl_ms = CATALOGUE_TTL_SECS * 1000;
    let now = 1_000_000u64;

    assert!(cache.lookup(url, now, ttl_ms).is_none(), "the first read has nothing to reuse");
    cache.store(url, now, direct_catalogue(url));
    let cached = cache.lookup(url, now + 5, ttl_ms);
    assert!(cached.is_some(), "the second read must reuse the first");
    assert_eq!(cached.unwrap().entries[0].name, "naive");
    assert!(cache.lookup(url, now + 5, 0).is_none(), "max_age zero must bypass the cache");
    assert!(cache.lookup(url, now + ttl_ms, ttl_ms).is_none(), "an expired read is not reused");
    assert!(cache.lookup("https://example.com/other.har", now, ttl_ms).is_none());
}

#[test]
fn aggregate_rows_name_their_source_and_a_single_source_row_does_not() {
    let row = |source: Option<(i64, &str)>| {
        let mut row = library_entry(&raw_entry("雨晨分享站"), None);
        if let Some((id, name)) = source {
            row.source_id = Some(id);
            row.source_name = Some(name.to_string());
        }
        row
    };

    let single = row(None);
    assert!(single.source_id.is_none());
    assert!(single.source_name.is_none());

    let overview = LibraryOverview {
        entries: vec![row(Some((3, "official")))],
        sources: vec![
            LibrarySourceStatus {
                subscription_id: 3,
                name: "official".into(),
                source_kind: Some("manifest".into()),
                entries: 1,
                cached: true,
                error: None,
            },
            LibrarySourceStatus {
                subscription_id: 4,
                name: "third-party".into(),
                source_kind: None,
                entries: 0,
                cached: false,
                error: Some("cannot reach GitHub API".into()),
            },
        ],
        truncated: false,
    };
    assert_eq!(overview.entries[0].source_id, Some(3));
    assert_eq!(overview.entries[0].source_name.as_deref(), Some("official"));
    assert!(overview.sources[0].cached);
    assert_eq!(overview.sources[1].entries, 0);
    assert_eq!(overview.sources[1].error.as_deref(), Some("cannot reach GitHub API"));
    assert_eq!(overview.sources[1].source_kind, None);
    assert!(!overview.truncated);
}

#[test]
fn preview_carries_the_entry_and_the_upstream_document() {
    let har = JsonValue::Object(vec![(
        "log".to_string(),
        JsonValue::Object(vec![
            ("version".to_string(), JsonValue::Str("1.2".to_string())),
            ("entries".to_string(), JsonValue::Array(Vec::new())),
        ]),
    )]);
    let preview = LibraryPreview { entry: library_entry(&raw_entry("雨晨分享站"), None), har };
    assert_eq!(preview.entry.name, "雨晨分享站");
    assert_eq!(preview.entry.version.as_deref(), Some("20260425"));
    let log = preview.har.get("log").unwrap();
    assert_eq!(log.get("version"), Some(&JsonValue::Str("1.2".to_string())));
    assert_eq!(log.get("entries"), Some(&JsonValue::Array(Vec::new())));
}

#[test]
fn each_distinct_selected_name_is_reported_once() {
    let catalogue = Catalogue {
        source_kind: "manifest",
        manifest_version: None,
        entries: vec![raw_entry("a"), raw_entry("b")],
    };
    let names = vec!["a".to_string(), "x".to_string(), "a".to_string(), "b".to_string()];
    let steps = import_plan(&names, &catalogue, &Vec::new()).unwrap();
    assert_eq!(
        steps,
        vec![
            ImportStep::Import { entry: 0, linked: None },
            ImportStep::Missing(1),
            ImportStep::Import { entry: 1, linked: None },
        ]
    );
    let mut result = LibraryImportResult { imported: 0, updated: 0, failed: Vec::new(), templates: Vec::new() };
    record_outcome(&mut result, "a", "a", Ok((7, false)));
    record_missing(&mut result, "x");
    record_outcome(&mut result, "b", "b", Err("boom".to_string()));
    assert_eq!(result.templates.len() + result.failed.len(), 3);
    assert_eq!(result.imported + result.updated, result.templates.len());
    assert_eq!(result.templates[0].name, "a");
    assert_eq!(result.templates[0].template_id, 7);
    assert_eq!(result.failed[0].name, "x");
    assert_eq!(result.failed[0].error, "this source does not offer that template");
    assert_eq!(result.failed[1].name, "b");
    assert_eq!(result.failed[1].error, "boom");
    assert_eq!(import_plan(&Vec::new(), &catalogue, &Vec::new()), Err(SelectionError::NothingSelected));
}

#[test]
fn a_save_needs_a_name_and_an_offered_entry() {
    let catalogue = Catalogue {
        source_kind: "manifest",
        manifest_version: None,
        entries: vec![raw_entry("a"), raw_entry("b")],
    };
    assert_eq!(offered_entry(&catalogue, "b"), Ok(1));
    assert_eq!(offered_entry(&catalogue, "z"), Err("this source does not offer z".to_string()));
    assert_eq!(apply_target(&catalogue, "  ", "a"), Err("the template needs a name".to_string()));
    assert_eq!(apply_target(&catalogue, "Mine", "a"), Ok(0));
    assert_eq!(apply_target(&catalogue, "Mine", "z"), Err("this source does not offer z".to_string()));
}
