//! What an engine is told.

use revlocal_daemon::clock::Timestamp;
use revlocal_daemon::model::{
    Category, Change, ChangeKind, DiffStat, Finding, FindingState, RepoConfig, Severity,
};
use revlocal_daemon::prompt::{
    build_context, convention_paths, is_plain_template, read_conventions, render, rendered, ConventionFile,
    PromptContext, PromptError, DEFAULT_CONVENTION_FILES, PROMPT_FILE, SECTIONS,
};
use serde_json::Value;

const TEMPLATE: &str = "## 1. Role and output contract
{{{output_contract}}}
## 2. Change metadata
`{{{external_id}}}` {{{message}}}
{{#if branch}}Branch: {{{branch}}}{{/if}}
{{#if author}}Author: {{{author}}}{{/if}}
Files: {{files_changed}} (+{{insertions}} / -{{deletions}})
## 3. The diff
{{#if truncated}}This diff has been truncated:{{#each omitted_files}} {{{this}}}{{/each}}{{/if}}
{{{diff}}}
## 4. Repository conventions
{{#each conventions}}
{{{path}}}: {{{content}}}
{{#if truncated}}Truncated: showing the first {{shown_bytes}} bytes of {{total_bytes}}{{/if}}
{{else}}
This repository states no conventions of its own. Do not invent any.
{{/each}}
## 5. Review scope
{{#each scope}}
**{{{name}}}**: {{{guidance}}}
{{/each}}
## 6. Prior context
{{#if has_prior_context}}
{{#each prior_findings}}
{{{fingerprint}}} {{{severity}}} {{{file}}} {{{title}}}: do not report it again
{{/each}}
{{#if suppressed}}Do not report these:{{#each suppressed}} {{{this}}}{{/each}}{{/if}}
{{else}}
This change has not been reviewed before.
{{/if}}
## 7. Rules of engagement
";

fn config() -> RepoConfig {
    RepoConfig {
        deep_file_limit: 150,
        sensitive_globs: Vec::new(),
        deep_labels: Vec::new(),
        max_file_diff_bytes: 64_000,
        max_total_diff_bytes: 512_000,
        max_convention_bytes: 32_000,
        convention_files: Vec::new(),
        scope: vec![Category::Correctness, Category::Perf],
        branches: Vec::new(),
        watch_branches: false,
        webhook_enabled: false,
        webhook_secret_ref: None,
        targets: Vec::new(),
        andare_project: None,
        trama_space: None,
        trama_publish: false,
    }
}

fn change() -> Change {
    Change {
        id: 1,
        repo_id: 1,
        kind: ChangeKind::Commit,
        external_id: "abc123".to_owned(),
        title: Some("Fix the pager".to_owned()),
        author_name: Some("A Developer".to_owned()),
        author_email: None,
        authored_at: None,
        branch: Some("main".to_owned()),
        base_ref: None,
        head_ref: None,
        url: None,
        diff_stat: DiffStat { files: 2, insertions: 10, deletions: 3 },
        detected_at: Timestamp::at(0, 0),
    }
}

fn context() -> PromptContext {
    build_context(
        "{\"schema_version\": 1} $REVLOCAL_OUT/result.json",
        "rev-local",
        "git",
        &change(),
        &config(),
        "--- a/x\n+++ b/x\n",
        false,
        &vec![],
        Vec::new(),
        &vec![],
        &vec![],
    )
}

fn object(members: Vec<(&str, Value)>) -> Value {
    let mut map = serde_json::Map::new();
    for (key, value) in members {
        map.insert(key.to_owned(), value);
    }
    Value::Object(map)
}

/// The context as a document.
fn document(c: &PromptContext) -> String {
    let conventions: Vec<Value> = c
        .conventions
        .iter()
        .map(|f| {
            object(vec![
                ("path", Value::from(f.path.clone())),
                ("content", Value::from(f.content.clone())),
                ("truncated", Value::from(f.truncated)),
                ("shown_bytes", Value::from(f.shown_bytes)),
                ("total_bytes", Value::from(f.total_bytes)),
            ])
        })
        .collect();
    let scope: Vec<Value> = c
        .scope
        .iter()
        .map(|s| object(vec![("name", Value::from(s.name.clone())), ("guidance", Value::from(s.guidance.clone()))]))
        .collect();
    let prior: Vec<Value> = c
        .prior_findings
        .iter()
        .map(|p| {
            object(vec![
                ("fingerprint", Value::from(p.fingerprint.clone())),
                ("severity", Value::from(p.severity.clone())),
                ("file", Value::from(p.file.clone())),
                ("title", Value::from(p.title.clone())),
            ])
        })
        .collect();
    object(vec![
        ("output_contract", Value::from(c.output_contract.clone())),
        ("external_id", Value::from(c.external_id.clone())),
        ("message", Value::from(c.message.clone())),
        ("branch", Value::from(c.branch.clone())),
        ("author", Value::from(c.author.clone())),
        ("files_changed", Value::from(c.files_changed)),
        ("insertions", Value::from(c.insertions)),
        ("deletions", Value::from(c.deletions)),
        ("diff", Value::from(c.diff.clone())),
        ("truncated", Value::from(c.truncated)),
        ("omitted_files", Value::from(c.omitted_files.clone())),
        ("conventions", Value::from(conventions)),
        ("scope", Value::from(scope)),
        ("prior_findings", Value::from(prior)),
        ("suppressed", Value::from(c.suppressed.clone())),
        ("has_prior_context", Value::from(c.has_prior_context)),
    ])
    .to_string()
}

fn shown(c: &PromptContext) -> String {
    render(TEMPLATE, &document(c)).expect("renders")
}

fn read(entries: &[(&str, Option<&str>)]) -> Vec<(String, Option<String>)> {
    entries.iter().map(|(path, content)| ((*path).to_owned(), content.map(str::to_owned))).collect()
}

#[test]
fn prompt_sections_are_in_spec_order() {
    let rendered = shown(&context());

    let mut cursor = 0;
    for (index, section) in SECTIONS.iter().enumerate() {
        let heading = format!("## {}. {section}", index + 1);
        let at = rendered[cursor..]
            .find(&heading)
            .unwrap_or_else(|| panic!("section {heading:?} missing or out of order"));
        cursor += at + heading.len();
    }
}

#[test]
fn prompt_a_diff_is_not_html_escaped() {
    let mut ctx = context();
    ctx.diff = "-if (a < b && c > d) {\n+if (a <= b || \"x\" == 'y') {\n".to_owned();

    let rendered = shown(&ctx);

    assert!(
        rendered.contains(r#"+if (a <= b || "x" == 'y') {"#),
        "{rendered}"
    );
    assert!(!rendered.contains("&lt;"), "diff was HTML-escaped");
    assert!(!rendered.contains("&quot;"), "diff was HTML-escaped");
    assert!(!rendered.contains("&amp;"), "diff was HTML-escaped");
    assert!(!rendered.contains("&#x27;"), "diff was HTML-escaped");
}

#[test]
fn prompt_a_commit_message_is_not_html_escaped() {
    let mut ctx = context();
    ctx.message = Some("use <T> not &T".to_owned());

    assert!(shown(&ctx).contains("use <T> not &T"));
}

#[test]
fn prompt_inlines_the_output_contract() {
    let rendered = shown(&context());

    assert!(rendered.contains(r#""schema_version""#));
    assert!(rendered.contains("$REVLOCAL_OUT/result.json"));
}

#[test]
fn prompt_reads_the_named_convention_files() {
    let looked_for = convention_paths("HOUSE.md", &config());
    assert_eq!(looked_for, ["HOUSE.md", "AGENTS.md", "CONTRIBUTING.md", ".editorconfig"]);
    assert_eq!(looked_for[1..], DEFAULT_CONVENTION_FILES);
    let found: Vec<(&str, Option<&str>)> = looked_for
        .iter()
        .map(|path| match path.as_str() {
            "HOUSE.md" => ("HOUSE.md", Some("always use tabs")),
            "CONTRIBUTING.md" => ("CONTRIBUTING.md", Some("sign your commits")),
            other => (other, None),
        })
        .collect();
    let files = read_conventions(&read(&found), 32_000);

    let paths: Vec<&str> = files.iter().map(|f| f.path.as_str()).collect();
    assert_eq!(paths, ["HOUSE.md", "CONTRIBUTING.md"]);
    assert!(files.iter().all(|f| !f.truncated));
}

#[test]
fn prompt_missing_convention_files_are_not_an_error() {
    assert!(read_conventions(&read(&[("HOUSE.md", None)]), 32_000).is_empty());

    let mut ctx = context();
    ctx.conventions = Vec::new();
    let rendered = shown(&ctx);

    assert!(rendered.contains("## 4. Repository conventions"));
    assert!(rendered.contains("states no conventions of its own"));
}

#[test]
fn prompt_with_no_conventions_forbids_inventing_them() {
    let mut ctx = context();
    ctx.conventions = Vec::new();

    assert!(shown(&ctx).contains("Do not invent any"));
}

#[test]
fn prompt_conventions_are_capped_at_max_convention_bytes() {
    let files = read_conventions(&read(&[("HOUSE.md", Some(&"x".repeat(5000)))]), 1000);

    assert_eq!(files.len(), 1);
    assert!(files[0].truncated);
    assert_eq!(files[0].shown_bytes, 1000);
    assert_eq!(files[0].total_bytes, 5000);
}

#[test]
fn prompt_convention_budget_is_shared_across_files() {
    let files = read_conventions(
        &read(&[("HOUSE.md", Some(&"y".repeat(800))), ("CONTRIBUTING.md", Some(&"z".repeat(800)))]),
        1000,
    );

    assert_eq!(files.len(), 2);
    assert_eq!(files[0].shown_bytes, 800);
    assert_eq!(files[1].shown_bytes, 200);
    assert!(files[1].truncated);
}

#[test]
fn prompt_convention_truncation_respects_char_boundaries() {
    let files = read_conventions(&read(&[("HOUSE.md", Some(&"—".repeat(100)))]), 10);

    assert_eq!(files[0].shown_bytes, 9);
    assert_eq!(files[0].content, "—".repeat(3));
}

#[test]
fn prompt_a_convention_file_is_read_once() {
    let files = read_conventions(
        &read(&[("HOUSE.md", Some("one")), ("HOUSE.md", Some("one")), ("x", Some("two"))]),
        3,
    );

    assert_eq!(files.len(), 1);
    let named = convention_paths(
        "HOUSE.md",
        &RepoConfig { convention_files: vec!["STYLE.md".to_owned()], ..config() },
    );
    assert_eq!(named, ["HOUSE.md", "AGENTS.md", "CONTRIBUTING.md", ".editorconfig", "STYLE.md"]);
    assert_eq!(PROMPT_FILE, "prompt.md");
}

#[test]
fn prompt_states_convention_truncation_in_the_prompt_itself() {
    let mut ctx = context();
    ctx.conventions = vec![ConventionFile {
        path: "HOUSE.md".to_owned(),
        content: "partial".to_owned(),
        truncated: true,
        shown_bytes: 7,
        total_bytes: 900,
    }];

    let rendered = shown(&ctx);

    assert!(rendered.contains("Truncated: showing the first 7 bytes of 900"));
}

#[test]
fn prompt_states_diff_truncation_and_names_omitted_files() {
    let mut ctx = context();
    ctx.truncated = true;
    ctx.omitted_files = vec!["vendor/huge.js".to_owned()];

    let rendered = shown(&ctx);

    assert!(rendered.contains("This diff has been truncated"));
    assert!(rendered.contains("vendor/huge.js"));
}

#[test]
fn prompt_an_untruncated_diff_says_nothing_about_truncation() {
    assert!(!shown(&context()).contains("has been truncated"));
}

fn with(prior: &Vec<Finding>, suppressed: &Vec<String>, change: &Change, config: &RepoConfig) -> PromptContext {
    build_context("", "r", "git", change, config, "", false, &vec![], Vec::new(), prior, suppressed)
}

#[test]
fn prompt_lists_the_configured_scope_only() {
    let narrow = RepoConfig { scope: vec![Category::Security], ..config() };
    let rendered = shown(&with(&vec![], &vec![], &change(), &narrow));

    assert!(rendered.contains("**security**"));
    assert!(!rendered.contains("**perf**"));
}

#[test]
fn prompt_suppressed_fingerprints_are_marked_do_not_report() {
    let rendered = shown(&with(&vec![], &vec!["deadbeef".to_owned()], &change(), &config()));

    let marker = rendered
        .find("Do not report these")
        .expect("marker present");
    let fingerprint = rendered.find("deadbeef").expect("fingerprint present");
    assert!(
        marker < fingerprint,
        "fingerprint listed before its warning"
    );
    assert!(marker > rendered.find("## 6. Prior context").expect("section 6"));
}

#[test]
fn prompt_prior_findings_are_listed_with_their_fingerprints() {
    let finding = Finding {
        id: 1,
        run_id: 1,
        fingerprint: "cafe1234".to_owned(),
        severity: Severity::High,
        category: Category::Correctness,
        confidence_bits: 0.9_f64.to_bits(),
        file: Some("src/pager.rs".to_owned()),
        line_start: Some(10),
        line_end: Some(12),
        title: "off-by-one in page bounds".to_owned(),
        body: String::new(),
        failure_scenario: None,
        suggested_fix: None,
        state: FindingState::Open,
        created_at: Timestamp::at(0, 0),
    };
    let nowhere = Finding { file: None, ..finding.clone() };
    let context = with(&vec![finding, nowhere], &vec![], &change(), &config());
    assert_eq!(context.prior_findings[1].file, "(no file)");

    let rendered = shown(&context);

    assert!(rendered.contains("cafe1234"));
    assert!(rendered.contains("off-by-one in page bounds"));
    assert!(rendered.contains("src/pager.rs"));
    assert!(rendered.contains("do not report it again"));
}

#[test]
fn prompt_with_no_prior_context_says_so() {
    let rendered = shown(&context());

    assert!(rendered.contains("has not been reviewed before"));
    assert!(!rendered.contains("Do not report these"));
}

#[test]
fn prompt_metadata_carries_the_change_identity() {
    let rendered = shown(&context());

    assert!(rendered.contains("`abc123`"));
    assert!(rendered.contains("Fix the pager"));
    assert!(rendered.contains("A Developer"));
    assert!(rendered.contains("2 (+10 / -3)"));
}

#[test]
fn prompt_omits_absent_optional_metadata() {
    let mut c = change();
    c.branch = None;
    c.author_name = None;
    c.title = None;

    let rendered = shown(&with(&vec![], &vec![], &c, &config()));

    assert!(!rendered.contains("Branch:"));
    assert!(!rendered.contains("Author:"));
    assert!(!rendered.contains("None"));
}

#[test]
fn prompt_only_a_plain_template_is_rendered() {
    assert!(is_plain_template(TEMPLATE));
    assert!(is_plain_template("a (b) [c] > d {{! {{* (anything) }} {{{x}}} {{#each y as |z|}}{{/each}}"));
    for odd in [
        "{{#*inline \"a\"}}{{> a}}{{/inline}}",
        "{{> a}}",
        "{{#> a}}{{/a}}",
        "{{x (y)}}",
        "{{x [1]}}",
        "{{x 'y'}}",
        "{{{{raw}}}}",
        r#"\{{!{{#*inline "a"}}\{{!{{>a}}{{/inline}}\{{!{{>a}}"#,
        r#"a \\{{x}}"#,
        r#"{\{{x}}"#,
    ] {
        assert!(!is_plain_template(odd), "{odd}");
    }
    assert!(is_plain_template(r#"\{ x \ {{x}} \n{{! \{{ }}"#));
    assert!(is_plain_template(&"{{x}}".repeat(128)));
    assert!(!is_plain_template(&"{{x}}".repeat(129)));
}

#[test]
fn prompt_a_template_that_does_not_render_is_at_fault_itself() {
    let error = render("{{#if", "{}").expect_err("no template");
    assert!(error.describe().contains("this is a bug in rev-local"));
    assert!(render("{{x}}", "not a document").is_err());
    assert_eq!(render("a {{missing}}b", "{}").as_deref(), Ok("a b"));
    assert_eq!(rendered(Err("why".to_owned())), Err(PromptError::Template("why".to_owned())));
    let unwritten = PromptError::Write { path: "/nonexistent/revlocal".to_owned(), source: "gone".to_owned() };
    assert_eq!(
        unwritten.describe(),
        "could not write the rendered prompt to /nonexistent/revlocal: gone"
    );
}
