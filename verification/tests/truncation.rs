//! How a diff is cut to size.

use revlocal_daemon::clock::Timestamp;
use revlocal_daemon::model::{Change, ChangeKind, DiffStat, FileDiff, RepoConfig};
use revlocal_daemon::prompt;
use revlocal_daemon::truncation::{interest_of, truncate, Interest, TruncationOutcome};

fn base_config() -> RepoConfig {
    RepoConfig {
        deep_file_limit: 150,
        sensitive_globs: vec!["**/auth/**".to_owned()],
        deep_labels: Vec::new(),
        max_file_diff_bytes: 64_000,
        max_total_diff_bytes: 512_000,
        max_convention_bytes: 32_000,
        convention_files: Vec::new(),
        scope: Vec::new(),
        branches: vec!["main".to_owned(), "release/*".to_owned()],
        watch_branches: false,
        webhook_enabled: false,
        webhook_secret_ref: None,
        targets: Vec::new(),
        andare_project: None,
        trama_space: None,
        trama_publish: false,
    }
}


fn file(path: &str, bytes_hint: u64, binary: bool) -> FileDiff {
    FileDiff {
        path: path.to_owned(),
        previous_path: None,
        status: "modified".to_owned(),
        insertions: bytes_hint,
        deletions: 0,
        binary,
    }
}

fn section(path: &str, body_bytes: usize) -> String {
    format!(
        "diff --git a/{path} b/{path}\n--- a/{path}\n+++ b/{path}\n@@ -1 +1 @@\n{}\n",
        "+x".repeat(body_bytes / 2)
    )
}

fn config(per_file: usize, total: usize) -> RepoConfig {
    RepoConfig {
        max_file_diff_bytes: per_file,
        max_total_diff_bytes: total,
        ..base_config()
    }
}

#[test]
fn truncation_an_untouched_diff_is_not_marked_truncated() {
    let diff = section("src/a.rs", 100);
    let outcome = truncate(
        &diff,
        &vec![file("src/a.rs", 50, false)],
        &config(64_000, 512_000),
    );

    assert!(!outcome.truncated);
    assert_eq!(outcome.diff, diff);
    assert!(outcome.omitted_files.is_empty());
    assert!(outcome.describe().is_none());
    assert!(outcome.is_consistent());
}

#[test]
fn truncation_sets_truncated_and_describes_what_it_did() {
    let diff = format!(
        "{}{}",
        section("src/a.rs", 4_000),
        section("docs/b.md", 4_000)
    );
    let outcome = truncate(
        &diff,
        &vec![file("src/a.rs", 1, false), file("docs/b.md", 1, false)],
        &config(64_000, 5_000),
    );

    assert!(outcome.truncated);
    assert!(outcome.is_consistent());
    assert!(outcome.retained_bytes < outcome.original_bytes);

    let described = outcome.describe().expect("truncation is described");
    assert!(described.contains("1 file(s) omitted"), "{described}");
}

#[test]
fn truncation_claiming_a_cut_without_naming_one_is_inconsistent() {
    let bad = TruncationOutcome {
        truncated: true,
        ..TruncationOutcome::default()
    };
    assert!(!bad.is_consistent());

    let also_bad = TruncationOutcome {
        truncated: false,
        omitted_files: vec!["a".to_owned()],
        ..TruncationOutcome::default()
    };
    assert!(!also_bad.is_consistent());
}

#[test]
fn truncation_names_every_omitted_file_even_when_many_are_dropped() {
    let paths: Vec<String> = (0..40).map(|i| format!("data/f{i:02}.csv")).collect();
    let diff: String = paths.iter().map(|p| section(p, 2_000)).collect();
    let files: Vec<FileDiff> = paths.iter().map(|p| file(p, 1, false)).collect();

    let outcome = truncate(&diff, &files, &config(64_000, 10_000));

    assert!(outcome.truncated);
    for path in &paths {
        let in_diff = outcome.diff.contains(path.as_str());
        let named = outcome.omitted_files.contains(path);
        assert!(in_diff || named, "{path} vanished without being named");
        assert!(!(in_diff && named), "{path} both kept and reported omitted");
    }
    assert!(
        outcome.omitted_files.len() > 30,
        "expected most to be dropped"
    );
}

#[test]
fn truncation_the_omitted_list_is_never_itself_truncated() {
    let paths: Vec<String> = (0..500).map(|i| format!("data/f{i:03}.csv")).collect();
    let diff: String = paths.iter().map(|p| section(p, 500)).collect();
    let files: Vec<FileDiff> = paths.iter().map(|p| file(p, 1, false)).collect();

    let outcome = truncate(&diff, &files, &config(64_000, 1_000));

    assert!(outcome.omitted_files.len() >= 490);
}

#[test]
fn truncation_interest_ordering_is_source_tests_config_data() {
    assert!(Interest::Source > Interest::Tests);
    assert!(Interest::Tests > Interest::Config);
    assert!(Interest::Config > Interest::Data);
}

#[test]
fn truncation_classifies_a_mixed_commit() {
    assert_eq!(interest_of("src/engine/runner.rs"), Interest::Source);
    assert_eq!(interest_of("crates/x/tests/smoke.rs"), Interest::Tests);
    assert_eq!(interest_of("tests/smoke.rs"), Interest::Tests);
    assert_eq!(interest_of("src/runner_test.go"), Interest::Tests);
    assert_eq!(interest_of("app/foo.spec.ts"), Interest::Tests);
    assert_eq!(interest_of("Cargo.toml"), Interest::Config);
    assert_eq!(interest_of("package.json"), Interest::Config);
    assert_eq!(interest_of(".github/workflows/ci.yml"), Interest::Config);
    assert_eq!(interest_of("Dockerfile"), Interest::Config);
    assert_eq!(interest_of("README.md"), Interest::Data);
    assert_eq!(interest_of("assets/logo.png"), Interest::Data);
    assert_eq!(interest_of("db/seed.json"), Interest::Data);
}

#[test]
fn truncation_a_config_file_under_tests_is_a_test() {
    assert_eq!(interest_of("tests/fixtures/config.toml"), Interest::Tests);
    assert_eq!(interest_of("src/testdata/input.json"), Interest::Tests);
}

#[test]
fn truncation_drops_least_interesting_first_on_a_mixed_commit() {
    let mixed = [
        "src/engine.rs",
        "tests/engine_test.rs",
        "Cargo.toml",
        "README.md",
    ];
    let parts: Vec<String> = mixed.iter().map(|p| section(p, 1_000)).collect();
    let diff: String = parts.concat();
    let files: Vec<FileDiff> = mixed.iter().map(|p| file(p, 1, false)).collect();

    let by_interest = |n: usize| -> usize {
        let mut sizes: Vec<(Interest, usize)> = mixed
            .iter()
            .zip(&parts)
            .map(|(p, s)| (interest_of(p), s.len()))
            .collect();
        sizes.sort_by_key(|(i, _)| std::cmp::Reverse(*i));
        sizes.iter().take(n).map(|(_, len)| len).sum()
    };

    let three = truncate(&diff, &files, &config(64_000, by_interest(3)));
    assert_eq!(three.omitted_files, ["README.md"]);

    let two = truncate(&diff, &files, &config(64_000, by_interest(2)));
    assert_eq!(two.omitted_files, ["Cargo.toml", "README.md"]);

    let one = truncate(&diff, &files, &config(64_000, by_interest(1)));
    assert_eq!(
        one.omitted_files,
        ["Cargo.toml", "README.md", "tests/engine_test.rs"]
    );
    assert!(one.diff.contains("src/engine.rs"));
}

#[test]
fn truncation_is_deterministic_within_a_tier() {
    let paths: Vec<String> = (0..6).map(|i| format!("src/f{i}.rs")).collect();
    let diff: String = paths.iter().map(|p| section(p, 1_000)).collect();
    let files: Vec<FileDiff> = paths.iter().map(|p| file(p, 1, false)).collect();

    let first = truncate(&diff, &files, &config(64_000, 3_500));
    let again = truncate(&diff, &files, &config(64_000, 3_500));

    assert_eq!(first.omitted_files, again.omitted_files);
    assert!(first.omitted_files.contains(&"src/f5.rs".to_owned()));
    assert!(!first.omitted_files.contains(&"src/f0.rs".to_owned()));
}

#[test]
fn truncation_binary_files_are_summarised_never_emitted() {
    let diff = format!(
        "diff --git a/img/logo.png b/img/logo.png\nGIT binary patch\n{}\n",
        "\u{fffd}zzzz".repeat(50)
    );
    let outcome = truncate(
        &diff,
        &vec![file("img/logo.png", 0, true)],
        &config(64_000, 512_000),
    );

    assert!(outcome.truncated);
    assert!(!outcome.diff.contains("GIT binary patch"));
    assert!(outcome.diff.contains("[binary] img/logo.png"));
    assert_eq!(outcome.reduced_files, ["img/logo.png"]);
}

#[test]
fn truncation_a_tiny_binary_is_still_summarised() {
    let diff = "diff --git a/x.bin b/x.bin\nGIT binary patch\nab\n".to_owned();
    let outcome = truncate(&diff, &vec![file("x.bin", 0, true)], &config(64_000, 512_000));

    assert!(!outcome.diff.contains("GIT binary patch"));
    assert!(outcome.diff.contains("[binary] x.bin"));
}

#[test]
fn truncation_a_large_file_becomes_a_stat_line_but_stays_in_the_diff() {
    let diff = section("src/big.rs", 10_000);
    let outcome = truncate(
        &diff,
        &vec![file("src/big.rs", 5_000, false)],
        &config(1_000, 512_000),
    );

    assert!(outcome.truncated);
    assert!(outcome.diff.contains("src/big.rs"));
    assert!(outcome.diff.contains("diff too large to show"));
    assert!(!outcome.diff.contains("+x+x"));
    assert!(outcome.omitted_files.is_empty());
    assert_eq!(outcome.reduced_files, ["src/big.rs"]);
}

#[test]
fn truncation_the_per_file_cap_runs_before_the_total_cap() {
    let diff = format!(
        "{}{}",
        section("src/huge.rs", 20_000),
        section("src/small.rs", 200)
    );
    let files = vec![
        file("src/huge.rs", 1, false),
        file("src/small.rs", 1, false),
    ];

    let outcome = truncate(&diff, &files, &config(500, 3_000));

    assert!(outcome.diff.contains("src/small.rs"));
    assert!(outcome.diff.contains("+x"), "the small file kept its hunks");
    assert!(
        outcome.omitted_files.is_empty(),
        "capping first should have made room: {:?}",
        outcome.omitted_files
    );
}

#[test]
fn truncation_keeps_the_preamble_and_never_drops_it() {
    let diff = format!("commit abc\nAuthor: x\n\n{}", section("data/a.csv", 5_000));
    let outcome = truncate(&diff, &vec![file("data/a.csv", 1, false)], &config(64_000, 100));

    assert!(outcome.diff.starts_with("commit abc"));
    assert_eq!(outcome.omitted_files, ["data/a.csv"]);
}

#[test]
fn truncation_handles_a_path_containing_a_space() {
    let path = "docs/release notes.md";
    let diff = section(path, 200);
    let outcome = truncate(&diff, &vec![file(path, 1, false)], &config(64_000, 512_000));

    assert!(!outcome.truncated);
    assert_eq!(outcome.diff, diff);
}

#[test]
fn truncation_an_unidentified_section_is_treated_as_source() {
    let diff = format!(
        "{}{}",
        section("mystery.rs", 1_000),
        section("data/x.csv", 1_000)
    );
    let outcome = truncate(
        &diff,
        &vec![file("data/x.csv", 1, false)],
        &config(64_000, 1_200),
    );

    assert_eq!(outcome.omitted_files, ["data/x.csv"]);
    assert!(outcome.diff.contains("mystery.rs"));
}

#[test]
fn truncation_a_readme_that_nothing_describes_outlasts_a_test() {
    let readme = section("README.md", 1_000);
    let diff = format!("{}{}", readme, section("tests/t.rs", 1_000));
    let outcome = truncate(&diff, &vec![file("tests/t.rs", 1, false)], &config(64_000, 1_200));

    assert_eq!(outcome.omitted_files, ["tests/t.rs"]);
    assert_eq!(outcome.diff, readme);
    assert!(outcome.truncated);

    // Described, it is the first to go.
    let described = vec![file("README.md", 1, false), file("tests/t.rs", 1, false)];
    let outcome = truncate(&diff, &described, &config(64_000, 1_200));
    assert_eq!(outcome.omitted_files, ["README.md"]);
}

#[test]
fn truncation_an_empty_diff_is_untouched() {
    let outcome = truncate("", &vec![], &config(64_000, 512_000));

    assert!(!outcome.truncated);
    assert!(outcome.diff.is_empty());
    assert!(outcome.is_consistent());
}

#[test]
fn truncation_an_omitted_file_is_not_also_reported_reduced() {
    let diff = format!(
        "{}{}",
        section("src/a.rs", 2_000),
        section("data/big.csv", 9_000)
    );
    let files = vec![file("src/a.rs", 1, false), file("data/big.csv", 1, false)];

    let stat_only = truncate(&diff, &files, &config(1_000, 512_000));
    assert_eq!(stat_only.reduced_files, ["data/big.csv", "src/a.rs"]);

    let outcome = truncate(&diff, &files, &config(1_000, stat_only.retained_bytes - 10));

    assert!(outcome.omitted_files.contains(&"data/big.csv".to_owned()));
    assert!(!outcome.reduced_files.contains(&"data/big.csv".to_owned()));
    assert_eq!(outcome.reduced_files, ["src/a.rs"]);
    assert!(outcome.is_consistent());
}

#[test]
fn truncation_omitted_files_reach_the_rendered_prompt() {
    let paths = ["src/keep.rs", "data/drop_me.csv", "docs/also_dropped.md"];
    let diff: String = paths.iter().map(|p| section(p, 3_000)).collect();
    let files: Vec<FileDiff> = paths.iter().map(|p| file(p, 1, false)).collect();

    let outcome = truncate(&diff, &files, &config(64_000, 4_000));
    assert!(!outcome.omitted_files.is_empty());

    let change = Change {
        id: 1,
        repo_id: 1,
        kind: ChangeKind::Commit,
        external_id: "abc".to_owned(),
        title: None,
        author_name: None,
        author_email: None,
        authored_at: None,
        branch: None,
        base_ref: None,
        head_ref: None,
        url: None,
        diff_stat: DiffStat { files: 0, insertions: 0, deletions: 0 },
        detected_at: Timestamp::at(0, 0),
    };
    let context = prompt::build_context(
        "{}",
        "r",
        "git",
        &change,
        &base_config(),
        &outcome.diff,
        outcome.truncated,
        &outcome.omitted_files,
        Vec::new(),
        &vec![],
        &vec![],
    );

    let mut data = serde_json::Map::new();
    data.insert("truncated".to_owned(), serde_json::Value::from(context.truncated));
    data.insert("omitted_files".to_owned(), serde_json::Value::from(context.omitted_files));
    let rendered = prompt::render(
        "{{#if truncated}}This diff has been truncated{{#each omitted_files}} {{{this}}}{{/each}}{{/if}}",
        &serde_json::Value::Object(data).to_string(),
    )
    .expect("renders");

    assert!(rendered.contains("This diff has been truncated"));
    for omitted in &outcome.omitted_files {
        assert!(rendered.contains(omitted.as_str()), "{omitted} not in the prompt");
    }
}

#[test]
fn truncation_says_how_much_is_left() {
    let diff = format!("{}{}", section("src/a.rs", 4_000), section("docs/b.md", 4_000));
    let outcome = truncate(
        &diff,
        &vec![file("src/a.rs", 1, false), file("docs/b.md", 1, false)],
        &config(64_000, 5_000),
    );

    assert_eq!(outcome.original_bytes, diff.len());
    assert_eq!(outcome.retained_bytes, outcome.diff.len());
    assert_eq!(outcome.diff, section("src/a.rs", 4_000));
    assert_eq!(outcome.omitted_files, ["docs/b.md"]);
}

#[test]
fn truncation_an_outcome_starts_out_with_nothing_cut() {
    let outcome = TruncationOutcome::default();

    assert!(outcome.is_consistent());
    assert_eq!(outcome.describe(), None);
}
