//! Which engine runs, and how it is invoked.

use revlocal_daemon::engines::{
    for_kind, is_mock, template_for, ConfigItem, ConfigValue, EngineError, InvocationTemplate, Table, Tables,
};
use revlocal_daemon::model::EngineKind;

const CODEX: EngineKind = EngineKind { name: "codex" };

fn shipped(bin: &str) -> InvocationTemplate {
    InvocationTemplate {
        bin: bin.to_owned(),
        args: vec!["-p".to_owned(), "{prompt_file_content}".to_owned()],
        version_args: vec!["--version".to_owned()],
        stdin_prompt: false,
        pass_env: vec!["PATH".to_owned()],
    }
}

fn text(value: &str) -> ConfigValue {
    ConfigValue::Text(value.to_owned())
}

fn list(items: &[&str]) -> ConfigValue {
    ConfigValue::List(items.iter().map(|i| ConfigItem::Text((*i).to_owned())).collect())
}

fn table(entries: Vec<(&str, ConfigValue)>) -> Table {
    entries.into_iter().map(|(key, value)| (key.to_owned(), value)).collect()
}

fn configured(engine: &str, table: Table) -> Tables {
    vec![(engine.to_owned(), Some(table))]
}

#[test]
fn engines_a_repository_set_to_claude_gets_claude() {
    let engine = for_kind(CODEX, shipped("codex"), &vec![]).expect("built");

    assert_eq!(engine.id(), CODEX);
}

#[test]
fn engines_the_shipped_default_is_the_one_in_the_spec() {
    let template = template_for(CODEX, shipped("codex"), &vec![]).expect("built");

    assert_eq!(template.bin, "codex");
    assert!(template.args.contains(&"{prompt_file_content}".to_owned()));
}

#[test]
fn engines_config_overrides_the_default_template() {
    let config = table(vec![
        ("bin", text("codex-next")),
        ("args", list(&["--review", "{cwd}"])),
        ("stdin_prompt", ConfigValue::Flag(true)),
    ]);

    let template = template_for(CODEX, shipped("codex"), &configured("codex", config)).expect("built");

    assert_eq!(template.bin, "codex-next");
    assert_eq!(template.args, vec!["--review", "{cwd}"]);
    assert!(template.stdin_prompt);
    assert_eq!(template.version_args, vec!["--version"]);
}

#[test]
fn engines_the_spec_document_own_spelling_is_accepted() {
    let config = table(vec![
        ("binary", text("codex")),
        ("timeout_secs", ConfigValue::Other("integer".to_owned())),
    ]);

    let template = template_for(CODEX, shipped("other"), &configured("codex", config)).expect("built");
    assert_eq!(template.bin, "codex");
}

#[test]
fn engines_a_malformed_table_is_an_error_not_a_silent_default() {
    let config = table(vec![("args", text("not an array"))]);

    let error = template_for(CODEX, shipped("codex"), &configured("codex", config)).expect_err("refused");

    let text = error.describe();
    assert!(text.contains("args"), "{text}");
    assert!(text.contains("engines.codex"), "{text}");
    assert_eq!(
        text,
        "[engines.codex] has `args` as string, which should be an array of strings\n  try: fix it in your config, or delete the key to use the default"
    );
}

#[test]
fn engines_an_empty_binary_is_refused() {
    let config = table(vec![("bin", text(""))]);

    assert_eq!(
        template_for(CODEX, shipped("codex"), &configured("codex", config)),
        Err(EngineError::NoBinary {
            engine: "codex".to_owned()
        })
    );
}

#[test]
fn engines_the_mock_is_a_choice_not_a_fallback() {
    let engine = for_kind(EngineKind::mock(), shipped("mock"), &vec![]).expect("built");

    assert_eq!(engine.id(), EngineKind::mock());
    assert!(is_mock(EngineKind::mock()));
    assert!(!is_mock(CODEX));
}

#[test]
fn engines_an_unrelated_engines_table_does_not_affect_this_one() {
    let next = || table(vec![("bin", text("codex-next"))]);
    assert_eq!(
        template_for(EngineKind { name: "other" }, shipped("other"), &configured("codex", next()))
            .expect("built")
            .bin,
        "other"
    );

    let both = vec![
        ("other".to_owned(), Some(table(vec![("bin", ConfigValue::Flag(true))]))),
        ("codex".to_owned(), Some(next())),
    ];
    assert_eq!(template_for(CODEX, shipped("codex"), &both).expect("built").bin, "codex-next");
    assert!(for_kind(EngineKind { name: "other" }, shipped("other"), &both).is_err());
}

#[test]
fn engines_what_is_no_table_sets_nothing() {
    let odd = vec![("codex".to_owned(), None)];
    assert_eq!(template_for(CODEX, shipped("codex"), &odd), Ok(shipped("codex")));
}

#[test]
fn engines_every_key_has_its_shape() {
    let refused = |entries| template_for(CODEX, shipped("codex"), &configured("codex", table(entries))).expect_err("refused");

    assert!(refused(vec![("bin", ConfigValue::Flag(true))]).describe().contains("`bin` as boolean"));
    assert!(refused(vec![("stdin_prompt", text("yes"))]).describe().contains("true or false"));
    assert!(refused(vec![("pass_env", ConfigValue::List(vec![ConfigItem::Other("integer".to_owned())]))])
        .describe()
        .contains("`pass_env` as integer"));
    assert!(refused(vec![("bin", text("  "))]).describe().contains("nothing to run"));
    assert!(refused(vec![("bin", text("x")), ("binary", ConfigValue::Other("float".to_owned()))])
        .describe()
        .contains("`binary` as float"));
}
