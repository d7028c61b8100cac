//! The settings screen.

use revlocal_daemon::budgets::BudgetSettings;
use revlocal_daemon::doctor::DoctorReport;
use revlocal_daemon::settings_view::{
    answering, client_for, collect_specs, gather, mapped_counts, override_client, override_target, override_tools,
    server_panel, state_after, target_panel, target_panels, unknown_target_panel, Binding, ClientPlan, Contact,
    Heard, Limits, SecretRef, ServerSettings, ServerState, SettingsError, SettingsView, TargetMapping, TargetPanel,
    TargetSpec, Unmapped, UnmappedRow, DEFAULT_RETENTION_DAYS,
};

fn http_server(secret: SecretRef) -> ServerSettings {
    ServerSettings {
        transport: "http".to_owned(),
        command: None,
        args: Vec::new(),
        url: Some("https://andare.example/mcp".to_owned()),
        headers: vec![("Authorization".to_owned(), secret)],
    }
}

#[test]
fn settings_a_literal_secret_never_reaches_the_screen() {
    let settings = http_server(SecretRef::Literal("hunter2-the-real-token".to_owned()));

    let panel = server_panel(
        "andare",
        &settings,
        &ServerState::Reachable { tools: 3 },
        "andare: 3 tools, 2 mapped, 1 unmapped",
        &vec!["create_issue".to_owned()],
    );

    let shown = format!("{panel:?}");
    assert!(
        !shown.contains("hunter2"),
        "the secret crossed the boundary: {shown}"
    );
    assert_eq!(panel.secrets.len(), 1);
    assert_eq!(panel.secrets[0].source, "literal");
    assert!(panel.secrets[0].advice.is_some());
}

#[test]
fn settings_a_keychain_reference_shows_its_name() {
    let settings = http_server(SecretRef::Keychain { name: "andare-token".to_owned() });

    let panel = server_panel(
        "andare",
        &settings,
        &ServerState::Reachable { tools: 3 },
        "andare: 3 tools, 2 mapped, 1 unmapped",
        &vec![],
    );

    assert_eq!(panel.secrets[0].source, "keychain");
    assert_eq!(
        panel.secrets[0].keychain_entry.as_deref(),
        Some("andare-token")
    );
    assert!(panel.secrets[0].advice.is_none());
}

#[test]
fn settings_an_unreachable_server_says_why_rather_than_zero_tools() {
    let panel = server_panel(
        "andare",
        &http_server(SecretRef::Keychain { name: "t".to_owned() }),
        &ServerState::Unreachable {
            reason: "connection refused".to_owned(),
            retryable: Some(true),
        },
        "andare: unreachable",
        &vec![],
    );

    assert!(panel.contacted);
    assert_eq!(panel.error.as_deref(), Some("connection refused"));
    assert!(panel.summary.contains("unreachable"));
    assert!(!panel.summary.contains("0 tools"));
}

#[test]
fn settings_a_server_never_contacted_is_not_reported_as_unmapped() {
    let panel = unknown_target_panel("andare", "andare");

    assert!(!panel.server_contacted);
    assert!(!panel.has_unmapped());
    assert_eq!(panel.unmapped.len(), 0);
}

fn unmapped() -> Unmapped {
    Unmapped {
        capability: "comment".to_owned(),
        candidates: vec!["comment_on_issue".to_owned(), "add_comment".to_owned()],
        available: vec!["create_work_item".to_owned(), "transition_issue".to_owned()],
        explanation: "no tool for comment".to_owned(),
    }
}

#[test]
fn settings_an_unmapped_capability_carries_what_a_fix_needs() {
    let mapping = TargetMapping {
        target: "andare".to_owned(),
        server: "andare".to_owned(),
        bound: Vec::new(),
        unmapped: vec![unmapped()],
    };

    let panel = target_panel(&mapping, true);

    assert!(panel.has_unmapped());
    let row = &panel.unmapped[0];
    assert_eq!(row.candidates.len(), 2);
    assert_eq!(row.available.len(), 2);
    assert!(row.explanation.contains("comment"));
}

fn binding(capability: &str, tool: &str, from_override: bool) -> Binding {
    Binding { capability: capability.to_owned(), tool: tool.to_owned(), from_override }
}

#[test]
fn settings_a_manual_binding_is_distinguishable_from_a_resolved_one() {
    let mapping = TargetMapping {
        target: "andare".to_owned(),
        server: "andare".to_owned(),
        bound: vec![
            binding("create_issue", "create_work_item", false),
            binding("comment", "leave_note", true),
        ],
        unmapped: Vec::new(),
    };

    let panel = target_panel(&mapping, true);

    assert!(!panel.bound[0].from_override);
    assert!(panel.bound[1].from_override);
}

fn stdio() -> ServerSettings {
    ServerSettings {
        transport: "stdio".to_owned(),
        command: Some("node".to_owned()),
        args: vec!["server.js".to_owned(), "--profile".to_owned()],
        url: None,
        headers: Vec::new(),
    }
}

#[test]
fn settings_a_stdio_server_shows_the_command_it_runs() {
    let panel = server_panel(
        "mock",
        &stdio(),
        &ServerState::Reachable { tools: 1 },
        "mock: 1 tool, 1 mapped, 0 unmapped",
        &vec!["ping".to_owned()],
    );

    assert_eq!(panel.endpoint, "node server.js --profile");
    assert!(panel.secrets.is_empty());
}

fn limits() -> Limits {
    Limits::of(&BudgetSettings::default(), 0, DEFAULT_RETENTION_DAYS)
}

#[test]
fn settings_the_unmapped_count_is_across_every_target() {
    let view = SettingsView {
        doctor: DoctorReport::default(),
        servers: Vec::new(),
        targets: vec![
            TargetPanel {
                target: "andare".to_owned(),
                server: "andare".to_owned(),
                bound: Vec::new(),
                unmapped: vec![UnmappedRow {
                    capability: "comment".to_owned(),
                    candidates: Vec::new(),
                    available: Vec::new(),
                    explanation: String::new(),
                }],
                server_contacted: true,
            },
            unknown_target_panel("trama", "trama"),
        ],
        limits: limits(),
        config_path: "/tmp/config.toml".to_owned(),
        overrides_path: "/tmp/target-overrides.json".to_owned(),
        target_errors: Vec::new(),
    };

    assert_eq!(view.unmapped_count(), 1);
}

#[test]
fn settings_limits_come_from_the_config_document() {
    let limits = limits();

    assert_eq!(limits.daily_runs_per_repo, 200);
    assert_eq!(limits.daily_tokens_per_repo, 2_000_000);
    assert_eq!(limits.transcript_retention_days, 30);
    assert_eq!(limits.on_exhausted, "pause");
}

fn spec(id: &str, server: &str) -> TargetSpec {
    TargetSpec { id: id.to_owned(), mcp_server: server.to_owned() }
}

#[test]
fn settings_a_target_that_cannot_be_read_is_told() {
    let (specs, errors) = collect_specs(
        &vec![Ok(spec("trama", "t")), Err("[targets.x] is broken".to_owned())],
        Some(spec("andare", "a")),
    );
    assert_eq!(specs, [spec("trama", "t"), spec("andare", "a")]);
    assert_eq!(errors, ["[targets.x] is broken"]);

    let (own, _) = collect_specs(&vec![Ok(spec("andare", "mine"))], Some(spec("andare", "a")));
    assert_eq!(own, [spec("andare", "mine")]);
}

#[test]
fn settings_counts_are_those_of_a_server_s_own_targets() {
    let mapping = TargetMapping {
        target: "andare".to_owned(),
        server: "a".to_owned(),
        bound: vec![binding("create_issue", "x", false)],
        unmapped: vec![unmapped()],
    };
    let specs = vec![spec("andare", "a"), spec("trama", "t"), spec("other", "a")];
    let mappings = vec![Some(mapping.clone()), None, Some(mapping)];

    assert_eq!(mapped_counts("a", &specs, &mappings), (2, 2));
    assert_eq!(mapped_counts("t", &specs, &mappings), (0, 0));
    let panels = target_panels(&specs, &mappings);
    assert!(panels[0].server_contacted);
    assert!(!panels[1].server_contacted);
    assert_eq!(panels[1].target, "trama");
    let heard = vec![
        Heard {
            id: "a".to_owned(),
            settings: stdio(),
            contact: Contact::Tools(vec!["x".to_owned()]),
            summary: "a: 1 tool".to_owned(),
        },
        Heard {
            id: "t".to_owned(),
            settings: stdio(),
            contact: Contact::Failed { reason: "refused".to_owned(), retryable: None },
            summary: "t: unreachable".to_owned(),
        },
    ];
    let view =
        gather(DoctorReport::default(), &heard, &specs, &mappings, limits(), "c", "o", vec!["bad".to_owned()]);
    assert_eq!(view.targets, panels);
    assert_eq!(view.servers[0].tools, ["x"]);
    assert_eq!((view.servers[0].contacted, view.servers[0].error.as_deref()), (true, None));
    assert_eq!(view.servers[1].error.as_deref(), Some("refused"));
    assert_eq!(view.servers[1].summary, "t: unreachable");
    assert_eq!(view.target_errors, ["bad"]);
    assert_eq!(view.unmapped_count(), 2);
    assert_eq!(view.config_path, "c");
}

#[test]
fn settings_a_target_resolves_against_a_server_that_answered() {
    let asked = vec![
        ("a".to_owned(), Contact::Tools(Vec::new())),
        ("t".to_owned(), Contact::Absent),
    ];
    assert_eq!(answering(&asked, &spec("andare", "a")), Some(0));
    assert_eq!(answering(&asked, &spec("trama", "t")), None);
    assert_eq!(answering(&asked, &spec("other", "o")), None);
}

#[test]
fn settings_a_server_that_cannot_be_reached_is_reported() {
    assert_eq!(
        client_for("mock", &stdio()),
        Ok(ClientPlan::Stdio {
            command: "node".to_owned(),
            args: vec!["server.js".to_owned(), "--profile".to_owned()],
        })
    );
    let no_command = ServerSettings { command: None, ..stdio() };
    assert_eq!(
        client_for("mock", &no_command),
        Err("server `mock` is stdio and has no `command`".to_owned())
    );
    let no_url = ServerSettings { transport: "http".to_owned(), ..stdio() };
    assert_eq!(client_for("m", &no_url), Err("server `m` is http and has no `url`".to_owned()));
    let odd = ServerSettings { transport: "carrier".to_owned(), ..stdio() };
    assert_eq!(
        client_for("m", &odd),
        Err("server `m` has transport `carrier`; §13.1 knows `stdio` and `http`".to_owned())
    );
    assert_eq!(
        state_after(&Contact::NotPlanned { detail: "odd".to_owned() }),
        ServerState::Unreachable { reason: "odd".to_owned(), retryable: Some(false) }
    );
    assert_eq!(state_after(&Contact::Tools(vec!["a".to_owned()])), ServerState::Reachable { tools: 1 });
    assert_eq!(state_after(&Contact::Absent), ServerState::Unknown);
}

#[test]
fn settings_an_override_is_refused_where_it_is_made() {
    assert_eq!(
        override_target("x", &None, &None).expect_err("unknown").describe(),
        "no target `x` is configured"
    );
    assert_eq!(
        override_target("x", &Some(Err("broken".to_owned())), &None),
        Err(SettingsError::Spec { detail: "broken".to_owned() })
    );
    assert_eq!(override_target("x", &None, &Some(spec("x", "s"))), Ok(spec("x", "s")));
    assert_eq!(
        override_client("s", &None).expect_err("unknown").describe(),
        "no MCP server `s` is configured"
    );
    assert!(override_client("s", &Some(stdio())).is_ok());
    let failed = Contact::Failed { reason: "refused".to_owned(), retryable: None };
    assert_eq!(
        override_tools("s", failed),
        Err(SettingsError::Override { detail: "refused".to_owned() })
    );
}
