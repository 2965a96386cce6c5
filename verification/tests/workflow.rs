use symphony::config::{
    build_effective_config, expand_workspace_root, home_dir, parse_hook_timeout, parse_i64,
    parse_string_list, parse_u32, parse_u64, parse_usize, resolve_env_token,
    validate_dispatch_config, Environment, IntLike, RawAgent, RawCodex, RawHooks, RawPolling,
    RawServer, RawTracker, RawWorkflowConfig, RawWorkspace, StringOrVec, DEFAULT_HOOK_TIMEOUT_MS,
};
use symphony::error::SymphonyError;
use symphony::json::Json;
use symphony::string_map::StringMap;
use symphony::time::Timestamp;
use symphony::types::{BlockerRef, EffectiveConfig, Issue, WorkflowDefinition};
use symphony::workflow::{
    build_workflow_runtime, continue_issue, is_compilable, interpret_front_matter,
    is_relevant_change, issue_to_json, json_to_liquid, parse_workflow_definition, prompt_globals,
    rendered_prompt, split_workflow, FrontMatter, LiquidValue, PromptRenderer, YamlKind,
    load_workflow_definition, load_workflow_runtime,
};

fn environment(variables: &[(&str, &str)]) -> Environment {
    let mut map = StringMap::new();
    for (name, value) in variables {
        map.insert(name.to_string(), value.to_string());
    }
    Environment { variables: map, temp_dir: "/tmp".to_string() }
}

fn raw() -> RawWorkflowConfig {
    RawWorkflowConfig {
        tracker: None,
        polling: None,
        workspace: None,
        hooks: None,
        agent: None,
        codex: None,
        server: None,
    }
}

fn raw_tracker(project_slug: &str) -> RawTracker {
    RawTracker {
        kind: Some("linear".into()),
        endpoint: None,
        api_key: None,
        project_slug: Some(project_slug.into()),
        active_states: None,
        terminal_states: None,
    }
}

#[test]
fn parses_workflow_without_front_matter() {
    let definition = parse_workflow_definition("hello").unwrap();
    assert!(definition.config.is_empty());
    assert_eq!(definition.prompt_template, "hello");
}

#[test]
fn parses_front_matter_into_object() {
    let definition =
        parse_workflow_definition("---\ntracker:\n  kind: linear\n---\nhello").unwrap();
    assert_eq!(
        definition.config.get("tracker").and_then(|value| value.get("kind")).and_then(Json::as_str),
        Some("linear")
    );
    assert_eq!(definition.prompt_template, "hello");
}

#[test]
fn rejects_non_object_front_matter() {
    let error = parse_workflow_definition("---\n- nope\n---\nhello").unwrap_err();
    assert!(matches!(error, SymphonyError::WorkflowFrontMatterNotAMap));
}

#[test]
fn tells_what_is_wrong_with_a_workflow_file() {
    assert_eq!(
        parse_workflow_definition("---\na: 1\n").unwrap_err(),
        SymphonyError::WorkflowParseError("missing closing front matter delimiter".into())
    );
    assert!(matches!(
        parse_workflow_definition("---\na: [\n---\nx").unwrap_err(),
        SymphonyError::Yaml(_)
    ));
    assert!(matches!(
        parse_workflow_definition("---\n? [1]\n: 2\n---\nx").unwrap_err(),
        SymphonyError::Json(_)
    ));
    let windows = parse_workflow_definition("---\r\na: 1\r\n---\r\n  hi\r\nyou  \r\n").unwrap();
    assert_eq!(windows.prompt_template, "hi\nyou");
    assert_eq!(windows.config.get("a"), Some(&Json::PosInt(1)));
}

#[test]
fn refuses_front_matter_of_every_other_kind() {
    for yaml in ["~", "true", "1.5", "text", "- 1", "!tag {a: 1}"] {
        assert_eq!(
            parse_workflow_definition(&format!("---\n{}\n---\nx", yaml)).unwrap_err(),
            SymphonyError::WorkflowFrontMatterNotAMap,
            "{}",
            yaml
        );
    }
    let nested = parse_workflow_definition("---\nb: {c: [1, x]}\n2: ~\n---\n").unwrap();
    assert_eq!(nested.config.get("b").unwrap().to_text(), r#"{"c":[1,"x"]}"#);
    assert_eq!(nested.config.get("2"), Some(&Json::Null));
}

#[test]
fn splits_workflow_files_at_the_first_closing_delimiter() {
    assert_eq!(
        split_workflow("---\na\n---\nb\n---\nc"),
        Ok((Some("a".to_string()), "b\n---\nc".to_string()))
    );
    assert_eq!(split_workflow("--- \nx"), Ok((None, "--- \nx".to_string())));
    assert!(matches!(
        interpret_front_matter(FrontMatter::Invalid("bad".into())),
        Err(SymphonyError::Yaml(text)) if text == "bad"
    ));
    assert!(matches!(
        interpret_front_matter(FrontMatter::Mapping(Err("bad".into()))),
        Err(SymphonyError::Json(text)) if text == "bad"
    ));
    for kind in [YamlKind::Null, YamlKind::Sequence, YamlKind::Tagged] {
        assert!(matches!(
            interpret_front_matter(FrontMatter::Other(kind)),
            Err(SymphonyError::WorkflowFrontMatterNotAMap)
        ));
    }
    assert!(matches!(
        interpret_front_matter(FrontMatter::Mapping(Ok(Json::Bool(true)))),
        Err(SymphonyError::WorkflowFrontMatterNotAMap)
    ));
    let object = Json::Object(vec![("k".into(), Json::Null)]);
    let map = interpret_front_matter(FrontMatter::Mapping(Ok(object))).unwrap();
    assert_eq!(map.get("k"), Some(&Json::Null));
}

#[test]
fn expands_env_tokens_and_defaults() {
    let definition = parse_workflow_definition(
        "---\ntracker:\n  kind: linear\n  project_slug: proj\nworkspace:\n  root: tmp/work\n---\nhello",
    )
    .unwrap();
    let asked = RawWorkflowConfig {
        tracker: Some(raw_tracker("proj")),
        workspace: Some(RawWorkspace { root: Some("tmp/work".into()) }),
        ..raw()
    };
    let env = environment(&[("LINEAR_API_KEY", "test-key")]);
    let config = build_effective_config("WORKFLOW.md", &definition, asked, &env).unwrap();
    assert_eq!(config.tracker.api_key, "test-key");
    assert_eq!(config.workspace.root, "tmp/work");
}

#[test]
fn template_render_fails_for_unknown_variable() {
    let renderer = PromptRenderer::compile("{{ issue.unknown_field }}").unwrap();
    let issue = Issue {
        id: "1".into(),
        identifier: "ABC-1".into(),
        title: "Example".into(),
        ..Issue::default()
    };
    let error = renderer.render_issue_prompt(&issue, None).unwrap_err();
    assert!(matches!(error, SymphonyError::TemplateRenderError(_)));
}

#[test]
fn validates_dispatch_config_and_rejects_missing_fields() {
    let definition = parse_workflow_definition(
        "---\ntracker:\n  kind: linear\n  project_slug: proj\ncodex:\n  command: codex app-server\n---\nhello",
    )
    .unwrap();
    let env = environment(&[("LINEAR_API_KEY", "test-key")]);
    let asked = RawWorkflowConfig { tracker: Some(raw_tracker("proj")), ..raw() };
    let config = build_effective_config("WORKFLOW.md", &definition, asked, &env).unwrap();
    validate_dispatch_config(&config).expect("config should validate");

    let mut missing_api_key = config.clone();
    missing_api_key.tracker.api_key.clear();
    assert!(matches!(
        validate_dispatch_config(&missing_api_key),
        Err(SymphonyError::MissingTrackerApiKey)
    ));

    let mut missing_project = config.clone();
    missing_project.tracker.project_slug.clear();
    assert!(matches!(
        validate_dispatch_config(&missing_project),
        Err(SymphonyError::MissingTrackerProjectSlug)
    ));

    let mut blank_kind = config.clone();
    blank_kind.tracker.kind = " ".into();
    assert_eq!(
        validate_dispatch_config(&blank_kind),
        Err(SymphonyError::UnsupportedTrackerKind(String::new()))
    );
    let mut other_kind = config.clone();
    other_kind.tracker.kind = "jira".into();
    assert_eq!(
        validate_dispatch_config(&other_kind),
        Err(SymphonyError::UnsupportedTrackerKind("jira".into()))
    );
    let mut no_command = config.clone();
    no_command.codex.command = "\t".into();
    assert_eq!(
        validate_dispatch_config(&no_command),
        Err(SymphonyError::InvalidConfig("codex.command must be present and non-empty".into()))
    );
}

#[test]
fn build_effective_config_applies_defaults_and_normalizes_limits() {
    let env = environment(&[
        ("WORKSPACE_ROOT", "/tmp/symphony-tests"),
        ("LINEAR_API_KEY", "test-key"),
    ]);
    let definition = parse_workflow_definition(
        "---\ntracker:\n  kind: linear\n  project_slug: proj\nworkspace:\n  root: $WORKSPACE_ROOT\nhooks:\n  timeout_ms: 0\nagent:\n  max_concurrent_agents_by_state:\n    Todo: 3\n    Bad: 0\n---\nhello",
    )
    .unwrap();
    let mut limits = StringMap::new();
    limits.insert("Bad".to_string(), IntLike::Integer(0));
    limits.insert("Todo".to_string(), IntLike::Integer(3));
    let asked = RawWorkflowConfig {
        tracker: Some(raw_tracker("proj")),
        workspace: Some(RawWorkspace { root: Some("$WORKSPACE_ROOT".into()) }),
        hooks: Some(RawHooks {
            after_create: None,
            before_run: None,
            after_run: None,
            before_remove: None,
            timeout_ms: Some(IntLike::Integer(0)),
        }),
        agent: Some(RawAgent {
            max_concurrent_agents: None,
            max_turns: None,
            max_retry_backoff_ms: None,
            max_concurrent_agents_by_state: Some(limits),
        }),
        ..raw()
    };
    let config = build_effective_config("WORKFLOW.md", &definition, asked, &env).unwrap();

    assert_eq!(config.workspace.root, "/tmp/symphony-tests");
    assert_eq!(config.hooks.timeout_ms, DEFAULT_HOOK_TIMEOUT_MS);
    assert_eq!(config.agent.max_concurrent_agents_by_state.get("todo"), Some(&3));
    assert!(!config.agent.max_concurrent_agents_by_state.contains_key("bad"));
    assert_eq!(config.codex.command, "codex app-server");
}

#[test]
fn fills_in_every_default() {
    let definition = parse_workflow_definition("hello").unwrap();
    let config = build_effective_config("W.md", &definition, raw(), &environment(&[])).unwrap();
    assert_eq!(config.workflow_path, "W.md");
    assert_eq!(config.prompt_template, "hello");
    assert_eq!(config.tracker.kind, "linear");
    assert_eq!(config.tracker.endpoint, "https://api.linear.app/graphql");
    assert_eq!(config.tracker.api_key, "");
    assert_eq!(config.tracker.project_slug, "");
    assert_eq!(config.tracker.active_states, vec!["Todo", "In Progress"]);
    assert_eq!(
        config.tracker.terminal_states,
        vec!["Closed", "Cancelled", "Canceled", "Duplicate", "Done"]
    );
    assert_eq!(config.polling.interval_ms, 30_000);
    assert_eq!(config.workspace.root, "/tmp/symphony_workspaces");
    assert_eq!(config.hooks.timeout_ms, 60_000);
    assert_eq!(config.agent.max_concurrent_agents, 10);
    assert_eq!(config.agent.max_turns, 20);
    assert_eq!(config.agent.max_retry_backoff_ms, 300_000);
    assert_eq!(config.codex.approval_policy, Json::String("never".into()));
    assert_eq!(config.codex.thread_sandbox, Json::String("danger-full-access".into()));
    assert_eq!(config.codex.turn_sandbox_policy.to_text(), r#"{"type":"dangerFullAccess"}"#);
    assert_eq!(config.codex.turn_timeout_ms, 3_600_000);
    assert_eq!(config.codex.read_timeout_ms, 5_000);
    assert_eq!(config.codex.stall_timeout_ms, 300_000);
    assert_eq!(config.server.port, None);
}

#[test]
fn takes_over_what_is_asked_for() {
    let definition = parse_workflow_definition("hello").unwrap();
    let asked = RawWorkflowConfig {
        polling: Some(RawPolling { interval_ms: Some(IntLike::String("1500".into())) }),
        codex: Some(RawCodex {
            command: Some("my codex".into()),
            approval_policy: Some(Json::Null),
            thread_sandbox: None,
            turn_sandbox_policy: None,
            turn_timeout_ms: Some(IntLike::Integer(-1)),
            read_timeout_ms: Some(IntLike::Integer(7)),
            stall_timeout_ms: Some(IntLike::Integer(-5)),
        }),
        server: Some(RawServer { port: Some(3000) }),
        ..raw()
    };
    let config = build_effective_config("W.md", &definition, asked, &environment(&[])).unwrap();
    assert_eq!(config.polling.interval_ms, 1500);
    assert_eq!(config.codex.command, "my codex");
    assert_eq!(config.codex.approval_policy, Json::Null);
    assert_eq!(config.codex.turn_timeout_ms, 3_600_000);
    assert_eq!(config.codex.read_timeout_ms, 7);
    assert_eq!(config.codex.stall_timeout_ms, -5);
    assert_eq!(config.server.port, Some(3000));
}

#[test]
fn expands_home_and_parses_string_lists() {
    let env = environment(&[("HOME", "/tmp/home")]);
    assert_eq!(
        expand_workspace_root(Some(String::from("~/workspace")), &env).unwrap(),
        "/tmp/home/workspace"
    );
    assert_eq!(
        parse_string_list(
            Some(StringOrVec::One(String::from("Todo, In Progress , Done"))),
            Vec::new()
        ),
        vec!["Todo", "In Progress", "Done"]
    );
}

#[test]
fn places_workspaces_by_environment() {
    let env = environment(&[("HOME", "/h"), ("R", "~"), ("BLANK", " ")]);
    assert_eq!(expand_workspace_root(Some("~".into()), &env), Ok("/h".to_string()));
    assert_eq!(expand_workspace_root(Some("$R".into()), &env), Ok("/h".to_string()));
    assert_eq!(expand_workspace_root(Some("~//abs".into()), &env), Ok("/abs".to_string()));
    assert_eq!(expand_workspace_root(Some("~me".into()), &env), Ok("~me".to_string()));
    let fallback = Ok("/tmp/symphony_workspaces".to_string());
    assert_eq!(expand_workspace_root(Some("$BLANK".into()), &env), fallback);
    assert_eq!(expand_workspace_root(None, &env), fallback);
    let homeless = Err(SymphonyError::InvalidConfig("HOME is not set".into()));
    assert_eq!(expand_workspace_root(Some("~/x".into()), &environment(&[])), homeless);
    assert_eq!(home_dir(&environment(&[])), homeless);
    assert_eq!(resolve_env_token(Some("plain".into()), &env), Some("plain".to_string()));
    assert_eq!(resolve_env_token(Some("$MISSING".into()), &env), None);
    assert_eq!(resolve_env_token(None, &env), None);
}

#[test]
fn reads_integers() {
    let text = |value: &str| Some(IntLike::String(value.into()));
    assert_eq!(parse_i64(&text("+12"), 7), 12);
    assert_eq!(parse_i64(&text("12 "), 7), 7);
    assert_eq!(parse_i64(&text("9223372036854775808"), 7), 7);
    assert_eq!(parse_i64(&text("-9223372036854775808"), 7), i64::MIN);
    assert_eq!(parse_i64(&text("-"), 7), 7);
    assert_eq!(parse_i64(&None, 7), 7);
    assert_eq!(parse_u64(&Some(IntLike::Integer(-1)), 7), 7);
    assert_eq!(parse_u64(&Some(IntLike::Integer(0)), 7), 0);
    assert_eq!(parse_u32(&Some(IntLike::Integer(4_294_967_297)), 7), 1);
    assert_eq!(parse_u32(&Some(IntLike::Integer(-2)), 7), 7);
    assert_eq!(parse_usize(&Some(IntLike::Integer(0)), 7), 7);
    assert_eq!(parse_usize(&Some(IntLike::Integer(2)), 7), 2);
    assert_eq!(parse_hook_timeout(&Some(IntLike::Integer(-3))), 60_000);
    assert_eq!(parse_hook_timeout(&Some(IntLike::Integer(5))), 5);
    assert_eq!(
        parse_string_list(Some(StringOrVec::Many(vec![" a ".into()])), Vec::new()),
        vec![" a "]
    );
    assert_eq!(parse_string_list(None, vec!["d".into()]), vec!["d"]);
}

#[test]
fn later_limits_win_over_earlier_ones() {
    let mut limits = StringMap::new();
    limits.insert("TODO".to_string(), IntLike::Integer(3));
    limits.insert(" todo ".to_string(), IntLike::String("5".into()));
    limits.insert("Done".to_string(), IntLike::String("many".into()));
    let asked = RawWorkflowConfig {
        agent: Some(RawAgent {
            max_concurrent_agents: Some(IntLike::Integer(4)),
            max_turns: Some(IntLike::Integer(3)),
            max_retry_backoff_ms: Some(IntLike::Integer(9)),
            max_concurrent_agents_by_state: Some(limits),
        }),
        ..raw()
    };
    let definition = parse_workflow_definition("x").unwrap();
    let config = build_effective_config("W.md", &definition, asked, &environment(&[])).unwrap();
    assert_eq!(config.agent.max_concurrent_agents, 4);
    assert_eq!(config.agent.max_turns, 3);
    assert_eq!(config.agent.max_retry_backoff_ms, 9);
    assert_eq!(config.agent.max_concurrent_agents_by_state.get("todo"), Some(&5));
    assert_eq!(config.agent.max_concurrent_agents_by_state.len(), 1);
}

#[test]
fn states_are_compared_without_case() {
    assert_eq!(EffectiveConfig::normalize_state("  In ProgRESS\n"), "in progress");
    assert_eq!(EffectiveConfig::normalize_state("ÄRGER"), "ärger");
    let definition = parse_workflow_definition("x").unwrap();
    let config = build_effective_config("W.md", &definition, raw(), &environment(&[])).unwrap();
    assert!(config.is_active_state(" TODO"));
    assert!(!config.is_active_state("Done"));
    assert!(config.is_terminal_state("cancelled "));
    assert!(!config.is_terminal_state("Todo"));
}

#[test]
fn renders_prompt_and_converts_json_to_liquid_values() {
    let renderer = PromptRenderer::compile(
        "{{ issue.identifier }} {{ issue.labels[0] }} {{ attempt | default: 0 }}",
    )
    .unwrap();
    let issue = Issue {
        id: "1".into(),
        identifier: "ABC-1".into(),
        title: "Example".into(),
        labels: vec![String::from("bug")],
        ..Issue::default()
    };
    let prompt = renderer.render_issue_prompt(&issue, Some(2)).expect("prompt should render");
    assert_eq!(prompt, "ABC-1 bug 2");

    let liquid = json_to_liquid(&Json::parse(r#"{"nested": ["one", 2, true]}"#).unwrap())
        .expect("nested json should convert");
    assert!(matches!(liquid, LiquidValue::Object(_)));
    assert_eq!(
        liquid,
        LiquidValue::Object(vec![(
            "nested".to_string(),
            LiquidValue::Array(vec![
                LiquidValue::Str("one".into()),
                LiquidValue::Integer(2),
                LiquidValue::Bool(true)
            ])
        )])
    );
}

#[test]
fn converts_every_kind_of_json() {
    let value = Json::parse("[null, -1, 9223372036854775807, 9223372036854775808, 0.5]").unwrap();
    let LiquidValue::Array(items) = json_to_liquid(&value).unwrap() else { panic!() };
    assert_eq!(items[0], LiquidValue::Nil);
    assert_eq!(items[1], LiquidValue::Integer(-1));
    assert_eq!(items[2], LiquidValue::Integer(i64::MAX));
    assert_eq!(items[3], LiquidValue::Large(9_223_372_036_854_775_808));
    assert!(matches!(items[4], LiquidValue::Float(_)));
}

#[test]
fn compiles_templates() {
    let issue = Issue { identifier: "A".into(), ..Issue::default() };
    let blank = PromptRenderer::compile(" \n").unwrap();
    assert_eq!(
        blank.render_issue_prompt(&issue, None).unwrap(),
        "You are working on an issue from Linear."
    );
    let padded = PromptRenderer::compile("  {{ issue.identifier }}{{ attempt }}!  ").unwrap();
    assert_eq!(padded.render_issue_prompt(&issue, None).unwrap(), "A!");
    assert!(matches!(
        PromptRenderer::compile("{{ issue.identifier | nonsense }}"),
        Err(SymphonyError::TemplateParseError(_))
    ));
    assert!(matches!(
        PromptRenderer::compile("{% if %}"),
        Err(SymphonyError::TemplateParseError(_))
    ));
    assert_eq!(
        rendered_prompt(Err("why".into())),
        Err(SymphonyError::TemplateRenderError("why".into()))
    );
    assert_eq!(rendered_prompt(Ok("text".into())), Ok("text".to_string()));
}

#[test]
fn puts_values_in_the_place_of_plain_tags() {
    let issue = Issue {
        identifier: "ABC-1".into(),
        title: "{{ attempt }}".into(),
        priority: Some(-12),
        url: None,
        labels: vec!["one".into(), "two".into()],
        ..Issue::default()
    };
    for (template, expected) in [
        ("no tags, { one } brace }}", "no tags, { one } brace }}"),
        ("{{issue.identifier}}:{{ \n issue.priority\r\n }}.", "ABC-1:-12."),
        ("[{{ issue.url }}] {{ issue.title }}", "[] {{ attempt }}"),
        ("{{ attempt }}/{{ attempt }}", "4294967295/4294967295"),
        ("a\n  {{ issue.identifier }}\n  b}", "a\n  ABC-1\n  b}"),
        ("a \n{{- issue.identifier -}} \n b", "aABC-1b"),
        ("{{ issue.labels[1] }}{{issue.labels[ 0 ]}}", "twoone"),
        ("{{ issue.url | default: \"}} none\" }}", "}} none"),
        ("{{ issue.url | default: -7 }}{{ attempt|default:0 }}", "-74294967295"),
        ("{{ issue.state | default: 'none' }}{{ issue.identifier | default: 'none' }}", "noneABC-1"),
    ] {
        let renderer = PromptRenderer::compile(template).unwrap();
        let prompt = renderer.render_issue_prompt(&issue, Some(u32::MAX)).unwrap();
        assert_eq!(prompt, expected);
    }
}

#[test]
fn fails_at_a_tag_that_names_nothing() {
    let issue = Issue::default();
    for template in [
        "{{ issue.first }}",
        "{{ issue.labels[0] }}",
        "{{ issue.nothing | default: 1 }}",
        "text {{ attempt }} {{ issues }}",
        "{{ attempts.identifier }} {{ attempt | default: 0 }}",
    ] {
        let renderer = PromptRenderer::compile(template).unwrap();
        assert!(matches!(
            renderer.render_issue_prompt(&issue, None),
            Err(SymphonyError::TemplateRenderError(_))
        ));
    }
}

#[test]
fn notices_templates_that_cannot_be_tried() {
    assert!(is_compilable("99999999999999999999 and no tag"));
    assert!(is_compilable("{{ 9223372036854775807 }}"));
    assert!(!is_compilable("{{ 9223372036854775808 }}"));
    assert!(!is_compilable("{% if 99999999999999999999 %}{% endif %}"));
    assert!(is_compilable(""));
    for fine in [
        "{{ issue.identifier }} 99999999999999999999",
        "{{ 'it 99999999999999999999' | append: \"99999999999999999999\" }}",
        "{{ 99999999999999999999.5 }}{{ 0.99999999999999999999 }}",
        "{{ -9223372036854775808 }}",
        "{{ field99999999999999999999 }}",
        "\u{2014}\u{2014}\u{2014}{{ issue.labels | join: \", \" }}{{ issue.url }}, it's \"good\"",
        "{{ \"{{\" }}",
        "{% comment %} a {% endcomment %}{% if issue %}{{ 'x' }}{% endif %}",
        "{% raw %}{{ x }}{% endraw %}",
        "{% raw %}{{ 99999999999999999999 }} {{ bad\" }}{% endraw %}",
        "{% comment %}{% if a %}x{% endif %}{% endcomment %}",
        "{% comment %}{% if a %}{% comment %}{{ bad }{% endcomment %}{% endif %}{% endcomment %}",
        "{% comment %}{% raw %}{% if {% endraw %}{{ 99999999999999999999 }}{% endcomment %}",
        "{% comment %}{% for x in y %}{{ x.z }}{% unless a[0] %}{% endunless %}{% endfor %}{% bogus %}{% endcomment %}",
        "{% comment %}{% assign x = y | bogus %}{% endif %}{% raw x %}{% endcomment %}",
        "{%- comment -%} 'a' {% endcomment %}{% for x in y %}",
        "{{ x | default: \"}}\" }}",
        "{{ x | default: \"}}\" }} and {{ y }} \"quoted\"",
        "{{ a[b[c['d']].e].f | append: '[[[[' }}",
        "{% if a == 'x' and b != nil or c contains \"y\" %}{% elsif d %}{% else %}{% endif %}",
        "{% for i in (1..3) reversed %}{{ forloop.index }}{% endfor %}",
        "{% assign x = issue.title | upcase %}{{- x -}} \n {%- if x -%} {%- endif -%}",
        "{{{ a }}}",
        "{{ a",
        "{% if %}",
        "Work on `{{ issue.identifier }}`, titled `{{ issue.title }}`.\n\n- Don't guess.\n- Keep the comments \
         \"concise\".\n{% if attempt %}This is attempt {{ attempt }}, it's a retry.{% endif %}\n\
         {{ issue.labels | join: ', ' }}{{ issue.description | default: \"none\" }}",
    ] {
        assert!(is_compilable(fine), "{}", fine);
        let _ = PromptRenderer::compile(fine);
    }
    for bad in [
        "{{- 99999999999999999999 }}",
        "{{-9223372036854775808 }}",
        "{% for i in (1..99999999999999999999) %}{% endfor %}",
        "{{ a[99999999999999999999] }}",
        "{% case nil99999999999999999999 %}{% endcase %}",
        "\u{e9}\u{e9}\u{e9}\u{e9}\u{e9}{{ \"x\" }}{{ bad\" }}",
        "{% comment %}{% if issue %}",
        "{% comment %}{% raw %}{% endcomment %}",
        "{% comment %}{% if a %}{{ bad {% endif %}{% endcomment %}",
        "{% if a %}{% comment %}{% if %}{% endcomment %}{% endif %}{{ 99999999999999999999 }}",
        "{% if a %}{% comment %}{% if %}{% endcomment %}{% endif %}{{ issue }}",
        "{% comment %}{% comment %}{% if y %}{% bogus %}{% endcomment %}{% endif %}{% endcomment %}{{ 99999999999999999999 }}",
        "{% comment %}{% if a %}{{ b | bogus }}{% endcomment %}{% endif %}{% endcomment %}",
    ] {
        assert!(!is_compilable(bad), "{}", bad);
    }
}

#[test]
fn bounds_what_nests() {
    let indexes = |n: usize| format!("{{{{ {}a{} }}}}", "a[".repeat(n), "]".repeat(n));
    assert!(is_compilable(&indexes(100)));
    assert!(PromptRenderer::compile(&indexes(100)).is_ok());
    assert!(!is_compilable(&indexes(101)));
    assert!(!is_compilable(&format!("{{{{ {}", "a[".repeat(4000))));
    let blocks = |n: usize| format!("{}x{}", "{% if a %}".repeat(n), "{% endif %}".repeat(n));
    assert!(is_compilable(&blocks(64)));
    assert!(PromptRenderer::compile(&blocks(64)).is_ok());
    assert!(!is_compilable(&blocks(65)));
    let branches = |n: usize| format!("{{% if a %}}{}{{% endif %}}", "{% elsif b %}".repeat(n));
    assert!(is_compilable(&branches(64)));
    assert!(PromptRenderer::compile(&branches(64)).is_ok());
    assert!(!is_compilable(&branches(65)));
    let joined = |n: usize| format!("{{% if a{} %}}{{% endif %}}", " and b or c".repeat(n));
    assert!(is_compilable(&joined(128)));
    assert!(PromptRenderer::compile(&joined(128)).is_ok());
    assert!(!is_compilable(&joined(129)));
}

#[test]
fn renders_calculations_that_stay_in_bits() {
    let issue = Issue {
        title: "Some title".into(),
        description: Some("-5".into()),
        branch_name: Some("%Y/%m".into()),
        priority: Some(i64::MAX - 1),
        labels: vec!["b".into(), "a".into(), "c".into()],
        blocked_by: vec![
            BlockerRef { id: Some("2".into()), identifier: None, state: Some("Todo".into()) },
            BlockerRef { id: None, identifier: Some("X-1".into()), state: None },
        ],
        created_at: Some(Timestamp::new(86_400, 0).unwrap()),
        ..Issue::default()
    };
    for (template, expected) in [
        ("{{ attempt | plus: 1 }}", "8"),
        ("{{ issue.priority | plus: 1 }}", "9223372036854775807"),
        ("{{ issue.priority | minus: attempt | times: 1 }}", "9223372036854775799"),
        ("{{ issue.priority | divided_by: -1 | abs }}", "9223372036854775806"),
        ("{{ issue.description | abs | plus: issue.description }}", "0"),
        ("{{ issue.url | plus: 1 | default: 'x' }}", ""),
        ("{{ issue.labels | size | minus: 1 }}", "2"),
        ("{% for l in issue.labels %}{{ forloop.index0 | times: 10 }}{% endfor %}", "01020"),
        ("{% assign n = attempt | modulo: 4 %}{{ n }}", "3"),
        ("{{ attempt | default: 0 | at_least: 100 | plus: 1 }}", "101"),
        ("{{ -9223372036854775808 | divided_by: 2 }}", "-4611686018427387904"),
        ("{{ issue.title | slice: -5, attempt }}", "title"),
        ("{{ issue.title | slice: issue.priority }}", ""),
        ("{% tablerow x in issue.labels cols:attempt %}{{ x }}{% endtablerow %}",
            "<tr class=\"row1\"><td class=\"col1\">b</td><td class=\"col2\">a</td><td class=\"col3\">c</td></tr>"),
        ("{% for i in (5..attempt) %}{{ i }}{% endfor %}", "567"),
        ("{% for i in (attempt..5) %}{{ i }}{% else %}none{% endfor %}", "none"),
        ("{{ issue.labels | sort | join: ',' }}", "a,b,c"),
        ("{{ issue.labels | uniq | reverse | sort | first }}", "a"),
        ("{{ 'z,y' | split: ',' | sort | join }}", "y z"),
        ("{{ issue.blocked_by | sort: 'id' | map: 'id' | sort | join: '-' }}", "2-"),
        ("{{ '1970-01-02 00:00:00' | date: '%Y-%m-%d %3N \u{5e74}' }}", "1970-01-02 000 \u{5e74}"),
        ("{{ '1970-01-02 00:00:00' | date: issue.branch_name }}", "1970/01"),
        ("{% cycle 'a', 'b' %}{% cycle 'a', 'b' %}{% cycle n: 1 %}", "ab1"),
        ("{% raw %}{{ a | plus: 1 }}{% endraw %}", "{{ a | plus: 1 }}"),
        ("{% for b in issue.blocked_by %}{{ b.state }};{% endfor %}", "Todo;;"),
    ] {
        let renderer = PromptRenderer::compile(template).unwrap();
        assert!(renderer.is_renderable(&issue, Some(7)), "{}", template);
        match renderer.render_issue_prompt(&issue, Some(7)) {
            Ok(prompt) => assert_eq!(prompt, expected, "{}", template),
            Err(_) => assert_eq!(expected, "", "{}", template),
        }
    }
}

#[test]
fn notices_templates_that_cannot_be_rendered() {
    let issue = Issue {
        title: "%99999N".into(),
        priority: Some(i64::MIN),
        url: Some("9223372036854775807".into()),
        ..Issue::default()
    };
    for template in [
        "{% cycle 'a': %}",
        "{%cycle a:%}",
        "{% if a %}{% cycle b : %}{% endif %}",
        "{% tablerow x in (1..2) cols:0 %}{% endtablerow %}",
        "{% tablerow x in (1..2) cols:issue.priority %}{% endtablerow %}",
        "{% tablerow x in (1..2) cols:x %}{% endtablerow %}",
        "{{ -9223372036854775808 | divided_by: -1 }}",
        "{{ issue.priority | modulo: -1 }}",
        "{{ issue.priority | abs }}",
        "{{ issue.priority | minus: 1 }}",
        "{{ issue.url | plus: 1 }}",
        "{{ 1 | plus: issue.url }}",
        "{{ issue.url | append: '' | plus: 1 }}",
        "{{ issue.title | default: attempt | plus: 1 | times: 9223372036854775807 }}",
        "{{ attempt | times: 9223372036854775807 }}",
        "{% assign attempt = 9223372036854775807 %}{{ attempt | plus: 1 }}",
        "{% assign x = 9223372036854775807 %}{{ x | plus: 1 }}",
        "{% capture forloop %}9223372036854775807{% endcapture %}{{ forloop | plus: 1 }}",
        "{{ issue.title | slice: 1, 9223372036854775807 }}",
        "{{ issue.title | slice: 1, issue.url }}",
        "{% for i in (1..issue.url) %}{% endfor %}",
        "{% for i in (issue.priority..1) %}{% endfor %}",
        "{% render 'x' for (1..x) as y %}",
        "{{ 'now' | date: '%9999N' }}",
        "{{ 'now' | date: \"%\u{e9}\" }}",
        "{{ 'now' | date: issue.title }}",
        "{% for x in forloop %}{{ x | sort }}{% endfor %}",
        "{{ issue.blocked_by | concat: issue.labels | sort }}",
        "{% assign all = issue.blocked_by %}{{ all | sort }}",
        "{% for member in issue %}{{ member[1] | sort }}{% endfor %}",
    ] {
        let renderer = PromptRenderer::compile(template).unwrap();
        assert!(!renderer.is_renderable(&issue, Some(u32::MAX)), "{}", template);
    }
}

#[test]
fn loads_runtimes_that_can_dispatch() {
    let env = environment(&[("LINEAR_API_KEY", "k")]);
    assert_eq!(
        load_workflow_definition("W.md", None).unwrap_err(),
        SymphonyError::MissingWorkflowFile("W.md".into())
    );
    let definition = load_workflow_definition("W.md", Some("Hi {{ attempt }}")).unwrap();
    let asked = || RawWorkflowConfig { tracker: Some(raw_tracker("proj")), ..raw() };
    let runtime = load_workflow_runtime("W.md", &definition, Ok(asked()), &env).ok().unwrap();
    assert_eq!(validate_dispatch_config(&runtime.config), Ok(()));
    assert_eq!(runtime.config.workflow_path, "W.md");
    assert_eq!(runtime.config.prompt_template, "Hi {{ attempt }}");
    assert!(matches!(
        load_workflow_runtime("W.md", &definition, Err("why".into()), &env),
        Err(SymphonyError::WorkflowParseError(text)) if text == "why"
    ));
    let untriable = load_workflow_definition("W.md", Some("{{ 9223372036854775808 }}")).unwrap();
    assert!(matches!(
        load_workflow_runtime("W.md", &untriable, Ok(asked()), &env),
        Err(SymphonyError::TemplateParseError(_))
    ));
    assert!(matches!(
        load_workflow_runtime("W.md", &untriable, Ok(asked()), &environment(&[])),
        Err(SymphonyError::MissingTrackerApiKey)
    ));
}

#[test]
fn writes_issues_as_json() {
    let issue = Issue {
        id: "1".into(),
        identifier: "ABC-1".into(),
        title: "T".into(),
        priority: Some(-2),
        state: "Todo".into(),
        labels: vec!["bug".into()],
        blocked_by: vec![BlockerRef { id: Some("2".into()), identifier: None, state: None }],
        created_at: Some(Timestamp::new(0, 0).unwrap()),
        ..Issue::default()
    };
    assert_eq!(
        issue_to_json(&issue).to_text(),
        r#"{"blocked_by":[{"id":"2","identifier":null,"state":null}],"branch_name":null,"created_at":"1970-01-01T00:00:00Z","description":null,"id":"1","identifier":"ABC-1","labels":["bug"],"priority":-2,"state":"Todo","title":"T","updated_at":null,"url":null}"#
    );
    let globals = prompt_globals(&issue, Some(3)).unwrap();
    assert_eq!(globals[0].0, "issue");
    assert_eq!(globals[1], ("attempt".to_string(), LiquidValue::Integer(3)));
}

#[test]
fn continues_in_the_same_thread() {
    let issue = Issue { identifier: "ABC-1".into(), title: "T".into(), ..Issue::default() };
    let text = continue_issue(&issue, 2, 20, None);
    assert_eq!(
        text,
        "Continue working on issue ABC-1 (T) in the existing thread. This is continuation turn 2 of 20. Retry attempt: initial. Do not repeat the original task prompt. Focus on the next concrete step, keep edits inside the issue workspace, and leave a clear handoff if you are blocked."
    );
    let renderer = PromptRenderer::compile("x").unwrap();
    let again = renderer.continuation_prompt(&issue, 3, 20, Some(4));
    assert!(again.contains("turn 3 of 20. Retry attempt: 4."));
}

#[test]
fn builds_runtimes_from_valid_workflows() {
    let env = environment(&[("LINEAR_API_KEY", "k")]);
    let asked = || RawWorkflowConfig { tracker: Some(raw_tracker("proj")), ..raw() };
    let definition = |prompt: &str| WorkflowDefinition {
        config: StringMap::new(),
        prompt_template: prompt.into(),
    };
    let runtime = build_workflow_runtime("W.md", &definition("Hi"), asked(), &env).ok().unwrap();
    assert_eq!(runtime.config.tracker.api_key, "k");
    let unkeyed = build_workflow_runtime("W.md", &definition("Hi"), asked(), &environment(&[]));
    assert_eq!(unkeyed.err(), Some(SymphonyError::MissingTrackerApiKey));
    let bad = build_workflow_runtime("W.md", &definition("{{"), asked(), &env);
    assert!(matches!(bad.err(), Some(SymphonyError::TemplateParseError(_))));
}

#[test]
fn watches_the_workflow_file_only() {
    let changed = |paths: &[&str]| paths.iter().map(|path| path.to_string()).collect::<Vec<_>>();
    assert!(is_relevant_change("/a/W.md", &changed(&["/a/other", "/a//W.md"])));
    assert!(!is_relevant_change("/a/W.md", &changed(&["/a/other"])));
    assert!(is_relevant_change("/a/W.md", &changed(&[])));
}
