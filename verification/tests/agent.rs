use cursor_bridge::agent::{
    active_agent_groups, answer_of_text, client_env, client_program, environment_token, proxy_step,
    read_answer, register_agent_group, sandbox_name, settings_dir, spawn_args,
    terminate_active_agents, unregister_agent_group, wants_help, Accepted, AgentSearch, Finding,
    Probe, Proxy, ProxyStep, SANDBOX_SETTINGS,
};
use cursor_bridge::json::Json;
use cursor_bridge::prompt::Message;
use cursor_bridge::request::{MessagesRequest, DEFAULT_MODEL};

fn shown(probe: &Probe) -> String {
    match probe {
        Probe::Path(path) => path.clone(),
        Probe::Command { program, args } => format!("{program} {}", args.join("|")),
    }
}

/// The probes of a search in which nothing is found.
fn all_probes(agent_path: Option<&str>, home: &str) -> Vec<String> {
    let mut search = AgentSearch::new(agent_path, home);
    let mut seen = Vec::new();
    while let Some(probe) = search.current() {
        seen.push(shown(probe));
        let finding = match probe {
            Probe::Path(_) => Finding::Exists(false),
            Probe::Command { .. } => Finding::Output { success: false, stdout: b"/x".to_vec() },
        };
        assert_eq!(search.report(&finding), None);
    }
    seen
}

#[test]
fn groups_are_registered_and_unregistered() {
    let mut groups = active_agent_groups();
    assert!(terminate_active_agents(&groups).is_empty());
    register_agent_group(&mut groups, 10);
    register_agent_group(&mut groups, 20);
    register_agent_group(&mut groups, 10);
    let mut running = terminate_active_agents(&groups);
    running.sort();
    assert_eq!(running, vec![10, 20]);
    unregister_agent_group(&mut groups, 10);
    unregister_agent_group(&mut groups, 30);
    assert_eq!(terminate_active_agents(&groups), vec![20]);
}

#[test]
fn the_order_of_the_search() {
    assert_eq!(
        all_probes(Some("/opt/agent"), "/home/me"),
        vec![
            "/opt/agent",
            "sh -c|command -v agent",
            "which agent",
            "/usr/local/bin/agent",
            "/opt/homebrew/bin/agent",
            "/usr/bin/agent",
            "/home/me/.local/bin/agent",
        ]
    );
    assert_eq!(all_probes(Some(""), "").len(), 5);
    assert_eq!(all_probes(None, "/root").len(), 6);
}

#[test]
fn a_search_ends_with_the_first_find() {
    let mut search = AgentSearch::new(Some("/opt/agent"), "");
    assert_eq!(search.report(&Finding::Exists(true)), Some("/opt/agent".to_string()));
    let mut search = AgentSearch::new(None, "");
    let blank = Finding::Output { success: true, stdout: b" \n".to_vec() };
    assert_eq!(search.report(&blank), None);
    let found = Finding::Output { success: true, stdout: b"/usr/bin/agent\n".to_vec() };
    assert_eq!(search.report(&found), Some("/usr/bin/agent".to_string()));
    // What does not answer the probe is no find.
    let mut search = AgentSearch::new(None, "");
    assert_eq!(search.report(&Finding::Exists(true)), None);
}

#[test]
fn answers_of_commands() {
    assert_eq!(read_answer(true, b"  token \n"), "token");
    assert_eq!(read_answer(false, b"token"), "");
    assert_eq!(read_answer(true, "é\u{3000}".as_bytes()), "é");
    assert_eq!(read_answer(true, b"a\xffb\n"), "a\u{fffd}b");
    assert_eq!(answer_of_text(true, "\tx y\t"), "x y");
    assert_eq!(answer_of_text(false, "x"), "");
}

#[test]
fn the_token_of_the_environment() {
    assert_eq!(environment_token(Some("a"), Some("b")), Some("a".to_string()));
    assert_eq!(environment_token(Some(""), Some("b")), Some("b".to_string()));
    assert_eq!(environment_token(None, Some("b")), Some("b".to_string()));
    assert_eq!(environment_token(Some(""), Some("")), None);
    assert_eq!(environment_token(None, None), None);
}

#[test]
fn arguments_of_the_agent() {
    assert_eq!(
        spawn_args("m", None),
        vec![
            "--print",
            "--force",
            "--output-format",
            "stream-json",
            "--stream-partial-output",
            "--model",
            "m",
            "--trust"
        ]
    );
    let resumed = spawn_args("m", Some("chat-1"));
    assert_eq!(resumed.len(), 10);
    assert_eq!(resumed[8..], ["--resume".to_string(), "chat-1".to_string()]);
}

#[test]
fn the_client_and_its_environment() {
    assert_eq!(
        client_env(8080),
        vec![
            ("ANTHROPIC_BASE_URL".to_string(), "http://127.0.0.1:8080".to_string()),
            ("ANTHROPIC_AUTH_TOKEN".to_string(), "sk-any".to_string()),
            ("ANTHROPIC_API_KEY".to_string(), "".to_string()),
            ("ANTHROPIC_MODEL".to_string(), "cursor-auto".to_string()),
            ("CLAUDE_CODE_DISABLE_NONESSENTIAL_TRAFFIC".to_string(), "1".to_string()),
        ]
    );
    let (program, _) = "claude_code".split_once('_').unwrap();
    assert_eq!(client_program(), program);
    assert_eq!(settings_dir(), format!(".{program}"));
    assert_eq!(sandbox_name(42), "cursor-bridge-42");
    let settings: serde_json::Value = serde_json::from_str(SANDBOX_SETTINGS).unwrap();
    assert_eq!(settings["enabledPlugins"]["context-mode@context-mode"], false);
}

#[test]
fn help_is_asked_for_anywhere() {
    let args = |list: &[&str]| list.iter().map(|s| s.to_string()).collect::<Vec<String>>();
    assert!(wants_help(&args(&["-p", "--help"])));
    assert!(wants_help(&args(&["-h"])));
    assert!(!wants_help(&args(&["help", "--helpme", "-H"])));
    assert!(!wants_help(&[]));
}

#[test]
fn steps_of_the_proxy() {
    assert_eq!(proxy_step(false, Accepted::Connection), ProxyStep::Serve);
    assert_eq!(proxy_step(false, Accepted::NoneYet), ProxyStep::Wait);
    assert_eq!(proxy_step(false, Accepted::Failed), ProxyStep::Stop);
    assert_eq!(proxy_step(true, Accepted::Connection), ProxyStep::Stop);
    assert_eq!(proxy_step(true, Accepted::NoneYet), ProxyStep::Stop);
    assert_eq!(Proxy::new(99).port(), 99);
}

#[test]
fn defaults_of_a_request() {
    let bare = MessagesRequest {
        model: None,
        messages: None,
        system: None,
        max_tokens: None,
        stream: None,
    };
    assert_eq!(bare.model(), DEFAULT_MODEL);
    assert_eq!(bare.model(), "cursor-auto");
    assert!(bare.messages().is_empty());
    assert!(bare.wants_stream());
    let full = MessagesRequest {
        model: Some("m".into()),
        messages: Some(vec![Message { role: "user".into(), content: Json::Null }]),
        system: Some(Json::Null),
        max_tokens: Some(1),
        stream: Some(false),
    };
    assert_eq!(full.model(), "m");
    assert_eq!(full.messages().len(), 1);
    assert!(!full.wants_stream());
}
