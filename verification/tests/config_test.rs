use ai_board::config::{
    agent_path, get_agent, join_path, load_agents, load_file, resolve_cwd, AgentFile, AgentMap,
    AgentSource, AgentSpec,
};

fn agent(command: &str) -> AgentSpec {
    AgentSpec { command: command.to_string(), args: vec![], env: vec![] }
}

fn parsed(path: &str, entries: Vec<(&str, &str)>) -> AgentSource {
    AgentSource {
        path: path.to_string(),
        file: AgentFile::Parsed(
            entries.into_iter().map(|(id, cmd)| (id.to_string(), agent(cmd))).collect(),
        ),
    }
}

fn absent(path: &str) -> AgentSource {
    AgentSource { path: path.to_string(), file: AgentFile::Absent }
}

#[test]
fn workspace_replaces_user_id_and_keeps_user_only() {
    let home = parsed(
        "/tmp/t/home/.abd/agents.yaml",
        vec![("shared", "from-user"), ("user_only", "u")],
    );
    let ws = parsed("/tmp/t/ws/.abd/agents.yaml", vec![("shared", "from-ws")]);
    let agents = load_agents(Some(home), ws, None).unwrap();
    assert_eq!(agents.get("user_only").unwrap().command, "u");
    assert_eq!(agents.get("shared").unwrap().command, "from-ws");
}

#[test]
fn extra_replaces_workspace_id() {
    let ws = parsed("/tmp/t/ws/.abd/agents.yaml", vec![("a", "ws")]);
    let extra = parsed("/tmp/t/extra.yaml", vec![("a", "extra")]);
    let agents = load_agents(None, ws, Some(extra)).unwrap();
    assert_eq!(agents.get("a").unwrap().command, "extra");
}

#[test]
fn missing_files_yield_empty_map() {
    let agents = load_agents(
        Some(absent("/tmp/t/.abd/agents.yaml")),
        absent("/tmp/t/.abd/agents.yaml"),
        None,
    )
    .unwrap();
    assert!(agents.is_empty());
}

#[test]
fn extra_missing_file_errors_with_path() {
    let missing = "/tmp/t/nope.yaml";
    let err = load_agents(None, absent("/tmp/t/.abd/agents.yaml"), Some(absent(missing)))
        .unwrap_err();
    assert!(err.message().contains(missing));
}

#[test]
fn unknown_key_errors_with_path() {
    let path = "/tmp/t/bad.yaml";
    let extra = AgentSource {
        path: path.to_string(),
        file: AgentFile::Malformed(
            "agents.a: unknown field `nope`, expected one of `command`, `args`, `env` at line 4 column 5"
                .to_string(),
        ),
    };
    let err = load_agents(None, absent("/tmp/t/.abd/agents.yaml"), Some(extra)).unwrap_err();
    let msg = err.message();
    assert!(msg.contains(path), "{msg}");
    assert!(msg.contains("nope") && msg.contains("unknown field"), "{msg}");
}

#[test]
fn duplicate_agent_id_in_one_file_keeps_last() {
    let extra = parsed("/tmp/t/dup.yaml", vec![("a", "one"), ("a", "two")]);
    let agents = load_agents(None, absent("/tmp/t/.abd/agents.yaml"), Some(extra)).unwrap();
    assert_eq!(agents.get("a").unwrap().command, "two");
}

#[test]
fn empty_command_errors_with_path() {
    let path = "/tmp/t/empty.yaml";
    let extra = parsed(path, vec![("a", "  ")]);
    let err = load_agents(None, absent("/tmp/t/.abd/agents.yaml"), Some(extra)).unwrap_err();
    let msg = err.message();
    assert!(msg.contains(path));
    assert!(msg.contains("command"));
    assert_eq!(msg, "invalid agents file /tmp/t/empty.yaml: agent a has empty command");
}

#[test]
fn get_agent_unknown_id_mentions_id() {
    let map = AgentMap::new();
    let err = get_agent(&map, "nope").unwrap_err();
    assert!(err.message().contains("nope"));
}

#[test]
fn commands_are_trimmed() {
    let out = load_file("/tmp/a.yaml", vec![("a".to_string(), agent("  run me \t"))]).unwrap();
    assert_eq!(out[0].1.command, "run me");
}

#[test]
fn first_blank_command_is_reported() {
    let err = load_file(
        "/tmp/a.yaml",
        vec![
            ("a".to_string(), agent("ok")),
            ("b".to_string(), agent("\n")),
            ("c".to_string(), agent("")),
        ],
    )
    .unwrap_err();
    assert_eq!(err.message(), "invalid agents file /tmp/a.yaml: agent b has empty command");
}

#[test]
fn unreadable_workspace_file_errors() {
    let ws = AgentSource { path: "/w/.abd/agents.yaml".to_string(), file: AgentFile::Unreadable };
    let err = load_agents(None, ws, None).unwrap_err();
    assert_eq!(err.message(), "failed to read /w/.abd/agents.yaml");
}

#[test]
fn agent_path_joins_like_path_join() {
    assert_eq!(agent_path("/home/me"), "/home/me/.abd/agents.yaml");
    assert_eq!(agent_path("/home/me/"), "/home/me/.abd/agents.yaml");
    assert_eq!(agent_path(""), ".abd/agents.yaml");
    assert_eq!(join_path("a", "b"), "a/b");
}

#[test]
fn cwd_is_resolved_against_current_dir() {
    assert_eq!(resolve_cwd(None, "/work"), "/work");
    assert_eq!(resolve_cwd(Some("/abs"), "/work"), "/abs");
    assert_eq!(resolve_cwd(Some("sub"), "/work"), "/work/sub");
}

#[test]
fn get_agent_returns_the_agent() {
    let ws = parsed("/w", vec![("codex", "codex-acp")]);
    let agents = load_agents(None, ws, None).unwrap();
    assert_eq!(get_agent(&agents, "codex").unwrap().command, "codex-acp");
}
