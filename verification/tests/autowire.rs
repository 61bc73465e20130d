//! Wiring a harness on its first managed launch.

use ai_memory::autowire::{
    agent_choice_for_harness, install_args, sentinel_path, wire_step, AgentChoice, McpProbe,
    WireAction, WireEvent, WireOverrides,
};
use ai_memory::harness::ManagedHarness;

#[test]
fn every_launchable_harness_maps_or_is_deliberately_skipped() {
    // Crush is the one launchable harness with no installer support.
    assert!(agent_choice_for_harness(ManagedHarness::Crush).is_none());
    for harness in [
        ManagedHarness::Claude,
        ManagedHarness::Codex,
        ManagedHarness::OpenCode,
        ManagedHarness::OpenCode2,
        ManagedHarness::Pi,
        ManagedHarness::Omp,
        ManagedHarness::Kimi,
        ManagedHarness::CommandCode,
        ManagedHarness::Kiro,
        ManagedHarness::KiroV3,
        ManagedHarness::Grok,
        ManagedHarness::Antigravity,
    ] {
        assert!(
            agent_choice_for_harness(harness).is_some(),
            "{harness:?} must map to an AgentChoice for autowire"
        );
    }
}

#[test]
fn harnesses_map_to_their_own_agents() {
    assert_eq!(agent_choice_for_harness(ManagedHarness::Kimi), Some(AgentChoice::KimiCode));
    assert_eq!(agent_choice_for_harness(ManagedHarness::Pi), Some(AgentChoice::Pi));
    assert_eq!(agent_choice_for_harness(ManagedHarness::KiroV3), Some(AgentChoice::KiroCliV3));
}

/// The kebab-case name of an agent.
fn kebab(agent: AgentChoice) -> String {
    let mut name = String::new();
    for c in format!("{agent:?}").chars() {
        if c.is_ascii_uppercase() && !name.is_empty() {
            name.push('-');
        }
        name.push(c.to_ascii_lowercase());
    }
    name
}

#[test]
fn sentinel_is_agent_and_version_specific() {
    let dir: &[u8] = b"/data";
    let version = "2.3.0";
    let path_of = |agent: AgentChoice, version: &str| {
        String::from_utf8(sentinel_path(dir, &kebab(agent), version)).unwrap()
    };
    let first = path_of(AgentChoice::ClaudeCode, version);
    let codex = path_of(AgentChoice::Codex, version);
    assert_ne!(first, codex, "different agents get distinct sentinels");
    assert!(first.starts_with("/data/autowire-state/"));
    let prefix = format!("{}-", kebab(AgentChoice::ClaudeCode));
    assert!(
        std::path::Path::new(&first)
            .file_name()
            .and_then(|n| n.to_str())
            .is_some_and(|n| n.starts_with(&prefix) && n.ends_with(version)),
        "sentinel keys on agent + version: {first:?}"
    );
    assert_ne!(
        first,
        path_of(AgentChoice::ClaudeCode, "2.4.0"),
        "an upgrade wires again"
    );
    assert_eq!(codex, "/data/autowire-state/codex-2.3.0");
}

#[test]
fn paths_join_as_in_the_standard_library() {
    for (base, agent) in [("/data", "codex"), ("/data/", "codex"), ("", "codex"), ("/data", "/codex")] {
        let expected = std::path::Path::new(base).join("autowire-state").join(format!("{agent}-1"));
        assert_eq!(
            String::from_utf8(sentinel_path(base.as_bytes(), agent, "1")).unwrap(),
            expected.to_str().unwrap()
        );
    }
}

/// Runs the wiring of a harness against fixed answers.
fn wire(
    harness: ManagedHarness,
    present: bool,
    hooks: Option<&str>,
    probe: McpProbe,
    mcp: Option<&str>,
) -> (Vec<WireAction>, Vec<String>) {
    let mut actions = Vec::new();
    let mut notices = Vec::new();
    let mut event = WireEvent::Launched(harness);
    loop {
        let step = wire_step("kimi", "kimi-code", &event);
        notices.extend(step.notice);
        actions.push(step.action);
        event = match step.action {
            WireAction::Stop | WireAction::WriteMark => return (actions, notices),
            WireAction::CheckMark(_) => WireEvent::Mark { present },
            WireAction::InstallHooks => WireEvent::Hooks(hooks.map(str::to_string)),
            WireAction::ProbeMcp => WireEvent::Mcp(probe),
            WireAction::InstallMcp => WireEvent::McpServer(mcp.map(str::to_string)),
        };
    }
}

#[test]
fn unsupported_harness_wires_nothing() {
    let (actions, notices) = wire(ManagedHarness::Crush, false, None, McpProbe::Replaceable, None);
    assert_eq!(
        actions,
        vec![WireAction::Stop],
        "an unsupported harness must not create autowire state"
    );
    assert!(notices.is_empty());
}

#[test]
fn a_present_mark_stops_before_any_install() {
    let (actions, notices) = wire(ManagedHarness::Kimi, true, None, McpProbe::Replaceable, None);
    assert_eq!(actions, vec![WireAction::CheckMark(AgentChoice::KimiCode), WireAction::Stop]);
    assert!(notices.is_empty());
}

#[test]
fn a_first_launch_installs_hooks_and_mcp_and_marks_the_attempt() {
    let (actions, notices) = wire(ManagedHarness::Kimi, false, None, McpProbe::Replaceable, None);
    assert_eq!(
        actions,
        vec![
            WireAction::CheckMark(AgentChoice::KimiCode),
            WireAction::InstallHooks,
            WireAction::ProbeMcp,
            WireAction::InstallMcp,
            WireAction::WriteMark,
        ]
    );
    assert_eq!(
        notices,
        vec![
            "ai-memory: first managed launch of kimi here — wiring its ai-memory hooks + MCP so capture and recall work (disable with --no-autowire or AI_MEMORY_RUN_AUTOWIRE=false)."
        ]
    );
}

#[test]
fn a_session_aware_bridge_is_kept_and_the_attempt_marked() {
    let (actions, notices) = wire(ManagedHarness::Kimi, false, None, McpProbe::SessionAware, None);
    assert!(!actions.contains(&WireAction::InstallMcp));
    assert_eq!(actions.last(), Some(&WireAction::WriteMark));
    assert_eq!(
        notices[1],
        "ai-memory: keeping the existing session-aware kimi MCP bridge; not overwriting it with the static HTTP registration."
    );
    let (actions, notices) = wire(ManagedHarness::Pi, false, None, McpProbe::NoClient, None);
    assert!(!actions.contains(&WireAction::InstallMcp));
    assert_eq!(notices.len(), 1);
}

#[test]
fn failed_installs_are_reported_and_the_attempt_is_still_marked() {
    let (actions, notices) =
        wire(ManagedHarness::Kimi, false, Some("no disk"), McpProbe::Replaceable, Some("no net"));
    assert_eq!(actions.last(), Some(&WireAction::WriteMark));
    assert_eq!(actions.len(), 5);
    assert_eq!(
        notices[1],
        "ai-memory: could not auto-install kimi hooks (no disk); continuing launch. Wire them manually with `ai-memory install-hooks --agent kimi-code --apply`."
    );
    assert_eq!(
        notices[2],
        "ai-memory: could not auto-install the kimi MCP server (no net); continuing launch. Wire it manually with `ai-memory install-mcp --client kimi-code --apply`."
    );
}

#[test]
fn installs_are_applied_against_the_configured_server() {
    let overrides = WireOverrides {
        hooks_dir: Some(b"/h".to_vec()),
        hooks_config_file: Some(b"/c".to_vec()),
        mcp_config_file: Some(b"/m".to_vec()),
    };
    let url = "http://127.0.0.1:9".to_string();
    let token = Some("t".to_string());
    let (hooks, mcp) = install_args(AgentChoice::Codex, &url, &token, overrides);
    assert_eq!(hooks.agent, AgentChoice::Codex);
    assert_eq!(hooks.hooks_dir, Some(b"/h".to_vec()));
    assert_eq!(hooks.config_file, Some(b"/c".to_vec()));
    assert_eq!(hooks.server_url.as_deref(), Some("http://127.0.0.1:9"));
    assert_eq!(hooks.auth_token.as_deref(), Some("t"));
    assert!(hooks.apply);
    assert!(!hooks.capture_assistant && !hooks.capture_prompts && !hooks.no_capture_prompts);
    assert!(hooks.as_user.is_none() && hooks.profile.is_none());
    assert!(hooks.project_strategy.is_none() && hooks.capture_mode.is_none());
    assert_eq!(mcp.server_url.as_deref(), Some("http://127.0.0.1:9"));
    assert_eq!(mcp.auth_token.as_deref(), Some("t"));
    assert_eq!(mcp.name, "ai-memory");
    assert_eq!(mcp.config_file, Some(b"/m".to_vec()));
    assert!(mcp.apply && !mcp.session_aware && mcp.flavor.is_none());
}
