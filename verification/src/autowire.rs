//! Installing a harness's hooks and MCP server the first time it is launched:
//! what to do next, as a function of what was found so far.

use vstd::prelude::*;
use vstd::string::*;

use crate::harness::ManagedHarness;
use crate::text;

verus! {

/// An agent whose hooks can be installed.
#[derive(Debug, Clone, Copy, PartialEq, Eq, Structural)]
pub enum AgentChoice {
    ClaudeCode,
    Codex,
    OpenCode,
    OpenCode2,
    Pi,
    Omp,
    KimiCode,
    CommandCode,
    KiroCli,
    KiroCliV3,
    Grok,
    AntigravityCli,
}

/// The agent of a harness, if its hooks can be installed.
pub open spec fn agent_of(harness: ManagedHarness) -> Option<AgentChoice> {
    match harness {
        ManagedHarness::Claude => Some(AgentChoice::ClaudeCode),
        ManagedHarness::Codex => Some(AgentChoice::Codex),
        ManagedHarness::OpenCode => Some(AgentChoice::OpenCode),
        ManagedHarness::OpenCode2 => Some(AgentChoice::OpenCode2),
        ManagedHarness::Pi => Some(AgentChoice::Pi),
        ManagedHarness::Omp => Some(AgentChoice::Omp),
        ManagedHarness::Kimi => Some(AgentChoice::KimiCode),
        ManagedHarness::CommandCode => Some(AgentChoice::CommandCode),
        ManagedHarness::Kiro => Some(AgentChoice::KiroCli),
        ManagedHarness::KiroV3 => Some(AgentChoice::KiroCliV3),
        ManagedHarness::Grok => Some(AgentChoice::Grok),
        ManagedHarness::Antigravity => Some(AgentChoice::AntigravityCli),
        ManagedHarness::Crush => None,
    }
}

/// The agent of a harness; `None` for a harness without installer support.
pub fn agent_choice_for_harness(harness: ManagedHarness) -> (agent: Option<AgentChoice>)
    ensures
        agent == agent_of(harness),
{
    match harness {
        ManagedHarness::Claude => Some(AgentChoice::ClaudeCode),
        ManagedHarness::Codex => Some(AgentChoice::Codex),
        ManagedHarness::OpenCode => Some(AgentChoice::OpenCode),
        ManagedHarness::OpenCode2 => Some(AgentChoice::OpenCode2),
        ManagedHarness::Pi => Some(AgentChoice::Pi),
        ManagedHarness::Omp => Some(AgentChoice::Omp),
        ManagedHarness::Kimi => Some(AgentChoice::KimiCode),
        ManagedHarness::CommandCode => Some(AgentChoice::CommandCode),
        ManagedHarness::Kiro => Some(AgentChoice::KiroCli),
        ManagedHarness::KiroV3 => Some(AgentChoice::KiroCliV3),
        ManagedHarness::Grok => Some(AgentChoice::Grok),
        ManagedHarness::Antigravity => Some(AgentChoice::AntigravityCli),
        ManagedHarness::Crush => None,
    }
}

/// Every harness but one has an agent, and no two share one.
pub proof fn every_harness_but_crush_has_its_agent(a: ManagedHarness, b: ManagedHarness)
    ensures
        agent_of(a) is None <==> a == ManagedHarness::Crush,
        agent_of(a) is Some && agent_of(a) == agent_of(b) ==> a == b,
{
}

/// The name of the file that marks that an agent kind was wired by a version.
pub open spec fn mark_name(agent: Seq<char>, version: Seq<char>) -> Seq<u8> {
    vstd::utf8::encode_utf8(agent + "-"@ + version)
}

/// The path of the mark.
pub open spec fn mark_of(data_dir: Seq<u8>, agent: Seq<char>, version: Seq<char>) -> Seq<u8> {
    text::joined(
        text::joined(data_dir, vstd::utf8::encode_utf8("autowire-state"@)),
        mark_name(agent, version),
    )
}

/// The path of the file that marks that an agent kind was wired on this
/// machine by this version of the program, so that an upgrade wires it again.
/// With an empty `data_dir` the path is relative to the data directory.
pub fn sentinel_path(data_dir: &[u8], agent: &str, version: &str) -> (path: Vec<u8>)
    ensures
        path@ == mark_of(data_dir@, agent@, version@),
{
    let mut path: Vec<u8> = Vec::new();
    path.extend_from_slice(data_dir);
    assert(path@ == data_dir@);
    text::push_path(&mut path, "autowire-state".as_bytes());
    let name = agent.to_owned().concat("-").concat(version);
    text::push_path(&mut path, name.as_str().as_bytes());
    path
}

/// Marks tell agent kinds and versions apart: for one version every agent kind
/// has its own mark, and for one agent kind every version has its own.
pub proof fn marks_are_agent_and_version_specific(
    data_dir: Seq<u8>,
    a: Seq<char>,
    b: Seq<char>,
    v: Seq<char>,
    w: Seq<char>,
)
    requires
        !text::is_absolute(mark_name(a, v)),
        !text::is_absolute(mark_name(b, v)),
        !text::is_absolute(mark_name(a, w)),
    ensures
        mark_of(data_dir, a, v) == mark_of(data_dir, b, v) <==> a == b,
        mark_of(data_dir, a, v) == mark_of(data_dir, a, w) <==> v == w,
{
    let dir = text::joined(data_dir, vstd::utf8::encode_utf8("autowire-state"@));
    text::joining_tells_leaves_apart(dir, mark_name(a, v), mark_name(b, v));
    text::joining_tells_leaves_apart(dir, mark_name(a, v), mark_name(a, w));
    vstd::utf8::encode_utf8_decode_utf8(a + "-"@ + v);
    vstd::utf8::encode_utf8_decode_utf8(b + "-"@ + v);
    vstd::utf8::encode_utf8_decode_utf8(a + "-"@ + w);
    if a + "-"@ + v == b + "-"@ + v {
        let tail = "-"@ + v;
        assert(a + "-"@ + v == a + tail && b + "-"@ + v == b + tail);
        assert(a.len() == b.len());
        assert(a == (a + tail).take(a.len() as int));
        assert(b == (b + tail).take(a.len() as int));
    }
    if a + "-"@ + v == a + "-"@ + w {
        let head = a + "-"@;
        assert(v == (head + v).skip(head.len() as int));
        assert(w == (head + w).skip(head.len() as int));
    }
}

/// What looking for the agent's MCP client found.
#[derive(Debug, Clone, Copy, PartialEq, Eq, Structural)]
pub enum McpProbe {
    /// The agent has no MCP client that the installer can write.
    NoClient,
    /// The client holds a session-aware bridge.
    SessionAware,
    /// The client holds nothing that needs to be kept.
    Replaceable,
}

/// What wiring a harness has found out.
#[derive(Debug)]
pub enum WireEvent {
    /// The harness was launched.
    Launched(ManagedHarness),
    /// Whether the mark of an earlier attempt is there.
    Mark { present: bool },
    /// The hooks were installed, or failed to be for this reason.
    Hooks(Option<String>),
    /// What the agent's MCP client is.
    Mcp(McpProbe),
    /// The MCP server was installed, or failed to be for this reason.
    McpServer(Option<String>),
}

/// What wiring a harness does next.
#[derive(Debug, Clone, Copy, PartialEq, Eq, Structural)]
pub enum WireAction {
    /// Nothing; the launch goes on.
    Stop,
    /// Look for the mark of an earlier attempt for this agent.
    CheckMark(AgentChoice),
    /// Install the hooks.
    InstallHooks,
    /// Look for the agent's MCP client.
    ProbeMcp,
    /// Install the MCP server.
    InstallMcp,
    /// Mark the attempt; the launch goes on.
    WriteMark,
}

/// A line for the operator, if there is something to say, and the next action.
#[derive(Debug)]
pub struct WireStep {
    pub notice: Option<String>,
    pub action: WireAction,
}

/// What follows an event.
pub open spec fn action_after(event: WireEvent) -> WireAction {
    match event {
        WireEvent::Launched(harness) => match agent_of(harness) {
            None => WireAction::Stop,
            Some(agent) => WireAction::CheckMark(agent),
        },
        WireEvent::Mark { present } => if present {
            WireAction::Stop
        } else {
            WireAction::InstallHooks
        },
        WireEvent::Hooks(_) => WireAction::ProbeMcp,
        WireEvent::Mcp(probe) => match probe {
            McpProbe::Replaceable => WireAction::InstallMcp,
            McpProbe::NoClient | McpProbe::SessionAware => WireAction::WriteMark,
        },
        WireEvent::McpServer(_) => WireAction::WriteMark,
    }
}

/// What the operator is told after an event: that a harness is wired for the
/// first time, that a bridge is kept, or that an installation failed and how
/// to do it by hand.
pub open spec fn notice_after(
    harness: Seq<char>,
    agent: Seq<char>,
    event: WireEvent,
) -> Option<Seq<char>> {
    match event {
        WireEvent::Launched(_) => None,
        WireEvent::Mark { present } => if present {
            None
        } else {
            Some(
                "ai-memory: first managed launch of "@ + harness
                    + " here — wiring its ai-memory hooks + MCP so capture and recall work (disable with --no-autowire or AI_MEMORY_RUN_AUTOWIRE=false)."@,
            )
        },
        WireEvent::Hooks(error) => match error {
            None => None,
            Some(error) => Some(
                "ai-memory: could not auto-install "@ + harness + " hooks ("@ + error@
                    + "); continuing launch. Wire them manually with `ai-memory install-hooks --agent "@
                    + agent + " --apply`."@,
            ),
        },
        WireEvent::Mcp(probe) => if probe == McpProbe::SessionAware {
            Some(
                "ai-memory: keeping the existing session-aware "@ + harness
                    + " MCP bridge; not overwriting it with the static HTTP registration."@,
            )
        } else {
            None
        },
        WireEvent::McpServer(error) => match error {
            None => None,
            Some(error) => Some(
                "ai-memory: could not auto-install the "@ + harness + " MCP server ("@ + error@
                    + "); continuing launch. Wire it manually with `ai-memory install-mcp --client "@
                    + agent + " --apply`."@,
            ),
        },
    }
}

/// What follows an event of wiring the harness called `harness`, whose agent
/// kind is called `agent`.
pub fn wire_step(harness: &str, agent: &str, event: &WireEvent) -> (step: WireStep)
    ensures
        step.action == action_after(*event),
        step.notice.deep_view() == notice_after(harness@, agent@, *event),
{
    match event {
        WireEvent::Launched(harness) => match agent_choice_for_harness(*harness) {
            None => WireStep { notice: None, action: WireAction::Stop },
            Some(agent) => WireStep { notice: None, action: WireAction::CheckMark(agent) },
        },
        WireEvent::Mark { present } => {
            if *present {
                WireStep { notice: None, action: WireAction::Stop }
            } else {
                let mut notice = "ai-memory: first managed launch of ".to_owned();
                notice.append(harness);
                notice.append(
                    " here — wiring its ai-memory hooks + MCP so capture and recall work (disable with --no-autowire or AI_MEMORY_RUN_AUTOWIRE=false).",
                );
                WireStep { notice: Some(notice), action: WireAction::InstallHooks }
            }
        },
        WireEvent::Hooks(error) => match error {
            None => WireStep { notice: None, action: WireAction::ProbeMcp },
            Some(error) => {
                let mut notice = "ai-memory: could not auto-install ".to_owned();
                notice.append(harness);
                notice.append(" hooks (");
                notice.append(error.as_str());
                notice.append(
                    "); continuing launch. Wire them manually with `ai-memory install-hooks --agent ",
                );
                notice.append(agent);
                notice.append(" --apply`.");
                WireStep { notice: Some(notice), action: WireAction::ProbeMcp }
            },
        },
        WireEvent::Mcp(probe) => match probe {
            McpProbe::NoClient => WireStep { notice: None, action: WireAction::WriteMark },
            McpProbe::SessionAware => {
                let mut notice = "ai-memory: keeping the existing session-aware ".to_owned();
                notice.append(harness);
                notice.append(
                    " MCP bridge; not overwriting it with the static HTTP registration.",
                );
                WireStep { notice: Some(notice), action: WireAction::WriteMark }
            },
            McpProbe::Replaceable => WireStep { notice: None, action: WireAction::InstallMcp },
        },
        WireEvent::McpServer(error) => match error {
            None => WireStep { notice: None, action: WireAction::WriteMark },
            Some(error) => {
                let mut notice = "ai-memory: could not auto-install the ".to_owned();
                notice.append(harness);
                notice.append(" MCP server (");
                notice.append(error.as_str());
                notice.append(
                    "); continuing launch. Wire it manually with `ai-memory install-mcp --client ",
                );
                notice.append(agent);
                notice.append(" --apply`.");
                WireStep { notice: Some(notice), action: WireAction::WriteMark }
            },
        },
    }
}

/// What the surroundings answer while a harness is wired.
pub struct Answers {
    pub mark_present: bool,
    pub hooks_error: Option<String>,
    pub probe: McpProbe,
    pub mcp_error: Option<String>,
}

/// The event that an action leads to, given the answers.
pub open spec fn answer(answers: Answers, action: WireAction) -> Option<WireEvent> {
    match action {
        WireAction::Stop | WireAction::WriteMark => None,
        WireAction::CheckMark(_) => Some(WireEvent::Mark { present: answers.mark_present }),
        WireAction::InstallHooks => Some(WireEvent::Hooks(answers.hooks_error)),
        WireAction::ProbeMcp => Some(WireEvent::Mcp(answers.probe)),
        WireAction::InstallMcp => Some(WireEvent::McpServer(answers.mcp_error)),
    }
}

/// The actions from an event on, in order.
pub open spec fn wiring(answers: Answers, event: WireEvent) -> Seq<WireAction>
    decreases
            (match event {
                WireEvent::Launched(_) => 4int,
                WireEvent::Mark { .. } => 3,
                WireEvent::Hooks(_) => 2,
                WireEvent::Mcp(_) => 1,
                WireEvent::McpServer(_) => 0,
            }),
{
    let action = action_after(event);
    match answer(answers, action) {
        None => seq![action],
        Some(next) => seq![action] + wiring(answers, next),
    }
}

/// A launch wires a harness at most once and never half-heartedly. A harness
/// without installer support, or one whose mark is there, is not touched.
/// Otherwise the hooks are installed, the MCP server is installed exactly when
/// there is a client that holds no session-aware bridge, and the attempt is
/// marked, whatever failed on the way.
pub proof fn wiring_is_gated_and_marked(answers: Answers, harness: ManagedHarness)
    ensures
        wiring(answers, WireEvent::Launched(harness)) == match agent_of(harness) {
            None => seq![WireAction::Stop],
            Some(agent) => if answers.mark_present {
                seq![WireAction::CheckMark(agent), WireAction::Stop]
            } else if answers.probe == McpProbe::Replaceable {
                seq![
                    WireAction::CheckMark(agent),
                    WireAction::InstallHooks,
                    WireAction::ProbeMcp,
                    WireAction::InstallMcp,
                    WireAction::WriteMark,
                ]
            } else {
                seq![
                    WireAction::CheckMark(agent),
                    WireAction::InstallHooks,
                    WireAction::ProbeMcp,
                    WireAction::WriteMark,
                ]
            },
        },
{
    reveal_with_fuel(wiring, 5);
}

/// Paths to use in place of the agent's own ones; `P` is the type of a path.
#[derive(Debug)]
pub struct WireOverrides<P> {
    /// Where the hook scripts are taken from.
    pub hooks_dir: Option<P>,
    /// The agent's hook configuration file.
    pub hooks_config_file: Option<P>,
    /// The agent's MCP configuration file.
    pub mcp_config_file: Option<P>,
}

/// How to install an agent's hooks.
#[derive(Debug)]
pub struct InstallHooksArgs<P> {
    pub agent: AgentChoice,
    pub hooks_dir: Option<P>,
    pub server_url: Option<String>,
    pub auth_token: Option<String>,
    pub as_user: Option<String>,
    pub apply: bool,
    pub config_file: Option<P>,
    pub project_strategy: Option<String>,
    pub capture_assistant: bool,
    pub capture_mode: Option<String>,
    pub no_capture_prompts: bool,
    pub capture_prompts: bool,
    pub profile: Option<String>,
}

/// How to install the MCP server into an agent's client.
#[derive(Debug)]
pub struct InstallMcpArgs<P> {
    pub server_url: Option<String>,
    pub name: String,
    pub auth_token: Option<String>,
    pub apply: bool,
    pub config_file: Option<P>,
    pub session_aware: bool,
    pub flavor: Option<String>,
}

/// A copy of an optional text.
fn copy_text(text: &Option<String>) -> (copy: Option<String>)
    ensures
        copy == *text,
{
    match text {
        None => None,
        Some(text) => Some(text.clone()),
    }
}

/// How wiring installs the hooks and the MCP server: both applied at once,
/// against the configured server and with its token; the hooks with every
/// capture setting left at its default, the server as the static registration
/// under the name `ai-memory`.
pub fn install_args<P>(
    agent: AgentChoice,
    server_url: &String,
    auth_token: &Option<String>,
    overrides: WireOverrides<P>,
) -> (args: (InstallHooksArgs<P>, InstallMcpArgs<P>))
    ensures
        args.0 == (InstallHooksArgs {
            agent,
            hooks_dir: overrides.hooks_dir,
            server_url: Some(*server_url),
            auth_token: *auth_token,
            as_user: None,
            apply: true,
            config_file: overrides.hooks_config_file,
            project_strategy: None,
            capture_assistant: false,
            capture_mode: None,
            no_capture_prompts: false,
            capture_prompts: false,
            profile: None,
        }),
        args.1.server_url == Some(*server_url),
        args.1.name@ == "ai-memory"@,
        args.1.auth_token == *auth_token,
        args.1.apply,
        args.1.config_file == overrides.mcp_config_file,
        !args.1.session_aware,
        args.1.flavor is None,
{
    let hooks = InstallHooksArgs {
        agent,
        hooks_dir: overrides.hooks_dir,
        server_url: Some(server_url.clone()),
        auth_token: copy_text(auth_token),
        as_user: None,
        apply: true,
        config_file: overrides.hooks_config_file,
        project_strategy: None,
        capture_assistant: false,
        capture_mode: None,
        no_capture_prompts: false,
        capture_prompts: false,
        profile: None,
    };
    let mcp = InstallMcpArgs {
        server_url: Some(server_url.clone()),
        name: "ai-memory".to_owned(),
        auth_token: copy_text(auth_token),
        apply: true,
        config_file: overrides.mcp_config_file,
        session_aware: false,
        flavor: None,
    };
    (hooks, mcp)
}

/// Each harness is wired as its own agent.
pub proof fn a_harness_is_wired_as_its_own_agent(harness: ManagedHarness)
    ensures
        harness == ManagedHarness::Claude <==> agent_of(harness) == Some(AgentChoice::ClaudeCode),
        harness == ManagedHarness::Codex <==> agent_of(harness) == Some(AgentChoice::Codex),
        harness == ManagedHarness::OpenCode <==> agent_of(harness) == Some(AgentChoice::OpenCode),
        harness == ManagedHarness::OpenCode2 <==> agent_of(harness) == Some(
            AgentChoice::OpenCode2,
        ),
        harness == ManagedHarness::Pi <==> agent_of(harness) == Some(AgentChoice::Pi),
        harness == ManagedHarness::Omp <==> agent_of(harness) == Some(AgentChoice::Omp),
        harness == ManagedHarness::Kimi <==> agent_of(harness) == Some(AgentChoice::KimiCode),
        harness == ManagedHarness::CommandCode <==> agent_of(harness) == Some(
            AgentChoice::CommandCode,
        ),
        harness == ManagedHarness::Kiro <==> agent_of(harness) == Some(AgentChoice::KiroCli),
        harness == ManagedHarness::KiroV3 <==> agent_of(harness) == Some(AgentChoice::KiroCliV3),
        harness == ManagedHarness::Grok <==> agent_of(harness) == Some(AgentChoice::Grok),
        harness == ManagedHarness::Antigravity <==> agent_of(harness) == Some(
            AgentChoice::AntigravityCli,
        ),
        harness == ManagedHarness::Crush <==> agent_of(harness) is None,
{
}

/// A mark is the file `autowire-state/<agent>-<version>` below the data
/// directory.
pub proof fn a_mark_is_named_after_agent_and_version(
    data_dir: Seq<u8>,
    agent: Seq<char>,
    version: Seq<char>,
)
    requires
        vstd::utf8::encode_utf8(agent + "-"@ + version)[0] != 47u8,
    ensures
        ({
            let below = vstd::utf8::encode_utf8("autowire-state"@) + seq![47u8]
                + vstd::utf8::encode_utf8(agent + "-"@ + version);
            mark_of(data_dir, agent, version) == if data_dir.len() == 0 || data_dir.last()
                == 47u8 {
                data_dir + below
            } else {
                data_dir + seq![47u8] + below
            }
        }),
{
    reveal_strlit("autowire-state");
    let name = "autowire-state"@;
    assert(vstd::utf8::is_ascii_chars(name));
    vstd::utf8::is_ascii_chars_encode_utf8(name);
    let state = vstd::utf8::encode_utf8(name);
    assert(state[0] == 97u8 && state.last() == 101u8);
    let dir = text::joined(data_dir, state);
    assert(dir.last() == 101u8);
    let leaf = vstd::utf8::encode_utf8(agent + "-"@ + version);
    let below = state + seq![47u8] + leaf;
    assert(mark_of(data_dir, agent, version) == dir.push(47u8) + leaf);
    if data_dir.len() == 0 || data_dir.last() == 47u8 {
        assert(dir.push(47u8) + leaf == data_dir + below);
    } else {
        assert(dir.push(47u8) + leaf == data_dir + seq![47u8] + below);
    }
}

/// The operator is told of a first launch, of a bridge that is kept and of an
/// installation that failed, and of nothing else. A notice of a failure holds
/// the reason and the command that does it by hand.
pub proof fn the_operator_is_told_what_matters(
    harness: Seq<char>,
    agent: Seq<char>,
    event: WireEvent,
    reason: String,
)
    ensures
        notice_after(harness, agent, event) is Some <==> {
            ||| event == (WireEvent::Mark { present: false })
            ||| event == WireEvent::Mcp(McpProbe::SessionAware)
            ||| event matches WireEvent::Hooks(error) && error is Some
            ||| event matches WireEvent::McpServer(error) && error is Some
        },
        notice_after(harness, agent, WireEvent::Mark { present: false }) == Some(
            "ai-memory: first managed launch of "@ + harness
                + " here — wiring its ai-memory hooks + MCP so capture and recall work (disable with --no-autowire or AI_MEMORY_RUN_AUTOWIRE=false)."@,
        ),
        notice_after(harness, agent, WireEvent::Mcp(McpProbe::SessionAware)) == Some(
            "ai-memory: keeping the existing session-aware "@ + harness
                + " MCP bridge; not overwriting it with the static HTTP registration."@,
        ),
        notice_after(harness, agent, WireEvent::Hooks(Some(reason))) == Some(
            "ai-memory: could not auto-install "@ + harness + " hooks ("@ + reason@
                + "); continuing launch. Wire them manually with `ai-memory install-hooks --agent "@
                + agent + " --apply`."@,
        ),
        notice_after(harness, agent, WireEvent::McpServer(Some(reason))) == Some(
            "ai-memory: could not auto-install the "@ + harness + " MCP server ("@ + reason@
                + "); continuing launch. Wire it manually with `ai-memory install-mcp --client "@
                + agent + " --apply`."@,
        ),
{
}

} // verus!
