//! The server's side of the story: how many sessions it captured per agent.

use vstd::prelude::*;
use vstd::string::*;

use crate::text;

verus! {

/// How many sessions of one agent kind the server captured for a project.
#[derive(Debug)]
pub struct AgentCount {
    /// The kebab-case agent kind.
    pub agent: String,
    pub sessions: u64,
}

/// What asking the server for a project's counts gave.
#[derive(Debug)]
pub enum CountsReply {
    /// The counts.
    Counts(Vec<AgentCount>),
    /// The project does not exist on the server yet.
    ScopeNotFound,
    /// The request failed, for this reason.
    Failed(String),
}

/// The number of captured sessions over all agents.
pub open spec fn captured_total(counts: Seq<AgentCount>) -> nat
    decreases counts.len(),
{
    if counts.len() == 0 {
        0
    } else {
        captured_total(counts.drop_last()) + counts.last().sessions as nat
    }
}

/// A count above zero makes the total one.
proof fn a_count_makes_a_total(counts: Seq<AgentCount>, n: int)
    requires
        0 <= n < counts.len(),
        counts[n].sessions > 0,
    ensures
        captured_total(counts) > 0,
    decreases counts.len(),
{
    if n < counts.len() - 1 {
        assert(counts.drop_last()[n] == counts[n]);
        a_count_makes_a_total(counts.drop_last(), n);
    }
}

/// The error of a failed request: what it was for, and why it failed.
pub open spec fn failure_of(
    before: Seq<char>,
    workspace: Seq<char>,
    project: Seq<char>,
    after: Seq<char>,
    reason: Seq<char>,
) -> Seq<char> {
    before + workspace + "/"@ + project + after + ": "@ + reason
}

/// The error of a failed request.
fn failure_text(
    before: &str,
    workspace: &str,
    project: &str,
    after: &str,
    reason: &str,
) -> (message: String)
    ensures
        message@ == failure_of(before@, workspace@, project@, after@, reason@),
{
    let mut message = before.to_owned();
    message.append(workspace);
    message.append("/");
    message.append(project);
    message.append(after);
    message.append(": ");
    message.append(reason);
    message
}

/// Whether the counts are all zero.
fn nothing_captured(counts: &Vec<AgentCount>) -> (empty: bool)
    ensures
        empty == (captured_total(counts@) == 0),
{
    for n in 0..counts.len()
        invariant
            captured_total(counts@.take(n as int)) == 0,
    {
        if counts[n].sessions > 0 {
            proof {
                a_count_makes_a_total(counts@, n as int);
            }
            return false;
        }
        assert(counts@.take(n + 1).drop_last() == counts@.take(n as int));
    }
    assert(counts@.take(counts@.len() as int) == counts@);
    true
}

/// Whether the project's store is empty: no session of any agent was captured.
/// A project that the server does not know was never written to, so it is.
pub fn project_is_empty(reply: &CountsReply, workspace: &str, project: &str) -> (result: Result<
    bool,
    String,
>)
    ensures
        match *reply {
            CountsReply::Counts(counts) => result == Ok::<bool, String>(
                captured_total(counts@) == 0,
            ),
            CountsReply::ScopeNotFound => result == Ok::<bool, String>(true),
            CountsReply::Failed(reason) => result matches Err(message) && message@ == failure_of(
                "checking whether "@,
                workspace@,
                project@,
                " already has captured sessions"@,
                reason@,
            ),
        },
{
    match reply {
        CountsReply::Counts(counts) => Ok(nothing_captured(counts)),
        CountsReply::ScopeNotFound => Ok(true),
        CountsReply::Failed(reason) => Err(
            failure_text(
                "checking whether ",
                workspace,
                project,
                " already has captured sessions",
                reason.as_str(),
            ),
        ),
    }
}

/// The counts that the server gave; none for a project that it does not know,
/// into which nothing was captured.
pub fn captured_counts(reply: CountsReply, workspace: &str, project: &str) -> (result: Result<
    Vec<AgentCount>,
    String,
>)
    ensures
        match reply {
            CountsReply::Counts(counts) => result matches Ok(captured) && captured@ == counts@,
            CountsReply::ScopeNotFound => result matches Ok(captured) && captured@.len() == 0,
            CountsReply::Failed(reason) => result matches Err(message) && message@ == failure_of(
                "asking the server for captured session counts for "@,
                workspace@,
                project@,
                Seq::empty(),
                reason@,
            ),
        },
{
    match reply {
        CountsReply::Counts(counts) => Ok(counts),
        CountsReply::ScopeNotFound => Ok(Vec::new()),
        CountsReply::Failed(reason) => {
            proof {
                reveal_strlit("");
                assert(""@ == Seq::<char>::empty());
            }
            Err(
                failure_text(
                    "asking the server for captured session counts for ",
                    workspace,
                    project,
                    "",
                    reason.as_str(),
                ),
            )
        },
    }
}

/// The sessions that the server captured of one agent kind: those of the last
/// count with its name, none when there is no such count.
pub open spec fn captured_of(counts: Seq<AgentCount>, agent: Seq<char>) -> u64
    decreases counts.len(),
{
    if counts.len() == 0 {
        0
    } else if counts.last().agent@ == agent {
        counts.last().sessions
    } else {
        captured_of(counts.drop_last(), agent)
    }
}

/// The sessions that the server captured of one agent kind.
pub fn captured_sessions(counts: &Vec<AgentCount>, agent: &str) -> (sessions: u64)
    ensures
        sessions == captured_of(counts@, agent@),
{
    let mut n: usize = counts.len();
    assert(counts@.take(n as int) == counts@);
    while n > 0
        invariant
            n <= counts.len(),
            captured_of(counts@, agent@) == captured_of(counts@.take(n as int), agent@),
        decreases n,
    {
        let count = &counts[n - 1];
        assert(counts@.take(n as int).last() == *count);
        assert(counts@.take(n as int).drop_last() == counts@.take(n - 1));
        if text::same_text(count.agent.as_str(), agent) {
            return count.sessions;
        }
        n -= 1;
    }
    0
}

/// An empty store is one in which no agent has a captured session.
pub proof fn an_empty_store_has_no_captured_agent(counts: Seq<AgentCount>, agent: Seq<char>)
    requires
        captured_total(counts) == 0,
    ensures
        captured_of(counts, agent) == 0,
    decreases counts.len(),
{
    if counts.len() > 0 {
        an_empty_store_has_no_captured_agent(counts.drop_last(), agent);
    }
}

/// The captured sessions of an agent are those of the last count with its name,
/// wherever that stands among the others.
pub proof fn the_last_count_of_an_agent_holds(counts: Seq<AgentCount>, i: int)
    requires
        0 <= i < counts.len(),
        forall|j: int| i < j < counts.len() ==> (#[trigger] counts[j]).agent@ != counts[i].agent@,
    ensures
        captured_of(counts, counts[i].agent@) == counts[i].sessions,
    decreases counts.len(),
{
    if i < counts.len() - 1 {
        let before = counts.drop_last();
        assert(counts[counts.len() - 1].agent@ != counts[i].agent@);
        assert(before[i] == counts[i]);
        assert forall|j: int| i < j < before.len() implies (#[trigger] before[j]).agent@
            != before[i].agent@ by {
            assert(counts[j].agent@ != counts[i].agent@);
        }
        the_last_count_of_an_agent_holds(before, i);
    }
}

/// An agent that no count names has no captured sessions.
pub proof fn an_uncounted_agent_has_no_captured_sessions(
    counts: Seq<AgentCount>,
    agent: Seq<char>,
)
    requires
        forall|i: int| 0 <= i < counts.len() ==> (#[trigger] counts[i]).agent@ != agent,
    ensures
        captured_of(counts, agent) == 0,
    decreases counts.len(),
{
    if counts.len() > 0 {
        let before = counts.drop_last();
        assert(counts[counts.len() - 1].agent@ != agent);
        assert forall|i: int| 0 <= i < before.len() implies (#[trigger] before[i]).agent@
            != agent by {
            assert(counts[i].agent@ != agent);
        }
        an_uncounted_agent_has_no_captured_sessions(before, agent);
    }
}

/// A store is empty exactly when every count is zero.
pub proof fn a_store_is_empty_when_every_count_is_zero(counts: Seq<AgentCount>)
    ensures
        captured_total(counts) == 0 <==> forall|i: int|
            0 <= i < counts.len() ==> (#[trigger] counts[i]).sessions == 0,
    decreases counts.len(),
{
    if counts.len() > 0 {
        let before = counts.drop_last();
        a_store_is_empty_when_every_count_is_zero(before);
        assert(counts.last() == counts[counts.len() - 1]);
        if captured_total(counts) == 0 {
            assert forall|i: int| 0 <= i < counts.len() implies (#[trigger] counts[i]).sessions
                == 0 by {
                if i < before.len() {
                    assert(before[i] == counts[i]);
                }
            }
        }
        if forall|i: int| 0 <= i < counts.len() ==> (#[trigger] counts[i]).sessions == 0 {
            assert forall|i: int| 0 <= i < before.len() implies (#[trigger] before[i]).sessions
                == 0 by {
                assert(counts[i].sessions == 0);
            }
        }
    }
}

/// The error of a failed request says what it was for and for which project,
/// and ends with the reason, whole.
pub proof fn a_failed_request_names_its_project_and_reason(
    before: Seq<char>,
    workspace: Seq<char>,
    project: Seq<char>,
    after: Seq<char>,
    reason: Seq<char>,
)
    ensures
        ({
            let message = failure_of(before, workspace, project, after, reason);
            let head = message.take(message.len() - reason.len());
            &&& message.skip(message.len() - reason.len()) == reason
            &&& head == before + (workspace + "/"@ + project) + after + ": "@
        }),
{
    let message = failure_of(before, workspace, project, after, reason);
    let head = before + (workspace + "/"@ + project) + after + ": "@;
    assert(message == head + reason);
    assert(message.take(head.len() as int) == head);
}

} // verus!
