//! The report of the coverage check, and how it is shown.

use vstd::prelude::*;
use vstd::string::*;

use crate::coverage::{CoverageRow, Row};
use crate::text;

verus! {

/// The coverage of a project.
#[derive(Debug)]
pub struct DoctorReport {
    pub workspace: String,
    pub project: String,
    /// The URL of the server that was asked.
    pub server: String,
    /// The recent window in days; zero means all sessions.
    pub since_days: u32,
    pub rows: Vec<CoverageRow>,
    /// The agent kinds that are flagged as uncaptured.
    pub uncaptured: Vec<String>,
}

/// The agent kinds of the flagged rows, in their order.
pub open spec fn flagged(rows: Seq<Row>) -> Seq<Seq<char>>
    decreases rows.len(),
{
    if rows.len() == 0 {
        Seq::empty()
    } else if rows.last().uncaptured {
        flagged(rows.drop_last()).push(rows.last().agent)
    } else {
        flagged(rows.drop_last())
    }
}

/// The agent kinds of the flagged rows.
fn flagged_agents(rows: &Vec<CoverageRow>) -> (agents: Vec<String>)
    ensures
        agents.deep_view() == flagged(crate::coverage::row_texts(rows@)),
{
    let mut agents: Vec<String> = Vec::new();
    let ghost texts = crate::coverage::row_texts(rows@);
    assert(agents.deep_view() == flagged(texts.take(0)));
    for n in 0..rows.len()
        invariant
            texts == crate::coverage::row_texts(rows@),
            agents.deep_view() == flagged(texts.take(n as int)),
    {
        let row = &rows[n];
        let ghost before = agents.deep_view();
        assert(texts.take(n + 1).drop_last() == texts.take(n as int));
        assert(texts.take(n + 1).last() == row@);
        if row.uncaptured {
            agents.push(row.agent.clone());
            assert(agents.deep_view() == before.push(row.agent@));
        }
    }
    assert(texts.take(texts.len() as int) == texts);
    agents
}

/// Puts the report together; it lists the flagged agent kinds once more, for
/// scripts.
pub fn build_report(
    workspace: String,
    project: String,
    server: String,
    since_days: u32,
    rows: Vec<CoverageRow>,
) -> (report: DoctorReport)
    ensures
        report.workspace == workspace,
        report.project == project,
        report.server == server,
        report.since_days == since_days,
        report.rows == rows,
        report.uncaptured.deep_view() == flagged(crate::coverage::row_texts(rows@)),
{
    let uncaptured = flagged_agents(&rows);
    DoctorReport { workspace, project, server, since_days, rows, uncaptured }
}

/// The flagged agent kinds are those of the leading rows, up to the first row
/// that is not flagged.
pub proof fn the_flagged_agents_lead(
    local: Seq<crate::coverage::LocalScan>,
    captured: Seq<crate::counts::AgentCount>,
    rows: Seq<Row>,
)
    requires
        crate::coverage::covers(local, captured, rows),
    ensures
        flagged(rows).len() <= rows.len(),
        forall|i: int| 0 <= i < rows.len() ==> ((#[trigger] rows[i]).uncaptured <==> i < flagged(
            rows,
        ).len()),
        forall|i: int| 0 <= i < flagged(rows).len() ==> #[trigger] flagged(rows)[i]
            == rows[i].agent,
{
    crate::coverage::warnings_lead_and_are_exact(local, captured, rows);
    flagged_prefix(rows);
}

proof fn flagged_prefix(rows: Seq<Row>)
    requires
        forall|i: int, j: int|
            0 <= i < j < rows.len() && (#[trigger] rows[j]).uncaptured ==> (
            #[trigger] rows[i]).uncaptured,
    ensures
        flagged(rows).len() <= rows.len(),
        forall|i: int| 0 <= i < rows.len() ==> ((#[trigger] rows[i]).uncaptured <==> i < flagged(
            rows,
        ).len()),
        forall|i: int| 0 <= i < flagged(rows).len() ==> #[trigger] flagged(rows)[i]
            == rows[i].agent,
    decreases rows.len(),
{
    if rows.len() > 0 {
        let before = rows.drop_last();
        assert forall|i: int, j: int| 0 <= i < j < before.len() && (
        #[trigger] before[j]).uncaptured implies (#[trigger] before[i]).uncaptured by {
            assert(rows[j].uncaptured && rows[i] == before[i]);
        }
        flagged_prefix(before);
        assert forall|i: int| 0 <= i < rows.len() implies ((#[trigger] rows[i]).uncaptured <==> i
            < flagged(rows).len()) by {
            if i < before.len() {
                assert(before[i] == rows[i]);
                if rows.last().uncaptured {
                    assert(rows[i].uncaptured);
                }
            } else if rows.last().uncaptured && before.len() > 0 {
                assert(before.last() == rows[before.len() - 1]);
            }
        }
        assert forall|i: int| 0 <= i < flagged(rows).len() implies #[trigger] flagged(rows)[i]
            == rows[i].agent by {
            if i < flagged(before).len() {
                assert(flagged(before)[i] == before[i].agent);
            } else if before.len() > 0 {
                assert(before.last() == rows[before.len() - 1]);
            }
        }
    }
}

/// The texts one after the other, with a comma between two of them.
pub open spec fn comma_separated(parts: Seq<Seq<char>>) -> Seq<char>
    decreases parts.len(),
{
    if parts.len() == 0 {
        Seq::empty()
    } else if parts.len() == 1 {
        parts[0]
    } else {
        comma_separated(parts.drop_last()) + ", "@ + parts.last()
    }
}

/// Joins the texts with a comma between two of them.
fn join_with_commas(parts: &Vec<String>) -> (list: String)
    ensures
        list@ == comma_separated(parts.deep_view()),
{
    let mut list = String::new();
    let ghost texts = parts.deep_view();
    for n in 0..parts.len()
        invariant
            texts == parts.deep_view(),
            list@ == comma_separated(texts.take(n as int)),
    {
        assert(texts.take(n + 1).drop_last() == texts.take(n as int));
        assert(texts.take(n + 1).last() == parts@[n as int]@);
        if n > 0 {
            list.append(", ");
        }
        list.append(parts[n].as_str());
    }
    assert(texts.take(texts.len() as int) == texts);
    list
}

/// The first lines: the project, the server and the recent window.
pub open spec fn heading(report: DoctorReport) -> Seq<char> {
    let window = if report.since_days == 0 {
        "  recent window: all on-disk sessions\n\n"@
    } else {
        "  recent window: last "@ + text::decimal(report.since_days as nat) + " days\n\n"@
    };
    "Capture coverage for "@ + report.workspace@ + "/"@ + report.project@ + " (server "@
        + report.server@ + ")\n"@ + window
}

/// The lines of one row; a flagged one says how to install the hook.
pub open spec fn row_lines(row: Row) -> Seq<char> {
    let mark = if row.uncaptured {
        "⚠"@
    } else {
        "✓"@
    };
    let hint = if row.uncaptured {
        "      └ ran here but nothing was captured — install its hook:\n        ai-memory install-hooks --agent "@
            + row.agent + " --apply\n"@
    } else {
        Seq::empty()
    };
    "  "@ + mark + " "@ + text::left_aligned(row.agent, 14) + " "@ + text::right_aligned(
        text::decimal(row.local_total),
        4,
    ) + " local ("@ + text::decimal(row.local_recent) + " recent) → "@ + text::right_aligned(
        text::decimal(row.captured),
        4,
    ) + " captured\n"@ + hint
}

/// The lines of all rows.
pub open spec fn table(rows: Seq<Row>) -> Seq<char>
    decreases rows.len(),
{
    if rows.len() == 0 {
        Seq::empty()
    } else {
        table(rows.drop_last()) + row_lines(rows.last())
    }
}

/// The last lines: all is well, or how many harnesses are not captured.
pub open spec fn closing(uncaptured: Seq<Seq<char>>) -> Seq<char> {
    if uncaptured.len() == 0 {
        "\n✓ Every harness that ran in this project recently is captured on the server.\n"@
    } else {
        "\n⚠ "@ + text::decimal(uncaptured.len())
            + " harness(es) ran here recently with no captured sessions: "@ + comma_separated(
            uncaptured,
        )
            + ".\n  Install the hook(s) above, then re-run `ai-memory doctor` to confirm.\n"@
    }
}

/// The report as it is shown to a person.
pub open spec fn shown_report(report: DoctorReport) -> Seq<char> {
    if report.rows@.len() == 0 {
        heading(report)
            + "  No local harness sessions found for this project and nothing captured yet.\n"@
    } else {
        heading(report) + table(crate::coverage::row_texts(report.rows@)) + closing(
            report.uncaptured.deep_view(),
        )
    }
}

/// Renders the first lines.
fn render_heading(report: &DoctorReport) -> (lines: String)
    ensures
        lines@ == heading(*report),
{
    let mut lines = "Capture coverage for ".to_owned();
    lines.append(report.workspace.as_str());
    lines.append("/");
    lines.append(report.project.as_str());
    lines.append(" (server ");
    lines.append(report.server.as_str());
    lines.append(")\n");
    let ghost first = lines@;
    if report.since_days == 0 {
        lines.append("  recent window: all on-disk sessions\n\n");
    } else {
        lines.append("  recent window: last ");
        lines.append(text::decimal_of(report.since_days as u64).as_str());
        lines.append(" days\n\n");
        assert(lines@ == first + ("  recent window: last "@ + text::decimal(
            report.since_days as nat,
        ) + " days\n\n"@));
    }
    lines
}

/// Renders one row.
fn render_row(row: &CoverageRow) -> (lines: String)
    ensures
        lines@ == row_lines(row@),
{
    let mut lines = "  ".to_owned();
    if row.uncaptured {
        lines.append("⚠");
    } else {
        lines.append("✓");
    }
    lines.append(" ");
    lines.append(text::pad_right(row.agent.as_str(), 14).as_str());
    lines.append(" ");
    lines.append(text::pad_left(text::decimal_of(row.local_total as u64).as_str(), 4).as_str());
    lines.append(" local (");
    lines.append(text::decimal_of(row.local_recent as u64).as_str());
    lines.append(" recent) → ");
    lines.append(text::pad_left(text::decimal_of(row.captured).as_str(), 4).as_str());
    lines.append(" captured\n");
    let ghost first = lines@;
    if row.uncaptured {
        lines.append(
            "      └ ran here but nothing was captured — install its hook:\n        ai-memory install-hooks --agent ",
        );
        lines.append(row.agent.as_str());
        lines.append(" --apply\n");
        assert(lines@ == first
            + ("      └ ran here but nothing was captured — install its hook:\n        ai-memory install-hooks --agent "@
            + row.agent@ + " --apply\n"@));
    } else {
        assert(first + Seq::<char>::empty() == first);
    }
    lines
}

/// Renders the last lines.
fn render_closing(uncaptured: &Vec<String>) -> (lines: String)
    ensures
        lines@ == closing(uncaptured.deep_view()),
{
    if uncaptured.len() == 0 {
        "\n✓ Every harness that ran in this project recently is captured on the server.\n".to_owned()
    } else {
        let mut lines = "\n⚠ ".to_owned();
        lines.append(text::decimal_of(uncaptured.len() as u64).as_str());
        lines.append(" harness(es) ran here recently with no captured sessions: ");
        lines.append(join_with_commas(uncaptured).as_str());
        lines.append(
            ".\n  Install the hook(s) above, then re-run `ai-memory doctor` to confirm.\n",
        );
        lines
    }
}

/// Renders the report for a person.
pub fn render_human(report: &DoctorReport) -> (lines: String)
    ensures
        lines@ == shown_report(*report),
{
    let mut lines = render_heading(report);
    if report.rows.len() == 0 {
        lines.append(
            "  No local harness sessions found for this project and nothing captured yet.\n",
        );
        return lines;
    }
    let ghost first = lines@;
    let ghost texts = crate::coverage::row_texts(report.rows@);
    assert(first + table(texts.take(0)) == first);
    for n in 0..report.rows.len()
        invariant
            texts == crate::coverage::row_texts(report.rows@),
            lines@ == first + table(texts.take(n as int)),
    {
        assert(texts.take(n + 1).drop_last() == texts.take(n as int));
        assert(texts.take(n + 1).last() == report.rows@[n as int]@);
        lines.append(render_row(&report.rows[n]).as_str());
        assert(lines@ == first + table(texts.take(n + 1)));
    }
    assert(texts.take(texts.len() as int) == texts);
    lines.append(render_closing(&report.uncaptured).as_str());
    lines
}

/// The flagged agents are those of the flagged rows, in their order.
pub proof fn the_flagged_agents_are_those_of_the_flagged_rows(rows: Seq<Row>)
    ensures
        flagged(rows) == rows.filter(|row: Row| row.uncaptured).map_values(|row: Row| row.agent),
    decreases rows.len(),
{
    reveal(Seq::filter);
    let keep = |row: Row| row.uncaptured;
    let name = |row: Row| row.agent;
    if rows.len() > 0 {
        let before = rows.drop_last();
        the_flagged_agents_are_those_of_the_flagged_rows(before);
        if rows.last().uncaptured {
            assert(before.filter(keep).push(rows.last()).map_values(name) == before.filter(
                keep,
            ).map_values(name).push(rows.last().agent));
        }
    }
}

/// A list of one is that one; one more is added after a comma and a space.
pub proof fn a_list_grows_by_a_comma_and_a_part(parts: Seq<Seq<char>>, part: Seq<char>)
    ensures
        comma_separated(seq![part]) == part,
        parts.len() > 0 ==> comma_separated(parts.push(part)) == comma_separated(parts) + ", "@
            + part,
        comma_separated(Seq::empty()).len() == 0,
{
    assert(parts.push(part).drop_last() == parts);
}

/// Each row adds its own lines below those of the rows before it.
pub proof fn a_row_adds_its_lines(rows: Seq<Row>, row: Row)
    ensures
        table(rows.push(row)) == table(rows) + row_lines(row),
        table(Seq::empty()).len() == 0,
{
    assert(rows.push(row).drop_last() == rows);
}

/// A row shows its agent in 14 columns, then the local sessions, the recent ones
/// and the captured ones. A flagged row is marked and followed by the command
/// that installs the hook of its agent; another one is ticked and has no more.
pub proof fn a_row_shows_its_numbers(row: Row)
    ensures
        ({
            let numbers = text::left_aligned(row.agent, 14) + " "@ + text::right_aligned(
                text::decimal(row.local_total),
                4,
            ) + " local ("@ + text::decimal(row.local_recent) + " recent) → "@
                + text::right_aligned(text::decimal(row.captured), 4) + " captured\n"@;
            &&& row.uncaptured ==> row_lines(row) == "  "@ + "⚠"@ + " "@ + numbers
                + "      └ ran here but nothing was captured — install its hook:\n        ai-memory install-hooks --agent "@
                + row.agent + " --apply\n"@
            &&& !row.uncaptured ==> row_lines(row) == "  "@ + "✓"@ + " "@ + numbers
        }),
{
    let numbers = text::left_aligned(row.agent, 14) + " "@ + text::right_aligned(
        text::decimal(row.local_total),
        4,
    ) + " local ("@ + text::decimal(row.local_recent) + " recent) → "@ + text::right_aligned(
        text::decimal(row.captured),
        4,
    ) + " captured\n"@;
    if row.uncaptured {
        assert(row_lines(row) == "  "@ + "⚠"@ + " "@ + numbers
            + "      └ ran here but nothing was captured — install its hook:\n        ai-memory install-hooks --agent "@
            + row.agent + " --apply\n"@);
    } else {
        assert(row_lines(row) == "  "@ + "✓"@ + " "@ + numbers);
    }
}

/// The report opens with its project, its server and its window. It then says
/// that there is nothing to show, or it lists the rows and closes with the
/// flagged agents: how many they are and which, or that there is none.
pub proof fn the_report_shows_everything(report: DoctorReport)
    ensures
        ({
            let shown = shown_report(report);
            let window = if report.since_days == 0 {
                "  recent window: all on-disk sessions\n\n"@
            } else {
                "  recent window: last "@ + text::decimal(report.since_days as nat) + " days\n\n"@
            };
            let opening = "Capture coverage for "@ + report.workspace@ + "/"@ + report.project@
                + " (server "@ + report.server@ + ")\n"@ + window;
            let rows = table(crate::coverage::row_texts(report.rows@));
            let names = comma_separated(report.uncaptured.deep_view());
            &&& report.rows@.len() == 0 ==> shown == opening
                + "  No local harness sessions found for this project and nothing captured yet.\n"@
            &&& report.rows@.len() > 0 && report.uncaptured@.len() == 0 ==> shown == opening + rows
                + "\n✓ Every harness that ran in this project recently is captured on the server.\n"@
            &&& report.rows@.len() > 0 && report.uncaptured@.len() > 0 ==> shown == opening + rows
                + ("\n⚠ "@ + text::decimal(report.uncaptured@.len())
                + " harness(es) ran here recently with no captured sessions: "@ + names
                + ".\n  Install the hook(s) above, then re-run `ai-memory doctor` to confirm.\n"@)
        }),
{
    assert(report.uncaptured.deep_view().len() == report.uncaptured@.len());
}

} // verus!
