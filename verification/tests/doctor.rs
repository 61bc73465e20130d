//! Capture coverage, its report and the server's counts.

use ai_memory::autowire::AgentChoice;
use ai_memory::counts::{captured_counts, captured_sessions, project_is_empty, AgentCount, CountsReply};
use ai_memory::coverage::{are_countable, build_rows, scan_local, CoverageRow, LocalScan};
use ai_memory::doctor::{build_report, render_human};
use ai_memory::harness::{HarnessListing, ManagedHarness, NativeSession};
use ai_memory::time::{is_recent, recent_cutoff, Timestamp};

/// The kebab-case name of an agent.
fn kebab(agent: AgentChoice) -> String {
    let mut name = String::new();
    for c in format!("{agent:?}").chars() {
        if c.is_ascii_uppercase() && !name.is_empty() {
            name.push('-');
        }
        name.push(c.to_ascii_lowercase());
    }
    name
}

fn scan(agent: &str, total: usize, recent: usize) -> LocalScan {
    LocalScan { agent: agent.to_string(), total, recent }
}

fn captured(pairs: &[(&str, u64)]) -> Vec<AgentCount> {
    pairs
        .iter()
        .map(|(a, n)| AgentCount { agent: (*a).to_string(), sessions: *n })
        .collect()
}

fn row<'a>(rows: &'a [CoverageRow], agent: &str) -> &'a CoverageRow {
    rows.iter()
        .find(|r| r.agent == agent)
        .unwrap_or_else(|| panic!("expected a row for {agent}; got {rows:?}"))
}

#[test]
fn recent_local_with_zero_captured_is_the_only_flagged_case() {
    // Kimi ran here recently but nothing was captured.
    let local = vec![scan("kimi-code", 2, 2)];
    let rows = build_rows(&local, &captured(&[]));
    let kimi = row(&rows, "kimi-code");
    assert!(kimi.uncaptured, "recent local + zero captured must warn");
    assert_eq!(kimi.local_recent, 2);
    assert_eq!(kimi.captured, 0);
}

#[test]
fn any_captured_session_clears_the_flag() {
    // One captured session proves the hook works even if local files differ
    // in count (resume reuse maps many local files to one server session).
    let agent = kebab(AgentChoice::ClaudeCode);
    let local = vec![scan(&agent, 12, 4)];
    let rows = build_rows(&local, &captured(&[(&agent, 3)]));
    assert!(!row(&rows, &agent).uncaptured);
}

#[test]
fn only_historical_local_sessions_do_not_warn() {
    // Local sessions exist but none are recent: not actionable.
    let local = vec![scan("codex", 5, 0)];
    let rows = build_rows(&local, &captured(&[]));
    assert!(!row(&rows, "codex").uncaptured);
}

#[test]
fn kiro_v2_and_v3_local_counts_fold_under_one_agent_kind() {
    // Both Kiro engines have one agent kind; their stores are distinct but the
    // server records one kind, so counts must sum.
    let local = vec![scan("kiro-cli", 2, 1), scan("kiro-cli", 3, 2)];
    let rows = build_rows(&local, &captured(&[]));
    let kiro = row(&rows, "kiro-cli");
    assert_eq!(kiro.local_total, 5);
    assert_eq!(kiro.local_recent, 3);
    assert!(kiro.uncaptured);
}

#[test]
fn captured_only_agent_is_shown_and_never_flagged() {
    // The server captured sessions for an agent we found no local store for
    // (e.g. it ran on another machine). Show it, but it is not a local gap.
    let rows = build_rows(&vec![], &captured(&[("gemini-cli", 4)]));
    let gemini = row(&rows, "gemini-cli");
    assert_eq!(gemini.local_total, 0);
    assert_eq!(gemini.captured, 4);
    assert!(!gemini.uncaptured);
}

#[test]
fn agents_with_neither_local_nor_captured_are_dropped() {
    let rows = build_rows(&vec![scan("codex", 0, 0)], &captured(&[]));
    assert!(rows.is_empty(), "empty rows should not be listed: {rows:?}");
}

#[test]
fn uncaptured_rows_sort_first() {
    let agent = kebab(AgentChoice::ClaudeCode);
    let local = vec![scan(&agent, 3, 1), scan("kimi-code", 2, 2)];
    let rows = build_rows(&local, &captured(&[(&agent, 3)]));
    assert_eq!(
        rows[0].agent, "kimi-code",
        "the warning must lead: {rows:?}"
    );
    assert!(rows[0].uncaptured);
}

#[test]
fn rows_of_one_kind_go_by_name_whatever_the_scan_order() {
    let counts = captured(&[("pi", 0), ("grok", 2), ("codex", 1), ("grok", 5)]);
    let forward = build_rows(&vec![scan("omp", 1, 1), scan("kimi-code", 1, 1), scan("codex", 9, 0)], &counts);
    let backward = build_rows(&vec![scan("codex", 9, 0), scan("kimi-code", 1, 1), scan("omp", 1, 1)], &counts);
    for rows in [&forward, &backward] {
        let names: Vec<&str> = rows.iter().map(|r| r.agent.as_str()).collect();
        assert_eq!(names, vec!["kimi-code", "omp", "codex", "grok"]);
        assert_eq!(rows[3].captured, 5, "the later count replaces the earlier one");
    }
}

#[test]
fn the_flag_needs_recent_sessions_and_no_captured_one() {
    assert!(CoverageRow::compute_uncaptured(1, 0));
    assert!(!CoverageRow::compute_uncaptured(0, 0));
    assert!(!CoverageRow::compute_uncaptured(1, 1));
}

#[test]
fn counts_are_countable_per_agent_kind() {
    assert!(are_countable(&Vec::new()));
    assert!(are_countable(&vec![scan("codex", usize::MAX, 1), scan("kiro-cli", usize::MAX, 1)]));
    assert!(!are_countable(&vec![scan("codex", usize::MAX, 0), scan("codex", 1, 0)]));
    assert!(!are_countable(&vec![scan("codex", 0, usize::MAX), scan("codex", 0, 1)]));
}

fn now() -> Timestamp {
    let since_epoch = std::time::SystemTime::now()
        .duration_since(std::time::UNIX_EPOCH)
        .unwrap();
    Timestamp { secs: since_epoch.as_secs() as i64, nanos: since_epoch.subsec_nanos() }
}

#[test]
fn recent_cutoff_zero_means_everything_recent() {
    assert!(recent_cutoff(now(), 0).is_none());
    assert!(is_recent(Timestamp { secs: 0, nanos: 0 }, None));
}

#[test]
fn recent_cutoff_excludes_old_sessions() {
    let now = now();
    let cutoff = recent_cutoff(now, 30);
    let old = Timestamp { secs: now.secs - 31 * 86_400, nanos: now.nanos };
    let fresh = Timestamp { secs: now.secs - 86_400, nanos: now.nanos };
    assert!(!is_recent(old, cutoff));
    assert!(is_recent(fresh, cutoff));
}

#[test]
fn the_window_includes_its_first_instant() {
    let now = Timestamp { secs: 864_000, nanos: 5 };
    let cutoff = recent_cutoff(now, 2);
    assert_eq!(cutoff, Some(Timestamp { secs: 691_200, nanos: 5 }));
    assert!(is_recent(Timestamp { secs: 691_200, nanos: 5 }, cutoff));
    assert!(!is_recent(Timestamp { secs: 691_200, nanos: 4 }, cutoff));
    // A bound that cannot be represented is none.
    assert!(recent_cutoff(Timestamp { secs: i64::MIN, nanos: 0 }, 1).is_none());
}

fn listing(harness: ManagedHarness, agent: &str, ages: Option<Vec<i64>>) -> HarnessListing {
    HarnessListing {
        harness,
        agent: agent.to_string(),
        sessions: ages.map(|list| {
            list.into_iter()
                .map(|age| NativeSession {
                    native_session_id: format!("s{age}"),
                    updated_at: Timestamp { secs: 10_000_000 - age, nanos: 0 },
                })
                .collect()
        }),
    }
}

#[test]
fn scans_count_all_and_recent_sessions_of_readable_stores() {
    let listings = vec![
        listing(ManagedHarness::Grok, "grok", Some(vec![10, 86_401, 86_400])),
        listing(ManagedHarness::Codex, "codex", None),
        listing(ManagedHarness::Pi, "pi", Some(vec![])),
        listing(ManagedHarness::Kiro, "kiro-cli", Some(vec![200_000])),
    ];
    let now = Timestamp { secs: 10_000_000, nanos: 0 };
    let scans = scan_local(&listings, now, 1);
    assert_eq!(scans.len(), 2);
    assert_eq!((scans[0].agent.as_str(), scans[0].total, scans[0].recent), ("grok", 3, 2));
    assert_eq!((scans[1].agent.as_str(), scans[1].total, scans[1].recent), ("kiro-cli", 1, 0));
    let all = scan_local(&listings, now, 0);
    assert_eq!(all[1].recent, 1, "a window of zero days makes it recent");
}

#[test]
fn an_unknown_project_is_empty_and_nothing_is_captured_of_it() {
    assert_eq!(project_is_empty(&CountsReply::ScopeNotFound, "w", "p"), Ok(true));
    assert!(captured_counts(CountsReply::ScopeNotFound, "w", "p").unwrap().is_empty());
}

#[test]
fn a_project_is_empty_when_all_counts_are_zero() {
    let zero = CountsReply::Counts(captured(&[("grok", 0), ("codex", 0)]));
    assert_eq!(project_is_empty(&zero, "w", "p"), Ok(true));
    let some = CountsReply::Counts(captured(&[("grok", 0), ("codex", 1)]));
    assert_eq!(project_is_empty(&some, "w", "p"), Ok(false));
    let huge = CountsReply::Counts(captured(&[("a", u64::MAX), ("b", 1)]));
    assert_eq!(project_is_empty(&huge, "w", "p"), Ok(false));
    let counts = captured_counts(some, "w", "p").unwrap();
    assert_eq!(captured_sessions(&counts, "codex"), 1);
    assert_eq!(captured_sessions(&counts, "pi"), 0);
}

#[test]
fn a_failed_request_says_what_it_was_for() {
    assert_eq!(
        project_is_empty(&CountsReply::Failed("refused".to_string()), "w", "p"),
        Err("checking whether w/p already has captured sessions: refused".to_string())
    );
    assert_eq!(
        captured_counts(CountsReply::Failed("refused".to_string()), "w", "p").unwrap_err(),
        "asking the server for captured session counts for w/p: refused"
    );
}

#[test]
fn the_report_is_rendered_with_its_warnings_first() {
    let local = vec![scan("antigravity-cli", 12, 4), scan("kimi-code", 2, 1), scan("omp", 12345, 3)];
    let rows = build_rows(&local, &captured(&[("antigravity-cli", 30)]));
    let report = build_report(
        "w".to_string(),
        "p".to_string(),
        "http://h".to_string(),
        30,
        rows,
    );
    assert_eq!(report.uncaptured, vec!["kimi-code", "omp"]);
    assert_eq!(
        render_human(&report),
        "Capture coverage for w/p (server http://h)\n  recent window: last 30 days\n\n\
         \u{20}\u{20}⚠ kimi-code         2 local (1 recent) →    0 captured\n\
         \u{20}     └ ran here but nothing was captured — install its hook:\n        ai-memory install-hooks --agent kimi-code --apply\n\
         \u{20}\u{20}⚠ omp            12345 local (3 recent) →    0 captured\n\
         \u{20}     └ ran here but nothing was captured — install its hook:\n        ai-memory install-hooks --agent omp --apply\n\
         \u{20}\u{20}✓ antigravity-cli   12 local (4 recent) →   30 captured\n\
         \n⚠ 2 harness(es) ran here recently with no captured sessions: kimi-code, omp.\n  Install the hook(s) above, then re-run `ai-memory doctor` to confirm.\n"
    );
    // The columns are those of the standard formatter.
    let row = &report.rows[0];
    let line = format!(
        "  ⚠ {:<14} {:>4} local ({} recent) → {:>4} captured\n",
        row.agent, row.local_total, row.local_recent, row.captured
    );
    assert!(render_human(&report).contains(&line));
}

#[test]
fn a_covered_or_untouched_project_says_so() {
    let rows = build_rows(&vec![scan("codex", 1, 1)], &captured(&[("codex", 1)]));
    let covered = build_report("w".to_string(), "p".to_string(), "s".to_string(), 0, rows);
    assert!(covered.uncaptured.is_empty());
    let text = render_human(&covered);
    assert!(text.starts_with("Capture coverage for w/p (server s)\n  recent window: all on-disk sessions\n\n  ✓ codex "));
    assert!(text.ends_with(
        "\n\n✓ Every harness that ran in this project recently is captured on the server.\n"
    ));
    let untouched = build_report("w".to_string(), "p".to_string(), "s".to_string(), 0, Vec::new());
    assert!(render_human(&untouched).ends_with(
        "\n\n  No local harness sessions found for this project and nothing captured yet.\n"
    ));
}

#[test]
fn numerals_and_strings_agree_with_the_standard_library() {
    for n in [0u64, 7, 10, 99, 100, 1203, u64::MAX] {
        assert_eq!(ai_memory::text::decimal_of(n), n.to_string());
    }
    let words = ["", "a", "ab", "b", "é", "z", "\u{10000}", "\u{ffff}"];
    for a in words {
        for b in words {
            assert_eq!(ai_memory::text::str_before(a, b), a < b, "{a:?} {b:?}");
        }
    }
}
