//! The outcome of a backfill, and what is shown of it.

use vstd::prelude::*;
use vstd::string::*;
use vstd::utf8::*;

use crate::text;

verus! {

/// The outcome of a backfill.
#[derive(Debug)]
pub struct BackfillReport {
    pub workspace: String,
    pub project: String,
    /// Sessions selected for import.
    pub selected: usize,
    /// Sessions imported.
    pub imported_sessions: usize,
    /// Events imported across all sessions.
    pub imported_events: usize,
    /// Sessions not started because the cap on events was reached.
    pub skipped_for_cap: usize,
    /// Sessions whose import failed; the run goes on past them.
    pub failed_sessions: usize,
    /// The store already held sessions, and nothing was imported.
    pub skipped_non_empty: bool,
    /// The run only planned the import.
    pub dry_run: bool,
}

/// What a finished run puts on standard output.
#[derive(Debug)]
pub enum Output {
    /// The report as JSON.
    Json,
    /// Nothing.
    Nothing,
    /// This line.
    Line(String),
}

/// `workspace/project`.
pub open spec fn scope_text(workspace: Seq<char>, project: Seq<char>) -> Seq<char> {
    workspace + "/"@ + project
}

/// The summary of an import that did something: what was imported, what failed
/// and what the cap left out, if anything.
pub open spec fn import_summary(report: BackfillReport) -> Seq<char> {
    let imported = "📼 ai-memory imported "@ + text::decimal(report.imported_sessions as nat)
        + " prior local session(s) (~"@ + text::decimal(report.imported_events as nat)
        + " events) for "@ + scope_text(report.workspace@, report.project@) + "."@;
    let failed = if report.failed_sessions > 0 {
        " "@ + text::decimal(report.failed_sessions as nat) + " session(s) failed."@
    } else {
        Seq::empty()
    };
    let skipped = if report.skipped_for_cap > 0 {
        " "@ + text::decimal(report.skipped_for_cap as nat)
            + " older session(s) skipped (import cap)."@
    } else {
        Seq::empty()
    };
    imported + failed + skipped + " Opt out with AI_MEMORY_BACKFILL_ON_START=false."@
}

/// The line that tells a person what a run did.
pub open spec fn summary(report: BackfillReport) -> Seq<char> {
    let scope = scope_text(report.workspace@, report.project@);
    if report.skipped_non_empty {
        "ai-memory: "@ + scope
            + " already has captured sessions — nothing to backfill (use --force to import anyway)."@
    } else if report.dry_run {
        "ai-memory: would import "@ + text::decimal(report.selected as nat)
            + " local session(s) into "@ + scope + " (dry run)."@
    } else if report.imported_sessions == 0 && report.failed_sessions == 0 {
        "ai-memory: no local session history found to backfill for "@ + scope + "."@
    } else {
        import_summary(report)
    }
}

/// `workspace/project` of a report.
fn scope_of(report: &BackfillReport) -> (scope: String)
    ensures
        scope@ == scope_text(report.workspace@, report.project@),
{
    report.workspace.clone().concat("/").concat(report.project.as_str())
}

/// The summary of an import that did something.
fn import_line(report: &BackfillReport) -> (line: String)
    ensures
        line@ == import_summary(*report),
{
    let mut line = "📼 ai-memory imported ".to_owned();
    line.append(text::decimal_of(report.imported_sessions as u64).as_str());
    line.append(" prior local session(s) (~");
    line.append(text::decimal_of(report.imported_events as u64).as_str());
    line.append(" events) for ");
    line.append(scope_of(report).as_str());
    line.append(".");
    let ghost imported = line@;
    if report.failed_sessions > 0 {
        line.append(" ");
        line.append(text::decimal_of(report.failed_sessions as u64).as_str());
        line.append(" session(s) failed.");
        assert(line@ == imported + (" "@ + text::decimal(report.failed_sessions as nat)
            + " session(s) failed."@));
    }
    let ghost failed = line@;
    if report.skipped_for_cap > 0 {
        line.append(" ");
        line.append(text::decimal_of(report.skipped_for_cap as u64).as_str());
        line.append(" older session(s) skipped (import cap).");
        assert(line@ == failed + (" "@ + text::decimal(report.skipped_for_cap as nat)
            + " older session(s) skipped (import cap)."@));
    }
    assert(imported + Seq::<char>::empty() == imported);
    assert(failed + Seq::<char>::empty() == failed);
    line.append(" Opt out with AI_MEMORY_BACKFILL_ON_START=false.");
    line
}

/// The line that tells a person what a run did.
pub fn summary_line(report: &BackfillReport) -> (line: String)
    ensures
        line@ == summary(*report),
{
    if report.skipped_non_empty {
        let mut line = "ai-memory: ".to_owned();
        line.append(scope_of(report).as_str());
        line.append(
            " already has captured sessions — nothing to backfill (use --force to import anyway).",
        );
        return line;
    }
    if report.dry_run {
        let mut line = "ai-memory: would import ".to_owned();
        line.append(text::decimal_of(report.selected as u64).as_str());
        line.append(" local session(s) into ");
        line.append(scope_of(report).as_str());
        line.append(" (dry run).");
        return line;
    }
    if report.imported_sessions == 0 && report.failed_sessions == 0 {
        let mut line = "ai-memory: no local session history found to backfill for ".to_owned();
        line.append(scope_of(report).as_str());
        line.append(".");
        return line;
    }
    import_line(report)
}

/// What a finished run puts on standard output: the JSON report when that was
/// asked for, otherwise nothing when it is to be quiet, otherwise the summary.
pub fn finish(json: bool, quiet: bool, report: &BackfillReport) -> (output: Output)
    ensures
        match output {
            Output::Json => json,
            Output::Nothing => !json && quiet,
            Output::Line(line) => !json && !quiet && line@ == summary(*report),
        },
{
    if json {
        Output::Json
    } else if quiet {
        Output::Nothing
    } else {
        Output::Line(summary_line(report))
    }
}

/// The error that ends a run in which sessions failed to import.
pub open spec fn failure_text(failed: nat, selected: nat) -> Seq<char> {
    "backfill failed to import "@ + text::decimal(failed) + " of "@ + text::decimal(selected)
        + " selected session(s)"@
}

/// The result of a finished run: an error exactly when a session failed.
pub fn outcome(report: &BackfillReport) -> (result: Result<(), String>)
    ensures
        match result {
            Ok(_) => report.failed_sessions == 0,
            Err(message) => report.failed_sessions > 0 && message@ == failure_text(
                report.failed_sessions as nat,
                report.selected as nat,
            ),
        },
{
    if report.failed_sessions > 0 {
        let mut message = "backfill failed to import ".to_owned();
        message.append(text::decimal_of(report.failed_sessions as u64).as_str());
        message.append(" of ");
        message.append(text::decimal_of(report.selected as u64).as_str());
        message.append(" selected session(s)");
        Err(message)
    } else {
        Ok(())
    }
}

/// The part of a session id that is shown: its first eight bytes, or all of it
/// when it is shorter or a character crosses that boundary.
pub open spec fn shown_id(id: Seq<char>) -> Seq<char> {
    let bytes = encode_utf8(id);
    if is_char_boundary(bytes, 8) {
        decode_utf8(bytes.take(8))
    } else {
        id
    }
}

/// The short form of a session id.
pub fn display_id(id: &str) -> (shown: &str)
    ensures
        shown@ == shown_id(id@),
{
    if id.is_char_boundary(8) {
        let (head, _) = id.split_at(8);
        proof {
            encode_utf8_decode_utf8(head@);
        }
        head
    } else {
        id
    }
}

/// An ASCII id of at least eight characters is shown as its first eight, and a
/// shorter one in full.
pub proof fn ascii_ids_are_shown_by_eight_characters(id: Seq<char>)
    requires
        is_ascii_chars(id),
    ensures
        shown_id(id) == if id.len() < 8 {
            id
        } else {
            id.take(8)
        },
{
    is_ascii_chars_encode_utf8(id);
    let bytes = encode_utf8(id);
    encode_utf8_valid_utf8(id);
    if id.len() < 8 {
        assert(!is_char_boundary(bytes, 8)) by {
            assert(bytes.len() < 8);
        }
    } else {
        let head = id.take(8);
        is_ascii_chars_encode_utf8(head);
        assert(encode_utf8(head) == bytes.take(8));
        encode_utf8_decode_utf8(head);
        if id.len() == 8 {
            is_char_boundary_start_end_of_seq(bytes);
        } else {
            is_char_boundary_iff_not_is_continuation_byte(bytes, 8);
        }
    }
}

/// The line that reports a session that failed to import.
pub fn failure_line(harness: &str, session_id: &str, error: &str) -> (line: String)
    ensures
        line@ == "ai-memory: backfill of "@ + harness@ + " session "@ + shown_id(session_id@)
            + " failed: "@ + error@,
{
    let mut line = "ai-memory: backfill of ".to_owned();
    line.append(harness);
    line.append(" session ");
    line.append(display_id(session_id));
    line.append(" failed: ");
    line.append(error);
    line
}

/// A run with failed sessions says so to a person: the summary holds the
/// number of them, between what was imported and the rest.
pub proof fn the_summary_names_failures(report: BackfillReport)
    requires
        report.failed_sessions > 0,
        !report.skipped_non_empty,
        !report.dry_run,
    ensures
        exists|before: Seq<char>, after: Seq<char>|
            summary(report) == #[trigger] (before + (text::decimal(report.failed_sessions as nat)
                + " session(s) failed."@) + after),
{
    let before = "📼 ai-memory imported "@ + text::decimal(report.imported_sessions as nat)
        + " prior local session(s) (~"@ + text::decimal(report.imported_events as nat)
        + " events) for "@ + scope_text(report.workspace@, report.project@) + "."@ + " "@;
    let skipped = if report.skipped_for_cap > 0 {
        " "@ + text::decimal(report.skipped_for_cap as nat)
            + " older session(s) skipped (import cap)."@
    } else {
        Seq::empty()
    };
    let after = skipped + " Opt out with AI_MEMORY_BACKFILL_ON_START=false."@;
    assert(summary(report) == before + (text::decimal(report.failed_sessions as nat)
        + " session(s) failed."@) + after);
}

/// A run whose cap left sessions out says so to a person: the summary holds the
/// number of them.
pub proof fn the_summary_names_skipped_sessions(report: BackfillReport)
    requires
        report.skipped_for_cap > 0,
        report.imported_sessions > 0,
        !report.skipped_non_empty,
        !report.dry_run,
    ensures
        exists|before: Seq<char>, after: Seq<char>|
            summary(report) == #[trigger] (before + (text::decimal(report.skipped_for_cap as nat)
                + " older session(s) skipped (import cap)."@) + after),
{
    let failed = if report.failed_sessions > 0 {
        " "@ + text::decimal(report.failed_sessions as nat) + " session(s) failed."@
    } else {
        Seq::empty()
    };
    let before = "📼 ai-memory imported "@ + text::decimal(report.imported_sessions as nat)
        + " prior local session(s) (~"@ + text::decimal(report.imported_events as nat)
        + " events) for "@ + scope_text(report.workspace@, report.project@) + "."@ + failed + " "@;
    let after = " Opt out with AI_MEMORY_BACKFILL_ON_START=false."@;
    assert(summary(report) == before + (text::decimal(report.skipped_for_cap as nat)
        + " older session(s) skipped (import cap)."@) + after);
}

/// What a person is told of a run: that the store was populated, what would be
/// imported, that there was nothing to import, or what was imported, followed
/// by the failed and the skipped sessions as far as there are any.
pub proof fn the_summary_tells_the_outcome(report: BackfillReport)
    ensures
        ({
            let line = summary(report);
            let scope = report.workspace@ + "/"@ + report.project@;
            let tried = report.imported_sessions > 0 || report.failed_sessions > 0;
            let imported = "📼 ai-memory imported "@ + text::decimal(
                report.imported_sessions as nat,
            ) + " prior local session(s) (~"@ + text::decimal(report.imported_events as nat)
                + " events) for "@ + scope + "."@;
            let failed = " "@ + text::decimal(report.failed_sessions as nat)
                + " session(s) failed."@;
            let skipped = " "@ + text::decimal(report.skipped_for_cap as nat)
                + " older session(s) skipped (import cap)."@;
            let hint = " Opt out with AI_MEMORY_BACKFILL_ON_START=false."@;
            let went_ahead = !report.skipped_non_empty && !report.dry_run;
            &&& report.skipped_non_empty ==> line == "ai-memory: "@ + scope
                + " already has captured sessions — nothing to backfill (use --force to import anyway)."@
            &&& !report.skipped_non_empty && report.dry_run ==> line == "ai-memory: would import "@
                + text::decimal(report.selected as nat) + " local session(s) into "@ + scope
                + " (dry run)."@
            &&& went_ahead && !tried ==> line
                == "ai-memory: no local session history found to backfill for "@ + scope + "."@
            &&& went_ahead && tried && report.failed_sessions == 0 && report.skipped_for_cap == 0 ==> line
                == imported + hint
            &&& went_ahead && tried && report.failed_sessions > 0 && report.skipped_for_cap == 0 ==> line
                == imported + failed + hint
            &&& went_ahead && tried && report.failed_sessions == 0 && report.skipped_for_cap > 0 ==> line
                == imported + skipped + hint
            &&& went_ahead && tried && report.failed_sessions > 0 && report.skipped_for_cap > 0 ==> line
                == imported + failed + skipped + hint
        }),
{
    let scope = report.workspace@ + "/"@ + report.project@;
    let imported = "📼 ai-memory imported "@ + text::decimal(report.imported_sessions as nat)
        + " prior local session(s) (~"@ + text::decimal(report.imported_events as nat)
        + " events) for "@ + scope + "."@;
    let none = Seq::<char>::empty();
    assert(imported + none == imported);
    let failed = " "@ + text::decimal(report.failed_sessions as nat) + " session(s) failed."@;
    assert(imported + failed + none == imported + failed);
}

/// The error of a run names how many sessions failed and how many were
/// selected.
pub proof fn the_error_names_failed_and_selected(failed: nat, selected: nat)
    ensures
        failure_text(failed, selected) == "backfill failed to import "@ + (text::decimal(failed)
            + " of "@ + text::decimal(selected)) + " selected session(s)"@,
{
    assert(failure_text(failed, selected) == "backfill failed to import "@ + (text::decimal(failed)
        + " of "@ + text::decimal(selected)) + " selected session(s)"@);
}

/// The encoding of a text is that of its parts, and where they meet is a
/// boundary between characters.
proof fn parts_are_encoded_one_by_one(a: Seq<char>, b: Seq<char>)
    ensures
        encode_utf8(a + b) == encode_utf8(a) + encode_utf8(b),
        is_char_boundary(encode_utf8(a + b), encode_utf8(a).len() as int),
    decreases a.len(),
{
    encode_utf8_valid_utf8(a + b);
    if a.len() == 0 {
        assert(a + b == b);
    } else {
        let whole = a + b;
        assert(whole.drop_first() == a.drop_first() + b);
        parts_are_encoded_one_by_one(a.drop_first(), b);
        encode_utf8_first_scalar(whole);
        let first = encode_scalar(whole[0] as u32);
        assert(encode_utf8(whole) == first + encode_utf8(whole.drop_first()));
        assert(encode_utf8(a) == first + encode_utf8(a.drop_first()));
        assert(pop_first_scalar(encode_utf8(whole)) == encode_utf8(whole.drop_first()));
    }
}

/// What is shown of an id is its beginning: eight bytes of it, if there is a
/// beginning of that size, and otherwise all of it.
pub proof fn an_id_is_shown_by_eight_bytes_or_in_full(id: Seq<char>, head: Seq<char>)
    ensures
        shown_id(id).is_prefix_of(id),
        shown_id(id) == id || encode_utf8(shown_id(id)).len() == 8,
        head.is_prefix_of(id) && encode_utf8(head).len() == 8 ==> shown_id(id) == head,
{
    let bytes = encode_utf8(id);
    encode_utf8_valid_utf8(id);
    encode_utf8_decode_utf8(id);
    if is_char_boundary(bytes, 8) {
        valid_utf8_split(bytes, 8);
        decode_utf8_split(bytes, 8);
        assert(bytes.take(8) == bytes.subrange(0, 8));
        decode_utf8_encode_utf8(bytes.take(8));
    }
    if head.is_prefix_of(id) && encode_utf8(head).len() == 8 {
        let tail = id.skip(head.len() as int);
        assert(id == head + tail);
        parts_are_encoded_one_by_one(head, tail);
        assert(bytes.take(8) == encode_utf8(head));
        encode_utf8_decode_utf8(head);
    }
}

} // verus!
