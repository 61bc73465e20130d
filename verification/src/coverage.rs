//! Capture coverage: which harnesses ran in a project, and whether the server
//! captured anything of them.

use vstd::prelude::*;
use vstd::string::*;

use crate::counts::{captured_sessions, AgentCount};
use crate::harness::{HarnessListing, NativeSession};
use crate::text;
use crate::time::{is_recent, recent_cutoff, Timestamp};

verus! {

/// The most sessions to list per harness; past it the exact number changes
/// nothing.
pub const SCAN_LIMIT: usize = 1_000;

/// The local sessions that one harness's store holds for a project.
#[derive(Debug)]
pub struct LocalScan {
    /// The kebab-case agent kind of the harness.
    pub agent: String,
    /// Its local sessions.
    pub total: usize,
    /// Those of them that were updated in the recent window.
    pub recent: usize,
}

/// The capture coverage of one agent kind in a project.
#[derive(Debug)]
pub struct CoverageRow {
    pub agent: String,
    pub local_total: usize,
    pub local_recent: usize,
    pub captured: u64,
    /// The harness ran here recently, but nothing was captured: its hook is
    /// missing.
    pub uncaptured: bool,
}

/// The text and numbers of a [`CoverageRow`].
pub struct Row {
    pub agent: Seq<char>,
    pub local_total: nat,
    pub local_recent: nat,
    pub captured: nat,
    pub uncaptured: bool,
}

impl View for CoverageRow {
    type V = Row;

    open spec fn view(&self) -> Row {
        Row {
            agent: self.agent@,
            local_total: self.local_total as nat,
            local_recent: self.local_recent as nat,
            captured: self.captured as nat,
            uncaptured: self.uncaptured,
        }
    }
}

impl CoverageRow {
    /// A harness with recent local sessions of which none was captured lacks its
    /// hook; nothing else is flagged. One captured session proves that the hook
    /// works, and a purely historical store is not actionable.
    pub fn compute_uncaptured(local_recent: usize, captured: u64) -> (uncaptured: bool)
        ensures
            uncaptured == (local_recent > 0 && captured == 0),
    {
        local_recent > 0 && captured == 0
    }
}

/// The number of recent sessions.
pub open spec fn recent_count(sessions: Seq<NativeSession>, cutoff: Option<Timestamp>) -> nat
    decreases sessions.len(),
{
    if sessions.len() == 0 {
        0
    } else {
        recent_count(sessions.drop_last(), cutoff) + if crate::time::counts_as_recent(
            sessions.last().updated_at,
            cutoff,
        ) {
            1nat
        } else {
            0nat
        }
    }
}

/// `scan` is the tally of a readable, non-empty listing.
pub open spec fn tallies(
    scan: LocalScan,
    listing: HarnessListing,
    cutoff: Option<Timestamp>,
) -> bool {
    &&& listing.sessions matches Some(sessions)
    &&& sessions@.len() > 0
    &&& scan.agent@ == listing.agent@
    &&& scan.total == sessions@.len()
    &&& scan.recent == recent_count(sessions@, cutoff)
}

/// The listings of stores that could be read and hold sessions, in scan order.
pub open spec fn occupied(listings: Seq<HarnessListing>) -> Seq<HarnessListing> {
    listings.filter(
        |listing: HarnessListing|
            listing.sessions matches Some(sessions) && sessions@.len() > 0,
    )
}

/// Counting some of the sessions never exceeds their number.
pub proof fn recent_sessions_are_sessions(
    sessions: Seq<NativeSession>,
    cutoff: Option<Timestamp>,
)
    ensures
        recent_count(sessions, cutoff) <= sessions.len(),
        cutoff is None ==> recent_count(sessions, cutoff) == sessions.len(),
    decreases sessions.len(),
{
    if sessions.len() > 0 {
        recent_sessions_are_sessions(sessions.drop_last(), cutoff);
    }
}

/// The number of recent sessions.
fn count_recent(sessions: &Vec<NativeSession>, cutoff: Option<Timestamp>) -> (count: usize)
    ensures
        count == recent_count(sessions@, cutoff),
{
    let mut count: usize = 0;
    for n in 0..sessions.len()
        invariant
            count == recent_count(sessions@.take(n as int), cutoff),
            count <= n,
    {
        assert(sessions@.take(n + 1).drop_last() == sessions@.take(n as int));
        if is_recent(sessions[n].updated_at, cutoff) {
            count += 1;
        }
    }
    assert(sessions@.take(sessions@.len() as int) == sessions@);
    count
}

/// Tallies what reading each harness's local store gave. A store that is
/// absent, unreadable or empty contributes nothing.
pub fn scan_local(listings: &Vec<HarnessListing>, now: Timestamp, since_days: u32) -> (scans: Vec<
    LocalScan,
>)
    ensures
        scans@.len() == occupied(listings@).len(),
        forall|i: int|
            0 <= i < scans@.len() ==> tallies(
                #[trigger] scans@[i],
                occupied(listings@)[i],
                crate::time::window_start(now, since_days),
            ),
{
    let cutoff = recent_cutoff(now, since_days);
    let mut scans: Vec<LocalScan> = Vec::new();
    proof {
        reveal(Seq::filter);
    }
    for n in 0..listings.len()
        invariant
            cutoff == crate::time::window_start(now, since_days),
            scans@.len() == occupied(listings@.take(n as int)).len(),
            forall|i: int|
                0 <= i < scans@.len() ==> tallies(
                    #[trigger] scans@[i],
                    occupied(listings@.take(n as int))[i],
                    cutoff,
                ),
    {
        let listing = &listings[n];
        let ghost before = listings@.take(n as int);
        proof {
            reveal(Seq::filter);
        }
        assert(listings@.take(n + 1).drop_last() == before);
        assert(listings@.take(n + 1).last() == *listing);
        if let Some(sessions) = &listing.sessions {
            if sessions.len() > 0 {
                scans.push(
                    LocalScan {
                        agent: listing.agent.clone(),
                        total: sessions.len(),
                        recent: count_recent(sessions, cutoff),
                    },
                );
                assert(occupied(listings@.take(n + 1)) == occupied(before).push(*listing));
            }
        }
    }
    assert(listings@.take(listings@.len() as int) == listings@);
    scans
}

/// The local sessions of one agent kind, over all harnesses of that kind.
pub open spec fn local_total(local: Seq<LocalScan>, agent: Seq<char>) -> nat
    decreases local.len(),
{
    if local.len() == 0 {
        0
    } else {
        local_total(local.drop_last(), agent) + if local.last().agent@ == agent {
            local.last().total as nat
        } else {
            0
        }
    }
}

/// The recent local sessions of one agent kind, over all harnesses of that
/// kind.
pub open spec fn local_recent(local: Seq<LocalScan>, agent: Seq<char>) -> nat
    decreases local.len(),
{
    if local.len() == 0 {
        0
    } else {
        local_recent(local.drop_last(), agent) + if local.last().agent@ == agent {
            local.last().recent as nat
        } else {
            0
        }
    }
}

/// The coverage of one agent kind.
pub open spec fn row_of(local: Seq<LocalScan>, captured: Seq<AgentCount>, agent: Seq<char>) -> Row {
    let recent = local_recent(local, agent);
    let sessions = crate::counts::captured_of(captured, agent) as nat;
    Row {
        agent,
        local_total: local_total(local, agent),
        local_recent: recent,
        captured: sessions,
        uncaptured: recent > 0 && sessions == 0,
    }
}

/// The agent kind touched the project: it ran here, or it was captured.
pub open spec fn shown(row: Row) -> bool {
    row.local_total > 0 || row.captured > 0
}

/// `a` is listed strictly before `b`: warnings first, then by name.
pub open spec fn row_before(a: Row, b: Row) -> bool {
    ||| a.uncaptured && !b.uncaptured
    ||| a.uncaptured == b.uncaptured && text::text_before(a.agent, b.agent)
}

/// Every row is the coverage of its agent and worth showing, and the rows are
/// in order.
pub open spec fn sound(local: Seq<LocalScan>, captured: Seq<AgentCount>, rows: Seq<Row>) -> bool {
    &&& forall|i: int|
        0 <= i < rows.len() ==> shown(#[trigger] rows[i]) && rows[i] == row_of(
            local,
            captured,
            rows[i].agent,
        )
    &&& forall|i: int, j: int|
        0 <= i < j < rows.len() ==> row_before(#[trigger] rows[i], #[trigger] rows[j])
}

/// Some row is that of `agent`.
pub open spec fn has_row(rows: Seq<Row>, agent: Seq<char>) -> bool {
    exists|i: int| 0 <= i < rows.len() && (#[trigger] rows[i]).agent == agent
}

/// `rows` is the coverage of the project: one row for every agent kind that
/// touched it, warnings first and otherwise by name.
pub open spec fn covers(local: Seq<LocalScan>, captured: Seq<AgentCount>, rows: Seq<Row>) -> bool {
    &&& sound(local, captured, rows)
    &&& forall|agent: Seq<char>|
        shown(#[trigger] row_of(local, captured, agent)) ==> has_row(rows, agent)
}

/// The local sessions of each agent kind can be counted.
pub open spec fn countable(local: Seq<LocalScan>) -> bool {
    forall|agent: Seq<char>|
        #![trigger local_total(local, agent)]
        #![trigger local_recent(local, agent)]
        local_total(local, agent) <= usize::MAX && local_recent(local, agent) <= usize::MAX
}

/// The rows' texts.
pub open spec fn row_texts(rows: Seq<CoverageRow>) -> Seq<Row> {
    rows.map_values(|row: CoverageRow| row@)
}

/// Fewer scans never count more.
proof fn local_prefix(local: Seq<LocalScan>, agent: Seq<char>, n: int)
    requires
        0 <= n <= local.len(),
    ensures
        local_total(local.take(n), agent) <= local_total(local, agent),
        local_recent(local.take(n), agent) <= local_recent(local, agent),
    decreases local.len(),
{
    if n < local.len() {
        local_prefix(local.drop_last(), agent, n);
        assert(local.drop_last().take(n) == local.take(n));
    } else {
        assert(local.take(n) == local);
    }
}

/// The local sessions of one agent kind, all and recent.
fn local_counts(local: &Vec<LocalScan>, agent: &str) -> (counts: (usize, usize))
    requires
        countable(local@),
    ensures
        counts.0 == local_total(local@, agent@),
        counts.1 == local_recent(local@, agent@),
{
    let mut total: usize = 0;
    let mut recent: usize = 0;
    for n in 0..local.len()
        invariant
            countable(local@),
            total == local_total(local@.take(n as int), agent@),
            recent == local_recent(local@.take(n as int), agent@),
    {
        let scan = &local[n];
        assert(local@.take(n + 1).drop_last() == local@.take(n as int));
        assert(local@.take(n + 1).last() == *scan);
        if text::same_text(scan.agent.as_str(), agent) {
            proof {
                local_prefix(local@, agent@, n + 1);
            }
            total += scan.total;
            recent += scan.recent;
        }
    }
    assert(local@.take(local@.len() as int) == local@);
    (total, recent)
}

/// Whether the local sessions of one agent kind can be counted.
fn is_agent_countable(local: &Vec<LocalScan>, agent: &str) -> (fits: bool)
    ensures
        fits == (local_total(local@, agent@) <= usize::MAX && local_recent(local@, agent@)
            <= usize::MAX),
{
    let mut total: usize = 0;
    let mut recent: usize = 0;
    for n in 0..local.len()
        invariant
            total == local_total(local@.take(n as int), agent@),
            recent == local_recent(local@.take(n as int), agent@),
    {
        let scan = &local[n];
        assert(local@.take(n + 1).drop_last() == local@.take(n as int));
        assert(local@.take(n + 1).last() == *scan);
        if text::same_text(scan.agent.as_str(), agent) {
            if scan.total > usize::MAX - total || scan.recent > usize::MAX - recent {
                proof {
                    local_prefix(local@, agent@, n + 1);
                }
                return false;
            }
            total += scan.total;
            recent += scan.recent;
        }
    }
    assert(local@.take(local@.len() as int) == local@);
    true
}

/// An agent kind that was not scanned has no local sessions.
proof fn absent_agents_count_nothing(local: Seq<LocalScan>, agent: Seq<char>)
    requires
        forall|i: int| 0 <= i < local.len() ==> (#[trigger] local[i]).agent@ != agent,
    ensures
        local_total(local, agent) == 0,
        local_recent(local, agent) == 0,
    decreases local.len(),
{
    if local.len() > 0 {
        assert(local.last() == local[local.len() - 1]);
        assert forall|i: int| 0 <= i < local.drop_last().len() implies (
        #[trigger] local.drop_last()[i]).agent@ != agent by {
            assert(local.drop_last()[i] == local[i]);
        }
        absent_agents_count_nothing(local.drop_last(), agent);
    }
}

/// Whether the local sessions of each agent kind can be counted.
pub fn are_countable(local: &Vec<LocalScan>) -> (fits: bool)
    ensures
        fits == countable(local@),
{
    for n in 0..local.len()
        invariant
            forall|i: int|
                0 <= i < n ==> local_total(local@, (#[trigger] local@[i]).agent@) <= usize::MAX
                    && local_recent(local@, local@[i].agent@) <= usize::MAX,
    {
        if !is_agent_countable(local, local[n].agent.as_str()) {
            return false;
        }
    }
    assert forall|agent: Seq<char>|
        #![trigger local_total(local@, agent)]
        #![trigger local_recent(local@, agent)]
        local_total(local@, agent) <= usize::MAX && local_recent(local@, agent) <= usize::MAX by {
        if forall|i: int| 0 <= i < local@.len() ==> (#[trigger] local@[i]).agent@ != agent {
            absent_agents_count_nothing(local@, agent);
        }
    }
    true
}

/// Whether `a` is listed strictly before `b`.
fn is_row_before(a: &CoverageRow, b: &CoverageRow) -> (first: bool)
    ensures
        first == row_before(a@, b@),
{
    if a.uncaptured == b.uncaptured {
        text::str_before(a.agent.as_str(), b.agent.as_str())
    } else {
        a.uncaptured
    }
}

/// Putting a row in front of the first one that it is listed before keeps the
/// rows in order.
proof fn sound_insert(
    local: Seq<LocalScan>,
    captured: Seq<AgentCount>,
    rows: Seq<Row>,
    row: Row,
    at: int,
)
    requires
        sound(local, captured, rows),
        !has_row(rows, row.agent),
        row == row_of(local, captured, row.agent),
        shown(row),
        0 <= at <= rows.len(),
        forall|j: int| 0 <= j < at ==> !row_before(row, #[trigger] rows[j]),
        at < rows.len() ==> row_before(row, rows[at]),
    ensures
        sound(local, captured, rows.insert(at, row)),
        has_row(rows.insert(at, row), row.agent),
        forall|agent: Seq<char>| has_row(rows, agent) ==> #[trigger] has_row(
            rows.insert(at, row),
            agent,
        ),
{
    let next = rows.insert(at, row);
    assert(next[at] == row);
    assert forall|i: int, j: int| 0 <= i < j < next.len() implies row_before(
        #[trigger] next[i],
        #[trigger] next[j],
    ) by {
        if j < at {
            assert(row_before(rows[i], rows[j]));
        } else if j == at {
            assert(rows[i].agent != row.agent);
            assert(!row_before(row, rows[i]));
            text::text_order_is_strict_and_total(rows[i].agent, row.agent, rows[i].agent);
        } else if i == at {
            if at < j - 1 {
                assert(row_before(rows[at], rows[j - 1]));
                text::text_order_is_strict_and_total(
                    row.agent,
                    rows[at].agent,
                    rows[j - 1].agent,
                );
            }
        } else if i < at {
            assert(row_before(rows[i], rows[j - 1]));
        } else {
            assert(row_before(rows[i - 1], rows[j - 1]));
        }
    }
    assert forall|agent: Seq<char>| has_row(rows, agent) implies #[trigger] has_row(
        next,
        agent,
    ) by {
        let i = choose|i: int| 0 <= i < rows.len() && (#[trigger] rows[i]).agent == agent;
        if i < at {
            assert(next[i] == rows[i]);
        } else {
            assert(next[i + 1] == rows[i]);
        }
    }
}

/// Whether some row is that of `agent`.
fn is_listed(rows: &Vec<CoverageRow>, agent: &str) -> (listed: bool)
    ensures
        listed == has_row(row_texts(rows@), agent@),
{
    for n in 0..rows.len()
        invariant
            forall|i: int| 0 <= i < n ==> (#[trigger] row_texts(rows@)[i]).agent != agent@,
    {
        assert(row_texts(rows@)[n as int] == rows@[n as int]@);
        if text::same_text(rows[n].agent.as_str(), agent) {
            return true;
        }
    }
    false
}

/// Adds the row of `agent`, unless it is there or not worth showing.
fn add_row(
    rows: &mut Vec<CoverageRow>,
    local: &Vec<LocalScan>,
    captured: &Vec<AgentCount>,
    agent: &String,
)
    requires
        countable(local@),
        sound(local@, captured@, row_texts(old(rows)@)),
    ensures
        sound(local@, captured@, row_texts(final(rows)@)),
        shown(row_of(local@, captured@, agent@)) ==> has_row(row_texts(final(rows)@), agent@),
        forall|other: Seq<char>|
            has_row(row_texts(old(rows)@), other) ==> #[trigger] has_row(
                row_texts(final(rows)@),
                other,
            ),
{
    if is_listed(rows, agent.as_str()) {
        return;
    }
    let (local_total, local_recent) = local_counts(local, agent.as_str());
    let sessions = captured_sessions(captured, agent.as_str());
    if local_total == 0 && sessions == 0 {
        return;
    }
    let row = CoverageRow {
        agent: agent.clone(),
        local_total,
        local_recent,
        captured: sessions,
        uncaptured: CoverageRow::compute_uncaptured(local_recent, sessions),
    };
    let mut at: usize = 0;
    while at < rows.len() && !is_row_before(&row, &rows[at])
        invariant
            at <= rows.len(),
            forall|j: int| 0 <= j < at ==> !row_before(row@, #[trigger] row_texts(rows@)[j]),
        decreases rows.len() - at,
    {
        at += 1;
    }
    proof {
        sound_insert(local@, captured@, row_texts(rows@), row@, at as int);
        assert(row_texts(rows@.insert(at as int, row)) == row_texts(rows@).insert(
            at as int,
            row@,
        ));
    }
    rows.insert(at, row);
}

/// An agent kind that is worth showing was scanned or captured.
proof fn shown_agents_occur(local: Seq<LocalScan>, captured: Seq<AgentCount>, agent: Seq<char>)
    ensures
        local_total(local, agent) > 0 ==> exists|i: int|
            0 <= i < local.len() && (#[trigger] local[i]).agent@ == agent,
        crate::counts::captured_of(captured, agent) > 0 ==> exists|i: int|
            0 <= i < captured.len() && (#[trigger] captured[i]).agent@ == agent,
    decreases local.len() + captured.len(),
{
    if local.len() > 0 && local_total(local, agent) > 0 && local.last().agent@ != agent {
        shown_agents_occur(local.drop_last(), captured, agent);
        let i = choose|i: int|
            0 <= i < local.len() - 1 && (#[trigger] local.drop_last()[i]).agent@ == agent;
        assert(local[i].agent@ == agent);
    }
    if captured.len() > 0 && crate::counts::captured_of(captured, agent) > 0
        && captured.last().agent@ != agent {
        shown_agents_occur(local, captured.drop_last(), agent);
        let i = choose|i: int|
            0 <= i < captured.len() - 1 && (#[trigger] captured.drop_last()[i]).agent@ == agent;
        assert(captured[i].agent@ == agent);
    }
}

/// Folds the local scans and the server's counts into one row per agent kind.
/// Scans of harnesses that share an agent kind add up; a later count replaces
/// an earlier one of the same name. Agent kinds that neither ran here nor were
/// captured are left out.
pub fn build_rows(local: &Vec<LocalScan>, captured: &Vec<AgentCount>) -> (rows: Vec<CoverageRow>)
    requires
        countable(local@),
    ensures
        covers(local@, captured@, row_texts(rows@)),
{
    let mut rows: Vec<CoverageRow> = Vec::new();
    for n in 0..local.len()
        invariant
            countable(local@),
            sound(local@, captured@, row_texts(rows@)),
            forall|i: int|
                0 <= i < n && shown(row_of(local@, captured@, (#[trigger] local@[i]).agent@))
                    ==> has_row(row_texts(rows@), local@[i].agent@),
    {
        add_row(&mut rows, local, captured, &local[n].agent);
    }
    for n in 0..captured.len()
        invariant
            countable(local@),
            sound(local@, captured@, row_texts(rows@)),
            forall|i: int|
                0 <= i < local@.len() && shown(
                    row_of(local@, captured@, (#[trigger] local@[i]).agent@),
                ) ==> has_row(row_texts(rows@), local@[i].agent@),
            forall|i: int|
                0 <= i < n && shown(row_of(local@, captured@, (#[trigger] captured@[i]).agent@))
                    ==> has_row(row_texts(rows@), captured@[i].agent@),
    {
        add_row(&mut rows, local, captured, &captured[n].agent);
    }
    assert forall|agent: Seq<char>| shown(
        #[trigger] row_of(local@, captured@, agent),
    ) implies has_row(row_texts(rows@), agent) by {
        shown_agents_occur(local@, captured@, agent);
    }
    rows
}

/// Of two rows at most one is listed before the other.
proof fn row_before_is_asymmetric(a: Row, b: Row)
    ensures
        !(row_before(a, b) && row_before(b, a)),
{
    text::text_order_is_strict_and_total(a.agent, b.agent, a.agent);
}

/// Two coverages of a project agree row by row.
proof fn coverages_agree(
    local: Seq<LocalScan>,
    captured: Seq<AgentCount>,
    a: Seq<Row>,
    b: Seq<Row>,
    i: int,
)
    requires
        covers(local, captured, a),
        covers(local, captured, b),
        0 <= i < a.len(),
    ensures
        i < b.len(),
        a[i] == b[i],
    decreases i,
{
    assert forall|k: int| 0 <= k < i implies k < b.len() && a[k] == b[k] by {
        coverages_agree(local, captured, a, b, k);
    }
    assert(has_row(b, a[i].agent)) by {
        assert(shown(row_of(local, captured, a[i].agent)));
    }
    let j = choose|j: int| 0 <= j < b.len() && (#[trigger] b[j]).agent == a[i].agent;
    assert(b[j] == a[i]);
    if j < i {
        assert(a[j] == a[i]);
        row_before_is_asymmetric(a[j], a[i]);
    }
    if j > i {
        assert(row_before(b[i], b[j]));
        assert(has_row(a, b[i].agent)) by {
            assert(shown(row_of(local, captured, b[i].agent)));
        }
        let m = choose|m: int| 0 <= m < a.len() && (#[trigger] a[m]).agent == b[i].agent;
        assert(a[m] == b[i]);
        if m < i {
            assert(b[m] == b[i]);
            row_before_is_asymmetric(b[m], b[i]);
        } else if m == i {
            row_before_is_asymmetric(b[i], b[j]);
        } else {
            assert(row_before(a[i], a[m]));
            row_before_is_asymmetric(a[i], a[m]);
        }
    }
}

/// The scans and the counts decide the coverage, rows and order.
pub proof fn the_coverage_is_decided(
    local: Seq<LocalScan>,
    captured: Seq<AgentCount>,
    a: Seq<Row>,
    b: Seq<Row>,
)
    requires
        covers(local, captured, a),
        covers(local, captured, b),
    ensures
        a == b,
{
    assert forall|i: int| 0 <= i < a.len() implies #[trigger] a[i] == b[i] by {
        coverages_agree(local, captured, a, b, i);
    }
    if a.len() < b.len() {
        coverages_agree(local, captured, b, a, a.len() as int);
    } else if b.len() < a.len() {
        coverages_agree(local, captured, a, b, b.len() as int);
    }
    assert(a == b);
}

/// Scans add up, whatever the harnesses they come from.
pub proof fn scans_add_up(a: Seq<LocalScan>, b: Seq<LocalScan>, agent: Seq<char>)
    ensures
        local_total(a + b, agent) == local_total(a, agent) + local_total(b, agent),
        local_recent(a + b, agent) == local_recent(a, agent) + local_recent(b, agent),
    decreases b.len(),
{
    if b.len() == 0 {
        assert(a + b == a);
    } else {
        assert((a + b).drop_last() == a + b.drop_last());
        scans_add_up(a, b.drop_last(), agent);
    }
}

/// The same scans in another order have the same sums.
proof fn scans_add_up_in_any_order(a: Seq<LocalScan>, b: Seq<LocalScan>, agent: Seq<char>)
    requires
        a.to_multiset() == b.to_multiset(),
    ensures
        local_total(a, agent) == local_total(b, agent),
        local_recent(a, agent) == local_recent(b, agent),
    decreases a.len(),
{
    a.to_multiset_ensures();
    b.to_multiset_ensures();
    if a.len() > 0 {
        let last = a.last();
        assert(a.contains(last)) by {
            assert(a[a.len() - 1] == last);
        }
        assert(a.to_multiset().count(last) > 0);
        assert(b.to_multiset().count(last) > 0);
        assert(b.contains(last));
        let at = b.index_of(last);
        let (head, tail) = (b.take(at), b.skip(at + 1));
        let one = seq![last];
        assert(a.drop_last() == a.remove(a.len() - 1));
        assert(b.remove(at) == head + tail);
        assert(b == head + one + tail);
        assert(a == a.drop_last() + one);
        scans_add_up_in_any_order(a.drop_last(), b.remove(at), agent);
        scans_add_up(a.drop_last(), one, agent);
        scans_add_up(head, tail, agent);
        scans_add_up(head + one, tail, agent);
        scans_add_up(head, one, agent);
    }
}

/// The order in which the stores were scanned does not change the coverage.
pub proof fn the_scan_order_does_not_matter(
    a: Seq<LocalScan>,
    b: Seq<LocalScan>,
    captured: Seq<AgentCount>,
    rows: Seq<Row>,
)
    requires
        a.to_multiset() == b.to_multiset(),
    ensures
        covers(a, captured, rows) <==> covers(b, captured, rows),
{
    assert forall|agent: Seq<char>| #[trigger]
        row_of(a, captured, agent) == row_of(b, captured, agent) by {
        scans_add_up_in_any_order(a, b, agent);
    }
    assert forall|agent: Seq<char>| #[trigger]
        row_of(b, captured, agent) == row_of(a, captured, agent) by {}
}

/// An agent kind is flagged exactly when it ran here recently and nothing of it
/// was captured; the flagged ones come first; and an agent kind that touched
/// the project has exactly one row.
pub proof fn warnings_lead_and_are_exact(
    local: Seq<LocalScan>,
    captured: Seq<AgentCount>,
    rows: Seq<Row>,
)
    requires
        covers(local, captured, rows),
    ensures
        forall|i: int|
            0 <= i < rows.len() ==> ((#[trigger] rows[i]).uncaptured <==> local_recent(
                local,
                rows[i].agent,
            ) > 0 && crate::counts::captured_of(captured, rows[i].agent) == 0),
        forall|i: int, j: int|
            0 <= i < j < rows.len() && (#[trigger] rows[j]).uncaptured ==> (
            #[trigger] rows[i]).uncaptured,
        forall|i: int, j: int|
            0 <= i < j < rows.len() ==> (#[trigger] rows[i]).agent != (#[trigger] rows[j]).agent,
        forall|agent: Seq<char>| #[trigger]
            has_row(rows, agent) <==> (local_total(local, agent) > 0
                || crate::counts::captured_of(captured, agent) > 0),
{
    assert forall|i: int, j: int| 0 <= i < j < rows.len() && (
    #[trigger] rows[j]).uncaptured implies (#[trigger] rows[i]).uncaptured by {
        assert(row_before(rows[i], rows[j]));
    }
    assert forall|i: int, j: int| 0 <= i < j < rows.len() implies (#[trigger] rows[i]).agent != (
    #[trigger] rows[j]).agent by {
        assert(row_before(rows[i], rows[j]));
        text::text_order_is_strict_and_total(rows[i].agent, rows[j].agent, rows[i].agent);
    }
    assert forall|agent: Seq<char>| #[trigger]
        has_row(rows, agent) <==> (local_total(local, agent) > 0 || crate::counts::captured_of(
            captured,
            agent,
        ) > 0) by {
        let row = row_of(local, captured, agent);
        if has_row(rows, agent) {
            let i = choose|i: int| 0 <= i < rows.len() && (#[trigger] rows[i]).agent == agent;
            assert(shown(rows[i]));
        }
    }
}

/// A single scan counts for its own agent kind, in full, and for no other.
pub proof fn a_scan_counts_for_its_agent(scan: LocalScan, agent: Seq<char>)
    ensures
        scan.agent@ == agent ==> local_total(seq![scan], agent) == scan.total && local_recent(
            seq![scan],
            agent,
        ) == scan.recent,
        scan.agent@ != agent ==> local_total(seq![scan], agent) == 0 && local_recent(
            seq![scan],
            agent,
        ) == 0,
{
    let one = seq![scan];
    assert(one.drop_last() == Seq::<LocalScan>::empty());
    assert(local_total(one.drop_last(), agent) == 0);
    assert(local_recent(one.drop_last(), agent) == 0);
}

/// The recent sessions are counted one by one.
pub proof fn recent_sessions_are_counted(sessions: Seq<NativeSession>, cutoff: Option<Timestamp>)
    ensures
        recent_count(sessions, cutoff) == sessions.filter(
            |session: NativeSession| match cutoff {
                None => true,
                Some(start) => !session.updated_at.before(start),
            },
        ).len(),
    decreases sessions.len(),
{
    reveal(Seq::filter);
    if sessions.len() > 0 {
        recent_sessions_are_counted(sessions.drop_last(), cutoff);
    }
}

/// A scan is made of each store that was read and holds sessions, in the order
/// of the listings, and of no other: two lots of listings are scanned one after
/// the other.
pub proof fn occupied_stores_are_scanned_in_order(
    a: Seq<HarnessListing>,
    b: Seq<HarnessListing>,
    listing: HarnessListing,
)
    ensures
        occupied(a + b) == occupied(a) + occupied(b),
        occupied(seq![listing]).contains(listing) <==> (listing.sessions matches Some(sessions)
            && sessions@.len() > 0),
        occupied(seq![listing]).len() <= 1,
{
    let keep = |listing: HarnessListing|
        listing.sessions matches Some(sessions) && sessions@.len() > 0;
    Seq::filter_distributes_over_add(a, b, keep);
    let one = seq![listing];
    reveal(Seq::filter);
    assert(one.drop_last() == Seq::<HarnessListing>::empty());
    assert(one.drop_last().filter(keep) == Seq::<HarnessListing>::empty());
    if keep(listing) {
        assert(occupied(one) == Seq::<HarnessListing>::empty().push(listing));
        assert(occupied(one)[0] == listing);
    } else {
        assert(occupied(one) == Seq::<HarnessListing>::empty());
    }
}

/// A scan holds the numbers of its store: all sessions, and those of them that
/// are recent.
pub proof fn a_scan_holds_the_numbers_of_its_store(
    scan: LocalScan,
    listing: HarnessListing,
    cutoff: Option<Timestamp>,
)
    requires
        tallies(scan, listing, cutoff),
    ensures
        scan.agent@ == listing.agent@,
        listing.sessions matches Some(sessions) && {
            &&& scan.total == sessions@.len()
            &&& scan.recent <= scan.total
            &&& scan.recent == sessions@.filter(
                |session: NativeSession| match cutoff {
                    None => true,
                    Some(start) => !session.updated_at.before(start),
                },
            ).len()
        },
{
    if let Some(sessions) = listing.sessions {
        recent_sessions_are_counted(sessions@, cutoff);
        recent_sessions_are_sessions(sessions@, cutoff);
    }
}

/// Each row holds the numbers of its agent kind, and among rows that are both
/// flagged or both not the names are in order.
pub proof fn a_row_holds_the_numbers_of_its_agent(
    local: Seq<LocalScan>,
    captured: Seq<AgentCount>,
    rows: Seq<Row>,
)
    requires
        covers(local, captured, rows),
    ensures
        forall|i: int|
            0 <= i < rows.len() ==> {
                &&& (#[trigger] rows[i]).local_total == local_total(local, rows[i].agent)
                &&& rows[i].local_recent == local_recent(local, rows[i].agent)
                &&& rows[i].captured == crate::counts::captured_of(captured, rows[i].agent)
                &&& rows[i].uncaptured <==> rows[i].local_recent > 0 && rows[i].captured == 0
                &&& rows[i].local_total > 0 || rows[i].captured > 0
            },
        forall|i: int, j: int|
            0 <= i < j < rows.len() && rows[i].uncaptured == rows[j].uncaptured
                ==> text::text_before((#[trigger] rows[i]).agent, (#[trigger] rows[j]).agent),
{
    assert forall|i: int, j: int|
        0 <= i < j < rows.len() && rows[i].uncaptured == rows[j].uncaptured implies text::text_before(
        (#[trigger] rows[i]).agent,
        (#[trigger] rows[j]).agent,
    ) by {
        assert(row_before(rows[i], rows[j]));
    }
}

} // verus!
