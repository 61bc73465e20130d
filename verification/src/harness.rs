//! The harnesses whose local session stores are scanned, and what a scan of
//! them yields.

use vstd::prelude::*;

use crate::time::Timestamp;

verus! {

/// A coding harness that can be launched and whose native session store can be
/// read.
#[derive(Debug, Clone, Copy, PartialEq, Eq, Structural)]
pub enum ManagedHarness {
    Claude,
    Codex,
    OpenCode,
    OpenCode2,
    Pi,
    Crush,
    Omp,
    Kimi,
    CommandCode,
    Kiro,
    KiroV3,
    Grok,
    Antigravity,
}

/// Every harness with a read-only native session adapter, in scan order.
pub open spec fn scan_order() -> Seq<ManagedHarness> {
    seq![
        ManagedHarness::Claude,
        ManagedHarness::Codex,
        ManagedHarness::OpenCode,
        ManagedHarness::OpenCode2,
        ManagedHarness::Pi,
        ManagedHarness::Crush,
        ManagedHarness::Omp,
        ManagedHarness::Kimi,
        ManagedHarness::CommandCode,
        ManagedHarness::Kiro,
        ManagedHarness::KiroV3,
        ManagedHarness::Grok,
        ManagedHarness::Antigravity,
    ]
}

/// The harnesses to scan, in order. Variants that share an agent kind are both
/// in it: they keep distinct stores on disk.
pub fn scanned_harnesses() -> (harnesses: Vec<ManagedHarness>)
    ensures
        harnesses@ == scan_order(),
{
    vec![
        ManagedHarness::Claude,
        ManagedHarness::Codex,
        ManagedHarness::OpenCode,
        ManagedHarness::OpenCode2,
        ManagedHarness::Pi,
        ManagedHarness::Crush,
        ManagedHarness::Omp,
        ManagedHarness::Kimi,
        ManagedHarness::CommandCode,
        ManagedHarness::Kiro,
        ManagedHarness::KiroV3,
        ManagedHarness::Grok,
        ManagedHarness::Antigravity,
    ]
}

/// Every harness is scanned, and none twice; each has its place in the order.
pub proof fn every_harness_is_scanned_once(harness: ManagedHarness)
    ensures
        scan_order().contains(harness),
        scan_order().no_duplicates(),
        scan_order().len() == 13,
        scan_order().index_of(harness) == match harness {
            ManagedHarness::Claude => 0int,
            ManagedHarness::Codex => 1,
            ManagedHarness::OpenCode => 2,
            ManagedHarness::OpenCode2 => 3,
            ManagedHarness::Pi => 4,
            ManagedHarness::Crush => 5,
            ManagedHarness::Omp => 6,
            ManagedHarness::Kimi => 7,
            ManagedHarness::CommandCode => 8,
            ManagedHarness::Kiro => 9,
            ManagedHarness::KiroV3 => 10,
            ManagedHarness::Grok => 11,
            ManagedHarness::Antigravity => 12,
        },
{
    let order = scan_order();
    let at = match harness {
        ManagedHarness::Claude => 0int,
        ManagedHarness::Codex => 1,
        ManagedHarness::OpenCode => 2,
        ManagedHarness::OpenCode2 => 3,
        ManagedHarness::Pi => 4,
        ManagedHarness::Crush => 5,
        ManagedHarness::Omp => 6,
        ManagedHarness::Kimi => 7,
        ManagedHarness::CommandCode => 8,
        ManagedHarness::Kiro => 9,
        ManagedHarness::KiroV3 => 10,
        ManagedHarness::Grok => 11,
        ManagedHarness::Antigravity => 12,
    };
    assert(order[at] == harness);
}

/// A session found in a harness's local store.
#[derive(Debug)]
pub struct NativeSession {
    pub native_session_id: String,
    pub updated_at: Timestamp,
}

/// What reading one harness's local store for a working directory gave.
/// `sessions` is `None` for a store that is absent or cannot be read.
#[derive(Debug)]
pub struct HarnessListing {
    pub harness: ManagedHarness,
    /// The kebab-case agent kind under which the server records this harness.
    pub agent: String,
    pub sessions: Option<Vec<NativeSession>>,
}

} // verus!
