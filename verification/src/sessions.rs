//! Which local sessions are imported: collecting them from the scanned stores,
//! and keeping the newest ones.

use vstd::prelude::*;
use vstd::string::*;

use crate::harness::{HarnessListing, ManagedHarness, NativeSession};
use crate::text;
use crate::time::Timestamp;

verus! {

/// The newest local sessions to list per harness before the import cap applies.
pub const PER_HARNESS_SCAN_LIMIT: usize = 200;

/// A local native session eligible for import.
#[derive(Debug)]
pub struct SessionRef {
    pub harness: ManagedHarness,
    pub native_session_id: String,
    pub updated_at: Timestamp,
}

/// `a` is listed strictly before `b`: it is newer, or as new and its id comes
/// first in the order of strings.
pub open spec fn listed_before(a: SessionRef, b: SessionRef) -> bool {
    ||| b.updated_at.before(a.updated_at)
    ||| a.updated_at == b.updated_at && text::text_before(
        a.native_session_id@,
        b.native_session_id@,
    )
}

/// Position `i` of `all` goes before position `j`: its session is listed first,
/// or neither is and `i` is the earlier position.
pub open spec fn goes_before(all: Seq<SessionRef>, i: int, j: int) -> bool {
    listed_before(all[i], all[j]) || (!listed_before(all[j], all[i]) && i < j)
}

/// `picked` holds the sessions of `all` at the positions `order`: the first
/// `cap` positions, or all of them, when positions are ranged by
/// [`goes_before`].
pub open spec fn picks(
    all: Seq<SessionRef>,
    cap: nat,
    order: Seq<int>,
    picked: Seq<SessionRef>,
) -> bool {
    &&& order.len() == if cap < all.len() {
        cap
    } else {
        all.len()
    }
    &&& picked.len() == order.len()
    &&& forall|i: int|
        0 <= i < order.len() ==> 0 <= #[trigger] order[i] < all.len() && picked[i] == all[order[i]]
    &&& forall|i: int, j: int|
        0 <= i < j < order.len() ==> goes_before(all, #[trigger] order[i], #[trigger] order[j])
    &&& forall|i: int, k: int|
        0 <= i < order.len() && 0 <= k < all.len() && !#[trigger] order.contains(k) ==> goes_before(
            all,
            #[trigger] order[i],
            k,
        )
}

/// `picked` is what remains of `all` when it is ranged newest first, ties by
/// id and then by position, and cut off after `cap` sessions.
pub open spec fn newest(all: Seq<SessionRef>, cap: nat, picked: Seq<SessionRef>) -> bool {
    exists|order: Seq<int>| #[trigger] picks(all, cap, order, picked)
}

/// What selecting at most `cap` of the sessions `all` keeps.
pub open spec fn selection(all: Seq<SessionRef>, cap: nat) -> Seq<SessionRef> {
    choose|picked: Seq<SessionRef>| newest(all, cap, picked)
}

/// [`listed_before`] is a strict weak order.
proof fn listed_before_is_weak_order(a: SessionRef, b: SessionRef, c: SessionRef)
    ensures
        !listed_before(a, a),
        listed_before(a, b) && listed_before(b, c) ==> listed_before(a, c),
        listed_before(a, b) && !listed_before(c, b) ==> listed_before(a, c),
{
    let (x, y, z) = (a.native_session_id@, b.native_session_id@, c.native_session_id@);
    text::text_order_is_strict_and_total(x, y, z);
    text::text_order_is_strict_and_total(z, y, x);
}

/// Whether `a` is listed strictly before `b`.
fn is_listed_before(a: &SessionRef, b: &SessionRef) -> (first: bool)
    ensures
        first == listed_before(*a, *b),
{
    if b.updated_at.is_before(a.updated_at) {
        true
    } else if a.updated_at.is_before(b.updated_at) {
        false
    } else {
        text::str_before(a.native_session_id.as_str(), b.native_session_id.as_str())
    }
}

/// `order` ranges the first `seen` positions of `all`, and `sessions` holds the
/// sessions at them.
spec fn ranged(all: Seq<SessionRef>, seen: int, order: Seq<int>, sessions: Seq<SessionRef>) -> bool {
    &&& 0 <= seen <= all.len()
    &&& order.len() == seen
    &&& sessions.len() == seen
    &&& forall|i: int|
        0 <= i < seen ==> 0 <= #[trigger] order[i] < seen && sessions[i] == all[order[i]]
    &&& forall|k: int| 0 <= k < seen ==> #[trigger] order.contains(k)
    &&& forall|i: int, j: int|
        0 <= i < j < seen ==> goes_before(all, #[trigger] order[i], #[trigger] order[j])
}

/// Ranging one more position keeps the range, when its session goes in front
/// of the first one that it is listed before.
proof fn ranged_insert(
    all: Seq<SessionRef>,
    seen: int,
    order: Seq<int>,
    sessions: Seq<SessionRef>,
    at: int,
)
    requires
        ranged(all, seen, order, sessions),
        seen < all.len(),
        0 <= at <= seen,
        forall|j: int| 0 <= j < at ==> !listed_before(all[seen], #[trigger] sessions[j]),
        at < seen ==> listed_before(all[seen], sessions[at]),
    ensures
        ranged(all, seen + 1, order.insert(at, seen), sessions.insert(at, all[seen])),
{
    let next = order.insert(at, seen);
    let held = sessions.insert(at, all[seen]);
    assert forall|k: int| 0 <= k < seen + 1 implies #[trigger] next.contains(k) by {
        if k == seen {
            assert(next[at] == seen);
        } else {
            assert(order.contains(k));
            let i = order.index_of(k);
            assert(order[i] == k);
            if i < at {
                assert(next[i] == k);
            } else {
                assert(next[i + 1] == k);
            }
        }
    }
    assert forall|i: int, j: int| 0 <= i < j < seen + 1 implies goes_before(
        all,
        #[trigger] next[i],
        #[trigger] next[j],
    ) by {
        if j < at {
            assert(goes_before(all, order[i], order[j]));
        } else if j == at {
            assert(sessions[i] == all[order[i]]);
        } else if i == at {
            let b = sessions[at];
            let c = sessions[j - 1];
            assert(b == all[order[at]] && c == all[order[j - 1]]);
            if at < j - 1 {
                assert(goes_before(all, order[at], order[j - 1]));
                listed_before_is_weak_order(all[seen], b, c);
            }
        } else if i < at {
            assert(goes_before(all, order[i], order[j - 1]));
        } else {
            assert(goes_before(all, order[i - 1], order[j - 1]));
        }
    }
}

/// The first position of `sessions`, from `at` on, whose session `session` is
/// listed before; their number when there is none.
spec fn slot(session: SessionRef, sessions: Seq<SessionRef>, at: int) -> int
    decreases sessions.len() - at,
{
    if 0 <= at < sessions.len() && !listed_before(session, sessions[at]) {
        slot(session, sessions, at + 1)
    } else {
        at
    }
}

proof fn slot_is_first(session: SessionRef, sessions: Seq<SessionRef>, at: int)
    requires
        0 <= at <= sessions.len(),
        forall|j: int| 0 <= j < at ==> !listed_before(session, #[trigger] sessions[j]),
    ensures
        at <= slot(session, sessions, at) <= sessions.len(),
        forall|j: int|
            0 <= j < slot(session, sessions, at) ==> !listed_before(session, #[trigger] sessions[j]),
        slot(session, sessions, at) < sessions.len() ==> listed_before(
            session,
            sessions[slot(session, sessions, at)],
        ),
    decreases sessions.len() - at,
{
    if at < sessions.len() && !listed_before(session, sessions[at]) {
        slot_is_first(session, sessions, at + 1);
    }
}

/// Positions can always be ranged.
proof fn a_range_exists(all: Seq<SessionRef>, seen: int) -> (range: (Seq<int>, Seq<SessionRef>))
    requires
        0 <= seen <= all.len(),
    ensures
        ranged(all, seen, range.0, range.1),
    decreases seen,
{
    if seen == 0 {
        (Seq::empty(), Seq::empty())
    } else {
        let (order, sessions) = a_range_exists(all, seen - 1);
        let at = slot(all[seen - 1], sessions, 0);
        slot_is_first(all[seen - 1], sessions, 0);
        ranged_insert(all, seen - 1, order, sessions, at);
        (order.insert(at, seen - 1), sessions.insert(at, all[seen - 1]))
    }
}

/// Cutting off a range of all positions selects the newest sessions.
proof fn a_cut_range_is_newest(
    all: Seq<SessionRef>,
    cap: nat,
    order: Seq<int>,
    sessions: Seq<SessionRef>,
)
    requires
        ranged(all, all.len() as int, order, sessions),
    ensures
        newest(
            all,
            cap,
            if cap < all.len() {
                sessions.take(cap as int)
            } else {
                sessions
            },
        ),
{
    let (kept, picked) = if cap < all.len() {
        (order.take(cap as int), sessions.take(cap as int))
    } else {
        (order, sessions)
    };
    assert forall|i: int, k: int|
        0 <= i < kept.len() && 0 <= k < all.len() && !#[trigger] kept.contains(
            k,
        ) implies goes_before(all, #[trigger] kept[i], k) by {
        assert(order.contains(k));
        let j = order.index_of(k);
        assert(order[j] == k);
        if j < kept.len() {
            assert(kept[j] == k);
        }
        assert(goes_before(all, order[i], order[j]));
    }
    assert(picks(all, cap, kept, picked));
}

/// Any sessions can be selected from, under any cap.
pub proof fn a_selection_exists(all: Seq<SessionRef>, cap: nat)
    ensures
        newest(all, cap, selection(all, cap)),
{
    let (order, sessions) = a_range_exists(all, all.len() as int);
    a_cut_range_is_newest(all, cap, order, sessions);
}

/// The newest `max_sessions` sessions, newest first; sessions of the same age
/// go by id, and sessions that agree in both keep their order.
pub fn select_sessions(all: Vec<SessionRef>, max_sessions: usize) -> (picked: Vec<SessionRef>)
    ensures
        newest(all@, max_sessions as nat, picked@),
        picked@ == selection(all@, max_sessions as nat),
{
    let ghost source = all@;
    let mut picked: Vec<SessionRef> = Vec::new();
    let ghost mut order = Seq::<int>::empty();
    for session in it: all
        invariant
            it.seq() == source,
            ranged(source, it.index() as int, order, picked@),
    {
        let ghost seen = it.index() as int;
        let mut at: usize = 0;
        while at < picked.len() && !is_listed_before(&session, &picked[at])
            invariant
                at <= picked.len(),
                forall|j: int| 0 <= j < at ==> !listed_before(session, #[trigger] picked@[j]),
            decreases picked.len() - at,
        {
            at += 1;
        }
        proof {
            ranged_insert(source, seen, order, picked@, at as int);
            order = order.insert(at as int, seen);
        }
        picked.insert(at, session);
    }
    let ghost whole = picked@;
    picked.truncate(max_sessions);
    proof {
        let cap = max_sessions as nat;
        a_cut_range_is_newest(source, cap, order, whole);
        assert(picked@ == if cap < source.len() {
            whole.take(cap as int)
        } else {
            whole
        });
        a_smaller_cap_keeps_a_prefix(source, cap, cap, picked@, selection(source, cap));
    }
    picked
}

/// Of two positions at most one goes before the other.
proof fn goes_before_is_asymmetric(all: Seq<SessionRef>, i: int, j: int)
    ensures
        !(goes_before(all, i, j) && goes_before(all, j, i)),
{
    listed_before_is_weak_order(all[i], all[j], all[i]);
}

/// The positions picked under the smaller of two caps are the first ones
/// picked under the larger.
proof fn picks_agree(
    all: Seq<SessionRef>,
    few: nat,
    many: nat,
    a: Seq<int>,
    b: Seq<int>,
    x: Seq<SessionRef>,
    y: Seq<SessionRef>,
    i: int,
)
    requires
        few <= many,
        picks(all, few, a, x),
        picks(all, many, b, y),
        0 <= i < a.len(),
    ensures
        a[i] == b[i],
    decreases i,
{
    assert forall|k: int| 0 <= k < i implies a[k] == b[k] by {
        picks_agree(all, few, many, a, b, x, y, k);
    }
    if a[i] != b[i] {
        if a.contains(b[i]) {
            let j = a.index_of(b[i]);
            assert(a[j] == b[i]);
            if j < i {
                assert(b[j] == b[i]);
                goes_before_is_asymmetric(all, b[j], b[i]);
            }
        }
        if b.contains(a[i]) {
            let j = b.index_of(a[i]);
            assert(b[j] == a[i]);
            if j < i {
                assert(a[j] == a[i]);
                goes_before_is_asymmetric(all, a[j], a[i]);
            }
        }
        goes_before_is_asymmetric(all, a[i], b[i]);
    }
}

/// A smaller cap keeps the first sessions of what a larger cap keeps; in
/// particular the cap and the sessions decide the selection.
pub proof fn a_smaller_cap_keeps_a_prefix(
    all: Seq<SessionRef>,
    few: nat,
    many: nat,
    x: Seq<SessionRef>,
    y: Seq<SessionRef>,
)
    requires
        few <= many,
        newest(all, few, x),
        newest(all, many, y),
    ensures
        x.len() <= y.len(),
        x == y.take(x.len() as int),
        few == many ==> x == y,
{
    let a = choose|order: Seq<int>| #[trigger] picks(all, few, order, x);
    let b = choose|order: Seq<int>| #[trigger] picks(all, many, order, y);
    assert forall|i: int| 0 <= i < x.len() implies x[i] == y[i] by {
        picks_agree(all, few, many, a, b, x, y, i);
        assert(x[i] == all[a[i]] && y[i] == all[b[i]]);
    }
    assert(x == y.take(x.len() as int));
    if few == many {
        assert(x == y);
    }
}

/// The selection is as long as the cap allows, it only holds sessions that
/// were offered, it runs from the newest to the oldest, and no session that
/// was left out is listed before one that was kept.
pub proof fn the_newest_sessions_are_kept(all: Seq<SessionRef>, cap: nat, picked: Seq<SessionRef>)
    requires
        newest(all, cap, picked),
    ensures
        picked.len() == if cap < all.len() {
            cap
        } else {
            all.len()
        },
        forall|i: int| 0 <= i < picked.len() ==> all.contains(#[trigger] picked[i]),
        forall|i: int, j: int|
            0 <= i < j < picked.len() ==> !listed_before(#[trigger] picked[j], #[trigger] picked[i]),
        forall|i: int, k: int|
            0 <= i < picked.len() && 0 <= k < all.len() && !picked.contains(#[trigger] all[k])
                ==> !listed_before(all[k], #[trigger] picked[i]),
{
    let order = choose|order: Seq<int>| #[trigger] picks(all, cap, order, picked);
    assert forall|i: int| 0 <= i < picked.len() implies all.contains(#[trigger] picked[i]) by {
        assert(all[order[i]] == picked[i]);
    }
    assert forall|i: int, j: int| 0 <= i < j < picked.len() implies !listed_before(
        #[trigger] picked[j],
        #[trigger] picked[i],
    ) by {
        assert(goes_before(all, order[i], order[j]));
        listed_before_is_weak_order(picked[i], picked[j], picked[i]);
    }
    assert forall|i: int, k: int|
        0 <= i < picked.len() && 0 <= k < all.len() && !picked.contains(
            #[trigger] all[k],
        ) implies !listed_before(all[k], #[trigger] picked[i]) by {
        if order.contains(k) {
            let j = order.index_of(k);
            assert(picked[j] == all[order[j]]);
        }
        assert(goes_before(all, order[i], k));
        listed_before_is_weak_order(picked[i], all[k], picked[i]);
    }
}

/// The session passes the id filter: there is none, or it names this session.
pub open spec fn wanted(only: Option<Seq<char>>, session: NativeSession) -> bool {
    match only {
        None => true,
        Some(id) => id == session.native_session_id@,
    }
}

/// The wanted sessions of one harness, in listing order.
pub open spec fn refs_of(
    harness: ManagedHarness,
    sessions: Seq<NativeSession>,
    only: Option<Seq<char>>,
) -> Seq<SessionRef>
    decreases sessions.len(),
{
    if sessions.len() == 0 {
        Seq::empty()
    } else {
        let before = refs_of(harness, sessions.drop_last(), only);
        let last = sessions.last();
        if wanted(only, last) {
            before.push(
                SessionRef {
                    harness,
                    native_session_id: last.native_session_id,
                    updated_at: last.updated_at,
                },
            )
        } else {
            before
        }
    }
}

/// The wanted sessions of every store that could be read, in scan order.
pub open spec fn collected(listings: Seq<HarnessListing>, only: Option<Seq<char>>) -> Seq<SessionRef>
    decreases listings.len(),
{
    if listings.len() == 0 {
        Seq::empty()
    } else {
        let before = collected(listings.drop_last(), only);
        match listings.last().sessions {
            None => before,
            Some(sessions) => before + refs_of(listings.last().harness, sessions@, only),
        }
    }
}

/// Naming a session id narrows the sessions to those with that id and changes
/// nothing else.
pub proof fn an_id_narrows_the_sessions(listings: Seq<HarnessListing>, id: Seq<char>)
    ensures
        collected(listings, Some(id)) == collected(listings, None).filter(
            |session: SessionRef| session.native_session_id@ == id,
        ),
    decreases listings.len(),
{
    let named = |session: SessionRef| session.native_session_id@ == id;
    reveal(Seq::filter);
    if listings.len() > 0 {
        let before = listings.drop_last();
        an_id_narrows_the_sessions(before, id);
        if let Some(sessions) = listings.last().sessions {
            let harness = listings.last().harness;
            an_id_narrows_one_harness(harness, sessions@, id);
            Seq::filter_distributes_over_add(
                collected(before, None),
                refs_of(harness, sessions@, None),
                named,
            );
        }
    }
}

proof fn an_id_narrows_one_harness(
    harness: ManagedHarness,
    sessions: Seq<NativeSession>,
    id: Seq<char>,
)
    ensures
        refs_of(harness, sessions, Some(id)) == refs_of(harness, sessions, None).filter(
            |session: SessionRef| session.native_session_id@ == id,
        ),
    decreases sessions.len(),
{
    reveal(Seq::filter);
    if sessions.len() > 0 {
        let before = sessions.drop_last();
        an_id_narrows_one_harness(harness, before, id);
        let all = refs_of(harness, sessions, None);
        assert(all.drop_last() == refs_of(harness, before, None));
    }
}

/// A store that is absent or cannot be read contributes nothing.
pub proof fn an_unreadable_store_contributes_nothing(
    listings: Seq<HarnessListing>,
    listing: HarnessListing,
    only: Option<Seq<char>>,
)
    requires
        listing.sessions is None,
    ensures
        collected(listings.push(listing), only) == collected(listings, only),
{
    assert(listings.push(listing).drop_last() == listings);
}

/// Gathers the local sessions of every scanned harness; a store that is absent
/// or unreadable contributes nothing. `only_session` narrows them to one id.
pub fn collect_local_sessions(
    listings: &Vec<HarnessListing>,
    only_session: Option<&str>,
) -> (found: Vec<SessionRef>)
    ensures
        found@ == collected(listings@, only_session.deep_view()),
{
    let mut found: Vec<SessionRef> = Vec::new();
    let ghost only = only_session.deep_view();
    for n in 0..listings.len()
        invariant
            only == only_session.deep_view(),
            found@ == collected(listings@.take(n as int), only),
    {
        let listing = &listings[n];
        assert(listings@.take(n + 1).drop_last() == listings@.take(n as int));
        if let Some(sessions) = &listing.sessions {
            let ghost before = found@;
            for m in 0..sessions.len()
                invariant
                    only == only_session.deep_view(),
                    found@ == before + refs_of(listing.harness, sessions@.take(m as int), only),
            {
                let session = &sessions[m];
                assert(sessions@.take(m + 1).drop_last() == sessions@.take(m as int));
                let keep = match only_session {
                    None => true,
                    Some(id) => text::same_text(id, session.native_session_id.as_str()),
                };
                if keep {
                    found.push(
                        SessionRef {
                            harness: listing.harness,
                            native_session_id: session.native_session_id.clone(),
                            updated_at: session.updated_at,
                        },
                    );
                }
            }
            assert(sessions@.take(sessions@.len() as int) == sessions@);
        }
    }
    assert(listings@.take(listings@.len() as int) == listings@);
    found
}

/// `picked[i]` is the session at position `at[i]` of `all`, no position is
/// taken twice, and sessions of the same age and id keep their order.
pub open spec fn taken_from(
    all: Seq<SessionRef>,
    picked: Seq<SessionRef>,
    at: Seq<int>,
) -> bool {
    &&& at.len() == picked.len()
    &&& at.no_duplicates()
    &&& forall|i: int|
        0 <= i < at.len() ==> 0 <= #[trigger] at[i] < all.len() && picked[i] == all[at[i]]
    &&& forall|i: int, j: int|
        0 <= i < j < at.len() && picked[i].updated_at == picked[j].updated_at
            && picked[i].native_session_id@ == picked[j].native_session_id@ ==> #[trigger] at[i]
            < #[trigger] at[j]
}

/// The selection runs from the newest session to the oldest, sessions of the
/// same age by id and then by position; it takes each position once, and what
/// it leaves out is not newer than what it keeps.
pub proof fn the_selection_goes_by_age_id_and_position(
    all: Seq<SessionRef>,
    cap: nat,
    picked: Seq<SessionRef>,
)
    requires
        newest(all, cap, picked),
    ensures
        exists|at: Seq<int>| taken_from(all, picked, at),
        forall|i: int, j: int|
            0 <= i < j < picked.len() ==> !(#[trigger] picked[i]).updated_at.before(
                (#[trigger] picked[j]).updated_at,
            ),
        forall|i: int, j: int|
            0 <= i < j < picked.len() && picked[i].updated_at == picked[j].updated_at
                ==> !text::text_before(
                (#[trigger] picked[j]).native_session_id@,
                (#[trigger] picked[i]).native_session_id@,
            ),
        forall|i: int, k: int|
            0 <= i < picked.len() && 0 <= k < all.len() && !picked.contains(#[trigger] all[k])
                ==> !(#[trigger] picked[i]).updated_at.before(all[k].updated_at),
{
    the_newest_sessions_are_kept(all, cap, picked);
    let order = choose|order: Seq<int>| #[trigger] picks(all, cap, order, picked);
    assert forall|i: int, j: int|
        0 <= i < order.len() && 0 <= j < order.len() && i != j implies order[i] != order[j] by {
        if i < j {
            assert(goes_before(all, order[i], order[j]));
            goes_before_is_asymmetric(all, order[i], order[j]);
        } else {
            assert(goes_before(all, order[j], order[i]));
            goes_before_is_asymmetric(all, order[j], order[i]);
        }
    }
    assert forall|i: int, j: int|
        0 <= i < j < order.len() && picked[i].updated_at == picked[j].updated_at
            && picked[i].native_session_id@
            == picked[j].native_session_id@ implies #[trigger] order[i] < #[trigger] order[j] by {
        assert(goes_before(all, order[i], order[j]));
        listed_before_is_weak_order(picked[i], picked[j], picked[i]);
        let id = picked[i].native_session_id@;
        text::text_order_is_strict_and_total(id, id, id);
    }
    assert(taken_from(all, picked, order));
    assert forall|i: int, j: int| 0 <= i < j < picked.len() implies !(
    #[trigger] picked[i]).updated_at.before((#[trigger] picked[j]).updated_at) by {
        assert(!listed_before(picked[j], picked[i]));
    }
    assert forall|i: int, j: int|
        0 <= i < j < picked.len() && picked[i].updated_at
            == picked[j].updated_at implies !text::text_before(
        (#[trigger] picked[j]).native_session_id@,
        (#[trigger] picked[i]).native_session_id@,
    ) by {
        assert(!listed_before(picked[j], picked[i]));
    }
}

/// The sessions of two lots of stores are those of the first, then those of the
/// second.
pub proof fn sessions_are_collected_store_by_store(
    a: Seq<HarnessListing>,
    b: Seq<HarnessListing>,
    only: Option<Seq<char>>,
)
    ensures
        collected(a + b, only) == collected(a, only) + collected(b, only),
    decreases b.len(),
{
    if b.len() == 0 {
        assert(a + b == a);
    } else {
        assert((a + b).drop_last() == a + b.drop_last());
        sessions_are_collected_store_by_store(a, b.drop_last(), only);
    }
}

/// All sessions of a harness, with their ids and ages.
proof fn refs_keep_the_sessions(harness: ManagedHarness, sessions: Seq<NativeSession>)
    ensures
        refs_of(harness, sessions, None).len() == sessions.len(),
        forall|i: int|
            0 <= i < sessions.len() ==> (#[trigger] refs_of(harness, sessions, None)[i]) == (
            SessionRef {
                harness,
                native_session_id: sessions[i].native_session_id,
                updated_at: sessions[i].updated_at,
            }),
    decreases sessions.len(),
{
    if sessions.len() > 0 {
        let before = sessions.drop_last();
        refs_keep_the_sessions(harness, before);
        assert forall|i: int| 0 <= i < sessions.len() implies (#[trigger] refs_of(
            harness,
            sessions,
            None,
        )[i]) == (SessionRef {
            harness,
            native_session_id: sessions[i].native_session_id,
            updated_at: sessions[i].updated_at,
        }) by {
            if i < before.len() {
                assert(refs_of(harness, before, None)[i] == refs_of(harness, sessions, None)[i]);
            }
        }
    }
}

/// A store that was read contributes each of its sessions once, in order, under
/// its harness and with its id and age.
pub proof fn a_store_contributes_each_of_its_sessions(listing: HarnessListing)
    ensures
        listing.sessions matches Some(sessions) ==> {
            let found = collected(seq![listing], None);
            &&& found.len() == sessions@.len()
            &&& forall|i: int|
                0 <= i < found.len() ==> {
                    &&& (#[trigger] found[i]).harness == listing.harness
                    &&& found[i].native_session_id@ == sessions@[i].native_session_id@
                    &&& found[i].updated_at == sessions@[i].updated_at
                }
        },
{
    let one = seq![listing];
    assert(one.drop_last() == Seq::<HarnessListing>::empty());
    assert(collected(one.drop_last(), None) == Seq::<SessionRef>::empty());
    if let Some(sessions) = listing.sessions {
        refs_keep_the_sessions(listing.harness, sessions@);
        assert(collected(one, None) == refs_of(listing.harness, sessions@, None));
    }
}

} // verus!
