//! Delivering hook items in server-sized batches: which items to post next,
//! and what an acknowledgement means.

use vstd::prelude::*;
use vstd::string::*;

use crate::text;

verus! {

/// One batch carries at most this many items, the most that the server takes.
pub const HOOK_BATCH_ITEMS: usize = 256;

/// After this many acknowledgements in a row that accept nothing, delivery
/// gives up.
pub const MAX_STALLS: u32 = 5;

/// How far the delivery of a list of items has come.
#[derive(Debug, Clone, Copy, PartialEq, Eq, Structural)]
pub struct Delivery {
    /// Items to deliver.
    pub total: usize,
    /// Leading items that the server has accepted.
    pub delivered: usize,
    /// Acknowledgements since then, all of which accepted nothing.
    pub stalled: u32,
}

/// The items `from..to` that go into the next batch.
#[derive(Debug, Clone, Copy, PartialEq, Eq, Structural)]
pub struct Batch {
    pub from: usize,
    pub to: usize,
}

/// What to do after an acknowledgement.
#[derive(Debug)]
pub enum Advice {
    /// Post the next batch.
    Continue,
    /// Wait this many milliseconds, then post the same items again.
    Pause(u64),
    /// Stop with this error.
    GiveUp(String),
}

/// The number of items in the batch that starts after `delivered` items:
/// batches are cut at the multiples of the batch size and at the end.
pub open spec fn batch_len(total: int, delivered: int) -> int {
    let room = HOOK_BATCH_ITEMS - delivered % (HOOK_BATCH_ITEMS as int);
    if room < total - delivered {
        room
    } else {
        total - delivered
    }
}

impl Delivery {
    /// No more is delivered than there is, and stalls are counted up to the
    /// limit and only while something is left.
    pub open spec fn valid(self) -> bool {
        &&& self.delivered <= self.total
        &&& self.stalled <= MAX_STALLS
        &&& self.delivered == self.total ==> self.stalled == 0
    }

    /// Something is left to post, and delivery has not given up.
    pub open spec fn live(self) -> bool {
        &&& self.delivered < self.total
        &&& self.stalled < MAX_STALLS
    }

    /// The delivery after an acknowledgement that accepts `accepted` items of
    /// the batch. Acknowledged items beyond the batch count for nothing.
    pub open spec fn after_ack(self, accepted: nat) -> Delivery {
        let batch = batch_len(self.total as int, self.delivered as int);
        if accepted == 0 {
            Delivery { stalled: (self.stalled + 1) as u32, ..self }
        } else if accepted < batch {
            Delivery { delivered: (self.delivered + accepted) as usize, stalled: 0, ..self }
        } else {
            Delivery { delivered: (self.delivered + batch) as usize, stalled: 0, ..self }
        }
    }

    /// The delivery of `total` items before anything was posted.
    pub fn new(total: usize) -> (delivery: Delivery)
        ensures
            delivery == (Delivery { total, delivered: 0, stalled: 0 }),
            delivery.valid(),
    {
        Delivery { total, delivered: 0, stalled: 0 }
    }

    /// The number of items in the next batch.
    fn batch_size(&self) -> (len: usize)
        requires
            self.delivered < self.total,
        ensures
            len == batch_len(self.total as int, self.delivered as int),
            1 <= len <= self.total - self.delivered,
    {
        let room: usize = HOOK_BATCH_ITEMS - self.delivered % HOOK_BATCH_ITEMS;
        let left: usize = self.total - self.delivered;
        if room < left {
            room
        } else {
            left
        }
    }

    /// The next batch to post, `None` when every item is delivered.
    pub fn next_batch(&self) -> (batch: Option<Batch>)
        requires
            self.valid(),
        ensures
            match batch {
                None => self.delivered == self.total,
                Some(batch) => {
                    &&& batch.from == self.delivered
                    &&& batch.to == self.delivered + batch_len(
                        self.total as int,
                        self.delivered as int,
                    )
                    &&& batch.from < batch.to <= self.total
                },
            },
    {
        if self.delivered == self.total {
            return None;
        }
        let len: usize = self.batch_size();
        Some(Batch { from: self.delivered, to: self.delivered + len })
    }

    /// Takes the server's acknowledgement of the posted batch: `accepted` of
    /// its leading items are committed. When none is, the same items are due
    /// again after a pause that grows with every stall, until delivery gives
    /// up.
    pub fn acknowledge(&mut self, accepted: usize) -> (advice: Advice)
        requires
            old(self).valid(),
            old(self).live(),
        ensures
            final(self).valid(),
            *final(self) == old(self).after_ack(accepted as nat),
            match advice {
                Advice::Continue => accepted > 0,
                Advice::Pause(millis) => {
                    &&& accepted == 0
                    &&& final(self).stalled < MAX_STALLS
                    &&& millis == 200 * final(self).stalled
                },
                Advice::GiveUp(message) => {
                    &&& accepted == 0
                    &&& final(self).stalled == MAX_STALLS
                    &&& message@ == "server accepted none of a hook batch after "@ + text::decimal(
                        MAX_STALLS as nat,
                    ) + " attempts (rate limited or saturated); rerun to resume"@
                },
            },
    {
        if accepted == 0 {
            self.stalled = self.stalled + 1;
            if self.stalled >= MAX_STALLS {
                let mut message = "server accepted none of a hook batch after ".to_owned();
                message.append(text::decimal_of(self.stalled as u64).as_str());
                message.append(" attempts (rate limited or saturated); rerun to resume");
                return Advice::GiveUp(message);
            }
            return Advice::Pause(200 * self.stalled as u64);
        }
        let len: usize = self.batch_size();
        let step: usize = if accepted < len {
            accepted
        } else {
            len
        };
        self.stalled = 0;
        self.delivered = self.delivered + step;
        Advice::Continue
    }
}

/// The delivery of `total` items after the acknowledgements `acks`.
pub open spec fn after_acks(total: usize, acks: Seq<nat>) -> Delivery
    decreases acks.len(),
{
    if acks.len() == 0 {
        Delivery { total, delivered: 0, stalled: 0 }
    } else {
        after_acks(total, acks.drop_last()).after_ack(acks.last())
    }
}

/// The server can have answered a delivery of `total` items with `acks`: each
/// of them came while something was left to post and delivery had not given up.
pub open spec fn answers(total: usize, acks: Seq<nat>) -> bool {
    forall|n: int| 0 <= n < acks.len() ==> (#[trigger] after_acks(total, acks.take(n))).live()
}

/// A batch is never empty, never exceeds the batch size, and never crosses a
/// multiple of it.
pub proof fn batches_respect_the_limit(total: int, delivered: int)
    requires
        0 <= delivered < total,
    ensures
        1 <= batch_len(total, delivered) <= HOOK_BATCH_ITEMS,
        delivered + batch_len(total, delivered) <= total,
        delivered / (HOOK_BATCH_ITEMS as int) == (delivered + batch_len(total, delivered) - 1) / (
        HOOK_BATCH_ITEMS as int),
{
}

/// The answers without the last one are answers too, and they leave a valid
/// delivery of the same items.
proof fn answers_prefix(total: usize, acks: Seq<nat>)
    requires
        answers(total, acks),
    ensures
        after_acks(total, acks).valid(),
        after_acks(total, acks).total == total,
        acks.len() > 0 ==> answers(total, acks.drop_last()) && after_acks(
            total,
            acks.drop_last(),
        ).live() && after_acks(total, acks.drop_last()).valid(),
    decreases acks.len(),
{
    if acks.len() > 0 {
        let before = acks.drop_last();
        assert forall|n: int| 0 <= n < before.len() implies (#[trigger] after_acks(
            total,
            before.take(n),
        )).live() by {
            assert(before.take(n) == acks.take(n));
        }
        assert(acks.take(acks.len() - 1) == before);
        answers_prefix(total, before);
    }
}

/// Delivery never goes back: what was delivered stays delivered.
pub proof fn delivery_only_advances(total: usize, acks: Seq<nat>, n: int)
    requires
        answers(total, acks),
        0 <= n <= acks.len(),
    ensures
        after_acks(total, acks.take(n)).delivered <= after_acks(total, acks).delivered <= total,
    decreases acks.len(),
{
    answers_prefix(total, acks);
    if n < acks.len() {
        delivery_only_advances(total, acks.drop_last(), n);
        assert(acks.drop_last().take(n) == acks.take(n));
    } else {
        assert(acks.take(n) == acks);
    }
}

/// The acknowledgement `n` of `acks` is the one that accepts the item `item`.
pub open spec fn accepted_by(total: usize, acks: Seq<nat>, item: int, n: int) -> bool {
    after_acks(total, acks.take(n)).delivered <= item < after_acks(
        total,
        acks.take(n + 1),
    ).delivered
}

/// Every delivered item was accepted by exactly one acknowledgement.
pub proof fn every_item_is_accepted_once(total: usize, acks: Seq<nat>, item: int)
    requires
        answers(total, acks),
        0 <= item < after_acks(total, acks).delivered,
    ensures
        exists|n: int| 0 <= n < acks.len() && #[trigger] accepted_by(total, acks, item, n),
        forall|n: int, m: int|
            0 <= n < acks.len() && 0 <= m < acks.len() && #[trigger] accepted_by(
                total,
                acks,
                item,
                n,
            ) && #[trigger] accepted_by(total, acks, item, m) ==> n == m,
    decreases acks.len(),
{
    answers_prefix(total, acks);
    let before = acks.drop_last();
    let last = acks.len() - 1;
    assert(acks.take(last) == before);
    assert(acks.take(last + 1) == acks);
    if item < after_acks(total, before).delivered {
        every_item_is_accepted_once(total, before, item);
        let n = choose|n: int|
            0 <= n < before.len() && #[trigger] accepted_by(total, before, item, n);
        assert(before.take(n) == acks.take(n));
        assert(before.take(n + 1) == acks.take(n + 1));
        assert(accepted_by(total, acks, item, n));
    } else {
        assert(accepted_by(total, acks, item, last));
    }
    assert forall|n: int, m: int|
        0 <= n < acks.len() && 0 <= m < acks.len() && #[trigger] accepted_by(
            total,
            acks,
            item,
            n,
        ) && #[trigger] accepted_by(total, acks, item, m) implies n == m by {
        if n < m {
            accepted_only_once(total, acks, item, n, m);
        } else if m < n {
            accepted_only_once(total, acks, item, m, n);
        }
    }
}

/// An item that one acknowledgement accepts is not accepted by a later one.
proof fn accepted_only_once(total: usize, acks: Seq<nat>, item: int, n: int, m: int)
    requires
        answers(total, acks),
        0 <= n < m < acks.len(),
        accepted_by(total, acks, item, n),
    ensures
        !accepted_by(total, acks, item, m),
{
    answers_of_prefix(total, acks, m);
    delivery_only_advances(total, acks.take(m), n + 1);
    assert(acks.take(m).take(n + 1) == acks.take(n + 1));
}

/// Any number of leading answers are answers.
proof fn answers_of_prefix(total: usize, acks: Seq<nat>, n: int)
    requires
        answers(total, acks),
        0 <= n <= acks.len(),
    ensures
        answers(total, acks.take(n)),
{
    let part = acks.take(n);
    assert forall|k: int| 0 <= k < part.len() implies (#[trigger] after_acks(
        total,
        part.take(k),
    )).live() by {
        assert(part.take(k) == acks.take(k));
    }
}

/// The number of acknowledgements at the end of `acks` that accept nothing.
pub open spec fn trailing_stalls(acks: Seq<nat>) -> nat
    decreases acks.len(),
{
    if acks.len() > 0 && acks.last() == 0 {
        trailing_stalls(acks.drop_last()) + 1
    } else {
        0
    }
}

/// Delivery gives up exactly when the last acknowledgements, as many as the
/// limit, all accepted nothing.
pub proof fn giving_up_takes_stalls_in_a_row(total: usize, acks: Seq<nat>)
    requires
        answers(total, acks),
    ensures
        after_acks(total, acks).stalled == trailing_stalls(acks),
        trailing_stalls(acks) <= MAX_STALLS,
    decreases acks.len(),
{
    answers_prefix(total, acks);
    if acks.len() > 0 {
        giving_up_takes_stalls_in_a_row(total, acks.drop_last());
    }
}

/// Delivery ends: the acknowledgements it takes are bounded by the number of
/// items, and it ends with every item delivered unless it gave up.
pub proof fn delivery_ends(total: usize, acks: Seq<nat>)
    requires
        answers(total, acks),
    ensures
        acks.len() <= MAX_STALLS * after_acks(total, acks).delivered + after_acks(
            total,
            acks,
        ).stalled,
        acks.len() <= MAX_STALLS * total + MAX_STALLS,
        !after_acks(total, acks).live() ==> {
            ||| after_acks(total, acks).delivered == total
            ||| trailing_stalls(acks) == MAX_STALLS
        },
    decreases acks.len(),
{
    answers_prefix(total, acks);
    giving_up_takes_stalls_in_a_row(total, acks);
    if acks.len() > 0 {
        delivery_ends(total, acks.drop_last());
        batches_respect_the_limit(
            total as int,
            after_acks(total, acks.drop_last()).delivered as int,
        );
    }
}

/// A batch goes up to the next multiple of 256 items, or to the last item when
/// that comes first; no such multiple lies inside it.
pub proof fn batches_go_up_to_the_next_boundary(total: int, delivered: int, inside: int)
    requires
        0 <= delivered < total,
    ensures
        delivered < delivered + batch_len(total, delivered) <= total,
        delivered + batch_len(total, delivered) == total || (delivered + batch_len(
            total,
            delivered,
        )) % 256 == 0,
        delivered < inside < delivered + batch_len(total, delivered) ==> inside % 256 != 0,
{
}

/// An acknowledgement delivers the items that the server accepted, up to the
/// end of the batch, no more and no fewer; it changes nothing about the items
/// to deliver, and it counts a stall exactly when nothing was accepted.
pub proof fn an_acknowledgement_delivers_what_was_accepted(delivery: Delivery, accepted: nat)
    requires
        delivery.valid(),
        delivery.live(),
    ensures
        ({
            let after = delivery.after_ack(accepted);
            let batch = batch_len(delivery.total as int, delivery.delivered as int);
            &&& after.delivered <= delivery.delivered + accepted
            &&& after.delivered <= delivery.delivered + batch
            &&& after.delivered == delivery.delivered + accepted || after.delivered
                == delivery.delivered + batch
            &&& after.total == delivery.total
            &&& accepted > 0 ==> after.stalled == 0
            &&& accepted == 0 ==> after.stalled == delivery.stalled + 1
        }),
{
    batches_respect_the_limit(delivery.total as int, delivery.delivered as int);
}

/// The accepted counts added up.
pub open spec fn accepted_total(acks: Seq<nat>) -> nat
    decreases acks.len(),
{
    if acks.len() == 0 {
        0
    } else {
        accepted_total(acks.drop_last()) + acks.last()
    }
}

/// No item is taken as delivered that the server did not accept, and when it
/// never claims more than it was sent, every accepted item is delivered.
pub proof fn only_accepted_items_are_delivered(total: usize, acks: Seq<nat>)
    requires
        answers(total, acks),
    ensures
        after_acks(total, acks).delivered <= accepted_total(acks),
        (forall|n: int|
            0 <= n < acks.len() ==> #[trigger] acks[n] <= batch_len(
                total as int,
                after_acks(total, acks.take(n)).delivered as int,
            )) ==> after_acks(total, acks).delivered == accepted_total(acks),
    decreases acks.len(),
{
    answers_prefix(total, acks);
    if acks.len() > 0 {
        let before = acks.drop_last();
        let last = acks.len() - 1;
        only_accepted_items_are_delivered(total, before);
        an_acknowledgement_delivers_what_was_accepted(after_acks(total, before), acks.last());
        assert(acks.take(last) == before);
        if forall|n: int|
            0 <= n < acks.len() ==> #[trigger] acks[n] <= batch_len(
                total as int,
                after_acks(total, acks.take(n)).delivered as int,
            ) {
            assert(acks[last] == acks.last());
            assert forall|n: int| 0 <= n < before.len() implies #[trigger] before[n] <= batch_len(
                total as int,
                after_acks(total, before.take(n)).delivered as int,
            ) by {
                assert(before[n] == acks[n]);
                assert(before.take(n) == acks.take(n));
            }
        }
    }
}

} // verus!
