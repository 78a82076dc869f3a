//! Operations that can be cancelled by name, also before they have begun.
use crate::registry::Registry;
use crate::ssh::{error_result, OPERATION_CANCELLED};
use crate::text::{copy, lemma_views_push, same, views};
use vstd::prelude::*;

verus! {

broadcast use vstd::string::group_string_axioms;

/// How long a cancellation waits for its operation, in milliseconds.
pub const PENDING_CANCELLATION_TTL: u64 = 60_000;

/// How many cancellations may wait.
pub const MAX_PENDING_CANCELLATIONS: usize = 1_024;

/// An operation that has begun. `flag` names the flag that it watches.
#[derive(Clone, Copy, Debug, PartialEq, Eq, Structural)]
pub struct Running {
    pub flag: u64,
    pub cancelled: bool,
}

/// A cancellation whose operation has not begun, made at the time `since`.
#[derive(Debug, PartialEq, Eq)]
pub struct Pending {
    pub id: String,
    pub flag: u64,
    pub since: u64,
}

#[verifier::ext_equal]
pub struct PendingView {
    pub id: Seq<char>,
    pub flag: u64,
    pub since: u64,
}

impl View for Pending {
    type V = PendingView;

    open spec fn view(&self) -> PendingView {
        PendingView { id: self.id@, flag: self.flag, since: self.since }
    }
}

/// What a cancellation comes to: the flag to raise, and the flags of those that were dropped.
#[derive(Debug, PartialEq, Eq)]
pub struct Cancellation {
    pub flag: u64,
    pub dropped: Vec<u64>,
}

/// What a running operation holds on to.
#[derive(Debug, PartialEq, Eq)]
pub struct OperationHandle {
    pub id: String,
    pub flag: u64,
    pub cancelled: bool,
}

impl OperationHandle {
    /// The flag by which the operation is cancelled.
    pub fn cancellation(&self) -> (res: u64)
        ensures
            res == self.flag,
    {
        self.flag
    }
}

/// The operations that run, and the cancellations that wait, in the order in which
/// they were made.
pub struct Operations {
    pub running: Registry<Running>,
    pub pending: Vec<Pending>,
}

#[verifier::ext_equal]
pub struct OperationsView {
    pub running: Map<Seq<char>, Running>,
    pub pending: Seq<PendingView>,
}

impl View for Operations {
    type V = OperationsView;

    open spec fn view(&self) -> OperationsView {
        OperationsView { running: self.running@, pending: views(self.pending@) }
    }
}

/// How long ago `since` was.
pub open spec fn age(since: u64, now: u64) -> int {
    if now >= since {
        now - since
    } else {
        0
    }
}

/// The cancellations that have not waited too long.
pub open spec fn unexpired(pending: Seq<PendingView>, now: u64) -> Seq<PendingView>
    decreases pending.len(),
{
    if pending.len() == 0 {
        Seq::empty()
    } else if age(pending.last().since, now) < PENDING_CANCELLATION_TTL {
        unexpired(pending.drop_last(), now).push(pending.last())
    } else {
        unexpired(pending.drop_last(), now)
    }
}

/// The newest cancellations, as many as may wait.
pub open spec fn newest(pending: Seq<PendingView>) -> Seq<PendingView> {
    pending.skip(excess(pending))
}

/// The flags of the cancellations that have waited too long.
pub open spec fn expired_flags(pending: Seq<PendingView>, now: u64) -> Seq<u64>
    decreases pending.len(),
{
    if pending.len() == 0 {
        Seq::empty()
    } else if age(pending.last().since, now) < PENDING_CANCELLATION_TTL {
        expired_flags(pending.drop_last(), now)
    } else {
        expired_flags(pending.drop_last(), now).push(pending.last().flag)
    }
}

/// How many of the oldest cancellations have to go.
pub open spec fn excess(pending: Seq<PendingView>) -> int {
    if pending.len() <= MAX_PENDING_CANCELLATIONS {
        0
    } else {
        pending.len() - MAX_PENDING_CANCELLATIONS
    }
}

/// The flags of the cancellations that are dropped: of those that have waited too long, and
/// of the oldest of those that are too many.
pub open spec fn dropped_flags(pending: Seq<PendingView>, now: u64) -> Seq<u64> {
    let kept = unexpired(pending, now);
    expired_flags(pending, now) + Seq::new(excess(kept) as nat, |i: int| kept[i].flag)
}

/// The position of the cancellation of `id`, or the length.
pub open spec fn waiting_at(pending: Seq<PendingView>, id: Seq<char>) -> int
    decreases pending.len(),
{
    if pending.len() == 0 || pending[0].id == id {
        0
    } else {
        1 + waiting_at(pending.skip(1), id)
    }
}

pub open spec fn pruned(state: OperationsView, now: u64) -> OperationsView {
    OperationsView { running: state.running, pending: newest(unexpired(state.pending, now)) }
}

/// The state in which `id` is noted as cancelled, before cancellations are dropped again,
/// and the flag to raise.
pub open spec fn noted_state(
    state: OperationsView,
    id: Seq<char>,
    now: u64,
    fresh: u64,
) -> (OperationsView, u64) {
    let first = pruned(state, now);
    let at = waiting_at(first.pending, id);
    if first.running.dom().contains(id) {
        let flag = first.running[id].flag;
        (
            OperationsView {
                running: first.running.insert(id, Running { flag, cancelled: true }),
                pending: first.pending,
            },
            flag,
        )
    } else if at < first.pending.len() {
        (first, first.pending[at].flag)
    } else {
        (
            OperationsView {
                running: first.running,
                pending: first.pending.push(PendingView { id, flag: fresh, since: now }),
            },
            fresh,
        )
    }
}

/// The state after `id` was cancelled, and the flag to raise.
pub open spec fn cancelled_state(
    state: OperationsView,
    id: Seq<char>,
    now: u64,
    fresh: u64,
) -> (OperationsView, u64) {
    let (noted, flag) = noted_state(state, id, now, fresh);
    (pruned(noted, now), flag)
}

/// The flags that nothing waits for any more once `id` was cancelled.
pub open spec fn cancelled_drops(
    state: OperationsView,
    id: Seq<char>,
    now: u64,
    fresh: u64,
) -> Seq<u64> {
    dropped_flags(state.pending, now) + dropped_flags(
        noted_state(state, id, now, fresh).0.pending,
        now,
    )
}

/// The state after `id` has begun, its flag, and whether it is cancelled already.
pub open spec fn begun_state(state: OperationsView, id: Seq<char>, fresh: u64) -> (
    OperationsView,
    Running,
) {
    let at = waiting_at(state.pending, id);
    if state.running.dom().contains(id) {
        (state, state.running[id])
    } else if at < state.pending.len() {
        let run = Running { flag: state.pending[at].flag, cancelled: true };
        (
            OperationsView {
                running: state.running.insert(id, run),
                pending: state.pending.remove(at),
            },
            run,
        )
    } else {
        let run = Running { flag: fresh, cancelled: false };
        (OperationsView { running: state.running.insert(id, run), pending: state.pending }, run)
    }
}

/// The state after the operation with this flag has ended.
pub open spec fn finished_state(state: OperationsView, id: Seq<char>, flag: u64) -> OperationsView {
    if state.running.dom().contains(id) && state.running[id].flag == flag {
        OperationsView { running: state.running.remove(id), pending: state.pending }
    } else {
        state
    }
}

proof fn lemma_waiting_at(pending: Seq<PendingView>, id: Seq<char>, k: int)
    requires
        0 <= k <= pending.len(),
        forall|j: int| 0 <= j < k ==> (#[trigger] pending[j]).id != id,
        k < pending.len() ==> pending[k].id == id,
    ensures
        waiting_at(pending, id) == k,
    decreases pending.len(),
{
    if pending.len() > 0 && k > 0 {
        assert(pending[0].id != id);
        assert forall|j: int| 0 <= j < k - 1 implies (#[trigger] pending.skip(1)[j]).id != id by {
            assert(pending.skip(1)[j] == pending[j + 1]);
        }
        lemma_waiting_at(pending.skip(1), id, k - 1);
    }
}

/// The position of the cancellation of `id`, or the length.
fn find_waiting(pending: &[Pending], id: &str) -> (res: usize)
    ensures
        res == waiting_at(views(pending@), id@),
        res <= pending@.len(),
{
    let mut i: usize = 0;
    while i < pending.len() && !same(pending[i].id.as_str(), id)
        invariant
            i <= pending@.len(),
            forall|j: int| 0 <= j < i ==> pending@[j].id@ != id@,
        decreases pending@.len() - i,
    {
        i += 1;
    }
    proof {
        assert forall|j: int| 0 <= j < i implies (#[trigger] views(pending@)[j]).id != id@ by {}
        lemma_waiting_at(views(pending@), id@, i as int);
    }
    i
}

impl Operations {
    pub fn new() -> (res: Self)
        ensures
            res@.running == Map::<Seq<char>, Running>::empty(),
            res@.pending.len() == 0,
            settled(res@),
    {
        Operations { running: Registry::new(), pending: Vec::new() }
    }

    /// Drops the cancellations that have waited too long, and the oldest of those that
    /// are too many. The result are their flags.
    pub fn prune_pending_cancellations(&mut self, now: u64) -> (res: Vec<u64>)
        ensures
            final(self)@ == pruned(old(self)@, now),
            res@ == dropped_flags(old(self)@.pending, now),
    {
        let ghost all = views(self.pending@);
        let mut kept: Vec<Pending> = Vec::new();
        let mut dropped: Vec<u64> = Vec::new();
        let mut rest: Vec<Pending> = Vec::new();
        std::mem::swap(&mut rest, &mut self.pending);
        let mut left: usize = rest.len();
        let ghost mut seen: int = 0;
        assert(all.take(0) =~= Seq::empty());
        assert(all.skip(0) =~= all);
        assert(views(kept@) =~= Seq::empty());
        while left > 0
            invariant
                left == rest@.len(),
                0 <= seen <= all.len(),
                views(rest@) == all.skip(seen),
                views(kept@) == unexpired(all.take(seen), now),
                dropped@ == expired_flags(all.take(seen), now),
            decreases left,
        {
            broadcast use lemma_views_push;

            let ghost before = views(rest@);
            let entry = rest.remove(0);
            assert(views(rest@) =~= before.skip(1));
            assert(before[0] == entry@);
            assert(before.skip(1) =~= all.skip(seen + 1));
            assert(all.take(seen + 1).drop_last() =~= all.take(seen));
            assert(all.take(seen + 1).last() == entry@);
            if now.saturating_sub(entry.since) < PENDING_CANCELLATION_TTL {
                kept.push(entry);
            } else {
                dropped.push(entry.flag);
            }
            left -= 1;
            proof {
                seen = seen + 1;
            }
        }
        assert(views(rest@).len() == 0);
        assert(all.take(seen) =~= all);
        let ghost fresh = views(kept@);
        let ghost expired = dropped@;
        let ghost mut gone: int = 0;
        assert(fresh.skip(0) =~= fresh);
        assert(expired + Seq::new(0, |i: int| fresh[i].flag) =~= expired);
        while kept.len() > MAX_PENDING_CANCELLATIONS
            invariant
                0 <= gone <= excess(fresh),
                views(kept@) == fresh.skip(gone),
                dropped@ == expired + Seq::new(gone as nat, |i: int| fresh[i].flag),
            decreases kept@.len(),
        {
            let ghost before = views(kept@);
            assert(before.len() == kept@.len());
            let entry = kept.remove(0);
            assert(before[0] == entry@);
            dropped.push(entry.flag);
            assert(views(kept@) =~= before.skip(1));
            assert(before.skip(1) =~= fresh.skip(gone + 1));
            assert(dropped@ =~= expired + Seq::new((gone + 1) as nat, |i: int| fresh[i].flag));
            proof {
                gone = gone + 1;
            }
        }
        assert(views(kept@).len() == kept@.len());
        assert(gone == excess(fresh));
        self.pending = kept;
        dropped
    }

    /// Cancels `id`, whether it runs or has yet to begin; `fresh` is a flag that is not in
    /// use. The result names the flag to raise, and those that nothing waits for any more.
    pub fn cancel_operation(&mut self, id: &str, now: u64, fresh: u64) -> (res: Cancellation)
        ensures
            (final(self)@, res.flag) == cancelled_state(old(self)@, id@, now, fresh),
            res.dropped@ == cancelled_drops(old(self)@, id@, now, fresh),
    {
        broadcast use lemma_views_push;

        let mut dropped = self.prune_pending_cancellations(now);
        let at = find_waiting(self.pending.as_slice(), id);
        let running = match self.running.get(id) {
            Some(run) => Some(run.flag),
            None => None,
        };
        let flag: u64 = match running {
            Some(flag) => {
                self.running.insert(id, Running { flag, cancelled: true });
                flag
            },
            None => {
                if at < self.pending.len() {
                    assert(views(self.pending@)[at as int] == self.pending@[at as int]@);
                    self.pending[at].flag
                } else {
                    self.pending.push(Pending { id: copy(id), flag: fresh, since: now });
                    fresh
                }
            },
        };
        let mut more = self.prune_pending_cancellations(now);
        dropped.append(&mut more);
        Cancellation { flag, dropped }
    }

    /// Begins the operation `id`. A cancellation that waits for it takes effect at
    /// once; `fresh` is a flag that is not in use.
    pub fn begin_operation(&mut self, id: &str, fresh: u64) -> (res: OperationHandle)
        ensures
            res.id@ == id@,
            (final(self)@, Running { flag: res.flag, cancelled: res.cancelled }) == begun_state(
                old(self)@,
                id@,
                fresh,
            ),
    {
        let running = match self.running.get(id) {
            Some(run) => Some(*run),
            None => None,
        };
        let run: Running = match running {
            Some(run) => run,
            None => {
                let at = find_waiting(self.pending.as_slice(), id);
                let run = if at < self.pending.len() {
                    let ghost before = views(self.pending@);
                    assert(before[at as int] == self.pending@[at as int]@);
                    let waiting = self.pending.remove(at);
                    assert(views(self.pending@) =~= before.remove(at as int));
                    Running { flag: waiting.flag, cancelled: true }
                } else {
                    Running { flag: fresh, cancelled: false }
                };
                self.running.insert(id, run);
                run
            },
        };
        OperationHandle { id: copy(id), flag: run.flag, cancelled: run.cancelled }
    }

    /// Ends an operation. One that began later under the same name is not touched.
    pub fn finish_operation(&mut self, operation: OperationHandle)
        ensures
            final(self)@ == finished_state(old(self)@, operation.id@, operation.flag),
    {
        let own = match self.running.get(operation.id.as_str()) {
            Some(run) => run.flag == operation.flag,
            None => false,
        };
        if own {
            let _ = self.running.remove(operation.id.as_str());
        }
    }
}

/// A running operation stops where it was cancelled.
pub fn ensure_not_cancelled(cancelled: bool) -> (res: Result<(), String>)
    ensures
        error_result(res) == (if cancelled {
            Err::<(), Seq<char>>(OPERATION_CANCELLED@)
        } else {
            Ok(())
        }),
{
    if cancelled {
        Err(copy(OPERATION_CANCELLED))
    } else {
        Ok(())
    }
}

// ---------------------------------------------------------------------------
// Laws
// ---------------------------------------------------------------------------

proof fn lemma_unexpired_len(pending: Seq<PendingView>, now: u64)
    ensures
        unexpired(pending, now).len() <= pending.len(),
        forall|i: int|
            0 <= i < unexpired(pending, now).len() ==> age(
                (#[trigger] unexpired(pending, now)[i]).since,
                now,
            ) < PENDING_CANCELLATION_TTL,
    decreases pending.len(),
{
    if pending.len() > 0 {
        lemma_unexpired_len(pending.drop_last(), now);
    }
}

/// However many cancellations come, no more than the limit wait.
pub proof fn waiting_cancellations_are_bounded(
    state: OperationsView,
    id: Seq<char>,
    now: u64,
    fresh: u64,
)
    ensures
        cancelled_state(state, id, now, fresh).0.pending.len() <= MAX_PENDING_CANCELLATIONS,
{
}

proof fn lemma_keeps_fresh(pending: Seq<PendingView>, now: u64)
    requires
        forall|i: int|
            0 <= i < pending.len() ==> age((#[trigger] pending[i]).since, now)
                < PENDING_CANCELLATION_TTL,
    ensures
        unexpired(pending, now) == pending,
    decreases pending.len(),
{
    if pending.len() > 0 {
        let rest = pending.drop_last();
        assert forall|i: int| 0 <= i < rest.len() implies age((#[trigger] rest[i]).since, now)
            < PENDING_CANCELLATION_TTL by {
            assert(rest[i] == pending[i]);
        }
        lemma_keeps_fresh(rest, now);
        assert(rest.push(pending.last()) =~= pending);
    }
}

/// A cancellation is never lost to an operation that begins right after it: the
/// operation is cancelled from its beginning, and watches the flag that was raised.
pub proof fn cancelled_right_before_it_began(
    state: OperationsView,
    id: Seq<char>,
    now: u64,
    fresh: u64,
    other: u64,
)
    ensures
        ({
            let (after, flag) = cancelled_state(state, id, now, fresh);
            begun_state(after, id, other).1 == Running { flag, cancelled: true }
        }),
{
    let first = pruned(state, now);
    lemma_unexpired_len(state.pending, now);
    let kept = first.pending;
    assert forall|i: int| 0 <= i < kept.len() implies age((#[trigger] kept[i]).since, now)
        < PENDING_CANCELLATION_TTL by {
        let all = unexpired(state.pending, now);
        if all.len() > MAX_PENDING_CANCELLATIONS {
            assert(kept[i] == all[i + all.len() - MAX_PENDING_CANCELLATIONS]);
        }
    }
    let at = waiting_at(kept, id);
    lemma_waiting(kept, id);
    if first.running.dom().contains(id) {
    } else if at < kept.len() {
        lemma_keeps_fresh(kept, now);
        assert(newest(kept) =~= kept);
    } else {
        let entry = PendingView { id, flag: fresh, since: now };
        let more = kept.push(entry);
        assert forall|i: int| 0 <= i < more.len() implies age((#[trigger] more[i]).since, now)
            < PENDING_CANCELLATION_TTL by {
            if i < kept.len() {
                assert(more[i] == kept[i]);
            }
        }
        lemma_keeps_fresh(more, now);
        let result = newest(more);
        assert(result.last() == entry);
        assert forall|j: int| 0 <= j < result.len() - 1 implies (#[trigger] result[j]).id
            != id by {
            let k = if more.len() > MAX_PENDING_CANCELLATIONS {
                j + more.len() - MAX_PENDING_CANCELLATIONS
            } else {
                j
            };
            assert(result[j] == more[k]);
            assert(more[k] == kept[k]);
        }
        lemma_waiting_at(result, id, result.len() - 1);
    }
}

proof fn lemma_waiting(pending: Seq<PendingView>, id: Seq<char>)
    ensures
        0 <= waiting_at(pending, id) <= pending.len(),
        forall|j: int| 0 <= j < waiting_at(pending, id) ==> (#[trigger] pending[j]).id != id,
        waiting_at(pending, id) < pending.len() ==> pending[waiting_at(pending, id)].id == id,
    decreases pending.len(),
{
    if pending.len() > 0 && pending[0].id != id {
        let rest = pending.skip(1);
        lemma_waiting(rest, id);
        assert forall|j: int| 0 <= j < waiting_at(pending, id) implies (#[trigger] pending[j]).id
            != id by {
            if j > 0 {
                assert(pending[j] == rest[j - 1]);
            }
        }
        if waiting_at(rest, id) < rest.len() {
            assert(rest[waiting_at(rest, id)] == pending[waiting_at(rest, id) + 1]);
        }
    }
}

/// Something that happens to the operations.
pub enum Step {
    Cancel { id: Seq<char>, now: u64, fresh: u64 },
    Begin { id: Seq<char>, fresh: u64 },
    Finish { id: Seq<char>, flag: u64 },
}

pub open spec fn after_step(state: OperationsView, step: Step) -> OperationsView {
    match step {
        Step::Cancel { id, now, fresh } => cancelled_state(state, id, now, fresh).0,
        Step::Begin { id, fresh } => begun_state(state, id, fresh).0,
        Step::Finish { id, flag } => finished_state(state, id, flag),
    }
}

pub open spec fn after_steps(state: OperationsView, steps: Seq<Step>) -> OperationsView
    decreases steps.len(),
{
    if steps.len() == 0 {
        state
    } else {
        after_step(after_steps(state, steps.drop_last()), steps.last())
    }
}

/// How many of the steps cancel another operation than `id`.
pub open spec fn other_cancellations(steps: Seq<Step>, id: Seq<char>) -> nat
    decreases steps.len(),
{
    if steps.len() == 0 {
        0
    } else {
        let before = other_cancellations(steps.drop_last(), id);
        match steps.last() {
            Step::Cancel { id: other, .. } => if other != id {
                before + 1
            } else {
                before
            },
            _ => before,
        }
    }
}

/// Whether a step does not begin `id`, and, where it cancels, comes less than a minute
/// after `since`.
pub open spec fn within_a_minute(step: Step, id: Seq<char>, since: u64) -> bool {
    match step {
        Step::Cancel { now, .. } => age(since, now) < PENDING_CANCELLATION_TTL,
        Step::Begin { id: other, .. } => other != id,
        Step::Finish { .. } => true,
    }
}

/// Whether `entry` waits at `at` as the first of its name, with at most `behind` behind it.
spec fn waits(state: OperationsView, entry: PendingView, at: int, behind: int) -> bool {
    &&& !state.running.dom().contains(entry.id)
    &&& 0 <= at < state.pending.len()
    &&& state.pending[at] == entry
    &&& state.pending.len() - 1 - at <= behind
    &&& forall|j: int| 0 <= j < at ==> (#[trigger] state.pending[j]).id != entry.id
}

proof fn lemma_unexpired_names(pending: Seq<PendingView>, now: u64, id: Seq<char>)
    requires
        forall|j: int| 0 <= j < pending.len() ==> (#[trigger] pending[j]).id != id,
    ensures
        forall|j: int|
            0 <= j < unexpired(pending, now).len() ==> (#[trigger] unexpired(pending, now)[j]).id
                != id,
    decreases pending.len(),
{
    if pending.len() > 0 {
        assert forall|j: int| 0 <= j < pending.drop_last().len() implies (
        #[trigger] pending.drop_last()[j]).id != id by {
            assert(pending.drop_last()[j] == pending[j]);
        }
        lemma_unexpired_names(pending.drop_last(), now, id);
        assert(pending[pending.len() - 1].id != id);
        let kept = unexpired(pending.drop_last(), now);
        let all = unexpired(pending, now);
        assert forall|j: int| 0 <= j < all.len() implies (#[trigger] all[j]).id != id by {
            if j < kept.len() {
                assert(all[j] == kept[j]);
            }
        }
    }
}

proof fn lemma_unexpired_keeps(pending: Seq<PendingView>, now: u64, at: int) -> (q: int)
    requires
        0 <= at < pending.len(),
        age(pending[at].since, now) < PENDING_CANCELLATION_TTL,
        forall|j: int| 0 <= j < at ==> (#[trigger] pending[j]).id != pending[at].id,
    ensures
        0 <= q < unexpired(pending, now).len(),
        unexpired(pending, now)[q] == pending[at],
        unexpired(pending, now).len() - 1 - q <= pending.len() - 1 - at,
        forall|j: int|
            0 <= j < q ==> (#[trigger] unexpired(pending, now)[j]).id != pending[at].id,
    decreases pending.len(),
{
    let before = pending.drop_last();
    assert forall|j: int| 0 <= j < before.len() && j < at implies (#[trigger] before[j]).id
        != pending[at].id by {
        assert(before[j] == pending[j]);
    }
    if at == pending.len() - 1 {
        lemma_unexpired_names(before, now, pending[at].id);
        unexpired(before, now).len() as int
    } else {
        assert(before[at] == pending[at]);
        lemma_unexpired_keeps(before, now, at)
    }
}

proof fn lemma_pruned_keeps(
    state: OperationsView,
    now: u64,
    entry: PendingView,
    at: int,
    behind: int,
) -> (q: int)
    requires
        waits(state, entry, at, behind),
        behind < MAX_PENDING_CANCELLATIONS,
        age(entry.since, now) < PENDING_CANCELLATION_TTL,
    ensures
        waits(pruned(state, now), entry, q, behind),
{
    let q = lemma_unexpired_keeps(state.pending, now, at);
    let kept = unexpired(state.pending, now);
    let gone = excess(kept);
    assert forall|j: int| 0 <= j < q - gone implies (#[trigger] newest(kept)[j]).id
        != entry.id by {
        assert(newest(kept)[j] == kept[j + gone]);
    }
    q - gone
}

proof fn lemma_step_keeps(
    state: OperationsView,
    step: Step,
    entry: PendingView,
    at: int,
    behind: int,
) -> (q: int)
    requires
        waits(state, entry, at, behind),
        within_a_minute(step, entry.id, entry.since),
        behind + other_cancellations(seq![step], entry.id) < MAX_PENDING_CANCELLATIONS,
    ensures
        waits(
            after_step(state, step),
            entry,
            q,
            behind + other_cancellations(seq![step], entry.id),
        ),
{
    reveal_with_fuel(other_cancellations, 2);
    assert(seq![step].last() == step);
    let more = behind + other_cancellations(seq![step], entry.id);
    match step {
        Step::Cancel { id, now, fresh } => {
            let q = lemma_pruned_keeps(state, now, entry, at, behind);
            let first = pruned(state, now);
            lemma_waiting(first.pending, id);
            let noted = noted_state(state, id, now, fresh).0;
            if id == entry.id {
                lemma_waiting_at(first.pending, id, q);
            }
            assert forall|j: int| 0 <= j < q implies (#[trigger] noted.pending[j]).id
                != entry.id by {
                assert(noted.pending[j] == first.pending[j]);
            }
            assert(waits(noted, entry, q, more));
            lemma_pruned_keeps(noted, now, entry, q, more)
        },
        Step::Begin { id, fresh } => {
            lemma_waiting(state.pending, id);
            let gone = waiting_at(state.pending, id);
            let next = after_step(state, step);
            if !state.running.dom().contains(id) && gone < state.pending.len() {
                let q = if gone < at {
                    at - 1
                } else {
                    at
                };
                assert forall|j: int| 0 <= j < q implies (#[trigger] next.pending[j]).id
                    != entry.id by {
                    if j < gone {
                        assert(next.pending[j] == state.pending[j]);
                    } else {
                        assert(next.pending[j] == state.pending[j + 1]);
                    }
                }
                q
            } else {
                at
            }
        },
        Step::Finish { .. } => at,
    }
}

proof fn lemma_steps_keep(
    state: OperationsView,
    steps: Seq<Step>,
    entry: PendingView,
    at: int,
) -> (q: int)
    requires
        waits(state, entry, at, 0),
        forall|i: int|
            0 <= i < steps.len() ==> within_a_minute(#[trigger] steps[i], entry.id, entry.since),
        other_cancellations(steps, entry.id) < MAX_PENDING_CANCELLATIONS,
    ensures
        waits(
            after_steps(state, steps),
            entry,
            q,
            other_cancellations(steps, entry.id) as int,
        ),
    decreases steps.len(),
{
    if steps.len() == 0 {
        at
    } else {
        let before = steps.drop_last();
        assert forall|i: int| 0 <= i < before.len() implies within_a_minute(
            #[trigger] before[i],
            entry.id,
            entry.since,
        ) by {
            assert(before[i] == steps[i]);
        }
        assert(within_a_minute(steps[steps.len() - 1], entry.id, entry.since));
        reveal_with_fuel(other_cancellations, 2);
        assert(seq![steps.last()].last() == steps.last());
        assert(seq![steps.last()].drop_last() =~= Seq::empty());
        let q = lemma_steps_keep(state, before, entry, at);
        lemma_step_keeps(
            after_steps(state, before),
            steps.last(),
            entry,
            q,
            other_cancellations(before, entry.id) as int,
        )
    }
}

/// A cancellation waits for its operation: one that begins later is cancelled from its
/// beginning and watches the flag that was raised, whatever other operations did since. At
/// the time of the cancellation no earlier one of that name was waiting, every cancellation
/// since came less than a minute later, and fewer others were cancelled than may wait.
pub proof fn cancelled_before_it_began(
    state: OperationsView,
    id: Seq<char>,
    since: u64,
    fresh: u64,
    steps: Seq<Step>,
    other: u64,
)
    requires
        !state.running.dom().contains(id),
        forall|j: int|
            0 <= j < pruned(state, since).pending.len() ==> (#[trigger] pruned(
                state,
                since,
            ).pending[j]).id != id,
        forall|i: int|
            0 <= i < steps.len() ==> within_a_minute(#[trigger] steps[i], id, since),
        other_cancellations(steps, id) < MAX_PENDING_CANCELLATIONS,
    ensures
        ({
            let (after, flag) = cancelled_state(state, id, since, fresh);
            begun_state(after_steps(after, steps), id, other).1 == Running {
                flag,
                cancelled: true,
            }
        }),
{
    let entry = PendingView { id, flag: fresh, since };
    let first = pruned(state, since);
    lemma_waiting_at(first.pending, id, first.pending.len() as int);
    let noted = noted_state(state, id, since, fresh).0;
    let end = first.pending.len() as int;
    assert forall|j: int| 0 <= j < end implies (#[trigger] noted.pending[j]).id != id by {
        assert(noted.pending[j] == first.pending[j]);
    }
    assert(waits(noted, entry, end, 0));
    let at = lemma_pruned_keeps(noted, since, entry, end, 0);
    let after = cancelled_state(state, id, since, fresh).0;
    let q = lemma_steps_keep(after, steps, entry, at);
    lemma_waiting_at(after_steps(after, steps).pending, id, q);
}

/// Whether no name waits twice, and none that runs waits.
pub open spec fn settled(state: OperationsView) -> bool {
    &&& forall|i: int, j: int|
        0 <= i < j < state.pending.len() ==> (#[trigger] state.pending[i]).id
            != (#[trigger] state.pending[j]).id
    &&& forall|i: int|
        0 <= i < state.pending.len() ==> !state.running.dom().contains(
            (#[trigger] state.pending[i]).id,
        )
}

proof fn lemma_unexpired_settled(state: OperationsView, now: u64)
    requires
        settled(state),
    ensures
        settled(OperationsView { pending: unexpired(state.pending, now), ..state }),
    decreases state.pending.len(),
{
    if state.pending.len() > 0 {
        let before = OperationsView { pending: state.pending.drop_last(), ..state };
        assert(forall|i: int|
            0 <= i < before.pending.len() ==> before.pending[i] == state.pending[i]);
        lemma_unexpired_settled(before, now);
        let last = state.pending.last();
        assert forall|j: int| 0 <= j < before.pending.len() implies (
        #[trigger] before.pending[j]).id != last.id by {
            assert(state.pending[j].id != state.pending[state.pending.len() - 1].id);
        }
        lemma_unexpired_names(before.pending, now, last.id);
        assert(!state.running.dom().contains(state.pending[state.pending.len() - 1].id));
        let kept = unexpired(before.pending, now);
        let more = OperationsView { pending: kept.push(last), ..state };
        let fewer = OperationsView { pending: kept, ..state };
        assert forall|i: int, j: int| 0 <= i < j < more.pending.len() implies (
        #[trigger] more.pending[i]).id != (#[trigger] more.pending[j]).id by {
            assert(more.pending[i] == kept[i]);
            if j < kept.len() {
                assert(fewer.pending[i].id != fewer.pending[j].id);
            }
        }
        assert forall|i: int| 0 <= i < more.pending.len() implies !more.running.dom().contains(
            (#[trigger] more.pending[i]).id,
        ) by {
            if i < kept.len() {
                assert(!fewer.running.dom().contains(fewer.pending[i].id));
            }
        }
        assert(settled(more));
    }
}

proof fn lemma_pruned_settled(state: OperationsView, now: u64)
    requires
        settled(state),
    ensures
        settled(pruned(state, now)),
{
    lemma_unexpired_settled(state, now);
    let kept = unexpired(state.pending, now);
    let gone = excess(kept);
    let all = OperationsView { pending: kept, ..state };
    let next = pruned(state, now);
    assert forall|i: int, j: int| 0 <= i < j < next.pending.len() implies (
    #[trigger] next.pending[i]).id != (#[trigger] next.pending[j]).id by {
        assert(all.pending[i + gone].id != all.pending[j + gone].id);
    }
    assert forall|i: int| 0 <= i < next.pending.len() implies !next.running.dom().contains(
        (#[trigger] next.pending[i]).id,
    ) by {
        assert(!all.running.dom().contains(all.pending[i + gone].id));
    }
}

/// Whatever happens, no name waits twice, and none that runs waits. At the start nothing
/// waits.
pub proof fn names_wait_once(state: OperationsView, step: Step)
    requires
        settled(state),
    ensures
        settled(after_step(state, step)),
{
    match step {
        Step::Cancel { id, now, fresh } => {
            lemma_pruned_settled(state, now);
            lemma_waiting(pruned(state, now).pending, id);
            let noted = noted_state(state, id, now, fresh).0;
            assert(settled(noted));
            lemma_pruned_settled(noted, now);
        },
        Step::Begin { id, .. } => {
            lemma_waiting(state.pending, id);
            let at = waiting_at(state.pending, id);
            let next = after_step(state, step);
            if !state.running.dom().contains(id) && at < state.pending.len() {
                assert forall|i: int| 0 <= i < next.pending.len() implies (
                #[trigger] next.pending[i]) == state.pending[if i < at {
                    i
                } else {
                    i + 1
                }] by {}
            }
        },
        Step::Finish { .. } => {},
    }
}

/// An operation that has ended, cancelled or not, can begin again: it is not cancelled then.
pub proof fn ended_operations_begin_afresh(
    state: OperationsView,
    id: Seq<char>,
    first: u64,
    second: u64,
)
    requires
        settled(state),
    ensures
        ({
            let (begun, run) = begun_state(state, id, first);
            begun_state(finished_state(begun, id, run.flag), id, second).1 == Running {
                flag: second,
                cancelled: false,
            }
        }),
{
    names_wait_once(state, Step::Begin { id, fresh: first });
    let (begun, run) = begun_state(state, id, first);
    assert forall|j: int| 0 <= j < begun.pending.len() implies (#[trigger] begun.pending[j]).id
        != id by {}
    lemma_waiting_at(begun.pending, id, begun.pending.len() as int);
}

proof fn lemma_expired(pending: Seq<PendingView>, now: u64, i: int)
    requires
        0 <= i < pending.len(),
    ensures
        unexpired(pending, now).contains(pending[i]) || expired_flags(pending, now).contains(
            pending[i].flag,
        ),
    decreases pending.len(),
{
    let before = pending.drop_last();
    let kept = unexpired(before, now);
    let flags = expired_flags(before, now);
    let last = pending.last();
    if i < before.len() {
        assert(before[i] == pending[i]);
        lemma_expired(before, now, i);
        if kept.contains(pending[i]) {
            let k = choose|k: int| 0 <= k < kept.len() && kept[k] == pending[i];
            assert(kept.push(last)[k] == pending[i]);
        } else {
            let k = choose|k: int| 0 <= k < flags.len() && flags[k] == pending[i].flag;
            assert(flags.push(last.flag)[k] == pending[i].flag);
        }
    } else {
        assert(kept.push(last)[kept.len() as int] == last);
        assert(flags.push(last.flag)[flags.len() as int] == last.flag);
    }
}

/// A cancellation that waited either waits on, or its flag is handed back.
pub proof fn dropped_flags_are_handed_back(state: OperationsView, now: u64, i: int)
    requires
        0 <= i < state.pending.len(),
    ensures
        pruned(state, now).pending.contains(state.pending[i]) || dropped_flags(
            state.pending,
            now,
        ).contains(state.pending[i].flag),
{
    lemma_expired(state.pending, now, i);
    let entry = state.pending[i];
    let kept = unexpired(state.pending, now);
    let expired = expired_flags(state.pending, now);
    let all = dropped_flags(state.pending, now);
    let gone = excess(kept);
    if kept.contains(entry) {
        let k = choose|k: int| 0 <= k < kept.len() && kept[k] == entry;
        if k < gone {
            assert(all[expired.len() + k] == entry.flag);
        } else {
            assert(newest(kept)[k - gone] == entry);
        }
    } else {
        let k = choose|k: int| 0 <= k < expired.len() && expired[k] == entry.flag;
        assert(all[k] == entry.flag);
    }
}

/// Ending an operation leaves every other one as it was.
pub proof fn others_keep_running(state: OperationsView, id: Seq<char>, flag: u64, other: Seq<char>)
    requires
        other != id,
        state.running.dom().contains(other),
    ensures
        finished_state(state, id, flag).running.dom().contains(other),
        finished_state(state, id, flag).running[other] == state.running[other],
{
}

/// A running operation is cancelled by the flag that it has; one that is not running waits to
/// be cancelled under its name. An operation that nobody cancelled begins with its own flag.
pub proof fn cancelling_reaches_the_named_operation(
    state: OperationsView,
    id: Seq<char>,
    now: u64,
    fresh: u64,
    other: Seq<char>,
)
    ensures
        state.running.dom().contains(id) ==> {
            let (after, flag) = cancelled_state(state, id, now, fresh);
            &&& flag == state.running[id].flag
            &&& after.running.dom().contains(id)
            &&& after.running[id] == (Running { flag, cancelled: true })
        },
        other != id ==> {
            let (after, flag) = cancelled_state(state, id, now, fresh);
            &&& after.running.dom().contains(other) <==> state.running.dom().contains(other)
            &&& state.running.dom().contains(other) ==> after.running[other]
                == state.running[other]
        },
        !state.running.dom().contains(id) && waiting_at(state.pending, id) >= state.pending.len()
            ==> begun_state(state, id, fresh).1 == (Running { flag: fresh, cancelled: false }),
        begun_state(state, id, fresh).0.running.dom().contains(id),
        begun_state(state, id, fresh).0.running[id] == begun_state(state, id, fresh).1,
        state.running.dom().contains(id) ==> !finished_state(
            state,
            id,
            state.running[id].flag,
        ).running.dom().contains(id),
        PENDING_CANCELLATION_TTL == 60000,
        MAX_PENDING_CANCELLATIONS == 1024,
{
}

} // verus!
