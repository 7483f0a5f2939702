//! Reducer calls that are put off: a session that opens or closes does not
//! move the player at once, it queues the move for a little later, so that
//! the move is seen as an event of its own.

use crate::context::ReducerContext;
use crate::errors::{ReducerError, ReducerErrorView};
use crate::players::{sign_in, sign_in_outcome, sign_out, sign_out_outcome};
use crate::store::find;
use crate::tables::{Player, PlayerByIdentity};
use crate::world::{Store, StoreView};
use vstd::prelude::*;

verus! {

/// The delay after which a player follows its session, in microseconds.
pub const SESSION_DELAY: u64 = 100_000;

/// A reducer call that can be put off, with its argument.
#[derive(Clone, Copy, Debug, PartialEq, Eq, Structural)]
pub enum DeferredCall {
    SignIn(u64),
    SignOut(u64),
}

/// A call and the time from which it may run, in microseconds since the
/// Unix epoch.
#[derive(Clone, Copy, Debug, PartialEq, Eq, Structural)]
pub struct Deferred {
    pub due: u64,
    pub call: DeferredCall,
}

/// The calls that wait, the next to run first.
pub struct Scheduler {
    delay: u64,
    queue: Vec<Deferred>,
}

/// The delay of a scheduler and the calls that wait in it, in their order.
pub struct SchedulerView {
    pub delay: u64,
    pub pending: Seq<Deferred>,
}

impl View for Scheduler {
    type V = SchedulerView;

    closed spec fn view(&self) -> SchedulerView {
        SchedulerView { delay: self.delay, pending: self.queue@ }
    }
}

/// No call waits behind one that is due later.
pub open spec fn in_due_order(pending: Seq<Deferred>) -> bool {
    forall|i: int, j: int|
        0 <= i < j < pending.len() ==> (#[trigger] pending[i]).due <= (#[trigger] pending[j]).due
}

/// `i` is the place behind the last call that is due at `due` or before.
pub open spec fn is_slot(pending: Seq<Deferred>, due: u64, i: int) -> bool {
    &&& 0 <= i <= pending.len()
    &&& i > 0 ==> pending[i - 1].due <= due
    &&& forall|j: int| i <= j < pending.len() ==> (#[trigger] pending[j]).due > due
}

/// The place at which a call that is due at `due` is queued: behind every
/// call that is due then or before, so also behind those queued earlier
/// for the same time.
pub open spec fn slot(pending: Seq<Deferred>, due: u64) -> int {
    choose|i: int| is_slot(pending, due, i)
}

/// The time from which a call that is put off at `now` may run. A time
/// beyond the largest stands for the largest.
pub open spec fn due_time(now: u64, delay: u64) -> u64 {
    if now + delay > u64::MAX {
        u64::MAX
    } else {
        (now + delay) as u64
    }
}

/// The queue once `call` is put off at `now`.
pub open spec fn scheduled(s: SchedulerView, now: u64, call: DeferredCall) -> SchedulerView {
    let due = due_time(now, s.delay);
    SchedulerView { pending: s.pending.insert(slot(s.pending, due), Deferred { due, call }), ..s }
}

/// The place behind the last call that is due at `due` or before is one
/// place only.
pub proof fn lemma_slot_is(pending: Seq<Deferred>, due: u64, i: int)
    requires
        is_slot(pending, due, i),
    ensures
        slot(pending, due) == i,
{
    let chosen = slot(pending, due);
    if chosen < i {
        assert(pending[i - 1].due > due);
    } else if i < chosen {
        assert(pending[chosen - 1].due > due);
    }
}

impl Scheduler {
    /// The calls wait in the order in which they are due.
    pub open spec fn wf(&self) -> bool {
        in_due_order(self@.pending)
    }

    /// A scheduler with nothing to do, which puts calls off by `delay`
    /// microseconds.
    pub fn new(delay: u64) -> (scheduler: Self)
        ensures
            scheduler.wf(),
            scheduler@.delay == delay,
            scheduler@.pending == Seq::<Deferred>::empty(),
    {
        Scheduler { delay, queue: Vec::new() }
    }

    /// The delay by which calls are put off.
    pub fn delay(&self) -> (delay: u64)
        ensures
            delay == self@.delay,
    {
        self.delay
    }

    /// How many calls wait.
    pub fn pending(&self) -> (count: usize)
        ensures
            count == self@.pending.len(),
    {
        self.queue.len()
    }

    /// Puts `call` off: it may run once the delay has passed since `now`.
    pub fn schedule(&mut self, now: u64, call: DeferredCall)
        requires
            old(self).wf(),
        ensures
            final(self).wf(),
            final(self)@ == scheduled(old(self)@, now, call),
    {
        let due = if now > u64::MAX - self.delay {
            u64::MAX
        } else {
            now + self.delay
        };
        let mut i: usize = self.queue.len();
        while i > 0 && self.queue[i - 1].due > due
            invariant
                i <= self.queue.len(),
                forall|j: int| i <= j < self.queue.len() ==> (#[trigger] self.queue@[j]).due > due,
            decreases i,
        {
            i -= 1;
        }
        proof {
            lemma_slot_is(self.queue@, due, i as int);
        }
        self.queue.insert(i, Deferred { due, call });
    }

    /// Takes the first call out of the queue, if it is due at `now`.
    pub fn take_due(&mut self, now: u64) -> (taken: Option<Deferred>)
        requires
            old(self).wf(),
        ensures
            final(self).wf(),
            final(self)@.delay == old(self)@.delay,
            match taken {
                Some(deferred) => {
                    &&& old(self)@.pending.len() > 0
                    &&& deferred == old(self)@.pending[0]
                    &&& deferred.due <= now
                    &&& final(self)@.pending == old(self)@.pending.remove(0)
                },
                None => {
                    &&& old(self)@.pending.len() > 0 ==> old(self)@.pending[0].due > now
                    &&& final(self)@ == old(self)@
                },
            },
    {
        if self.queue.len() > 0 && self.queue[0].due <= now {
            let deferred = self.queue.remove(0);
            Some(deferred)
        } else {
            None
        }
    }
}

/// The queue once the session of `sender` has opened at `now`: the sign-in
/// of the sender's player waits in it, if the sender has a player.
pub open spec fn connected(
    s: SchedulerView,
    store: StoreView,
    sender: Seq<u8>,
    now: u64,
) -> SchedulerView {
    match find::<Player, PlayerByIdentity>(store.players, sender) {
        Some(player) => scheduled(s, now, DeferredCall::SignIn(player.spawnable_entity_id)),
        None => s,
    }
}

/// The queue once the session of `sender` has closed at `now`: the
/// sign-out of the sender's player waits in it, if the sender has a player.
pub open spec fn disconnected(
    s: SchedulerView,
    store: StoreView,
    sender: Seq<u8>,
    now: u64,
) -> SchedulerView {
    match find::<Player, PlayerByIdentity>(store.players, sender) {
        Some(player) => scheduled(s, now, DeferredCall::SignOut(player.spawnable_entity_id)),
        None => s,
    }
}

/// The session of the caller has opened. The store stays as it is: the
/// caller's player, if there is one, signs in after the delay.
pub fn connect(store: &Store, scheduler: &mut Scheduler, ctx: &ReducerContext)
    requires
        store.wf(),
        old(scheduler).wf(),
    ensures
        final(scheduler).wf(),
        final(scheduler)@ == connected(old(scheduler)@, store@, ctx.sender@, ctx.timestamp),
{
    match store.players.lookup_by_unique::<PlayerByIdentity>(&ctx.sender) {
        Some(player) => {
            scheduler.schedule(ctx.timestamp, DeferredCall::SignIn(player.spawnable_entity_id));
        },
        None => {},
    }
}

/// The session of the caller has closed. The store stays as it is: the
/// caller's player, if there is one, signs out after the delay.
pub fn disconnect(store: &Store, scheduler: &mut Scheduler, ctx: &ReducerContext)
    requires
        store.wf(),
        old(scheduler).wf(),
    ensures
        final(scheduler).wf(),
        final(scheduler)@ == disconnected(old(scheduler)@, store@, ctx.sender@, ctx.timestamp),
{
    match store.players.lookup_by_unique::<PlayerByIdentity>(&ctx.sender) {
        Some(player) => {
            scheduler.schedule(ctx.timestamp, DeferredCall::SignOut(player.spawnable_entity_id));
        },
        None => {},
    }
}

/// What the reducer that `call` names makes of the store.
pub open spec fn deferred_outcome(s: StoreView, call: DeferredCall) -> Result<
    StoreView,
    ReducerErrorView,
> {
    match call {
        DeferredCall::SignIn(id) => sign_in_outcome(s, id),
        DeferredCall::SignOut(id) => sign_out_outcome(s, id),
    }
}

/// A call that has run, and how it ended.
#[derive(Debug, PartialEq, Eq)]
pub struct Fired {
    pub call: DeferredCall,
    pub outcome: Result<(), ReducerError>,
}

/// Runs the first call that waits, if it is due at `now`, and says which
/// call it was and how it ended. A call that fails leaves the store as it
/// was and is not tried again.
pub fn run_due(store: &mut Store, scheduler: &mut Scheduler, now: u64) -> (fired: Option<Fired>)
    requires
        old(store).wf(),
        old(scheduler).wf(),
    ensures
        final(store).wf(),
        final(scheduler).wf(),
        final(scheduler)@.delay == old(scheduler)@.delay,
        match fired {
            Some(fired) => {
                &&& old(scheduler)@.pending.len() > 0
                &&& old(scheduler)@.pending[0].due <= now
                &&& fired.call == old(scheduler)@.pending[0].call
                &&& final(scheduler)@.pending == old(scheduler)@.pending.remove(0)
                &&& match fired.outcome {
                    Ok(()) => deferred_outcome(old(store)@, fired.call) == Ok::<
                        StoreView,
                        ReducerErrorView,
                    >(final(store)@),
                    Err(error) => {
                        &&& deferred_outcome(old(store)@, fired.call) == Err::<
                            StoreView,
                            ReducerErrorView,
                        >(error@)
                        &&& final(store)@ == old(store)@
                    },
                }
            },
            None => {
                &&& old(scheduler)@.pending.len() > 0 ==> old(scheduler)@.pending[0].due > now
                &&& final(scheduler)@ == old(scheduler)@
                &&& final(store)@ == old(store)@
            },
        },
{
    match scheduler.take_due(now) {
        Some(deferred) => {
            let outcome = match deferred.call {
                DeferredCall::SignIn(id) => sign_in(store, id),
                DeferredCall::SignOut(id) => sign_out(store, id),
            };
            Some(Fired { call: deferred.call, outcome })
        },
        None => None,
    }
}

} // verus!
