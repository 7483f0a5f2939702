//! The reducer engine: the one owner of the store, which runs one call at
//! a time, each to its end. A call leaves all its changes or none.

use crate::context::ReducerContext;
use crate::errors::{ReducerError, ReducerErrorView};
use crate::graph::{
    create_connection, create_connection_outcome, create_room, create_room_outcome, create_world,
    create_world_outcome, create_zone, create_zone_outcome, go, go_outcome,
};
use crate::players::{
    create_player, create_player_outcome, initialize, say, say_outcome, seeded, sign_in,
    sign_in_outcome, sign_out, sign_out_outcome,
};
use crate::scheduler::{
    connect, connected, deferred_outcome, disconnect, disconnected, run_due, Deferred, Fired,
    Scheduler, SchedulerView,
};
use crate::world::{consistent, Store, StoreView};
use vstd::prelude::*;

verus! {

/// A reducer and the arguments of one call of it.
#[derive(Debug, PartialEq, Eq)]
pub enum ReducerCall {
    Initialize,
    Connect,
    Disconnect,
    CreatePlayer { name: String, description: String },
    Say { source_spawnable_entity_id: u64, chat_text: String },
    Go { source_spawnable_entity_id: u64, exit_direction: String },
    CreateWorld { world_id: String, name: String, description: String },
    CreateZone { zone_id: String, world_id: String, name: String, description: String },
    CreateRoom { room_id: String, zone_id: String, name: String, description: String },
    CreateConnection {
        from_room_id: String,
        to_room_id: String,
        from_direction: String,
        to_direction: String,
        from_exit_description: String,
        to_exit_description: String,
    },
    SignIn { player_spawnable_entity_id: u64 },
    SignOut { player_spawnable_entity_id: u64 },
}

/// A call, with the texts among its arguments as sequences of characters.
pub enum ReducerCallView {
    Initialize,
    Connect,
    Disconnect,
    CreatePlayer { name: Seq<char>, description: Seq<char> },
    Say { source_spawnable_entity_id: u64, chat_text: Seq<char> },
    Go { source_spawnable_entity_id: u64, exit_direction: Seq<char> },
    CreateWorld { world_id: Seq<char>, name: Seq<char>, description: Seq<char> },
    CreateZone {
        zone_id: Seq<char>,
        world_id: Seq<char>,
        name: Seq<char>,
        description: Seq<char>,
    },
    CreateRoom {
        room_id: Seq<char>,
        zone_id: Seq<char>,
        name: Seq<char>,
        description: Seq<char>,
    },
    CreateConnection {
        from_room_id: Seq<char>,
        to_room_id: Seq<char>,
        from_direction: Seq<char>,
        to_direction: Seq<char>,
        from_exit_description: Seq<char>,
        to_exit_description: Seq<char>,
    },
    SignIn { player_spawnable_entity_id: u64 },
    SignOut { player_spawnable_entity_id: u64 },
}

impl View for ReducerCall {
    type V = ReducerCallView;

    open spec fn view(&self) -> ReducerCallView {
        match self {
            ReducerCall::Initialize => ReducerCallView::Initialize,
            ReducerCall::Connect => ReducerCallView::Connect,
            ReducerCall::Disconnect => ReducerCallView::Disconnect,
            ReducerCall::CreatePlayer { name, description } => ReducerCallView::CreatePlayer {
                name: name@,
                description: description@,
            },
            ReducerCall::Say { source_spawnable_entity_id, chat_text } => ReducerCallView::Say {
                source_spawnable_entity_id: *source_spawnable_entity_id,
                chat_text: chat_text@,
            },
            ReducerCall::Go { source_spawnable_entity_id, exit_direction } => ReducerCallView::Go {
                source_spawnable_entity_id: *source_spawnable_entity_id,
                exit_direction: exit_direction@,
            },
            ReducerCall::CreateWorld {
                world_id,
                name,
                description,
            } => ReducerCallView::CreateWorld {
                world_id: world_id@,
                name: name@,
                description: description@,
            },
            ReducerCall::CreateZone {
                zone_id,
                world_id,
                name,
                description,
            } => ReducerCallView::CreateZone {
                zone_id: zone_id@,
                world_id: world_id@,
                name: name@,
                description: description@,
            },
            ReducerCall::CreateRoom {
                room_id,
                zone_id,
                name,
                description,
            } => ReducerCallView::CreateRoom {
                room_id: room_id@,
                zone_id: zone_id@,
                name: name@,
                description: description@,
            },
            ReducerCall::CreateConnection {
                from_room_id,
                to_room_id,
                from_direction,
                to_direction,
                from_exit_description,
                to_exit_description,
            } => ReducerCallView::CreateConnection {
                from_room_id: from_room_id@,
                to_room_id: to_room_id@,
                from_direction: from_direction@,
                to_direction: to_direction@,
                from_exit_description: from_exit_description@,
                to_exit_description: to_exit_description@,
            },
            ReducerCall::SignIn { player_spawnable_entity_id } => ReducerCallView::SignIn {
                player_spawnable_entity_id: *player_spawnable_entity_id,
            },
            ReducerCall::SignOut { player_spawnable_entity_id } => ReducerCallView::SignOut {
                player_spawnable_entity_id: *player_spawnable_entity_id,
            },
        }
    }
}

/// The store and the calls that wait.
pub struct EngineView {
    pub store: StoreView,
    pub scheduler: SchedulerView,
}

/// What a call makes of a state, on behalf of `sender` at the time
/// `timestamp`. Only the opening and the closing of a session touch the
/// queue, and they touch nothing else.
pub open spec fn invoke_outcome(
    s: EngineView,
    sender: Seq<u8>,
    timestamp: u64,
    call: ReducerCallView,
) -> Result<EngineView, ReducerErrorView> {
    match call {
        ReducerCallView::Connect => Ok(
            EngineView { scheduler: connected(s.scheduler, s.store, sender, timestamp), ..s },
        ),
        ReducerCallView::Disconnect => Ok(
            EngineView { scheduler: disconnected(s.scheduler, s.store, sender, timestamp), ..s },
        ),
        _ => match store_outcome(s.store, sender, timestamp, call) {
            Ok(store) => Ok(EngineView { store, ..s }),
            Err(error) => Err(error),
        },
    }
}

/// What a call makes of the store.
pub open spec fn store_outcome(
    s: StoreView,
    sender: Seq<u8>,
    timestamp: u64,
    call: ReducerCallView,
) -> Result<StoreView, ReducerErrorView> {
    match call {
        ReducerCallView::Initialize => Ok(seeded(s)),
        ReducerCallView::Connect => Ok(s),
        ReducerCallView::Disconnect => Ok(s),
        ReducerCallView::CreatePlayer { name, description } => create_player_outcome(
            s,
            sender,
            name,
            description,
        ),
        ReducerCallView::Say { source_spawnable_entity_id, chat_text } => say_outcome(
            s,
            source_spawnable_entity_id,
            chat_text,
            timestamp,
        ),
        ReducerCallView::Go { source_spawnable_entity_id, exit_direction } => go_outcome(
            s,
            source_spawnable_entity_id,
            exit_direction,
        ),
        ReducerCallView::CreateWorld { world_id, name, description } => create_world_outcome(
            s,
            world_id,
            name,
            description,
        ),
        ReducerCallView::CreateZone { zone_id, world_id, name, description } => create_zone_outcome(
            s,
            zone_id,
            world_id,
            name,
            description,
        ),
        ReducerCallView::CreateRoom { room_id, zone_id, name, description } => create_room_outcome(
            s,
            room_id,
            zone_id,
            name,
            description,
        ),
        ReducerCallView::CreateConnection {
            from_room_id,
            to_room_id,
            from_direction,
            to_direction,
            from_exit_description,
            to_exit_description,
        } => create_connection_outcome(
            s,
            from_room_id,
            to_room_id,
            from_direction,
            to_direction,
            from_exit_description,
            to_exit_description,
        ),
        ReducerCallView::SignIn { player_spawnable_entity_id } => sign_in_outcome(
            s,
            player_spawnable_entity_id,
        ),
        ReducerCallView::SignOut { player_spawnable_entity_id } => sign_out_outcome(
            s,
            player_spawnable_entity_id,
        ),
    }
}

/// The owner of the store and of the calls that wait. Whoever holds the
/// engine runs one call at a time: no two calls see each other half done.
pub struct Engine {
    store: Store,
    scheduler: Scheduler,
}

impl View for Engine {
    type V = EngineView;

    closed spec fn view(&self) -> EngineView {
        EngineView { store: self.store@, scheduler: self.scheduler@ }
    }
}

impl Engine {
    /// The store and the queue are well formed.
    pub closed spec fn wf(&self) -> bool {
        self.store.wf() && self.scheduler.wf()
    }

    /// An engine with an empty store and nothing to do, which lets a
    /// player follow its session after `delay` microseconds.
    pub fn new(delay: u64) -> (engine: Self)
        ensures
            engine.wf(),
            engine@.store == Store::new_view(),
            engine@.scheduler == (SchedulerView { delay, pending: Seq::empty() }),
    {
        Engine { store: Store::new(), scheduler: Scheduler::new(delay) }
    }

    /// An engine with nothing to do on a store that was filled by other
    /// means than reducers; none where the tables of the store do not agree.
    pub fn from_store(store: Store, delay: u64) -> (engine: Option<Self>)
        requires
            store.tables_wf(),
        ensures
            match engine {
                Some(engine) => {
                    &&& consistent(store@)
                    &&& engine.wf()
                    &&& engine@.store == store@
                    &&& engine@.scheduler == (SchedulerView { delay, pending: Seq::empty() })
                },
                None => !consistent(store@),
            },
    {
        if store.is_consistent() {
            Some(Engine { store, scheduler: Scheduler::new(delay) })
        } else {
            None
        }
    }

    /// The store, to read.
    pub fn store(&self) -> (store: &Store)
        requires
            self.wf(),
        ensures
            store.wf(),
            store@ == self@.store,
    {
        &self.store
    }

    /// The calls that wait, to read.
    pub fn scheduler(&self) -> (scheduler: &Scheduler)
        requires
            self.wf(),
        ensures
            scheduler.wf(),
            scheduler@ == self@.scheduler,
    {
        &self.scheduler
    }

    /// Runs one call to its end. A call that fails leaves the store and
    /// the queue as they were.
    pub fn invoke(&mut self, ctx: &ReducerContext, call: ReducerCall) -> (outcome: Result<
        (),
        ReducerError,
    >)
        requires
            old(self).wf(),
        ensures
            final(self).wf(),
            match outcome {
                Ok(()) => invoke_outcome(old(self)@, ctx.sender@, ctx.timestamp, call@) == Ok::<
                    EngineView,
                    ReducerErrorView,
                >(final(self)@),
                Err(error) => {
                    &&& invoke_outcome(old(self)@, ctx.sender@, ctx.timestamp, call@) == Err::<
                        EngineView,
                        ReducerErrorView,
                    >(error@)
                    &&& final(self)@ == old(self)@
                },
            },
    {
        match call {
            ReducerCall::Initialize => {
                initialize(&mut self.store);
                Ok(())
            },
            ReducerCall::Connect => {
                connect(&self.store, &mut self.scheduler, ctx);
                Ok(())
            },
            ReducerCall::Disconnect => {
                disconnect(&self.store, &mut self.scheduler, ctx);
                Ok(())
            },
            ReducerCall::CreatePlayer { name, description } => create_player(
                &mut self.store,
                ctx,
                name,
                description,
            ),
            ReducerCall::Say { source_spawnable_entity_id, chat_text } => say(
                &mut self.store,
                ctx,
                source_spawnable_entity_id,
                chat_text,
            ),
            ReducerCall::Go { source_spawnable_entity_id, exit_direction } => go(
                &mut self.store,
                source_spawnable_entity_id,
                exit_direction,
            ),
            ReducerCall::CreateWorld { world_id, name, description } => create_world(
                &mut self.store,
                world_id,
                name,
                description,
            ),
            ReducerCall::CreateZone { zone_id, world_id, name, description } => create_zone(
                &mut self.store,
                zone_id,
                world_id,
                name,
                description,
            ),
            ReducerCall::CreateRoom { room_id, zone_id, name, description } => create_room(
                &mut self.store,
                room_id,
                zone_id,
                name,
                description,
            ),
            ReducerCall::CreateConnection {
                from_room_id,
                to_room_id,
                from_direction,
                to_direction,
                from_exit_description,
                to_exit_description,
            } => create_connection(
                &mut self.store,
                from_room_id,
                to_room_id,
                from_direction,
                to_direction,
                from_exit_description,
                to_exit_description,
            ),
            ReducerCall::SignIn { player_spawnable_entity_id } => sign_in(
                &mut self.store,
                player_spawnable_entity_id,
            ),
            ReducerCall::SignOut { player_spawnable_entity_id } => sign_out(
                &mut self.store,
                player_spawnable_entity_id,
            ),
        }
    }

    /// Takes the first call that waits out of the queue, if it is due at
    /// `now`, without running it: for a host that runs deferred calls by a
    /// timer of its own and hands them back through `invoke`.
    pub fn take_due(&mut self, now: u64) -> (taken: Option<Deferred>)
        requires
            old(self).wf(),
        ensures
            final(self).wf(),
            final(self)@.store == old(self)@.store,
            final(self)@.scheduler.delay == old(self)@.scheduler.delay,
            match taken {
                Some(deferred) => {
                    &&& old(self)@.scheduler.pending.len() > 0
                    &&& deferred == old(self)@.scheduler.pending[0]
                    &&& deferred.due <= now
                    &&& final(self)@.scheduler.pending == old(self)@.scheduler.pending.remove(0)
                },
                None => {
                    &&& old(self)@.scheduler.pending.len() > 0
                        ==> old(self)@.scheduler.pending[0].due > now
                    &&& final(self)@ == old(self)@
                },
            },
    {
        self.scheduler.take_due(now)
    }

    /// Runs the first call that waits, if it is due at `now`, as a call of
    /// its own, and says which call it was and how it ended.
    pub fn run_due(&mut self, now: u64) -> (fired: Option<Fired>)
        requires
            old(self).wf(),
        ensures
            final(self).wf(),
            final(self)@.scheduler.delay == old(self)@.scheduler.delay,
            match fired {
                Some(fired) => {
                    &&& old(self)@.scheduler.pending.len() > 0
                    &&& old(self)@.scheduler.pending[0].due <= now
                    &&& fired.call == old(self)@.scheduler.pending[0].call
                    &&& final(self)@.scheduler.pending == old(self)@.scheduler.pending.remove(0)
                    &&& match fired.outcome {
                        Ok(()) => deferred_outcome(old(self)@.store, fired.call) == Ok::<
                            StoreView,
                            ReducerErrorView,
                        >(final(self)@.store),
                        Err(error) => {
                            &&& deferred_outcome(old(self)@.store, fired.call) == Err::<
                                StoreView,
                                ReducerErrorView,
                            >(error@)
                            &&& final(self)@.store == old(self)@.store
                        },
                    }
                },
                None => {
                    &&& old(self)@.scheduler.pending.len() > 0
                        ==> old(self)@.scheduler.pending[0].due > now
                    &&& final(self)@ == old(self)@
                },
            },
    {
        run_due(&mut self.store, &mut self.scheduler, now)
    }
}

} // verus!
