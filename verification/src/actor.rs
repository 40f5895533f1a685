use vstd::prelude::*;

verus! {

/// Where a cell stands in its lifecycle.
#[derive(Clone, Copy, Debug, PartialEq, Eq, Structural)]
pub enum State {
    Halted,
    Starting,
    Running,
    Restarting,
    Stopping,
}

/// A value with private state that is reached only through messages.
///
/// Each hook comes with a spec function that names the actor the hook leaves
/// behind; the runtime's contracts are stated over these names. An impl
/// that is not verified writes them as ordinary functions that compute the
/// same; nothing calls them.
pub trait Actor: Sized + Send + Sync {
    /// The actor as `start` leaves it.
    spec fn started(self) -> Self;

    /// The actor as `pre_stop` leaves it.
    spec fn stopped(self) -> Self;

    /// Runs once at the beginning of every lifetime segment.
    fn start(&mut self)
        ensures
            *final(self) == old(self).started(),
    ;

    /// Runs once before the actor is halted or replaced.
    fn pre_stop(&mut self)
        ensures
            *final(self) == old(self).stopped(),
    ;
}

/// Immutable configuration from which an actor is built.
pub trait Props {

}

/// An actor that can be built, and rebuilt on restart, from its configuration.
pub trait ActorConstructable<P: Props>: Actor {
    /// The actor that `new` builds from `props`.
    spec fn built(props: &P) -> Self;

    /// Builds the actor from its configuration.
    fn new(props: &P) -> (actor: Self)
        ensures
            actor == Self::built(props),
    ;
}

/// The capability to handle messages of type `M`.
pub trait Receives<M>: Actor {
    /// The actor as handling `msg` leaves it.
    spec fn received(self, msg: M) -> Self;

    /// The context as handling `msg` leaves it: `ctx` with whatever lifecycle
    /// requests the handler made.
    spec fn replied(self, msg: M, ctx: Context) -> Context;

    /// Handles `msg`. Lifecycle actions asked of `ctx` take effect on a
    /// later tick, after this call has returned.
    fn receive(&mut self, msg: M, ctx: &mut Context)
        ensures
            *final(self) == old(self).received(msg),
            *final(ctx) == old(self).replied(msg, *old(ctx)),
    ;
}

/// The handle a receiver gets for one delivery. It counts the lifecycle
/// actions the actor asks for; the scheduler turns each into a queued command
/// once the receiver has returned, so none of them runs inside the receive.
#[derive(Clone, Copy, Debug, PartialEq, Eq, Structural)]
pub struct Context {
    parent_cell_uuid: u128,
    running_state: State,
    stops: usize,
    restarts: usize,
}

/// One more than `count`, as far as a `usize` can hold it.
pub open spec fn one_more(count: usize) -> usize {
    if count < usize::MAX {
        (count + 1) as usize
    } else {
        count
    }
}

impl Context {
    /// The id of the cell whose actor is receiving.
    pub closed spec fn cell_id(&self) -> u128 {
        self.parent_cell_uuid
    }

    /// The lifecycle state of the cell at the moment of delivery.
    pub closed spec fn state(&self) -> State {
        self.running_state
    }

    /// How many stops have been asked for.
    pub closed spec fn stops_asked(&self) -> usize {
        self.stops
    }

    /// How many restarts have been asked for.
    pub closed spec fn restarts_asked(&self) -> usize {
        self.restarts
    }

    /// This context with one more stop asked for.
    pub closed spec fn with_stop(self) -> Context {
        Context { stops: one_more(self.stops), ..self }
    }

    /// This context with one more restart asked for.
    pub closed spec fn with_restart(self) -> Context {
        Context { restarts: one_more(self.restarts), ..self }
    }

    /// The context of a delivery that has asked for nothing yet.
    pub closed spec fn fresh(uuid: u128, state: State) -> Context {
        Context { parent_cell_uuid: uuid, running_state: state, stops: 0, restarts: 0 }
    }

    pub(crate) fn new(uuid: u128, state: State) -> (ctx: Self)
        ensures
            ctx == Context::fresh(uuid, state),
    {
        Context { parent_cell_uuid: uuid, running_state: state, stops: 0, restarts: 0 }
    }

    /// Asks the scheduler to stop this cell. The stop is queued when the
    /// current receive returns and applied on a later tick.
    pub fn stop(&mut self)
        ensures
            *final(self) == old(self).with_stop(),
    {
        if self.stops < usize::MAX {
            self.stops = self.stops + 1;
        }
    }

    /// Asks the scheduler to restart this cell. The restart is queued when
    /// the current receive returns and applied on a later tick.
    pub fn restart(&mut self)
        ensures
            *final(self) == old(self).with_restart(),
    {
        if self.restarts < usize::MAX {
            self.restarts = self.restarts + 1;
        }
    }

    /// The number of stops asked for so far.
    pub fn stop_requests(&self) -> (count: usize)
        ensures
            count == self.stops_asked(),
    {
        self.stops
    }

    /// The number of restarts asked for so far.
    pub fn restart_requests(&self) -> (count: usize)
        ensures
            count == self.restarts_asked(),
    {
        self.restarts
    }

    /// What asking for a stop or a restart changes about a context.
    pub broadcast proof fn requests_of(ctx: Context)
        ensures
            #![trigger ctx.with_stop()]
            #![trigger ctx.with_restart()]
            ctx.with_stop().stops_asked() == one_more(ctx.stops_asked()),
            ctx.with_stop().restarts_asked() == ctx.restarts_asked(),
            ctx.with_stop().cell_id() == ctx.cell_id(),
            ctx.with_stop().state() == ctx.state(),
            ctx.with_restart().restarts_asked() == one_more(ctx.restarts_asked()),
            ctx.with_restart().stops_asked() == ctx.stops_asked(),
            ctx.with_restart().cell_id() == ctx.cell_id(),
            ctx.with_restart().state() == ctx.state(),
    {
    }

    /// A fresh context has asked for nothing.
    pub broadcast proof fn fresh_asks_nothing(uuid: u128, state: State)
        ensures
            #![trigger Context::fresh(uuid, state)]
            Context::fresh(uuid, state).stops_asked() == 0,
            Context::fresh(uuid, state).restarts_asked() == 0,
            Context::fresh(uuid, state).cell_id() == uuid,
            Context::fresh(uuid, state).state() == state,
    {
    }
}

} // verus!
