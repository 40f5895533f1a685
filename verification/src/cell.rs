use crate::actor::{Actor, ActorConstructable, Context, Props, Receives, State};
use crate::address::Address;
use crate::mailbox;
use crossbeam_channel::{Receiver, Sender};
use vstd::prelude::*;

verus! {

/// What a cell is to the contracts: its identity, its actor, the
/// configuration the actor is built from, and its lifecycle state. The
/// mailbox is not part of it.
pub ghost struct CellModel<A, P> {
    pub id: u128,
    pub actor: A,
    pub props: P,
    pub state: State,
}

impl<A, P> CellModel<A, P> {
    /// A cell as it is created: a freshly built actor that has not started.
    pub open spec fn created(id: u128, props: P) -> Self where
        P: Props,
        A: ActorConstructable<P>,
     {
        CellModel { id, actor: A::built(&props), props, state: State::Starting }
    }

    /// The cell after its `start` hook: running.
    pub open spec fn started(self) -> Self where A: Actor {
        CellModel { actor: self.actor.started(), state: State::Running, ..self }
    }

    /// The cell after `pre_stop`: halted.
    pub open spec fn halted(self) -> Self where A: Actor {
        CellModel { actor: self.actor.stopped(), state: State::Halted, ..self }
    }

    /// The cell with its actor replaced by one built anew from the retained
    /// configuration.
    pub open spec fn rebuilt(self) -> Self where P: Props, A: ActorConstructable<P> {
        CellModel { actor: A::built(&self.props), ..self }
    }

    /// The cell after a restart: the old actor is gone, and a new one, built
    /// from the retained configuration, has started.
    pub open spec fn restarted(self) -> Self where P: Props, A: ActorConstructable<P> {
        CellModel { actor: A::built(&self.props).started(), state: State::Running, ..self }
    }

    /// The cell after its actor has handled `msg`.
    pub open spec fn delivered<M>(self, msg: M) -> Self where A: Receives<M> {
        CellModel { actor: self.actor.received(msg), ..self }
    }

    /// The context that the handler of `msg` leaves behind.
    pub open spec fn reply<M>(self, msg: M) -> Context where A: Receives<M> {
        self.actor.replied(msg, Context::fresh(self.id, self.state))
    }
}

/// The unit of identity and serial execution: one actor, the configuration it
/// is rebuilt from, its lifecycle state and both ends of its mailbox. The
/// actor is reached only through `&mut` access to the cell, so no two of
/// its hooks or handlers ever run at once.
#[verifier::reject_recursive_types(M)]
pub struct Cell<A, P, M> {
    uuid: u128,
    actor: A,
    props: P,
    actor_running_state: State,
    mailbox: Receiver<M>,
    postman: Sender<M>,
}

impl<A, P, M> View for Cell<A, P, M> {
    type V = CellModel<A, P>;

    closed spec fn view(&self) -> CellModel<A, P> {
        CellModel {
            id: self.uuid,
            actor: self.actor,
            props: self.props,
            state: self.actor_running_state,
        }
    }
}

/// Calls `uuid::Uuid::new_v4` and reads the result with `Uuid::as_u128`. The
/// id is drawn at random, so nothing is claimed of it.
#[verifier::external_body]
pub(crate) fn fresh_id() -> (id: u128) {
    uuid::Uuid::new_v4().as_u128()
}

impl<A, P, M> Cell<A, P, M> where P: Props, A: ActorConstructable<P> + Receives<M> {
    /// The two ends of the cell's mailbox. A cell keeps them for life.
    pub closed spec fn mailbox(&self) -> (Sender<M>, Receiver<M>) {
        (self.postman, self.mailbox)
    }

    /// A new cell under the given id, with a new mailbox and an actor built
    /// from `props`.
    pub fn with_id(id: u128, props: P) -> (cell: Self)
        ensures
            cell@ == CellModel::<A, P>::created(id, props),
    {
        let (tx, rx) = mailbox::open::<M>();
        let actor = A::new(&props);
        Cell {
            uuid: id,
            actor,
            props,
            actor_running_state: State::Starting,
            mailbox: rx,
            postman: tx,
        }
    }

    /// A new cell under a random id.
    pub fn new(props: P) -> (cell: Self)
        ensures
            cell@ == CellModel::<A, P>::created(cell@.id, props),
    {
        Cell::with_id(fresh_id(), props)
    }

    /// The actor, for reading.
    pub fn actor_ref(&self) -> (actor: &A)
        ensures
            *actor == self@.actor,
    {
        &self.actor
    }

    /// The cell's id.
    pub fn uuid(&self) -> (id: u128)
        ensures
            id == self@.id,
    {
        self.uuid
    }

    /// Where the cell stands in its lifecycle.
    pub fn state(&self) -> (state: State)
        ensures
            state == self@.state,
    {
        self.actor_running_state
    }

    /// The context for a delivery made now.
    pub fn context(&self) -> (ctx: Context)
        ensures
            ctx == Context::fresh(self@.id, self@.state),
    {
        Context::new(self.uuid, self.actor_running_state)
    }

    /// An address that posts into this cell's mailbox.
    pub fn address(&self) -> (address: Address<M>)
        ensures
            address.target() == self@.id,
    {
        Address::new(self.uuid, mailbox::share(&self.postman))
    }

    /// Replaces the actor by one built anew from the retained configuration.
    pub fn reset_actor_state(&mut self)
        ensures
            final(self)@ == old(self)@.rebuilt(),
            final(self).mailbox() == old(self).mailbox(),
    {
        self.actor = A::new(&self.props);
    }

    /// Hands `delivery` to the actor. With `None` nothing happens; with a
    /// message the actor handles it, and the context it leaves is returned.
    pub fn deliver(&mut self, delivery: Option<M>) -> (reply: Option<Context>)
        requires
            old(self)@.state == State::Running,
        ensures
            final(self).mailbox() == old(self).mailbox(),
            match delivery {
                Some(msg) => final(self)@ == old(self)@.delivered(msg) && reply == Some(
                    old(self)@.reply(msg),
                ),
                None => final(self)@ == old(self)@ && reply.is_none(),
            },
    {
        match delivery {
            Some(msg) => {
                let mut ctx = self.context();
                self.actor.receive(msg, &mut ctx);
                Some(ctx)
            },
            None => None,
        }
    }

    /// Delivers at most one message: where the cell is running and its
    /// mailbox yields one, the actor handles it and the context it leaves is
    /// returned. A cell that is not running leaves its mailbox alone.
    pub fn process(&mut self) -> (reply: Option<Context>)
        ensures
            final(self).mailbox() == old(self).mailbox(),
            old(self)@.state != State::Running ==> reply.is_none(),
            match reply {
                Some(ctx) => exists|msg: M|
                    final(self)@ == old(self)@.delivered(msg) && ctx == old(self)@.reply(msg),
                None => final(self)@ == old(self)@,
            },
    {
        if self.actor_running_state == State::Running {
            let delivery = mailbox::take(&self.mailbox);
            self.deliver(delivery)
        } else {
            None
        }
    }

    /// Runs the actor's `start` hook and sets the cell running.
    pub fn start(&mut self)
        ensures
            final(self)@ == old(self)@.started(),
            final(self).mailbox() == old(self).mailbox(),
    {
        self.actor.start();
        self.actor_running_state = State::Running;
    }

    /// Runs the actor's `pre_stop` hook and halts the cell.
    pub fn shutdown(&mut self)
        ensures
            final(self)@ == old(self)@.halted(),
            final(self).mailbox() == old(self).mailbox(),
    {
        self.actor_running_state = State::Stopping;
        self.actor.pre_stop();
        self.actor_running_state = State::Halted;
    }

    /// Shuts the actor down, replaces it by one built anew from the retained
    /// configuration, and starts that one. Returns the actor that was
    /// replaced, as `pre_stop` left it.
    pub fn restart(&mut self) -> (retired: A)
        ensures
            final(self)@ == old(self)@.restarted(),
            final(self).mailbox() == old(self).mailbox(),
            retired == old(self)@.halted().actor,
    {
        self.shutdown();
        let mut actor = A::new(&self.props);
        core::mem::swap(&mut self.actor, &mut actor);
        self.actor_running_state = State::Starting;
        self.start();
        actor
    }
}

} // verus!
