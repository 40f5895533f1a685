use crate::actor::{Actor, ActorConstructable, Context, Props, Receives, State};
use crate::cell::{Cell, CellModel};
use crate::laws::{
    position_is_unique, restart_keeps_invariant, round_keeps_cells, start_keeps_invariant,
    stop_keeps_invariant, stop_removes,
};
use std::collections::VecDeque;
use vstd::prelude::*;

verus! {

/// The pause after the first idle tick, in microseconds.
pub const BASE_BACKOFF_US: u64 = 2;

/// The longest pause after an idle tick, in microseconds.
pub const MAX_BACKOFF_US: u64 = 1_000_000;

/// What a scheduler is to the contracts: the cells it drives, in order of
/// registration, and the ids queued for each lifecycle action, oldest first.
pub ghost struct SchedulerModel<A, P> {
    pub id: usize,
    pub cells: Seq<CellModel<A, P>>,
    pub starts: Seq<u128>,
    pub stops: Seq<u128>,
    pub restarts: Seq<u128>,
    pub backoff_us: u64,
}

/// Whether some cell of `cells` goes by `id`.
pub open spec fn holds<A, P>(cells: Seq<CellModel<A, P>>, id: u128) -> bool {
    exists|i: int| 0 <= i < cells.len() && (#[trigger] cells[i]).id == id
}

/// Where the cell that goes by `id` stands in `cells`, if one does.
pub open spec fn position<A, P>(cells: Seq<CellModel<A, P>>, id: u128) -> int {
    choose|i: int| 0 <= i < cells.len() && (#[trigger] cells[i]).id == id
}

/// No two cells of `cells` go by the same id.
pub open spec fn distinct<A, P>(cells: Seq<CellModel<A, P>>) -> bool {
    forall|i: int, j: int|
        0 <= i < j < cells.len() ==> (#[trigger] cells[i]).id != (#[trigger] cells[j]).id
}

/// The registry after one stop command: the cell `id`, if registered, has
/// been shut down and is gone.
pub open spec fn stop_one<A, P>(cells: Seq<CellModel<A, P>>, id: u128) -> Seq<CellModel<A, P>> {
    if holds(cells, id) {
        cells.remove(position(cells, id))
    } else {
        cells
    }
}

/// The registry after one start command: the cell `id`, if registered and
/// not started yet, has started.
pub open spec fn start_one<A: Actor, P>(cells: Seq<CellModel<A, P>>, id: u128) -> Seq<
    CellModel<A, P>,
> {
    if holds(cells, id) && cells[position(cells, id)].state == State::Starting {
        cells.update(position(cells, id), cells[position(cells, id)].started())
    } else {
        cells
    }
}

/// The registry after one restart command: the cell `id`, if registered,
/// has been restarted.
pub open spec fn restart_one<P: Props, A: ActorConstructable<P>>(
    cells: Seq<CellModel<A, P>>,
    id: u128,
) -> Seq<CellModel<A, P>> {
    if holds(cells, id) {
        cells.update(position(cells, id), cells[position(cells, id)].restarted())
    } else {
        cells
    }
}

/// The registry after the stop commands `ids`, applied oldest first.
pub open spec fn stop_all<A, P>(cells: Seq<CellModel<A, P>>, ids: Seq<u128>) -> Seq<
    CellModel<A, P>,
>
    decreases ids.len(),
{
    if ids.len() == 0 {
        cells
    } else {
        stop_all(stop_one(cells, ids[0]), ids.drop_first())
    }
}

/// The registry after the start commands `ids`, applied oldest first.
pub open spec fn start_all<A: Actor, P>(cells: Seq<CellModel<A, P>>, ids: Seq<u128>) -> Seq<
    CellModel<A, P>,
>
    decreases ids.len(),
{
    if ids.len() == 0 {
        cells
    } else {
        start_all(start_one(cells, ids[0]), ids.drop_first())
    }
}

/// The registry after the restart commands `ids`, applied oldest first.
pub open spec fn restart_all<P: Props, A: ActorConstructable<P>>(
    cells: Seq<CellModel<A, P>>,
    ids: Seq<u128>,
) -> Seq<CellModel<A, P>>
    decreases ids.len(),
{
    if ids.len() == 0 {
        cells
    } else {
        restart_all(restart_one(cells, ids[0]), ids.drop_first())
    }
}

/// The cell that one stop command halts, as its `pre_stop` hook leaves it:
/// the cell `id`, if registered, and none otherwise.
pub open spec fn halted_one<A: Actor, P>(cells: Seq<CellModel<A, P>>, id: u128) -> Seq<
    CellModel<A, P>,
> {
    if holds(cells, id) {
        seq![cells[position(cells, id)].halted()]
    } else {
        Seq::empty()
    }
}

/// The cells that the stop commands `ids` halt, in the order in which they
/// are halted.
pub open spec fn halted_all<A: Actor, P>(cells: Seq<CellModel<A, P>>, ids: Seq<u128>) -> Seq<
    CellModel<A, P>,
>
    decreases ids.len(),
{
    if ids.len() == 0 {
        Seq::empty()
    } else {
        halted_one(cells, ids[0]) + halted_all(stop_one(cells, ids[0]), ids.drop_first())
    }
}

/// The actor that one restart command retires, as its `pre_stop` hook leaves
/// it: that of the cell `id`, if registered, and none otherwise.
pub open spec fn retired_one<A: Actor, P>(cells: Seq<CellModel<A, P>>, id: u128) -> Seq<A> {
    if holds(cells, id) {
        seq![cells[position(cells, id)].halted().actor]
    } else {
        Seq::empty()
    }
}

/// The actors that the restart commands `ids` retire, in the order in which
/// they are retired.
pub open spec fn retired_all<P: Props, A: ActorConstructable<P>>(
    cells: Seq<CellModel<A, P>>,
    ids: Seq<u128>,
) -> Seq<A>
    decreases ids.len(),
{
    if ids.len() == 0 {
        Seq::empty()
    } else {
        retired_one(cells, ids[0]) + retired_all(restart_one(cells, ids[0]), ids.drop_first())
    }
}

/// The pause that follows `backoff_us` when one more tick stays idle.
pub open spec fn next_backoff(backoff_us: u64) -> u64 {
    if 2 * backoff_us <= MAX_BACKOFF_US {
        (2 * backoff_us) as u64
    } else {
        MAX_BACKOFF_US
    }
}

/// The command for the cell `id`, `count` times over.
pub open spec fn repeated(id: u128, count: usize) -> Seq<u128> {
    Seq::new(count as nat, |i: int| id)
}

/// Every cell of `cells` is running.
pub open spec fn all_running<A, P>(cells: Seq<CellModel<A, P>>) -> bool {
    forall|i: int| 0 <= i < cells.len() ==> (#[trigger] cells[i]).state == State::Running
}

/// Every cell of `cells` is running, or has not started yet and has its
/// start among `starts`.
pub open spec fn started_or_queued<A, P>(cells: Seq<CellModel<A, P>>, starts: Seq<u128>) -> bool {
    forall|i: int|
        0 <= i < cells.len() ==> {
            ||| (#[trigger] cells[i]).state == State::Running
            ||| cells[i].state == State::Starting && starts.contains(cells[i].id)
        }
}

/// Whether `deliveries` holds a message.
pub open spec fn any_delivery<M>(deliveries: Seq<Option<M>>) -> bool {
    exists|i: int| 0 <= i < deliveries.len() && (#[trigger] deliveries[i]).is_some()
}

impl<A, P> SchedulerModel<A, P> {
    /// A scheduler with no cells and nothing queued.
    pub open spec fn idle(id: usize) -> Self {
        SchedulerModel {
            id,
            cells: Seq::empty(),
            starts: Seq::empty(),
            stops: Seq::empty(),
            restarts: Seq::empty(),
            backoff_us: BASE_BACKOFF_US,
        }
    }

    /// Whether the scheduler takes `cell` in: it has not started yet, and
    /// its id is free.
    pub open spec fn accepts(self, cell: CellModel<A, P>) -> bool {
        cell.state == State::Starting && !holds(self.cells, cell.id)
    }

    /// The scheduler after it was handed `cell`: where it takes the cell in,
    /// the cell is last in the registry and its start is queued.
    pub open spec fn registered(self, cell: CellModel<A, P>) -> Self {
        if !self.accepts(cell) {
            self
        } else {
            SchedulerModel {
                cells: self.cells.push(cell),
                starts: self.starts.push(cell.id),
                ..self
            }
        }
    }

    /// The scheduler after a stop was asked for the cell `id`.
    pub open spec fn stop_queued(self, id: u128) -> Self {
        if holds(self.cells, id) {
            SchedulerModel { stops: self.stops.push(id), ..self }
        } else {
            self
        }
    }

    /// The scheduler after a restart was asked for the cell `id`.
    pub open spec fn restart_queued(self, id: u128) -> Self {
        if holds(self.cells, id) {
            SchedulerModel { restarts: self.restarts.push(id), ..self }
        } else {
            self
        }
    }

    /// The cells that the next tick halts, in order.
    pub open spec fn halts(self) -> Seq<CellModel<A, P>> where A: Actor {
        halted_all(self.cells, self.stops)
    }

    /// The actors that the next tick retires by a restart, in order.
    pub open spec fn retires(self) -> Seq<A> where P: Props, A: ActorConstructable<P> {
        retired_all(start_all(stop_all(self.cells, self.stops), self.starts), self.restarts)
    }

    /// The number of lifecycle commands that wait.
    pub open spec fn commands(self) -> nat {
        self.stops.len() + self.starts.len() + self.restarts.len()
    }

    /// The scheduler after the lifecycle part of a tick: every queued stop
    /// has been applied, then every start, then every restart, and the three
    /// queues are empty.
    pub open spec fn lifecycle(self) -> Self where P: Props, A: ActorConstructable<P> {
        SchedulerModel {
            cells: restart_all(
                start_all(stop_all(self.cells, self.stops), self.starts),
                self.restarts,
            ),
            starts: Seq::empty(),
            stops: Seq::empty(),
            restarts: Seq::empty(),
            ..self
        }
    }

    /// The scheduler after the cell at `index` was offered `delivery`: with
    /// a message, its actor has handled it, and what the handler asked of its
    /// context is queued behind the commands that wait.
    pub open spec fn deliver_at<M>(self, index: int, delivery: Option<M>) -> Self where
        A: Receives<M>,
     {
        match delivery {
            None => self,
            Some(msg) => {
                let cell = self.cells[index];
                let reply = cell.reply(msg);
                SchedulerModel {
                    cells: self.cells.update(index, cell.delivered(msg)),
                    stops: self.stops + repeated(cell.id, reply.stops_asked()),
                    restarts: self.restarts + repeated(cell.id, reply.restarts_asked()),
                    ..self
                }
            },
        }
    }

    /// The scheduler after the message part of a tick, in which the cell at
    /// each index `i` below `deliveries.len()` was offered `deliveries[i]`,
    /// in the order of the registry.
    pub open spec fn round<M>(self, deliveries: Seq<Option<M>>) -> Self where A: Receives<M>
        decreases deliveries.len(),
    {
        if deliveries.len() == 0 {
            self
        } else {
            self.round(deliveries.drop_last()).deliver_at(
                deliveries.len() - 1,
                deliveries.last(),
            )
        }
    }

    /// Whether `deliveries` can be what the mailboxes yield in one round:
    /// one entry per cell, and a message only for a cell that is running.
    pub open spec fn admits<M>(self, deliveries: Seq<Option<M>>) -> bool {
        &&& deliveries.len() == self.cells.len()
        &&& forall|i: int|
            0 <= i < deliveries.len() && (#[trigger] deliveries[i]).is_some()
                ==> self.cells[i].state == State::Running
    }

    /// Whether a tick that starts here and is handed `deliveries` does any
    /// work: applies a lifecycle command or delivers a message.
    pub open spec fn works<M>(self, deliveries: Seq<Option<M>>) -> bool {
        self.commands() > 0 || any_delivery(deliveries)
    }

    /// The scheduler after one tick in which the mailboxes yield
    /// `deliveries`: lifecycle commands first, then the messages. A tick that
    /// did work resets the pause; an idle one doubles it up to the cap.
    pub open spec fn ticked<M>(self, deliveries: Seq<Option<M>>) -> Self where
        P: Props,
        A: ActorConstructable<P> + Receives<M>,
     {
        SchedulerModel {
            backoff_us: if self.works(deliveries) {
                BASE_BACKOFF_US
            } else {
                next_backoff(self.backoff_us)
            },
            ..self.lifecycle().round(deliveries)
        }
    }

    /// How long to sleep after that tick, in microseconds: not at all where
    /// it did work.
    pub open spec fn pause<M>(self, deliveries: Seq<Option<M>>) -> Option<u64> {
        if self.works(deliveries) {
            None
        } else {
            Some(self.backoff_us)
        }
    }

    /// No two cells share an id; every cell is running, or has not started
    /// yet and has its start queued; the pause is within its bounds.
    pub open spec fn wf(self) -> bool {
        &&& distinct(self.cells)
        &&& BASE_BACKOFF_US <= self.backoff_us <= MAX_BACKOFF_US
        &&& started_or_queued(self.cells, self.starts)
    }
}

/// What cells are to the contracts, in the order in which they are held.
pub open spec fn models<A, P, M>(cells: Seq<Cell<A, P, M>>) -> Seq<CellModel<A, P>> {
    Seq::new(cells.len(), |i: int| cells[i]@)
}

/// What one tick hands back: the pause to take before the next tick, if the
/// tick was idle; the cells it halted, each as its `pre_stop` hook left it;
/// and the actors it replaced by a restart, each as its `pre_stop` hook left
/// it. Both lists are in the order of the commands.
#[verifier::reject_recursive_types(M)]
pub struct Tick<A, P, M> {
    pub pause: Option<u64>,
    pub halted: Vec<Cell<A, P, M>>,
    pub retired: Vec<A>,
}

/// One scheduler: the registry of the cells it drives, three queues of
/// lifecycle commands, and the pause it will take after its next idle tick.
#[verifier::reject_recursive_types(M)]
pub struct Scheduler<A, P, M> {
    id: usize,
    cells: Vec<Cell<A, P, M>>,
    actor_starts: VecDeque<u128>,
    actor_stops: VecDeque<u128>,
    actor_restarts: VecDeque<u128>,
    backoff_us: u64,
}

impl<A, P, M> View for Scheduler<A, P, M> {
    type V = SchedulerModel<A, P>;

    closed spec fn view(&self) -> SchedulerModel<A, P> {
        SchedulerModel {
            id: self.id,
            cells: models(self.cells@),
            starts: self.actor_starts@,
            stops: self.actor_stops@,
            restarts: self.actor_restarts@,
            backoff_us: self.backoff_us,
        }
    }
}

impl<A, P, M> Scheduler<A, P, M> where P: Props, A: ActorConstructable<P> + Receives<M> {
    /// The scheduler's invariant: see `SchedulerModel::wf`.
    pub open spec fn wf(&self) -> bool {
        self@.wf()
    }

    /// A scheduler with no cells and nothing queued.
    pub fn new(id: usize) -> (scheduler: Self)
        ensures
            scheduler@ == SchedulerModel::<A, P>::idle(id),
            scheduler.wf(),
    {
        let scheduler = Scheduler {
            id,
            cells: Vec::new(),
            actor_starts: VecDeque::new(),
            actor_stops: VecDeque::new(),
            actor_restarts: VecDeque::new(),
            backoff_us: BASE_BACKOFF_US,
        };
        assert(scheduler@.cells =~= Seq::empty());
        scheduler
    }

    /// The index of this scheduler among its system's schedulers.
    pub fn id(&self) -> (id: usize)
        ensures
            id == self@.id,
    {
        self.id
    }

    /// The number of registered cells.
    pub fn len(&self) -> (n: usize)
        ensures
            n == self@.cells.len(),
    {
        self.cells.len()
    }

    /// The registered cell at `index`, in order of registration.
    pub fn cell(&self, index: usize) -> (cell: &Cell<A, P, M>)
        requires
            index < self@.cells.len(),
        ensures
            cell@ == self@.cells[index as int],
    {
        &self.cells[index]
    }

    /// The pause, in microseconds, that follows the next idle tick.
    pub fn backoff_us(&self) -> (us: u64)
        ensures
            us == self@.backoff_us,
    {
        self.backoff_us
    }

    /// Where the cell that goes by `id` stands in the registry.
    pub fn find(&self, id: u128) -> (found: Option<usize>)
        requires
            distinct(self@.cells),
        ensures
            found.is_some() == holds(self@.cells, id),
            found.is_some() ==> found.unwrap() == position(self@.cells, id),
    {
        let mut i: usize = 0;
        while i < self.cells.len()
            invariant
                distinct(self@.cells),
                i <= self.cells.len(),
                forall|j: int| 0 <= j < i ==> (#[trigger] self@.cells[j]).id != id,
            decreases self.cells.len() - i,
        {
            if self.cells[i].uuid() == id {
                proof {
                    position_is_unique(self@.cells, id, i as int);
                }
                return Some(i);
            }
            i += 1;
        }
        None
    }

    /// Takes `cell` into the registry and queues its start. A cell that has
    /// started before, or whose id is taken by a registered cell, is
    /// dropped instead, and with it its mailbox. Reports whether the cell
    /// was taken in.
    pub fn register_new_cell(&mut self, cell: Cell<A, P, M>) -> (taken: bool)
        requires
            old(self).wf(),
        ensures
            final(self).wf(),
            taken == old(self)@.accepts(cell@),
            final(self)@ == old(self)@.registered(cell@),
    {
        let id = cell.uuid();
        if cell.state() != State::Starting || self.find(id).is_some() {
            return false;
        }
        self.cells.push(cell);
        self.actor_starts.push_back(id);
        proof {
            assert(self@.cells =~= old(self)@.cells.push(cell@));
            assert(self@.starts[old(self)@.starts.len() as int] == id);
            assert forall|i: int| 0 <= i < old(self)@.cells.len() && old(self)@.starts.contains(
                (#[trigger] self@.cells[i]).id,
            ) implies self@.starts.contains(self@.cells[i].id) by {
                let k = choose|k: int|
                    0 <= k < old(self)@.starts.len() && old(self)@.starts[k] == self@.cells[i].id;
                assert(self@.starts[k] == self@.cells[i].id);
            }
        }
        true
    }

    /// Queues a stop for the cell `id`, if it is registered. The stop is
    /// applied by the next tick, never here.
    pub fn stop_actor(&mut self, id: u128)
        requires
            old(self).wf(),
        ensures
            final(self).wf(),
            final(self)@ == old(self)@.stop_queued(id),
    {
        if self.find(id).is_some() {
            self.actor_stops.push_back(id);
        }
    }

    /// Queues a restart for the cell `id`, if it is registered. The restart
    /// is applied by the next tick, never here.
    pub fn restart_actor(&mut self, id: u128)
        requires
            old(self).wf(),
        ensures
            final(self).wf(),
            final(self)@ == old(self)@.restart_queued(id),
    {
        if self.find(id).is_some() {
            self.actor_restarts.push_back(id);
        }
    }

    /// Applies every queued stop, oldest first: the cell, if it is still
    /// registered, is shut down and leaves the registry. Returns the cells
    /// that were shut down, in that order.
    pub fn apply_stops(&mut self) -> (halted: Vec<Cell<A, P, M>>)
        requires
            old(self).wf(),
        ensures
            final(self).wf(),
            models(halted@) == old(self)@.halts(),
            final(self)@ == (SchedulerModel {
                cells: stop_all(old(self)@.cells, old(self)@.stops),
                stops: Seq::empty(),
                ..old(self)@
            }),
    {
        let mut halted: Vec<Cell<A, P, M>> = Vec::new();
        assert(models(halted@) =~= Seq::empty());
        while self.actor_stops.len() > 0
            invariant
                self.wf(),
                stop_all(self@.cells, self@.stops) == stop_all(
                    old(self)@.cells,
                    old(self)@.stops,
                ),
                models(halted@) + halted_all(self@.cells, self@.stops) == halted_all(
                    old(self)@.cells,
                    old(self)@.stops,
                ),
                self@ == (SchedulerModel { cells: self@.cells, stops: self@.stops, ..old(self)@ }),
            decreases self@.stops.len(),
        {
            let ghost before = self@;
            let ghost gone = models(halted@);
            let id = self.actor_stops.pop_front().unwrap();
            if let Some(index) = self.find(id) {
                let mut cell = self.cells.remove(index);
                cell.shutdown();
                assert(self@.cells =~= before.cells.remove(index as int));
                halted.push(cell);
                assert(models(halted@) =~= gone + halted_one(before.cells, id));
            }
            assert(self@.cells == stop_one(before.cells, id));
            assert(self@.stops =~= before.stops.drop_first());
            assert(models(halted@) == gone + halted_one(before.cells, id));
            proof {
                stop_removes(before.cells, id);
                stop_keeps_invariant(before.cells, id, before.starts);
                let ahead = halted_all(self@.cells, self@.stops);
                assert((gone + halted_one(before.cells, id)) + ahead =~= gone + (halted_one(
                    before.cells,
                    id,
                ) + ahead));
            }
        }
        assert(self@.stops =~= Seq::empty());
        assert(models(halted@) + Seq::<CellModel<A, P>>::empty() =~= models(halted@));
        halted
    }

    /// Applies every queued start, oldest first: the cell, if it is
    /// registered and has not started yet, starts.
    pub fn apply_starts(&mut self)
        requires
            old(self).wf(),
        ensures
            final(self).wf(),
            final(self)@ == (SchedulerModel {
                cells: start_all(old(self)@.cells, old(self)@.starts),
                starts: Seq::empty(),
                ..old(self)@
            }),
    {
        while self.actor_starts.len() > 0
            invariant
                self.wf(),
                start_all(self@.cells, self@.starts) == start_all(
                    old(self)@.cells,
                    old(self)@.starts,
                ),
                self@ == (SchedulerModel {
                    cells: self@.cells,
                    starts: self@.starts,
                    ..old(self)@
                }),
            decreases self@.starts.len(),
        {
            let ghost before = self@;
            let id = self.actor_starts.pop_front().unwrap();
            if let Some(index) = self.find(id) {
                if self.cells[index].state() == State::Starting {
                    self.cells[index].start();
                    assert(self@.cells =~= before.cells.update(
                        index as int,
                        before.cells[index as int].started(),
                    ));
                }
            }
            assert(self@.cells == start_one(before.cells, id));
            assert(self@.starts =~= before.starts.drop_first());
            proof {
                start_keeps_invariant(before.cells, before.starts);
            }
        }
        assert(self@.starts =~= Seq::empty());
    }

    /// Applies every queued restart, oldest first: the cell, if it is
    /// registered, is restarted. Returns the actors that were replaced, in
    /// that order.
    pub fn apply_restarts(&mut self) -> (retired: Vec<A>)
        requires
            old(self).wf(),
        ensures
            final(self).wf(),
            retired@ == retired_all(old(self)@.cells, old(self)@.restarts),
            final(self)@ == (SchedulerModel {
                cells: restart_all(old(self)@.cells, old(self)@.restarts),
                restarts: Seq::empty(),
                ..old(self)@
            }),
    {
        let mut retired: Vec<A> = Vec::new();
        while self.actor_restarts.len() > 0
            invariant
                self.wf(),
                restart_all(self@.cells, self@.restarts) == restart_all(
                    old(self)@.cells,
                    old(self)@.restarts,
                ),
                retired@ + retired_all(self@.cells, self@.restarts) == retired_all(
                    old(self)@.cells,
                    old(self)@.restarts,
                ),
                self@ == (SchedulerModel {
                    cells: self@.cells,
                    restarts: self@.restarts,
                    ..old(self)@
                }),
            decreases self@.restarts.len(),
        {
            let ghost before = self@;
            let ghost gone = retired@;
            let id = self.actor_restarts.pop_front().unwrap();
            if let Some(index) = self.find(id) {
                let actor = self.cells[index].restart();
                assert(self@.cells =~= before.cells.update(
                    index as int,
                    before.cells[index as int].restarted(),
                ));
                retired.push(actor);
            }
            assert(self@.cells == restart_one(before.cells, id));
            assert(self@.restarts =~= before.restarts.drop_first());
            assert(retired@ =~= gone + retired_one(before.cells, id));
            proof {
                restart_keeps_invariant(before.cells, id, before.starts);
                let ahead = retired_all(self@.cells, self@.restarts);
                assert((gone + retired_one(before.cells, id)) + ahead =~= gone + (retired_one(
                    before.cells,
                    id,
                ) + ahead));
            }
        }
        assert(self@.restarts =~= Seq::empty());
        assert(retired@ + Seq::<A>::empty() =~= retired@);
        retired
    }

    /// Queues what a handler asked of its context for the cell `id`: one
    /// stop for each stop asked for, one restart for each restart.
    fn enqueue_requests(&mut self, id: u128, reply: Context)
        ensures
            final(self)@ == (SchedulerModel {
                stops: old(self)@.stops + repeated(id, reply.stops_asked()),
                restarts: old(self)@.restarts + repeated(id, reply.restarts_asked()),
                ..old(self)@
            }),
    {
        let stops = reply.stop_requests();
        let mut queued: usize = 0;
        while queued < stops
            invariant
                queued <= stops,
                self@ == (SchedulerModel {
                    stops: old(self)@.stops + repeated(id, queued),
                    ..old(self)@
                }),
            decreases stops - queued,
        {
            self.actor_stops.push_back(id);
            assert(self@.stops =~= old(self)@.stops + repeated(id, (queued + 1) as usize));
            queued += 1;
        }
        let ghost mid = self@;
        let restarts = reply.restart_requests();
        let mut queued: usize = 0;
        while queued < restarts
            invariant
                queued <= restarts,
                self@ == (SchedulerModel {
                    restarts: old(self)@.restarts + repeated(id, queued),
                    ..mid
                }),
            decreases restarts - queued,
        {
            self.actor_restarts.push_back(id);
            assert(self@.restarts =~= old(self)@.restarts + repeated(id, (queued + 1) as usize));
            queued += 1;
        }
    }

    /// Walks the registry once and lets every cell process at most one
    /// message. What a handler asks of its context is queued for a later
    /// tick. Reports whether a message was delivered.
    pub fn deliver_round(&mut self) -> (worked: bool)
        requires
            old(self).wf(),
        ensures
            final(self).wf(),
            exists|deliveries: Seq<Option<M>>|
                {
                    &&& old(self)@.admits(deliveries)
                    &&& final(self)@ == old(self)@.round(deliveries)
                    &&& worked == any_delivery(deliveries)
                },
    {
        let mut worked = false;
        let ghost mut deliveries: Seq<Option<M>> = Seq::empty();
        let n = self.cells.len();
        let mut index: usize = 0;
        while index < n
            invariant
                self.wf(),
                index <= n,
                n == self@.cells.len(),
                n == old(self)@.cells.len(),
                deliveries.len() == index,
                forall|i: int|
                    0 <= i < deliveries.len() && (#[trigger] deliveries[i]).is_some()
                        ==> old(self)@.cells[i].state == State::Running,
                forall|i: int|
                    index <= i < n ==> (#[trigger] self@.cells[i]) == old(self)@.cells[i],
                self@ == old(self)@.round(deliveries),
                worked == any_delivery(deliveries),
            decreases n - index,
        {
            let ghost before = self@;
            let ghost earlier = deliveries;
            let id = self.cells[index].uuid();
            let reply = self.cells[index].process();
            match reply {
                Some(ctx) => {
                    let ghost msg = choose|msg: M|
                        self@.cells[index as int] == before.cells[index as int].delivered(msg)
                            && ctx == before.cells[index as int].reply(msg);
                    assert(self@.cells =~= before.cells.update(
                        index as int,
                        before.cells[index as int].delivered(msg),
                    ));
                    self.enqueue_requests(id, ctx);
                    proof {
                        deliveries = earlier.push(Some(msg));
                    }
                    worked = true;
                },
                None => {
                    assert(self@.cells =~= before.cells);
                    proof {
                        deliveries = earlier.push(None);
                    }
                },
            }
            proof {
                assert(deliveries.drop_last() =~= earlier);
                assert(self@ == before.deliver_at(index as int, deliveries.last()));
                assert(deliveries[index as int] == deliveries.last());
                if any_delivery(earlier) {
                    let k = choose|k: int| 0 <= k < earlier.len() && earlier[k].is_some();
                    assert(deliveries[k].is_some());
                }
            }
            index += 1;
        }
        worked
    }

    /// One tick: applies the queued stops, then the starts, then the
    /// restarts, and only then offers every registered cell one message.
    /// A tick that did no work returns the pause to take before the next
    /// one and doubles the pause that follows, up to the cap; a tick that
    /// did work returns no pause and resets the pause that follows. The
    /// halted cells and the replaced actors are handed back.
    pub fn tick(&mut self) -> (tick: Tick<A, P, M>)
        requires
            old(self).wf(),
        ensures
            final(self).wf(),
            all_running(final(self)@.cells),
            models(tick.halted@) == old(self)@.halts(),
            tick.retired@ == old(self)@.retires(),
            exists|deliveries: Seq<Option<M>>|
                {
                    &&& old(self)@.lifecycle().admits(deliveries)
                    &&& final(self)@ == old(self)@.ticked(deliveries)
                    &&& tick.pause == old(self)@.pause(deliveries)
                },
    {
        let commands = self.actor_stops.len() > 0 || self.actor_starts.len() > 0
            || self.actor_restarts.len() > 0;
        let halted = self.apply_stops();
        self.apply_starts();
        let retired = self.apply_restarts();
        assert(self@ == old(self)@.lifecycle());
        let ghost mid = self@;
        let delivered = self.deliver_round();
        let ghost deliveries = choose|deliveries: Seq<Option<M>>|
            {
                &&& mid.admits(deliveries)
                &&& self@ == mid.round(deliveries)
                &&& delivered == any_delivery(deliveries)
            };
        let ghost after = self@;
        proof {
            round_keeps_cells(mid, deliveries);
        }
        assert(commands == (old(self)@.commands() > 0));
        let pause = if commands || delivered {
            self.backoff_us = BASE_BACKOFF_US;
            None
        } else {
            let pause = self.backoff_us;
            self.backoff_us = if pause <= MAX_BACKOFF_US / 2 {
                2 * pause
            } else {
                MAX_BACKOFF_US
            };
            Some(pause)
        };
        assert(self@ == (SchedulerModel { backoff_us: self@.backoff_us, ..after }));
        assert(self@ == old(self)@.ticked(deliveries));
        assert(pause == old(self)@.pause(deliveries));
        Tick { pause, halted, retired }
    }
}

} // verus!
