use crate::actor::{ActorConstructable, Props, Receives};
use crate::address::Address;
use crate::cell::{fresh_id, Cell, CellModel};
use crate::scheduler::{all_running, models, Scheduler, SchedulerModel, Tick};
use vstd::prelude::*;

verus! {

/// Where a system stands between construction and teardown.
#[derive(Clone, Copy, Debug, PartialEq, Eq, Structural)]
pub enum RunningState {
    AwaitingStart,
    Starting,
    Running,
    Stopping,
    Stopped,
}

impl RunningState {
    /// The state's name as it is shown to people.
    pub open spec fn label(self) -> Seq<char> {
        match self {
            RunningState::AwaitingStart => "awaiting-start"@,
            RunningState::Starting => "starting"@,
            RunningState::Running => "running"@,
            RunningState::Stopping => "stopping"@,
            RunningState::Stopped => "stopped"@,
        }
    }

    /// The state's name as it is shown to people.
    pub fn name(&self) -> (name: &'static str)
        ensures
            name@ == self.label(),
    {
        match self {
            RunningState::AwaitingStart => "awaiting-start",
            RunningState::Starting => "starting",
            RunningState::Running => "running",
            RunningState::Stopping => "stopping",
            RunningState::Stopped => "stopped",
        }
    }
}

/// Calls `num_cpus::get`, the number of logical CPUs that this process may
/// use. It depends on the machine, so nothing is claimed of it.
#[verifier::external_body]
fn logical_cpus() -> (n: usize) {
    num_cpus::get()
}

/// Calls `rand::random_range` on the half-open range from 0 to `n`, which
/// draws from the thread-local generator and panics on an empty range. The
/// result lies in the range; nothing else is claimed of it.
#[verifier::external_body]
fn pick(n: usize) -> (index: usize)
    requires
        n > 0,
    ensures
        index < n,
{
    rand::random_range(0..n)
}

/// The configuration of a system: the number of scheduler threads, which is
/// at least one.
#[derive(Clone, Copy, Debug)]
pub struct Config {
    threads: usize,
}

impl Config {
    /// The number of schedulers that `spawn` creates.
    pub closed spec fn thread_count(&self) -> usize {
        self.threads
    }

    /// Every configuration asks for at least one thread.
    pub open spec fn wf(&self) -> bool {
        self.thread_count() >= 1
    }

    /// The configuration for a machine that reports `cpus` logical CPUs: one
    /// thread for each, and one thread where it reports none.
    pub open spec fn threads_for(cpus: usize) -> usize {
        if cpus == 0 {
            1
        } else {
            cpus
        }
    }

    /// A configuration with `threads` scheduler threads, or `None` where
    /// `threads` is zero.
    pub fn new(threads: usize) -> (config: Option<Self>)
        ensures
            config.is_some() == (threads > 0),
            config.is_some() ==> config.unwrap().thread_count() == threads && config.unwrap().wf(),
    {
        if threads == 0 {
            None
        } else {
            Some(Config { threads })
        }
    }

    /// The configuration for a machine that reports `cpus` logical CPUs.
    pub fn for_cpus(cpus: usize) -> (config: Self)
        ensures
            config.thread_count() == Config::threads_for(cpus),
            config.wf(),
    {
        if cpus == 0 {
            Config { threads: 1 }
        } else {
            Config { threads: cpus }
        }
    }

    /// The number of scheduler threads.
    pub fn threads(&self) -> (threads: usize)
        ensures
            threads == self.thread_count(),
    {
        self.threads
    }
}

impl Default for Config {
    /// One thread for every logical CPU that the host reports.
    fn default() -> (config: Self)
        ensures
            config.wf(),
    {
        Config::for_cpus(logical_cpus())
    }
}

/// What a system is to the contracts.
pub ghost struct SystemModel<A, P> {
    pub schedulers: Seq<SchedulerModel<A, P>>,
    pub threads: usize,
    pub state: RunningState,
}

impl<A, P> SystemModel<A, P> {
    /// The schedulers that one `spawn` adds: `threads` idle ones, numbered
    /// from zero.
    pub open spec fn fleet(threads: usize) -> Seq<SchedulerModel<A, P>> {
        Seq::new(threads as nat, |i: int| SchedulerModel::<A, P>::idle(i as usize))
    }

    /// The system after `spawn`.
    pub open spec fn spawned(self) -> Self {
        SystemModel {
            schedulers: self.schedulers + Self::fleet(self.threads),
            state: RunningState::Running,
            ..self
        }
    }

    /// The system after `cell` was handed to the scheduler at `index`.
    pub open spec fn placed(self, index: int, cell: CellModel<A, P>) -> Self {
        SystemModel {
            schedulers: self.schedulers.update(index, self.schedulers[index].registered(cell)),
            ..self
        }
    }

    /// The system after the scheduler at `index` ran one tick in which the
    /// mailboxes yielded `deliveries`.
    pub open spec fn stepped<M>(self, index: int, deliveries: Seq<Option<M>>) -> Self where
        P: Props,
        A: ActorConstructable<P> + Receives<M>,
     {
        SystemModel {
            schedulers: self.schedulers.update(index, self.schedulers[index].ticked(deliveries)),
            ..self
        }
    }

    /// Every scheduler is well formed, at least one thread is configured,
    /// and a running system has a scheduler.
    pub open spec fn wf(self) -> bool {
        &&& self.threads >= 1
        &&& forall|i: int| 0 <= i < self.schedulers.len() ==> (#[trigger] self.schedulers[i]).wf()
        &&& self.state == RunningState::Running ==> self.schedulers.len() >= 1
    }
}

/// The top-level handle: the configuration, the schedulers and the run
/// state. It is driven from outside, one tick of one scheduler at a time.
#[verifier::reject_recursive_types(M)]
pub struct System<A, P, M> {
    thread_schedulers: Vec<Scheduler<A, P, M>>,
    config: Config,
    state: RunningState,
}

impl<A, P, M> View for System<A, P, M> {
    type V = SystemModel<A, P>;

    closed spec fn view(&self) -> SystemModel<A, P> {
        SystemModel {
            schedulers: Seq::new(
                self.thread_schedulers@.len(),
                |i: int| self.thread_schedulers@[i]@,
            ),
            threads: self.config.thread_count(),
            state: self.state,
        }
    }
}

impl<A, P, M> System<A, P, M> where P: Props, A: ActorConstructable<P> + Receives<M> {
    /// The system's invariant: see `SystemModel::wf`.
    pub open spec fn wf(&self) -> bool {
        self@.wf()
    }

    /// A system that awaits its start, with the default configuration.
    pub fn new() -> (system: Self)
        ensures
            system.wf(),
            system@.state == RunningState::AwaitingStart,
            system@.schedulers == Seq::<SchedulerModel<A, P>>::empty(),
    {
        let system = System {
            thread_schedulers: Vec::new(),
            config: Config::default(),
            state: RunningState::AwaitingStart,
        };
        assert(system@.schedulers =~= Seq::empty());
        system
    }

    /// Replaces the configuration. It is read by the next `spawn`.
    pub fn with_config(&mut self, config: Config)
        requires
            old(self).wf(),
            config.wf(),
        ensures
            final(self).wf(),
            final(self)@ == (SystemModel { threads: config.thread_count(), ..old(self)@ }),
    {
        self.config = config;
    }

    /// Where the system stands between construction and teardown.
    pub fn state(&self) -> (state: RunningState)
        ensures
            state == self@.state,
    {
        self.state
    }

    /// The number of schedulers.
    pub fn schedulers(&self) -> (n: usize)
        ensures
            n == self@.schedulers.len(),
    {
        self.thread_schedulers.len()
    }

    /// The scheduler at `index`, for reading.
    pub fn scheduler(&self, index: usize) -> (scheduler: &Scheduler<A, P, M>)
        requires
            index < self@.schedulers.len(),
        ensures
            scheduler@ == self@.schedulers[index as int],
    {
        &self.thread_schedulers[index]
    }

    /// Creates one idle scheduler for every configured thread and sets the
    /// system running.
    pub fn spawn(&mut self)
        requires
            old(self).wf(),
        ensures
            final(self).wf(),
            final(self)@ == old(self)@.spawned(),
    {
        self.state = RunningState::Starting;
        let threads = self.config.threads();
        let mut thread_id: usize = 0;
        while thread_id < threads
            invariant
                thread_id <= threads,
                threads == self.config.thread_count(),
                threads >= 1,
                self.state == RunningState::Starting,
                forall|i: int|
                    0 <= i < self@.schedulers.len() ==> (#[trigger] self@.schedulers[i]).wf(),
                self@.schedulers == old(self)@.schedulers + SystemModel::<A, P>::fleet(thread_id),
                self@.threads == old(self)@.threads,
            decreases threads - thread_id,
        {
            let ghost before = self@.schedulers;
            self.thread_schedulers.push(Scheduler::new(thread_id));
            assert(self@.schedulers =~= before.push(SchedulerModel::<A, P>::idle(thread_id)));
            assert(self@.schedulers =~= old(self)@.schedulers + SystemModel::<A, P>::fleet(
                (thread_id + 1) as usize,
            ));
            thread_id += 1;
        }
        self.state = RunningState::Running;
    }

    /// Builds a cell for `props` under the id `id`, hands it to the scheduler
    /// at `index`, and returns an address for it. Where that scheduler
    /// already holds a cell under `id`, the new cell is dropped and the
    /// address is dead from the start.
    pub fn place(&mut self, index: usize, id: u128, props: P) -> (address: Address<M>)
        requires
            old(self).wf(),
            index < old(self)@.schedulers.len(),
        ensures
            final(self).wf(),
            final(self)@ == old(self)@.placed(index as int, CellModel::<A, P>::created(id, props)),
            address.target() == id,
    {
        let cell: Cell<A, P, M> = Cell::with_id(id, props);
        let address = cell.address();
        let ghost before = self@.schedulers;
        let _ = self.thread_schedulers[index].register_new_cell(cell);
        assert(self@.schedulers =~= before.update(
            index as int,
            before[index as int].registered(CellModel::<A, P>::created(id, props)),
        ));
        address
    }

    /// Creates an actor from `props` on a scheduler picked at random, under
    /// an id drawn at random, and returns its address. The system must be
    /// running.
    pub fn new_actor(&mut self, props: P) -> (address: Address<M>)
        requires
            old(self).wf(),
            old(self)@.state == RunningState::Running,
        ensures
            final(self).wf(),
            exists|index: int|
                0 <= index < old(self)@.schedulers.len() && final(self)@ == old(self)@.placed(
                    index,
                    CellModel::<A, P>::created(address.target(), props),
                ),
    {
        let index = pick(self.thread_schedulers.len());
        let id = fresh_id();
        let address = self.place(index, id, props);
        assert(final(self)@ == old(self)@.placed(
            index as int,
            CellModel::<A, P>::created(address.target(), props),
        ));
        address
    }

    /// Runs one tick of the scheduler at `index` and returns what that tick
    /// hands back.
    pub fn step(&mut self, index: usize) -> (tick: Tick<A, P, M>)
        requires
            old(self).wf(),
            index < old(self)@.schedulers.len(),
        ensures
            final(self).wf(),
            all_running(final(self)@.schedulers[index as int].cells),
            models(tick.halted@) == old(self)@.schedulers[index as int].halts(),
            tick.retired@ == old(self)@.schedulers[index as int].retires(),
            exists|deliveries: Seq<Option<M>>|
                {
                    &&& old(self)@.schedulers[index as int].lifecycle().admits(deliveries)
                    &&& final(self)@ == old(self)@.stepped(index as int, deliveries)
                    &&& tick.pause == old(self)@.schedulers[index as int].pause(deliveries)
                },
    {
        let ghost before = self@.schedulers;
        assert(before[index as int].wf());
        let tick = self.thread_schedulers[index].tick();
        let ghost deliveries = choose|deliveries: Seq<Option<M>>|
            {
                &&& before[index as int].lifecycle().admits(deliveries)
                &&& self@.schedulers[index as int] == before[index as int].ticked(deliveries)
                &&& tick.pause == before[index as int].pause(deliveries)
            };
        assert(self@.schedulers =~= before.update(
            index as int,
            before[index as int].ticked(deliveries),
        ));
        assert(self@ == old(self)@.stepped(index as int, deliveries));
        tick
    }
}

} // verus!
