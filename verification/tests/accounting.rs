use romeo::actor::{Actor, ActorConstructable, Context, Props, Receives, State};
use romeo::cell::Cell;
use romeo::scheduler::{Scheduler, BASE_BACKOFF_US, MAX_BACKOFF_US};
use romeo::system::{Config, RunningState, System};
use std::sync::{Arc, Mutex};

/// Keeps a balance and records every hook and message it sees.
struct Accounting {
    balance: i32,
    seen: Arc<Mutex<Vec<String>>>,
}

struct AccountingProps {
    starting_balance: i32,
    seen: Arc<Mutex<Vec<String>>>,
}

impl Props for AccountingProps {}

impl Actor for Accounting {
    fn started(self) -> Self {
        self
    }

    fn stopped(self) -> Self {
        self
    }

    fn start(&mut self) {
        self.seen.lock().unwrap().push(String::from("start"));
    }

    fn pre_stop(&mut self) {
        self.seen.lock().unwrap().push(String::from("pre_stop"));
    }
}

impl ActorConstructable<AccountingProps> for Accounting {
    fn built(props: &AccountingProps) -> Self {
        Accounting { balance: props.starting_balance, seen: props.seen.clone() }
    }

    fn new(props: &AccountingProps) -> Self {
        Accounting { balance: props.starting_balance, seen: props.seen.clone() }
    }
}

impl Receives<u8> for Accounting {
    fn received(self, msg: u8) -> Self {
        Accounting { balance: self.balance + i32::from(msg), seen: self.seen }
    }

    fn replied(self, msg: u8, ctx: Context) -> Context {
        let mut ctx = ctx;
        if msg == 0 {
            ctx.stop();
        } else if msg == 3 {
            ctx.restart();
        } else if msg == 6 {
            ctx.restart();
            ctx.restart();
        }
        ctx
    }

    fn receive(&mut self, msg: u8, ctx: &mut Context) {
        self.balance += i32::from(msg);
        self.seen.lock().unwrap().push(format!("receive {}", msg));
        if msg == 0 {
            ctx.stop();
        } else if msg == 3 {
            ctx.restart();
        } else if msg == 6 {
            ctx.restart();
            ctx.restart();
        }
    }
}

type Ledger = System<Accounting, AccountingProps, u8>;

fn running(threads: usize) -> Ledger {
    let mut system = Ledger::new();
    system.with_config(Config::new(threads).unwrap());
    system.spawn();
    system
}

fn props(seen: &Arc<Mutex<Vec<String>>>) -> AccountingProps {
    AccountingProps { starting_balance: 1, seen: seen.clone() }
}

fn balance(system: &Ledger) -> i32 {
    system.scheduler(0).cell(0).actor_ref().balance
}

fn count(seen: &Arc<Mutex<Vec<String>>>, what: &str) -> usize {
    seen.lock().unwrap().iter().filter(|e| e.as_str() == what).count()
}

#[test]
fn accumulator_runs_through_restart_and_stop() {
    let seen = Arc::new(Mutex::new(Vec::new()));
    let mut system = running(1);
    let address = system.new_actor(props(&seen));
    address.send(32);
    address.send(3);
    address.send(32);
    address.send(0);

    // The start is applied before the first message of the same tick.
    assert_eq!(system.step(0).pause, None);
    assert_eq!(balance(&system), 33);
    assert_eq!(system.scheduler(0).cell(0).state(), State::Running);

    // The restart asked for inside the receive waits for the next tick.
    assert_eq!(system.step(0).pause, None);
    assert_eq!(balance(&system), 36);

    // The restart resets the balance, then the third message arrives.
    let tick = system.step(0);
    assert_eq!(tick.pause, None);
    assert_eq!(tick.retired.len(), 1);
    assert_eq!(tick.retired[0].balance, 36);
    assert!(tick.halted.is_empty());
    assert_eq!(balance(&system), 33);

    assert_eq!(system.step(0).pause, None);
    assert_eq!(balance(&system), 33);
    assert_eq!(system.scheduler(0).len(), 1);

    // The stop removes the cell and hands it back, halted.
    let tick = system.step(0);
    assert_eq!(tick.pause, None);
    assert_eq!(tick.halted.len(), 1);
    assert_eq!(tick.halted[0].uuid(), address.uuid());
    assert_eq!(tick.halted[0].state(), State::Halted);
    assert_eq!(tick.halted[0].actor_ref().balance, 33);
    assert!(tick.retired.is_empty());
    assert_eq!(system.scheduler(0).len(), 0);

    let expected: Vec<String> = [
        "start",
        "receive 32",
        "receive 3",
        "pre_stop",
        "start",
        "receive 32",
        "receive 0",
        "pre_stop",
    ]
        .iter()
        .map(|s| s.to_string())
        .collect();
    assert_eq!(*seen.lock().unwrap(), expected);
}

#[test]
fn restart_rebuilds_the_actor_from_its_props() {
    let seen = Arc::new(Mutex::new(Vec::new()));
    let mut system = running(1);
    let address = system.new_actor(props(&seen));
    let id = address.uuid();
    address.send(3);
    system.step(0);
    assert_eq!(balance(&system), 4);
    system.step(0);
    assert_eq!(balance(&system), 1);
    assert_eq!(system.scheduler(0).cell(0).uuid(), id);
    assert_eq!(system.scheduler(0).cell(0).state(), State::Running);
    address.send(5);
    system.step(0);
    assert_eq!(balance(&system), 6);
}

#[test]
fn dead_address_drops_messages() {
    let seen = Arc::new(Mutex::new(Vec::new()));
    let mut system = running(1);
    let address = system.new_actor(props(&seen));
    let copy = address.clone();
    assert_eq!(copy.uuid(), address.uuid());
    address.send(0);
    system.step(0);
    system.step(0);
    assert_eq!(system.scheduler(0).len(), 0);
    address.send(7);
    copy.send(8);
    system.step(0);
    system.step(0);
    assert_eq!(count(&seen, "receive 7"), 0);
    assert_eq!(count(&seen, "receive 8"), 0);
    assert_eq!(count(&seen, "receive 0"), 1);
}

#[test]
fn message_sent_with_a_stop_is_not_delivered() {
    let seen = Arc::new(Mutex::new(Vec::new()));
    let mut system = running(1);
    let address = system.new_actor(props(&seen));
    address.send(0);
    address.send(9);
    system.step(0);
    system.step(0);
    system.step(0);
    assert_eq!(count(&seen, "receive 0"), 1);
    assert_eq!(count(&seen, "receive 9"), 0);
    assert_eq!(count(&seen, "pre_stop"), 1);
}

#[test]
fn repeated_stops_run_pre_stop_once() {
    let seen = Arc::new(Mutex::new(Vec::new()));
    let mut scheduler: Scheduler<Accounting, AccountingProps, u8> = Scheduler::new(0);
    let cell = Cell::with_id(41, props(&seen));
    assert!(scheduler.register_new_cell(cell));
    scheduler.tick();
    scheduler.stop_actor(41);
    scheduler.stop_actor(41);
    scheduler.stop_actor(41);
    let tick = scheduler.tick();
    assert_eq!(tick.pause, None);
    assert_eq!(tick.halted.len(), 1);
    assert_eq!(tick.halted[0].uuid(), 41);
    assert_eq!(scheduler.len(), 0);
    assert_eq!(count(&seen, "pre_stop"), 1);
    assert_eq!(count(&seen, "start"), 1);
}

#[test]
fn messages_of_one_address_arrive_in_order() {
    let seen = Arc::new(Mutex::new(Vec::new()));
    let mut system = running(1);
    let address = system.new_actor(props(&seen));
    for msg in [10u8, 20, 30, 40] {
        address.send(msg);
    }
    for _ in 0..4 {
        system.step(0);
    }
    let expected: Vec<String> =
        ["start", "receive 10", "receive 20", "receive 30", "receive 40"]
            .iter()
            .map(|s| s.to_string())
            .collect();
    assert_eq!(*seen.lock().unwrap(), expected);
    assert_eq!(balance(&system), 101);
}

#[test]
fn one_message_per_cell_per_tick() {
    let seen = Arc::new(Mutex::new(Vec::new()));
    let mut system = running(1);
    let first = system.new_actor(props(&seen));
    let second = system.new_actor(props(&seen));
    first.send(1);
    first.send(2);
    second.send(4);
    system.step(0);
    assert_eq!(system.scheduler(0).cell(0).actor_ref().balance, 2);
    assert_eq!(system.scheduler(0).cell(1).actor_ref().balance, 5);
    system.step(0);
    assert_eq!(system.scheduler(0).cell(0).actor_ref().balance, 4);
    assert_eq!(system.scheduler(0).cell(1).actor_ref().balance, 5);
}

fn every_actor_processes_once(threads: usize) {
    let seen = Arc::new(Mutex::new(Vec::new()));
    let mut system = running(threads);
    assert_eq!(system.schedulers(), threads);
    let mut addresses = Vec::new();
    for _ in 0..50 {
        addresses.push(system.new_actor(props(&seen)));
    }
    for address in &addresses {
        address.send(2);
    }
    for index in 0..threads {
        system.step(index);
    }
    let mut cells = 0;
    for index in 0..threads {
        let scheduler = system.scheduler(index);
        assert_eq!(scheduler.id(), index);
        for at in 0..scheduler.len() {
            assert_eq!(scheduler.cell(at).actor_ref().balance, 3);
            cells += 1;
        }
    }
    assert_eq!(cells, 50);
    for index in 0..threads {
        system.step(index);
    }
    assert_eq!(count(&seen, "receive 2"), 50);
    assert_eq!(count(&seen, "start"), 50);
}

#[test]
fn fifty_actors_on_one_thread() {
    every_actor_processes_once(1);
}

#[test]
fn fifty_actors_on_sixteen_threads() {
    every_actor_processes_once(16);
}

#[test]
fn eight_senders_lose_nothing() {
    let seen = Arc::new(Mutex::new(Vec::new()));
    let mut system = running(1);
    let address = system.new_actor(props(&seen));
    let mut senders = Vec::new();
    for _ in 0..8 {
        senders.push(address.clone());
    }
    for _ in 0..1000 {
        for sender in &senders {
            sender.send(1);
        }
    }
    for _ in 0..8000 {
        assert_eq!(system.step(0).pause, None);
    }
    assert_eq!(balance(&system), 8001);
    assert_eq!(count(&seen, "receive 1"), 8000);
    assert_eq!(system.step(0).pause, Some(BASE_BACKOFF_US));
}

#[test]
fn idle_ticks_double_the_pause_up_to_the_cap() {
    let mut scheduler: Scheduler<Accounting, AccountingProps, u8> = Scheduler::new(3);
    assert_eq!(scheduler.backoff_us(), 2);
    assert_eq!(scheduler.tick().pause, Some(2));
    assert_eq!(scheduler.tick().pause, Some(4));
    assert_eq!(scheduler.tick().pause, Some(8));
    assert_eq!(scheduler.backoff_us(), 16);
    let mut last = 8;
    for _ in 0..40 {
        last = scheduler.tick().pause.unwrap();
    }
    assert_eq!(last, MAX_BACKOFF_US);
    assert_eq!(scheduler.backoff_us(), 1_000_000);
    assert_eq!(scheduler.tick().pause, Some(1_000_000));
}

#[test]
fn pause_passes_half_the_cap_before_it_reaches_it() {
    let mut scheduler: Scheduler<Accounting, AccountingProps, u8> = Scheduler::new(0);
    let mut pauses = Vec::new();
    for _ in 0..21 {
        pauses.push(scheduler.tick().pause.unwrap());
    }
    assert_eq!(pauses[18], 524_288);
    assert_eq!(pauses[19], 1_000_000);
    assert_eq!(pauses[20], 1_000_000);
}

#[test]
fn work_resets_the_pause() {
    let seen = Arc::new(Mutex::new(Vec::new()));
    let mut system = running(1);
    assert_eq!(system.step(0).pause, Some(2));
    assert_eq!(system.step(0).pause, Some(4));
    let address = system.new_actor(props(&seen));
    assert_eq!(system.step(0).pause, None);
    assert_eq!(system.scheduler(0).backoff_us(), 2);
    assert_eq!(system.step(0).pause, Some(2));
    address.send(1);
    assert_eq!(system.step(0).pause, None);
    assert_eq!(system.step(0).pause, Some(2));
    assert_eq!(system.step(0).pause, Some(4));
}

#[test]
fn duplicate_id_is_refused() {
    let seen = Arc::new(Mutex::new(Vec::new()));
    let mut system = running(2);
    let first = system.place(1, 77, props(&seen));
    let second = system.place(1, 77, props(&seen));
    assert_eq!(first.uuid(), 77);
    assert_eq!(second.uuid(), 77);
    assert_eq!(system.scheduler(1).len(), 1);
    assert_eq!(system.scheduler(0).len(), 0);
    second.send(5);
    first.send(4);
    system.step(1);
    system.step(1);
    assert_eq!(system.scheduler(1).cell(0).actor_ref().balance, 5);
    assert_eq!(count(&seen, "receive 5"), 0);
}

#[test]
fn commands_for_unknown_cells_are_not_queued() {
    let seen = Arc::new(Mutex::new(Vec::new()));
    let mut scheduler: Scheduler<Accounting, AccountingProps, u8> = Scheduler::new(0);
    scheduler.stop_actor(5);
    scheduler.restart_actor(5);
    assert_eq!(scheduler.tick().pause, Some(2));
    assert!(scheduler.register_new_cell(Cell::with_id(5, props(&seen))));
    assert_eq!(scheduler.find(5), Some(0));
    assert_eq!(scheduler.find(6), None);
    scheduler.restart_actor(5);
    assert_eq!(scheduler.tick().pause, None);
    assert_eq!(
        *seen.lock().unwrap(),
        vec![String::from("start"), String::from("pre_stop"), String::from("start")]
    );
}

#[test]
fn stop_wins_over_a_start_queued_in_the_same_tick() {
    let seen = Arc::new(Mutex::new(Vec::new()));
    let mut scheduler: Scheduler<Accounting, AccountingProps, u8> = Scheduler::new(0);
    assert!(scheduler.register_new_cell(Cell::with_id(9, props(&seen))));
    scheduler.stop_actor(9);
    assert_eq!(scheduler.tick().pause, None);
    assert_eq!(scheduler.len(), 0);
    assert_eq!(*seen.lock().unwrap(), vec![String::from("pre_stop")]);
}

#[test]
fn cell_walks_its_lifecycle() {
    let seen = Arc::new(Mutex::new(Vec::new()));
    let mut cell: Cell<Accounting, AccountingProps, u8> =
        Cell::with_id(1, props(&seen));
    assert_eq!(cell.state(), State::Starting);
    assert_eq!(cell.uuid(), 1);
    let address = cell.address();
    address.send(4);
    // A cell that is not running leaves its mailbox alone.
    assert!(cell.process().is_none());
    cell.start();
    assert_eq!(cell.state(), State::Running);
    let reply = cell.process();
    assert!(reply.is_some());
    assert_eq!(cell.actor_ref().balance, 5);
    assert!(cell.process().is_none());
    assert!(cell.deliver(None).is_none());
    assert!(cell.deliver(Some(2)).is_some());
    assert_eq!(cell.actor_ref().balance, 7);
    cell.reset_actor_state();
    assert_eq!(cell.actor_ref().balance, 1);
    assert_eq!(cell.state(), State::Running);
    cell.deliver(Some(9));
    let retired = cell.restart();
    assert_eq!(retired.balance, 10);
    assert_eq!(cell.actor_ref().balance, 1);
    assert_eq!(cell.state(), State::Running);
    cell.shutdown();
    assert_eq!(cell.state(), State::Halted);
    assert!(cell.process().is_none());
}

#[test]
fn fresh_cells_get_distinct_ids() {
    let seen = Arc::new(Mutex::new(Vec::new()));
    let a: Cell<Accounting, AccountingProps, u8> = Cell::new(props(&seen));
    let b: Cell<Accounting, AccountingProps, u8> = Cell::new(props(&seen));
    assert_ne!(a.uuid(), b.uuid());
    assert_eq!(a.address().uuid(), a.uuid());
}

#[test]
fn system_states_and_config() {
    let mut system = Ledger::new();
    assert_eq!(system.state(), RunningState::AwaitingStart);
    assert_eq!(system.schedulers(), 0);
    assert!(Config::new(0).is_none());
    assert_eq!(Config::new(3).unwrap().threads(), 3);
    assert_eq!(Config::for_cpus(0).threads(), 1);
    assert_eq!(Config::for_cpus(12).threads(), 12);
    assert!(Config::default().threads() >= 1);
    system.with_config(Config::new(3).unwrap());
    system.spawn();
    assert_eq!(system.state(), RunningState::Running);
    assert_eq!(system.schedulers(), 3);
    assert_eq!(system.scheduler(2).id(), 2);
}

#[test]
fn running_state_names() {
    assert_eq!(RunningState::AwaitingStart.name(), "awaiting-start");
    assert_eq!(RunningState::Starting.name(), "starting");
    assert_eq!(RunningState::Running.name(), "running");
    assert_eq!(RunningState::Stopping.name(), "stopping");
    assert_eq!(RunningState::Stopped.name(), "stopped");
}

#[test]
fn context_counts_what_is_asked() {
    let seen = Arc::new(Mutex::new(Vec::new()));
    let mut cell: Cell<Accounting, AccountingProps, u8> =
        Cell::with_id(11, props(&seen));
    let mut ctx = cell.context();
    assert_eq!(ctx.stop_requests(), 0);
    assert_eq!(ctx.restart_requests(), 0);
    ctx.stop();
    ctx.stop();
    ctx.restart();
    assert_eq!(ctx.stop_requests(), 2);
    assert_eq!(ctx.restart_requests(), 1);

    cell.start();
    let quiet = cell.deliver(Some(5)).unwrap();
    assert_eq!((quiet.stop_requests(), quiet.restart_requests()), (0, 0));
    let stop = cell.deliver(Some(0)).unwrap();
    assert_eq!((stop.stop_requests(), stop.restart_requests()), (1, 0));
    let twice = cell.deliver(Some(6)).unwrap();
    assert_eq!((twice.stop_requests(), twice.restart_requests()), (0, 2));
    // Nothing asked of a context changes the cell by itself.
    assert_eq!(cell.state(), State::Running);
    assert_eq!(cell.actor_ref().balance, 12);
}

#[test]
fn every_restart_asked_for_is_applied() {
    let seen = Arc::new(Mutex::new(Vec::new()));
    let mut system = running(1);
    let address = system.new_actor(props(&seen));
    address.send(6);
    system.step(0);
    assert_eq!(balance(&system), 7);
    assert_eq!(count(&seen, "pre_stop"), 0);
    let tick = system.step(0);
    let retired: Vec<i32> = tick.retired.iter().map(|actor| actor.balance).collect();
    assert_eq!(retired, vec![7, 1]);
    assert_eq!(balance(&system), 1);
    assert_eq!(count(&seen, "pre_stop"), 2);
    assert_eq!(count(&seen, "start"), 3);
    assert_eq!(system.step(0).pause, Some(2));
}

#[test]
fn started_cell_is_not_taken_in() {
    let seen = Arc::new(Mutex::new(Vec::new()));
    let mut scheduler: Scheduler<Accounting, AccountingProps, u8> = Scheduler::new(0);
    let mut cell = Cell::with_id(3, props(&seen));
    cell.start();
    assert!(!scheduler.register_new_cell(cell));
    assert_eq!(scheduler.len(), 0);
    assert_eq!(scheduler.tick().pause, Some(2));
}

#[test]
fn every_cell_runs_after_a_tick() {
    let seen = Arc::new(Mutex::new(Vec::new()));
    let mut scheduler: Scheduler<Accounting, AccountingProps, u8> = Scheduler::new(0);
    for id in 0..5u128 {
        assert!(scheduler.register_new_cell(Cell::with_id(id, props(&seen))));
    }
    for at in 0..5 {
        assert_eq!(scheduler.cell(at).state(), State::Starting);
    }
    scheduler.stop_actor(2);
    assert_eq!(scheduler.tick().pause, None);
    assert_eq!(scheduler.len(), 4);
    let ids: Vec<u128> = (0..4).map(|at| scheduler.cell(at).uuid()).collect();
    assert_eq!(ids, vec![0, 1, 3, 4]);
    for at in 0..4 {
        assert_eq!(scheduler.cell(at).state(), State::Running);
    }
    assert_eq!(count(&seen, "start"), 4);
    assert_eq!(count(&seen, "pre_stop"), 1);
}
