use crate::actor::{Actor, ActorConstructable, Context, Props, Receives, State};
use crate::cell::CellModel;
use crate::scheduler::{
    all_running, distinct, halted_all, halted_one, holds, next_backoff, position, restart_all,
    restart_one, start_all, start_one, started_or_queued, stop_all, stop_one, SchedulerModel,
    BASE_BACKOFF_US, MAX_BACKOFF_US,
};
use vstd::prelude::*;

verus! {

/// Two registries hold the same ids at the same places.
pub open spec fn same_ids<A, P>(a: Seq<CellModel<A, P>>, b: Seq<CellModel<A, P>>) -> bool {
    &&& a.len() == b.len()
    &&& forall|i: int|
        #![trigger a[i]]
        #![trigger b[i]]
        0 <= i < a.len() ==> a[i].id == b[i].id
}

/// In a registry without duplicates, a cell that goes by `id` stands at
/// `position`.
pub proof fn position_is_unique<A, P>(cells: Seq<CellModel<A, P>>, id: u128, i: int)
    requires
        distinct(cells),
        0 <= i < cells.len(),
        cells[i].id == id,
    ensures
        holds(cells, id),
        position(cells, id) == i,
{
    let p = position(cells, id);
    assert(0 <= p < cells.len() && cells[p].id == id);
    if p < i {
        assert(cells[p].id != cells[i].id);
    } else if i < p {
        assert(cells[i].id != cells[p].id);
    }
}

/// Registries with the same ids at the same places hold the same cells by
/// id, and one is free of duplicates where the other is.
pub proof fn same_ids_agree<A, P>(a: Seq<CellModel<A, P>>, b: Seq<CellModel<A, P>>)
    requires
        same_ids(a, b),
    ensures
        distinct(a) == distinct(b),
        forall|id: u128|
            #![trigger holds(a, id)]
            #![trigger holds(b, id)]
            holds(a, id) == holds(b, id),
{
    assert forall|id: u128| holds(a, id) == holds(b, id) by {
        if holds(a, id) {
            let i = position(a, id);
            assert(b[i].id == id);
        }
        if holds(b, id) {
            let i = position(b, id);
            assert(a[i].id == id);
        }
    }
    if distinct(a) {
        assert forall|i: int, j: int| 0 <= i < j < b.len() implies b[i].id != b[j].id by {
            assert(a[i].id != a[j].id);
        }
    }
    if distinct(b) {
        assert forall|i: int, j: int| 0 <= i < j < a.len() implies a[i].id != a[j].id by {
            assert(b[i].id != b[j].id);
        }
    }
}

/// A stop removes the cell it names and no other: afterwards the registry
/// holds exactly the cells it held before under another id, still without
/// duplicates.
pub proof fn stop_removes<A, P>(cells: Seq<CellModel<A, P>>, id: u128)
    requires
        distinct(cells),
    ensures
        distinct(stop_one(cells, id)),
        !holds(stop_one(cells, id), id),
        forall|other: u128|
            #![trigger holds(stop_one(cells, id), other)]
            holds(stop_one(cells, id), other) == (holds(cells, other) && other != id),
{
    let after = stop_one(cells, id);
    if holds(cells, id) {
        let p = position(cells, id);
        assert forall|k: int| 0 <= k < after.len() implies (#[trigger] after[k]) == cells[k + (if k
            < p { 0int } else { 1int })] by {}
        assert forall|i: int, j: int| 0 <= i < j < after.len() implies after[i].id
            != after[j].id by {
            let oi = if i < p { i } else { i + 1 };
            let oj = if j < p { j } else { j + 1 };
            assert(cells[oi].id != cells[oj].id);
        }
        assert forall|other: u128|
            holds(after, other) == (holds(cells, other) && other != id) by {
            if holds(after, other) {
                let k = position(after, other);
                let ok = if k < p { k } else { k + 1 };
                assert(cells[ok].id == other);
                if other == id {
                    position_is_unique(cells, id, ok);
                }
            }
            if holds(cells, other) && other != id {
                let k = position(cells, other);
                let nk = if k < p { k } else { k - 1 };
                assert(after[nk].id == other);
            }
        }
    } else {
        assert forall|other: u128|
            holds(after, other) == (holds(cells, other) && other != id) by {}
    }
}

/// A stop leaves every cell that stays as it was: still running, or still
/// waiting for its queued start.
pub proof fn stop_keeps_invariant<A, P>(cells: Seq<CellModel<A, P>>, id: u128, starts: Seq<u128>)
    requires
        started_or_queued(cells, starts),
    ensures
        started_or_queued(stop_one(cells, id), starts),
{
    let after = stop_one(cells, id);
    if holds(cells, id) {
        let p = position(cells, id);
        assert forall|k: int| 0 <= k < after.len() implies {
            ||| (#[trigger] after[k]).state == State::Running
            ||| after[k].state == State::Starting && starts.contains(after[k].id)
        } by {
            let from = if k < p { k } else { k + 1 };
            assert(after[k] == cells[from]);
        }
    }
}

/// The first of the queued starts, once applied, is no longer needed: every
/// cell is then running, or waits for one of the starts behind it.
pub proof fn start_keeps_invariant<A: Actor, P>(cells: Seq<CellModel<A, P>>, starts: Seq<u128>)
    requires
        starts.len() > 0,
        distinct(cells),
        started_or_queued(cells, starts),
    ensures
        distinct(start_one(cells, starts[0])),
        started_or_queued(start_one(cells, starts[0]), starts.drop_first()),
{
    let id = starts[0];
    let after = start_one(cells, id);
    let rest = starts.drop_first();
    assert(same_ids(cells, after));
    same_ids_agree(cells, after);
    assert forall|i: int| 0 <= i < after.len() implies {
        ||| (#[trigger] after[i]).state == State::Running
        ||| after[i].state == State::Starting && rest.contains(after[i].id)
    } by {
        if cells[i].state == State::Running {
        } else if cells[i].id == id {
            position_is_unique(cells, id, i);
        } else {
            let k = choose|k: int| 0 <= k < starts.len() && starts[k] == cells[i].id;
            assert(rest[k - 1] == cells[i].id);
            if holds(cells, id) {
                assert(cells[position(cells, id)].id == id);
            }
        }
    }
}

/// A restart leaves its cell running and every other cell as it was.
pub proof fn restart_keeps_invariant<P: Props, A: ActorConstructable<P>>(
    cells: Seq<CellModel<A, P>>,
    id: u128,
    starts: Seq<u128>,
)
    requires
        distinct(cells),
        started_or_queued(cells, starts),
    ensures
        distinct(restart_one(cells, id)),
        started_or_queued(restart_one(cells, id), starts),
{
    let after = restart_one(cells, id);
    assert(same_ids(cells, after));
    same_ids_agree(cells, after);
    assert forall|i: int| 0 <= i < after.len() implies {
        ||| (#[trigger] after[i]).state == State::Running
        ||| after[i].state == State::Starting && starts.contains(after[i].id)
    } by {
        assert(cells[i].state == State::Running || cells[i].state == State::Starting);
    }
}

/// Queued stops leave every cell that stays as it was.
pub proof fn stops_keep_invariant<A, P>(
    cells: Seq<CellModel<A, P>>,
    ids: Seq<u128>,
    starts: Seq<u128>,
)
    requires
        started_or_queued(cells, starts),
    ensures
        started_or_queued(stop_all(cells, ids), starts),
    decreases ids.len(),
{
    if ids.len() > 0 {
        stop_keeps_invariant(cells, ids[0], starts);
        stops_keep_invariant(stop_one(cells, ids[0]), ids.drop_first(), starts);
    }
}

/// Once the queued starts are applied, every cell is running.
pub proof fn starts_leave_all_running<A: Actor, P>(cells: Seq<CellModel<A, P>>, starts: Seq<u128>)
    requires
        distinct(cells),
        started_or_queued(cells, starts),
    ensures
        all_running(start_all(cells, starts)),
    decreases starts.len(),
{
    if starts.len() > 0 {
        start_keeps_invariant(cells, starts);
        starts_leave_all_running(start_one(cells, starts[0]), starts.drop_first());
    } else {
        assert forall|i: int| 0 <= i < cells.len() implies (#[trigger] cells[i]).state
            == State::Running by {
            assert(!starts.contains(cells[i].id));
        }
    }
}

/// Restarts leave running cells running.
pub proof fn restarts_leave_all_running<P: Props, A: ActorConstructable<P>>(
    cells: Seq<CellModel<A, P>>,
    ids: Seq<u128>,
)
    requires
        all_running(cells),
    ensures
        all_running(restart_all(cells, ids)),
    decreases ids.len(),
{
    if ids.len() > 0 {
        let one = restart_one(cells, ids[0]);
        assert forall|i: int| 0 <= i < one.len() implies (#[trigger] one[i]).state
            == State::Running by {
            assert(cells[i].state == State::Running);
        }
        restarts_leave_all_running(one, ids.drop_first());
    }
}

/// Stop is idempotent: a second stop for the same cell finds it gone, halts
/// nothing, and leaves the registry as the first one left it.
pub proof fn stop_is_idempotent<A: Actor, P>(cells: Seq<CellModel<A, P>>, id: u128)
    requires
        distinct(cells),
    ensures
        stop_one(stop_one(cells, id), id) == stop_one(cells, id),
        halted_one(stop_one(cells, id), id) == Seq::<CellModel<A, P>>::empty(),
{
    stop_removes(cells, id);
}

/// After the queued stops are applied, the registry holds exactly the cells
/// for which no stop was queued.
pub proof fn stops_remove_all<A, P>(cells: Seq<CellModel<A, P>>, ids: Seq<u128>)
    requires
        distinct(cells),
    ensures
        distinct(stop_all(cells, ids)),
        forall|id: u128|
            #![trigger holds(stop_all(cells, ids), id)]
            holds(stop_all(cells, ids), id) == (holds(cells, id) && !ids.contains(id)),
    decreases ids.len(),
{
    if ids.len() > 0 {
        let first = ids[0];
        let rest = ids.drop_first();
        let one = stop_one(cells, first);
        stop_removes(cells, first);
        stops_remove_all(one, rest);
        assert(stop_all(cells, ids) == stop_all(one, rest));
        assert forall|id: u128|
            holds(stop_all(cells, ids), id) == (holds(cells, id) && !ids.contains(id)) by {
            assert(holds(stop_all(one, rest), id) == (holds(one, id) && !rest.contains(id)));
            assert(holds(one, id) == (holds(cells, id) && id != first));
            if id == first {
                assert(ids[0] == id);
            }
            if ids.contains(id) && id != first {
                let k = choose|k: int| 0 <= k < ids.len() && ids[k] == id;
                assert(rest[k - 1] == id);
            }
            if rest.contains(id) {
                let k = choose|k: int| 0 <= k < rest.len() && rest[k] == id;
                assert(ids[k + 1] == id);
            }
        }
    }
}

/// A stop queued once more for a cell that already has one queued changes
/// nothing about the registry that the stops leave behind.
pub proof fn repeated_stop_changes_nothing<A, P>(
    cells: Seq<CellModel<A, P>>,
    ids: Seq<u128>,
    id: u128,
)
    requires
        distinct(cells),
        ids.contains(id),
    ensures
        stop_all(cells, ids.push(id)) == stop_all(cells, ids),
{
    stop_all_then_one(cells, ids, id);
    stops_remove_all(cells, ids);
}

/// Applying the stops `ids` and then one for `id` is applying `ids` with `id`
/// queued last.
pub proof fn stop_all_then_one<A, P>(cells: Seq<CellModel<A, P>>, ids: Seq<u128>, id: u128)
    ensures
        stop_all(cells, ids.push(id)) == stop_one(stop_all(cells, ids), id),
    decreases ids.len(),
{
    let longer = ids.push(id);
    if ids.len() == 0 {
        assert(longer.drop_first() =~= Seq::<u128>::empty());
        assert(stop_all(stop_one(cells, id), longer.drop_first()) == stop_one(cells, id));
    } else {
        assert(longer.drop_first() =~= ids.drop_first().push(id));
        stop_all_then_one(stop_one(cells, ids[0]), ids.drop_first(), id);
    }
}

/// `halted` is a cell of `cells` as its `pre_stop` hook leaves it.
pub open spec fn halted_from<A: Actor, P>(
    cells: Seq<CellModel<A, P>>,
    halted: CellModel<A, P>,
) -> bool {
    exists|j: int| 0 <= j < cells.len() && (#[trigger] cells[j]).halted() == halted
}

/// A list made of two holds a cell by id where one of the two does.
pub proof fn holds_in_either<A, P>(a: Seq<CellModel<A, P>>, b: Seq<CellModel<A, P>>, id: u128)
    ensures
        holds(a + b, id) == (holds(a, id) || holds(b, id)),
{
    let both = a + b;
    if holds(a, id) {
        let i = position(a, id);
        assert(both[i].id == id);
    }
    if holds(b, id) {
        let i = position(b, id);
        assert(both[a.len() + i].id == id);
    }
    if holds(both, id) {
        let i = position(both, id);
        if i < a.len() {
            assert(a[i].id == id);
        } else {
            assert(b[i - a.len()].id == id);
        }
    }
}

/// However often a stop is queued for a cell, the cell is halted once: the
/// cells that the queued stops halt are the registered cells with a queued
/// stop, each of them one time, each as its `pre_stop` hook leaves it. Every
/// cell is afterwards either halted or still registered.
pub proof fn stops_halt_each_cell_once<A: Actor, P>(cells: Seq<CellModel<A, P>>, ids: Seq<u128>)
    requires
        distinct(cells),
    ensures
        distinct(halted_all(cells, ids)),
        forall|id: u128|
            #![trigger holds(halted_all(cells, ids), id)]
            holds(halted_all(cells, ids), id) == (holds(cells, id) && ids.contains(id)),
        forall|k: int|
            0 <= k < halted_all(cells, ids).len() ==> {
                &&& halted_from(cells, #[trigger] halted_all(cells, ids)[k])
                &&& halted_all(cells, ids)[k].state == State::Halted
            },
        halted_all(cells, ids).len() + stop_all(cells, ids).len() == cells.len(),
    decreases ids.len(),
{
    let halted = halted_all(cells, ids);
    if ids.len() == 0 {
        assert forall|id: u128| holds(halted, id) == (holds(cells, id) && ids.contains(id)) by {}
    } else {
        let first = ids[0];
        let rest = ids.drop_first();
        let one = stop_one(cells, first);
        let head = halted_one(cells, first);
        let tail = halted_all(one, rest);
        stop_removes(cells, first);
        stops_halt_each_cell_once(one, rest);
        assert(halted == head + tail);
        assert forall|id: u128| holds(halted, id) == (holds(cells, id) && ids.contains(id)) by {
            holds_in_either(head, tail, id);
            assert(holds(tail, id) == (holds(one, id) && rest.contains(id)));
            assert(holds(one, id) == (holds(cells, id) && id != first));
            if holds(head, id) {
                assert(head[position(head, id)].id == id);
            }
            if holds(cells, first) && id == first {
                assert(head[0].id == id);
            }
            if id == first {
                assert(ids[0] == id);
            }
            if ids.contains(id) && id != first {
                let k = choose|k: int| 0 <= k < ids.len() && ids[k] == id;
                assert(rest[k - 1] == id);
            }
            if rest.contains(id) {
                let k = choose|k: int| 0 <= k < rest.len() && rest[k] == id;
                assert(ids[k + 1] == id);
            }
        }
        assert forall|i: int, j: int| 0 <= i < j < halted.len() implies halted[i].id
            != halted[j].id by {
            if i < head.len() {
                assert(halted[i].id == first);
                assert(tail[j - head.len()].id == halted[j].id);
                assert(holds(tail, halted[j].id));
                assert(holds(one, halted[j].id));
            } else {
                assert(tail[i - head.len()].id != tail[j - head.len()].id);
            }
        }
        assert forall|k: int| 0 <= k < halted.len() implies {
            &&& halted_from(cells, #[trigger] halted[k])
            &&& halted[k].state == State::Halted
        } by {
            if k < head.len() {
                assert(cells[position(cells, first)].halted() == halted[k]);
            } else {
                let at = k - head.len();
                assert(halted[k] == tail[at]);
                assert(halted_from(one, tail[at]));
                let j = choose|j: int|
                    0 <= j < one.len() && (#[trigger] one[j]).halted() == tail[at];
                if holds(cells, first) {
                    let p = position(cells, first);
                    let from = if j < p { j } else { j + 1 };
                    assert(cells[from].halted() == halted[k]);
                } else {
                    assert(cells[j].halted() == halted[k]);
                }
            }
        }
    }
}

/// Starts change no cell's id and move none.
pub proof fn starts_keep_ids<A: Actor, P>(cells: Seq<CellModel<A, P>>, ids: Seq<u128>)
    ensures
        same_ids(cells, start_all(cells, ids)),
    decreases ids.len(),
{
    if ids.len() > 0 {
        let one = start_one(cells, ids[0]);
        let all = start_all(one, ids.drop_first());
        starts_keep_ids(one, ids.drop_first());
        assert(same_ids(cells, one));
        assert forall|i: int| 0 <= i < cells.len() implies cells[i].id == (
        #[trigger] all[i]).id by {
            assert(one[i].id == all[i].id);
        }
    }
}

/// Restarts change no cell's id and move none.
pub proof fn restarts_keep_ids<P: Props, A: ActorConstructable<P>>(
    cells: Seq<CellModel<A, P>>,
    ids: Seq<u128>,
)
    ensures
        same_ids(cells, restart_all(cells, ids)),
    decreases ids.len(),
{
    if ids.len() > 0 {
        let one = restart_one(cells, ids[0]);
        let all = restart_all(one, ids.drop_first());
        restarts_keep_ids(one, ids.drop_first());
        assert(same_ids(cells, one));
        assert forall|i: int| 0 <= i < cells.len() implies cells[i].id == (
        #[trigger] all[i]).id by {
            assert(one[i].id == all[i].id);
        }
    }
}

/// What the queued starts do to each cell: a cell that has not started and
/// has a start queued is started, once; every other cell is left alone.
pub proof fn starts_start_once<A: Actor, P>(cells: Seq<CellModel<A, P>>, ids: Seq<u128>, at: int)
    requires
        distinct(cells),
        0 <= at < cells.len(),
    ensures
        start_all(cells, ids).len() == cells.len(),
        start_all(cells, ids)[at] == if ids.contains(cells[at].id) && cells[at].state
            == State::Starting {
            cells[at].started()
        } else {
            cells[at]
        },
    decreases ids.len(),
{
    if ids.len() > 0 {
        let first = ids[0];
        let rest = ids.drop_first();
        let one = start_one(cells, first);
        assert(same_ids(cells, one));
        same_ids_agree(cells, one);
        if cells[at].id == first {
            position_is_unique(cells, first, at);
        } else if holds(cells, first) {
            assert(cells[position(cells, first)].id == first);
        }
        starts_start_once(one, rest, at);
        if ids.contains(cells[at].id) && cells[at].id != first {
            let k = choose|k: int| 0 <= k < ids.len() && ids[k] == cells[at].id;
            assert(rest[k - 1] == cells[at].id);
        }
        if rest.contains(cells[at].id) {
            let k = choose|k: int| 0 <= k < rest.len() && rest[k] == cells[at].id;
            assert(ids[k + 1] == cells[at].id);
        }
        assert(ids[0] == first);
    }
}

/// What the queued restarts do to each cell: a cell with a restart queued,
/// however often, ends as the cell restarted once; every other cell is left
/// alone.
pub proof fn restarts_reset_cells<P: Props, A: ActorConstructable<P>>(
    cells: Seq<CellModel<A, P>>,
    ids: Seq<u128>,
    at: int,
)
    requires
        distinct(cells),
        0 <= at < cells.len(),
    ensures
        restart_all(cells, ids).len() == cells.len(),
        restart_all(cells, ids)[at] == if ids.contains(cells[at].id) {
            cells[at].restarted()
        } else {
            cells[at]
        },
    decreases ids.len(),
{
    if ids.len() > 0 {
        let first = ids[0];
        let rest = ids.drop_first();
        let one = restart_one(cells, first);
        assert(same_ids(cells, one));
        same_ids_agree(cells, one);
        if cells[at].id == first {
            position_is_unique(cells, first, at);
        } else if holds(cells, first) {
            assert(cells[position(cells, first)].id == first);
        }
        restarts_reset_cells(one, rest, at);
        if ids.contains(cells[at].id) && cells[at].id != first {
            let k = choose|k: int| 0 <= k < ids.len() && ids[k] == cells[at].id;
            assert(rest[k - 1] == cells[at].id);
        }
        if rest.contains(cells[at].id) {
            let k = choose|k: int| 0 <= k < rest.len() && rest[k] == cells[at].id;
            assert(ids[k + 1] == cells[at].id);
        }
        assert(ids[0] == first);
    }
}

/// A round of deliveries changes no cell's id, state or configuration, adds
/// and removes no cell, and leaves the queued starts and the pause alone.
pub proof fn round_keeps_cells<A: Receives<M>, P, M>(
    model: SchedulerModel<A, P>,
    deliveries: Seq<Option<M>>,
)
    requires
        deliveries.len() <= model.cells.len(),
    ensures
        model.round(deliveries).id == model.id,
        model.round(deliveries).starts == model.starts,
        model.round(deliveries).backoff_us == model.backoff_us,
        model.round(deliveries).cells.len() == model.cells.len(),
        forall|i: int|
            0 <= i < model.cells.len() ==> {
                &&& (#[trigger] model.round(deliveries).cells[i]).id == model.cells[i].id
                &&& model.round(deliveries).cells[i].state == model.cells[i].state
                &&& model.round(deliveries).cells[i].props == model.cells[i].props
            },
        forall|i: int|
            deliveries.len() <= i < model.cells.len() ==> (#[trigger] model.round(
                deliveries,
            ).cells[i]) == model.cells[i],
    decreases deliveries.len(),
{
    if deliveries.len() > 0 {
        round_keeps_cells(model, deliveries.drop_last());
    }
}

/// The second of two deliveries to a cell finds the actor as the first one
/// left it: deliveries to one cell take effect one after the other.
pub proof fn deliveries_compose<A: Receives<M>, P, M>(cell: CellModel<A, P>, first: M, second: M)
    ensures
        cell.delivered(first).delivered(second).actor == cell.actor.received(first).received(
            second,
        ),
        cell.delivered(first).reply(second) == cell.actor.received(first).replied(
            second,
            Context::fresh(cell.id, cell.state),
        ),
{
}

/// Idle ticks lengthen the pause until it reaches the cap, and there it
/// stays: the pause never shrinks, never passes the cap, and stops growing
/// only at the cap.
pub proof fn backoff_converges(backoff_us: u64)
    requires
        BASE_BACKOFF_US <= backoff_us <= MAX_BACKOFF_US,
    ensures
        backoff_us <= next_backoff(backoff_us) <= MAX_BACKOFF_US,
        next_backoff(backoff_us) == backoff_us <==> backoff_us == MAX_BACKOFF_US,
        2 * backoff_us <= MAX_BACKOFF_US ==> next_backoff(backoff_us) == 2 * backoff_us,
{
}

/// A restart resets the actor and nothing else: whatever the actor had
/// become, the restarted cell is the cell as it was created from its id and
/// its configuration, started. Its id is unchanged, so its addresses still
/// reach it.
pub proof fn restart_resets<P: Props, A: ActorConstructable<P>>(cell: CellModel<A, P>)
    ensures
        cell.restarted() == CellModel::<A, P>::created(cell.id, cell.props).started(),
        cell.restarted().actor == A::built(&cell.props).started(),
        cell.restarted().id == cell.id,
        cell.restarted().props == cell.props,
        cell.restarted().state == State::Running,
{
}

/// Lifecycle commands come before messages. When the first message of a tick
/// is delivered, every queued command has been applied: the cells that are
/// left are exactly the registered cells for which no stop was queued, and
/// every one of them is running, its queued start and restarts behind it.
pub proof fn lifecycle_before_messages<P: Props, A: ActorConstructable<P>>(
    model: SchedulerModel<A, P>,
)
    requires
        model.wf(),
    ensures
        model.lifecycle().wf(),
        all_running(model.lifecycle().cells),
        forall|id: u128|
            #![trigger holds(model.lifecycle().cells, id)]
            holds(model.lifecycle().cells, id) == (holds(model.cells, id)
                && !model.stops.contains(id)),
{
    let stopped = stop_all(model.cells, model.stops);
    let started = start_all(stopped, model.starts);
    let restarted = restart_all(started, model.restarts);
    stops_remove_all(model.cells, model.stops);
    starts_keep_ids(stopped, model.starts);
    restarts_keep_ids(started, model.restarts);
    same_ids_agree(stopped, started);
    same_ids_agree(started, restarted);
    stops_keep_invariant(model.cells, model.stops, model.starts);
    starts_leave_all_running(stopped, model.starts);
    restarts_leave_all_running(started, model.restarts);
    assert(started_or_queued(restarted, Seq::<u128>::empty())) by {
        assert forall|i: int| 0 <= i < restarted.len() implies (#[trigger] restarted[i]).state
            == State::Running by {}
    }
    assert forall|id: u128|
        holds(model.lifecycle().cells, id) == (holds(model.cells, id) && !model.stops.contains(
            id,
        )) by {
        assert(holds(restarted, id) == holds(started, id));
        assert(holds(started, id) == holds(stopped, id));
    }
}

/// Once a cell has been stopped it is out of the registry when the tick
/// ends, whatever the mailboxes yielded, so no later tick delivers to it.
pub proof fn no_delivery_after_stop<P: Props, A: ActorConstructable<P> + Receives<M>, M>(
    model: SchedulerModel<A, P>,
    deliveries: Seq<Option<M>>,
    id: u128,
)
    requires
        model.wf(),
        model.lifecycle().admits(deliveries),
        model.stops.contains(id),
    ensures
        !holds(model.ticked(deliveries).cells, id),
{
    lifecycle_before_messages(model);
    let mid = model.lifecycle();
    round_keeps_cells(mid, deliveries);
    let after = mid.round(deliveries).cells;
    assert(same_ids(mid.cells, after));
    same_ids_agree(mid.cells, after);
}

/// Where no stop is queued, the lifecycle part of a tick adds, removes and
/// moves no cell.
pub proof fn lifecycle_without_stops<P: Props, A: ActorConstructable<P>>(
    model: SchedulerModel<A, P>,
)
    requires
        model.stops.len() == 0,
    ensures
        same_ids(model.cells, model.lifecycle().cells),
{
    let started = start_all(model.cells, model.starts);
    let restarted = restart_all(started, model.restarts);
    starts_keep_ids(model.cells, model.starts);
    restarts_keep_ids(started, model.restarts);
    assert forall|i: int| 0 <= i < model.cells.len() implies model.cells[i].id == (
    #[trigger] restarted[i]).id by {
        assert(started[i].id == restarted[i].id);
    }
}

/// What the message part of a tick leaves alone: it adds, removes and moves
/// no cell, changes no cell's state or configuration, and queues no start.
pub proof fn messages_keep_cells<P: Props, A: ActorConstructable<P> + Receives<M>, M>(
    model: SchedulerModel<A, P>,
    deliveries: Seq<Option<M>>,
)
    requires
        model.lifecycle().admits(deliveries),
    ensures
        same_ids(model.lifecycle().cells, model.ticked(deliveries).cells),
        model.ticked(deliveries).starts == Seq::<u128>::empty(),
        model.ticked(deliveries).id == model.id,
        forall|i: int|
            0 <= i < model.lifecycle().cells.len() ==> {
                &&& (#[trigger] model.ticked(deliveries).cells[i]).state
                    == model.lifecycle().cells[i].state
                &&& model.ticked(deliveries).cells[i].props == model.lifecycle().cells[i].props
            },
{
    round_keeps_cells(model.lifecycle(), deliveries);
}

} // verus!
