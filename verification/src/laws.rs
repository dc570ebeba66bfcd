//! Laws of the timer, the engine and the checklist, proved over the spec
//! functions that the contracts of the operations are stated in.

use vstd::prelude::*;
use crate::engine::{EngineStep, EngineView};
use crate::tasks::{
    count_completed, has_id, has_other_id, is_done, is_first_match, lemma_first_match_exists,
    lemma_toggled_at, removed, toggled, TaskView,
};
use crate::timer::{phase_seconds, TickOutcome, TimerMode, TimerState, WORK_SECONDS};

verus! {

/// The timer after `n` ticks in a row.
pub open spec fn ticked_times(state: TimerState, n: nat) -> TimerState
    decreases n,
{
    if n == 0 {
        state
    } else {
        ticked_times(state, (n - 1) as nat).ticked()
    }
}

/// The checklist after toggling the same id `n` times in a row.
pub open spec fn toggled_times(tasks: Seq<TaskView>, id: Seq<char>, n: nat) -> Seq<TaskView>
    decreases n,
{
    if n == 0 {
        tasks
    } else {
        toggled(toggled_times(tasks, id, (n - 1) as nat), id)
    }
}

/// The checklist after toggling the given ids one after another, in order.
pub open spec fn toggled_all(tasks: Seq<TaskView>, ids: Seq<Seq<char>>) -> Seq<TaskView>
    decreases ids.len(),
{
    if ids.len() == 0 {
        tasks
    } else {
        toggled(toggled_all(tasks, ids.drop_last()), ids.last())
    }
}

/// The test for being a given id.
pub open spec fn same_as(id: Seq<char>) -> spec_fn(Seq<char>) -> bool {
    |x: Seq<char>| x == id
}

/// The test for being another id than a given one.
pub open spec fn other_than(id: Seq<char>) -> spec_fn(Seq<char>) -> bool {
    |x: Seq<char>| x != id
}

/// How often an id occurs in a sequence of ids.
pub open spec fn occurrences(ids: Seq<Seq<char>>, id: Seq<char>) -> nat {
    ids.filter(same_as(id)).len()
}

/// A sequence of ids without the occurrences of one of them.
pub open spec fn without(ids: Seq<Seq<char>>, id: Seq<char>) -> Seq<Seq<char>> {
    ids.filter(other_than(id))
}

/// No two tasks of the list share an id.
pub open spec fn ids_unique(tasks: Seq<TaskView>) -> bool {
    forall|i: int, j: int|
        0 <= i < j < tasks.len() ==> (#[trigger] tasks[i]).id != (#[trigger] tasks[j]).id
}

/// A timer whose time left lies within a work session and is not zero.
pub open spec fn well_timed(state: TimerState) -> bool {
    1 <= state.time_left <= WORK_SECONDS
}

/// Stopping from any state gives an idle, unpaused timer with 1500 seconds
/// left and the phase it had; stopping again changes nothing.
pub proof fn stop_resets_from_any_state(state: TimerState)
    ensures
        state.stopped() == (TimerState {
            time_left: 1500,
            is_active: false,
            is_paused: false,
            is_break: state.is_break,
        }),
        state.stopped().spec_mode() == TimerMode::Idle,
        state.stopped().stopped() == state.stopped(),
{
}

/// The initial timer is well timed, and every transition keeps a well timed
/// timer well timed: the time left never reaches zero and never exceeds a
/// work session.
pub proof fn transitions_keep_timer_well_timed(state: TimerState)
    requires
        well_timed(state),
    ensures
        well_timed(TimerState::initial()),
        well_timed(state.started()),
        well_timed(state.pause_toggled()),
        well_timed(state.stopped()),
        well_timed(state.ticked()),
{
}

/// The pause flag is set only with a session in progress: the initial timer
/// has it so, `start` and `stop` establish it from any state, and the pause
/// toggle and a tick keep it.
pub proof fn pause_flag_needs_a_session(state: TimerState)
    ensures
        TimerState::initial().paused_only_in_session(),
        state.started().paused_only_in_session(),
        state.stopped().paused_only_in_session(),
        state.paused_only_in_session() ==> state.pause_toggled().paused_only_in_session(),
        state.paused_only_in_session() ==> state.ticked().paused_only_in_session(),
{
}

/// The pause toggle does nothing to an idle timer, however often it is
/// called.
pub proof fn idle_timer_ignores_pause_toggle(state: TimerState)
    requires
        state.spec_mode() == TimerMode::Idle,
    ensures
        state.pause_toggled() == state,
        state.pause_toggled().spec_mode() == TimerMode::Idle,
{
}

/// From a timer that is well timed and has its pause flag set only with a
/// session in progress, every run of commands and ticks, in any order and
/// from loops of any epoch, leads to such a timer again.
pub proof fn every_run_keeps_timer_consistent(engine: EngineView, steps: Seq<EngineStep>)
    requires
        well_timed(engine.state),
        engine.state.paused_only_in_session(),
    ensures
        well_timed(engine.run(steps).state),
        engine.run(steps).state.paused_only_in_session(),
    decreases steps.len(),
{
    if steps.len() > 0 {
        every_run_keeps_timer_consistent(engine, steps.drop_last());
        let before = engine.run(steps.drop_last());
        transitions_keep_timer_well_timed(before.state);
        pause_flag_needs_a_session(before.state);
    }
}

/// Ticks do nothing to an idle timer, and tell the loop to end.
pub proof fn idle_timer_ignores_ticks(state: TimerState, n: nat)
    requires
        state.spec_mode() == TimerMode::Idle,
    ensures
        state.tick_outcome() == TickOutcome::Retired,
        ticked_times(state, n) == state,
    decreases n,
{
    if n > 0 {
        idle_timer_ignores_ticks(state, (n - 1) as nat);
    }
}

/// Pausing a running timer leaves the session in progress and halts the
/// countdown: however many ticks pass, nothing changes. The second toggle
/// resumes from the same time left, so the next tick is the one the timer
/// would have made had it never been paused.
pub proof fn paused_timer_holds_its_time(state: TimerState, n: nat)
    requires
        state.spec_mode() == TimerMode::Running,
    ensures
        state.pause_toggled().is_active,
        state.pause_toggled().spec_mode() == TimerMode::Paused,
        state.pause_toggled().tick_outcome() == TickOutcome::Skipped,
        ticked_times(state.pause_toggled(), n) == state.pause_toggled(),
        ticked_times(state.pause_toggled(), n).pause_toggled() == state,
        ticked_times(state.pause_toggled(), n).pause_toggled().ticked() == state.ticked(),
    decreases n,
{
    if n > 0 {
        paused_timer_holds_its_time(state, (n - 1) as nat);
    }
}

/// A running timer with time left counts down one second per tick, and on
/// the tick that takes the last second it goes idle in the other phase with
/// that phase's full duration.
pub proof fn countdown_runs_to_completion(state: TimerState, n: nat)
    requires
        state.spec_mode() == TimerMode::Running,
        n <= state.time_left,
    ensures
        n < state.time_left ==> ticked_times(state, n) == (TimerState {
            time_left: (state.time_left - n) as u32,
            ..state
        }),
        n == state.time_left && n > 0 ==> ticked_times(state, n) == (TimerState {
            time_left: phase_seconds(!state.is_break),
            is_active: false,
            is_paused: false,
            is_break: !state.is_break,
        }),
    decreases n,
{
    if n > 0 {
        countdown_runs_to_completion(state, (n - 1) as nat);
    }
}

/// Once a loop has been superseded by a later `start`, its ticks are retired
/// and leave the engine as it is.
pub proof fn superseded_loop_is_retired(engine: EngineView, loop_epoch: nat)
    requires
        loop_epoch <= engine.epoch,
    ensures
        engine.started().epoch > engine.epoch,
        engine.started().tick_outcome(loop_epoch) == TickOutcome::Retired,
        engine.started().ticked(loop_epoch) == engine.started(),
{
}

/// Only the loop of the current epoch can change the engine or keep
/// running, and no transition other than `start` changes the epoch. Of two
/// loops with different epochs, at most one is therefore ever driving the
/// timer.
pub proof fn only_current_loop_drives(engine: EngineView, loop_epoch: nat)
    ensures
        engine.ticked(loop_epoch) != engine ==> loop_epoch == engine.epoch,
        engine.tick_outcome(loop_epoch).spec_keeps_ticking() ==> loop_epoch == engine.epoch,
        engine.ticked(loop_epoch).epoch == engine.epoch,
        engine.pause_toggled().epoch == engine.epoch,
        engine.stopped().epoch == engine.epoch,
{
}

/// Whatever happens to the engine, its epoch never goes back.
pub proof fn epoch_never_goes_back(engine: EngineView, steps: Seq<EngineStep>)
    ensures
        engine.run(steps).epoch >= engine.epoch,
    decreases steps.len(),
{
    if steps.len() > 0 {
        epoch_never_goes_back(engine, steps.drop_last());
    }
}

/// A loop that has been superseded stays superseded: after any further
/// commands and ticks, in any order, a tick it presents is still retired and
/// still leaves the engine as it is. So of all the loops ever spawned, only
/// the one of the latest `start` can drive the timer.
pub proof fn superseded_loop_never_drives_again(
    engine: EngineView,
    steps: Seq<EngineStep>,
    loop_epoch: nat,
)
    requires
        loop_epoch < engine.epoch,
    ensures
        engine.run(steps).tick_outcome(loop_epoch) == TickOutcome::Retired,
        engine.run(steps).ticked(loop_epoch) == engine.run(steps),
{
    epoch_never_goes_back(engine, steps);
}

/// Toggling keeps the length of the list and every id and label; only
/// completion flags can differ.
pub proof fn toggle_keeps_ids_and_labels(tasks: Seq<TaskView>, id: Seq<char>)
    ensures
        toggled(tasks, id).len() == tasks.len(),
        forall|i: int|
            0 <= i < tasks.len() ==> (#[trigger] toggled(tasks, id)[i]).id == tasks[i].id
                && toggled(tasks, id)[i].text == tasks[i].text,
        forall|other: Seq<char>| has_id(toggled(tasks, id), other) == has_id(tasks, other),
        forall|other: Seq<char>, i: int|
            is_first_match(toggled(tasks, id), other, i) == is_first_match(tasks, other, i),
{
    let after = toggled(tasks, id);
    if has_id(tasks, id) {
        let i = lemma_first_match_exists(tasks, id);
    }
    assert(after.len() == tasks.len());
    assert forall|i: int| 0 <= i < tasks.len() implies (#[trigger] after[i]).id == tasks[i].id
        && after[i].text == tasks[i].text by {}
    assert forall|other: Seq<char>| has_id(after, other) == has_id(tasks, other) by {
        if has_id(tasks, other) {
            let k = choose|k: int| 0 <= k < tasks.len() && (#[trigger] tasks[k]).id == other;
            assert(after[k].id == other);
        }
        if has_id(after, other) {
            let k = choose|k: int| 0 <= k < after.len() && (#[trigger] after[k]).id == other;
            assert(tasks[k].id == other);
        }
    }
    assert forall|other: Seq<char>, i: int|
        is_first_match(after, other, i) == is_first_match(tasks, other, i) by {
        if is_first_match(tasks, other, i) {
            assert forall|j: int| 0 <= j < i implies (#[trigger] after[j]).id != other by {
                assert(tasks[j].id != other);
            }
        }
        if is_first_match(after, other, i) {
            assert forall|j: int| 0 <= j < i implies (#[trigger] tasks[j]).id != other by {
                assert(after[j].id != other);
            }
        }
    }
}

/// Toggling the same id twice restores the list.
pub proof fn toggle_twice_restores(tasks: Seq<TaskView>, id: Seq<char>)
    ensures
        toggled(toggled(tasks, id), id) == tasks,
{
    if has_id(tasks, id) {
        let i = lemma_first_match_exists(tasks, id);
        let once = toggled(tasks, id);
        toggle_keeps_ids_and_labels(tasks, id);
        assert(is_first_match(once, id, i));
        lemma_toggled_at(once, id, i);
        assert(toggled(once, id) =~= tasks);
    } else {
        assert(toggled(tasks, id) == tasks);
    }
}

/// Any number of toggles of one id comes to none when the number is even
/// and to a single toggle when it is odd.
pub proof fn repeated_toggles_go_by_parity(tasks: Seq<TaskView>, id: Seq<char>, n: nat)
    ensures
        toggled_times(tasks, id, n) == if n % 2 == 0 {
            tasks
        } else {
            toggled(tasks, id)
        },
    decreases n,
{
    if n > 0 {
        repeated_toggles_go_by_parity(tasks, id, (n - 1) as nat);
        toggle_twice_restores(tasks, id);
    }
}

/// Toggles of two different ids can be applied in either order: neither
/// update is lost, whichever comes first.
pub proof fn toggles_of_distinct_ids_commute(tasks: Seq<TaskView>, a: Seq<char>, b: Seq<char>)
    requires
        a != b,
    ensures
        toggled(toggled(tasks, a), b) == toggled(toggled(tasks, b), a),
{
    toggle_keeps_ids_and_labels(tasks, a);
    toggle_keeps_ids_and_labels(tasks, b);
    let ta = toggled(tasks, a);
    let tb = toggled(tasks, b);
    if has_id(tasks, a) && has_id(tasks, b) {
        let i = lemma_first_match_exists(tasks, a);
        let j = lemma_first_match_exists(tasks, b);
        assert(is_first_match(ta, b, j));
        assert(is_first_match(tb, a, i));
        lemma_toggled_at(ta, b, j);
        lemma_toggled_at(tb, a, i);
        assert(i != j);
        assert(toggled(ta, b) =~= toggled(tb, a));
    } else if has_id(tasks, a) {
        assert(!has_id(ta, b));
        assert(tb == tasks);
    } else {
        assert(ta == tasks);
        assert(!has_id(tb, a));
    }
}

/// A toggle can be moved in front of any run of toggles of other ids.
pub proof fn toggle_moves_past_other_ids(
    tasks: Seq<TaskView>,
    id: Seq<char>,
    others: Seq<Seq<char>>,
)
    requires
        forall|i: int| 0 <= i < others.len() ==> others[i] != id,
    ensures
        toggled(toggled_all(tasks, others), id) == toggled_all(toggled(tasks, id), others),
    decreases others.len(),
{
    if others.len() > 0 {
        let init = others.drop_last();
        let last = others.last();
        toggle_moves_past_other_ids(tasks, id, init);
        toggles_of_distinct_ids_commute(toggled_all(tasks, init), last, id);
    }
}

/// In any run of toggles, the toggles of one id can be taken out and applied
/// first: when each toggle happens among the others does not matter, only
/// how many there are.
pub proof fn toggles_of_one_id_can_go_first(
    tasks: Seq<TaskView>,
    ids: Seq<Seq<char>>,
    id: Seq<char>,
)
    ensures
        toggled_all(tasks, ids) == toggled_all(
            toggled_times(tasks, id, occurrences(ids, id)),
            without(ids, id),
        ),
    decreases ids.len(),
{
    let same = same_as(id);
    let other = other_than(id);
    if ids.len() == 0 {
        assert(ids.filter(same) =~= ids && ids.filter(other) =~= ids) by {
            reveal(Seq::filter);
        }
    } else {
        let init = ids.drop_last();
        let last = ids.last();
        toggles_of_one_id_can_go_first(tasks, init, id);
        assert(init.push(last) =~= ids);
        init.lemma_filter_push(last, same);
        init.lemma_filter_push(last, other);
        if last == id {
            let first = toggled_times(tasks, id, occurrences(init, id));
            assert forall|i: int| 0 <= i < without(init, id).len() implies without(init, id)[i]
                != id by {
                init.lemma_filter_pred(other, i);
            }
            toggle_moves_past_other_ids(first, id, without(init, id));
        } else {
            assert(without(ids, id) == without(init, id).push(last));
            assert(without(ids, id).drop_last() =~= without(init, id));
        }
    }
}

/// A run of toggles of one id is that many toggles of it.
pub proof fn run_of_one_id_is_repeated_toggle(
    tasks: Seq<TaskView>,
    ids: Seq<Seq<char>>,
    id: Seq<char>,
)
    requires
        forall|i: int| 0 <= i < ids.len() ==> ids[i] == id,
    ensures
        toggled_all(tasks, ids) == toggled_times(tasks, id, ids.len()),
    decreases ids.len(),
{
    if ids.len() > 0 {
        run_of_one_id_is_repeated_toggle(tasks, ids.drop_last(), id);
    }
}

/// Two callers toggle two different ids, and their calls are applied one at
/// a time in whatever order they arrive. Every such order gives the same
/// checklist: the one with all toggles of the first id applied and then all
/// toggles of the second. No call is lost to another.
pub proof fn interleaved_toggles_lose_no_update(
    tasks: Seq<TaskView>,
    a: Seq<char>,
    b: Seq<char>,
    arrivals: Seq<Seq<char>>,
)
    requires
        a != b,
        forall|i: int| 0 <= i < arrivals.len() ==> arrivals[i] == a || arrivals[i] == b,
    ensures
        toggled_all(tasks, arrivals) == toggled_times(
            toggled_times(tasks, a, occurrences(arrivals, a)),
            b,
            occurrences(arrivals, b),
        ),
{
    let not_a = other_than(a);
    let is_b = same_as(b);
    let rest = without(arrivals, a);
    toggles_of_one_id_can_go_first(tasks, arrivals, a);
    assert forall|i: int| 0 <= i < rest.len() implies rest[i] == b by {
        arrivals.lemma_filter_pred(not_a, i);
        assert(rest.contains(rest[i]));
        arrivals.lemma_filter_contains_rev(not_a, rest[i]);
    }
    run_of_one_id_is_repeated_toggle(toggled_times(tasks, a, occurrences(arrivals, a)), rest, b);
    assert(rest.len() == occurrences(arrivals, b)) by {
        lemma_filters_agree(arrivals, not_a, is_b);
    }
}

/// Two filters that pass the same elements of a list give the same list.
proof fn lemma_filters_agree(
    ids: Seq<Seq<char>>,
    p: spec_fn(Seq<char>) -> bool,
    q: spec_fn(Seq<char>) -> bool,
)
    requires
        forall|i: int| 0 <= i < ids.len() ==> p(ids[i]) == q(ids[i]),
    ensures
        ids.filter(p) == ids.filter(q),
    decreases ids.len(),
{
    reveal(Seq::filter);
    if ids.len() > 0 {
        lemma_filters_agree(ids.drop_last(), p, q);
    }
}

/// A toggle that finds its task moves the completed count by exactly one:
/// up when the task was open, down when it was done.
pub proof fn toggle_moves_count_by_one(tasks: Seq<TaskView>, id: Seq<char>, i: int)
    requires
        is_first_match(tasks, id, i),
    ensures
        tasks[i].completed ==> count_completed(toggled(tasks, id)) == count_completed(tasks) - 1,
        !tasks[i].completed ==> count_completed(toggled(tasks, id)) == count_completed(tasks) + 1,
{
    let done = is_done();
    let head = tasks.take(i);
    let tail = tasks.skip(i + 1);
    let was = seq![tasks[i]];
    let now = seq![tasks[i].flipped()];
    lemma_toggled_at(tasks, id, i);
    assert(tasks =~= head + was + tail);
    assert(toggled(tasks, id) =~= head + now + tail);
    Seq::filter_distributes_over_add(head, was, done);
    Seq::filter_distributes_over_add(head + was, tail, done);
    Seq::filter_distributes_over_add(head, now, done);
    Seq::filter_distributes_over_add(head + now, tail, done);
    assert(was =~= Seq::<TaskView>::empty().push(tasks[i]));
    assert(now =~= Seq::<TaskView>::empty().push(tasks[i].flipped()));
    Seq::<TaskView>::empty().lemma_filter_push(tasks[i], done);
    Seq::<TaskView>::empty().lemma_filter_push(tasks[i].flipped(), done);
    assert(Seq::<TaskView>::empty().filter(done) =~= Seq::<TaskView>::empty()) by {
        reveal(Seq::filter);
    }
}

/// A filter keeps a list whole when every element passes.
proof fn lemma_filter_keeps_all(tasks: Seq<TaskView>, pred: spec_fn(TaskView) -> bool)
    requires
        forall|i: int| 0 <= i < tasks.len() ==> pred(#[trigger] tasks[i]),
    ensures
        tasks.filter(pred) == tasks,
    decreases tasks.len(),
{
    reveal(Seq::filter);
    if tasks.len() > 0 {
        lemma_filter_keeps_all(tasks.drop_last(), pred);
        assert(tasks.drop_last().push(tasks.last()) =~= tasks);
    }
}

/// Removing an id that no task has leaves the list unchanged.
pub proof fn remove_absent_changes_nothing(tasks: Seq<TaskView>, id: Seq<char>)
    requires
        !has_id(tasks, id),
    ensures
        removed(tasks, id) == tasks,
        removed(tasks, id).len() == tasks.len(),
        count_completed(removed(tasks, id)) == count_completed(tasks),
{
    let other = has_other_id(id);
    assert forall|i: int| 0 <= i < tasks.len() implies other(#[trigger] tasks[i]) by {}
    lemma_filter_keeps_all(tasks, other);
}

/// After a removal no task has the id, and removing it again changes
/// nothing.
pub proof fn remove_is_idempotent(tasks: Seq<TaskView>, id: Seq<char>)
    ensures
        !has_id(removed(tasks, id), id),
        removed(removed(tasks, id), id) == removed(tasks, id),
{
    let other = has_other_id(id);
    let rest = removed(tasks, id);
    assert forall|i: int| 0 <= i < rest.len() implies other(#[trigger] rest[i]) by {
        tasks.lemma_filter_pred(other, i);
    }
    remove_absent_changes_nothing(rest, id);
}

/// A removal touches no task with another id: such an id is in the list
/// afterwards exactly when it was before, and the list never grows.
pub proof fn remove_keeps_other_ids(tasks: Seq<TaskView>, id: Seq<char>, other_id: Seq<char>)
    requires
        other_id != id,
    ensures
        has_id(removed(tasks, id), other_id) == has_id(tasks, other_id),
        removed(tasks, id).len() <= tasks.len(),
{
    let other = has_other_id(id);
    let rest = removed(tasks, id);
    tasks.lemma_filter_len(other);
    if has_id(tasks, other_id) {
        let k = choose|k: int| 0 <= k < tasks.len() && (#[trigger] tasks[k]).id == other_id;
        tasks.lemma_filter_contains(other, k);
        let m = choose|m: int| 0 <= m < rest.len() && rest[m] == tasks[k];
        assert(rest[m].id == other_id);
    }
    if has_id(rest, other_id) {
        let m = choose|m: int| 0 <= m < rest.len() && (#[trigger] rest[m]).id == other_id;
        assert(rest.contains(rest[m]));
        tasks.lemma_filter_contains_rev(other, rest[m]);
        let k = choose|k: int| 0 <= k < tasks.len() && tasks[k] == rest[m];
        assert(tasks[k].id == other_id);
    }
}

/// Where ids are unique they stay unique under toggling and removal, and a
/// removal that finds its task deletes exactly that one.
pub proof fn unique_ids_stay_unique(tasks: Seq<TaskView>, id: Seq<char>)
    requires
        ids_unique(tasks),
    ensures
        ids_unique(toggled(tasks, id)),
        ids_unique(removed(tasks, id)),
        has_id(tasks, id) ==> removed(tasks, id).len() == tasks.len() - 1,
    decreases tasks.len(),
{
    toggle_keeps_ids_and_labels(tasks, id);
    let other = has_other_id(id);
    if tasks.len() == 0 {
        assert(removed(tasks, id) =~= tasks) by {
            reveal(Seq::filter);
        }
    } else {
        let init = tasks.drop_last();
        let last = tasks.last();
        let rest = removed(init, id);
        assert(init.push(last) =~= tasks);
        init.lemma_filter_push(last, other);
        assert(ids_unique(init)) by {
            assert forall|i: int, j: int| 0 <= i < j < init.len() implies (#[trigger] init[i]).id
                != (#[trigger] init[j]).id by {
                assert(tasks[i].id != tasks[j].id);
            }
        }
        unique_ids_stay_unique(init, id);
        if last.id == id {
            assert(!has_id(init, id)) by {
                if has_id(init, id) {
                    let k = choose|k: int| 0 <= k < init.len() && (#[trigger] init[k]).id == id;
                    assert(tasks[k].id != tasks[tasks.len() - 1].id);
                }
            }
            remove_absent_changes_nothing(init, id);
        } else {
            assert(has_id(tasks, id) ==> has_id(init, id)) by {
                if has_id(tasks, id) {
                    let k = choose|k: int| 0 <= k < tasks.len() && (#[trigger] tasks[k]).id == id;
                    assert(init[k].id == id);
                }
            }
            let now = removed(tasks, id);
            assert forall|i: int, j: int| 0 <= i < j < now.len() implies (#[trigger] now[i]).id
                != (#[trigger] now[j]).id by {
                if j < rest.len() {
                    assert(rest[i].id != rest[j].id);
                } else {
                    assert(rest.contains(rest[i]));
                    init.lemma_filter_contains_rev(other, rest[i]);
                    let k = choose|k: int| 0 <= k < init.len() && init[k] == rest[i];
                    assert(tasks[k].id != tasks[tasks.len() - 1].id);
                }
            }
        }
    }
}

} // verus!
