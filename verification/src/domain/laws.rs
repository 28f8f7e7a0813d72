//! What holds of every deploy and every destroy.

use super::engine::{
    begin, call_of, converging, first_failure, Call, Event, ReconcileError, Reply, State,
};
use super::model::{Application, Container};
use super::plan::{
    current_of, deploy_plan, lemma_insert_at, lemma_oldest_first_len, oldest_first, outdated_of,
    scale_up, stops_of, Action,
};
use super::port::BackendError;
use vstd::prelude::*;

verus! {

/// The number of starts among the actions.
pub open spec fn starts_in(plan: Seq<Action>) -> nat
    decreases plan.len(),
{
    if plan.len() == 0 {
        0
    } else if plan.last() is Start {
        starts_in(plan.drop_last()) + 1
    } else {
        starts_in(plan.drop_last())
    }
}

/// The instances that the actions stop, in the order of the stops.
pub open spec fn stops_in(plan: Seq<Action>) -> Seq<Container>
    decreases plan.len(),
{
    if plan.len() == 0 {
        Seq::empty()
    } else {
        match plan.last() {
            Action::Stop(container) => stops_in(plan.drop_last()).push(container),
            Action::Start => stops_in(plan.drop_last()),
        }
    }
}

/// Starts and stops of two lists of actions done one after the other add up.
pub proof fn lemma_counts_of_concat(first: Seq<Action>, second: Seq<Action>)
    ensures
        starts_in(first + second) == starts_in(first) + starts_in(second),
        stops_in(first + second) == stops_in(first) + stops_in(second),
    decreases second.len(),
{
    if second.len() == 0 {
        assert(first + second =~= first);
        assert(stops_in(first) + stops_in(second) =~= stops_in(first));
    } else {
        lemma_counts_of_concat(first, second.drop_last());
        assert((first + second).drop_last() =~= first + second.drop_last());
        assert((first + second).last() == second.last());
        assert(stops_in(first + second) =~= stops_in(first) + stops_in(second));
    }
}

/// The starts and stops of a single action.
pub proof fn lemma_counts_of_one(action: Action)
    ensures
        starts_in(seq![action]) == (if action is Start {
            1nat
        } else {
            0nat
        }),
        stops_in(seq![action]) == (match action {
            Action::Stop(container) => seq![container],
            Action::Start => Seq::empty(),
        }),
{
    reveal_with_fuel(starts_in, 2);
    reveal_with_fuel(stops_in, 2);
    assert(seq![action].drop_last() =~= Seq::<Action>::empty());
    match action {
        Action::Stop(container) => {
            assert(stops_in(seq![action]) =~= seq![container]);
        },
        Action::Start => {},
    }
}

/// A list of stops starts nothing and stops the instances it names.
pub proof fn lemma_counts_of_stops(containers: Seq<Container>)
    ensures
        starts_in(stops_of(containers)) == 0,
        stops_in(stops_of(containers)) == containers,
    decreases containers.len(),
{
    if containers.len() > 0 {
        lemma_counts_of_stops(containers.drop_last());
        assert(stops_of(containers).drop_last() =~= stops_of(containers.drop_last()));
        assert(stops_in(stops_of(containers)) =~= containers);
    } else {
        assert(stops_in(stops_of(containers)) =~= containers);
    }
}

/// Scaling up starts exactly the instances needed and stops every outdated
/// instance exactly once, in the order reported.
pub proof fn lemma_scale_up_counts(needed: nat, outdated: Seq<Container>)
    ensures
        starts_in(scale_up(needed, outdated)) == needed,
        stops_in(scale_up(needed, outdated)) == outdated,
    decreases needed + outdated.len(),
{
    let start = seq![Action::Start];
    lemma_counts_of_one(Action::Start);
    if outdated.len() > 0 {
        let stop = seq![Action::Stop(outdated[0])];
        lemma_counts_of_one(Action::Stop(outdated[0]));
        assert(seq![outdated[0]] + outdated.skip(1) =~= outdated);
        if needed > 0 {
            let rest = scale_up((needed - 1) as nat, outdated.skip(1));
            lemma_scale_up_counts((needed - 1) as nat, outdated.skip(1));
            lemma_counts_of_concat(start, stop);
            lemma_counts_of_concat(start + stop, rest);
            assert(start + stop =~= seq![Action::Start, Action::Stop(outdated[0])]);
            assert(stops_in(scale_up(needed, outdated)) =~= outdated);
        } else {
            let rest = scale_up(0, outdated.skip(1));
            lemma_scale_up_counts(0, outdated.skip(1));
            lemma_counts_of_concat(stop, rest);
            assert(stops_in(scale_up(needed, outdated)) =~= outdated);
        }
    } else if needed > 0 {
        let rest = scale_up((needed - 1) as nat, outdated);
        lemma_scale_up_counts((needed - 1) as nat, outdated);
        lemma_counts_of_concat(start, rest);
        assert(stops_in(scale_up(needed, outdated)) =~= outdated);
    } else {
        assert(stops_in(scale_up(needed, outdated)) =~= outdated);
    }
}

/// While a rolling replacement still has instances to start, it has stopped
/// no more instances than it has started: no stop comes before the start
/// that makes up for it.
pub proof fn lemma_scale_up_never_stops_ahead(needed: nat, outdated: Seq<Container>, done: int)
    requires
        0 <= done <= scale_up(needed, outdated).len(),
    ensures
        starts_in(scale_up(needed, outdated).take(done)) <= needed,
        stops_in(scale_up(needed, outdated).take(done)).len() <= starts_in(
            scale_up(needed, outdated).take(done),
        ) || starts_in(scale_up(needed, outdated).take(done)) == needed,
    decreases needed + outdated.len(),
{
    let plan = scale_up(needed, outdated);
    let start = seq![Action::Start];
    lemma_counts_of_one(Action::Start);
    if done == 0 {
        assert(plan.take(done) =~= Seq::<Action>::empty());
    } else if needed > 0 && outdated.len() > 0 {
        let stop = seq![Action::Stop(outdated[0])];
        let rest = scale_up((needed - 1) as nat, outdated.skip(1));
        lemma_counts_of_one(Action::Stop(outdated[0]));
        assert(plan =~= start + stop + rest);
        if done == 1 {
            assert(plan.take(done) =~= start);
        } else {
            lemma_scale_up_never_stops_ahead((needed - 1) as nat, outdated.skip(1), done - 2);
            assert(plan.take(done) =~= start + stop + rest.take(done - 2));
            lemma_counts_of_concat(start, stop);
            lemma_counts_of_concat(start + stop, rest.take(done - 2));
        }
    } else if needed > 0 {
        let rest = scale_up((needed - 1) as nat, outdated);
        lemma_scale_up_never_stops_ahead((needed - 1) as nat, outdated, done - 1);
        assert(plan.take(done) =~= start + rest.take(done - 1));
        lemma_counts_of_concat(start, rest.take(done - 1));
    } else if outdated.len() > 0 {
        let stop = seq![Action::Stop(outdated[0])];
        let rest = scale_up(0, outdated.skip(1));
        lemma_counts_of_one(Action::Stop(outdated[0]));
        lemma_scale_up_never_stops_ahead(0, outdated.skip(1), done - 1);
        assert(plan.take(done) =~= stop + rest.take(done - 1));
        lemma_counts_of_concat(stop, rest.take(done - 1));
    }
}

/// Whether no instance stands before an older one.
pub open spec fn by_age(containers: Seq<Container>) -> bool {
    forall|i: int, j: int|
        0 <= i < j < containers.len() ==> containers[i].started_at <= containers[j].started_at
}

/// Where inserting by age puts the instance: behind the last instance that
/// is not younger.
pub open spec fn place_by_age(sorted: Seq<Container>, container: Container) -> int
    decreases sorted.len(),
{
    if sorted.len() == 0 {
        0
    } else if sorted.last().started_at <= container.started_at {
        sorted.len() as int
    } else {
        place_by_age(sorted.drop_last(), container)
    }
}

/// The place of an instance lies behind every instance that is not younger
/// and before every instance that is.
pub proof fn lemma_place_by_age(sorted: Seq<Container>, container: Container)
    ensures
        0 <= place_by_age(sorted, container) <= sorted.len(),
        forall|j: int|
            place_by_age(sorted, container) <= j < sorted.len() ==> sorted[j].started_at
                > container.started_at,
        place_by_age(sorted, container) > 0 ==> sorted[place_by_age(sorted, container)
            - 1].started_at <= container.started_at,
    decreases sorted.len(),
{
    let place = place_by_age(sorted, container);
    if sorted.len() > 0 && sorted.last().started_at > container.started_at {
        lemma_place_by_age(sorted.drop_last(), container);
        assert forall|j: int| place <= j < sorted.len() implies sorted[j].started_at
            > container.started_at by {
            if j < sorted.len() - 1 {
                assert(sorted[j] == sorted.drop_last()[j]);
            }
        }
        if place > 0 {
            assert(sorted[place - 1] == sorted.drop_last()[place - 1]);
        }
    }
}

/// Sorting by age yields the same instances, each as often as before, with
/// no instance before an older one.
pub proof fn lemma_oldest_first_sorts(containers: Seq<Container>)
    ensures
        by_age(oldest_first(containers)),
        oldest_first(containers).to_multiset() == containers.to_multiset(),
        oldest_first(containers).len() == containers.len(),
    decreases containers.len(),
{
    broadcast use vstd::seq_lib::to_multiset_build, vstd::seq_lib::to_multiset_insert;

    lemma_oldest_first_len(containers);
    if containers.len() > 0 {
        let before = oldest_first(containers.drop_last());
        let place = place_by_age(before, containers.last());
        lemma_oldest_first_sorts(containers.drop_last());
        lemma_place_by_age(before, containers.last());
        lemma_insert_at(before, containers.last(), place);
        assert(containers =~= containers.drop_last().push(containers.last()));
        assert(before.insert(place, containers.last()).to_multiset()
            == before.to_multiset().insert(containers.last()));
        assert(containers.drop_last().push(containers.last()).to_multiset()
            == containers.drop_last().to_multiset().insert(containers.last()));
        let after = before.insert(place, containers.last());
        assert forall|i: int, j: int| 0 <= i < j < after.len() implies after[i].started_at
            <= after[j].started_at by {
            if j < place {
                assert(after[i] == before[i] && after[j] == before[j]);
            } else if j == place {
                assert(after[i] == before[i]);
                assert(before[i].started_at <= before[place - 1].started_at);
            } else if i < place {
                assert(after[i] == before[i] && after[j] == before[j - 1]);
            } else if i == place {
                assert(after[j] == before[j - 1]);
            } else {
                assert(after[i] == before[i - 1] && after[j] == before[j - 1]);
            }
        }
    } else {
        assert(containers =~= Seq::<Container>::empty());
    }
}

/// Instances of one age leave the sort in the order they entered it.
pub proof fn lemma_oldest_first_is_stable(containers: Seq<Container>, age: u64)
    ensures
        oldest_first(containers).filter(|container: Container| container.started_at == age)
            == containers.filter(|container: Container| container.started_at == age),
    decreases containers.len(),
{
    let of_age = |container: Container| container.started_at == age;
    if containers.len() > 0 {
        let before = oldest_first(containers.drop_last());
        let last = containers.last();
        let place = place_by_age(before, last);
        lemma_oldest_first_is_stable(containers.drop_last(), age);
        lemma_place_by_age(before, last);
        lemma_insert_at(before, last, place);
        assert(containers =~= containers.drop_last().push(last));
        Seq::lemma_filter_push(containers.drop_last(), last, of_age);
        let head = before.take(place);
        let tail = before.skip(place);
        assert(before =~= head + tail);
        assert(before.insert(place, last) =~= head.push(last) + tail);
        Seq::filter_distributes_over_add(head, tail, of_age);
        Seq::filter_distributes_over_add(head.push(last), tail, of_age);
        Seq::lemma_filter_push(head, last, of_age);
        if of_age(last) {
            assert forall|i: int| 0 <= i < tail.len() implies !of_age(tail[i]) by {
                assert(tail[i] == before[place + i]);
            }
            tail.lemma_all_neg_filter_empty(of_age);
            assert(tail.filter(of_age) =~= Seq::<Container>::empty());
            assert(head.push(last).filter(of_age) + tail.filter(of_age) =~= (head.filter(of_age)
                + tail.filter(of_age)).push(last));
        }
    }
}

/// A deploy that finds as many current instances as the application wants
/// starts nothing and stops nothing, whether outdated instances run or not.
pub proof fn law_deploy_at_target_does_nothing(
    containers: Seq<Container>,
    image_id: Seq<char>,
    target: nat,
)
    requires
        target == current_of(containers, image_id).len(),
    ensures
        deploy_plan(containers, image_id, target) == Seq::<Action>::empty(),
        starts_in(deploy_plan(containers, image_id, target)) == 0,
        stops_in(deploy_plan(containers, image_id, target)) == Seq::<Container>::empty(),
{
}

/// A deploy that finds fewer current instances than the application wants
/// starts exactly the missing ones and stops every outdated instance exactly
/// once: one after each of the first starts, the rest when all starts are
/// done. At no moment before the last start has it stopped more instances
/// than it has started.
pub proof fn law_deploy_scales_up(containers: Seq<Container>, image_id: Seq<char>, target: nat)
    requires
        target > current_of(containers, image_id).len(),
    ensures
        ({
            let plan = deploy_plan(containers, image_id, target);
            let missing = target - current_of(containers, image_id).len();
            let outdated = outdated_of(containers, image_id);
            let paired = if outdated.len() <= missing {
                outdated.len() as int
            } else {
                missing
            };
            let drained = if outdated.len() <= missing {
                0
            } else {
                outdated.len() - missing
            };
            &&& starts_in(plan) == missing
            &&& stops_in(plan) == outdated
            &&& stops_in(plan).len() == paired + drained
            &&& forall|done: int|
                0 <= done <= plan.len() && starts_in(#[trigger] plan.take(done)) < missing
                    ==> stops_in(plan.take(done)).len() <= starts_in(plan.take(done))
        }),
{
    let plan = deploy_plan(containers, image_id, target);
    let missing = (target - current_of(containers, image_id).len()) as nat;
    let outdated = outdated_of(containers, image_id);
    lemma_scale_up_counts(missing, outdated);
    assert forall|done: int|
        0 <= done <= plan.len() && starts_in(#[trigger] plan.take(done)) < missing implies stops_in(
        plan.take(done),
    ).len() <= starts_in(plan.take(done)) by {
        lemma_scale_up_never_stops_ahead(missing, outdated, done);
    }
}

/// A deploy that finds more current instances than the application wants
/// starts nothing and stops exactly the surplus: the oldest current
/// instances, oldest first, and among instances of one age those reported
/// first. No instance it stops is younger than one it keeps, the instances
/// it stops and those it keeps are together the current ones, and no
/// outdated instance is stopped.
pub proof fn law_deploy_scales_down(containers: Seq<Container>, image_id: Seq<char>, target: nat)
    requires
        target < current_of(containers, image_id).len(),
    ensures
        ({
            let plan = deploy_plan(containers, image_id, target);
            let current = current_of(containers, image_id);
            let surplus = current.len() - target;
            let sorted = oldest_first(current);
            let kept = sorted.skip(surplus);
            &&& starts_in(plan) == 0
            &&& stops_in(plan) == sorted.take(surplus)
            &&& stops_in(plan).len() == surplus
            &&& kept.len() == target
            &&& forall|i: int, j: int|
                0 <= i < stops_in(plan).len() && 0 <= j < kept.len() ==> stops_in(
                    plan,
                )[i].started_at <= kept[j].started_at
            &&& stops_in(plan).to_multiset().add(kept.to_multiset()) == current.to_multiset()
            &&& forall|i: int| 0 <= i < stops_in(plan).len() ==> stops_in(plan)[i].runs(image_id)
        }),
{
    broadcast use vstd::seq_lib::lemma_multiset_commutative, vstd::seq_lib::to_multiset_contains;

    let plan = deploy_plan(containers, image_id, target);
    let current = current_of(containers, image_id);
    let surplus = current.len() - target;
    let sorted = oldest_first(current);
    let stopped = sorted.take(surplus);
    let kept = sorted.skip(surplus);
    lemma_oldest_first_sorts(current);
    lemma_counts_of_stops(stopped);
    assert(sorted =~= stopped + kept);
    assert forall|i: int, j: int| 0 <= i < stopped.len() && 0 <= j < kept.len() implies stopped[i].started_at
        <= kept[j].started_at by {
        assert(stopped[i] == sorted[i] && kept[j] == sorted[surplus + j]);
    }
    assert forall|i: int| 0 <= i < stopped.len() implies stopped[i].runs(image_id) by {
        assert(stopped[i] == sorted[i]);
        assert(sorted.contains(sorted[i]));
        assert(sorted.to_multiset().count(sorted[i]) > 0);
        assert(current.to_multiset().count(sorted[i]) > 0);
        assert(current.contains(sorted[i]));
        let at = choose|at: int| 0 <= at < current.len() && current[at] == sorted[i];
        containers.lemma_filter_pred(|container: Container| container.runs(image_id), at);
    }
}

/// The state after the answers were taken in, one after the other.
pub open spec fn run(state: State, replies: Seq<Reply>) -> State
    decreases replies.len(),
{
    if replies.len() == 0 {
        state
    } else {
        run(state.step(replies[0]), replies.skip(1))
    }
}

/// The calls that the answers answer, in order: the call the engine names in
/// each state it passes through, until it is finished or out of answers.
pub open spec fn calls(state: State, replies: Seq<Reply>) -> Seq<Call>
    decreases replies.len(),
{
    if replies.len() == 0 {
        Seq::empty()
    } else {
        match state.call() {
            Some(call) => seq![call] + calls(state.step(replies[0]), replies.skip(1)),
            None => Seq::empty(),
        }
    }
}

/// The calls that carry out the actions.
pub open spec fn calls_of(application: Application, image_id: String, plan: Seq<Action>) -> Seq<
    Call,
> {
    plan.map_values(|action: Action| call_of(application, image_id, action))
}

/// As many successes as asked for.
pub open spec fn completions(count: nat) -> Seq<Reply> {
    Seq::new(count, |i: int| Reply::Completed)
}

/// Taking in answers one at a time is taking in the first and then the rest.
pub proof fn lemma_run_unfolds(state: State, reply: Reply, rest: Seq<Reply>)
    ensures
        run(state, seq![reply] + rest) == run(state.step(reply), rest),
        calls(state, seq![reply] + rest) == (match state.call() {
            Some(call) => seq![call] + calls(state.step(reply), rest),
            None => Seq::empty(),
        }),
{
    assert((seq![reply] + rest).skip(1) =~= rest);
}

/// Taking in one more answer is one more step from where the earlier
/// answers led.
pub proof fn lemma_run_extends(state: State, replies: Seq<Reply>, reply: Reply)
    ensures
        run(state, replies.push(reply)) == run(state, replies).step(reply),
    decreases replies.len(),
{
    if replies.len() == 0 {
        assert(replies.push(reply) =~= seq![reply] + Seq::<Reply>::empty());
        lemma_run_unfolds(state, reply, Seq::<Reply>::empty());
    } else {
        lemma_run_extends(state.step(replies[0]), replies.skip(1), reply);
        assert(replies.push(reply).skip(1) =~= replies.skip(1).push(reply));
        assert(replies.push(reply)[0] == replies[0]);
    }
}

/// Once finished, the engine names no call and stays where it is.
pub proof fn lemma_finished_is_final(state: State, replies: Seq<Reply>)
    requires
        state is Finished,
    ensures
        run(state, replies) == state,
        calls(state, replies) == Seq::<Call>::empty(),
    decreases replies.len(),
{
    if replies.len() > 0 {
        lemma_finished_is_final(state, replies.skip(1));
    }
}

/// Carrying out pending actions that all succeed makes exactly their calls
/// and ends well.
pub proof fn lemma_converging_succeeds(
    application: Application,
    image_id: String,
    pending: Seq<Action>,
)
    ensures
        run(converging(application, image_id, pending), completions(pending.len()))
            == (State::Finished { result: Ok(()) }),
        calls(converging(application, image_id, pending), completions(pending.len()))
            == calls_of(application, image_id, pending),
    decreases pending.len(),
{
    let replies = completions(pending.len());
    if pending.len() == 0 {
        assert(calls_of(application, image_id, pending) =~= Seq::<Call>::empty());
    } else {
        lemma_converging_succeeds(application, image_id, pending.skip(1));
        assert(replies.skip(1) =~= completions(pending.skip(1).len()));
        assert(calls_of(application, image_id, pending) =~= seq![
            call_of(application, image_id, pending[0]),
        ] + calls_of(application, image_id, pending.skip(1)));
    }
}

/// Carrying out pending actions of which one fails makes the calls up to
/// that one, none after it, and ends with the error of the failed call.
pub proof fn lemma_converging_aborts(
    application: Application,
    image_id: String,
    pending: Seq<Action>,
    done: nat,
    error: BackendError,
)
    requires
        done < pending.len(),
    ensures
        run(
            converging(application, image_id, pending),
            completions(done) + seq![Reply::Failed(error)],
        ) == (State::Finished { result: Err(ReconcileError::Backend(error)) }),
        calls(
            converging(application, image_id, pending),
            completions(done) + seq![Reply::Failed(error)],
        ) == calls_of(application, image_id, pending.take(done as int + 1)),
    decreases done,
{
    let state = converging(application, image_id, pending);
    let replies = completions(done) + seq![Reply::Failed(error)];
    let first = seq![call_of(application, image_id, pending[0])];
    if done == 0 {
        assert(replies =~= seq![Reply::Failed(error)] + Seq::<Reply>::empty());
        lemma_run_unfolds(state, Reply::Failed(error), Seq::<Reply>::empty());
        assert(calls_of(application, image_id, pending.take(1)) =~= first);
        assert(first + Seq::<Call>::empty() =~= first);
    } else {
        let rest = completions((done - 1) as nat) + seq![Reply::Failed(error)];
        lemma_converging_aborts(application, image_id, pending.skip(1), (done - 1) as nat, error);
        assert(replies =~= seq![Reply::Completed] + rest);
        lemma_run_unfolds(state, Reply::Completed, rest);
        assert(pending.take(done as int + 1).skip(1) =~= pending.skip(1).take(done as int));
        assert(calls_of(application, image_id, pending.take(done as int + 1)) =~= first + calls_of(
            application,
            image_id,
            pending.skip(1).take(done as int),
        ));
    }
}

/// A deploy in which every call succeeds registers the image, registers the
/// application under that image, makes the calls of its plan in order and
/// nothing else, and ends well.
pub proof fn law_deploy_carries_out_its_plan(
    application: Application,
    image_id: String,
    containers: Seq<Container>,
)
    ensures
        ({
            let plan = deploy_plan(containers, image_id@, application.wanted_replicas());
            let replies = seq![Reply::Image(image_id), Reply::Instances(containers)] + completions(
                plan.len(),
            );
            &&& run(begin(Event::Deploy(application)), replies) == (State::Finished {
                result: Ok(()),
            })
            &&& calls(begin(Event::Deploy(application)), replies) == seq![
                Call::RegisterImage { application },
                Call::RegisterApplication { application, image_id },
            ] + calls_of(application, image_id, plan)
        }),
{
    let plan = deploy_plan(containers, image_id@, application.wanted_replicas());
    let rest = completions(plan.len());
    let replies = seq![Reply::Image(image_id), Reply::Instances(containers)] + rest;
    let registering = State::RegisteringApplication { application, image_id };
    assert(replies =~= seq![Reply::Image(image_id)] + (seq![Reply::Instances(containers)] + rest));
    lemma_run_unfolds(
        begin(Event::Deploy(application)),
        Reply::Image(image_id),
        seq![Reply::Instances(containers)] + rest,
    );
    lemma_run_unfolds(registering, Reply::Instances(containers), rest);
    lemma_converging_succeeds(application, image_id, plan);
    assert(seq![Call::RegisterImage { application }] + (seq![
        Call::RegisterApplication { application, image_id },
    ] + calls_of(application, image_id, plan)) =~= seq![
        Call::RegisterImage { application },
        Call::RegisterApplication { application, image_id },
    ] + calls_of(application, image_id, plan));
}

/// A deploy in which an action of the plan fails makes no call after the
/// failed one and ends with its error; what was done before stays done.
pub proof fn law_deploy_aborts_on_failure(
    application: Application,
    image_id: String,
    containers: Seq<Container>,
    done: nat,
    error: BackendError,
)
    requires
        done < deploy_plan(containers, image_id@, application.wanted_replicas()).len(),
    ensures
        ({
            let plan = deploy_plan(containers, image_id@, application.wanted_replicas());
            let replies = seq![Reply::Image(image_id), Reply::Instances(containers)] + (completions(
                done,
            ) + seq![Reply::Failed(error)]);
            &&& run(begin(Event::Deploy(application)), replies) == (State::Finished {
                result: Err(ReconcileError::Backend(error)),
            })
            &&& calls(begin(Event::Deploy(application)), replies) == seq![
                Call::RegisterImage { application },
                Call::RegisterApplication { application, image_id },
            ] + calls_of(application, image_id, plan.take(done as int + 1))
        }),
{
    let plan = deploy_plan(containers, image_id@, application.wanted_replicas());
    let rest = completions(done) + seq![Reply::Failed(error)];
    let replies = seq![Reply::Image(image_id), Reply::Instances(containers)] + rest;
    let registering = State::RegisteringApplication { application, image_id };
    assert(replies =~= seq![Reply::Image(image_id)] + (seq![Reply::Instances(containers)] + rest));
    lemma_run_unfolds(
        begin(Event::Deploy(application)),
        Reply::Image(image_id),
        seq![Reply::Instances(containers)] + rest,
    );
    lemma_run_unfolds(registering, Reply::Instances(containers), rest);
    lemma_converging_aborts(application, image_id, plan, done, error);
    assert(seq![Call::RegisterImage { application }] + (seq![
        Call::RegisterApplication { application, image_id },
    ] + calls_of(application, image_id, plan.take(done as int + 1))) =~= seq![
        Call::RegisterImage { application },
        Call::RegisterApplication { application, image_id },
    ] + calls_of(application, image_id, plan.take(done as int + 1)));
}

/// The first failure is the error of a stop before which every stop
/// succeeded; there is none exactly when every stop succeeded.
pub proof fn lemma_first_failure(results: Seq<Result<(), BackendError>>)
    ensures
        match first_failure(results) {
            Some(error) => exists|at: int|
                0 <= at < results.len() && results[at] == Err::<(), BackendError>(error) && forall|
                    before: int,
                |
                    0 <= before < at ==> results[before] is Ok,
            None => forall|at: int| 0 <= at < results.len() ==> results[at] is Ok,
        },
    decreases results.len(),
{
    if results.len() > 0 {
        match results[0] {
            Err(error) => {
                assert(results[0] == Err::<(), BackendError>(error));
            },
            Ok(_) => {
                lemma_first_failure(results.skip(1));
                match first_failure(results.skip(1)) {
                    Some(error) => {
                        let at = choose|at: int|
                            0 <= at < results.skip(1).len() && results.skip(1)[at] == Err::<
                                (),
                                BackendError,
                            >(error) && forall|before: int|
                                0 <= before < at ==> results.skip(1)[before] is Ok;
                        assert(results[at + 1] == results.skip(1)[at]);
                        assert forall|before: int| 0 <= before < at + 1 implies results[before] is Ok by {
                            if before > 0 {
                                assert(results[before] == results.skip(1)[before - 1]);
                            }
                        }
                    },
                    None => {
                        assert forall|at: int| 0 <= at < results.len() implies results[at] is Ok by {
                            if at > 0 {
                                assert(results[at] == results.skip(1)[at - 1]);
                            }
                        }
                    },
                }
            },
        }
    }
}

/// A destroy of an application without a running instance fails with
/// `NotRunning` after the one call that lists the instances: whatever is
/// handed to the engine afterwards, it names no stop and no removal.
pub proof fn law_destroy_needs_an_instance(name: String, later: Seq<Reply>)
    ensures
        run(
            begin(Event::Destroy(name)),
            seq![Reply::Instances(Seq::<Container>::empty())] + later,
        ) == (State::Finished { result: Err(ReconcileError::NotRunning(name)) }),
        calls(
            begin(Event::Destroy(name)),
            seq![Reply::Instances(Seq::<Container>::empty())] + later,
        ) == seq![Call::Running { name }],
{
    let listed = Reply::Instances(Seq::<Container>::empty());
    lemma_run_unfolds(begin(Event::Destroy(name)), listed, later);
    lemma_finished_is_final(begin(Event::Destroy(name)).step(listed), later);
    assert(seq![Call::Running { name }] + Seq::<Call>::empty() =~= seq![Call::Running { name }]);
}

/// A destroy of an application with running instances has exactly those
/// instances stopped. If every stop succeeds, it removes the declaration
/// once and ends as the removal does.
pub proof fn law_destroy_stops_all_then_deletes(
    name: String,
    containers: Seq<Container>,
    results: Seq<Result<(), BackendError>>,
    removal: Reply,
)
    requires
        containers.len() > 0,
        results.len() == containers.len(),
        forall|at: int| 0 <= at < results.len() ==> results[at] is Ok,
        removal is Completed || removal is Failed,
    ensures
        ({
            let replies = seq![Reply::Instances(containers), Reply::Stops(results), removal];
            &&& calls(begin(Event::Destroy(name)), replies) == seq![
                Call::Running { name },
                Call::StopAll { name, containers },
                Call::DeleteApplication { name },
            ]
            &&& run(begin(Event::Destroy(name)), replies) == (State::Finished {
                result: match removal {
                    Reply::Failed(error) => Err(ReconcileError::Backend(error)),
                    _ => Ok(()),
                },
            })
        }),
{
    let replies = seq![Reply::Instances(containers), Reply::Stops(results), removal];
    let listing = begin(Event::Destroy(name));
    let stopping = State::Stopping { name, containers };
    let deleting = State::Deleting { name };
    lemma_first_failure(results);
    assert(replies =~= seq![Reply::Instances(containers)] + (seq![Reply::Stops(results)] + seq![
        removal,
    ]));
    lemma_run_unfolds(listing, Reply::Instances(containers), seq![Reply::Stops(results)] + seq![
        removal,
    ]);
    lemma_run_unfolds(stopping, Reply::Stops(results), seq![removal]);
    assert(seq![removal] =~= seq![removal] + Seq::<Reply>::empty());
    lemma_run_unfolds(deleting, removal, Seq::<Reply>::empty());
    assert(calls(begin(Event::Destroy(name)), replies) =~= seq![
        Call::Running { name },
        Call::StopAll { name, containers },
        Call::DeleteApplication { name },
    ]);
}

/// A destroy in which a stop fails still has every instance stopped that
/// can be, reports the first failure in the order of the instances, and
/// never removes the declaration, whatever it is handed afterwards.
pub proof fn law_destroy_keeps_declaration_on_failure(
    name: String,
    containers: Seq<Container>,
    results: Seq<Result<(), BackendError>>,
    later: Seq<Reply>,
)
    requires
        containers.len() > 0,
        results.len() == containers.len(),
        exists|at: int| 0 <= at < results.len() && results[at] is Err,
    ensures
        ({
            let replies = seq![Reply::Instances(containers), Reply::Stops(results)] + later;
            &&& first_failure(results) is Some
            &&& calls(begin(Event::Destroy(name)), replies) == seq![
                Call::Running { name },
                Call::StopAll { name, containers },
            ]
            &&& run(begin(Event::Destroy(name)), replies) == (State::Finished {
                result: Err(ReconcileError::Backend(first_failure(results).unwrap())),
            })
        }),
{
    let replies = seq![Reply::Instances(containers), Reply::Stops(results)] + later;
    let listing = begin(Event::Destroy(name));
    let stopping = State::Stopping { name, containers };
    lemma_first_failure(results);
    assert(replies =~= seq![Reply::Instances(containers)] + (seq![Reply::Stops(results)] + later));
    lemma_run_unfolds(listing, Reply::Instances(containers), seq![Reply::Stops(results)] + later);
    lemma_run_unfolds(stopping, Reply::Stops(results), later);
    lemma_finished_is_final(stopping.step(Reply::Stops(results)), later);
    assert(calls(begin(Event::Destroy(name)), replies) =~= seq![
        Call::Running { name },
        Call::StopAll { name, containers },
    ]);
}

/// The number of `start_instance` calls among the calls.
pub open spec fn starts_among(calls: Seq<Call>) -> nat
    decreases calls.len(),
{
    if calls.len() == 0 {
        0
    } else if calls.last() is StartInstance {
        starts_among(calls.drop_last()) + 1
    } else {
        starts_among(calls.drop_last())
    }
}

/// The instances that the `stop_instance` calls among the calls stop, in
/// the order of the calls.
pub open spec fn stops_among(calls: Seq<Call>) -> Seq<Container>
    decreases calls.len(),
{
    if calls.len() == 0 {
        Seq::empty()
    } else {
        match calls.last() {
            Call::StopInstance { container, .. } => stops_among(calls.drop_last()).push(container),
            _ => stops_among(calls.drop_last()),
        }
    }
}

/// Calls made before do not change what later calls start and stop.
pub proof fn lemma_calls_after_registration(first: Call, second: Call, rest: Seq<Call>)
    requires
        !(first is StartInstance) && !(first is StopInstance),
        !(second is StartInstance) && !(second is StopInstance),
    ensures
        starts_among(seq![first, second] + rest) == starts_among(rest),
        stops_among(seq![first, second] + rest) == stops_among(rest),
    decreases rest.len(),
{
    let all = seq![first, second] + rest;
    if rest.len() == 0 {
        reveal_with_fuel(starts_among, 3);
        reveal_with_fuel(stops_among, 3);
        assert(all.drop_last() =~= seq![first]);
        assert(all.drop_last().drop_last() =~= Seq::<Call>::empty());
    } else {
        lemma_calls_after_registration(first, second, rest.drop_last());
        assert(all.drop_last() =~= seq![first, second] + rest.drop_last());
        assert(all.last() == rest.last());
    }
}

/// The calls that carry out a plan start as often as the plan does and stop
/// the instances that the plan stops.
pub proof fn lemma_calls_of_plan(application: Application, image_id: String, plan: Seq<Action>)
    ensures
        starts_among(calls_of(application, image_id, plan)) == starts_in(plan),
        stops_among(calls_of(application, image_id, plan)) == stops_in(plan),
    decreases plan.len(),
{
    if plan.len() > 0 {
        lemma_calls_of_plan(application, image_id, plan.drop_last());
        assert(calls_of(application, image_id, plan).drop_last() =~= calls_of(
            application,
            image_id,
            plan.drop_last(),
        ));
    }
}

/// In a deploy in which every call succeeds, the backend is asked to start
/// as many instances as the plan has starts, and to stop exactly the
/// instances that the plan stops, in the plan's order. With the three laws
/// on the plan this says how many starts and which stops a deploy makes.
pub proof fn law_deploy_calls_follow_the_plan(
    application: Application,
    image_id: String,
    containers: Seq<Container>,
)
    ensures
        ({
            let plan = deploy_plan(containers, image_id@, application.wanted_replicas());
            let replies = seq![Reply::Image(image_id), Reply::Instances(containers)] + completions(
                plan.len(),
            );
            let made = calls(begin(Event::Deploy(application)), replies);
            &&& starts_among(made) == starts_in(plan)
            &&& stops_among(made) == stops_in(plan)
        }),
{
    let plan = deploy_plan(containers, image_id@, application.wanted_replicas());
    law_deploy_carries_out_its_plan(application, image_id, containers);
    lemma_calls_of_plan(application, image_id, plan);
    lemma_calls_after_registration(
        Call::RegisterImage { application },
        Call::RegisterApplication { application, image_id },
        calls_of(application, image_id, plan),
    );
}

} // verus!
