//! What a deploy does to the instances of an application.
//!
//! Once the image is registered and the backend has reported the instances,
//! everything a deploy does is fixed: a list of starts and stops, carried out
//! in order until one fails. This module computes that list.

use super::model::{Application, Container};
use split_iter::Splittable;
use vstd::prelude::*;

verus! {

/// One step of a deploy.
#[derive(Debug, PartialEq, Eq)]
pub enum Action {
    /// Start one new instance from the registered image.
    Start,
    /// Stop and remove this instance.
    Stop(Container),
}

impl Clone for Action {
    fn clone(&self) -> (copy: Self)
        ensures
            copy == *self,
    {
        match self {
            Action::Start => Action::Start,
            Action::Stop(container) => Action::Stop(container.clone()),
        }
    }
}

/// The instances that run the given image, in the order reported.
pub open spec fn current_of(containers: Seq<Container>, image_id: Seq<char>) -> Seq<Container> {
    containers.filter(|container: Container| container.runs(image_id))
}

/// The instances that run any other image, in the order reported.
pub open spec fn outdated_of(containers: Seq<Container>, image_id: Seq<char>) -> Seq<Container> {
    containers.filter(|container: Container| !container.runs(image_id))
}

/// One stop for each of the given instances, in their order.
pub open spec fn stops_of(containers: Seq<Container>) -> Seq<Action> {
    containers.map_values(|container: Container| Action::Stop(container))
}

/// The rolling replacement: each instance still needed is a start, followed
/// at once by the stop of the next outdated instance while any is left; the
/// outdated instances left when nothing more is needed are stopped after.
pub open spec fn scale_up(needed: nat, outdated: Seq<Container>) -> Seq<Action>
    decreases needed + outdated.len(),
{
    if needed > 0 && outdated.len() > 0 {
        seq![Action::Start, Action::Stop(outdated[0])] + scale_up(
            (needed - 1) as nat,
            outdated.skip(1),
        )
    } else if needed > 0 {
        seq![Action::Start] + scale_up((needed - 1) as nat, outdated)
    } else if outdated.len() > 0 {
        seq![Action::Stop(outdated[0])] + scale_up(0, outdated.skip(1))
    } else {
        Seq::empty()
    }
}

/// The sequence with one more instance, put behind every instance that is
/// not younger than it.
pub open spec fn insert_by_age(sorted: Seq<Container>, container: Container) -> Seq<Container>
    decreases sorted.len(),
{
    if sorted.len() == 0 {
        seq![container]
    } else if sorted.last().started_at <= container.started_at {
        sorted.push(container)
    } else {
        insert_by_age(sorted.drop_last(), container).push(sorted.last())
    }
}

/// The instances from oldest to youngest; instances of the same age keep
/// the order they were reported in.
pub open spec fn oldest_first(containers: Seq<Container>) -> Seq<Container>
    decreases containers.len(),
{
    if containers.len() == 0 {
        Seq::empty()
    } else {
        insert_by_age(oldest_first(containers.drop_last()), containers.last())
    }
}

/// The downscale: the oldest `surplus` instances are stopped, oldest first.
pub open spec fn scale_down(surplus: nat, current: Seq<Container>) -> Seq<Action> {
    stops_of(oldest_first(current).take(surplus as int))
}

/// The steps of a deploy that found `containers` running after registering
/// `image_id`, for an application that wants `target` instances.
pub open spec fn deploy_plan(containers: Seq<Container>, image_id: Seq<char>, target: nat) -> Seq<
    Action,
> {
    let current = current_of(containers, image_id);
    let outdated = outdated_of(containers, image_id);
    if target > current.len() {
        scale_up((target - current.len()) as nat, outdated)
    } else if target == current.len() {
        Seq::empty()
    } else {
        scale_down((current.len() - target) as nat, current)
    }
}

/// Calls `split` of the split_iter crate on the instances, with the test
/// whether an instance runs the image as its predicate. The contract claims
/// what the crate documents: the left iterator yields the items for which
/// the predicate is false and the right one those for which it is true, each
/// in the order of the input. The left one is drained first.
#[verifier::external_body]
fn split_by_image(containers: Vec<Container>, image_id: &String) -> (parts: (
    Vec<Container>,
    Vec<Container>,
))
    ensures
        parts.0@ == outdated_of(containers@, image_id@),
        parts.1@ == current_of(containers@, image_id@),
{
    let (outdated, current) = containers.into_iter().split(
        |container| container.runs_image(image_id),
    );
    (outdated.collect(), current.collect())
}

/// Putting an instance at the place where every later instance is younger
/// and the one before, if any, is not, is inserting it by age.
pub proof fn lemma_insert_at(sorted: Seq<Container>, container: Container, place: int)
    requires
        0 <= place <= sorted.len(),
        forall|j: int| place <= j < sorted.len() ==> sorted[j].started_at > container.started_at,
        place > 0 ==> sorted[place - 1].started_at <= container.started_at,
    ensures
        insert_by_age(sorted, container) == sorted.insert(place, container),
    decreases sorted.len(),
{
    if sorted.len() == 0 {
        assert(sorted.insert(place, container) =~= seq![container]);
    } else if place == sorted.len() {
        assert(sorted.insert(place, container) =~= sorted.push(container));
    } else {
        lemma_insert_at(sorted.drop_last(), container, place);
        assert(sorted.insert(place, container) =~= sorted.drop_last().insert(
            place,
            container,
        ).push(sorted.last()));
    }
}

/// The instances from oldest to youngest, in a list of their own. Instances
/// of the same age keep their order.
pub fn sort_oldest_first(containers: &Vec<Container>) -> (sorted: Vec<Container>)
    ensures
        sorted@ == oldest_first(containers@),
{
    let mut sorted: Vec<Container> = Vec::new();
    let mut taken: usize = 0;
    while taken < containers.len()
        invariant
            taken <= containers.len(),
            sorted@ == oldest_first(containers@.take(taken as int)),
        decreases containers.len() - taken,
    {
        let container = containers[taken].clone();
        let mut place: usize = sorted.len();
        while place > 0 && sorted[place - 1].started_at > container.started_at
            invariant
                place <= sorted.len(),
                forall|j: int|
                    place <= j < sorted.len() ==> sorted[j].started_at > container.started_at,
            decreases place,
        {
            place = place - 1;
        }
        proof {
            lemma_insert_at(sorted@, container, place as int);
            let next = containers@.take(taken + 1);
            assert(next.drop_last() =~= containers@.take(taken as int));
            assert(next.last() == container);
        }
        sorted.insert(place, container);
        taken = taken + 1;
    }
    proof {
        assert(containers@.take(taken as int) =~= containers@);
    }
    sorted
}

/// The steps of the rolling replacement, for `needed` more instances.
fn plan_scale_up(needed: usize, outdated: &Vec<Container>) -> (plan: Vec<Action>)
    ensures
        plan@ == scale_up(needed as nat, outdated@),
{
    let mut plan: Vec<Action> = Vec::new();
    let mut started: usize = 0;
    let mut stopped: usize = 0;
    proof {
        assert(outdated@.skip(0) =~= outdated@);
        assert(plan@ + scale_up(needed as nat, outdated@) =~= scale_up(needed as nat, outdated@));
    }
    while started < needed
        invariant
            started <= needed,
            stopped <= outdated.len(),
            plan@ + scale_up((needed - started) as nat, outdated@.skip(stopped as int))
                == scale_up(needed as nat, outdated@),
        decreases needed - started,
    {
        let ghost rest = outdated@.skip(stopped as int);
        let ghost before = plan@;
        plan.push(Action::Start);
        if stopped < outdated.len() {
            plan.push(Action::Stop(outdated[stopped].clone()));
            proof {
                assert(rest.skip(1) =~= outdated@.skip(stopped + 1));
                assert(plan@ =~= before + seq![Action::Start, Action::Stop(rest[0])]);
                assert(plan@ + scale_up((needed - started - 1) as nat, rest.skip(1)) =~= before
                    + scale_up((needed - started) as nat, rest));
            }
            stopped = stopped + 1;
        } else {
            proof {
                assert(plan@ =~= before + seq![Action::Start]);
                assert(plan@ + scale_up((needed - started - 1) as nat, rest) =~= before
                    + scale_up((needed - started) as nat, rest));
            }
        }
        started = started + 1;
    }
    while stopped < outdated.len()
        invariant
            stopped <= outdated.len(),
            plan@ + scale_up(0, outdated@.skip(stopped as int)) == scale_up(
                needed as nat,
                outdated@,
            ),
        decreases outdated.len() - stopped,
    {
        let ghost rest = outdated@.skip(stopped as int);
        let ghost before = plan@;
        plan.push(Action::Stop(outdated[stopped].clone()));
        proof {
            assert(rest.skip(1) =~= outdated@.skip(stopped + 1));
            assert(plan@ =~= before + seq![Action::Stop(rest[0])]);
            assert(plan@ + scale_up(0, rest.skip(1)) =~= before + scale_up(0, rest));
        }
        stopped = stopped + 1;
    }
    proof {
        assert(plan@ + Seq::<Action>::empty() =~= plan@);
    }
    plan
}

/// The steps of the downscale, which stops `surplus` instances.
fn plan_scale_down(surplus: usize, current: &Vec<Container>) -> (plan: Vec<Action>)
    requires
        surplus <= current.len(),
    ensures
        plan@ == scale_down(surplus as nat, current@),
{
    let sorted = sort_oldest_first(current);
    proof {
        lemma_oldest_first_len(current@);
    }
    let mut plan: Vec<Action> = Vec::new();
    let mut stopped: usize = 0;
    while stopped < surplus
        invariant
            stopped <= surplus <= sorted.len(),
            plan@ == stops_of(sorted@.take(stopped as int)),
        decreases surplus - stopped,
    {
        plan.push(Action::Stop(sorted[stopped].clone()));
        proof {
            assert(plan@ =~= stops_of(sorted@.take(stopped + 1)));
        }
        stopped = stopped + 1;
    }
    plan
}

/// Sorting by age keeps the number of instances.
pub proof fn lemma_oldest_first_len(containers: Seq<Container>)
    ensures
        oldest_first(containers).len() == containers.len(),
    decreases containers.len(),
{
    if containers.len() > 0 {
        lemma_oldest_first_len(containers.drop_last());
        lemma_insert_by_age_len(oldest_first(containers.drop_last()), containers.last());
    }
}

/// Inserting by age adds exactly one instance.
pub proof fn lemma_insert_by_age_len(sorted: Seq<Container>, container: Container)
    ensures
        insert_by_age(sorted, container).len() == sorted.len() + 1,
    decreases sorted.len(),
{
    if sorted.len() > 0 && sorted.last().started_at > container.started_at {
        lemma_insert_by_age_len(sorted.drop_last(), container);
    }
}

/// Decides what a deploy does, from what the backend reported after the
/// image was registered.
///
/// The instances that do not run `image_id` are outdated. With fewer current
/// instances than the application wants, the missing ones are started and
/// the outdated ones stopped, one after each start and the rest at the end.
/// With exactly as many, nothing is done, outdated instances or not. With
/// more, the oldest surplus instances are stopped and the outdated ones are
/// left alone.
pub fn plan_deploy(application: &Application, image_id: &String, containers: Vec<Container>) -> (plan:
    Vec<Action>)
    ensures
        plan@ == deploy_plan(containers@, image_id@, application.wanted_replicas()),
{
    let (outdated, current) = split_by_image(containers, image_id);
    let target: usize = application.replicas() as usize;
    if target > current.len() {
        plan_scale_up(target - current.len(), &outdated)
    } else if target == current.len() {
        Vec::new()
    } else {
        plan_scale_down(current.len() - target, &current)
    }
}

} // verus!
