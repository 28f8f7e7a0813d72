//! The domain: what an application is and how its instances are reconciled.

pub mod engine;
pub mod laws;
pub mod model;
pub mod plan;
pub mod port;

pub use engine::Event;

use engine::{begin, Call, Command, Outcome, ReconcileError, Reconciliation, Reply, State};
use laws::{lemma_run_extends, run};
use model::Container;
use port::{BackendError, ContainerExecutor};
use vstd::prelude::*;

verus! {

/// The engine together with the backend it drives.
pub struct ReconciliationService<E: ContainerExecutor> {
    pub container_executor: E,
}

/// Whether the answer is one the call can have: the failure of the call, or
/// what the call yields when it succeeds. A `StopAll` yields one result for
/// each instance.
pub open spec fn answers(call: Call, reply: Reply) -> bool {
    match (call, reply) {
        (_, Reply::Failed(_)) => true,
        (Call::RegisterImage { .. }, Reply::Image(_)) => true,
        (Call::RegisterApplication { .. }, Reply::Instances(_)) => true,
        (Call::StartInstance { .. }, Reply::Completed) => true,
        (Call::StopInstance { .. }, Reply::Completed) => true,
        (Call::Running { .. }, Reply::Instances(_)) => true,
        (Call::StopAll { containers, .. }, Reply::Stops(results)) => results.len()
            == containers.len(),
        (Call::DeleteApplication { .. }, Reply::Completed) => true,
        _ => false,
    }
}

/// The answer to a call that yields a value, as the engine is handed it.
pub open spec fn reply_of<T>(answer: Result<T, BackendError>, reply: spec_fn(T) -> Reply) -> Reply {
    match answer {
        Ok(value) => reply(value),
        Err(error) => Reply::Failed(error),
    }
}

/// Whether the answer is what the backend gave to the call: what the
/// backend's own operation returned when it was called with the call's
/// arguments, handed on as it is. For a `StopAll`, each result is what the
/// backend's `stop_instance` returned for the instance at its place.
pub open spec fn given<E: ContainerExecutor>(executor: &E, call: Call, reply: Reply) -> bool {
    match call {
        Call::RegisterImage { application } => exists|answer: Result<String, BackendError>|
            #[trigger] call_ensures(E::register_image, (executor, &application), answer) && reply
                == reply_of(answer, |image_id: String| Reply::Image(image_id)),
        Call::RegisterApplication { application, image_id } => exists|
            answer: Result<Vec<Container>, BackendError>,
        |
            #[trigger] call_ensures(
                E::register_application,
                (executor, &application, image_id),
                answer,
            ) && reply == reply_of(
                answer,
                |containers: Vec<Container>| Reply::Instances(containers@),
            ),
        Call::StartInstance { application, image_id } => exists|
            answer: Result<Container, BackendError>,
        |
            #[trigger] call_ensures(E::start_instance, (executor, &application, image_id), answer)
                && reply == reply_of(answer, |container: Container| Reply::Completed),
        Call::StopInstance { name, container } => exists|answer: Result<(), BackendError>|
            #[trigger] call_ensures(E::stop_instance, (executor, name, &container), answer) && reply
                == reply_of(answer, |done: ()| Reply::Completed),
        Call::Running { name } => exists|answer: Result<Vec<Container>, BackendError>|
            #[trigger] call_ensures(E::running, (executor, name), answer) && reply == reply_of(
                answer,
                |containers: Vec<Container>| Reply::Instances(containers@),
            ),
        Call::StopAll { name, containers } => {
            &&& reply matches Reply::Stops(results)
            &&& stopped_each(executor, name, containers, results)
        },
        Call::DeleteApplication { name } => exists|answer: Result<(), BackendError>|
            #[trigger] call_ensures(E::delete_application, (executor, name), answer) && reply
                == reply_of(answer, |done: ()| Reply::Completed),
    }
}

/// Whether each result is what the backend's `stop_instance` returned for
/// the instance at its place.
pub open spec fn stopped_each<E: ContainerExecutor>(
    executor: &E,
    name: String,
    containers: Seq<Container>,
    results: Seq<Result<(), BackendError>>,
) -> bool {
    &&& results.len() == containers.len()
    &&& forall|i: int|
        0 <= i < containers.len() ==> call_ensures(
            E::stop_instance,
            (executor, name, &containers[i]),
            #[trigger] results[i],
        )
}

/// Whether each of the answers is what the backend gave to the call that
/// the engine names after the answers before it.
pub open spec fn handed<E: ContainerExecutor>(
    executor: &E,
    state: State,
    replies: Seq<Reply>,
) -> bool {
    forall|i: int|
        0 <= i < replies.len() ==> {
            &&& (#[trigger] run(state, replies.take(i))).call() is Some
            &&& given(executor, run(state, replies.take(i)).call().unwrap(), replies[i])
        }
}

/// What the backend gives to a call is an answer that the call can have.
pub proof fn lemma_given_answers<E: ContainerExecutor>(executor: &E, call: Call, reply: Reply)
    requires
        given(executor, call, reply),
    ensures
        answers(call, reply),
{
}

/// Whether the state differs from the end in which the engine was handed an
/// answer that does not fit.
pub open spec fn in_order(state: State) -> bool {
    !(state matches State::Finished { result: Err(ReconcileError::Unexpected) })
}

/// Every step brings a reachable state nearer to the end and leads to a
/// reachable state; an answer that fits the call never ends in `Unexpected`.
pub proof fn lemma_step_progress(state: State, reply: Reply)
    requires
        state.reachable(),
        !(state is Finished),
    ensures
        state.step(reply).reachable(),
        state.step(reply).distance().0 < state.distance().0 || (state.step(reply).distance().0
            == state.distance().0 && state.step(reply).distance().1 < state.distance().1),
        answers(state.call().unwrap(), reply) ==> in_order(state.step(reply)),
{
}

/// Stops every instance in turn, whatever the earlier stops answered.
fn stop_all<E: ContainerExecutor>(executor: &E, name: &String, containers: &Vec<Container>) -> (results:
    Vec<Result<(), BackendError>>)
    ensures
        stopped_each(executor, *name, containers@, results@),
{
    let mut results: Vec<Result<(), BackendError>> = Vec::new();
    let mut asked: usize = 0;
    while asked < containers.len()
        invariant
            asked <= containers.len(),
            stopped_each(executor, *name, containers@.take(asked as int), results@),
        decreases containers.len() - asked,
    {
        let stopped = executor.stop_instance(name.clone(), &containers[asked]);
        results.push(stopped);
        proof {
            let longer = containers@.take(asked + 1);
            assert forall|i: int| 0 <= i < longer.len() implies call_ensures(
                E::stop_instance,
                (executor, *name, &longer[i]),
                #[trigger] results@[i],
            ) by {
                if i < asked {
                    assert(longer[i] == containers@.take(asked as int)[i]);
                }
            }
        }
        asked = asked + 1;
    }
    proof {
        assert(containers@.take(asked as int) =~= containers@);
    }
    results
}

/// Makes the call at the backend and reports what it answered.
fn perform<E: ContainerExecutor>(executor: &E, command: Command<'_>) -> (outcome: Outcome)
    ensures
        given(executor, command@, outcome@),
{
    match command {
        Command::RegisterImage { application } => {
            let answer = executor.register_image(application);
            let ghost witness = answer;
            let outcome = match answer {
                Ok(image_id) => Outcome::Image(image_id),
                Err(error) => Outcome::Failed(error),
            };
            assert(call_ensures(E::register_image, (executor, application), witness) && outcome@
                == reply_of(witness, |image_id: String| Reply::Image(image_id)));
            outcome
        },
        Command::RegisterApplication { application, image_id } => {
            let answer = executor.register_application(application, image_id.clone());
            let ghost witness = answer;
            let outcome = match answer {
                Ok(containers) => Outcome::Instances(containers),
                Err(error) => Outcome::Failed(error),
            };
            assert(call_ensures(E::register_application, (executor, application, *image_id), witness)
                && outcome@ == reply_of(
                witness,
                |containers: Vec<Container>| Reply::Instances(containers@),
            ));
            outcome
        },
        Command::StartInstance { application, image_id } => {
            let answer = executor.start_instance(application, image_id.clone());
            let ghost witness = answer;
            let outcome = match answer {
                Ok(_) => Outcome::Completed,
                Err(error) => Outcome::Failed(error),
            };
            assert(call_ensures(E::start_instance, (executor, application, *image_id), witness)
                && outcome@ == reply_of(witness, |container: Container| Reply::Completed));
            outcome
        },
        Command::StopInstance { name, container } => {
            let answer = executor.stop_instance(name.clone(), container);
            let ghost witness = answer;
            let outcome = match answer {
                Ok(_) => Outcome::Completed,
                Err(error) => Outcome::Failed(error),
            };
            assert(call_ensures(E::stop_instance, (executor, *name, container), witness) && outcome@
                == reply_of(witness, |done: ()| Reply::Completed));
            outcome
        },
        Command::Running { name } => {
            let answer = executor.running(name.clone());
            let ghost witness = answer;
            let outcome = match answer {
                Ok(containers) => Outcome::Instances(containers),
                Err(error) => Outcome::Failed(error),
            };
            assert(call_ensures(E::running, (executor, *name), witness) && outcome@ == reply_of(
                witness,
                |containers: Vec<Container>| Reply::Instances(containers@),
            ));
            outcome
        },
        Command::StopAll { name, containers } => Outcome::Stops(
            stop_all(executor, name, containers),
        ),
        Command::DeleteApplication { name } => {
            let answer = executor.delete_application(name.clone());
            let ghost witness = answer;
            let outcome = match answer {
                Ok(_) => Outcome::Completed,
                Err(error) => Outcome::Failed(error),
            };
            assert(call_ensures(E::delete_application, (executor, *name), witness) && outcome@
                == reply_of(witness, |done: ()| Reply::Completed));
            outcome
        },
    }
}

/// Processes one event to its end against the backend of the service: makes
/// each call the engine names, one after the other, and hands the answer
/// back, until the engine is done.
///
/// Nothing can be said beforehand of what the backend answers. What is
/// returned is what the engine concludes from the answers the backend gave:
/// there are answers, each one what the backend's own operation returned to
/// the call that the engine named at that point, over which the event's
/// start state reaches the result. The engine is never handed an answer
/// that does not fit, so the result is never `Unexpected`.
pub fn reconcile<E: ContainerExecutor>(event: Event, service: &ReconciliationService<E>) -> (result:
    Result<(), ReconcileError>)
    ensures
        !(result matches Err(ReconcileError::Unexpected)),
        exists|replies: Seq<Reply>|
            handed(&service.container_executor, begin(event), replies) && run(
                begin(event),
                replies,
            ) == (State::Finished { result }),
{
    let mut state = Reconciliation::start(event);
    let ghost mut replies: Seq<Reply> = Seq::empty();
    loop
        invariant
            state@.reachable(),
            in_order(state@),
            run(begin(event), replies) == state@,
            handed(&service.container_executor, begin(event), replies),
        ensures
            state@ is Finished,
            in_order(state@),
            run(begin(event), replies) == state@,
            handed(&service.container_executor, begin(event), replies),
        decreases state@.distance().0, state@.distance().1,
    {
        let outcome = match state.command() {
            Some(command) => perform(&service.container_executor, command),
            None => {
                break ;
            },
        };
        proof {
            lemma_given_answers(&service.container_executor, state@.call().unwrap(), outcome@);
            lemma_step_progress(state@, outcome@);
            lemma_run_extends(begin(event), replies, outcome@);
            let longer = replies.push(outcome@);
            assert forall|i: int| 0 <= i < longer.len() implies {
                &&& (#[trigger] run(begin(event), longer.take(i))).call() is Some
                &&& given(
                    &service.container_executor,
                    run(begin(event), longer.take(i)).call().unwrap(),
                    longer[i],
                )
            } by {
                if i < replies.len() {
                    assert(longer.take(i) =~= replies.take(i));
                } else {
                    assert(longer.take(i) =~= replies);
                }
            }
            replies = longer;
        }
        state = state.advance(outcome);
    }
    match state.result() {
        Some(result) => result,
        None => Err(ReconcileError::Unexpected),
    }
}

/// Names the applications that the backend of the service knows: asks the
/// backend once and passes its answer on as it is, names or failure. Whatever
/// the backend's own `list_applications` promises of its answer holds of
/// what is returned.
pub fn list_applications<E: ContainerExecutor>(service: &ReconciliationService<E>) -> (names: Result<
    Vec<String>,
    BackendError,
>)
    ensures
        call_ensures(E::list_applications, (&service.container_executor,), names),
{
    service.container_executor.list_applications()
}

} // verus!
