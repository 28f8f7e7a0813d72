//! The reconciliation engine.
//!
//! The engine decides and never acts: it names the next call to make at the
//! backend, is handed what the backend answered, and moves on. Whoever drives
//! it makes the calls, in whatever way suits them. The engine keeps nothing
//! between two events.

use super::model::{Application, Container};
use super::plan::{deploy_plan, plan_deploy, Action};
use super::port::BackendError;
use vstd::prelude::*;
use vstd::string::StringExecFns;

verus! {

/// The unit of work handed to the engine.
#[derive(Debug, PartialEq, Eq)]
pub enum Event {
    /// Converge the instances of the application toward its declaration.
    Deploy(Application),
    /// Stop every instance of the named application and remove its declaration.
    Destroy(String),
}

/// Why a reconciliation failed.
#[derive(Debug, PartialEq, Eq)]
pub enum ReconcileError {
    /// A call at the backend failed; its error is passed on unchanged.
    Backend(BackendError),
    /// The application to destroy has no running instance.
    NotRunning(String),
    /// The engine was handed something that cannot answer the call it asked for.
    Unexpected,
}

impl Clone for ReconcileError {
    fn clone(&self) -> (copy: Self)
        ensures
            copy == *self,
    {
        match self {
            ReconcileError::Backend(error) => ReconcileError::Backend(error.clone()),
            ReconcileError::NotRunning(name) => ReconcileError::NotRunning(name.clone()),
            ReconcileError::Unexpected => ReconcileError::Unexpected,
        }
    }
}

impl ReconcileError {
    /// The description of the failure.
    pub open spec fn text(&self) -> Seq<char> {
        match self {
            ReconcileError::Backend(error) => error.message@,
            ReconcileError::NotRunning(name) => "Application "@ + name@ + " is not running"@,
            ReconcileError::Unexpected => "The answer does not fit the call that was made"@,
        }
    }

    /// The description of the failure, as shown to whoever sent the event.
    pub fn message(&self) -> (text: String)
        ensures
            text@ == self.text(),
    {
        match self {
            ReconcileError::Backend(error) => error.message.clone(),
            ReconcileError::NotRunning(name) => {
                String::from_str("Application ").concat(name.as_str()).concat(" is not running")
            },
            ReconcileError::Unexpected => String::from_str(
                "The answer does not fit the call that was made",
            ),
        }
    }
}

/// A call for the driver to make at the backend, with its arguments.
#[derive(Debug, PartialEq, Eq)]
pub enum Command<'a> {
    RegisterImage { application: &'a Application },
    RegisterApplication { application: &'a Application, image_id: &'a String },
    StartInstance { application: &'a Application, image_id: &'a String },
    StopInstance { name: &'a String, container: &'a Container },
    Running { name: &'a String },
    /// Stop every listed instance, in any order or all at once, and report
    /// how each stop went, in the order of the list.
    StopAll { name: &'a String, containers: &'a Vec<Container> },
    DeleteApplication { name: &'a String },
}

/// What the backend answered to a call.
#[derive(Debug, PartialEq, Eq)]
pub enum Outcome {
    /// The image was registered under this identifier.
    Image(String),
    /// These instances are running.
    Instances(Vec<Container>),
    /// The start, stop or removal was done.
    Completed,
    /// How each stop of a `StopAll` went.
    Stops(Vec<Result<(), BackendError>>),
    /// The call failed.
    Failed(BackendError),
}

/// Where a reconciliation stands. Each state but the last awaits the answer
/// to one call.
#[derive(Debug, PartialEq, Eq)]
pub enum Reconciliation {
    RegisteringImage { application: Application },
    RegisteringApplication { application: Application, image_id: String },
    /// Carrying out the deploy; the first pending action is under way.
    Converging { application: Application, image_id: String, pending: Vec<Action> },
    Listing { name: String },
    Stopping { name: String, containers: Vec<Container> },
    Deleting { name: String },
    Finished { result: Result<(), ReconcileError> },
}

/// A call with its arguments, as contracts speak of it.
pub enum Call {
    RegisterImage { application: Application },
    RegisterApplication { application: Application, image_id: String },
    StartInstance { application: Application, image_id: String },
    StopInstance { name: String, container: Container },
    Running { name: String },
    StopAll { name: String, containers: Seq<Container> },
    DeleteApplication { name: String },
}

/// An answer, as contracts speak of it.
pub enum Reply {
    Image(String),
    Instances(Seq<Container>),
    Completed,
    Stops(Seq<Result<(), BackendError>>),
    Failed(BackendError),
}

/// A state of the engine, as contracts speak of it.
pub enum State {
    RegisteringImage { application: Application },
    RegisteringApplication { application: Application, image_id: String },
    Converging { application: Application, image_id: String, pending: Seq<Action> },
    Listing { name: String },
    Stopping { name: String, containers: Seq<Container> },
    Deleting { name: String },
    Finished { result: Result<(), ReconcileError> },
}

impl<'a> View for Command<'a> {
    type V = Call;

    open spec fn view(&self) -> Call {
        match *self {
            Command::RegisterImage { application } => Call::RegisterImage {
                application: *application,
            },
            Command::RegisterApplication { application, image_id } => Call::RegisterApplication {
                application: *application,
                image_id: *image_id,
            },
            Command::StartInstance { application, image_id } => Call::StartInstance {
                application: *application,
                image_id: *image_id,
            },
            Command::StopInstance { name, container } => Call::StopInstance {
                name: *name,
                container: *container,
            },
            Command::Running { name } => Call::Running { name: *name },
            Command::StopAll { name, containers } => Call::StopAll {
                name: *name,
                containers: containers@,
            },
            Command::DeleteApplication { name } => Call::DeleteApplication { name: *name },
        }
    }
}

impl View for Outcome {
    type V = Reply;

    open spec fn view(&self) -> Reply {
        match *self {
            Outcome::Image(image_id) => Reply::Image(image_id),
            Outcome::Instances(containers) => Reply::Instances(containers@),
            Outcome::Completed => Reply::Completed,
            Outcome::Stops(results) => Reply::Stops(results@),
            Outcome::Failed(error) => Reply::Failed(error),
        }
    }
}

impl View for Reconciliation {
    type V = State;

    open spec fn view(&self) -> State {
        match *self {
            Reconciliation::RegisteringImage { application } => State::RegisteringImage {
                application,
            },
            Reconciliation::RegisteringApplication {
                application,
                image_id,
            } => State::RegisteringApplication { application, image_id },
            Reconciliation::Converging { application, image_id, pending } => State::Converging {
                application,
                image_id,
                pending: pending@,
            },
            Reconciliation::Listing { name } => State::Listing { name },
            Reconciliation::Stopping { name, containers } => State::Stopping {
                name,
                containers: containers@,
            },
            Reconciliation::Deleting { name } => State::Deleting { name },
            Reconciliation::Finished { result } => State::Finished { result },
        }
    }
}

/// The error of the first stop that failed, if any did.
pub open spec fn first_failure(results: Seq<Result<(), BackendError>>) -> Option<BackendError>
    decreases results.len(),
{
    if results.len() == 0 {
        None
    } else {
        match results[0] {
            Err(error) => Some(error),
            Ok(_) => first_failure(results.skip(1)),
        }
    }
}

/// The call that carries out an action of a deploy.
pub open spec fn call_of(application: Application, image_id: String, action: Action) -> Call {
    match action {
        Action::Start => Call::StartInstance { application, image_id },
        Action::Stop(container) => Call::StopInstance { name: application.name, container },
    }
}

/// The state in which the given actions of a deploy are left to do.
pub open spec fn converging(application: Application, image_id: String, pending: Seq<Action>) -> State {
    if pending.len() == 0 {
        State::Finished { result: Ok(()) }
    } else {
        State::Converging { application, image_id, pending }
    }
}

/// The state after all stops of a destroy were attempted.
pub open spec fn after_stops(name: String, awaited: nat, results: Seq<Result<(), BackendError>>) -> State {
    if results.len() != awaited {
        State::Finished { result: Err(ReconcileError::Unexpected) }
    } else {
        match first_failure(results) {
            Some(error) => State::Finished { result: Err(ReconcileError::Backend(error)) },
            None => State::Deleting { name },
        }
    }
}

/// The state an event starts in.
pub open spec fn begin(event: Event) -> State {
    match event {
        Event::Deploy(application) => State::RegisteringImage { application },
        Event::Destroy(name) => State::Listing { name },
    }
}

impl State {
    /// The call whose answer the state awaits; none once finished.
    pub open spec fn call(self) -> Option<Call> {
        match self {
            State::RegisteringImage { application } => Some(Call::RegisterImage { application }),
            State::RegisteringApplication { application, image_id } => Some(
                Call::RegisterApplication { application, image_id },
            ),
            State::Converging { application, image_id, pending } => if pending.len() > 0 {
                Some(call_of(application, image_id, pending[0]))
            } else {
                None
            },
            State::Listing { name } => Some(Call::Running { name }),
            State::Stopping { name, containers } => Some(Call::StopAll { name, containers }),
            State::Deleting { name } => Some(Call::DeleteApplication { name }),
            State::Finished { .. } => None,
        }
    }

    /// The state after the awaited call was answered.
    ///
    /// A failed call ends the reconciliation with the backend's error, and
    /// nothing done before is undone. A deploy registers the image, then the
    /// application, then carries out its plan one action after the other. A
    /// destroy lists the instances, fails if there is none, has all of them
    /// stopped, and removes the declaration only if every stop succeeded;
    /// otherwise it reports the first stop that failed.
    pub open spec fn step(self, reply: Reply) -> State {
        match (self, reply) {
            (State::Finished { .. }, _) => self,
            (_, Reply::Failed(error)) => State::Finished {
                result: Err(ReconcileError::Backend(error)),
            },
            (
                State::RegisteringImage { application },
                Reply::Image(image_id),
            ) => State::RegisteringApplication { application, image_id },
            (
                State::RegisteringApplication { application, image_id },
                Reply::Instances(containers),
            ) => converging(
                application,
                image_id,
                deploy_plan(containers, image_id@, application.wanted_replicas()),
            ),
            (
                State::Converging { application, image_id, pending },
                Reply::Completed,
            ) => if pending.len() > 0 {
                converging(application, image_id, pending.skip(1))
            } else {
                State::Finished { result: Ok(()) }
            },
            (State::Listing { name }, Reply::Instances(containers)) => if containers.len() == 0 {
                State::Finished { result: Err(ReconcileError::NotRunning(name)) }
            } else {
                State::Stopping { name, containers }
            },
            (State::Stopping { name, containers }, Reply::Stops(results)) => after_stops(
                name,
                containers.len(),
                results,
            ),
            (State::Deleting { .. }, Reply::Completed) => State::Finished { result: Ok(()) },
            _ => State::Finished { result: Err(ReconcileError::Unexpected) },
        }
    }

    /// Whether the state is one the engine itself can reach: a deploy under
    /// way has an action pending, a destroy under way has instances to stop.
    pub open spec fn reachable(self) -> bool {
        match self {
            State::Converging { pending, .. } => pending.len() > 0,
            State::Stopping { containers, .. } => containers.len() > 0,
            _ => true,
        }
    }

    /// How far the state is from the end, at most: the stage, and within a
    /// deploy under way the number of actions pending.
    pub open spec fn distance(self) -> (nat, nat) {
        match self {
            State::RegisteringImage { .. } => (4, 0),
            State::RegisteringApplication { .. } => (3, 0),
            State::Converging { pending, .. } => (2, pending.len()),
            State::Listing { .. } => (4, 0),
            State::Stopping { .. } => (3, 0),
            State::Deleting { .. } => (2, 0),
            State::Finished { .. } => (0, 0),
        }
    }
}

/// The error of the first stop that failed, if any did.
pub fn find_first_failure(results: &Vec<Result<(), BackendError>>) -> (failure: Option<BackendError>)
    ensures
        failure == first_failure(results@),
{
    let mut checked: usize = 0;
    proof {
        assert(results@.skip(0) =~= results@);
    }
    while checked < results.len()
        invariant
            checked <= results.len(),
            first_failure(results@) == first_failure(results@.skip(checked as int)),
        decreases results.len() - checked,
    {
        proof {
            assert(results@.skip(checked as int).skip(1) =~= results@.skip(checked + 1));
        }
        match &results[checked] {
            Err(error) => {
                return Some(error.clone());
            },
            Ok(_) => {},
        }
        checked = checked + 1;
    }
    None
}

impl Reconciliation {
    /// Takes up an event.
    pub fn start(event: Event) -> (state: Reconciliation)
        ensures
            state@ == begin(event),
            state@.reachable(),
    {
        match event {
            Event::Deploy(application) => Reconciliation::RegisteringImage { application },
            Event::Destroy(name) => Reconciliation::Listing { name },
        }
    }

    /// The call to make next, or `None` when the reconciliation is over.
    pub fn command(&self) -> (command: Option<Command<'_>>)
        ensures
            match command {
                Some(command) => self@.call() == Some(command@),
                None => self@.call() is None,
            },
    {
        match self {
            Reconciliation::RegisteringImage { application } => Some(
                Command::RegisterImage { application },
            ),
            Reconciliation::RegisteringApplication { application, image_id } => Some(
                Command::RegisterApplication { application, image_id },
            ),
            Reconciliation::Converging { application, image_id, pending } => {
                if pending.len() > 0 {
                    match &pending[0] {
                        Action::Start => Some(Command::StartInstance { application, image_id }),
                        Action::Stop(container) => Some(
                            Command::StopInstance { name: &application.name, container },
                        ),
                    }
                } else {
                    None
                }
            },
            Reconciliation::Listing { name } => Some(Command::Running { name }),
            Reconciliation::Stopping { name, containers } => Some(
                Command::StopAll { name, containers },
            ),
            Reconciliation::Deleting { name } => Some(Command::DeleteApplication { name }),
            Reconciliation::Finished { .. } => None,
        }
    }

    /// Takes the answer to the call that `command` named and moves on.
    pub fn advance(self, outcome: Outcome) -> (next: Reconciliation)
        ensures
            next@ == self@.step(outcome@),
    {
        match (self, outcome) {
            (Reconciliation::Finished { result }, _) => Reconciliation::Finished { result },
            (_, Outcome::Failed(error)) => Reconciliation::Finished {
                result: Err(ReconcileError::Backend(error)),
            },
            (
                Reconciliation::RegisteringImage { application },
                Outcome::Image(image_id),
            ) => Reconciliation::RegisteringApplication { application, image_id },
            (
                Reconciliation::RegisteringApplication { application, image_id },
                Outcome::Instances(containers),
            ) => {
                let pending = plan_deploy(&application, &image_id, containers);
                Self::converge(application, image_id, pending)
            },
            (
                Reconciliation::Converging { application, image_id, pending },
                Outcome::Completed,
            ) => {
                let mut pending = pending;
                if pending.len() > 0 {
                    pending.remove(0);
                    proof {
                        assert(pending@ =~= self@->Converging_pending.skip(1));
                    }
                }
                Self::converge(application, image_id, pending)
            },
            (Reconciliation::Listing { name }, Outcome::Instances(containers)) => {
                if containers.len() == 0 {
                    Reconciliation::Finished { result: Err(ReconcileError::NotRunning(name)) }
                } else {
                    Reconciliation::Stopping { name, containers }
                }
            },
            (Reconciliation::Stopping { name, containers }, Outcome::Stops(results)) => {
                if results.len() != containers.len() {
                    Reconciliation::Finished { result: Err(ReconcileError::Unexpected) }
                } else {
                    match find_first_failure(&results) {
                        Some(error) => Reconciliation::Finished {
                            result: Err(ReconcileError::Backend(error)),
                        },
                        None => Reconciliation::Deleting { name },
                    }
                }
            },
            (Reconciliation::Deleting { .. }, Outcome::Completed) => Reconciliation::Finished {
                result: Ok(()),
            },
            _ => Reconciliation::Finished { result: Err(ReconcileError::Unexpected) },
        }
    }

    fn converge(application: Application, image_id: String, pending: Vec<Action>) -> (state:
        Reconciliation)
        ensures
            state@ == converging(application, image_id, pending@),
    {
        if pending.len() == 0 {
            Reconciliation::Finished { result: Ok(()) }
        } else {
            Reconciliation::Converging { application, image_id, pending }
        }
    }

    /// How the reconciliation ended, once it has.
    pub fn result(&self) -> (result: Option<Result<(), ReconcileError>>)
        ensures
            match self@ {
                State::Finished { result: ended } => result == Some(ended),
                _ => result is None,
            },
    {
        match self {
            Reconciliation::Finished { result } => match result {
                Ok(done) => Some(Ok(*done)),
                Err(error) => Some(Err(error.clone())),
            },
            _ => None,
        }
    }
}

} // verus!
