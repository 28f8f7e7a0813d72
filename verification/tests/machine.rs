use cleverclown::domain::engine::{
    find_first_failure, Command, Event, Outcome, ReconcileError, Reconciliation,
};
use cleverclown::domain::model::{Application, ApplicationConfig, ApplicationSource, Container};
use cleverclown::domain::plan::Action;
use cleverclown::domain::port::BackendError;

fn text(value: &str) -> String {
    value.to_string()
}

fn failure(message: &str) -> BackendError {
    BackendError { message: text(message) }
}

fn instance(id: &str, started_at: u64, image_id: &str) -> Container {
    Container { id: text(id), started_at, image_id: text(image_id) }
}

fn app(replicas: u8) -> Application {
    Application {
        name: text("web"),
        source: ApplicationSource::DockerImage { image: text("nginx"), pull: false },
        configuration: Some(ApplicationConfig {
            domain: None,
            exposed_port: None,
            replicas: Some(replicas),
        }),
    }
}

fn failed(message: &str) -> Reconciliation {
    Reconciliation::Finished { result: Err(ReconcileError::Backend(failure(message))) }
}

#[test]
fn a_failed_image_registration_ends_the_deploy() {
    let state = Reconciliation::start(Event::Deploy(app(1)));
    let state = state.advance(Outcome::Failed(failure("no such image")));
    assert_eq!(state, failed("no such image"));
    assert_eq!(state.command(), None);
}

#[test]
fn a_failed_application_registration_ends_the_deploy() {
    let state = Reconciliation::start(Event::Deploy(app(1)));
    let state = state.advance(Outcome::Image(text("i")));
    let state = state.advance(Outcome::Failed(failure("refused")));
    assert_eq!(state.result(), Some(Err(ReconcileError::Backend(failure("refused")))));
}

#[test]
fn a_failed_start_leaves_the_rest_undone() {
    let old = instance("old", 1, "h");
    let state = Reconciliation::start(Event::Deploy(app(2)));
    let state = state.advance(Outcome::Image(text("i")));
    let state = state.advance(Outcome::Instances(vec![old.clone()]));
    assert_eq!(
        state,
        Reconciliation::Converging {
            application: app(2),
            image_id: text("i"),
            pending: vec![Action::Start, Action::Stop(old), Action::Start],
        }
    );
    let state = state.advance(Outcome::Failed(failure("no room")));
    assert_eq!(state, failed("no room"));
}

#[test]
fn a_failed_stop_leaves_the_rest_undone() {
    let state = Reconciliation::start(Event::Deploy(app(0)));
    let state = state.advance(Outcome::Image(text("i")));
    let state =
        state.advance(Outcome::Instances(vec![instance("a", 1, "i"), instance("b", 2, "i")]));
    let state = state.advance(Outcome::Completed);
    assert_eq!(
        state.command(),
        Some(Command::StopInstance { name: &text("web"), container: &instance("b", 2, "i") })
    );
    let state = state.advance(Outcome::Failed(failure("busy")));
    assert_eq!(state, failed("busy"));
    assert_eq!(state.advance(Outcome::Completed), failed("busy"));
}

#[test]
fn a_deploy_at_target_is_over_after_registration() {
    let state = Reconciliation::start(Event::Deploy(app(1)));
    let state = state.advance(Outcome::Image(text("i")));
    let state =
        state.advance(Outcome::Instances(vec![instance("a", 1, "i"), instance("x", 0, "h")]));
    assert_eq!(state, Reconciliation::Finished { result: Ok(()) });
}

#[test]
fn a_destroy_lists_then_stops_then_deletes() {
    let name = text("web");
    let running = vec![instance("a", 1, "i"), instance("b", 2, "h")];
    let state = Reconciliation::start(Event::Destroy(name.clone()));
    assert_eq!(state.command(), Some(Command::Running { name: &name }));
    let state = state.advance(Outcome::Instances(running.clone()));
    assert_eq!(state.command(), Some(Command::StopAll { name: &name, containers: &running }));
    let state = state.advance(Outcome::Stops(vec![Ok(()), Ok(())]));
    assert_eq!(state.command(), Some(Command::DeleteApplication { name: &name }));
    let state = state.advance(Outcome::Completed);
    assert_eq!(state.result(), Some(Ok(())));
}

#[test]
fn a_destroy_reports_the_first_failed_stop() {
    let running = vec![instance("a", 1, "i"), instance("b", 2, "i"), instance("c", 3, "i")];
    let state = Reconciliation::start(Event::Destroy(text("web")));
    let state = state.advance(Outcome::Instances(running));
    let state =
        state.advance(Outcome::Stops(vec![Ok(()), Err(failure("first")), Err(failure("second"))]));
    assert_eq!(state, failed("first"));
    assert_eq!(state.command(), None);
}

#[test]
fn a_destroy_of_nothing_fails_at_once() {
    let state = Reconciliation::start(Event::Destroy(text("web")));
    let state = state.advance(Outcome::Instances(Vec::new()));
    assert_eq!(
        state,
        Reconciliation::Finished { result: Err(ReconcileError::NotRunning(text("web"))) }
    );
}

#[test]
fn a_failed_listing_or_removal_ends_the_destroy() {
    let state = Reconciliation::start(Event::Destroy(text("web")));
    assert_eq!(state.advance(Outcome::Failed(failure("down"))), failed("down"));
    let state = Reconciliation::start(Event::Destroy(text("web")));
    let state = state.advance(Outcome::Instances(vec![instance("a", 1, "i")]));
    let state = state.advance(Outcome::Stops(vec![Ok(())]));
    assert_eq!(state.advance(Outcome::Failed(failure("kept"))), failed("kept"));
}

#[test]
fn an_answer_that_does_not_fit_is_refused() {
    let unexpected = Reconciliation::Finished { result: Err(ReconcileError::Unexpected) };
    let state = Reconciliation::start(Event::Deploy(app(1)));
    assert_eq!(state.advance(Outcome::Completed), unexpected);
    let state = Reconciliation::start(Event::Deploy(app(1)));
    assert_eq!(state.advance(Outcome::Instances(Vec::new())), unexpected);
    let state = Reconciliation::start(Event::Destroy(text("web")));
    assert_eq!(state.advance(Outcome::Image(text("i"))), unexpected);
    let state = Reconciliation::start(Event::Destroy(text("web")));
    let state = state.advance(Outcome::Instances(vec![instance("a", 1, "i")]));
    assert_eq!(state.advance(Outcome::Stops(vec![Ok(()), Ok(())])), unexpected);
    let state = Reconciliation::start(Event::Destroy(text("web")));
    let state = state.advance(Outcome::Instances(vec![instance("a", 1, "i")]));
    assert_eq!(state.advance(Outcome::Stops(Vec::new())), unexpected);
}

#[test]
fn the_first_failure_is_found_in_order() {
    assert_eq!(find_first_failure(&Vec::new()), None);
    assert_eq!(find_first_failure(&vec![Ok(()), Ok(())]), None);
    assert_eq!(
        find_first_failure(&vec![Ok(()), Err(failure("x")), Err(failure("y"))]),
        Some(failure("x"))
    );
    assert_eq!(find_first_failure(&vec![Err(failure("z"))]), Some(failure("z")));
}
