use std::cell::RefCell;

use cleverclown::domain::engine::{Command, Outcome, ReconcileError, Reconciliation};
use cleverclown::domain::model::{Application, ApplicationConfig, ApplicationSource, Container};
use cleverclown::domain::port::{BackendError, ContainerExecutor};
use cleverclown::domain::{list_applications, reconcile, Event, ReconciliationService};

/// A backend in memory that remembers every call made to it.
struct FakeExecutor {
    image: String,
    instances: RefCell<Vec<Container>>,
    declared: RefCell<bool>,
    calls: RefCell<Vec<String>>,
    failing_stop: Option<String>,
    failing_start: Option<usize>,
    started: RefCell<usize>,
}

impl FakeExecutor {
    fn new(image: &str, instances: Vec<Container>) -> FakeExecutor {
        FakeExecutor {
            image: image.to_string(),
            instances: RefCell::new(instances),
            declared: RefCell::new(true),
            calls: RefCell::new(Vec::new()),
            failing_stop: None,
            failing_start: None,
            started: RefCell::new(0),
        }
    }

    fn calls(&self) -> Vec<String> {
        self.calls.borrow().clone()
    }

    fn count(&self, prefix: &str) -> usize {
        self.calls.borrow().iter().filter(|call| call.starts_with(prefix)).count()
    }

    fn ids(&self) -> Vec<String> {
        self.instances.borrow().iter().map(|container| container.id.clone()).collect()
    }
}

fn failure(message: &str) -> BackendError {
    BackendError { message: message.to_string() }
}

impl ContainerExecutor for FakeExecutor {
    fn register_image(&self, application: &Application) -> Result<String, BackendError> {
        self.calls.borrow_mut().push(format!("register_image {}", application.name));
        Ok(self.image.clone())
    }

    fn register_application(
        &self,
        application: &Application,
        image_id: String,
    ) -> Result<Vec<Container>, BackendError> {
        self.calls.borrow_mut().push(format!(
            "register_application {} {}",
            application.name, image_id
        ));
        *self.declared.borrow_mut() = true;
        Ok(self.instances.borrow().clone())
    }

    fn delete_application(&self, application: String) -> Result<(), BackendError> {
        self.calls.borrow_mut().push(format!("delete_application {}", application));
        *self.declared.borrow_mut() = false;
        Ok(())
    }

    fn running(&self, application: String) -> Result<Vec<Container>, BackendError> {
        self.calls.borrow_mut().push(format!("running {}", application));
        Ok(self.instances.borrow().clone())
    }

    fn start_instance(
        &self,
        application: &Application,
        image_id: String,
    ) -> Result<Container, BackendError> {
        self.calls.borrow_mut().push(format!("start_instance {}", application.name));
        let number = *self.started.borrow();
        if self.failing_start == Some(number) {
            return Err(failure("no room"));
        }
        *self.started.borrow_mut() = number + 1;
        let container = Container {
            id: format!("new-{}", number),
            started_at: 1000 + number as u64,
            image_id,
        };
        self.instances.borrow_mut().push(container.clone());
        Ok(container)
    }

    fn stop_instance(
        &self,
        application_name: String,
        container: &Container,
    ) -> Result<(), BackendError> {
        self.calls.borrow_mut().push(format!(
            "stop_instance {} {}",
            application_name, container.id
        ));
        if self.failing_stop.as_deref() == Some(container.id.as_str()) {
            return Err(failure("cannot stop"));
        }
        self.instances.borrow_mut().retain(|running| running.id != container.id);
        Ok(())
    }

    fn list_applications(&self) -> Result<Vec<String>, BackendError> {
        self.calls.borrow_mut().push("list_applications".to_string());
        if *self.declared.borrow() {
            Ok(vec!["web".to_string()])
        } else {
            Ok(Vec::new())
        }
    }

    fn ensure_routing(&self) -> Result<(), BackendError> {
        self.calls.borrow_mut().push("ensure_routing".to_string());
        Ok(())
    }
}

fn instance(id: &str, started_at: u64, image_id: &str) -> Container {
    Container { id: id.to_string(), started_at, image_id: image_id.to_string() }
}

fn web(replicas: Option<u8>) -> Application {
    Application {
        name: "web".to_string(),
        source: ApplicationSource::DockerImage { image: "nginx".to_string(), pull: false },
        configuration: Some(ApplicationConfig { domain: None, exposed_port: Some(80), replicas }),
    }
}

fn service(executor: FakeExecutor) -> ReconciliationService<FakeExecutor> {
    ReconciliationService { container_executor: executor }
}

#[test]
fn deploy_at_target_without_outdated_makes_no_start_or_stop() {
    let service = service(FakeExecutor::new(
        "img-2",
        vec![instance("a", 1, "img-2"), instance("b", 2, "img-2")],
    ));
    assert_eq!(reconcile(Event::Deploy(web(Some(2))), &service), Ok(()));
    assert_eq!(
        service.container_executor.calls(),
        vec!["register_image web", "register_application web img-2"]
    );
}

#[test]
fn deploy_at_target_leaves_outdated_instances_alone() {
    let service = service(FakeExecutor::new(
        "img-2",
        vec![instance("a", 1, "img-2"), instance("old", 0, "img-1")],
    ));
    assert_eq!(reconcile(Event::Deploy(web(Some(1))), &service), Ok(()));
    assert_eq!(service.container_executor.count("start_instance"), 0);
    assert_eq!(service.container_executor.count("stop_instance"), 0);
    assert_eq!(service.container_executor.ids(), vec!["a", "old"]);
}

#[test]
fn deploy_replaces_one_outdated_instance_while_scaling_up() {
    let service = service(FakeExecutor::new(
        "img-2",
        vec![instance("a", 1, "img-2"), instance("old", 2, "img-1"), instance("b", 3, "img-2")],
    ));
    assert_eq!(reconcile(Event::Deploy(web(Some(3))), &service), Ok(()));
    assert_eq!(
        service.container_executor.calls(),
        vec![
            "register_image web",
            "register_application web img-2",
            "start_instance web",
            "stop_instance web old",
        ]
    );
    let left = service.container_executor.instances.borrow().clone();
    assert_eq!(left.len(), 3);
    assert!(left.iter().all(|container| container.image_id == "img-2"));
}

#[test]
fn deploy_stops_the_three_oldest_of_five() {
    let service = service(FakeExecutor::new(
        "img-2",
        vec![
            instance("c", 30, "img-2"),
            instance("a", 10, "img-2"),
            instance("e", 50, "img-2"),
            instance("b", 20, "img-2"),
            instance("d", 40, "img-2"),
        ],
    ));
    assert_eq!(reconcile(Event::Deploy(web(Some(2))), &service), Ok(()));
    assert_eq!(
        service.container_executor.calls(),
        vec![
            "register_image web",
            "register_application web img-2",
            "stop_instance web a",
            "stop_instance web b",
            "stop_instance web c",
        ]
    );
    assert_eq!(service.container_executor.ids(), vec!["e", "d"]);
}

#[test]
fn destroy_with_a_failing_stop_reports_it_and_keeps_the_declaration() {
    let mut executor = FakeExecutor::new(
        "img-2",
        vec![instance("a", 1, "img-2"), instance("b", 2, "img-2"), instance("c", 3, "img-2")],
    );
    executor.failing_stop = Some("b".to_string());
    let service = service(executor);
    let result = reconcile(Event::Destroy("web".to_string()), &service);
    assert_eq!(result, Err(ReconcileError::Backend(failure("cannot stop"))));
    assert_eq!(service.container_executor.count("stop_instance"), 3);
    assert_eq!(service.container_executor.count("delete_application"), 0);
    assert_eq!(service.container_executor.ids(), vec!["b"]);
}

#[test]
fn destroy_without_instances_fails_before_any_stop_or_delete() {
    let service = service(FakeExecutor::new("img-2", Vec::new()));
    let result = reconcile(Event::Destroy("web".to_string()), &service);
    assert_eq!(result, Err(ReconcileError::NotRunning("web".to_string())));
    assert_eq!(service.container_executor.calls(), vec!["running web"]);
    assert_eq!(result.unwrap_err().message(), "Application web is not running");
}

#[test]
fn destroy_stops_every_instance_then_deletes_once() {
    let service = service(FakeExecutor::new(
        "img-2",
        vec![instance("a", 1, "img-2"), instance("b", 2, "img-1"), instance("c", 3, "img-2")],
    ));
    assert_eq!(reconcile(Event::Destroy("web".to_string()), &service), Ok(()));
    assert_eq!(
        service.container_executor.calls(),
        vec![
            "running web",
            "stop_instance web a",
            "stop_instance web b",
            "stop_instance web c",
            "delete_application web",
        ]
    );
    assert!(service.container_executor.ids().is_empty());
}

#[test]
fn register_application_and_running_agree() {
    let executor = FakeExecutor::new(
        "img-2",
        vec![instance("a", 1, "img-2"), instance("b", 2, "img-1")],
    );
    let registered = executor.register_application(&web(None), "img-2".to_string()).unwrap();
    let running = executor.running("web".to_string()).unwrap();
    assert_eq!(registered, running);
}

#[test]
fn list_applications_asks_the_backend() {
    let service = service(FakeExecutor::new("img-2", Vec::new()));
    assert_eq!(list_applications(&service), Ok(vec!["web".to_string()]));
    assert_eq!(service.container_executor.calls(), vec!["list_applications"]);
}

#[test]
fn the_engine_names_each_call_with_its_arguments() {
    let application = web(Some(2));
    let state = Reconciliation::start(Event::Deploy(application.clone()));
    assert_eq!(state.command(), Some(Command::RegisterImage { application: &application }));
    assert_eq!(state.result(), None);

    let image_id = "img-2".to_string();
    let state = state.advance(Outcome::Image(image_id.clone()));
    assert_eq!(
        state.command(),
        Some(Command::RegisterApplication { application: &application, image_id: &image_id })
    );

    let old = instance("old", 5, "img-1");
    let state = state.advance(Outcome::Instances(vec![old.clone()]));
    assert_eq!(
        state.command(),
        Some(Command::StartInstance { application: &application, image_id: &image_id })
    );
    let state = state.advance(Outcome::Completed);
    assert_eq!(
        state.command(),
        Some(Command::StopInstance { name: &application.name, container: &old })
    );
    let state = state.advance(Outcome::Completed);
    assert_eq!(
        state.command(),
        Some(Command::StartInstance { application: &application, image_id: &image_id })
    );
    let state = state.advance(Outcome::Completed);
    assert_eq!(state.command(), None);
    assert_eq!(state.result(), Some(Ok(())));
}

#[test]
fn a_failing_start_aborts_the_rolling_update() {
    let mut executor = FakeExecutor::new(
        "img-2",
        vec![instance("old-1", 1, "img-1"), instance("old-2", 2, "img-1")],
    );
    executor.failing_start = Some(1);
    let service = service(executor);
    let result = reconcile(Event::Deploy(web(Some(3))), &service);
    assert_eq!(result, Err(ReconcileError::Backend(failure("no room"))));
    assert_eq!(
        service.container_executor.calls(),
        vec![
            "register_image web",
            "register_application web img-2",
            "start_instance web",
            "stop_instance web old-1",
            "start_instance web",
        ]
    );
    assert_eq!(service.container_executor.ids(), vec!["old-2", "new-0"]);
}

#[test]
fn a_retry_after_an_aborted_deploy_converges() {
    let mut executor = FakeExecutor::new("img-2", vec![instance("old-1", 1, "img-1")]);
    executor.failing_start = Some(1);
    let service = service(executor);
    assert!(reconcile(Event::Deploy(web(Some(2))), &service).is_err());
    assert_eq!(service.container_executor.ids(), vec!["new-0"]);
    let retried = FakeExecutor::new("img-2", service.container_executor.instances.borrow().clone());
    let service = ReconciliationService { container_executor: retried };
    assert_eq!(reconcile(Event::Deploy(web(Some(2))), &service), Ok(()));
    assert_eq!(service.container_executor.count("start_instance"), 1);
    assert_eq!(service.container_executor.instances.borrow().len(), 2);
}

#[test]
fn a_deploy_can_ask_for_the_most_replicas() {
    let service = service(FakeExecutor::new("img-2", Vec::new()));
    assert_eq!(reconcile(Event::Deploy(web(Some(255))), &service), Ok(()));
    assert_eq!(service.container_executor.count("start_instance"), 255);
    assert_eq!(service.container_executor.count("stop_instance"), 0);
}
