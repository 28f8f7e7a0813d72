use cleverclown::config::RoutingConfig;
use cleverclown::domain::engine::ReconcileError;
use cleverclown::domain::model::{Application, ApplicationConfig, ApplicationSource, Container};
use cleverclown::domain::port::BackendError;
use cleverclown::infra::kubernetes::{
    applications_of, cluster_image, instances_of, keep_waiting, label_of, manifests, selector, started_instance, waited_too_long, wrap_to_u64, write_for,
    DeploymentManifest, DeploymentSummary, IngressManifest, Label, Manifests, PodSummary,
    ServiceManifest, SourceError, Write,
};
use cleverclown::infra::report::ReportError;
use cleverclown::infra::web::{answer, deployed, destroyed, failure, Answer};

fn text(value: &str) -> String {
    value.to_string()
}

fn app(configuration: Option<ApplicationConfig>) -> Application {
    Application {
        name: text("web"),
        source: ApplicationSource::DockerImage { image: text("nginx:1"), pull: false },
        configuration,
    }
}

fn label() -> Label {
    Label { key: text("cleverclown.app"), value: text("web") }
}

fn deployment(name: Option<&str>, labels: Vec<(&str, &str)>) -> DeploymentSummary {
    DeploymentSummary {
        name: name.map(text),
        labels: labels.into_iter().map(|(key, value)| (text(key), text(value))).collect(),
    }
}

fn pod(name: &str, created_millis: i64, image: &str) -> PodSummary {
    PodSummary { name: Some(text(name)), created_millis: Some(created_millis), image: Some(text(image)) }
}

#[test]
fn timestamps_keep_their_order() {
    assert_eq!(wrap_to_u64(i64::MIN), 0);
    assert_eq!(wrap_to_u64(-1), (1u64 << 63) - 1);
    assert_eq!(wrap_to_u64(0), 1u64 << 63);
    assert_eq!(wrap_to_u64(1), (1u64 << 63) + 1);
    assert_eq!(wrap_to_u64(i64::MAX), u64::MAX);
    let samples = [i64::MIN, -5_000_000_000, -1, 0, 1, 1_700_000_000_000, i64::MAX];
    for pair in samples.windows(2) {
        assert!(wrap_to_u64(pair[0]) < wrap_to_u64(pair[1]));
    }
    for value in samples {
        assert_eq!(wrap_to_u64(value), (value as u64).wrapping_add(u64::MAX / 2 + 1));
    }
}

#[test]
fn selector_finds_by_label() {
    assert_eq!(selector(&text("web")), "cleverclown.app=web");
}

#[test]
fn only_registry_images_run_on_the_cluster() {
    assert_eq!(cluster_image(&app(None)), Ok(text("nginx:1")));
    let mut built = app(None);
    built.source = ApplicationSource::Git { remote: text("r"), dockerfile: None };
    assert_eq!(cluster_image(&built), Err(SourceError::Unsupported));
    built.source = ApplicationSource::LocalRepo { path: text("p"), dockerfile: Some(text("d")) };
    assert_eq!(cluster_image(&built), Err(SourceError::Unsupported));
    assert_eq!(
        SourceError::Unsupported.message(),
        "Kubernetes runtime only support DockerImage application source"
    );
}

#[test]
fn pods_become_instances() {
    let pods = vec![pod("web-2", 2000, "nginx:1"), pod("web-1", -3, "nginx:0")];
    assert_eq!(
        instances_of(1, &pods).unwrap(),
        vec![
            Container { id: text("web-2"), started_at: (1u64 << 63) + 2000, image_id: text("nginx:1") },
            Container { id: text("web-1"), started_at: (1u64 << 63) - 3, image_id: text("nginx:0") },
        ]
    );
}

#[test]
fn without_a_deployment_nothing_runs() {
    let pods = vec![pod("web-2", 2000, "nginx:1")];
    assert_eq!(instances_of(0, &pods), Ok(Vec::new()));
    let incomplete = vec![PodSummary { name: None, created_millis: None, image: None }];
    assert!(!incomplete[0].is_complete());
    assert_eq!(instances_of(0, &incomplete), Ok(Vec::new()));
    assert!(pods[0].is_complete());
}

#[test]
fn labelled_deployments_name_the_applications() {
    let deployments = vec![
        DeploymentSummary { name: Some(text("web")), labels: vec![(text("cleverclown.app"), text("web"))] },
        DeploymentSummary { name: Some(text("dns")), labels: vec![(text("k8s-app"), text("dns"))] },
        DeploymentSummary { name: None, labels: vec![] },
        DeploymentSummary {
            name: Some(text("api")),
            labels: vec![(text("tier"), text("x")), (text("cleverclown.app"), text("other"))],
        },
    ];
    assert_eq!(applications_of(&deployments), Ok(vec![text("web"), text("api")]));
}

#[test]
fn manifests_pass_the_configuration_on() {
    let configured = app(Some(ApplicationConfig {
        domain: Some(text("www")),
        exposed_port: Some(8080),
        replicas: Some(3),
    }));
    assert_eq!(
        manifests(&configured, &text("nginx:1"), &RoutingConfig::default()),
        Manifests {
            deployment: DeploymentManifest {
                name: text("web"),
                label: label(),
                replicas: Some(3),
                container_name: text("application"),
                image: text("nginx:1"),
                container_port: Some(8080),
            },
            service: ServiceManifest {
                name: text("web"),
                label: label(),
                port_name: text("app"),
                port: Some(8080),
            },
            ingress: IngressManifest {
                name: text("web"),
                label: label(),
                host: text("www.clever.clown"),
                path: text("/"),
                path_type: text("Prefix"),
                service_name: text("web"),
                service_port_name: text("app"),
            },
        }
    );
    let bare = manifests(&app(None), &text("i"), &RoutingConfig::default());
    assert_eq!(bare.deployment.replicas, None);
    assert_eq!(bare.deployment.container_port, None);
    assert_eq!(bare.service.port, None);
    assert_eq!(bare.ingress.host, "web.clever.clown");
}

#[test]
fn parts_are_replaced_when_they_exist() {
    assert_eq!(write_for(0), Write::Create);
    assert_eq!(write_for(1), Write::Replace);
    assert_eq!(write_for(3), Write::Replace);
}

#[test]
fn pods_are_waited_for_five_seconds() {
    let three = app(Some(ApplicationConfig { domain: None, exposed_port: None, replicas: Some(3) }));
    assert!(keep_waiting(2, &three, 0));
    assert!(keep_waiting(0, &three, 4999));
    assert!(!keep_waiting(2, &three, 5000));
    assert!(!keep_waiting(3, &three, 0));
    assert!(!keep_waiting(4, &three, 100));
    assert!(keep_waiting(0, &app(None), 1));
    assert!(!keep_waiting(1, &app(None), 1));
    assert!(!waited_too_long(4999));
    assert!(waited_too_long(5000));
    assert!(waited_too_long(u128::MAX));
}

#[test]
fn a_start_is_reported_as_an_instance_of_its_own() {
    assert_eq!(
        started_instance(&app(None), text("nginx:1"), 1700),
        Container { id: text("web"), started_at: 1700, image_id: text("nginx:1") }
    );
}

#[test]
fn every_failure_is_answered_alike() {
    assert_eq!(
        failure(&text("boom")),
        Answer { status: 500, body: text("Something went wrong: boom") }
    );
    let failed = Err(ReconcileError::Backend(BackendError { message: text("no daemon") }));
    assert_eq!(deployed(&failed).status, 500);
    assert_eq!(deployed(&failed).body, "Something went wrong: no daemon");
    let absent = Err(ReconcileError::NotRunning(text("web")));
    assert_eq!(
        destroyed(&absent),
        Answer { status: 500, body: text("Something went wrong: Application web is not running") }
    );
    assert_eq!(
        ReconcileError::Unexpected.message(),
        "The answer does not fit the call that was made"
    );
}

#[test]
fn success_is_confirmed() {
    assert_eq!(deployed(&Ok(())), Answer { status: 200, body: text("Application deployed") });
    assert_eq!(destroyed(&Ok(())), Answer { status: 200, body: text("Application destoyed") });
    assert_eq!(answer(&Ok(()), "fine"), Answer { status: 200, body: text("fine") });
}

#[test]
fn a_malformed_pod_report_is_an_error() {
    let mut pods = vec![pod("a", 1, "i"), pod("b", 2, "i"), pod("c", 3, "i")];
    assert_eq!(instances_of(1, &pods).map(|listed| listed.len()), Ok(3));
    pods[2].image = None;
    assert_eq!(instances_of(1, &pods), Err(ReportError { index: 2 }));
    pods[1].created_millis = None;
    assert_eq!(instances_of(2, &pods), Err(ReportError { index: 1 }));
    pods[0].name = None;
    assert_eq!(instances_of(1, &pods), Err(ReportError { index: 0 }));
    assert_eq!(instances_of(0, &pods), Ok(Vec::new()));
    assert_eq!(instances_of(1, &Vec::new()), Ok(Vec::new()));
    assert_eq!(
        ReportError { index: 12 }.message(),
        "The backend's answer is malformed: entry 12 is incomplete"
    );
}

#[test]
fn the_cluster_names_no_application_twice() {
    let deployments = vec![
        deployment(Some("web"), vec![("cleverclown.app", "web")]),
        deployment(Some("api"), vec![("cleverclown.app", "api")]),
        deployment(Some("web"), vec![("cleverclown.app", "web")]),
        deployment(Some("web"), vec![("other", "web")]),
        deployment(Some("db"), vec![("cleverclown.app", "db")]),
        deployment(Some("api"), vec![("cleverclown.app", "x")]),
    ];
    assert_eq!(applications_of(&deployments), Ok(vec![text("web"), text("api"), text("db")]));
}

#[test]
fn a_labelled_deployment_without_name_is_an_error() {
    let deployments = vec![
        deployment(None, vec![("other", "x")]),
        deployment(Some("web"), vec![("cleverclown.app", "web")]),
        deployment(None, vec![("cleverclown.app", "lost")]),
        deployment(None, vec![("cleverclown.app", "lost too")]),
    ];
    assert_eq!(applications_of(&deployments), Err(ReportError { index: 2 }));
    let named = vec![
        deployment(None, vec![("other", "x")]),
        deployment(Some("web"), vec![("cleverclown.app", "web")]),
    ];
    assert_eq!(applications_of(&named), Ok(vec![text("web")]));
    assert_eq!(applications_of(&Vec::new()), Ok(Vec::new()));
}

#[test]
fn every_part_carries_the_label_of_its_application() {
    assert_eq!(label_of(&app(None)), label());
    let declared = manifests(&app(None), &text("i"), &RoutingConfig::default());
    assert_eq!(declared.deployment.label, label());
    assert_eq!(declared.service.label, label());
    assert_eq!(declared.ingress.label, label());
}
