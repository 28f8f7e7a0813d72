use cleverclown::config::{
    ApiConfig, AppConfig, DockerConfig, KubernetesConfig, Orchestrator, RoutingConfig,
};
use cleverclown::domain::model::{
    copy_text, Application, ApplicationConfig, ApplicationSource, Container,
};

fn app(configuration: Option<ApplicationConfig>) -> Application {
    Application {
        name: "blog".to_string(),
        source: ApplicationSource::Git { remote: "https://git/blog".to_string(), dockerfile: None },
        configuration,
    }
}

#[test]
fn domain_defaults_to_the_name() {
    assert_eq!(app(None).domain(), "blog");
    let unset = ApplicationConfig { domain: None, exposed_port: None, replicas: None };
    assert_eq!(app(Some(unset)).domain(), "blog");
    let set = ApplicationConfig { domain: Some("www".to_string()), exposed_port: None, replicas: None };
    assert_eq!(app(Some(set)).domain(), "www");
}

#[test]
fn host_joins_domain_and_platform_domain() {
    assert_eq!(app(None).host(&"clever.clown".to_string()), "blog.clever.clown");
    let set = ApplicationConfig { domain: Some("www".to_string()), exposed_port: None, replicas: None };
    assert_eq!(app(Some(set)).host(&"example.org".to_string()), "www.example.org");
}

#[test]
fn exposed_port_is_never_assumed() {
    assert_eq!(app(None).exposed_port(), None);
    let set = ApplicationConfig { domain: None, exposed_port: Some(8080), replicas: None };
    assert_eq!(app(Some(set)).exposed_port(), Some(8080));
}

#[test]
fn replicas_cover_the_whole_range() {
    for count in [0u8, 1, 2, 255] {
        let set = ApplicationConfig { domain: None, exposed_port: None, replicas: Some(count) };
        assert_eq!(app(Some(set)).replicas(), count);
    }
}

#[test]
fn copies_are_equal_to_what_they_copy() {
    let full = Application {
        name: "blog".to_string(),
        source: ApplicationSource::LocalRepo {
            path: "/src".to_string(),
            dockerfile: Some("Dockerfile".to_string()),
        },
        configuration: Some(ApplicationConfig {
            domain: Some("www".to_string()),
            exposed_port: Some(1),
            replicas: Some(2),
        }),
    };
    assert_eq!(full.clone(), full);
    let running = Container { id: "a".to_string(), started_at: 3, image_id: "i".to_string() };
    assert_eq!(running.clone(), running);
    assert_eq!(copy_text(&Some("x".to_string())), Some("x".to_string()));
    assert_eq!(copy_text(&None), None);
}

#[test]
fn default_configuration_has_the_documented_values() {
    let config = AppConfig::default();
    assert_eq!(
        config,
        AppConfig {
            orchestrator: Orchestrator::Docker(DockerConfig {
                socket: "/var/run/docker.sock".to_string(),
                network: "cleverclown".to_string(),
                source_directory: "/tmp".to_string(),
            }),
            api: ApiConfig { host: "0.0.0.0".to_string(), port: "3000".to_string() },
            routing: RoutingConfig { domain: "clever.clown".to_string(), dashboard: true },
            log_level: "INFO".to_string(),
        }
    );
    assert_eq!(config.clone(), config);
    assert_eq!(KubernetesConfig::default().app_namespace, "default");
}

#[test]
fn bind_address_joins_host_and_port() {
    assert_eq!(ApiConfig::default().bind_address(), "0.0.0.0:3000");
    let other = ApiConfig { host: "::1".to_string(), port: "80".to_string() };
    assert_eq!(other.bind_address(), "::1:80");
}
