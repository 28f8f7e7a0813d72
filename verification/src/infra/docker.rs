//! Rules of the container-engine backend.
//!
//! The daemon is spoken to elsewhere; here is what the backend makes of what
//! the daemon reports, and what it asks the daemon for.

use super::labels::{label_value, labelled, texts};
use super::names::{first_occurrences, lemma_first_occurrences, unique, views};
use super::report::ReportError;
use super::text::{decimal, decimal_text, parse_port, port_number};
use crate::config::{DockerConfig, RoutingConfig};
use crate::domain::model::{copy_text, Application, ApplicationSource, Container};
use rand::distributions::Alphanumeric;
use rand::Rng;
use vstd::prelude::*;
use vstd::string::StringExecFns;

verus! {

/// What the daemon reports of one container, as far as the rules read it.
#[derive(Debug, PartialEq, Eq)]
pub struct ContainerSummary {
    pub id: Option<String>,
    pub names: Option<Vec<String>>,
    pub image: Option<String>,
    /// Creation time in seconds since the epoch.
    pub created: Option<i64>,
    /// The labels of the container. The daemon keeps them in a map, so no
    /// key occurs twice (`keyed_once`).
    pub labels: Vec<(String, String)>,
}

/// The label that attributes a container to its application.
pub open spec fn application_label() -> Seq<char> {
    "cleverclown.application.name"@
}

/// The filter that selects the containers of an application by their label,
/// never by their name.
pub fn application_filter(application_name: &String) -> (filter: String)
    ensures
        filter@ == application_label() + "="@ + application_name@,
{
    String::from_str("cleverclown.application.name").concat("=").concat(
        application_name.as_str(),
    )
}

impl ContainerSummary {
    /// Whether the report names the image and a creation time that is not
    /// before the epoch: what an instance cannot be described without.
    pub open spec fn complete(&self) -> bool {
        &&& self.image is Some
        &&& self.created is Some
        &&& self.created->0 >= 0
    }

    /// The identifier of the instance: the container's identifier, else its
    /// first name, else the name of the application.
    pub open spec fn instance_id(&self, application_name: Seq<char>) -> Seq<char> {
        match self.id {
            Some(id) => id@,
            None => match self.names {
                Some(names) => if names@.len() > 0 {
                    names@[0]@
                } else {
                    application_name
                },
                None => application_name,
            },
        }
    }

    /// Whether an instance can be described from the report.
    pub fn is_complete(&self) -> (complete: bool)
        ensures
            complete == self.complete(),
    {
        match (&self.image, self.created) {
            (Some(_), Some(created)) => created >= 0,
            _ => false,
        }
    }

    /// The instance that the report describes.
    fn container(&self, application_name: &String) -> (container: Container)
        requires
            self.complete(),
        ensures
            container.id@ == self.instance_id(application_name@),
            container.image_id == self.image->0,
            container.started_at == self.created->0,
    {
        let id = match &self.id {
            Some(id) => id.clone(),
            None => match &self.names {
                Some(names) => if names.len() > 0 {
                    names[0].clone()
                } else {
                    application_name.clone()
                },
                None => application_name.clone(),
            },
        };
        let image_id = match &self.image {
            Some(image) => image.clone(),
            None => application_name.clone(),
        };
        let started_at: u64 = match self.created {
            Some(created) => created as u64,
            None => 0,
        };
        Container { id, started_at, image_id }
    }
}

/// Whether the instances are those that the reports describe, in their
/// order: each has the identifier, the image and the age of its report.
pub open spec fn describes(
    summaries: Seq<ContainerSummary>,
    application_name: Seq<char>,
    containers: Seq<Container>,
) -> bool {
    &&& containers.len() == summaries.len()
    &&& forall|i: int|
        0 <= i < summaries.len() ==> {
            &&& (#[trigger] containers[i]).id@ == summaries[i].instance_id(application_name)
            &&& containers[i].image_id == summaries[i].image->0
            &&& containers[i].started_at == summaries[i].created->0
        }
}

/// The instances that the reports describe, in their order.
fn containers_of(summaries: &Vec<ContainerSummary>, application_name: &String) -> (containers:
    Vec<Container>)
    requires
        forall|i: int| 0 <= i < summaries.len() ==> summaries[i].complete(),
    ensures
        describes(summaries@, application_name@, containers@),
{
    let mut containers: Vec<Container> = Vec::new();
    let mut read: usize = 0;
    while read < summaries.len()
        invariant
            read <= summaries.len(),
            forall|i: int| 0 <= i < summaries.len() ==> summaries[i].complete(),
            describes(summaries@.take(read as int), application_name@, containers@),
        decreases summaries.len() - read,
    {
        containers.push(summaries[read].container(application_name));
        read = read + 1;
    }
    proof {
        assert(summaries@.take(read as int) =~= summaries@);
    }
    containers
}

/// Lists the instances of an application from what the daemon reports of
/// its containers. A report that names no image, or no creation time, or
/// one before the epoch, makes the whole answer malformed: the listing
/// fails and names the first such report.
pub fn instances_of(summaries: &Vec<ContainerSummary>, application_name: &String) -> (listed:
    Result<Vec<Container>, ReportError>)
    ensures
        listed is Ok <==> forall|i: int| 0 <= i < summaries.len() ==> summaries[i].complete(),
        match listed {
            Ok(containers) => describes(summaries@, application_name@, containers@),
            Err(error) => {
                &&& error.index < summaries.len()
                &&& !summaries[error.index as int].complete()
                &&& forall|i: int| 0 <= i < error.index ==> summaries[i].complete()
            },
        },
{
    let mut read: usize = 0;
    while read < summaries.len()
        invariant
            read <= summaries.len(),
            forall|i: int| 0 <= i < read ==> summaries[i].complete(),
        decreases summaries.len() - read,
    {
        if !summaries[read].is_complete() {
            return Err(ReportError { index: read });
        }
        read = read + 1;
    }
    Ok(containers_of(summaries, application_name))
}

/// Two listings made from one report of the daemon agree: they hold as
/// many instances, and each instance has the same identifier, image and age
/// in both. The backend answers a registration with the listing that
/// `running` gives, so what a registration reports and what `running`
/// reports right after are consistent wherever the daemon's report is the
/// same.
pub proof fn law_listings_of_one_report_agree(
    summaries: Seq<ContainerSummary>,
    application_name: Seq<char>,
    registered: Seq<Container>,
    running: Seq<Container>,
)
    requires
        describes(summaries, application_name, registered),
        describes(summaries, application_name, running),
    ensures
        registered.len() == running.len(),
        forall|i: int|
            0 <= i < registered.len() ==> {
                &&& (#[trigger] registered[i]).id@ == running[i].id@
                &&& registered[i].image_id == running[i].image_id
                &&& registered[i].started_at == running[i].started_at
            },
{
    assert forall|i: int| 0 <= i < registered.len() implies {
        &&& (#[trigger] registered[i]).id@ == running[i].id@
        &&& registered[i].image_id == running[i].image_id
        &&& registered[i].started_at == running[i].started_at
    } by {
        assert(running[i].id@ == summaries[i].instance_id(application_name));
    }
}

/// How the image of an application is obtained.
#[derive(Debug, PartialEq, Eq)]
pub enum ImagePlan {
    /// Take the image from the registry, pulling it first if asked to, and
    /// look its identifier up.
    Registry { image: String, pull: bool },
    /// Build the image from a directory, after cloning the remote repository
    /// into it where one is named: from the build file where one is named,
    /// with a buildpack otherwise.
    Build { directory: String, remote: Option<String>, dockerfile: Option<String>, tag: String },
}

/// Decides how the image of the application is obtained. A repository is
/// cloned into a directory of its own under the configured one, named after
/// the application; a built image is tagged with the application's name.
pub fn image_plan(config: &DockerConfig, application: &Application) -> (plan: ImagePlan)
    ensures
        match application.source {
            ApplicationSource::DockerImage { image, pull } => plan == (ImagePlan::Registry {
                image,
                pull,
            }),
            ApplicationSource::Git { remote, dockerfile } => {
                &&& plan matches ImagePlan::Build { directory, remote: from, dockerfile: file, tag }
                &&& directory@ == config.source_directory@ + "/"@ + application.name@
                &&& from == Some(remote)
                &&& file == dockerfile
                &&& tag == application.name
            },
            ApplicationSource::LocalRepo { path, dockerfile } => plan == (ImagePlan::Build {
                directory: path,
                remote: None,
                dockerfile,
                tag: application.name,
            }),
        },
{
    match &application.source {
        ApplicationSource::DockerImage { image, pull } => ImagePlan::Registry {
            image: image.clone(),
            pull: *pull,
        },
        ApplicationSource::Git { remote, dockerfile } => ImagePlan::Build {
            directory: config.source_directory.clone().concat("/").concat(
                application.name.as_str(),
            ),
            remote: Some(remote.clone()),
            dockerfile: copy_text(dockerfile),
            tag: application.name.clone(),
        },
        ApplicationSource::LocalRepo { path, dockerfile } => ImagePlan::Build {
            directory: path.clone(),
            remote: None,
            dockerfile: copy_text(dockerfile),
            tag: application.name.clone(),
        },
    }
}

/// The labels of an instance: those that make the reverse proxy route the
/// application's hostname to the port of the instance, and those that
/// attribute the instance to its application.
pub open spec fn labels_of(application: Application, routing: RoutingConfig, port: u16) -> Seq<
    (Seq<char>, Seq<char>),
> {
    seq![
        ("traefik.enable"@, "true"@),
        (
            "traefik.http.routers."@ + application.name@ + ".rule"@,
            "Host(`"@ + application.hostname(routing.domain@) + "`)"@,
        ),
        ("traefik.http.services.cleverclown.loadbalancer.server.port"@, decimal(port as nat)),
        ("cleverclown.domain"@, application.wanted_domain()),
        (application_label(), application.name@),
    ]
}

/// The labels to give a new instance that listens on `port`.
pub fn instance_labels(application: &Application, routing: &RoutingConfig, port: u16) -> (labels:
    Vec<(String, String)>)
    ensures
        texts(labels@) == labels_of(*application, *routing, port),
{
    let mut labels: Vec<(String, String)> = Vec::new();
    labels.push((String::from_str("traefik.enable"), String::from_str("true")));
    labels.push(
        (
            String::from_str("traefik.http.routers.").concat(application.name.as_str()).concat(
                ".rule",
            ),
            String::from_str("Host(`").concat(application.host(&routing.domain).as_str()).concat(
                "`)",
            ),
        ),
    );
    labels.push(
        (
            String::from_str("traefik.http.services.cleverclown.loadbalancer.server.port"),
            decimal_text(port),
        ),
    );
    labels.push((String::from_str("cleverclown.domain"), application.domain()));
    labels.push((String::from_str("cleverclown.application.name"), application.name.clone()));
    assert(texts(labels@) =~= labels_of(*application, *routing, port));
    labels
}

/// The key under which an image or a container declares a TCP port.
pub fn port_key(port: u16) -> (key: String)
    ensures
        key@ == decimal(port as nat) + "/tcp"@,
{
    decimal_text(port).concat("/tcp")
}

/// Whether the character is an ASCII letter or digit.
pub open spec fn alphanumeric(character: char) -> bool {
    ||| 'a' <= character <= 'z'
    ||| 'A' <= character <= 'Z'
    ||| '0' <= character <= '9'
}

/// Draws characters with `sample_iter` of rand's `thread_rng` over its
/// `Alphanumeric` distribution. The contract claims what holds of every
/// draw: there are as many characters as are taken, and each is an ASCII
/// letter or digit, the only characters that distribution yields.
#[verifier::external_body]
fn random_text(length: usize) -> (drawn: String)
    ensures
        drawn@.len() == length,
        forall|i: int| 0 <= i < drawn@.len() ==> alphanumeric(#[trigger] drawn@[i]),
{
    rand::thread_rng().sample_iter(&Alphanumeric).take(length).map(char::from).collect::<String>()
}

/// How many characters tell the containers of one application apart.
pub const SUFFIX_LENGTH: usize = 7;

/// The name of a new container: the application's name, a dot, and the suffix.
pub fn instance_name(application_name: &String, suffix: &String) -> (name: String)
    ensures
        name@ == application_name@ + "."@ + suffix@,
{
    application_name.clone().concat(".").concat(suffix.as_str())
}

/// A name for a new container of the application: its name, a dot, and
/// letters and digits drawn at random.
pub fn fresh_instance_name(application_name: &String) -> (name: String)
    ensures
        name@.len() == application_name@.len() + 1 + SUFFIX_LENGTH,
        name@.take(application_name@.len() as int) == application_name@,
        name@[application_name@.len() as int] == '.',
        forall|i: int| application_name@.len() < i < name@.len() ==> alphanumeric(#[trigger] name@[i]),
{
    let suffix = random_text(SUFFIX_LENGTH);
    let name = instance_name(application_name, &suffix);
    proof {
        reveal_strlit(".");
        assert(name@.take(application_name@.len() as int) =~= application_name@);
        assert forall|i: int| application_name@.len() < i < name@.len() implies alphanumeric(
            #[trigger] name@[i],
        ) by {
            assert(name@[i] == suffix@[i - application_name@.len() - 1]);
        }
    }
    name
}

/// Where the port of a key ends: at its first slash, or at its end.
pub open spec fn separator(key: Seq<char>) -> int
    decreases key.len(),
{
    if key.len() == 0 || key[0] == '/' {
        0
    } else {
        1 + separator(key.skip(1))
    }
}

/// The port that a key such as `80/tcp` declares: what stands before the
/// first slash, read as a port.
pub open spec fn declared(key: Seq<char>) -> Option<u16> {
    port_number(key.take(separator(key)))
}

/// Reads the port that a key declares.
pub fn declared_port(key: &String) -> (port: Option<u16>)
    ensures
        port == declared(key@),
{
    let text = key.as_str();
    let length = text.unicode_len();
    let mut end: usize = 0;
    proof {
        assert(key@.skip(0) =~= key@);
    }
    while end < length && text.get_char(end) != '/'
        invariant
            end <= length == key@.len(),
            text@ == key@,
            separator(key@) == end + separator(key@.skip(end as int)),
        decreases length - end,
    {
        proof {
            assert(key@.skip(end as int).skip(1) =~= key@.skip(end + 1));
        }
        end = end + 1;
    }
    parse_port(text, end)
}

/// Why the port of an image cannot be told.
#[derive(Debug, PartialEq, Eq)]
pub enum PortError {
    /// The image declares no port.
    NoneExposed,
    /// A key that the image declares a port under cannot be read.
    Unreadable,
}

impl PortError {
    /// The description of the failure, for the named image.
    pub open spec fn text(&self, image_id: Seq<char>) -> Seq<char> {
        match self {
            PortError::NoneExposed => "Can't detect exposed port for "@ + image_id
                + " image. Please define it in the application configuration or add EXPOSE to image"@,
            PortError::Unreadable => "Exposed port can't be parsed"@,
        }
    }

    /// The description of the failure, for the named image.
    pub fn message(&self, image_id: &String) -> (text: String)
        ensures
            text@ == self.text(image_id@),
    {
        match self {
            PortError::NoneExposed => String::from_str("Can't detect exposed port for ").concat(
                image_id.as_str(),
            ).concat(
                " image. Please define it in the application configuration or add EXPOSE to image",
            ),
            PortError::Unreadable => String::from_str("Exposed port can't be parsed"),
        }
    }
}

/// Finds the lowest port among those an image declares, for an application
/// whose configuration names none. The keys are those of the image's
/// exposed ports.
pub fn min_exposed_port(keys: &Vec<String>) -> (port: Result<u16, PortError>)
    ensures
        match port {
            Ok(port) => {
                &&& exists|i: int| 0 <= i < keys.len() && declared(keys[i]@) == Some(port)
                &&& forall|i: int|
                    0 <= i < keys.len() ==> (#[trigger] declared(keys[i]@)) is Some && declared(
                        keys[i]@,
                    )->0 >= port
            },
            Err(PortError::NoneExposed) => keys.len() == 0,
            Err(PortError::Unreadable) => exists|i: int|
                0 <= i < keys.len() && declared(keys[i]@) is None,
        },
{
    if keys.len() == 0 {
        return Err(PortError::NoneExposed);
    }
    let mut lowest: u16 = match declared_port(&keys[0]) {
        Some(port) => port,
        None => {
            return Err(PortError::Unreadable);
        },
    };
    let mut read: usize = 1;
    while read < keys.len()
        invariant
            1 <= read <= keys.len(),
            exists|i: int| 0 <= i < read && declared(keys[i]@) == Some(lowest),
            forall|i: int|
                0 <= i < read ==> (#[trigger] declared(keys[i]@)) is Some && declared(keys[i]@)->0
                    >= lowest,
        decreases keys.len() - read,
    {
        match declared_port(&keys[read]) {
            Some(port) => {
                if port < lowest {
                    lowest = port;
                }
            },
            None => {
                return Err(PortError::Unreadable);
            },
        }
        read = read + 1;
    }
    Ok(lowest)
}

/// The names of the applications that the containers are attributed to by
/// their label, one for each container that carries the label.
pub open spec fn attributions(summaries: Seq<ContainerSummary>) -> Seq<Seq<char>>
    decreases summaries.len(),
{
    if summaries.len() == 0 {
        Seq::empty()
    } else {
        let before = attributions(summaries.drop_last());
        match labelled(summaries.last().labels@, application_label()) {
            Some(name) => before.push(name@),
            None => before,
        }
    }
}

/// Names the applications that have a container, each once, in the order
/// in which their first container is reported. A container belongs to the
/// application that its label names, whatever the container is called.
pub fn application_names(summaries: &Vec<ContainerSummary>) -> (names: Vec<String>)
    ensures
        views(names@) == first_occurrences(attributions(summaries@)),
        views(names@).no_duplicates(),
{
    let key = String::from_str("cleverclown.application.name");
    let mut found: Vec<String> = Vec::new();
    let mut read: usize = 0;
    while read < summaries.len()
        invariant
            read <= summaries.len(),
            key@ == application_label(),
            views(found@) == attributions(summaries@.take(read as int)),
        decreases summaries.len() - read,
    {
        proof {
            assert(summaries@.take(read + 1).drop_last() =~= summaries@.take(read as int));
        }
        let ghost before = found@;
        match label_value(&summaries[read].labels, &key) {
            Some(name) => {
                found.push(name);
                proof {
                    assert(views(found@) =~= views(before).push(name@));
                }
            },
            None => {},
        }
        read = read + 1;
    }
    proof {
        assert(summaries@.take(read as int) =~= summaries@);
        lemma_first_occurrences(views(found@));
    }
    unique(found)
}

/// When the daemon restarts a container by itself.
#[derive(Debug, PartialEq, Eq, Clone, Copy)]
pub enum RestartWhen {
    Never,
    Always,
    UnlessStopped,
    OnFailure,
}

/// How the daemon restarts a container: when, and how often at most.
#[derive(Debug, PartialEq, Eq, Clone, Copy)]
pub struct RestartRule {
    pub when: RestartWhen,
    pub maximum_retries: i64,
}

/// The restart rule of every container that the platform creates, the
/// instances and the reverse proxy alike: restarted when it fails, three
/// times at most.
pub fn restart_rule() -> (rule: RestartRule)
    ensures
        rule == (RestartRule { when: RestartWhen::OnFailure, maximum_retries: 3 }),
{
    RestartRule { when: RestartWhen::OnFailure, maximum_retries: 3 }
}

/// The driver of the shared network when the platform creates it.
pub fn network_driver() -> (driver: String)
    ensures
        driver@ == "bridge"@,
{
    String::from_str("bridge")
}

/// What the reverse proxy is created with.
#[derive(Debug, PartialEq, Eq)]
pub struct ProxySettings {
    /// Name of the proxy's container.
    pub name: String,
    pub image: String,
    pub environment: Vec<String>,
    /// The ports of the proxy, each published under the same number on the host.
    pub ports: Vec<u16>,
    /// The mount that lets the proxy watch the daemon.
    pub bind: String,
    pub network: String,
    pub restart: RestartRule,
}

/// The name of the reverse proxy's container.
pub open spec fn proxy_name() -> Seq<char> {
    "cleverclown_traefik"@
}

/// The environment of the reverse proxy: it watches the daemon at its
/// socket, serves the shared network, routes to nothing that does not ask
/// for it, and shows its dashboard only where the configuration says so.
pub open spec fn proxy_environment(docker: DockerConfig, routing: RoutingConfig) -> Seq<Seq<char>> {
    let always = seq![
        "TRAEFIK_PROVIDERS_DOCKER_NETWORK="@ + docker.network@,
        "TRAEFIK_PROVIDERS_DOCKER_EXPOSEDBYDEFAULT=false"@,
        "TRAEFIK_LOG_LEVEL=info"@,
        "TRAEFIK_LOG_NOCOLOR=true"@,
        "TRAEFIK_PROVIDERS_DOCKER_ENDPOINT=unix://"@ + docker.socket@,
    ];
    if routing.dashboard {
        always.push("TRAEFIK_API_INSECURE=true"@)
    } else {
        always
    }
}

/// The ports of the reverse proxy: HTTP, and the dashboard where it is shown.
pub open spec fn proxy_ports(routing: RoutingConfig) -> Seq<u16> {
    if routing.dashboard {
        seq![80u16, 8080u16]
    } else {
        seq![80u16]
    }
}

/// Describes the reverse proxy to create where none exists.
pub fn proxy_settings(docker: &DockerConfig, routing: &RoutingConfig) -> (settings: ProxySettings)
    ensures
        settings.name@ == proxy_name(),
        settings.image@ == "traefik:v3.1"@,
        views(settings.environment@) == proxy_environment(*docker, *routing),
        settings.ports@ == proxy_ports(*routing),
        settings.bind@ == docker.socket@ + ":"@ + docker.socket@,
        settings.network == docker.network,
        settings.restart == (RestartRule { when: RestartWhen::OnFailure, maximum_retries: 3 }),
{
    let mut environment: Vec<String> = Vec::new();
    environment.push(
        String::from_str("TRAEFIK_PROVIDERS_DOCKER_NETWORK=").concat(docker.network.as_str()),
    );
    environment.push(String::from_str("TRAEFIK_PROVIDERS_DOCKER_EXPOSEDBYDEFAULT=false"));
    environment.push(String::from_str("TRAEFIK_LOG_LEVEL=info"));
    environment.push(String::from_str("TRAEFIK_LOG_NOCOLOR=true"));
    environment.push(
        String::from_str("TRAEFIK_PROVIDERS_DOCKER_ENDPOINT=unix://").concat(docker.socket.as_str()),
    );
    let mut ports: Vec<u16> = Vec::new();
    ports.push(80);
    if routing.dashboard {
        ports.push(8080);
        environment.push(String::from_str("TRAEFIK_API_INSECURE=true"));
    }
    assert(views(environment@) =~= proxy_environment(*docker, *routing));
    assert(ports@ =~= proxy_ports(*routing));
    ProxySettings {
        name: String::from_str("cleverclown_traefik"),
        image: String::from_str("traefik:v3.1"),
        environment,
        ports,
        bind: docker.socket.clone().concat(":").concat(docker.socket.as_str()),
        network: docker.network.clone(),
        restart: restart_rule(),
    }
}

/// Whether the shared network has to be created: when none of its name was found.
pub fn network_missing(found: usize) -> (missing: bool)
    ensures
        missing == (found == 0),
{
    found == 0
}

/// Whether the reverse proxy has to be started: unless it is known to run.
pub fn must_start(running: Option<bool>) -> (start: bool)
    ensures
        start == !(running == Some(true)),
{
    match running {
        Some(running) => !running,
        None => true,
    }
}

} // verus!
