//! Rules of the cluster backend.
//!
//! The cluster is spoken to elsewhere; here is what the backend makes of what
//! the cluster reports, and what it declares there.

use super::labels::{has_label, labelled};
use super::names::{first_occurrences, lemma_first_occurrences, unique, views};
use super::report::ReportError;
use crate::config::RoutingConfig;
use crate::domain::model::{Application, ApplicationSource, Container};
use vstd::prelude::*;
use vstd::string::StringExecFns;

verus! {

/// The offset that moves the signed range onto the unsigned one.
pub open spec fn sign_offset() -> int {
    0x8000_0000_0000_0000
}

/// Maps a signed timestamp onto the unsigned range so that the order of any
/// two timestamps is kept: the smallest signed value becomes zero.
pub fn wrap_to_u64(x: i64) -> (wrapped: u64)
    ensures
        wrapped == x + sign_offset(),
{
    let raw: u64 = #[verifier::truncate] (x as u64);
    assert(x >= 0 ==> raw < 0x8000_0000_0000_0000u64 && raw as i64 == x) by (bit_vector)
        requires
            raw == x as u64,
    ;
    assert(x < 0 ==> raw >= 0x8000_0000_0000_0000u64 && (raw - 0x8000_0000_0000_0000u64) as i64
        - 0x4000_0000_0000_0000i64 - 0x4000_0000_0000_0000i64 == x) by (bit_vector)
        requires
            raw == x as u64,
    ;
    raw.wrapping_add(u64::MAX / 2 + 1)
}

/// The label that attributes what the cluster runs to an application.
pub open spec fn application_label() -> Seq<char> {
    "cleverclown.app"@
}

/// The selector that finds what belongs to an application by its label.
pub fn selector(application_name: &String) -> (selector: String)
    ensures
        selector@ == application_label() + "="@ + application_name@,
{
    String::from_str("cleverclown.app").concat("=").concat(application_name.as_str())
}

/// Why the cluster cannot run an application.
#[derive(Debug, PartialEq, Eq)]
pub enum SourceError {
    /// The cluster builds nothing: it runs images of a registry only.
    Unsupported,
}

impl SourceError {
    /// The description of the failure.
    pub open spec fn text(&self) -> Seq<char> {
        "Kubernetes runtime only support DockerImage application source"@
    }

    /// The description of the failure.
    pub fn message(&self) -> (text: String)
        ensures
            text@ == self.text(),
    {
        String::from_str("Kubernetes runtime only support DockerImage application source")
    }
}

/// Names the image of the application: the registry image itself. Any other
/// source is refused, and nothing is built.
pub fn cluster_image(application: &Application) -> (image: Result<String, SourceError>)
    ensures
        match application.source {
            ApplicationSource::DockerImage { image: reference, .. } => image == Ok::<
                String,
                SourceError,
            >(reference),
            _ => image == Err::<String, SourceError>(SourceError::Unsupported),
        },
{
    match &application.source {
        ApplicationSource::DockerImage { image, .. } => Ok(image.clone()),
        _ => Err(SourceError::Unsupported),
    }
}

/// What the cluster reports of one pod, as far as the rules read it.
#[derive(Debug, PartialEq, Eq)]
pub struct PodSummary {
    pub name: Option<String>,
    /// Creation time in milliseconds since the epoch.
    pub created_millis: Option<i64>,
    /// The image of the pod's first container.
    pub image: Option<String>,
}

impl PodSummary {
    /// Whether the report names the pod, its creation time and its image:
    /// what an instance cannot be described without.
    pub open spec fn complete(&self) -> bool {
        &&& self.name is Some
        &&& self.created_millis is Some
        &&& self.image is Some
    }

    /// Whether an instance can be described from the report.
    pub fn is_complete(&self) -> (complete: bool)
        ensures
            complete == self.complete(),
    {
        self.name.is_some() && self.created_millis.is_some() && self.image.is_some()
    }

    /// The instance that the report describes: named as the pod, running the
    /// pod's image, and as old as the pod.
    fn container(&self) -> (container: Container)
        requires
            self.complete(),
        ensures
            container.id == self.name->0,
            container.image_id == self.image->0,
            container.started_at == self.created_millis->0 + sign_offset(),
    {
        let id = match &self.name {
            Some(name) => name.clone(),
            None => String::new(),
        };
        let image_id = match &self.image {
            Some(image) => image.clone(),
            None => String::new(),
        };
        let started_at = match self.created_millis {
            Some(created) => wrap_to_u64(created),
            None => 0,
        };
        Container { id, started_at, image_id }
    }
}

/// Whether the instances are those that the reports describe, in their
/// order: each has the name, the image and the age of its pod.
pub open spec fn describes(pods: Seq<PodSummary>, containers: Seq<Container>) -> bool {
    &&& containers.len() == pods.len()
    &&& forall|i: int|
        0 <= i < pods.len() ==> {
            &&& (#[trigger] containers[i]).id == pods[i].name->0
            &&& containers[i].image_id == pods[i].image->0
            &&& containers[i].started_at == pods[i].created_millis->0 + sign_offset()
        }
}

/// The instances that the reports describe, in their order. Where no
/// deployment of the application was found, there are none, whatever pods
/// carry its label.
fn containers_of(deployments_found: usize, pods: &Vec<PodSummary>) -> (containers: Vec<Container>)
    requires
        deployments_found > 0 ==> forall|i: int| 0 <= i < pods.len() ==> pods[i].complete(),
    ensures
        deployments_found == 0 ==> containers.len() == 0,
        deployments_found > 0 ==> describes(pods@, containers@),
{
    let mut containers: Vec<Container> = Vec::new();
    if deployments_found == 0 {
        return containers;
    }
    let mut read: usize = 0;
    while read < pods.len()
        invariant
            read <= pods.len(),
            forall|i: int| 0 <= i < pods.len() ==> pods[i].complete(),
            describes(pods@.take(read as int), containers@),
        decreases pods.len() - read,
    {
        containers.push(pods[read].container());
        read = read + 1;
    }
    proof {
        assert(pods@.take(read as int) =~= pods@);
    }
    containers
}

/// Lists the instances of an application from what the cluster reports of
/// its deployments and pods. Without a deployment there is no instance. With
/// one, a pod reported without name, creation time or image makes the whole
/// answer malformed: the listing fails and names the first such pod.
pub fn instances_of(deployments_found: usize, pods: &Vec<PodSummary>) -> (listed: Result<
    Vec<Container>,
    ReportError,
>)
    ensures
        listed is Ok <==> (deployments_found == 0 || forall|i: int|
            0 <= i < pods.len() ==> pods[i].complete()),
        match listed {
            Ok(containers) => if deployments_found == 0 {
                containers.len() == 0
            } else {
                describes(pods@, containers@)
            },
            Err(error) => {
                &&& error.index < pods.len()
                &&& !pods[error.index as int].complete()
                &&& forall|i: int| 0 <= i < error.index ==> pods[i].complete()
            },
        },
{
    if deployments_found == 0 {
        return Ok(containers_of(deployments_found, pods));
    }
    let mut read: usize = 0;
    while read < pods.len()
        invariant
            read <= pods.len(),
            deployments_found > 0,
            forall|i: int| 0 <= i < read ==> pods[i].complete(),
        decreases pods.len() - read,
    {
        if !pods[read].is_complete() {
            return Err(ReportError { index: read });
        }
        read = read + 1;
    }
    Ok(containers_of(deployments_found, pods))
}

/// Two listings made from one report of the cluster agree: they hold the
/// same instances. The backend answers a registration with the listing
/// that `running` gives, so what a registration reports and what `running`
/// reports right after are consistent wherever the cluster's report is the
/// same.
pub proof fn law_listings_of_one_report_agree(
    pods: Seq<PodSummary>,
    registered: Seq<Container>,
    running: Seq<Container>,
)
    requires
        describes(pods, registered),
        describes(pods, running),
    ensures
        registered.len() == running.len(),
        forall|i: int|
            0 <= i < registered.len() ==> {
                &&& (#[trigger] registered[i]).id == running[i].id
                &&& registered[i].image_id == running[i].image_id
                &&& registered[i].started_at == running[i].started_at
            },
{
    assert forall|i: int| 0 <= i < registered.len() implies {
        &&& (#[trigger] registered[i]).id == running[i].id
        &&& registered[i].image_id == running[i].image_id
        &&& registered[i].started_at == running[i].started_at
    } by {
        assert(running[i].id == pods[i].name->0);
    }
}

/// What the cluster reports of one deployment, as far as the rules read it.
#[derive(Debug, PartialEq, Eq)]
pub struct DeploymentSummary {
    pub name: Option<String>,
    /// The labels of the deployment. The cluster keeps them in a map, so no
    /// key occurs twice (`keyed_once`).
    pub labels: Vec<(String, String)>,
}

impl DeploymentSummary {
    /// Whether the deployment carries the label of the platform.
    pub open spec fn managed(&self) -> bool {
        labelled(self.labels@, application_label()) is Some
    }
}

/// The names of the deployments that carry the label of the platform.
pub open spec fn managed_names(deployments: Seq<DeploymentSummary>) -> Seq<String>
    decreases deployments.len(),
{
    if deployments.len() == 0 {
        Seq::empty()
    } else if deployments.last().managed() {
        managed_names(deployments.drop_last()).push(deployments.last().name->0)
    } else {
        managed_names(deployments.drop_last())
    }
}

/// Whether every deployment that carries the label of the platform is
/// reported with its name.
pub open spec fn named(deployments: Seq<DeploymentSummary>) -> bool {
    forall|i: int|
        0 <= i < deployments.len() && (#[trigger] deployments[i]).managed()
            ==> deployments[i].name is Some
}

/// Names the applications that the cluster holds a deployment for: the
/// deployments that carry the label of the platform, whatever its value,
/// each name once, in the order in which it is first reported.
fn application_names(deployments: &Vec<DeploymentSummary>) -> (names: Vec<String>)
    requires
        named(deployments@),
    ensures
        views(names@) == first_occurrences(views(managed_names(deployments@))),
        views(names@).no_duplicates(),
{
    let key = String::from_str("cleverclown.app");
    let mut found: Vec<String> = Vec::new();
    let mut read: usize = 0;
    while read < deployments.len()
        invariant
            read <= deployments.len(),
            key@ == application_label(),
            found@ == managed_names(deployments@.take(read as int)),
            named(deployments@),
        decreases deployments.len() - read,
    {
        proof {
            assert(deployments@.take(read + 1).drop_last() =~= deployments@.take(read as int));
        }
        if has_label(&deployments[read].labels, &key) {
            match &deployments[read].name {
                Some(name) => {
                    found.push(name.clone());
                },
                None => {},
            }
        }
        read = read + 1;
    }
    proof {
        assert(deployments@.take(read as int) =~= deployments@);
        lemma_first_occurrences(views(found@));
    }
    unique(found)
}

/// Lists the applications from what the cluster reports of its deployments.
/// A deployment that carries the label of the platform and is reported
/// without a name makes the whole answer malformed: the listing fails and
/// names the first such deployment.
pub fn applications_of(deployments: &Vec<DeploymentSummary>) -> (listed: Result<
    Vec<String>,
    ReportError,
>)
    ensures
        listed is Ok <==> named(deployments@),
        match listed {
            Ok(names) => {
                &&& views(names@) == first_occurrences(views(managed_names(deployments@)))
                &&& views(names@).no_duplicates()
            },
            Err(error) => {
                &&& error.index < deployments.len()
                &&& deployments[error.index as int].managed()
                &&& deployments[error.index as int].name is None
                &&& forall|i: int|
                    0 <= i < error.index && (#[trigger] deployments[i]).managed()
                        ==> deployments[i].name is Some
            },
        },
{
    let key = String::from_str("cleverclown.app");
    let mut read: usize = 0;
    while read < deployments.len()
        invariant
            read <= deployments.len(),
            key@ == application_label(),
            forall|i: int|
                0 <= i < read && (#[trigger] deployments[i]).managed()
                    ==> deployments[i].name is Some,
        decreases deployments.len() - read,
    {
        if deployments[read].name.is_none() && has_label(&deployments[read].labels, &key) {
            return Err(ReportError { index: read });
        }
        read = read + 1;
    }
    Ok(application_names(deployments))
}

/// A label of a part: its key and its value.
#[derive(Debug, PartialEq, Eq)]
pub struct Label {
    pub key: String,
    pub value: String,
}

/// What the cluster is told to run for an application. The label is that
/// of the deployment, of its pods, and what its selector matches.
#[derive(Debug, PartialEq, Eq)]
pub struct DeploymentManifest {
    pub name: String,
    pub label: Label,
    pub replicas: Option<u8>,
    /// Name of the one container of each pod.
    pub container_name: String,
    pub image: String,
    pub container_port: Option<u16>,
}

/// How the instances of an application are reached inside the cluster. The
/// label is that of the service and what it selects pods by.
#[derive(Debug, PartialEq, Eq)]
pub struct ServiceManifest {
    pub name: String,
    pub label: Label,
    pub port_name: String,
    /// The port of the service, which is also the port of the pods it targets.
    pub port: Option<u16>,
}

/// How an application is reached from outside the cluster: every path under
/// the host leads to the named port of the named service.
#[derive(Debug, PartialEq, Eq)]
pub struct IngressManifest {
    pub name: String,
    pub label: Label,
    pub host: String,
    pub path: String,
    pub path_type: String,
    pub service_name: String,
    pub service_port_name: String,
}

/// Everything declared at the cluster for one application. Each part is
/// named after the application and labelled with its name.
#[derive(Debug, PartialEq, Eq)]
pub struct Manifests {
    pub deployment: DeploymentManifest,
    pub service: ServiceManifest,
    pub ingress: IngressManifest,
}

impl Label {
    /// Whether the label attributes a part to the application.
    pub open spec fn attributes(&self, application: Application) -> bool {
        &&& self.key@ == application_label()
        &&& self.value == application.name
    }
}

/// The label that attributes a part to the application.
pub fn label_of(application: &Application) -> (label: Label)
    ensures
        label.attributes(*application),
{
    Label { key: String::from_str("cleverclown.app"), value: application.name.clone() }
}

/// Describes what to declare at the cluster for the application. Replica
/// count and port are passed on as configured, absent where they are not.
/// The ingress sends every path of the application's hostname to the
/// service, by the name of the service's port.
pub fn manifests(application: &Application, image_id: &String, routing: &RoutingConfig) -> (declared:
    Manifests)
    ensures
        declared.deployment.name == application.name,
        declared.deployment.label.attributes(*application),
        declared.deployment.container_name@ == "application"@,
        declared.deployment.image == *image_id,
        declared.deployment.container_port == application.configured_port(),
        declared.deployment.replicas == (match application.configuration {
            Some(configuration) => configuration.replicas,
            None => None,
        }),
        declared.service.name == application.name,
        declared.service.label.attributes(*application),
        declared.service.port_name@ == "app"@,
        declared.service.port == application.configured_port(),
        declared.ingress.name == application.name,
        declared.ingress.label.attributes(*application),
        declared.ingress.host@ == application.hostname(routing.domain@),
        declared.ingress.path@ == "/"@,
        declared.ingress.path_type@ == "Prefix"@,
        declared.ingress.service_name == declared.service.name,
        declared.ingress.service_port_name@ == declared.service.port_name@,
{
    let replicas = match &application.configuration {
        Some(configuration) => configuration.replicas,
        None => None,
    };
    Manifests {
        deployment: DeploymentManifest {
            name: application.name.clone(),
            label: label_of(application),
            replicas,
            container_name: String::from_str("application"),
            image: image_id.clone(),
            container_port: application.exposed_port(),
        },
        service: ServiceManifest {
            name: application.name.clone(),
            label: label_of(application),
            port_name: String::from_str("app"),
            port: application.exposed_port(),
        },
        ingress: IngressManifest {
            name: application.name.clone(),
            label: label_of(application),
            host: application.host(&routing.domain),
            path: String::from_str("/"),
            path_type: String::from_str("Prefix"),
            service_name: application.name.clone(),
            service_port_name: String::from_str("app"),
        },
    }
}

/// How a part is written to the cluster.
#[derive(Debug, PartialEq, Eq, Clone, Copy)]
pub enum Write {
    /// Nothing of that kind carries the application's label yet.
    Create,
    /// Something does: it is replaced.
    Replace,
}

/// Decides how to write a part, from the number of parts of its kind that
/// carry the application's label.
pub fn write_for(found: usize) -> (write: Write)
    ensures
        write == (if found > 0 {
            Write::Replace
        } else {
            Write::Create
        }),
{
    if found > 0 {
        Write::Replace
    } else {
        Write::Create
    }
}

/// How long the pods of a new declaration are waited for, in milliseconds.
pub const POD_WAIT_MILLIS: u128 = 5000;

/// Whether to list the pods once more: while fewer are found than the
/// application wants and the wait is not over.
pub fn keep_waiting(found: usize, application: &Application, elapsed_millis: u128) -> (again: bool)
    ensures
        again == (found < application.wanted_replicas() && elapsed_millis < POD_WAIT_MILLIS),
{
    found < application.replicas() as usize && elapsed_millis < POD_WAIT_MILLIS
}

/// Whether the wait for the pods is over, which fails the registration.
pub fn waited_too_long(elapsed_millis: u128) -> (over: bool)
    ensures
        over == (elapsed_millis >= POD_WAIT_MILLIS),
{
    elapsed_millis >= POD_WAIT_MILLIS
}

/// The instance reported for a start. The cluster starts pods by itself once
/// the application is declared, so the instance stands for them: it is named
/// after the application, runs the image, and is as old as the given time.
pub fn started_instance(application: &Application, image_id: String, now: u64) -> (container:
    Container)
    ensures
        container == (Container { id: application.name, started_at: now, image_id }),
{
    Container { id: application.name.clone(), started_at: now, image_id }
}

} // verus!
