//! Value types of the domain.
//!
//! The types are plain data and stand for themselves in contracts; wherever
//! two texts are compared, the contract compares their views.

use vstd::prelude::*;
use vstd::string::StringExecFns;

verus! {

/// Where the image of an application comes from.
#[derive(Debug, PartialEq, Eq)]
pub enum ApplicationSource {
    /// An image reference in a registry, and whether to pull it every time.
    DockerImage { image: String, pull: bool },
    /// A remote source repository, and the build file in it, if any.
    Git { remote: String, dockerfile: Option<String> },
    /// A source directory on this machine, and the build file in it, if any.
    LocalRepo { path: String, dockerfile: Option<String> },
}

/// The optional runtime configuration of an application.
#[derive(Debug, PartialEq, Eq)]
pub struct ApplicationConfig {
    /// Public hostname fragment; the application's name when absent.
    pub domain: Option<String>,
    /// Port the instances listen on; the lowest port the image declares when absent.
    pub exposed_port: Option<u16>,
    /// Number of instances wanted; one when absent.
    pub replicas: Option<u8>,
}

/// The desired state of one named workload.
#[derive(Debug, PartialEq, Eq)]
pub struct Application {
    /// Unique name, the key of every lookup.
    pub name: String,
    pub source: ApplicationSource,
    pub configuration: Option<ApplicationConfig>,
}

/// One running copy of an application.
#[derive(Debug, PartialEq, Eq)]
pub struct Container {
    /// Identifier the backend gave the instance.
    pub id: String,
    /// Creation time as the backend reports it; only compared, never interpreted.
    pub started_at: u64,
    /// Image the instance was started from.
    pub image_id: String,
}

/// A copy of an optional text.
pub fn copy_text(text: &Option<String>) -> (copy: Option<String>)
    ensures
        copy == *text,
{
    match text {
        Some(value) => Some(value.clone()),
        None => None,
    }
}

impl Clone for ApplicationSource {
    fn clone(&self) -> (copy: Self)
        ensures
            copy == *self,
    {
        match self {
            ApplicationSource::DockerImage { image, pull } => ApplicationSource::DockerImage {
                image: image.clone(),
                pull: *pull,
            },
            ApplicationSource::Git { remote, dockerfile } => ApplicationSource::Git {
                remote: remote.clone(),
                dockerfile: copy_text(dockerfile),
            },
            ApplicationSource::LocalRepo { path, dockerfile } => ApplicationSource::LocalRepo {
                path: path.clone(),
                dockerfile: copy_text(dockerfile),
            },
        }
    }
}

impl Clone for ApplicationConfig {
    fn clone(&self) -> (copy: Self)
        ensures
            copy == *self,
    {
        ApplicationConfig {
            domain: copy_text(&self.domain),
            exposed_port: self.exposed_port,
            replicas: self.replicas,
        }
    }
}

impl Clone for Application {
    fn clone(&self) -> (copy: Self)
        ensures
            copy == *self,
    {
        let configuration = match &self.configuration {
            Some(configuration) => Some(configuration.clone()),
            None => None,
        };
        Application { name: self.name.clone(), source: self.source.clone(), configuration }
    }
}

impl Clone for Container {
    fn clone(&self) -> (copy: Self)
        ensures
            copy == *self,
    {
        Container {
            id: self.id.clone(),
            started_at: self.started_at,
            image_id: self.image_id.clone(),
        }
    }
}

impl Application {
    /// The number of instances the application asks for: the configured
    /// count, or one where none is configured.
    pub open spec fn wanted_replicas(&self) -> nat {
        match self.configuration {
            Some(configuration) => match configuration.replicas {
                Some(replicas) => replicas as nat,
                None => 1,
            },
            None => 1,
        }
    }

    /// The hostname fragment the application is reached under: the
    /// configured one, or the application's name where none is configured.
    pub open spec fn wanted_domain(&self) -> Seq<char> {
        match self.configuration {
            Some(configuration) => match configuration.domain {
                Some(domain) => domain@,
                None => self.name@,
            },
            None => self.name@,
        }
    }

    /// The port the configuration names, if it names one.
    pub open spec fn configured_port(&self) -> Option<u16> {
        match self.configuration {
            Some(configuration) => configuration.exposed_port,
            None => None,
        }
    }

    /// The hostname under which the application is reached: its domain
    /// fragment, a dot, and the domain of the platform.
    pub open spec fn hostname(&self, platform_domain: Seq<char>) -> Seq<char> {
        self.wanted_domain() + "."@ + platform_domain
    }

    /// The number of instances to converge to.
    pub fn replicas(&self) -> (count: u8)
        ensures
            count == self.wanted_replicas(),
    {
        match &self.configuration {
            Some(configuration) => match configuration.replicas {
                Some(replicas) => replicas,
                None => 1,
            },
            None => 1,
        }
    }

    /// The hostname fragment to route to the application.
    pub fn domain(&self) -> (domain: String)
        ensures
            domain@ == self.wanted_domain(),
    {
        match &self.configuration {
            Some(configuration) => match &configuration.domain {
                Some(domain) => domain.clone(),
                None => self.name.clone(),
            },
            None => self.name.clone(),
        }
    }

    /// The hostname to route to the application.
    pub fn host(&self, platform_domain: &String) -> (host: String)
        ensures
            host@ == self.hostname(platform_domain@),
    {
        self.domain().concat(".").concat(platform_domain.as_str())
    }

    /// The configured port. `None` tells the backend to look the port up in
    /// the image instead of assuming one.
    pub fn exposed_port(&self) -> (port: Option<u16>)
        ensures
            port == self.configured_port(),
    {
        match &self.configuration {
            Some(configuration) => configuration.exposed_port,
            None => None,
        }
    }
}

impl Container {
    /// Whether the instance runs the given image.
    pub open spec fn runs(&self, image_id: Seq<char>) -> bool {
        self.image_id@ == image_id
    }

    /// Whether the instance runs the given image. An instance that does not
    /// is outdated, whatever the reason for the difference.
    pub fn runs_image(&self, image_id: &String) -> (same: bool)
        ensures
            same == self.runs(image_id@),
    {
        self.image_id == *image_id
    }
}

} // verus!
