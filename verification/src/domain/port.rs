//! The capability a container backend offers to the engine.

use super::model::{Application, Container};
use vstd::prelude::*;

verus! {

/// A failure reported by a backend, with its description.
#[derive(Debug, PartialEq, Eq)]
pub struct BackendError {
    pub message: String,
}

impl Clone for BackendError {
    fn clone(&self) -> (copy: Self)
        ensures
            copy == *self,
    {
        BackendError { message: self.message.clone() }
    }
}

/// What a runtime backend must be able to do for the engine to drive it.
///
/// Every operation may fail, and nothing is promised about what a backend
/// answers: the engine decides on whatever comes back.
pub trait ContainerExecutor {
    /// Turns the application's source into an image and names it.
    fn register_image(&self, application: &Application) -> Result<String, BackendError>;

    /// Declares the application at the backend and lists its instances.
    fn register_application(&self, application: &Application, image_id: String) -> Result<
        Vec<Container>,
        BackendError,
    >;

    /// Removes the declaration of the application, if there is one.
    fn delete_application(&self, application: String) -> Result<(), BackendError>;

    /// Lists the instances of the application; none is no failure.
    fn running(&self, application: String) -> Result<Vec<Container>, BackendError>;

    /// Creates and starts one instance from the image.
    fn start_instance(&self, application: &Application, image_id: String) -> Result<
        Container,
        BackendError,
    >;

    /// Stops and removes one instance.
    fn stop_instance(&self, application_name: String, container: &Container) -> Result<
        (),
        BackendError,
    >;

    /// Names the applications the backend knows, each once.
    fn list_applications(&self) -> Result<Vec<String>, BackendError>;

    /// Provides what routing needs before any application is served.
    fn ensure_routing(&self) -> Result<(), BackendError>;
}

} // verus!
