//! Project storage availability for the Project IPC commands.

use vstd::prelude::*;

use std::sync::Arc;

verus! {

#[derive(Debug, Clone, Copy, PartialEq, Eq, Structural)]
pub enum ProjectCommandError {
    InvalidProjectName,
    InvalidProjectId,
    ProjectNotFound,
    ProjectStorageUnavailable,
}

/// The project repository, when durable storage opened.
pub enum ProjectStorageState<R> {
    Ready(Arc<R>),
    Unavailable,
}

impl<R> ProjectStorageState<R> {
    pub fn ready(repository: R) -> (state: Self)
        ensures
            state matches ProjectStorageState::Ready(r) && *r == repository,
    {
        ProjectStorageState::Ready(Arc::new(repository))
    }

    pub fn unavailable() -> (state: Self)
        ensures
            state is Unavailable,
    {
        ProjectStorageState::Unavailable
    }

    /// The repository, or the storage-unavailable error.
    pub fn repository(&self) -> (r: Result<&Arc<R>, ProjectCommandError>)
        ensures
            match self {
                ProjectStorageState::Ready(repository) => r == Ok::<&Arc<R>, ProjectCommandError>(
                    repository,
                ),
                ProjectStorageState::Unavailable => r == Err::<&Arc<R>, ProjectCommandError>(
                    ProjectCommandError::ProjectStorageUnavailable,
                ),
            },
    {
        match self {
            ProjectStorageState::Ready(repository) => Ok(repository),
            ProjectStorageState::Unavailable => Err(ProjectCommandError::ProjectStorageUnavailable),
        }
    }
}

} // verus!
