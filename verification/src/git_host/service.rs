//! Choosing the hosting service.
use vstd::prelude::*;

use crate::git_host::detection;
use crate::git_host::detection::RemoteLookup;
use crate::git_host::types::{GitHostError, GitHostProvider};
use crate::model;

verus! {

/// The hosting services there are.
#[derive(Debug, Clone, Copy, PartialEq, Eq, Structural)]
pub enum ServiceKind {
    GitHub,
    AzureDevOps,
}

impl DeepView for ServiceKind {
    type V = ServiceKind;

    open spec fn deep_view(&self) -> ServiceKind {
        *self
    }
}

/// The service of a platform, where there is one.
pub open spec fn service_of(provider: GitHostProvider) -> Result<
    ServiceKind,
    GitHostError<Seq<char>>,
> {
    match provider {
        GitHostProvider::GitHub => Ok(ServiceKind::GitHub),
        GitHostProvider::AzureDevOps => Ok(ServiceKind::AzureDevOps),
        GitHostProvider::Unknown => Err(GitHostError::UnsupportedProvider),
    }
}

/// The service of a repository, from what came of looking for its remote.
pub fn create_service(lookup: RemoteLookup) -> (res: Result<ServiceKind, GitHostError>)
    ensures
        model::result_view(res) == match detection::provider_of_remote(lookup.deep_view()) {
            Ok(provider) => service_of(provider),
            Err(e) => Err(e),
        },
{
    match detection::detect_provider(lookup) {
        Ok(provider) => create_service_for_provider(provider),
        Err(e) => Err(e),
    }
}

/// The service of a platform.
pub fn create_service_for_provider(provider: GitHostProvider) -> (res: Result<
    ServiceKind,
    GitHostError,
>)
    ensures
        model::result_view(res) == service_of(provider),
{
    match provider {
        GitHostProvider::GitHub => Ok(ServiceKind::GitHub),
        GitHostProvider::AzureDevOps => Ok(ServiceKind::AzureDevOps),
        GitHostProvider::Unknown => Err(GitHostError::UnsupportedProvider),
    }
}

/// The service for the URL of a pull request.
pub fn create_service_for_pr_url(pr_url: &str) -> (res: Result<ServiceKind, GitHostError>)
    ensures
        model::result_view(res) == service_of(detection::provider_of_url(pr_url@)),
{
    create_service_for_provider(detection::detect_provider_from_url(pr_url))
}

} // verus!
