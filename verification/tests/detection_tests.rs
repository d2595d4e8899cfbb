use agent_host::git_host::detection::{
    detect_provider, detect_provider_from_pr_url, detect_provider_from_url, pr_provider_from_lower,
    provider_from_lower, RemoteLookup,
};
use agent_host::git_host::service::{
    create_service, create_service_for_pr_url, create_service_for_provider, ServiceKind,
};
use agent_host::git_host::types::{GitHostError, GitHostProvider};

#[test]
fn test_github_com_https() {
    assert_eq!(
        detect_provider_from_url("https://github.com/owner/repo"),
        GitHostProvider::GitHub
    );
    assert_eq!(
        detect_provider_from_url("https://github.com/owner/repo.git"),
        GitHostProvider::GitHub
    );
}

#[test]
fn test_github_com_ssh() {
    assert_eq!(
        detect_provider_from_url("git@github.com:owner/repo.git"),
        GitHostProvider::GitHub
    );
}

#[test]
fn test_github_enterprise() {
    assert_eq!(
        detect_provider_from_url("https://github.company.com/owner/repo"),
        GitHostProvider::GitHub
    );
    assert_eq!(
        detect_provider_from_url("https://github.acme.corp/team/project"),
        GitHostProvider::GitHub
    );
    assert_eq!(
        detect_provider_from_url("git@github.internal.io:org/repo.git"),
        GitHostProvider::GitHub
    );
}

#[test]
fn test_azure_devops_https() {
    assert_eq!(
        detect_provider_from_url("https://dev.azure.com/org/project/_git/repo"),
        GitHostProvider::AzureDevOps
    );
}

#[test]
fn test_azure_devops_ssh() {
    assert_eq!(
        detect_provider_from_url("git@ssh.dev.azure.com:v3/org/project/repo"),
        GitHostProvider::AzureDevOps
    );
}

#[test]
fn test_azure_devops_legacy_visualstudio() {
    assert_eq!(
        detect_provider_from_url("https://org.visualstudio.com/project/_git/repo"),
        GitHostProvider::AzureDevOps
    );
}

#[test]
fn test_azure_devops_git_path() {
    // Any URL with /_git/ is Azure DevOps
    assert_eq!(
        detect_provider_from_url("https://custom.domain.com/org/project/_git/repo"),
        GitHostProvider::AzureDevOps
    );
}

#[test]
fn test_unknown_provider() {
    assert_eq!(
        detect_provider_from_url("https://gitlab.com/owner/repo"),
        GitHostProvider::Unknown
    );
    assert_eq!(
        detect_provider_from_url("https://bitbucket.org/owner/repo"),
        GitHostProvider::Unknown
    );
}

#[test]
fn test_pr_url_github() {
    assert_eq!(
        detect_provider_from_pr_url("https://github.com/owner/repo/pull/123"),
        GitHostProvider::GitHub
    );
    assert_eq!(
        detect_provider_from_pr_url("https://github.company.com/owner/repo/pull/456"),
        GitHostProvider::GitHub
    );
}

#[test]
fn test_pr_url_azure() {
    assert_eq!(
        detect_provider_from_pr_url("https://dev.azure.com/org/project/_git/repo/pullrequest/123"),
        GitHostProvider::AzureDevOps
    );
    assert_eq!(
        detect_provider_from_pr_url(
            "https://org.visualstudio.com/project/_git/repo/pullrequest/456"
        ),
        GitHostProvider::AzureDevOps
    );
}

#[test]
fn upper_case_is_read_like_lower_case() {
    assert_eq!(
        detect_provider_from_url("HTTPS://GitHub.COM/Owner/Repo"),
        GitHostProvider::GitHub
    );
    assert_eq!(
        detect_provider_from_pr_url("HTTPS://HOST.EXAMPLE/O/P/_GIT/R/PULLREQUEST/1"),
        GitHostProvider::AzureDevOps
    );
}

#[test]
fn github_com_decides_over_azure_marks() {
    assert_eq!(
        provider_from_lower("https://github.com/dev.azure.com/_git/x"),
        GitHostProvider::GitHub
    );
}

#[test]
fn azure_marks_decide_over_enterprise_hosts() {
    assert_eq!(
        provider_from_lower("https://github.acme.corp/o/_git/x"),
        GitHostProvider::AzureDevOps
    );
}

#[test]
fn pull_requests_are_told_by_their_path() {
    assert_eq!(
        pr_provider_from_lower("https://git.example.com/o/r/pullrequest/1"),
        GitHostProvider::AzureDevOps
    );
    assert_eq!(
        pr_provider_from_lower("https://github.acme.corp/o/_git/r/pull/1"),
        GitHostProvider::GitHub
    );
    assert_eq!(
        pr_provider_from_lower("https://gitlab.com/o/r/pull/1"),
        GitHostProvider::Unknown
    );
}

#[test]
fn a_remote_that_is_not_found_is_told_of() {
    assert_eq!(
        detect_provider(RemoteLookup::NotOpened("no such directory".to_string())),
        Err(GitHostError::Repository(
            "Failed to open repository: no such directory".to_string()
        ))
    );
    assert_eq!(
        detect_provider(RemoteLookup::NoOrigin("none".to_string())),
        Err(GitHostError::Repository(
            "Failed to find origin remote: none".to_string()
        ))
    );
    assert_eq!(
        detect_provider(RemoteLookup::NoUrl),
        Err(GitHostError::Repository("Remote has no URL".to_string()))
    );
    assert_eq!(
        detect_provider(RemoteLookup::Url("git@github.com:o/r.git".to_string())),
        Ok(GitHostProvider::GitHub)
    );
}

#[test]
fn services_go_by_the_platform() {
    assert_eq!(
        create_service_for_provider(GitHostProvider::GitHub),
        Ok(ServiceKind::GitHub)
    );
    assert_eq!(
        create_service(RemoteLookup::Url("https://dev.azure.com/o".to_string())),
        Ok(ServiceKind::AzureDevOps)
    );
    assert_eq!(
        create_service_for_pr_url("https://gitlab.com/o/r/pull/1"),
        Err(GitHostError::UnsupportedProvider)
    );
}
