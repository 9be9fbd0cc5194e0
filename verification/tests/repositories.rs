use soma::docker::{ImageRecord, SomaImage, VersionStatus};
use soma::error::SomaError;
use soma::repo::{Backend, BinaryConfig, Manifest, RepositoryManager};
use soma::repository::{
    declared_problem_paths, read_prob_manifest, ProblemIndex, ProblemList, Repository,
};

fn index(name: &str, path: &str) -> ProblemIndex {
    ProblemIndex {
        name: name.to_string(),
        path: path.to_string(),
    }
}

fn image_for(repo: &str, prob: &str) -> SomaImage {
    SomaImage::new(
        repo.to_string(),
        ImageRecord {
            id: "sha256:0123".to_string(),
            repo_tags: Some(vec![format!("soma/{}:latest", prob)]),
            labels: vec![],
        },
        VersionStatus::Normal,
    )
}

#[test]
fn test_manager_add_repo_duplicate() {
    let mut manager = RepositoryManager::new("/root/.soma".to_string());
    assert!(manager
        .add_repo(
            "r1".to_string(),
            Backend::GitBackend("https://example.com/r1.git".to_string())
        )
        .is_ok());
    assert_eq!(
        manager.add_repo(
            "r1".to_string(),
            Backend::LocalBackend("/tmp/other".to_string())
        ),
        Err(SomaError::DuplicateRepository)
    );
    assert_eq!(manager.registrations().len(), 1);
}

#[test]
fn test_manager_repo_path_and_get() {
    let mut manager = RepositoryManager::new("/root/.soma".to_string());
    let backend = Backend::GitBackend("https://example.com/r1.git".to_string());
    manager.add_repo("r1".to_string(), backend.clone()).unwrap();
    assert_eq!(manager.repo_path("r1"), "/root/.soma/r1");
    assert_eq!(manager.get("r1"), Some(&backend));
    assert_eq!(manager.get("r2"), None);
}

#[test]
fn test_parse_git_repo_url() {
    let (name, backend) =
        soma::repo::parse_git_repo_url("https://github.com/PLUS-POSTECH/simple-bof.git").unwrap();
    assert_eq!(name, "simple-bof");
    assert_eq!(
        backend,
        Backend::GitBackend("https://github.com/PLUS-POSTECH/simple-bof.git".to_string())
    );

    let (name, _) = soma::repo::parse_git_repo_url("https://example.com/ctf/probs").unwrap();
    assert_eq!(name, "probs");

    assert_eq!(
        soma::repo::parse_git_repo_url("not a url"),
        Err(SomaError::InvalidRepositoryPathError)
    );
}

#[test]
fn test_parse_local_repo_path() {
    let (name, backend) =
        soma::repo::parse_local_repo_path("../probs/mine", "/home/alice/probs/mine".to_string())
            .unwrap();
    assert_eq!(name, "#mine");
    assert_eq!(
        backend,
        Backend::LocalBackend("/home/alice/probs/mine".to_string())
    );

    let (name, _) =
        soma::repo::parse_local_repo_path("probs/", "/home/alice/probs".to_string()).unwrap();
    assert_eq!(name, "#probs");

    assert_eq!(
        soma::repo::parse_local_repo_path("..", "/x".to_string()),
        Err(SomaError::InvalidRepositoryPathError)
    );
    assert_eq!(
        soma::repo::parse_local_repo_path("/", "/x".to_string()),
        Err(SomaError::InvalidRepositoryPathError)
    );
}

#[test]
fn test_sanity_check_duplicates() {
    let list = ProblemList::new(vec!["a".to_string(), "b/../a".to_string()]);
    let canonical = vec![
        Some("/repo/a".to_string()),
        Some("/repo/a".to_string()),
    ];
    assert_eq!(
        list.sanity_check(&canonical),
        Err(SomaError::InvalidProblemList)
    );
}

#[test]
fn test_sanity_check_unresolvable() {
    let list = ProblemList::new(vec!["a".to_string(), "missing".to_string()]);
    let canonical = vec![Some("/repo/a".to_string()), None];
    assert_eq!(
        list.sanity_check(&canonical),
        Err(SomaError::InvalidProblemList)
    );
}

#[test]
fn test_sanity_check_accepts_distinct() {
    let list = ProblemList::new(vec!["a".to_string(), "b".to_string()]);
    let canonical = vec![Some("/repo/a".to_string()), Some("/repo/b".to_string())];
    assert!(list.sanity_check(&canonical).is_ok());
}

#[test]
fn test_check_unique_prob_names() {
    let unique = vec![index("A", "a"), index("B", "b")];
    assert!(soma::repository::check_unique_prob_names(&unique).is_ok());

    let duplicated = vec![index("A", "a"), index("B", "b"), index("A", "c")];
    assert_eq!(
        soma::repository::check_unique_prob_names(&duplicated),
        Err(SomaError::InvalidProblemList)
    );
}

#[test]
fn test_read_prob_manifest() {
    let manifest = Manifest::new(
        "pwn1".to_string(),
        None,
        BinaryConfig::new(
            "ubuntu:16.04".to_string(),
            "./prob".to_string(),
            vec![],
            vec![],
        ),
    );
    let prob_index = read_prob_manifest(Some(&manifest), "probs/pwn1").unwrap();
    assert_eq!(prob_index, index("pwn1", "probs/pwn1"));

    assert_eq!(
        read_prob_manifest(None, "probs/pwn1"),
        Err(SomaError::InvalidRepository)
    );
}

#[test]
fn test_declared_problem_paths() {
    let list = ProblemList::new(vec!["a".to_string(), "b".to_string()]);
    assert_eq!(
        declared_problem_paths(Some(&list)),
        vec!["a".to_string(), "b".to_string()]
    );
    assert_eq!(declared_problem_paths(None), vec!["./".to_string()]);
}

#[test]
fn test_repository_paths() {
    let manager = RepositoryManager::new("/root/.soma".to_string());
    let repo = Repository::new(
        "r1".to_string(),
        Backend::GitBackend("https://example.com/r1.git".to_string()),
        vec![],
        &manager,
    );
    assert_eq!(repo.name(), "r1");
    assert_eq!(repo.path(), "/root/.soma/r1");

    let simple = soma::repo::Repository::new(
        "r2".to_string(),
        Backend::LocalBackend("/tmp/r2".to_string()),
        &manager,
    );
    assert_eq!(simple.name(), "r2");
    assert_eq!(simple.local_path(), "/root/.soma/r2");
    assert_eq!(
        simple.backend(),
        &Backend::LocalBackend("/tmp/r2".to_string())
    );
}

#[test]
fn test_prob_name_iter() {
    let manager = RepositoryManager::new("/root/.soma".to_string());
    let repo = Repository::new(
        "r1".to_string(),
        Backend::GitBackend("https://example.com/r1.git".to_string()),
        vec![index("A", "a"), index("B", "b")],
        &manager,
    );
    assert_eq!(
        repo.prob_name_iter(),
        vec!["A".to_string(), "B".to_string()]
    );
}

#[test]
fn test_update_rejects_orphaning() {
    let manager = RepositoryManager::new("/root/.soma".to_string());
    let mut repo = Repository::new(
        "r1".to_string(),
        Backend::GitBackend("https://example.com/r1.git".to_string()),
        vec![index("A", "a"), index("B", "b")],
        &manager,
    );
    let images = vec![image_for("r1", "B")];
    let new_list = vec![index("A", "a")];
    assert!(!repo.update_allowed(&new_list, &images));
    assert_eq!(
        repo.update(new_list, &images),
        Err(SomaError::UnsupportedUpdate)
    );
    assert_eq!(
        repo.prob_name_iter(),
        vec!["A".to_string(), "B".to_string()]
    );
}

#[test]
fn test_update_commits_when_safe() {
    let manager = RepositoryManager::new("/root/.soma".to_string());
    let mut repo = Repository::new(
        "r1".to_string(),
        Backend::GitBackend("https://example.com/r1.git".to_string()),
        vec![index("A", "a"), index("B", "b")],
        &manager,
    );
    let images = vec![image_for("r1", "A"), image_for("r2", "B")];
    let new_list = vec![index("A", "a")];
    assert!(repo.update_allowed(&new_list, &images));
    assert!(repo.update(new_list, &images).is_ok());
    assert_eq!(repo.prob_name_iter(), vec!["A".to_string()]);
}
