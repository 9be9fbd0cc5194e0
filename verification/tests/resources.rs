use soma::docker::{
    classify_container, classify_image, container_config, container_exists,
    container_from_repo_exists, container_from_repo_running, containers_from_repo, image_exists,
    image_from_repo_and_prob_exists, image_from_repo_exists, image_name, ContainerRecord,
    ImageRecord, SomaContainer, SomaFilterBuilder, SomaImage, VersionStatus,
};

const VERSION: &str = "0.1.0";

fn labels(pairs: &[(&str, &str)]) -> Vec<(String, String)> {
    pairs
        .iter()
        .map(|(k, v)| (k.to_string(), v.to_string()))
        .collect()
}

fn image_record(tags: Option<Vec<&str>>, label_pairs: &[(&str, &str)]) -> ImageRecord {
    ImageRecord {
        id: "sha256:0123".to_string(),
        repo_tags: tags.map(|t| t.iter().map(|s| s.to_string()).collect()),
        labels: labels(label_pairs),
    }
}

fn container_record(id: &str, state: &str, label_pairs: &[(&str, &str)]) -> ContainerRecord {
    ContainerRecord {
        id: id.to_string(),
        state: state.to_string(),
        labels: labels(label_pairs),
    }
}

#[test]
fn test_classify_image_version_status() {
    let normal = classify_image(
        image_record(None, &[("soma.version", VERSION), ("soma.repository", "r1")]),
        VERSION,
    );
    assert!(matches!(normal.status(), VersionStatus::Normal));
    assert_eq!(normal.repository_name(), "r1");

    let mismatch = classify_image(
        image_record(None, &[("soma.version", "0.0.9"), ("soma.repository", "r1")]),
        VERSION,
    );
    assert!(matches!(mismatch.status(), VersionStatus::VersionMismatch));

    let missing = classify_image(image_record(None, &[("soma.repository", "r1")]), VERSION);
    assert!(matches!(missing.status(), VersionStatus::NoVersionFound));
}

#[test]
fn test_classify_batches_keep_order() {
    let images = vec![
        image_record(None, &[("soma.repository", "r1"), ("soma.version", VERSION)]),
        image_record(None, &[]),
    ];
    let classified = soma::docker::classify_images(images, VERSION);
    assert_eq!(classified.len(), 2);
    assert_eq!(classified[0].repository_name(), "r1");
    assert!(matches!(classified[0].status(), VersionStatus::Normal));
    assert_eq!(classified[1].repository_name(), "**NONAME**");
    assert!(matches!(classified[1].status(), VersionStatus::NoVersionFound));

    let containers = vec![
        container_record("c1", "running", &[("soma.version", "0.0.9")]),
        container_record("c2", "exited", &[("soma.repository", "r2")]),
    ];
    let classified = soma::docker::classify_containers(containers, VERSION);
    assert_eq!(classified.len(), 2);
    assert!(matches!(
        classified[0].status(),
        VersionStatus::VersionMismatch
    ));
    assert_eq!(classified[0].container().id, "c1");
    assert_eq!(classified[1].repository_name(), "r2");
}

#[test]
fn test_classify_repository_label_sentinel() {
    let unnamed = classify_image(image_record(None, &[("soma.version", VERSION)]), VERSION);
    assert_eq!(unnamed.repository_name(), "**NONAME**");
}

#[test]
fn test_classify_container_version_status() {
    let normal = classify_container(
        container_record(
            "c1",
            "running",
            &[("soma.version", VERSION), ("soma.repository", "r1")],
        ),
        VERSION,
    );
    assert!(matches!(normal.status(), VersionStatus::Normal));
    assert_eq!(normal.repository_name(), "r1");
    assert_eq!(normal.container().state, "running");

    let missing = classify_container(container_record("c2", "exited", &[]), VERSION);
    assert!(matches!(missing.status(), VersionStatus::NoVersionFound));
    assert_eq!(missing.repository_name(), "**NONAME**");
}

#[test]
fn test_image_name_prefix() {
    assert_eq!(image_name("pwn1"), "soma/pwn1");
}

#[test]
fn test_image_exists_tag_prefix() {
    let images = vec![
        SomaImage::new(
            "r1".to_string(),
            image_record(Some(vec!["soma/pwn10:latest"]), &[]),
            VersionStatus::Normal,
        ),
        SomaImage::new(
            "r1".to_string(),
            image_record(Some(vec!["soma/pwn1:latest"]), &[]),
            VersionStatus::Normal,
        ),
    ];
    assert!(image_exists(&images, "soma/pwn1"));
    assert!(image_exists(&images, "soma/pwn10"));
    assert!(!image_exists(&images, "soma/pwn"));

    let untagged = vec![SomaImage::new(
        "r1".to_string(),
        image_record(None, &[]),
        VersionStatus::Normal,
    )];
    assert!(!image_exists(&untagged, "soma/pwn1"));
}

#[test]
fn test_image_from_repo_queries() {
    let images = vec![SomaImage::new(
        "r1".to_string(),
        image_record(Some(vec!["soma/pwn1:latest"]), &[]),
        VersionStatus::Normal,
    )];
    assert!(image_from_repo_exists(&images, "r1"));
    assert!(!image_from_repo_exists(&images, "r2"));
    assert!(image_from_repo_and_prob_exists(&images, "r1", "pwn1"));
    assert!(!image_from_repo_and_prob_exists(&images, "r2", "pwn1"));
    assert!(!image_from_repo_and_prob_exists(&images, "r1", "pwn2"));
}

#[test]
fn test_container_queries() {
    let containers = vec![
        SomaContainer::new(
            "r1".to_string(),
            container_record("c1", "exited", &[]),
            VersionStatus::Normal,
        ),
        SomaContainer::new(
            "r2".to_string(),
            container_record("c2", "running", &[]),
            VersionStatus::Normal,
        ),
    ];
    assert!(container_exists(&containers, "c1"));
    assert!(!container_exists(&containers, "c3"));
    assert!(container_from_repo_exists(&containers, "r1"));
    assert!(!container_from_repo_exists(&containers, "r3"));
    assert!(container_from_repo_running(&containers, "r2"));
    assert!(!container_from_repo_running(&containers, "r1"));
}

#[test]
fn test_containers_from_repo_filters() {
    let containers = vec![
        SomaContainer::new(
            "r1".to_string(),
            container_record("c1", "running", &[]),
            VersionStatus::Normal,
        ),
        SomaContainer::new(
            "r2".to_string(),
            container_record("c2", "running", &[]),
            VersionStatus::Normal,
        ),
        SomaContainer::new(
            "r1".to_string(),
            container_record("c3", "exited", &[]),
            VersionStatus::Normal,
        ),
    ];
    let filtered = containers_from_repo(containers, "r1");
    assert_eq!(filtered.len(), 2);
    assert_eq!(filtered[0].container().id, "c1");
    assert_eq!(filtered[1].container().id, "c3");
}

#[test]
fn test_filter_builder_scopes_user_and_repo() {
    let filter = SomaFilterBuilder::new()
        .append_user("alice")
        .append_repo("r1")
        .build();
    assert_eq!(
        filter.label,
        vec![
            "soma.username=alice".to_string(),
            "soma.repository=r1".to_string()
        ]
    );
}

#[test]
fn test_container_config_labels_and_port() {
    let config = container_config("soma/pwn1", "r1", "alice", VERSION, "31337");
    assert_eq!(config.image, "soma/pwn1");
    assert_eq!(config.container_port, "1337/tcp");
    assert_eq!(config.host_port, "31337");
    assert_eq!(
        config.labels,
        vec![
            ("soma.version".to_string(), VERSION.to_string()),
            ("soma.username".to_string(), "alice".to_string()),
            ("soma.repository".to_string(), "r1".to_string()),
        ]
    );
}
