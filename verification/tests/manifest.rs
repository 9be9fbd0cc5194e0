use soma::error::SomaError;
use soma::repo::{BinaryConfig, FileEntry, FilePermissions, Manifest};

fn entry(path: &str) -> FileEntry {
    FileEntry::new(path.to_string(), None, None)
}

fn simple_manifest(work_dir: Option<&str>) -> Manifest {
    Manifest::new(
        "pwn1".to_string(),
        work_dir.map(|w| w.to_string()),
        BinaryConfig::new(
            "ubuntu:16.04".to_string(),
            "./prob".to_string(),
            vec![entry("build/prob")],
            vec![entry("flag")],
        ),
    )
}

#[test]
fn test_file_permissions_ser() {
    assert_eq!(FilePermissions::Executable.permissions_string(), "550");
    assert_eq!(FilePermissions::ReadOnly.permissions_string(), "440");
    assert_eq!(FilePermissions::Custom(0o777).permissions_string(), "777");
}

#[test]
fn test_file_permissions_de() {
    assert_eq!(
        FilePermissions::parse("550"),
        Ok(FilePermissions::Custom(0o550))
    );
    assert_eq!(
        FilePermissions::parse("440"),
        Ok(FilePermissions::Custom(0o440))
    );
    assert_eq!(
        FilePermissions::parse("777"),
        Ok(FilePermissions::Custom(0o777))
    );
    assert_eq!(
        FilePermissions::parse("1000"),
        Err(SomaError::InvalidPermissionString)
    );
}

#[test]
fn test_permissions_parse_edges() {
    assert_eq!(FilePermissions::parse("0"), Ok(FilePermissions::Custom(0)));
    assert_eq!(
        FilePermissions::parse("0000777"),
        Ok(FilePermissions::Custom(0o777))
    );
    assert_eq!(
        FilePermissions::parse(""),
        Err(SomaError::InvalidPermissionString)
    );
    assert_eq!(
        FilePermissions::parse("778"),
        Err(SomaError::InvalidPermissionString)
    );
    assert_eq!(
        FilePermissions::parse("+77"),
        Err(SomaError::InvalidPermissionString)
    );
    assert_eq!(
        FilePermissions::parse("7a"),
        Err(SomaError::InvalidPermissionString)
    );
}

#[test]
fn test_permissions_string_zero_padded() {
    assert_eq!(FilePermissions::Custom(0o7).permissions_string(), "007");
    assert_eq!(FilePermissions::Custom(0).permissions_string(), "000");
    assert_eq!(FilePermissions::Custom(0o70).permissions_string(), "070");
    assert_eq!(FilePermissions::Custom(0o550).permissions_string(), "550");
}

#[test]
fn test_solidify_deterministic() {
    let manifest = simple_manifest(None);
    let first = manifest.solidify().unwrap();
    let second = manifest.solidify().unwrap();
    assert_eq!(first, second);
}

#[test]
fn test_solidify_default_work_dir_and_target() {
    let solid = simple_manifest(None).solidify().unwrap();
    assert_eq!(solid.name, "pwn1");
    assert_eq!(solid.work_dir, "/home/pwn1");
    assert_eq!(solid.binary.os, "ubuntu:16.04");
    assert_eq!(solid.binary.cmd, "./prob");
    assert_eq!(solid.binary.file_entries.len(), 2);
    assert_eq!(solid.binary.file_entries[0].target_path, "/home/pwn1/prob");
    assert_eq!(solid.binary.file_entries[1].target_path, "/home/pwn1/flag");
}

#[test]
fn test_solidify_explicit_work_dir() {
    let solid = simple_manifest(Some("/srv/ctf")).solidify().unwrap();
    assert_eq!(solid.work_dir, "/srv/ctf");
    assert_eq!(solid.binary.file_entries[0].target_path, "/srv/ctf/prob");
}

#[test]
fn test_solidify_explicit_target_kept_verbatim() {
    let manifest = Manifest::new(
        "pwn1".to_string(),
        None,
        BinaryConfig::new(
            "ubuntu:16.04".to_string(),
            "./prob".to_string(),
            vec![FileEntry::new(
                "build/prob".to_string(),
                None,
                Some("/usr/bin/prob".to_string()),
            )],
            vec![],
        ),
    );
    let solid = manifest.solidify().unwrap();
    assert_eq!(solid.binary.file_entries[0].target_path, "/usr/bin/prob");
}

#[test]
fn test_solidify_permission_defaults() {
    let solid = simple_manifest(None).solidify().unwrap();
    assert_eq!(
        solid.binary.file_entries[0].permissions,
        FilePermissions::Executable
    );
    assert_eq!(
        solid.binary.file_entries[1].permissions,
        FilePermissions::ReadOnly
    );
    assert_eq!(
        solid.binary.file_entries[0].permissions.permissions_string(),
        "550"
    );
    assert_eq!(
        solid.binary.file_entries[1].permissions.permissions_string(),
        "440"
    );
}

#[test]
fn test_solidify_public_flag_defaults_to_private() {
    let manifest = Manifest::new(
        "pwn1".to_string(),
        None,
        BinaryConfig::new(
            "ubuntu:16.04".to_string(),
            "./prob".to_string(),
            vec![
                FileEntry::new("a".to_string(), None, None),
                FileEntry::new("b".to_string(), Some(true), None),
            ],
            vec![],
        ),
    );
    assert!(!manifest.binary().executable()[0].public());
    assert!(manifest.binary().executable()[1].public());
    let solid = manifest.solidify().unwrap();
    assert!(!solid.binary.file_entries[0].public);
    assert!(solid.binary.file_entries[1].public);
}

#[test]
fn test_solidify_missing_file_name() {
    let manifest = Manifest::new(
        "pwn1".to_string(),
        None,
        BinaryConfig::new(
            "ubuntu:16.04".to_string(),
            "./prob".to_string(),
            vec![entry("build/..")],
            vec![],
        ),
    );
    assert_eq!(manifest.solidify(), Err(SomaError::FileNameNotFoundError));
}

#[test]
fn test_solidify_ignores_trailing_separator() {
    let manifest = Manifest::new(
        "pwn1".to_string(),
        None,
        BinaryConfig::new(
            "ubuntu:16.04".to_string(),
            "./prob".to_string(),
            vec![entry("build/")],
            vec![],
        ),
    );
    let solid = manifest.solidify().unwrap();
    assert_eq!(solid.binary.file_entries[0].target_path, "/home/pwn1/build");
}

#[test]
fn test_manifest_getters() {
    let manifest = simple_manifest(None);
    assert_eq!(manifest.name(), "pwn1");
    assert_eq!(manifest.binary().executable().len(), 1);
    assert_eq!(manifest.binary().readonly().len(), 1);
    assert_eq!(manifest.binary().executable()[0].path(), "build/prob");
}
