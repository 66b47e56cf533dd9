use cargo_remote::error::FatalError;

fn all() -> Vec<FatalError> {
    vec![
        FatalError::MetadataRead,
        FatalError::NoProjectFound,
        FatalError::NoRemote,
        FatalError::OutboundSync,
        FatalError::RemoteBuild,
        FatalError::ArtifactCopyBack,
        FatalError::LockCopyBack,
        FatalError::CurrentDir,
        FatalError::RelativePath,
        FatalError::ManifestNotFound,
    ]
}

#[test]
fn exit_codes_are_the_reserved_ones() {
    assert_eq!(FatalError::MetadataRead.exit_code(), -1);
    assert_eq!(FatalError::NoProjectFound.exit_code(), -2);
    assert_eq!(FatalError::NoRemote.exit_code(), -3);
    assert_eq!(FatalError::OutboundSync.exit_code(), -4);
    assert_eq!(FatalError::RemoteBuild.exit_code(), -5);
    assert_eq!(FatalError::ArtifactCopyBack.exit_code(), -6);
    assert_eq!(FatalError::LockCopyBack.exit_code(), -7);
    assert_eq!(FatalError::CurrentDir.exit_code(), -8);
    assert_eq!(FatalError::RelativePath.exit_code(), -9);
    assert_eq!(FatalError::ManifestNotFound.exit_code(), -10);
}

#[test]
fn exit_codes_are_negative_and_distinct() {
    let errors = all();
    for (i, a) in errors.iter().enumerate() {
        assert!(a.exit_code() < 0);
        for (j, b) in errors.iter().enumerate() {
            if i != j {
                assert_ne!(a.exit_code(), b.exit_code());
            }
        }
    }
}

#[test]
fn messages_say_what_went_wrong() {
    assert_eq!(
        FatalError::NoRemote.message(),
        "No remote build server was defined (use config file or --remote flag)"
    );
    assert_eq!(
        FatalError::OutboundSync.message(),
        "Failed to transfer project to build server"
    );
    assert_eq!(FatalError::RemoteBuild.message(), "Failed to run cargo command remotely");
    assert_eq!(
        FatalError::ArtifactCopyBack.message(),
        "Failed to transfer target back to local machine"
    );
    assert_eq!(
        FatalError::LockCopyBack.message(),
        "Failed to transfer Cargo.lock back to local machine"
    );
    assert_eq!(FatalError::CurrentDir.message(), "Failed to obtain the current path");
    assert_eq!(FatalError::RelativePath.message(), "Failed to compute the relative path");
    assert_eq!(FatalError::ManifestNotFound.message(), "Failed to find the Cargo.toml file");
    assert_eq!(FatalError::MetadataRead.message(), "Failed to read the project metadata");
    assert_eq!(FatalError::NoProjectFound.message(), "No project found");
}

#[test]
fn every_condition_has_a_message() {
    for error in all() {
        assert!(!error.message().is_empty());
    }
}
