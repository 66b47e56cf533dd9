//! The conditions that end a run before or instead of the remote build's own
//! status, each with the exit code reserved for it.

use vstd::prelude::*;

verus! {

/// A condition after which nothing further can be done.
#[derive(Clone, Copy, Debug, PartialEq, Eq, Structural)]
pub enum FatalError {
    /// The project's metadata could not be read.
    MetadataRead,
    /// The metadata names no project.
    NoProjectFound,
    /// Neither the command line nor a configuration file names a build host.
    NoRemote,
    /// The project tree could not be transferred to the build host.
    OutboundSync,
    /// The remote shell could not be started.
    RemoteBuild,
    /// The build output could not be transferred back.
    ArtifactCopyBack,
    /// The lock file could not be transferred back.
    LockCopyBack,
    /// The current directory could not be read.
    CurrentDir,
    /// The current directory does not lie under the project root.
    RelativePath,
    /// No ancestor of the current directory holds a manifest.
    ManifestNotFound,
}

impl FatalError {
    /// The exit code reserved for this condition.
    pub open spec fn code(self) -> int {
        match self {
            FatalError::MetadataRead => -1,
            FatalError::NoProjectFound => -2,
            FatalError::NoRemote => -3,
            FatalError::OutboundSync => -4,
            FatalError::RemoteBuild => -5,
            FatalError::ArtifactCopyBack => -6,
            FatalError::LockCopyBack => -7,
            FatalError::CurrentDir => -8,
            FatalError::RelativePath => -9,
            FatalError::ManifestNotFound => -10,
        }
    }

    /// What the user is told when this condition ends the run.
    pub open spec fn text(self) -> Seq<char> {
        match self {
            FatalError::MetadataRead => "Failed to read the project metadata"@,
            FatalError::NoProjectFound => "No project found"@,
            FatalError::NoRemote =>
                "No remote build server was defined (use config file or --remote flag)"@,
            FatalError::OutboundSync => "Failed to transfer project to build server"@,
            FatalError::RemoteBuild => "Failed to run cargo command remotely"@,
            FatalError::ArtifactCopyBack => "Failed to transfer target back to local machine"@,
            FatalError::LockCopyBack => "Failed to transfer Cargo.lock back to local machine"@,
            FatalError::CurrentDir => "Failed to obtain the current path"@,
            FatalError::RelativePath => "Failed to compute the relative path"@,
            FatalError::ManifestNotFound => "Failed to find the Cargo.toml file"@,
        }
    }

    pub fn exit_code(&self) -> (code: i32)
        ensures
            code == self.code(),
    {
        match self {
            FatalError::MetadataRead => -1,
            FatalError::NoProjectFound => -2,
            FatalError::NoRemote => -3,
            FatalError::OutboundSync => -4,
            FatalError::RemoteBuild => -5,
            FatalError::ArtifactCopyBack => -6,
            FatalError::LockCopyBack => -7,
            FatalError::CurrentDir => -8,
            FatalError::RelativePath => -9,
            FatalError::ManifestNotFound => -10,
        }
    }

    pub fn message(&self) -> (text: String)
        ensures
            text@ == self.text(),
    {
        let text = match self {
            FatalError::MetadataRead => "Failed to read the project metadata",
            FatalError::NoProjectFound => "No project found",
            FatalError::NoRemote =>
                "No remote build server was defined (use config file or --remote flag)",
            FatalError::OutboundSync => "Failed to transfer project to build server",
            FatalError::RemoteBuild => "Failed to run cargo command remotely",
            FatalError::ArtifactCopyBack => "Failed to transfer target back to local machine",
            FatalError::LockCopyBack => "Failed to transfer Cargo.lock back to local machine",
            FatalError::CurrentDir => "Failed to obtain the current path",
            FatalError::RelativePath => "Failed to compute the relative path",
            FatalError::ManifestNotFound => "Failed to find the Cargo.toml file",
        };
        String::from_str(text)
    }
}

/// Every fatal condition has a negative exit code of its own: two conditions
/// with the same code are the same condition.
pub proof fn lemma_exit_codes_distinct(a: FatalError, b: FatalError)
    ensures
        a.code() < 0,
        -10 <= a.code(),
        a.code() == b.code() ==> a == b,
{
}

} // verus!
