//! The transfer of the project tree to the build host.

use crate::text::push_text;
use vstd::prelude::*;

verus! {

/// The flags every transfer is made with: archive mode, which keeps
/// permissions, times and links; removal of what the source no longer has;
/// compression on the way; a progress report.
pub open spec fn transfer_flags() -> Seq<Seq<char>> {
    seq!["-a"@, "--delete"@, "--compress"@, "--info=progress2"@]
}

/// The patterns left out of the outbound transfer: the build output
/// always, hidden files and directories unless they were asked for.
pub open spec fn exclusions(hidden: bool) -> Seq<Seq<char>> {
    if hidden {
        seq!["--exclude"@, "target"@]
    } else {
        seq!["--exclude"@, "target"@, "--exclude"@, ".*"@]
    }
}

/// The arguments of the outbound transfer: the flags, the exclusions, a
/// remote command that makes the parent of the build directories before
/// it receives, the contents of the project directory as source, and the
/// build directory on the host as destination.
pub open spec fn outbound_args_of(
    project_dir: Seq<char>,
    host: Seq<char>,
    build_path: Seq<char>,
    hidden: bool,
) -> Seq<Seq<char>> {
    transfer_flags() + exclusions(hidden) + seq![
        "--rsync-path"@,
        "mkdir -p remote-builds && rsync"@,
        project_dir + "/"@,
        host + ":"@ + build_path,
    ]
}

/// Whether a list of arguments leaves out what matches `pattern`.
pub open spec fn excludes(args: Seq<Seq<char>>, pattern: Seq<char>) -> bool {
    exists|i: int| 0 <= i < args.len() - 1 && #[trigger] args[i] == "--exclude"@ && args[i + 1]
        == pattern
}

/// Puts the flags of every transfer in front of a list of arguments.
pub fn start_transfer() -> (args: Vec<String>)
    ensures
        args.deep_view() == transfer_flags(),
{
    let mut args: Vec<String> = Vec::new();
    assert(args.deep_view() =~= Seq::<Seq<char>>::empty());
    push_text(&mut args, "-a");
    push_text(&mut args, "--delete");
    push_text(&mut args, "--compress");
    push_text(&mut args, "--info=progress2");
    assert(args.deep_view() =~= transfer_flags());
    args
}

/// Builds the arguments of the outbound transfer of the project at
/// `project_dir` to `build_path` on `host`.
pub fn outbound_sync_args(project_dir: &str, host: &str, build_path: &str, hidden: bool) -> (args:
    Vec<String>)
    ensures
        args.deep_view() == outbound_args_of(project_dir@, host@, build_path@, hidden),
{
    let mut args = start_transfer();
    push_text(&mut args, "--exclude");
    push_text(&mut args, "target");
    if !hidden {
        push_text(&mut args, "--exclude");
        push_text(&mut args, ".*");
    }
    assert(args.deep_view() =~= transfer_flags() + exclusions(hidden));
    push_text(&mut args, "--rsync-path");
    push_text(&mut args, "mkdir -p remote-builds && rsync");
    let mut source = String::from_str(project_dir);
    source.append("/");
    push_text(&mut args, source.as_str());
    let mut target = String::from_str(host);
    target.append(":");
    target.append(build_path);
    push_text(&mut args, target.as_str());
    assert(args.deep_view() =~= outbound_args_of(project_dir@, host@, build_path@, hidden));
    args
}

/// The outbound transfer always leaves out the build output, and it leaves
/// out hidden files and directories exactly when they were not asked for.
pub proof fn lemma_outbound_exclusions(
    project_dir: Seq<char>,
    host: Seq<char>,
    build_path: Seq<char>,
    hidden: bool,
)
    ensures
        excludes(outbound_args_of(project_dir, host, build_path, hidden), "target"@),
        excludes(outbound_args_of(project_dir, host, build_path, hidden), ".*"@) <==> !hidden,
{
    let args = outbound_args_of(project_dir, host, build_path, hidden);
    reveal_strlit("-a");
    reveal_strlit("--delete");
    reveal_strlit("--compress");
    reveal_strlit("--info=progress2");
    reveal_strlit("--exclude");
    reveal_strlit("target");
    reveal_strlit(".*");
    reveal_strlit("--rsync-path");
    reveal_strlit("mkdir -p remote-builds && rsync");
    reveal_strlit("/");
    assert(args[4] == "--exclude"@ && args[5] == "target"@);
    if hidden {
        assert(args.len() == 10);
        assert(args[8].last() == '/');
        assert("--exclude"@.last() == 'e');
        assert(".*"@[0] == '.');
        assert forall|i: int| 0 <= i < args.len() - 1 && #[trigger] args[i]
            == "--exclude"@ implies args[i + 1] != ".*"@ by {
            assert(args[0].len() == 2);
            assert(args[1].len() == 8);
            assert(args[2].len() == 10);
            assert(args[3].len() == 16);
            assert(args[5].len() == 6);
            assert(args[6].len() == 12);
            assert(args[7].len() == 31);
            assert("--exclude"@.len() == 9);
            assert(i == 4);
            assert(args[5][0] == 't');
        }
    } else {
        assert(args[6] == "--exclude"@ && args[7] == ".*"@);
    }
}

} // verus!
