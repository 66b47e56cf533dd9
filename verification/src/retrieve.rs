//! The transfers from the build host back to the project: the build output,
//! where it was asked for, and the lock file, unless it was declined.

use crate::options::{CopyBack, CopyBackView};
use crate::sync::{start_transfer, transfer_flags};
use crate::text::push_text;
use vstd::prelude::*;

verus! {

/// Where the build output, or the file `name` of it, lies on the host.
pub open spec fn remote_artifact_of(host: Seq<char>, build_path: Seq<char>, name: Seq<char>)
    -> Seq<char> {
    host + ":"@ + build_path + "/target/"@ + name
}

/// Where the build output, or the file `name` of it, lies in the project.
pub open spec fn local_artifact_of(project_dir: Seq<char>, name: Seq<char>) -> Seq<char> {
    project_dir + "/target/"@ + name
}

/// The arguments of the transfer that brings build output back, where one
/// was asked for: the flags of every transfer, then source and destination,
/// both the output directory itself or both the same file of it.
pub open spec fn artifact_args_of(
    copy_back: CopyBackView,
    host: Seq<char>,
    build_path: Seq<char>,
    project_dir: Seq<char>,
) -> Option<Seq<Seq<char>>> {
    match copy_back {
        CopyBackView::Skip => None,
        _ => Some(
            transfer_flags() + seq![
                remote_artifact_of(host, build_path, copy_back.name()),
                local_artifact_of(project_dir, copy_back.name()),
            ],
        ),
    }
}

/// The arguments of the transfer that brings the lock file back to the
/// project root, unless that was declined.
pub open spec fn lock_args_of(
    no_copy_lock: bool,
    host: Seq<char>,
    build_path: Seq<char>,
    project_dir: Seq<char>,
) -> Option<Seq<Seq<char>>> {
    if no_copy_lock {
        None
    } else {
        Some(
            transfer_flags() + seq![
                host + ":"@ + build_path + "/Cargo.lock"@,
                project_dir + "/Cargo.lock"@,
            ],
        )
    }
}

/// Builds the arguments of the transfer that brings build output back from
/// `build_path` on `host`, or nothing where none was asked for.
pub fn artifact_sync_args(copy_back: &CopyBack, host: &str, build_path: &str, project_dir: &str)
    -> (args: Option<Vec<String>>)
    ensures
        args.deep_view() == artifact_args_of(copy_back@, host@, build_path@, project_dir@),
{
    let name = match copy_back {
        CopyBack::Skip => {
            return None;
        },
        CopyBack::All => "",
        CopyBack::File(name) => name.as_str(),
    };
    proof {
        reveal_strlit("");
    }
    assert(name@ =~= copy_back@.name());
    let mut args = start_transfer();
    let mut source = String::from_str(host);
    source.append(":");
    source.append(build_path);
    source.append("/target/");
    source.append(name);
    push_text(&mut args, source.as_str());
    let mut target = String::from_str(project_dir);
    target.append("/target/");
    target.append(name);
    push_text(&mut args, target.as_str());
    assert(args.deep_view() =~= artifact_args_of(
        copy_back@,
        host@,
        build_path@,
        project_dir@,
    )->0);
    Some(args)
}

/// Builds the arguments of the transfer that brings the lock file back from
/// `build_path` on `host`, or nothing where that was declined.
pub fn lock_sync_args(no_copy_lock: bool, host: &str, build_path: &str, project_dir: &str) -> (args:
    Option<Vec<String>>)
    ensures
        args.deep_view() == lock_args_of(no_copy_lock, host@, build_path@, project_dir@),
{
    if no_copy_lock {
        return None;
    }
    let mut args = start_transfer();
    let mut source = String::from_str(host);
    source.append(":");
    source.append(build_path);
    source.append("/Cargo.lock");
    push_text(&mut args, source.as_str());
    let mut target = String::from_str(project_dir);
    target.append("/Cargo.lock");
    push_text(&mut args, target.as_str());
    assert(args.deep_view() =~= lock_args_of(no_copy_lock, host@, build_path@, project_dir@)->0);
    Some(args)
}

/// Whether a text ends with another.
pub open spec fn ends_with(text: Seq<char>, tail: Seq<char>) -> bool {
    tail.len() <= text.len() && text.skip(text.len() - tail.len()) == tail
}

/// No transfer of build output is planned unless one was asked for. A
/// request for the whole directory names the output directory on both
/// sides, and a request for one file names that file on both sides: source
/// and destination end with its name.
pub proof fn lemma_artifact_transfer(
    copy_back: CopyBackView,
    host: Seq<char>,
    build_path: Seq<char>,
    project_dir: Seq<char>,
)
    ensures
        copy_back is Skip <==> artifact_args_of(copy_back, host, build_path, project_dir) is None,
        copy_back is All ==> {
            let args = artifact_args_of(copy_back, host, build_path, project_dir)->0;
            &&& args.len() == 6
            &&& args[4] == host + ":"@ + build_path + "/target/"@
            &&& args[5] == project_dir + "/target/"@
        },
        copy_back matches CopyBackView::File(name) ==> {
            let args = artifact_args_of(copy_back, host, build_path, project_dir)->0;
            &&& args.len() == 6
            &&& ends_with(args[4], "/target/"@ + name)
            &&& ends_with(args[5], "/target/"@ + name)
            &&& ends_with(args[4], name)
            &&& ends_with(args[5], name)
        },
{
    match copy_back {
        CopyBackView::Skip => {},
        CopyBackView::All => {
            let args = artifact_args_of(copy_back, host, build_path, project_dir)->0;
            assert(args[4] =~= host + ":"@ + build_path + "/target/"@);
            assert(args[5] =~= project_dir + "/target/"@);
        },
        CopyBackView::File(name) => {
            let args = artifact_args_of(copy_back, host, build_path, project_dir)->0;
            let tail = "/target/"@ + name;
            assert(args[4].skip(args[4].len() - tail.len()) =~= tail);
            assert(args[5].skip(args[5].len() - tail.len()) =~= tail);
            assert(args[4].skip(args[4].len() - name.len()) =~= name);
            assert(args[5].skip(args[5].len() - name.len()) =~= name);
        },
    }
}

} // verus!
