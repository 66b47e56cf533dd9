//! The command that runs on the build host.

use crate::options::{Options, OptionsView};
use crate::text::{join, joined, push_text};
use vstd::prelude::*;

verus! {

/// The one line handed to the remote shell. In order: source the profile
/// script, select the toolchain, enter the build directory, enter the
/// subdirectory the user stood in, and run the build tool's subcommand with
/// the variable assignments in front and the arguments behind, separated by
/// single spaces. Nothing is quoted: what the shell makes of an argument is
/// up to the user.
pub open spec fn build_command_of(options: OptionsView, build_path: Seq<char>, subdir: Seq<char>)
    -> Seq<char> {
    "source "@ + options.env + "; rustup default "@ + options.rustup_default + "; cd "@
        + build_path + "; cd "@ + subdir + "; "@ + options.build_env + " cargo "@ + options.command
        + " "@ + joined(options.options, " "@)
}

/// The arguments of the remote shell: a terminal is asked for, so that
/// progress output is drawn as on a local build; then the host; then the
/// command line.
pub open spec fn shell_args_of(host: Seq<char>, command_line: Seq<char>) -> Seq<Seq<char>> {
    seq!["-t"@, host, command_line]
}

/// Composes the command line that builds in `subdir` of `build_path`.
pub fn build_command(options: &Options, build_path: &str, subdir: &str) -> (line: String)
    ensures
        line@ == build_command_of(options@, build_path@, subdir@),
{
    let arguments = join(&options.options, " ");
    let mut line = String::from_str("source ");
    line.append(options.env.as_str());
    line.append("; rustup default ");
    line.append(options.rustup_default.as_str());
    line.append("; cd ");
    line.append(build_path);
    line.append("; cd ");
    line.append(subdir);
    line.append("; ");
    line.append(options.build_env.as_str());
    line.append(" cargo ");
    line.append(options.command.as_str());
    line.append(" ");
    line.append(arguments.as_str());
    line
}

/// Builds the arguments of the remote shell that runs `command_line` on
/// `host`.
pub fn remote_shell_args(host: &str, command_line: &str) -> (args: Vec<String>)
    ensures
        args.deep_view() == shell_args_of(host@, command_line@),
{
    let mut args: Vec<String> = Vec::new();
    assert(args.deep_view() =~= Seq::<Seq<char>>::empty());
    push_text(&mut args, "-t");
    push_text(&mut args, host);
    push_text(&mut args, command_line);
    assert(args.deep_view() =~= shell_args_of(host@, command_line@));
    args
}

} // verus!
