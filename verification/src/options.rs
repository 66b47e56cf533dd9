//! What the user asked for on the command line.

use vstd::prelude::*;

verus! {

/// Whether build output is brought back after the build, and how much of it.
#[derive(Debug, PartialEq, Eq)]
pub enum CopyBack {
    /// Nothing is brought back.
    Skip,
    /// The whole output directory is brought back.
    All,
    /// One file of the output directory is brought back.
    File(String),
}

/// A copy-back request over names as sequences of characters.
pub enum CopyBackView {
    Skip,
    All,
    File(Seq<char>),
}

impl View for CopyBack {
    type V = CopyBackView;

    open spec fn view(&self) -> CopyBackView {
        match self {
            CopyBack::Skip => CopyBackView::Skip,
            CopyBack::All => CopyBackView::All,
            CopyBack::File(name) => CopyBackView::File(name@),
        }
    }
}

impl CopyBackView {
    /// A flag that was not given asks for nothing, one given bare for the
    /// whole directory, one given with a value for the file of that name.
    pub open spec fn from_flag(flag: Option<Option<Seq<char>>>) -> CopyBackView {
        match flag {
            None => CopyBackView::Skip,
            Some(None) => CopyBackView::All,
            Some(Some(name)) => CopyBackView::File(name),
        }
    }

    /// The name below the output directory that the request stands for:
    /// none for the directory itself.
    pub open spec fn name(self) -> Seq<char> {
        match self {
            CopyBackView::File(name) => name,
            _ => Seq::empty(),
        }
    }
}

impl CopyBack {
    /// Reads the request off a flag that takes an optional value.
    pub fn from_flag(flag: Option<Option<String>>) -> (request: CopyBack)
        ensures
            request@ == CopyBackView::from_flag(flag.deep_view()),
    {
        match flag {
            None => CopyBack::Skip,
            Some(None) => CopyBack::All,
            Some(Some(name)) => CopyBack::File(name),
        }
    }
}

/// The options of one invocation.
#[derive(Debug, PartialEq, Eq)]
pub struct Options {
    /// The build host, where the command line names one.
    pub remote: Option<String>,
    /// Variable assignments put in front of the build command.
    pub build_env: String,
    /// The toolchain channel selected before the build.
    pub rustup_default: String,
    /// The profile script sourced before the build.
    pub env: String,
    /// What is brought back of the build output.
    pub copy_back: CopyBack,
    /// Whether the lock file stays on the build host.
    pub no_copy_lock: bool,
    /// Whether hidden files and directories are transferred.
    pub hidden: bool,
    /// Whether informational messages are shown.
    pub debug: bool,
    /// The subcommand of the build tool.
    pub command: String,
    /// The arguments passed on to the subcommand, in order.
    pub options: Vec<String>,
}

/// Options over texts as sequences of characters.
pub struct OptionsView {
    pub remote: Option<Seq<char>>,
    pub build_env: Seq<char>,
    pub rustup_default: Seq<char>,
    pub env: Seq<char>,
    pub copy_back: CopyBackView,
    pub no_copy_lock: bool,
    pub hidden: bool,
    pub debug: bool,
    pub command: Seq<char>,
    pub options: Seq<Seq<char>>,
}

impl View for Options {
    type V = OptionsView;

    open spec fn view(&self) -> OptionsView {
        OptionsView {
            remote: self.remote.deep_view(),
            build_env: self.build_env@,
            rustup_default: self.rustup_default@,
            env: self.env@,
            copy_back: self.copy_back@,
            no_copy_lock: self.no_copy_lock,
            hidden: self.hidden,
            debug: self.debug,
            command: self.command@,
            options: self.options.deep_view(),
        }
    }
}

impl OptionsView {
    /// The options of an invocation that gives the subcommand and its
    /// arguments and leaves everything else as it is by default.
    pub open spec fn defaults(command: Seq<char>, options: Seq<Seq<char>>) -> OptionsView {
        OptionsView {
            remote: None,
            build_env: "RUST_BACKTRACE=1"@,
            rustup_default: "stable"@,
            env: "~/.cargo/env"@,
            copy_back: CopyBackView::Skip,
            no_copy_lock: false,
            hidden: false,
            debug: false,
            command,
            options,
        }
    }
}

impl Options {
    /// The options of an invocation that gives only the subcommand and its
    /// arguments: no host, backtraces switched on, the stable toolchain,
    /// the usual profile script, nothing brought back but the lock file,
    /// hidden files left out.
    pub fn new(command: String, options: Vec<String>) -> (made: Options)
        ensures
            made@ == OptionsView::defaults(command@, options.deep_view()),
    {
        Options {
            remote: None,
            build_env: String::from_str("RUST_BACKTRACE=1"),
            rustup_default: String::from_str("stable"),
            env: String::from_str("~/.cargo/env"),
            copy_back: CopyBack::Skip,
            no_copy_lock: false,
            hidden: false,
            debug: false,
            command,
            options,
        }
    }
}

} // verus!
