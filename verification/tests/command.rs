use cargo_remote::command::{build_command, remote_shell_args};
use cargo_remote::options::{CopyBack, Options};

fn release_build() -> Options {
    Options::new(String::from("build"), vec![String::from("--release")])
}

#[test]
fn default_options_are_the_documented_ones() {
    let options = release_build();
    assert_eq!(options.remote, None);
    assert_eq!(options.build_env, "RUST_BACKTRACE=1");
    assert_eq!(options.rustup_default, "stable");
    assert_eq!(options.env, "~/.cargo/env");
    assert_eq!(options.copy_back, CopyBack::Skip);
    assert!(!options.no_copy_lock);
    assert!(!options.hidden);
    assert!(!options.debug);
    assert_eq!(options.command, "build");
    assert_eq!(options.options, vec![String::from("--release")]);
}

#[test]
fn copy_back_flag_has_three_shapes() {
    assert_eq!(CopyBack::from_flag(None), CopyBack::Skip);
    assert_eq!(CopyBack::from_flag(Some(None)), CopyBack::All);
    assert_eq!(
        CopyBack::from_flag(Some(Some(String::from("foo.bin")))),
        CopyBack::File(String::from("foo.bin"))
    );
}

#[test]
fn build_command_with_defaults() {
    let line = build_command(&release_build(), "~/remote-builds/17/", "sub");
    assert_eq!(
        line,
        "source ~/.cargo/env; rustup default stable; cd ~/remote-builds/17/; cd sub; RUST_BACKTRACE=1 cargo build --release"
    );
}

#[test]
fn build_command_with_everything_set() {
    let mut options = Options::new(
        String::from("test"),
        vec![String::from("--workspace"), String::from("--"), String::from("--nocapture")],
    );
    options.env = String::from("/etc/profile");
    options.rustup_default = String::from("nightly");
    options.build_env = String::from("CC=clang RUST_LOG=debug");
    let line = build_command(&options, "~/remote-builds/9/", ".");
    assert_eq!(
        line,
        "source /etc/profile; rustup default nightly; cd ~/remote-builds/9/; cd .; CC=clang RUST_LOG=debug cargo test --workspace -- --nocapture"
    );
}

#[test]
fn build_command_without_arguments_ends_in_a_space() {
    let options = Options::new(String::from("check"), Vec::new());
    let line = build_command(&options, "~/remote-builds/9/", ".");
    assert_eq!(
        line,
        "source ~/.cargo/env; rustup default stable; cd ~/remote-builds/9/; cd .; RUST_BACKTRACE=1 cargo check "
    );
}

#[test]
fn build_command_does_not_quote() {
    let options = Options::new(
        String::from("run"),
        vec![String::from("a b"), String::from("$HOME"), String::from("x;y")],
    );
    let line = build_command(&options, "~/remote-builds/9/", "sub dir");
    assert!(line.ends_with("cargo run a b $HOME x;y"));
    assert!(line.contains("; cd sub dir; "));
}

#[test]
fn build_command_keeps_the_order_of_its_steps() {
    let line = build_command(&release_build(), "~/remote-builds/17/", "sub");
    let source = line.find("source ").unwrap();
    let toolchain = line.find("rustup default ").unwrap();
    let enter = line.find("cd ~/remote-builds/17/").unwrap();
    let descend = line.find("cd sub").unwrap();
    let variables = line.find("RUST_BACKTRACE=1").unwrap();
    let build = line.find("cargo build").unwrap();
    assert!(source < toolchain && toolchain < enter && enter < descend);
    assert!(descend < variables && variables < build);
}

#[test]
fn remote_shell_asks_for_a_terminal() {
    let args = remote_shell_args("buildbox", "echo hi");
    assert_eq!(
        args,
        vec![String::from("-t"), String::from("buildbox"), String::from("echo hi")]
    );
}
