//! The directory on the build host that holds a project's copy. Its name is
//! derived from the project root alone, so that every run for one project
//! lands in the same directory.

use crate::text::{decimal, lemma_decimal_injective, to_decimal};
use std::collections::hash_map::DefaultHasher;
use std::hash::Hasher;
use vstd::prelude::*;
use vstd::std_specs::hash::DefaultHasherAdditionalSpecFns;
use vstd::utf8::encode_utf8;

verus! {

/// The identifier of a project: the hash of the bytes of its root path,
/// fed to a fresh hasher in one piece.
pub open spec fn project_id_of(project_dir: Seq<char>) -> u64 {
    DefaultHasher::spec_finish(seq![encode_utf8(project_dir)])
}

/// The build directory that belongs to an identifier.
pub open spec fn build_path_of(id: u64) -> Seq<char> {
    "~/remote-builds/"@ + decimal(id as nat) + "/"@
}

/// The build directory of a project.
pub open spec fn remote_build_path_of(project_dir: Seq<char>) -> Seq<char> {
    build_path_of(project_id_of(project_dir))
}

/// Computes the identifier of the project rooted at `project_dir`.
pub fn project_id(project_dir: &str) -> (id: u64)
    ensures
        id == project_id_of(project_dir@),
{
    let mut hasher = DefaultHasher::new();
    hasher.write(project_dir.as_bytes());
    hasher.finish()
}

/// Writes out the build directory that belongs to an identifier.
pub fn build_path(id: u64) -> (path: String)
    ensures
        path@ == build_path_of(id),
{
    let mut path = String::from_str("~/remote-builds/");
    let number = to_decimal(id);
    path.append(number.as_str());
    path.append("/");
    path
}

/// Derives the build directory of the project rooted at `project_dir`. The
/// result depends on the path's text and on nothing else.
pub fn remote_build_path(project_dir: &str) -> (path: String)
    ensures
        path@ == remote_build_path_of(project_dir@),
{
    build_path(project_id(project_dir))
}

/// Two identifiers have the same build directory only if they are the same
/// identifier.
pub proof fn lemma_build_path_injective(a: u64, b: u64)
    requires
        build_path_of(a) == build_path_of(b),
    ensures
        a == b,
{
    let head = "~/remote-builds/"@;
    let tail = "/"@;
    let x = decimal(a as nat);
    let y = decimal(b as nat);
    reveal_strlit("/");
    assert(x.len() == y.len()) by {
        assert((head + x + tail).len() == head.len() + x.len() + 1);
        assert((head + y + tail).len() == head.len() + y.len() + 1);
    }
    assert(x =~= y) by {
        assert forall|i: int| 0 <= i < x.len() implies x[i] == y[i] by {
            assert((head + x + tail)[head.len() + i] == x[i]);
            assert((head + y + tail)[head.len() + i] == y[i]);
        }
    }
    lemma_decimal_injective(a as nat, b as nat);
}

/// The build directories of two project roots coincide exactly when their
/// identifiers do: one root always gets the same directory, and two roots
/// share one only where the hash collides.
pub proof fn lemma_build_path_follows_id(first: Seq<char>, second: Seq<char>)
    ensures
        remote_build_path_of(first) == remote_build_path_of(second) <==> project_id_of(first)
            == project_id_of(second),
        first == second ==> remote_build_path_of(first) == remote_build_path_of(second),
{
    if remote_build_path_of(first) == remote_build_path_of(second) {
        lemma_build_path_injective(project_id_of(first), project_id_of(second));
    }
}

} // verus!
