//! Finding the project root and the place of the working directory in it.
//!
//! Paths are read as text with `/` between the names. The search for the
//! manifest is a sequence of questions: the library names the file to look
//! for, the caller answers whether it is there, and the library either
//! settles on a root, moves one directory up, or gives up at the top.

use crate::error::FatalError;
use crate::text::{has_prefix, same_text};
use vstd::prelude::*;

verus! {

/// The position of the last `/` in a path, or -1 where there is none.
pub open spec fn last_slash(path: Seq<char>) -> int
    decreases path.len(),
{
    if path.len() == 0 {
        -1
    } else if path.last() == '/' {
        path.len() - 1
    } else {
        last_slash(path.drop_last())
    }
}

/// The directory one level up: the path without its last name. The top
/// directory `/` and a bare name have none.
pub open spec fn parent_of(path: Seq<char>) -> Option<Seq<char>> {
    let cut = last_slash(path);
    if cut < 0 || path.len() <= 1 {
        None
    } else if cut == 0 {
        Some(path.subrange(0, 1))
    } else {
        Some(path.subrange(0, cut))
    }
}

/// The directory reached by going up `levels` times.
pub open spec fn ancestor(dir: Seq<char>, levels: nat) -> Option<Seq<char>>
    decreases levels,
{
    if levels == 0 {
        Some(dir)
    } else {
        match parent_of(dir) {
            Some(parent) => ancestor(parent, (levels - 1) as nat),
            None => None,
        }
    }
}

/// The manifest file of a directory.
pub open spec fn manifest_of(dir: Seq<char>) -> Seq<char> {
    dir + "/Cargo.toml"@
}

/// A directory with a `/` at its end, ready to have a name appended.
pub open spec fn with_slash(dir: Seq<char>) -> Seq<char> {
    if dir.len() > 0 && dir.last() == '/' {
        dir
    } else {
        dir.push('/')
    }
}

/// The working directory as seen from the root: `.` for the root itself,
/// whether or not either is written with a `/` at its end; the names
/// below the root otherwise; and nothing where the working directory does
/// not lie under the root. What comes out never starts with a `/`.
pub open spec fn relative_to(root: Seq<char>, cwd: Seq<char>) -> Option<Seq<char>> {
    let base = with_slash(root);
    if with_slash(cwd) == base {
        Some("."@)
    } else if base.is_prefix_of(cwd) && cwd[base.len() as int] != '/' {
        Some(cwd.skip(base.len() as int))
    } else {
        None
    }
}

/// An absolute path in its plain form: it starts at `/`, no two `/` stand
/// side by side, and none ends it except in `/` itself.
pub open spec fn is_plain(path: Seq<char>) -> bool {
    &&& path.len() >= 1
    &&& path[0] == '/'
    &&& forall|i: int| 0 < i < path.len() && #[trigger] path[i] == '/' ==> path[i - 1] != '/'
    &&& path.len() > 1 ==> path.last() != '/'
}

/// How far the search for the manifest has come.
#[derive(Debug, PartialEq, Eq)]
pub enum Search {
    /// The manifest of this directory is to be looked for next.
    Probing(String),
    /// This directory holds the manifest: it is the project root.
    Found(String),
    /// The top was reached without a manifest.
    NotFound,
}

/// A search over paths as sequences of characters.
pub enum SearchView {
    Probing(Seq<char>),
    Found(Seq<char>),
    NotFound,
}

impl View for Search {
    type V = SearchView;

    open spec fn view(&self) -> SearchView {
        match self {
            Search::Probing(dir) => SearchView::Probing(dir@),
            Search::Found(root) => SearchView::Found(root@),
            Search::NotFound => SearchView::NotFound,
        }
    }
}

/// The search after one answer: a manifest that is present settles the
/// search on the directory probed; an absent one moves the search to the
/// parent, or ends it where there is no parent. A search that has ended
/// stays as it is.
pub open spec fn observe_of(search: SearchView, present: bool) -> SearchView {
    match search {
        SearchView::Probing(dir) => if present {
            SearchView::Found(dir)
        } else {
            match parent_of(dir) {
                Some(parent) => SearchView::Probing(parent),
                None => SearchView::NotFound,
            }
        },
        _ => search,
    }
}

/// The file a search asks about, while it is still asking.
pub open spec fn candidate_of(search: SearchView) -> Option<Seq<char>> {
    match search {
        SearchView::Probing(dir) => Some(manifest_of(dir)),
        _ => None,
    }
}

/// What a search has come to, once it has ended.
pub open spec fn verdict_of(search: SearchView) -> Option<Result<Seq<char>, FatalError>> {
    match search {
        SearchView::Probing(_) => None,
        SearchView::Found(root) => Some(Ok(root)),
        SearchView::NotFound => Some(Err(FatalError::ManifestNotFound)),
    }
}

/// The number of answers a search may still need.
pub open spec fn remaining(search: SearchView) -> nat {
    match search {
        SearchView::Probing(dir) => dir.len() + 1,
        _ => 0,
    }
}

/// Where a search ends when every question is answered from `manifests`,
/// the set of directories that hold a manifest.
pub open spec fn settle(search: SearchView, manifests: Set<Seq<char>>) -> SearchView
    decreases remaining(search),
{
    match search {
        SearchView::Probing(dir) => {
            proof {
                lemma_last_slash(dir);
            }
            settle(observe_of(search, manifests.contains(dir)), manifests)
        },
        _ => search,
    }
}

/// The outcome of the whole search from a working directory.
pub open spec fn locate(cwd: Seq<char>, manifests: Set<Seq<char>>) -> SearchView {
    settle(SearchView::Probing(cwd), manifests)
}

/// The last `/` is a `/`, lies inside the path, and no `/` follows it.
pub proof fn lemma_last_slash(path: Seq<char>)
    ensures
        -1 <= last_slash(path) < path.len(),
        last_slash(path) >= 0 ==> path[last_slash(path)] == '/',
        forall|k: int| last_slash(path) < k < path.len() ==> path[k] != '/',
    decreases path.len(),
{
    if path.len() > 0 && path.last() != '/' {
        let front = path.drop_last();
        lemma_last_slash(front);
        assert forall|k: int| last_slash(path) < k < path.len() implies path[k] != '/' by {
            if k < front.len() {
                assert(front[k] == path[k]);
            }
        }
    }
}

/// A parent is a proper beginning of its child.
pub proof fn lemma_parent_shorter(path: Seq<char>)
    requires
        parent_of(path) is Some,
    ensures
        parent_of(path)->0.len() < path.len(),
        parent_of(path)->0.is_prefix_of(path),
{
    lemma_last_slash(path);
}

/// A plain path is its parent, a `/`, and one name; the parent is plain too.
pub proof fn lemma_plain_step(path: Seq<char>)
    requires
        is_plain(path),
        parent_of(path) is Some,
    ensures
        is_plain(parent_of(path)->0),
        with_slash(parent_of(path)->0).is_prefix_of(path),
        with_slash(parent_of(path)->0).len() == last_slash(path) + 1,
        last_slash(path) + 1 < path.len(),
{
    lemma_last_slash(path);
    let cut = last_slash(path);
    let parent = parent_of(path)->0;
    if cut == 0 {
        assert(parent =~= seq!['/']);
        assert(with_slash(parent) =~= path.subrange(0, 1));
    } else {
        assert(parent.last() == path[cut - 1]);
        assert(with_slash(parent) =~= path.subrange(0, cut + 1));
        assert forall|i: int| 0 < i < parent.len() && #[trigger] parent[i] == '/' implies parent[i
            - 1] != '/' by {
            assert(path[i] == '/');
        }
    }
}

/// From any directory of a tree, the working directory is found again
/// below each of its ancestors: it is `.` as seen from itself, and as seen
/// from an ancestor further up it is the names that lead down from there.
pub proof fn lemma_relative_to_ancestor(cwd: Seq<char>, levels: nat)
    requires
        is_plain(cwd),
        ancestor(cwd, levels) is Some,
    ensures
        is_plain(ancestor(cwd, levels)->0),
        relative_to(ancestor(cwd, levels)->0, cwd) is Some,
        levels == 0 ==> relative_to(ancestor(cwd, levels)->0, cwd) == Some("."@),
        levels > 0 ==> with_slash(ancestor(cwd, levels)->0) + relative_to(
            ancestor(cwd, levels)->0,
            cwd,
        )->0 == cwd,
        levels > 0 ==> relative_to(ancestor(cwd, levels)->0, cwd)->0.len() > 0,
        levels > 0 ==> relative_to(ancestor(cwd, levels)->0, cwd)->0[0] != '/',
    decreases levels,
{
    if levels > 0 {
        let parent = parent_of(cwd)->0;
        let root = ancestor(cwd, levels)->0;
        lemma_plain_step(cwd);
        lemma_relative_to_ancestor(parent, (levels - 1) as nat);
        assert(root == ancestor(parent, (levels - 1) as nat)->0);
        let base = with_slash(root);
        let step = with_slash(parent);
        assert(step.is_prefix_of(cwd));
        if levels == 1 {
            assert(root == parent);
            assert(cwd[base.len() as int] != '/') by {
                lemma_last_slash(cwd);
            }
            assert(with_slash(cwd).len() > base.len());
            assert(base + cwd.skip(base.len() as int) =~= cwd);
        } else {
            let below = relative_to(root, parent)->0;
            assert(base + below == parent);
            assert(parent.len() > 1);
            assert(step == parent.push('/'));
            assert(base.is_prefix_of(cwd)) by {
                assert(base =~= cwd.subrange(0, base.len() as int)) by {
                    assert forall|i: int| 0 <= i < base.len() implies base[i] == cwd[i] by {
                        assert(parent[i] == base[i]);
                        assert(step[i] == parent[i]);
                        assert(step[i] == cwd.subrange(0, step.len() as int)[i]);
                    }
                }
            }
            assert(cwd[base.len() as int] == below[0]) by {
                assert(parent[base.len() as int] == below[0]);
                assert(step[base.len() as int] == parent[base.len() as int]);
                assert(step[base.len() as int] == cwd.subrange(0, step.len() as int)[base.len() as int]);
            }
            assert(cwd.len() > base.len());
            assert(with_slash(cwd).len() > base.len());
            assert(base + cwd.skip(base.len() as int) =~= cwd);
        }
    }
}

/// Where no directory between the working directory and one of its
/// ancestors holds a manifest and that ancestor does, the search ends
/// there.
pub proof fn lemma_locate_nearest(cwd: Seq<char>, levels: nat, manifests: Set<Seq<char>>)
    requires
        ancestor(cwd, levels) is Some,
        manifests.contains(ancestor(cwd, levels)->0),
        forall|k: nat| k < levels ==> !manifests.contains(#[trigger] ancestor(cwd, k)->0),
    ensures
        locate(cwd, manifests) == SearchView::Found(ancestor(cwd, levels)->0),
    decreases levels,
{
    if levels == 0 {
        assert(settle(SearchView::Found(cwd), manifests) == SearchView::Found(cwd));
    } else {
        let parent = parent_of(cwd)->0;
        assert(ancestor(cwd, 0)->0 == cwd);
        assert(!manifests.contains(cwd));
        assert forall|k: nat| k < levels - 1 implies !manifests.contains(
            #[trigger] ancestor(parent, k)->0,
        ) by {
            assert(ancestor(cwd, k + 1) == ancestor(parent, k));
        }
        lemma_locate_nearest(parent, (levels - 1) as nat, manifests);
    }
}

/// An ancestor further up has a shorter path.
pub proof fn lemma_ancestor_shorter(cwd: Seq<char>, levels: nat)
    requires
        ancestor(cwd, levels) is Some,
    ensures
        levels > 0 ==> ancestor(cwd, levels)->0.len() < cwd.len(),
        ancestor(cwd, levels)->0.len() <= cwd.len(),
    decreases levels,
{
    if levels > 0 {
        lemma_parent_shorter(cwd);
        lemma_ancestor_shorter(parent_of(cwd)->0, (levels - 1) as nat);
    }
}

/// In a tree whose only manifest lies in one directory, the search from any
/// directory at or below it finds that directory, whatever the depth, and
/// the working directory is found again from it: `.` at depth 0, and
/// otherwise the path that, appended to the root and a `/`, gives the
/// working directory.
pub proof fn lemma_root_found_from_below(
    cwd: Seq<char>,
    levels: nat,
    root: Seq<char>,
    manifests: Set<Seq<char>>,
)
    requires
        is_plain(cwd),
        ancestor(cwd, levels) == Some(root),
        forall|dir: Seq<char>| manifests.contains(dir) <==> dir == root,
    ensures
        locate(cwd, manifests) == SearchView::Found(root),
        relative_to(root, cwd) is Some,
        levels == 0 ==> relative_to(root, cwd) == Some("."@),
        levels > 0 ==> with_slash(root) + relative_to(root, cwd)->0 == cwd,
{
    assert forall|k: nat| k < levels implies !manifests.contains(
        #[trigger] ancestor(cwd, k)->0,
    ) by {
        lemma_ancestor_split(cwd, k, (levels - k) as nat);
        lemma_ancestor_shorter(ancestor(cwd, k)->0, (levels - k) as nat);
    }
    lemma_locate_nearest(cwd, levels, manifests);
    lemma_relative_to_ancestor(cwd, levels);
}

/// Going up `first` levels and then `second` more is going up both at once.
pub proof fn lemma_ancestor_split(cwd: Seq<char>, first: nat, second: nat)
    requires
        ancestor(cwd, first + second) is Some,
    ensures
        ancestor(cwd, first) is Some,
        ancestor(ancestor(cwd, first)->0, second) == ancestor(cwd, first + second),
    decreases first,
{
    if first > 0 {
        lemma_ancestor_split(parent_of(cwd)->0, (first - 1) as nat, second);
    }
}

/// Finds the last `/` of a path.
fn find_last_slash(path: &str) -> (cut: Option<usize>)
    ensures
        match cut {
            Some(at) => at == last_slash(path@) && at < path@.len(),
            None => last_slash(path@) == -1,
        },
{
    let mut i: usize = path.unicode_len();
    while i > 0
        invariant
            i <= path@.len(),
            forall|k: int| i <= k < path@.len() ==> path@[k] != '/',
        decreases i,
    {
        if path.get_char(i - 1) == '/' {
            proof {
                lemma_last_slash(path@);
            }
            return Some(i - 1);
        }
        i -= 1;
    }
    proof {
        lemma_last_slash(path@);
    }
    None
}

/// The directory one level up from `path`, where there is one.
pub fn parent_dir(path: &str) -> (parent: Option<String>)
    ensures
        parent.deep_view() == parent_of(path@),
{
    let len: usize = path.unicode_len();
    match find_last_slash(path) {
        None => None,
        Some(cut) => {
            if len <= 1 {
                None
            } else if cut == 0 {
                Some(String::from_str(path.substring_char(0, 1)))
            } else {
                Some(String::from_str(path.substring_char(0, cut)))
            }
        },
    }
}

/// The path of the manifest in `dir`.
pub fn manifest_path(dir: &str) -> (path: String)
    ensures
        path@ == manifest_of(dir@),
{
    let mut path = String::from_str(dir);
    path.append("/Cargo.toml");
    path
}

impl Search {
    /// Starts the search in the working directory.
    pub fn begin(cwd: &str) -> (search: Search)
        ensures
            search@ == SearchView::Probing(cwd@),
    {
        Search::Probing(String::from_str(cwd))
    }

    /// The file whose presence decides the next step, while the search is
    /// still under way.
    pub fn candidate(&self) -> (file: Option<String>)
        ensures
            file.deep_view() == candidate_of(self@),
    {
        match self {
            Search::Probing(dir) => Some(manifest_path(dir.as_str())),
            _ => None,
        }
    }

    /// Takes the answer to the last question: whether the candidate is
    /// present.
    pub fn observe(self, present: bool) -> (next: Search)
        ensures
            next@ == observe_of(self@, present),
    {
        match self {
            Search::Probing(dir) => {
                if present {
                    Search::Found(dir)
                } else {
                    match parent_dir(dir.as_str()) {
                        Some(parent) => Search::Probing(parent),
                        None => Search::NotFound,
                    }
                }
            },
            Search::Found(root) => Search::Found(root),
            Search::NotFound => Search::NotFound,
        }
    }

    /// The project root or the reason there is none, once the search has
    /// ended.
    pub fn verdict(&self) -> (end: Option<Result<String, FatalError>>)
        ensures
            match verdict_of(self@) {
                None => end is None,
                Some(Ok(root)) => end matches Some(Ok(text)) && text@ == root,
                Some(Err(error)) => end == Some(Err::<String, FatalError>(error)),
            },
    {
        match self {
            Search::Probing(_) => None,
            Search::Found(root) => Some(Ok(root.clone())),
            Search::NotFound => Some(Err(FatalError::ManifestNotFound)),
        }
    }
}

/// Appends a `/` to a directory that does not end in one.
fn slash_ended(dir: &str) -> (base: String)
    ensures
        base@ == with_slash(dir@),
{
    let len: usize = dir.unicode_len();
    let mut base = String::from_str(dir);
    if len == 0 || dir.get_char(len - 1) != '/' {
        proof {
            reveal_strlit("/");
        }
        base.append("/");
        assert(base@ =~= dir@.push('/'));
    }
    base
}

/// Expresses the working directory relative to the project root. Fails
/// with [`FatalError::RelativePath`] exactly where the working directory
/// does not lie at or under the root.
pub fn relative_path(root: &str, cwd: &str) -> (rel: Result<String, FatalError>)
    ensures
        match relative_to(root@, cwd@) {
            Some(path) => rel matches Ok(text) && text@ == path,
            None => rel == Err::<String, FatalError>(FatalError::RelativePath),
        },
{
    let base = slash_ended(root);
    let place = slash_ended(cwd);
    if same_text(place.as_str(), base.as_str()) {
        Ok(String::from_str("."))
    } else if has_prefix(cwd, base.as_str()) {
        let start: usize = base.as_str().unicode_len();
        let end: usize = cwd.unicode_len();
        assert(start < end) by {
            assert(base@ =~= cwd@.subrange(0, start as int));
            if start == end {
                assert(cwd@.subrange(0, start as int) =~= cwd@);
            }
        }
        if cwd.get_char(start) == '/' {
            Err(FatalError::RelativePath)
        } else {
            let rest = String::from_str(cwd.substring_char(start, end));
            assert(rest@ =~= cwd@.skip(start as int));
            Ok(rest)
        }
    } else {
        Err(FatalError::RelativePath)
    }
}

} // verus!
