use cargo_remote::error::FatalError;
use cargo_remote::locate::{manifest_path, parent_dir, relative_path, Search};

fn search_in(cwd: &str, manifests: &[&str]) -> (Search, Vec<String>) {
    let mut asked = Vec::new();
    let mut search = Search::begin(cwd);
    while let Some(file) = search.candidate() {
        let present = manifests.iter().any(|dir| format!("{}/Cargo.toml", dir) == file);
        asked.push(file);
        search = search.observe(present);
    }
    (search, asked)
}

#[test]
fn parent_of_nested_directory() {
    assert_eq!(parent_dir("/a/b/c"), Some(String::from("/a/b")));
    assert_eq!(parent_dir("/a/b"), Some(String::from("/a")));
    assert_eq!(parent_dir("/home/u/proj/sub"), Some(String::from("/home/u/proj")));
}

#[test]
fn parent_of_top_level_directory_is_the_top() {
    assert_eq!(parent_dir("/a"), Some(String::from("/")));
}

#[test]
fn the_top_has_no_parent() {
    assert_eq!(parent_dir("/"), None);
}

#[test]
fn a_bare_name_has_no_parent() {
    assert_eq!(parent_dir("proj"), None);
    assert_eq!(parent_dir(""), None);
}

#[test]
fn parent_of_path_with_trailing_slash() {
    assert_eq!(parent_dir("/a/b/"), Some(String::from("/a/b")));
}

#[test]
fn parent_of_relative_path() {
    assert_eq!(parent_dir("a/b"), Some(String::from("a")));
}

#[test]
fn parent_of_path_with_wide_characters() {
    assert_eq!(parent_dir("/büro/日本/x"), Some(String::from("/büro/日本")));
}

#[test]
fn manifest_lies_in_the_directory() {
    assert_eq!(manifest_path("/home/u/proj"), "/home/u/proj/Cargo.toml");
    assert_eq!(manifest_path("/"), "//Cargo.toml");
}

#[test]
fn search_begins_in_the_working_directory() {
    let search = Search::begin("/a/b/c");
    assert_eq!(search, Search::Probing(String::from("/a/b/c")));
    assert_eq!(search.candidate(), Some(String::from("/a/b/c/Cargo.toml")));
    assert_eq!(search.verdict(), None);
}

#[test]
fn search_settles_where_the_manifest_is() {
    let search = Search::begin("/a/b").observe(true);
    assert_eq!(search, Search::Found(String::from("/a/b")));
    assert_eq!(search.candidate(), None);
    assert_eq!(search.verdict(), Some(Ok(String::from("/a/b"))));
}

#[test]
fn search_moves_up_where_the_manifest_is_not() {
    let search = Search::begin("/a/b").observe(false);
    assert_eq!(search, Search::Probing(String::from("/a")));
    let search = search.observe(false);
    assert_eq!(search, Search::Probing(String::from("/")));
    let search = search.observe(false);
    assert_eq!(search, Search::NotFound);
    assert_eq!(search.candidate(), None);
    assert_eq!(search.verdict(), Some(Err(FatalError::ManifestNotFound)));
}

#[test]
fn search_that_ended_stays_as_it_is() {
    assert_eq!(Search::NotFound.observe(true), Search::NotFound);
    assert_eq!(Search::NotFound.observe(false), Search::NotFound);
    assert_eq!(
        Search::Found(String::from("/a")).observe(false),
        Search::Found(String::from("/a"))
    );
}

#[test]
fn root_is_found_from_any_depth() {
    let manifests = ["/a/b"];
    for cwd in ["/a/b", "/a/b/c", "/a/b/c/d", "/a/b/x/y/z"] {
        let (search, _) = search_in(cwd, &manifests);
        assert_eq!(search, Search::Found(String::from("/a/b")));
    }
}

#[test]
fn root_and_relative_path_from_two_levels_down() {
    let (search, asked) = search_in("/a/b/c/d", &["/a/b"]);
    assert_eq!(search.verdict(), Some(Ok(String::from("/a/b"))));
    assert_eq!(
        asked,
        vec![
            String::from("/a/b/c/d/Cargo.toml"),
            String::from("/a/b/c/Cargo.toml"),
            String::from("/a/b/Cargo.toml"),
        ]
    );
    assert_eq!(relative_path("/a/b", "/a/b/c/d"), Ok(String::from("c/d")));
}

#[test]
fn nearest_manifest_wins() {
    let (search, _) = search_in("/a/b/c/d", &["/a", "/a/b/c"]);
    assert_eq!(search, Search::Found(String::from("/a/b/c")));
}

#[test]
fn manifest_at_the_top_is_found() {
    let (search, asked) = search_in("/a", &["/"]);
    assert_eq!(search, Search::Found(String::from("/")));
    assert_eq!(asked, vec![String::from("/a/Cargo.toml"), String::from("//Cargo.toml")]);
}

#[test]
fn search_without_manifest_fails() {
    let (search, asked) = search_in("/a/b/c", &[]);
    assert_eq!(search, Search::NotFound);
    assert_eq!(asked.len(), 4);
    assert_eq!(search.verdict(), Some(Err(FatalError::ManifestNotFound)));
}

#[test]
fn manifest_beside_the_path_is_not_found() {
    let (search, _) = search_in("/a/b/c", &["/a/x", "/a/b/c/d"]);
    assert_eq!(search, Search::NotFound);
}

#[test]
fn relative_path_of_the_root_is_a_dot() {
    assert_eq!(relative_path("/a/b", "/a/b"), Ok(String::from(".")));
    assert_eq!(relative_path("/", "/"), Ok(String::from(".")));
    assert_eq!(relative_path("/a/b", "/a/b/"), Ok(String::from(".")));
    assert_eq!(relative_path("/a/b/", "/a/b"), Ok(String::from(".")));
}

#[test]
fn relative_path_of_a_descendant() {
    assert_eq!(relative_path("/a/b", "/a/b/c"), Ok(String::from("c")));
    assert_eq!(relative_path("/home/u/proj", "/home/u/proj/sub"), Ok(String::from("sub")));
    assert_eq!(relative_path("/a/b/", "/a/b/c/d"), Ok(String::from("c/d")));
}

#[test]
fn relative_path_below_the_top() {
    assert_eq!(relative_path("/", "/a/b"), Ok(String::from("a/b")));
}

#[test]
fn relative_path_outside_the_root_fails() {
    assert_eq!(relative_path("/a/b", "/a"), Err(FatalError::RelativePath));
    assert_eq!(relative_path("/a/b", "/a/c"), Err(FatalError::RelativePath));
    assert_eq!(relative_path("/a/b", "/x/y/z"), Err(FatalError::RelativePath));
}

#[test]
fn relative_path_needs_a_whole_name() {
    assert_eq!(relative_path("/a/b", "/a/bc"), Err(FatalError::RelativePath));
    assert_eq!(relative_path("/a/b", "/a/bc/d"), Err(FatalError::RelativePath));
}

#[test]
fn relative_path_is_never_absolute() {
    assert_eq!(relative_path("/a/b", "/a/b//c"), Err(FatalError::RelativePath));
}

#[test]
fn relative_path_joins_back_to_the_working_directory() {
    for (root, cwd) in [("/a/b", "/a/b/c/d"), ("/p", "/p/q"), ("/home/u/proj", "/home/u/proj/x/y/z")] {
        let rel = relative_path(root, cwd).unwrap();
        assert_eq!(format!("{}/{}", root, rel), cwd);
    }
}
