use soroban_scanner::file_provider::{find_submodule_path, FileProvider};
use soroban_scanner::paths::{file_name, has_rust_extension, relative_file_path};

#[test]
fn path_without_root_is_kept() {
    assert_eq!(relative_file_path("/a/b/c.rs", None), "/a/b/c.rs");
    assert_eq!(relative_file_path("", None), "");
}

#[test]
fn path_below_root_loses_it() {
    assert_eq!(relative_file_path("/a/b/c.rs", Some("/a")), "b/c.rs");
    assert_eq!(relative_file_path("/a/b/c.rs", Some("/a/")), "b/c.rs");
    assert_eq!(relative_file_path("/a/b/c.rs", Some("/a/b")), "c.rs");
    assert_eq!(relative_file_path("a/b/c.rs", Some("a")), "b/c.rs");
    assert_eq!(relative_file_path("/a/./b/c.rs", Some("/a")), "b/c.rs");
    assert_eq!(relative_file_path("/a/b", Some("/")), "a/b");
}

#[test]
fn path_elsewhere_is_kept_as_it_is() {
    assert_eq!(relative_file_path("/a/b/c.rs", Some("/x")), "/a/b/c.rs");
    assert_eq!(relative_file_path("/ab/c.rs", Some("/a")), "/ab/c.rs");
    assert_eq!(relative_file_path("/a", Some("/a/b")), "/a");
    assert_eq!(relative_file_path("a/b", Some("/a")), "a/b");
}

#[test]
fn root_seen_from_itself_is_empty() {
    assert_eq!(relative_file_path("/a/b", Some("/a/b")), "");
    assert_eq!(relative_file_path("/a/b/", Some("/a/b")), "");
}

#[test]
fn relative_paths_are_those_of_std() {
    let paths = ["/a/b/c.rs", "a/b", "/", "", "./a/b", "a//b/./c", "/a/../b", "a/b/"];
    let roots = ["/a", "a", "/", "", ".", "a/b", "/a/..", "x"];
    for path in paths {
        for root in roots {
            let expected = match std::path::Path::new(path).strip_prefix(root) {
                Ok(rest) => rest.to_string_lossy().to_string(),
                Err(_) => path.to_string(),
            };
            assert_eq!(relative_file_path(path, Some(root)), expected, "{} from {}", path, root);
        }
    }
}

#[test]
fn file_names() {
    assert_eq!(file_name("/a/b.rs"), Some("b.rs".to_string()));
    assert_eq!(file_name("b.rs"), Some("b.rs".to_string()));
    assert_eq!(file_name("/a/b/"), Some("b".to_string()));
    assert_eq!(file_name("a/."), Some("a".to_string()));
    assert_eq!(file_name("/"), None);
    assert_eq!(file_name("a/.."), None);
    assert_eq!(file_name("."), None);
    assert_eq!(file_name(""), None);
}

#[test]
fn rust_files() {
    assert!(has_rust_extension("/a/b.rs"));
    assert!(has_rust_extension("a.b.rs"));
    assert!(!has_rust_extension("/a/b.txt"));
    assert!(!has_rust_extension("/a/.rs"));
    assert!(!has_rust_extension("/a/rs"));
    assert!(!has_rust_extension("/a/b.rs/c"));
}

#[test]
fn provider_keeps_the_later_text() {
    let mut p = FileProvider::new();
    assert_eq!(p.read("a"), None);
    p.insert("a".to_string(), "1".to_string());
    p.insert("b".to_string(), "2".to_string());
    p.insert("a".to_string(), "3".to_string());
    assert_eq!(p.read("a"), Some("3"));
    assert_eq!(p.read("b"), Some("2"));
    assert!(p.holds("b"));
    assert!(!p.holds("c"));
    assert_eq!(p.paths(), vec!["a".to_string(), "b".to_string()]);
}

#[test]
fn files_of_modules() {
    let mut p = FileProvider::new();
    for path in ["/s/lib.rs", "/s/a.rs", "/s/b/mod.rs", "/s/a/c.rs", "/s/b/d.rs", "e.rs"] {
        p.insert(path.to_string(), String::new());
    }
    let find = |file: &str, name: &str| find_submodule_path(file, name, &p);
    assert_eq!(find("/s/lib.rs", "a"), Some("/s/a.rs".to_string()));
    assert_eq!(find("/s/main.rs", "a"), Some("/s/a.rs".to_string()));
    assert_eq!(find("/s/lib.rs", "b"), Some("/s/b/mod.rs".to_string()));
    assert_eq!(find("/s/a.rs", "c"), Some("/s/a/c.rs".to_string()));
    assert_eq!(find("/s/b/mod.rs", "d"), Some("/s/b/d.rs".to_string()));
    assert_eq!(find("main.rs", "e"), Some("e.rs".to_string()));
    assert_eq!(find("/s/lib.rs", "x"), None);
    assert_eq!(find("/s/a.rs", "b"), None);
}

#[test]
fn root_joined_with_relative_path_is_the_path() {
    let paths = ["/a/b/c.rs", "a/b", "/", "", "./a/b", "a//b/./c/.", "/a/../b", "a/b/"];
    let roots = ["/a", "a", "/", "", ".", "a/b", "/a/..", "a//b/."];
    let mut below: u32 = 0;
    for path in paths {
        for root in roots {
            let root = std::path::Path::new(root);
            if std::path::Path::new(path).starts_with(root) {
                let rest = relative_file_path(path, root.to_str());
                assert_eq!(root.join(&rest), std::path::Path::new(path));
                below += 1;
            }
        }
    }
    assert!(below > 16);
}

#[test]
fn two_roots_are_stripped_as_one() {
    let paths = ["/a/b/c.rs", "a/b/c/d", "./a/b/c", "a//b/./c/.", "/a/../b/c/d"];
    let roots = ["/", "/a", "a", "", ".", "/a/..", "a//"];
    let subs = ["", "a", "b", "b/c", "a/b", "b//c/", ".."];
    let mut below: u32 = 0;
    for path in paths {
        for root in roots {
            for sub in subs {
                let whole = std::path::Path::new(root).join(sub);
                if std::path::Path::new(path).starts_with(&whole) {
                    let rest = relative_file_path(path, Some(root));
                    assert_eq!(
                        relative_file_path(&rest, Some(sub)),
                        relative_file_path(path, whole.to_str())
                    );
                    below += 1;
                }
            }
        }
    }
    assert!(below > 16);
    // A `.` at the start of the second root is a component there, but not behind another root.
    assert_eq!(relative_file_path("a/b/c", Some("a/./b")), "c");
    assert_eq!(relative_file_path("b/c", Some("./b")), "b/c");
}

#[test]
fn absolute_root_is_stripped_only_once() {
    let once = relative_file_path("/a/a/b", Some("/a"));
    assert_eq!(once, "a/b");
    assert_eq!(relative_file_path(&once, Some("/a")), once);
    assert_eq!(relative_file_path("/x", Some("/a")), "/x");
    // A root that does not begin with `/` can be stripped again.
    assert_eq!(relative_file_path(&relative_file_path("a/a/b", Some("a")), Some("a")), "b");
}
