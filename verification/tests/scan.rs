use soroban_scanner::scan::{
    available_detectors, custom_detectors, execute_detectors, files_scanned, is_chosen,
    is_excluded, selected_detectors, Action, DetectorInfo, DetectorResult, Findings, Outcome,
    PathKind, Walk,
};

fn detector(id: &str) -> DetectorInfo {
    DetectorInfo {
        id: id.to_string(),
        uid: "u".to_string(),
        description: "d".to_string(),
        severity: "high".to_string(),
        tags: vec!["t".to_string()],
        template: "a: 1".to_string(),
    }
}

fn finding(path: &str, start: u32) -> DetectorResult {
    DetectorResult {
        file_path: path.to_string(),
        offset_start: start,
        offset_end: start + 1,
        extra: None,
    }
}

#[test]
fn patterns_exclude_paths_that_hold_them() {
    let patterns = vec!["tests".to_string(), "vendor/".to_string()];
    assert!(is_excluded("/a/tests/b.rs", &patterns));
    assert!(is_excluded("vendor/x", &patterns));
    assert!(!is_excluded("/a/vendor", &patterns));
    assert!(!is_excluded("/a/tests/b.rs", &Vec::new()));
}

#[test]
fn walk_goes_into_directories_and_reads_rust_files() {
    let mut walk = Walk::new(vec!["skip".to_string()]);
    assert_eq!(walk.next_directory(), None);
    assert_eq!(walk.visit("/a", "/a", "/a", PathKind::Directory), Action::Descend);
    assert_eq!(walk.visit("/b", "/b", "/b", PathKind::Directory), Action::Descend);
    assert_eq!(walk.visit("/skip", "/skip", "/skip", PathKind::Directory), Action::Skip);
    assert_eq!(walk.visit("/a/x.rs", "/a/x.rs", "/a/x.rs", PathKind::File), Action::Read);
    assert_eq!(walk.visit("/a/skip.rs", "/a/skip.rs", "/a/skip.rs", PathKind::File), Action::Skip);
    assert_eq!(walk.visit("/a/x.toml", "/a/x.toml", "/a/x.toml", PathKind::File), Action::Skip);
    assert_eq!(walk.visit("/a/x.rs", "/a/x.rs", "/a/x.rs", PathKind::Other), Action::Skip);
    assert_eq!(walk.visit("link.rs", "link.rs", "/skip/x.rs", PathKind::File), Action::Skip);
    assert_eq!(walk.visit("skip/../x.rs", "skip/../x.rs", "/x.rs", PathKind::File), Action::Read);
    assert_eq!(walk.next_directory(), Some("/b"));
    assert_eq!(walk.next_directory(), Some("/a"));
    assert_eq!(walk.next_directory(), None);
    walk.add_file("/a/x.rs".to_string(), "one".to_string());
    walk.add_file("/a/x.rs".to_string(), "two".to_string());
    walk.add_file("/c/y.rs".to_string(), "three".to_string());
    assert_eq!(walk.corpus.read("/a/x.rs"), Some("two"));
    assert_eq!(
        files_scanned(&walk.corpus, Some("/a")),
        vec!["x.rs".to_string(), "/c/y.rs".to_string()]
    );
}

#[test]
fn rules_choose_detectors() {
    let rules = vec!["b".to_string(), "d".to_string()];
    assert!(is_chosen("b", Some(&rules)));
    assert!(!is_chosen("a", Some(&rules)));
    assert!(is_chosen("a", None));
    assert!(is_chosen("a", Some(&vec!["ALL".to_string()])));
    assert!(!is_chosen("a", Some(&vec!["all".to_string(), "b".to_string()])));
    assert!(!is_chosen("a", Some(&Vec::new())));
    let all = available_detectors(vec![detector("a"), detector("b"), detector("c"), detector("d")]);
    assert_eq!(all.len(), 4);
    assert!(custom_detectors().is_empty());
    assert_eq!(selected_detectors(&all, Some(&rules)), vec![1, 3]);
    assert_eq!(selected_detectors(&all, None), vec![0, 1, 2, 3]);
    assert_eq!(selected_detectors(&all, Some(&vec!["All".to_string()])), vec![0, 1, 2, 3]);
    assert_eq!(selected_detectors(&all, Some(&Vec::new())), Vec::<usize>::new());
}

#[test]
fn later_findings_take_the_place_of_earlier_ones() {
    let loaded = Outcome { id: "x".to_string(), found: Some(vec![finding("old", 0)]) };
    let selected = vec![
        Outcome { id: "y".to_string(), found: Some(vec![finding("y", 3)]) },
        Outcome { id: "z".to_string(), found: None },
        Outcome { id: "x".to_string(), found: Some(vec![finding("new", 1)]) },
    ];
    let found = execute_detectors(Some(loaded), selected);
    let entries = found.entries();
    assert_eq!(entries.len(), 2);
    assert_eq!(entries[0], ("x".to_string(), vec![finding("new", 1)]));
    assert_eq!(entries[1], ("y".to_string(), vec![finding("y", 3)]));
    assert_eq!(execute_detectors(None, Vec::new()), Findings::new());
}

#[test]
fn directories_are_handed_back_as_they_were_given() {
    let mut walk: Walk<u32> = Walk::new(Vec::new());
    assert_eq!(walk.visit(7, "/a", "/a", PathKind::Directory), Action::Descend);
    assert_eq!(walk.visit(8, "/a/b.rs", "/a/b.rs", PathKind::File), Action::Read);
    assert_eq!(walk.next_directory(), Some(7));
    assert_eq!(walk.next_directory(), None);
}

#[test]
fn results_are_those_of_the_chosen_detectors() {
    let ids = ["a", "b", "a", "c"];
    let found = [Some(1), Some(2), None, Some(4)];
    let all: Vec<DetectorInfo> = ids.iter().map(|id| detector(id)).collect();
    let results = |rules: Option<&Vec<String>>| -> Vec<(String, u32)> {
        let outcomes = selected_detectors(&all, rules)
            .into_iter()
            .map(|i| Outcome {
                id: ids[i].to_string(),
                found: found[i].map(|start| vec![finding("f", start)]),
            })
            .collect();
        execute_detectors(None, outcomes)
            .entries()
            .iter()
            .map(|(id, found)| (id.clone(), found[0].offset_start))
            .collect()
    };
    let text = |id: &str| id.to_string();
    assert_eq!(results(None), vec![(text("a"), 1), (text("b"), 2), (text("c"), 4)]);
    assert_eq!(results(Some(&vec![text("c"), text("a")])), vec![(text("a"), 1), (text("c"), 4)]);
    assert_eq!(results(Some(&vec![text("x")])), Vec::new());
}
