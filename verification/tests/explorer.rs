use file_explorer::controller::{
    explore_after_read, explore_after_resolve, ExploreError, ExplorePlan, ExploreResult,
};
use file_explorer::entries::{classify, Entry, EntryKind, RawEntry, RawKind};
use file_explorer::listing::build_listing;
use file_explorer::paths::{is_confined, render_path_abs, RootConfig};
use file_explorer::resolver::{join_request, resolve, CanonicalTarget, PathError, ValidatedPath};
use file_explorer::sorting::{entry_le_exec, lex_le_exec, sort_entries};

fn comps(parts: &[&str]) -> Vec<String> {
    parts.iter().map(|p| p.to_string()).collect()
}

fn entry(name: &str, kind: EntryKind) -> Entry {
    Entry {
        display_name: name.to_string(),
        navigable_path: format!("/{}", name),
        kind,
    }
}

fn srv_data_root() -> RootConfig {
    RootConfig::new(comps(&["srv", "data"]))
}

fn ok_target(parts: &[&str], is_directory: bool) -> Result<CanonicalTarget, String> {
    Ok(CanonicalTarget {
        components: comps(parts),
        is_directory,
    })
}

#[test]
fn root_config_renders_its_path() {
    assert_eq!(srv_data_root().path().as_str(), "/srv/data");
    assert_eq!(RootConfig::new(Vec::new()).path().as_str(), "/");
}

#[test]
fn join_of_empty_request_is_the_root_itself() {
    let root = srv_data_root();
    assert_eq!(join_request(&root, ""), "/srv/data");
}

#[test]
fn join_treats_bare_separators_as_the_root() {
    let root = srv_data_root();
    assert_eq!(join_request(&root, "/"), join_request(&root, ""));
    assert_eq!(join_request(&root, "///"), join_request(&root, ""));
}

#[test]
fn join_appends_a_subpath_once() {
    let root = srv_data_root();
    assert_eq!(join_request(&root, "/sub/dir"), "/srv/data/sub/dir");
    assert_eq!(join_request(&root, "sub"), "/srv/data/sub");
    assert_eq!(join_request(&root, "//sub"), "/srv/data/sub");
}

#[test]
fn traversal_out_of_the_root_is_rejected() {
    // What the operating system reports for "../../../etc/passwd" joined
    // under /srv/data: the canonical path /etc/passwd.
    let root = srv_data_root();
    let resolved = resolve(&root, ok_target(&["etc", "passwd"], false));
    assert!(matches!(resolved, Err(PathError::OutOfScope(ref p)) if p.as_str() == "/etc/passwd"));
    match explore_after_resolve(resolved) {
        ExplorePlan::Finish(Err(ExploreError::Path(PathError::OutOfScope(p)))) => {
            assert_eq!(p, "/etc/passwd");
        }
        _ => panic!("traversal must end in an out-of-scope error"),
    }
}

#[test]
fn sibling_sharing_a_string_prefix_is_outside() {
    let root = RootConfig::new(comps(&["root"]));
    assert!(!is_confined(root.components(), &comps(&["root-evil"])));
    assert!(!is_confined(root.components(), &comps(&["root-evil", "sub"])));
    assert!(is_confined(root.components(), &comps(&["root"])));
    assert!(is_confined(root.components(), &comps(&["root", "sub"])));
    let resolved = resolve(&root, ok_target(&["root-evil"], true));
    assert!(matches!(resolved, Err(PathError::OutOfScope(ref p)) if p.as_str() == "/root-evil"));
}

#[test]
fn the_root_resolves_to_a_directory_inside_itself() {
    let root = srv_data_root();
    let resolved = resolve(&root, ok_target(&["srv", "data"], true));
    match resolved {
        Ok(ValidatedPath::Directory(c)) => assert_eq!(c, comps(&["srv", "data"])),
        _ => panic!("the root itself must validate as a directory"),
    }
}

#[test]
fn a_file_is_not_listable_and_not_an_error() {
    let root = srv_data_root();
    let resolved = resolve(&root, ok_target(&["srv", "data", "notes.txt"], false));
    assert!(matches!(resolved, Ok(ValidatedPath::File(_))));
    match explore_after_resolve(resolved) {
        ExplorePlan::Finish(Ok(ExploreResult::NotListable)) => {}
        ExplorePlan::Finish(Err(_)) => panic!("a file target is not an error"),
        _ => panic!("a file target must finish as not listable"),
    }
}

#[test]
fn canonicalization_failure_is_surfaced_with_its_detail() {
    let root = srv_data_root();
    let resolved = resolve(&root, Err("No such file or directory".to_string()));
    match resolved {
        Err(e @ PathError::Canonicalize(_)) => {
            assert_eq!(
                e.message(),
                "Canonicalization failed : 'No such file or directory'"
            );
        }
        _ => panic!("a failed canonicalization must be surfaced"),
    }
}

#[test]
fn out_of_scope_message_names_the_rejected_path() {
    let root = srv_data_root();
    let resolved = resolve(&root, ok_target(&["etc"], true));
    match resolved {
        Err(e @ PathError::OutOfScope(_)) => {
            assert_eq!(e.message(), "Path out of scope : '/etc'");
        }
        _ => panic!("an escaping target must be out of scope"),
    }
}

#[test]
fn sorting_puts_directories_first_then_names_ascending() {
    let given = vec![
        entry("b", EntryKind::File),
        entry("a", EntryKind::Directory),
        entry("z", EntryKind::Directory),
        entry("a", EntryKind::File),
    ];
    let sorted = sort_entries(given);
    let shape: Vec<(String, EntryKind)> = sorted
        .iter()
        .map(|e| (e.display_name.clone(), e.kind))
        .collect();
    assert_eq!(
        shape,
        vec![
            ("a".to_string(), EntryKind::Directory),
            ("z".to_string(), EntryKind::Directory),
            ("a".to_string(), EntryKind::File),
            ("b".to_string(), EntryKind::File),
        ]
    );
}

#[test]
fn name_order_is_byte_wise_not_locale_aware() {
    assert!(lex_le_exec("A", "a"));
    assert!(!lex_le_exec("a", "A"));
    assert!(lex_le_exec("a", "ab"));
    assert!(!lex_le_exec("ab", "a"));
    assert!(lex_le_exec("", ""));
    assert!(lex_le_exec("abc", "abc"));
    assert!(lex_le_exec("abc", "abd"));
}

#[test]
fn directories_rank_before_files_regardless_of_name() {
    let d = entry("zzz", EntryKind::Directory);
    let f = entry("aaa", EntryKind::File);
    assert!(entry_le_exec(&d, &f));
    assert!(!entry_le_exec(&f, &d));
}

#[test]
fn classification_keeps_the_name_and_strips_the_root() {
    let root = srv_data_root();
    let raw = RawEntry {
        name: Some("docs".to_string()),
        path: comps(&["srv", "data", "docs"]),
        kind: RawKind::Directory,
    };
    let e = classify(&raw, &root).expect("a directory child classifies");
    assert_eq!(e.display_name, "docs");
    assert_eq!(e.navigable_path, "/docs");
    assert_eq!(e.kind, EntryKind::Directory);

    let raw = RawEntry {
        name: Some("notes.txt".to_string()),
        path: comps(&["srv", "data", "docs", "notes.txt"]),
        kind: RawKind::File,
    };
    let e = classify(&raw, &root).expect("a file child classifies");
    assert_eq!(e.navigable_path, "/docs/notes.txt");
    assert_eq!(e.kind, EntryKind::File);
}

#[test]
fn undecodable_name_gets_the_placeholder_and_is_retained() {
    let root = srv_data_root();
    let raw = RawEntry {
        name: None,
        path: comps(&["srv", "data", "odd"]),
        kind: RawKind::File,
    };
    let e = classify(&raw, &root).expect("an undecodable name still classifies");
    assert_eq!(e.display_name, "Invalid format");
    assert_eq!(e.navigable_path, "/odd");
}

#[test]
fn unknown_file_type_fails_closed_per_child() {
    let root = srv_data_root();
    let raws = vec![
        RawEntry {
            name: Some("known".to_string()),
            path: comps(&["srv", "data", "known"]),
            kind: RawKind::Directory,
        },
        RawEntry {
            name: Some("mystery".to_string()),
            path: comps(&["srv", "data", "mystery"]),
            kind: RawKind::Unknown,
        },
    ];
    let l = build_listing(&raws, &root);
    assert_eq!(l.entries.len(), 1);
    assert_eq!(l.entries[0].display_name, "known");
    assert_eq!(l.failures, vec!["mystery".to_string()]);
    assert_eq!(l.entries.len() + l.failures.len(), raws.len());
}

#[test]
fn child_outside_the_root_fails_closed_per_child() {
    let root = srv_data_root();
    let raws = vec![RawEntry {
        name: Some("stray".to_string()),
        path: comps(&["tmp", "stray"]),
        kind: RawKind::File,
    }];
    let l = build_listing(&raws, &root);
    assert!(l.entries.is_empty());
    assert_eq!(l.failures, vec!["stray".to_string()]);
}

#[test]
fn empty_directory_lists_as_an_empty_listing() {
    let root = srv_data_root();
    match explore_after_read(&root, Ok(Vec::new())) {
        Ok(ExploreResult::Listing(l)) => {
            assert!(l.entries.is_empty());
            assert!(l.failures.is_empty());
        }
        _ => panic!("an empty directory is a listing, not an error"),
    }
}

#[test]
fn directory_read_failure_aborts_with_its_detail() {
    let root = srv_data_root();
    match explore_after_read(&root, Err("Permission denied".to_string())) {
        Err(e @ ExploreError::DirectoryRead(_)) => {
            assert_eq!(e.message(), "Directory read failed : 'Permission denied'");
        }
        _ => panic!("a failed directory read must abort the operation"),
    }
}

#[test]
fn a_listing_is_classified_and_ordered() {
    let root = srv_data_root();
    let raws = vec![
        RawEntry {
            name: Some("beta".to_string()),
            path: comps(&["srv", "data", "beta"]),
            kind: RawKind::File,
        },
        RawEntry {
            name: Some("alpha".to_string()),
            path: comps(&["srv", "data", "alpha"]),
            kind: RawKind::File,
        },
        RawEntry {
            name: Some("gamma".to_string()),
            path: comps(&["srv", "data", "gamma"]),
            kind: RawKind::Directory,
        },
    ];
    match explore_after_read(&root, Ok(raws)) {
        Ok(ExploreResult::Listing(l)) => {
            let shape: Vec<(String, String, EntryKind)> = l
                .entries
                .iter()
                .map(|e| (e.display_name.clone(), e.navigable_path.clone(), e.kind))
                .collect();
            assert_eq!(
                shape,
                vec![
                    (
                        "gamma".to_string(),
                        "/gamma".to_string(),
                        EntryKind::Directory
                    ),
                    ("alpha".to_string(), "/alpha".to_string(), EntryKind::File),
                    ("beta".to_string(), "/beta".to_string(), EntryKind::File),
                ]
            );
            assert!(l.failures.is_empty());
        }
        _ => panic!("reading children must yield a listing"),
    }
}

#[test]
fn listings_of_disjoint_directories_stay_disjoint() {
    let root = srv_data_root();
    let left = vec![RawEntry {
        name: Some("only-left".to_string()),
        path: comps(&["srv", "data", "a", "only-left"]),
        kind: RawKind::File,
    }];
    let right = vec![RawEntry {
        name: Some("only-right".to_string()),
        path: comps(&["srv", "data", "b", "only-right"]),
        kind: RawKind::File,
    }];
    let l = build_listing(&left, &root);
    let r = build_listing(&right, &root);
    assert_eq!(l.entries.len(), 1);
    assert_eq!(r.entries.len(), 1);
    assert_eq!(l.entries[0].navigable_path, "/a/only-left");
    assert_eq!(r.entries[0].navigable_path, "/b/only-right");
    assert!(l
        .entries
        .iter()
        .all(|e| e.display_name != r.entries[0].display_name));
}

#[test]
fn navigable_paths_render_only_components_below_the_root() {
    let deep_root = RootConfig::new(comps(&["very", "secret", "place"]));
    let raw = RawEntry {
        name: Some("child".to_string()),
        path: comps(&["very", "secret", "place", "child"]),
        kind: RawKind::Directory,
    };
    let e = classify(&raw, &deep_root).expect("a confined child classifies");
    assert_eq!(e.navigable_path, "/child");
    assert!(!e.navigable_path.contains("very"));
    assert!(!e.navigable_path.contains("secret"));
    assert!(!e.navigable_path.contains("place"));
    assert_eq!(render_path_abs(deep_root.components()), "/very/secret/place");
}

#[test]
fn a_root_at_the_filesystem_root_confines_everything() {
    let root = RootConfig::new(Vec::new());
    assert_eq!(join_request(&root, ""), "/");
    assert!(is_confined(root.components(), &comps(&["etc"])));
    let raw = RawEntry {
        name: Some("etc".to_string()),
        path: comps(&["etc"]),
        kind: RawKind::Directory,
    };
    let e = classify(&raw, &root).expect("a child of the filesystem root classifies");
    assert_eq!(e.navigable_path, "/etc");
}
