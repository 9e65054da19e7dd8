use std::collections::VecDeque;

use tfx::crawl::{Action, Crawler};
use tfx::entry::{Entry, EntryKind};
use tfx::errors::Error;
use tfx::Validate;

/// An in-memory tree: each directory with its entries.
struct Tree {
    dirs: Vec<(String, Vec<(String, EntryKind)>)>,
    failing_validations: Vec<String>,
    unreadable: Vec<String>,
}

impl Tree {
    fn listing(&self, path: &str) -> (Vec<Entry>, Option<String>) {
        if self.unreadable.iter().any(|p| p == path) {
            return (vec![], Some("permission denied".to_string()));
        }
        let entries = self
            .dirs
            .iter()
            .find(|(p, _)| p == path)
            .map(|(_, es)| {
                es.iter()
                    .map(|(n, k)| Entry { name: n.clone(), kind: *k })
                    .collect()
            })
            .unwrap_or_default();
        (entries, None)
    }
}

enum Work {
    List(String),
    Validate(String),
}

struct Run {
    listed: Vec<String>,
    validated: Vec<String>,
    peak_listings: usize,
    peak_validations: usize,
    outcome: Result<(), Error>,
}

/// Drives a crawl: hands out all work that the crawler allows, then completes the oldest
/// running piece, until the crawl finishes.
fn run(tree: &Tree, max_fs: usize, max_process: usize) -> Run {
    let config = Validate { max_concurrency_fs: max_fs, max_concurrency_process: max_process };
    let mut crawler = Crawler::from_config(&config, "/a".to_string()).unwrap();
    let mut running: VecDeque<Work> = VecDeque::new();
    let mut listed = vec![];
    let mut validated = vec![];
    let mut peak_listings = 0;
    let mut peak_validations = 0;
    loop {
        match crawler.next_action() {
            Action::List(p) => {
                listed.push(p.clone());
                running.push_back(Work::List(p));
            }
            Action::Validate(p) => {
                validated.push(p.clone());
                running.push_back(Work::Validate(p));
            }
            Action::Wait => match running.pop_front().unwrap() {
                Work::List(p) => {
                    let (entries, failure) = tree.listing(&p);
                    crawler.on_listing(p, entries, failure);
                }
                Work::Validate(p) => {
                    let outcome = if tree.failing_validations.contains(&p) {
                        Err("invalid configuration".to_string())
                    } else {
                        Ok(())
                    };
                    crawler.on_validation(p, outcome);
                }
            },
            Action::Finished => break,
        }
        peak_listings = peak_listings.max(crawler.active_listings());
        peak_validations = peak_validations.max(crawler.active_validations());
    }
    assert!(crawler.is_finished());
    assert!(running.is_empty());
    Run { listed, validated, peak_listings, peak_validations, outcome: crawler.finish() }
}

fn dir(path: &str, entries: &[(&str, EntryKind)]) -> (String, Vec<(String, EntryKind)>) {
    (path.to_string(), entries.iter().map(|(n, k)| (n.to_string(), *k)).collect())
}

fn sorted(mut v: Vec<String>) -> Vec<String> {
    v.sort();
    v
}

#[test]
fn hidden_directory_is_never_visited() {
    let tree = Tree {
        dirs: vec![
            dir("/a", &[("x.tf", EntryKind::File), ("b", EntryKind::Directory), (".hidden", EntryKind::Directory)]),
            dir("/a/b", &[("y.tf", EntryKind::File)]),
            dir("/a/.hidden", &[("z.tf", EntryKind::File)]),
        ],
        failing_validations: vec![],
        unreadable: vec![],
    };
    let r = run(&tree, 4, 4);
    assert_eq!(sorted(r.listed), vec!["/a".to_string(), "/a/b".to_string()]);
    assert_eq!(sorted(r.validated), vec!["/a".to_string(), "/a/b".to_string()]);
    assert!(r.outcome.is_ok());
}

#[test]
fn two_qualifying_files_one_validation() {
    let tree = Tree {
        dirs: vec![dir("/a", &[("x.tf", EntryKind::File), ("y.tf", EntryKind::File)])],
        failing_validations: vec![],
        unreadable: vec![],
    };
    let r = run(&tree, 2, 2);
    assert_eq!(r.validated, vec!["/a".to_string()]);
    assert!(r.outcome.is_ok());
}

#[test]
fn two_failures_are_combined() {
    let tree = Tree {
        dirs: vec![
            dir("/a", &[("x.tf", EntryKind::File), ("b", EntryKind::Directory)]),
            dir("/a/b", &[("y.tf", EntryKind::File)]),
        ],
        failing_validations: vec!["/a".to_string(), "/a/b".to_string()],
        unreadable: vec![],
    };
    let r = run(&tree, 3, 3);
    let e = r.outcome.unwrap_err();
    assert!(matches!(e, Error::Aggregate { .. }));
    let text = e.message();
    assert!(text.contains("failed to validate /a: invalid configuration"));
    assert!(text.contains("failed to validate /a/b: invalid configuration"));
}

#[test]
fn one_failure_is_reported_as_is() {
    let tree = Tree {
        dirs: vec![
            dir("/a", &[("b", EntryKind::Directory), ("c", EntryKind::Directory)]),
            dir("/a/c", &[("main.tf", EntryKind::File)]),
        ],
        failing_validations: vec![],
        unreadable: vec!["/a/b".to_string()],
    };
    let r = run(&tree, 1, 1);
    match r.outcome {
        Err(Error::Traversal { path, message }) => {
            assert_eq!(path, "/a/b");
            assert_eq!(message, "permission denied");
        }
        other => panic!("unexpected outcome {:?}", other),
    }
    assert_eq!(r.validated, vec!["/a/c".to_string()]);
}

#[test]
fn single_process_budget_serialises_validations() {
    let tree = Tree {
        dirs: vec![
            dir("/a", &[("m1", EntryKind::Directory), ("m2", EntryKind::Directory), ("m3", EntryKind::Directory), ("m4", EntryKind::Directory), ("m5", EntryKind::Directory)]),
            dir("/a/m1", &[("main.tf", EntryKind::File)]),
            dir("/a/m2", &[("main.tf", EntryKind::File)]),
            dir("/a/m3", &[("main.tf", EntryKind::File)]),
            dir("/a/m4", &[("main.tf", EntryKind::File)]),
            dir("/a/m5", &[("main.tf", EntryKind::File)]),
        ],
        failing_validations: vec![],
        unreadable: vec![],
    };
    let r = run(&tree, 8, 1);
    assert_eq!(r.peak_validations, 1);
    assert_eq!(r.validated.len(), 5);
    assert!(r.outcome.is_ok());
}

#[test]
fn filesystem_budget_bounds_listings() {
    let tree = Tree {
        dirs: vec![
            dir("/a", &[("b", EntryKind::Directory), ("c", EntryKind::Directory), ("d", EntryKind::Directory)]),
            dir("/a/b", &[("e", EntryKind::Directory)]),
        ],
        failing_validations: vec![],
        unreadable: vec![],
    };
    let r = run(&tree, 2, 1);
    assert!(r.peak_listings <= 2);
    assert_eq!(r.peak_listings, 2);
    assert_eq!(
        sorted(r.listed),
        vec!["/a", "/a/b", "/a/b/e", "/a/c", "/a/d"].into_iter().map(String::from).collect::<Vec<_>>()
    );
    assert!(r.validated.is_empty());
    assert!(r.outcome.is_ok());
}

#[test]
fn zero_budget_is_refused() {
    let zero_fs = Validate { max_concurrency_fs: 0, max_concurrency_process: 1 };
    assert!(Crawler::from_config(&zero_fs, ".".to_string()).is_none());
    let zero_process = Validate { max_concurrency_fs: 1, max_concurrency_process: 0 };
    assert!(Crawler::from_config(&zero_process, ".".to_string()).is_none());
}

#[test]
fn default_budgets() {
    let v = Validate::default();
    assert_eq!(v.max_concurrency_fs, 64);
    assert_eq!(v.max_concurrency_process, 64);
}

#[test]
fn fresh_crawl_lists_the_root_first() {
    let mut crawler = Crawler::new(".".to_string(), 1, 1);
    match crawler.next_action() {
        Action::List(p) => assert_eq!(p, "."),
        other => panic!("unexpected action {:?}", other),
    }
    assert!(matches!(crawler.next_action(), Action::Wait));
    crawler.on_listing(".".to_string(), vec![], None);
    assert!(matches!(crawler.next_action(), Action::Finished));
    assert!(crawler.finish().is_ok());
}
