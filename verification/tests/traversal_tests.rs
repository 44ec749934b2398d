use docscan::graph::{expand_graph, ModuleGraph};
use docscan::items::{source_path_of, CheckItem};
use docscan::traversal::{Traversal, VisitStep};

fn node(path: &str, children: &[&str]) -> (String, Vec<String>) {
    (path.to_owned(), children.iter().map(|c| (*c).to_owned()).collect())
}

#[test]
fn acyclic_graph_visits_each_file_once() {
    let g = ModuleGraph {
        nodes: vec![
            node("a.rs", &["b.rs", "c.rs"]),
            node("b.rs", &["d.rs"]),
            node("c.rs", &["d.rs"]),
        ],
    };
    let entries = vec!["a.rs".to_owned()];
    let visited = expand_graph(&entries, &g);
    assert_eq!(
        visited,
        vec!["a.rs".to_owned(), "b.rs".to_owned(), "c.rs".to_owned(), "d.rs".to_owned()]
    );
}

#[test]
fn cycle_two_files_terminates_and_visits_each_once() {
    let g = ModuleGraph {
        nodes: vec![node("a.rs", &["b.rs"]), node("b.rs", &["a.rs"])],
    };
    let entries = vec!["a.rs".to_owned()];
    let visited = expand_graph(&entries, &g);
    assert_eq!(visited, vec!["a.rs".to_owned(), "b.rs".to_owned()]);
}

#[test]
fn unreachable_node_is_not_visited() {
    let g = ModuleGraph {
        nodes: vec![node("a.rs", &[]), node("lost.rs", &["a.rs"])],
    };
    let entries = vec!["a.rs".to_owned()];
    let visited = expand_graph(&entries, &g);
    assert_eq!(visited, vec!["a.rs".to_owned()]);
}

#[test]
fn machine_discards_rediscovered_files_and_skips_non_sources() {
    let mut t = Traversal::new(vec![
        CheckItem::Source("a.rs".to_owned()),
        CheckItem::Markdown("README.md".to_owned()),
    ]);
    match t.step() {
        VisitStep::Expand(p) => {
            assert_eq!(p, "a.rs".to_owned());
            t.enqueue_sources(vec!["b.rs".to_owned(), "a.rs".to_owned()]);
        },
        _ => panic!("first step must expand the entry"),
    }
    assert!(matches!(t.step(), VisitStep::Skipped));
    match t.step() {
        VisitStep::Expand(p) => assert_eq!(p, "b.rs".to_owned()),
        _ => panic!("b.rs must be expanded"),
    }
    match t.step() {
        VisitStep::AlreadySeen(p) => assert_eq!(p, "a.rs".to_owned()),
        _ => panic!("a.rs must be reported as already seen"),
    }
    assert!(matches!(t.step(), VisitStep::Done));
    let visited = t.into_visited();
    assert_eq!(
        visited,
        vec![CheckItem::Source("a.rs".to_owned()), CheckItem::Source("b.rs".to_owned())]
    );
}

#[test]
fn only_source_items_yield_a_load_path() {
    assert_eq!(
        source_path_of(&CheckItem::Source("x.rs".to_owned())).unwrap(),
        "x.rs".to_owned()
    );
    assert!(source_path_of(&CheckItem::Markdown("x.md".to_owned())).is_err());
    assert!(source_path_of(&CheckItem::ManifestDescription("text".to_owned())).is_err());
}

#[test]
fn shared_entries_are_visited_once() {
    let g = ModuleGraph {
        nodes: vec![node("a.rs", &["c.rs"]), node("b.rs", &["c.rs"])],
    };
    let entries = vec!["a.rs".to_owned(), "b.rs".to_owned(), "a.rs".to_owned()];
    let visited = expand_graph(&entries, &g);
    assert_eq!(visited, vec!["a.rs".to_owned(), "b.rs".to_owned(), "c.rs".to_owned()]);
}
