use firn::db::query::binding::{Variable, VariableSet, VariableSetExt};
use firn::db::{Database, Entity, Value};
use firn::graph_export::{assemble, export_graph, GraphData};
use firn::handle::Handle;
use std::path::PathBuf;

fn nodes(graph: &GraphData) -> Vec<(&str, &str)> {
    graph.nodes.iter().map(|n| (n.id.as_str(), n.label.as_str())).collect()
}

fn links(graph: &GraphData) -> Vec<(&str, &str)> {
    graph.links.iter().map(|l| (l.source.as_str(), l.target.as_str())).collect()
}

#[test]
fn graph_of_a_store() {
    let (db, _) = Database::new();
    let mut handle = Handle::new(db, PathBuf::from("data/storage"));
    handle.insert("a.jpg".into(), "blob/size".into(), "10".into());
    handle.insert("a.jpg".into(), "image/camera".into(), Value::Reference("cam".into()));
    handle.insert("b.jpg".into(), "image/camera".into(), Value::Reference("cam".into()));
    handle.insert("a.jpg".into(), "image/camera".into(), Value::Reference("cam".into()));
    handle.insert("cam".into(), "text/label".into(), "Camera".into());

    let graph = export_graph(&handle);
    assert_eq!(nodes(&graph), vec![("a.jpg", "a.jpg"), ("cam", "Camera"), ("b.jpg", "b.jpg")]);
    assert_eq!(links(&graph), vec![("a.jpg", "cam"), ("b.jpg", "cam")]);
}

#[test]
fn graph_of_an_empty_store() {
    let (db, _) = Database::new();
    let handle = Handle::new(db, PathBuf::from("data/storage"));
    let graph = export_graph(&handle);
    assert_eq!(graph.nodes.len(), 0);
    assert_eq!(graph.links.len(), 0);
}

#[test]
fn put_node_and_link() {
    let mut graph = GraphData::new();
    graph.put_node(&"a".to_string(), &"a".to_string());
    graph.put_node(&"b".to_string(), &"b".to_string());
    graph.put_node(&"a".to_string(), &"Label".to_string());
    assert_eq!(nodes(&graph), vec![("a", "Label"), ("b", "b")]);
    graph.put_link(&"a".to_string(), &"b".to_string());
    graph.put_link(&"b".to_string(), &"a".to_string());
    graph.put_link(&"a".to_string(), &"b".to_string());
    assert_eq!(links(&graph), vec![("a", "b"), ("b", "a")]);
}

#[test]
fn assemble_from_solutions() {
    let a = Variable::<Entity>::new("a");
    let b = Variable::<Entity>::new("b");
    let label = Variable::<Value>::new("label");
    let start = VariableSet::default();
    let edge = start.constrain(&a, "x".into()).unwrap().constrain(&b, "y".into()).unwrap();
    let lone = start.constrain(&a, "z".into()).unwrap();
    let unbound = VariableSet::default();
    let named = start.constrain(&a, "y".into()).unwrap().constrain(&label, "Why".into()).unwrap();
    let referred = start
        .constrain(&a, "z".into())
        .unwrap()
        .constrain(&label, Value::Reference("q".into()))
        .unwrap();

    let graph = assemble(&vec![edge, lone, unbound], &vec![named, referred]);
    assert_eq!(nodes(&graph), vec![("x", "x"), ("y", "Why"), ("z", "z")]);
    assert_eq!(links(&graph), vec![("x", "y")]);
}

#[test]
fn graph_holds_every_node_and_link_once() {
    let (db, _) = Database::new();
    let mut handle = Handle::new(db, PathBuf::from("data/storage"));
    handle.insert("a".into(), "r".into(), Value::Reference("b".into()));
    handle.insert("b".into(), "r".into(), Value::Reference("a".into()));
    handle.insert("a".into(), "s".into(), Value::Reference("b".into()));
    handle.insert("a".into(), "r".into(), Value::Reference("a".into()));
    handle.insert("b".into(), "text/label".into(), "B".into());
    handle.insert("b".into(), "text/label".into(), "Bee".into());

    let graph = export_graph(&handle);
    let mut ids: Vec<&str> = graph.nodes.iter().map(|n| n.id.as_str()).collect();
    assert_eq!(ids, vec!["a", "b"]);
    assert_eq!(links(&graph), vec![("a", "b"), ("a", "a"), ("b", "a")]);
    ids.sort();
    for (source, target) in links(&graph) {
        assert!(ids.binary_search(&source).is_ok());
        assert!(ids.binary_search(&target).is_ok());
    }
    // The last label given is the one that stays.
    assert_eq!(nodes(&graph), vec![("a", "a"), ("b", "Bee")]);
}
