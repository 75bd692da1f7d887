use firn::db::triplet_tree::TripletTree;
use firn::db::{Attribute, Database, Entity, Value};

fn e(name: &str) -> Entity {
    Entity::from(name)
}

fn a(label: &str) -> Attribute {
    Attribute::from(label)
}

fn d(data: &str) -> Value {
    Value::from(data)
}

#[test]
fn merge_values() {
    let mut tree: TripletTree<Entity, Attribute, Value> = TripletTree::default();
    tree.append(e("1"), a("2"), d("test1"));
    tree.append(e("1"), a("2"), d("test2"));

    assert_eq!(tree.values(&e("1"), &a("2")), vec![d("test1"), d("test2")]);
    assert_eq!(tree.len(), 1);
}

#[test]
fn separate_keys() {
    let mut tree: TripletTree<Entity, Attribute, Value> = TripletTree::default();
    tree.append(e("a"), a("b"), d("test1"));
    tree.append(e("c"), a("d"), d("test2"));

    assert_eq!(tree.values(&e("a"), &a("b")), vec![d("test1")]);
    assert_eq!(tree.values(&e("c"), &a("d")), vec![d("test2")]);
    assert_eq!(tree.values(&e("a"), &a("d")), Vec::<Value>::new());
    assert_eq!(tree.len(), 2);
}

#[test]
fn remove_values() {
    let mut tree: TripletTree<Entity, Attribute, Value> = TripletTree::default();
    tree.append(e("1"), a("2"), d("test1"));
    tree.append(e("1"), a("2"), d("test2"));
    tree.append(e("1"), a("3"), d("other"));
    assert_eq!(tree.values(&e("1"), &a("2")).len(), 2);

    tree.remove(&e("1"), &a("2"));
    assert_eq!(tree.values(&e("1"), &a("2")), Vec::<Value>::new());
    assert_eq!(tree.values(&e("1"), &a("3")), vec![d("other")]);
    assert_eq!(tree.len(), 1);

    // Removing what is not there changes nothing.
    tree.remove(&e("9"), &a("9"));
    assert_eq!(tree.len(), 1);
}

#[test]
fn scan_whole_tree() {
    let mut tree: TripletTree<Entity, Attribute, Value> = TripletTree::default();
    tree.append(e("a"), a("b"), d("test1"));
    tree.append(e("c"), a("d"), d("test2"));
    tree.append(e("a"), a("b"), d("test3"));

    assert_eq!(
        tree.scan(),
        vec![(e("a"), a("b"), vec![d("test1"), d("test3")]), (e("c"), a("d"), vec![d("test2")])]
    );
}

#[test]
fn get_by_first_key() {
    let mut tree: TripletTree<Entity, Attribute, Value> = TripletTree::default();
    tree.append(e("a"), a("x"), d("1"));
    tree.append(e("b"), a("x"), d("2"));
    tree.append(e("a"), a("y"), d("3"));
    tree.append(e("a"), a("x"), d("4"));

    assert_eq!(tree.get(&e("a")), vec![(a("x"), vec![d("1"), d("4")]), (a("y"), vec![d("3")])]);
    assert_eq!(tree.get(&e("z")), Vec::<(Attribute, Vec<Value>)>::new());
}

#[test]
fn matching_by_keys() {
    let mut tree: TripletTree<Entity, Attribute, Value> = TripletTree::default();
    tree.append(e("a"), a("x"), d("1"));
    tree.append(e("b"), a("x"), d("2"));
    tree.append(e("a"), a("y"), d("3"));
    tree.append(e("a"), a("x"), d("4"));

    assert_eq!(
        tree.matching(Some(&e("a")), Some(&a("x"))),
        vec![(e("a"), a("x"), d("1")), (e("a"), a("x"), d("4"))]
    );
    assert_eq!(
        tree.matching(Some(&e("a")), None),
        vec![(e("a"), a("x"), d("1")), (e("a"), a("x"), d("4")), (e("a"), a("y"), d("3"))]
    );
    assert_eq!(tree.matching(None, Some(&a("y"))), vec![(e("a"), a("y"), d("3"))]);
    assert_eq!(tree.matching(None, None).len(), 4);
    assert_eq!(tree.matching(Some(&e("q")), None).len(), 0);
}

#[test]
fn clear_empties_the_tree() {
    let mut tree: TripletTree<Entity, Attribute, Value> = TripletTree::default();
    tree.append(e("a"), a("x"), d("1"));
    tree.clear();
    assert_eq!(tree.len(), 0);
    assert_eq!(tree.scan().len(), 0);
}

#[test]
fn multi_value_attribute() {
    let (mut db, _) = Database::new();
    db.insert(e("1"), a("tag"), d("a"));
    db.insert(e("1"), a("tag"), d("b"));
    db.insert(e("1"), a("tag"), d("c"));

    assert_eq!(db.get(&e("1"), &a("tag")), vec![d("a"), d("b"), d("c")]);
    assert_eq!(db.get(&e("1"), &a("other")), Vec::<Value>::new());
    assert_eq!(db.len(), 1);
}

#[test]
fn new_database_is_empty() {
    let (db, write_log) = Database::new();
    assert_eq!(db.len(), 0);
    assert!(write_log.caught_up(&db));
}

#[test]
fn duplicates_are_kept() {
    let (mut db, mut write_log) = Database::new();
    db.insert(e("1"), a("tag"), d("a"));
    db.insert(e("1"), a("tag"), d("a"));

    assert_eq!(db.get(&e("1"), &a("tag")), vec![d("a"), d("a")]);
    assert_eq!(write_log.recv(&db), Some((e("1"), a("tag"), d("a"))));
    assert_eq!(write_log.recv(&db), Some((e("1"), a("tag"), d("a"))));
    assert_eq!(write_log.recv(&db), None);
}

fn sorted(mut items: Vec<(String, String, String)>) -> Vec<(String, String, String)> {
    items.sort();
    items
}

#[test]
fn indices_agree_after_rebuild() {
    let (mut db, _) = Database::new();
    db.insert(e("2"), a("x"), d("v"));
    db.insert(e("1"), a("y"), d("w"));
    db.insert(e("1"), a("x"), d("v"));
    db.insert(e("1"), a("x"), d("v"));
    db.insert(e("3"), a("r"), Value::Reference(e("1")));

    for round in 0..2 {
        if round == 1 {
            db.rebuild_indices();
        }
        let from_eav: Vec<_> = db
            .eav()
            .matching(None, None)
            .iter()
            .map(|t| (t.0.to_text(), t.1.to_text(), t.2.to_text()))
            .collect();
        let from_ave: Vec<_> = db
            .ave()
            .matching(None, None)
            .iter()
            .map(|t| (t.2.to_text(), t.0.to_text(), t.1.to_text()))
            .collect();
        let from_vae: Vec<_> = db
            .vae()
            .matching(None, None)
            .iter()
            .map(|t| (t.2.to_text(), t.1.to_text(), t.0.to_text()))
            .collect();
        assert_eq!(from_eav.len(), 5);
        assert_eq!(sorted(from_eav.clone()), sorted(from_ave));
        assert_eq!(sorted(from_eav), sorted(from_vae));
    }
}

#[test]
fn rebuild_orders_by_the_scan_of_the_first_index() {
    let (mut db, _) = Database::new();
    db.insert(e("2"), a("a"), d("x"));
    db.insert(e("1"), a("a"), d("v"));
    db.insert(e("2"), a("a"), d("v"));

    assert_eq!(db.ave().values(&a("a"), &d("v")), vec![e("1"), e("2")]);
    db.rebuild_indices();
    assert_eq!(db.ave().values(&a("a"), &d("v")), vec![e("2"), e("1")]);
    assert_eq!(db.vae().values(&d("v"), &a("a")), vec![e("2"), e("1")]);
    assert_eq!(db.get(&e("2"), &a("a")), vec![d("x"), d("v")]);
}

#[test]
fn value_data() {
    assert_eq!(d("42").data(), "42");
    assert_eq!(Value::from("x".to_string()).data(), "x");
}

#[test]
fn conversions() {
    assert_eq!(Entity::from("1".to_string()), e("1"));
    assert_eq!(Attribute::from("x".to_string()), a("x"));
    assert_eq!(Value::from(e("1")), Value::Reference(e("1")));
    assert_eq!(Value::from(&e("1")), Value::Reference(e("1")));
    assert_ne!(Value::from("1"), Value::Reference(e("1")));
    assert_ne!(e("1"), e("2"));
    assert_eq!(e("1").clone(), e("1"));
    assert_eq!(Value::Reference(e("7")).to_text(), "Ref(7)");
    assert_eq!(d("7").to_text(), "7");
}
