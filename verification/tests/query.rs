use firn::db::query::binding::{Variable, VariableSetExt};
use firn::db::query::binding::VariableSet;
use firn::db::query::display::{describe, format_variables, AnyVariable};
use firn::db::query::rule::RuleVal;
use firn::db::query::rule::Rule;
use firn::db::query::QueryError;
use firn::db::{Attribute, Database, Entity, Value};

#[test]
fn work() {
    let (mut db, _) = Database::new();

    // Insert entity #1
    db.insert("1".into(), "time/stamp".into(), "42".into());
    db.insert("1".into(), "doc/size".into(), "255".into());

    // Insert entity #2
    db.insert("2".into(), "time/stamp".into(), "42".into());
    db.insert("2".into(), "doc/size".into(), "37".into());

    // Insert entity #3
    db.insert("3".into(), "time/stamp".into(), "1337".into());
    db.insert("3".into(), "doc/size".into(), "37".into());

    // Build a query
    let entity = Variable::<Entity>::new("entity");
    let size = Variable::<Value>::new("size");

    let rules = vec![
        Rule::new((&entity).into(), "time/stamp".into(), "42".into()),
        Rule::new((&entity).into(), "doc/size".into(), (&size).into()),
    ];

    let results = db.query(&rules);
    results.iter().for_each(|b| println!("{b:?}"));

    assert_eq!(results.len(), 2);
    assert_eq!(results[0].get(&entity), Some(&"1".into()));
    assert_eq!(results[0].get(&size), Some(&"255".into()));
    assert_eq!(results[1].get(&entity), Some(&"2".into()));
    assert_eq!(results[1].get(&size), Some(&"37".into()));
}

#[test]
fn handle_coercion() {
    let (mut db, _) = Database::new();

    // Insert entity #1
    db.insert("1".into(), "time/stamp".into(), "42".into());
    db.insert("1".into(), "doc/size".into(), "255".into());

    // Insert entity #2
    db.insert("2".into(), "time/stamp".into(), "42".into());
    db.insert("2".into(), "doc/size".into(), "37".into());

    // Insert entity #3
    db.insert("3".into(), "rel/something".into(), Value::Reference("1".into()));
    db.insert("3".into(), "doc/size".into(), "69".into());

    // Build a query
    let entity_a = Variable::<Entity>::new("src");
    let entity_b = Variable::<Entity>::new("dst");
    let size = Variable::<Value>::new("size");

    let rules = vec![
        Rule::new((&entity_a).into(), "time/stamp".into(), "42".into()),
        Rule::new((&entity_b).into(), "rel/something".into(), (&entity_a).into()),
        Rule::new((&entity_b).into(), "doc/size".into(), (&size).into()),
    ];

    let results = db.query(&rules);

    assert_eq!(results.len(), 1);
    assert_eq!(results[0].get(&entity_a), Some(&"1".into()));
    assert_eq!(results[0].get(&entity_b), Some(&"3".into()));
    assert_eq!(results[0].get(&size), Some(&"69".into()));
}

#[test]
fn unsupported_pattern_is_refused() {
    let (mut db, _) = Database::new();
    db.insert("1".into(), "time/stamp".into(), "42".into());

    let attribute = Variable::<Attribute>::new("attr");
    let rules = vec![Rule::new("1".into(), (&attribute).into(), "42".into())];

    assert_eq!(db.try_query(&rules).err(), Some(QueryError::UnsupportedPattern));
}

#[test]
fn codegen_correctly() {
    let (mut db, _) = Database::new();

    db.insert("1".into(), "time/stamp".into(), "42".into());
    db.insert("1".into(), "doc/size".into(), "255".into());

    let a = Variable::<Value>::new("a");
    let b = Variable::<Entity>::new("b");
    let c = Variable::<Value>::new("c");
    let rules = vec![
        Rule::new((&b).into(), "time/stamp".into(), (&a).into()),
        Rule::new((&b).into(), "doc/size".into(), (&c).into()),
    ];
    let results = db.query(&rules);

    for result in results.iter() {
        println!("{{ {} }}", format_variables(result, &vec![(&a).into(), (&b).into(), (&c).into()]));
    }

    let results_str = format_variables(&results[0], &vec![(&a).into(), (&b).into(), (&c).into()]);
    assert_eq!(results_str, "?a: 42, #b: 1, ?c: 255");
}

fn seed() -> Database {
    let (mut db, _) = Database::new();
    db.insert("1".into(), "time/stamp".into(), "42".into());
    db.insert("1".into(), "doc/size".into(), "255".into());
    db.insert("2".into(), "time/stamp".into(), "42".into());
    db.insert("2".into(), "doc/size".into(), "37".into());
    db.insert("3".into(), "time/stamp".into(), "1337".into());
    db.insert("3".into(), "doc/size".into(), "37".into());
    db
}

fn lines(db: &Database, rules: &Vec<Rule>, variables: &Vec<AnyVariable>) -> Vec<String> {
    db.query(rules).iter().map(|s| format_variables(s, variables)).collect()
}

#[test]
fn empty_rule_list_has_one_empty_solution() {
    let db = seed();
    let results = db.query(&Vec::new());
    assert_eq!(results.len(), 1);
    let e = Variable::<Entity>::new("e");
    let a = Variable::<Attribute>::new("a");
    let v = Variable::<Value>::new("v");
    assert_eq!(results[0].get(&e), None);
    assert_eq!(results[0].get(&a), None);
    assert_eq!(results[0].get(&v), None);
}

#[test]
fn all_constant_rule_passes_through() {
    let db = seed();
    let e = Variable::<Entity>::new("e");
    let vars: Vec<AnyVariable> = vec![(&e).into()];
    let plain = vec![Rule::new((&e).into(), "time/stamp".into(), "42".into())];
    let with_ground = vec![
        Rule::new((&e).into(), "time/stamp".into(), "42".into()),
        Rule::new("1".into(), "doc/size".into(), "255".into()),
    ];
    assert_eq!(lines(&db, &plain, &vars), vec!["#e: 1", "#e: 2"]);
    assert_eq!(lines(&db, &with_ground, &vars), lines(&db, &plain, &vars));

    // The constants are not looked up: the rule passes solutions on even
    // where no such triplet is stored.
    let absent = vec![Rule::new("9".into(), "no/such".into(), "0".into())];
    assert_eq!(db.query(&absent).len(), 1);
}

#[test]
fn rule_without_completion_drops_the_branch() {
    let db = seed();
    let e = Variable::<Entity>::new("e");
    let s = Variable::<Value>::new("s");
    let rules = vec![
        Rule::new((&e).into(), "time/stamp".into(), "42".into()),
        Rule::new((&e).into(), "no/such".into(), (&s).into()),
    ];
    assert_eq!(db.query(&rules).len(), 0);

    // Only the branch is dropped: of the three entities with a size, one
    // refers to nothing, and the other two have no such reference to them.
    let mut db = db;
    db.insert("3".into(), "rel".into(), Value::Reference("1".into()));
    let f = Variable::<Entity>::new("f");
    let rules = vec![
        Rule::new((&e).into(), "doc/size".into(), (&s).into()),
        Rule::new((&f).into(), "rel".into(), (&e).into()),
    ];
    let vars: Vec<AnyVariable> = vec![(&e).into(), (&s).into(), (&f).into()];
    assert_eq!(lines(&db, &rules, &vars), vec!["#e: 1, ?s: 255, #f: 3"]);

    // A rule that is loaded to constants only is not looked up, so it drops
    // nothing.
    let rules = vec![
        Rule::new((&e).into(), "doc/size".into(), (&s).into()),
        Rule::new((&e).into(), "time/stamp".into(), "1337".into()),
    ];
    assert_eq!(db.query(&rules).len(), 3);
}

#[test]
fn single_rule_solutions_count_the_matching_triplets() {
    let mut db = seed();
    db.insert("1".into(), "time/stamp".into(), "42".into());
    let e = Variable::<Entity>::new("e");
    let a = Variable::<Attribute>::new("a");
    let v = Variable::<Value>::new("v");

    // (V, C, C)
    let rules = vec![Rule::new((&e).into(), "time/stamp".into(), "42".into())];
    assert_eq!(db.query(&rules).len(), 3);
    // (C, C, V)
    let rules = vec![Rule::new("1".into(), "time/stamp".into(), (&v).into())];
    assert_eq!(db.query(&rules).len(), 2);
    // (V, C, V)
    let rules = vec![Rule::new((&e).into(), "doc/size".into(), (&v).into())];
    assert_eq!(db.query(&rules).len(), 3);
    // (C, V, V)
    let rules = vec![Rule::new("2".into(), (&a).into(), (&v).into())];
    assert_eq!(db.query(&rules).len(), 2);
    // (V, V, C)
    let rules = vec![Rule::new((&e).into(), (&a).into(), "37".into())];
    assert_eq!(db.query(&rules).len(), 2);
    // (V, V, V)
    let rules = vec![Rule::new((&e).into(), (&a).into(), (&v).into())];
    assert_eq!(db.query(&rules).len(), 7);
}

#[test]
fn three_values_give_three_solutions() {
    let (mut db, _) = Database::new();
    db.insert("1".into(), "tag".into(), "a".into());
    db.insert("1".into(), "tag".into(), "b".into());
    db.insert("1".into(), "tag".into(), "c".into());
    let e = Variable::<Entity>::new("e");
    let v = Variable::<Value>::new("v");
    let rules = vec![Rule::new((&e).into(), "tag".into(), (&v).into())];
    let vars: Vec<AnyVariable> = vec![(&e).into(), (&v).into()];
    assert_eq!(lines(&db, &rules, &vars), vec!["#e: 1, ?v: a", "#e: 1, ?v: b", "#e: 1, ?v: c"]);
}

#[test]
fn solutions_do_not_depend_on_insertion_order() {
    let triplets = [
        ("1", "time/stamp", "42"),
        ("1", "doc/size", "255"),
        ("2", "time/stamp", "42"),
        ("2", "doc/size", "37"),
        ("3", "doc/size", "37"),
    ];
    let e = Variable::<Entity>::new("e");
    let s = Variable::<Value>::new("s");
    let rules = vec![
        Rule::new((&e).into(), "time/stamp".into(), "42".into()),
        Rule::new((&e).into(), "doc/size".into(), (&s).into()),
    ];
    let vars: Vec<AnyVariable> = vec![(&e).into(), (&s).into()];

    let (mut forward, _) = Database::new();
    for (a, b, c) in triplets.iter() {
        forward.insert((*a).into(), (*b).into(), (*c).into());
    }
    let (mut backward, _) = Database::new();
    for (a, b, c) in triplets.iter().rev() {
        backward.insert((*a).into(), (*b).into(), (*c).into());
    }
    let from_forward = lines(&forward, &rules, &vars);
    let mut from_backward = lines(&backward, &rules, &vars);
    assert_eq!(from_forward, vec!["#e: 1, ?s: 255", "#e: 2, ?s: 37"]);
    // The order of the solutions follows the order of insertion ...
    assert_eq!(from_backward, vec!["#e: 2, ?s: 37", "#e: 1, ?s: 255"]);
    // ... the solutions do not.
    from_backward.sort();
    assert_eq!(from_forward, from_backward);
}

#[test]
fn rebuild_keeps_the_solutions() {
    let mut db = seed();
    db.insert("3".into(), "rel".into(), Value::Reference("1".into()));
    let e = Variable::<Entity>::new("e");
    let f = Variable::<Entity>::new("f");
    let s = Variable::<Value>::new("s");
    let rules = vec![
        Rule::new((&e).into(), "time/stamp".into(), "42".into()),
        Rule::new((&f).into(), "rel".into(), (&e).into()),
        Rule::new((&f).into(), "doc/size".into(), (&s).into()),
    ];
    let vars: Vec<AnyVariable> = vec![(&e).into(), (&f).into(), (&s).into()];
    let mut before = lines(&db, &rules, &vars);
    db.rebuild_indices();
    let mut after = lines(&db, &rules, &vars);
    before.sort();
    after.sort();
    assert_eq!(before, vec!["#e: 1, #f: 3, ?s: 37"]);
    assert_eq!(before, after);
}

#[test]
fn query_is_repeatable() {
    let db = seed();
    let e = Variable::<Entity>::new("e");
    let a = Variable::<Attribute>::new("a");
    let v = Variable::<Value>::new("v");
    let rules = vec![Rule::new((&e).into(), (&a).into(), (&v).into())];
    let vars: Vec<AnyVariable> = vec![(&e).into(), (&a).into(), (&v).into()];
    let once = lines(&db, &rules, &vars);
    let again = lines(&db, &rules, &vars);
    assert_eq!(once.len(), 6);
    assert_eq!(once[0], "#e: 1, :a: time/stamp, ?v: 42");
    assert_eq!(once, again);
}

#[test]
fn try_query_gives_what_query_gives() {
    let db = seed();
    let e = Variable::<Entity>::new("e");
    let rules = vec![Rule::new((&e).into(), "time/stamp".into(), "42".into())];
    let vars: Vec<AnyVariable> = vec![(&e).into()];
    let found: Vec<String> =
        db.try_query(&rules).unwrap().iter().map(|s| format_variables(s, &vars)).collect();
    assert_eq!(found, lines(&db, &rules, &vars));
}

#[test]
fn unsupported_pattern_met_on_the_way() {
    let db = seed();
    let e = Variable::<Entity>::new("e");
    let a = Variable::<Attribute>::new("a");
    // The first rule binds the entity, so the second is loaded as
    // (constant, variable, constant).
    let rules = vec![
        Rule::new((&e).into(), "time/stamp".into(), "42".into()),
        Rule::new((&e).into(), (&a).into(), "255".into()),
    ];
    assert_eq!(db.try_query(&rules).err(), Some(QueryError::UnsupportedPattern));
    // Where no partial solution reaches the rule, nothing is refused.
    let rules = vec![
        Rule::new((&e).into(), "time/stamp".into(), "none".into()),
        Rule::new((&e).into(), (&a).into(), "255".into()),
    ];
    assert_eq!(db.try_query(&rules).unwrap().len(), 0);
}

#[test]
fn constrain_never_overwrites() {
    let x = Variable::<Entity>::new("x");
    let y = Variable::<Attribute>::new("y");
    let z = Variable::<Value>::new("z");
    let set = VariableSet::default();
    let set = set.constrain(&x, Entity::from("1")).unwrap();
    assert_eq!(set.get(&x), Some(&Entity::from("1")));
    // Idempotent under the same value, and no extension by another.
    let same = set.constrain(&x, Entity::from("1")).unwrap();
    assert_eq!(same.get(&x), Some(&Entity::from("1")));
    assert!(set.constrain(&x, Entity::from("2")).is_none());
    // The set that was extended stays as it was.
    let bound = set.constrain(&y, Attribute::from("a")).unwrap();
    assert_eq!(bound.get(&y), Some(&Attribute::from("a")));
    assert_eq!(set.get(&y), None);
    assert!(bound.constrain(&y, Attribute::from("b")).is_none());
    assert!(bound.constrain(&y, Attribute::from("a")).is_some());
    let valued = bound.constrain(&z, Value::from("v")).unwrap();
    assert!(valued.constrain(&z, Value::from("w")).is_none());
    assert!(valued.constrain(&z, Value::Reference("v".into())).is_none());
    assert_eq!(valued.constrain(&z, Value::from("v")).unwrap().get(&z), Some(&Value::from("v")));
    // Two variables may be bound to the same value.
    let w = Variable::<Value>::new("w");
    assert_eq!(valued.constrain(&w, Value::from("v")).unwrap().get(&w), Some(&Value::from("v")));
}

#[test]
fn constrain_coerces_between_entity_and_value() {
    let x_entity = Variable::<Entity>::new("x");
    let x_value: Variable<Value> = x_entity.clone().into();
    let back: Variable<Entity> = x_value.clone().into();
    assert_eq!(back, x_entity);
    assert_eq!(x_value.name(), "x");

    let set = VariableSet::default().constrain(&x_entity, Entity::from("1")).unwrap();
    assert_eq!(set.get(&x_value), Some(&Value::Reference("1".into())));
    // The value variable of the same name is bound with the entity variable.
    assert!(set.constrain(&x_value, Value::Reference("1".into())).is_some());
    assert!(set.constrain(&x_value, Value::Reference("2".into())).is_none());
    assert!(set.constrain(&x_value, Value::from("1")).is_none());

    let set = VariableSet::default().constrain(&x_value, Value::Reference("2".into())).unwrap();
    assert_eq!(set.get(&x_entity), Some(&Entity::from("2")));
    assert!(set.constrain(&x_entity, Entity::from("2")).is_some());
    assert!(set.constrain(&x_entity, Entity::from("3")).is_none());

    let set = VariableSet::default().constrain(&x_value, Value::from("data")).unwrap();
    assert_eq!(set.get(&x_entity), None);
    assert_eq!(set.get(&x_value), Some(&Value::from("data")));
    // Data is no entity.
    assert!(set.constrain(&x_entity, Entity::from("data")).is_none());
}

#[test]
fn a_name_in_both_slots_asks_for_a_reference_to_itself() {
    let (mut db, _) = Database::new();
    db.insert("1".into(), "rel".into(), "d".into());
    db.insert("1".into(), "rel".into(), Value::Reference("2".into()));
    db.insert("2".into(), "rel".into(), Value::Reference("2".into()));
    let x = Variable::<Entity>::new("x");
    let y = Variable::<Entity>::new("y");

    // Three triplets agree with the constant, one can be bound.
    let rules = vec![Rule::new((&x).into(), "rel".into(), (&x).into())];
    let vars: Vec<AnyVariable> = vec![(&x).into()];
    assert_eq!(lines(&db, &rules, &vars), vec!["#x: 2"]);

    // With two names every triplet gives a solution.
    let rules = vec![Rule::new((&x).into(), "rel".into(), (&y).into())];
    let vars: Vec<AnyVariable> = vec![(&x).into(), (&y).into()];
    assert_eq!(lines(&db, &rules, &vars), vec!["#x: 1, #y: ", "#x: 1, #y: 2", "#x: 2, #y: 2"]);
}

#[test]
fn rule_constrain_extends_in_index_order() {
    let db = seed();
    let e = Variable::<Entity>::new("e");
    let s = Variable::<Value>::new("s");
    let rule = Rule::new((&e).into(), "doc/size".into(), (&s).into());
    let extended = rule.constrain(VariableSet::default(), &db);
    let vars: Vec<AnyVariable> = vec![(&e).into(), (&s).into()];
    let found: Vec<String> = extended.iter().map(|s| format_variables(s, &vars)).collect();
    assert_eq!(found, vec!["#e: 1, ?s: 255", "#e: 2, ?s: 37", "#e: 3, ?s: 37"]);

    let a = Variable::<Attribute>::new("a");
    let rule = Rule::new("1".into(), (&a).into(), "42".into());
    assert!(rule.try_constrain(&VariableSet::default(), &db).is_none());
}

#[test]
fn rule_slots_from_values() {
    let db = seed();
    let s = Variable::<Value>::new("s");
    let one = Entity::from("1");
    let size = Attribute::from("doc/size");
    let rule = Rule::new((&one).into(), (&size).into(), (&s).into());
    assert_eq!(rule.constrain(VariableSet::default(), &db).len(), 1);
    let rule = Rule::new(one.into(), size.into(), Value::from("255").into());
    assert_eq!(rule.constrain(VariableSet::default(), &db).len(), 1);
    let slot: RuleVal<Value> = (&Entity::from("1")).into();
    assert!(matches!(slot, RuleVal::Constant(Value::Reference(_))));
    let slot: RuleVal<Value> = (&Value::from("x")).into();
    assert!(matches!(slot, RuleVal::Constant(Value::Data(_))));
}

#[test]
fn describe_variables() {
    let e = Variable::<Entity>::new("e");
    let a = Variable::<Attribute>::new("a");
    let v = Variable::<Value>::new("v");
    assert_eq!(e.label(), "#e");
    assert_eq!(a.label(), ":a");
    assert_eq!(v.label(), "?v");
    let set = VariableSet::default()
        .constrain(&a, Attribute::from("time/stamp"))
        .unwrap()
        .constrain(&v, Value::Reference("7".into()))
        .unwrap();
    assert_eq!(describe(&set, &(&a).into()), ":a: time/stamp");
    assert_eq!(describe(&set, &(&v).into()), "?v: Ref(7)");
    assert_eq!(describe(&set, &(&e).into()), "#e: ");
    assert_eq!(format_variables(&set, &Vec::new()), "");
    assert_eq!(format_variables(&set, &vec![(&e).into(), (&a).into()]), "#e: , :a: time/stamp");
}
