use firn::db::query::binding::{Variable, VariableSet, VariableSetExt};
use firn::db::{Database, Entity, Value};
use firn::hierarchy::{directories, hierarchy_rules, placement, HierarchyError};

#[test]
fn directories_of_an_image() {
    let (by_camera, by_time) = directories("Apple", "iPhone 8", 2018, "April", 16);
    assert_eq!(by_camera, "Apple/iPhone 8");
    assert_eq!(by_time, "2018/April/16");
    let (_, by_time) = directories("a", "b", -44, "March", 5);
    assert_eq!(by_time, "-44/March/5");
}

#[test]
fn images_are_placed_by_camera_and_day() {
    let (mut db, _) = Database::new();
    db.insert("iPhone 8".into(), "device/manufacturer".into(), "Apple".into());
    db.insert("a.jpg".into(), "image/camera".into(), Value::Reference("iPhone 8".into()));
    db.insert("a.jpg".into(), "time/creation".into(), "2018-04-16T09:05:07.00Z".into());
    db.insert("b.jpg".into(), "image/camera".into(), Value::Reference("iPhone 8".into()));
    db.insert("b.jpg".into(), "time/creation".into(), "2019-12-01T23:59:59.00+02:00".into());
    db.insert("c.jpg".into(), "image/camera".into(), Value::Reference("iPhone 8".into()));
    db.insert("c.jpg".into(), "time/creation".into(), "yesterday".into());

    let images = db.query(&hierarchy_rules());
    assert_eq!(images.len(), 3);

    let place = placement(&images[0]).unwrap();
    assert_eq!(place.image, "a.jpg");
    assert_eq!(place.by_camera, "Apple/iPhone 8");
    assert_eq!(place.by_time, "2018/April/16");

    let place = placement(&images[1]).unwrap();
    assert_eq!(place.image, "b.jpg");
    assert_eq!(place.by_time, "2019/December/1");

    assert_eq!(placement(&images[2]).err(), Some(HierarchyError::InvalidTime));
}

#[test]
fn incomplete_solutions_are_not_placed() {
    let time = Variable::<Value>::new("time");
    let make = Variable::<Value>::new("make");
    let model = Variable::<Entity>::new("model");
    let image = Variable::<Entity>::new("image");

    assert_eq!(placement(&VariableSet::default()).err(), Some(HierarchyError::Incomplete));

    let partial = VariableSet::default()
        .constrain(&make, "Apple".into())
        .unwrap()
        .constrain(&time, "2018-04-16T09:05:07.00Z".into())
        .unwrap()
        .constrain(&model, "iPhone 8".into())
        .unwrap();
    assert_eq!(placement(&partial).err(), Some(HierarchyError::Incomplete));
    let whole = partial.constrain(&image, "a.jpg".into()).unwrap();
    assert_eq!(placement(&whole).unwrap().by_time, "2018/April/16");

    // A make that is a reference is no make, whatever the time is.
    let referred = VariableSet::default()
        .constrain(&make, Value::Reference("x".into()))
        .unwrap()
        .constrain(&time, "never".into())
        .unwrap()
        .constrain(&model, "iPhone 8".into())
        .unwrap()
        .constrain(&image, "a.jpg".into())
        .unwrap();
    assert_eq!(placement(&referred).err(), Some(HierarchyError::Incomplete));
}
