use routeguide::DbLoader;
use routeguide::Feature;
use routeguide::FeatureStore;
use routeguide::Point;
use routeguide::ServiceError;

fn pt(latitude: i32, longitude: i32) -> Point {
    Point { latitude, longitude }
}

fn feat(name: &str, location: Option<Point>) -> Feature {
    Feature { name: String::from(name), location }
}

#[test]
fn load_builds_the_store_from_a_snapshot() {
    let decoded = vec![feat("A", Some(pt(0, 0))), feat("B", None)];
    let store = FeatureStore::load(Some(decoded)).expect("decoded snapshot loads");
    assert_eq!(store.len(), 2);
    let found = store.find_at(&pt(0, 0)).expect("feature stored at (0, 0)");
    assert_eq!(found.name, "A");
}

#[test]
fn load_failure_is_fatal() {
    match FeatureStore::load(None) {
        Ok(_) => panic!("a failed decode must not produce a store"),
        Err(e) => assert_eq!(e, ServiceError::StartupLoad),
    }
}

#[test]
fn append_from_adds_the_batch() {
    let mut store = FeatureStore::load(Some(vec![feat("A", Some(pt(0, 0)))])).expect("loads");
    let outcome = store.append_from(Some(vec![feat("B", Some(pt(1, 1)))]));
    assert!(outcome.is_ok());
    assert_eq!(store.len(), 2);
    assert!(store.find_at(&pt(1, 1)).is_some());
}

#[test]
fn append_from_failure_leaves_the_store_unchanged() {
    let mut store = FeatureStore::load(Some(vec![feat("A", Some(pt(0, 0)))])).expect("loads");
    let outcome = store.append_from(None);
    assert_eq!(outcome, Err(ServiceError::RuntimeLoad));
    assert_eq!(store.len(), 1);
    assert!(store.find_at(&pt(0, 0)).is_some());
}

#[test]
fn db_loader_carries_its_reader() {
    let loader = Feature::db_loader();
    let with_bytes = loader.with_reader(vec![1u8, 2, 3]);
    assert_eq!(with_bytes.reader, vec![1u8, 2, 3]);
}

#[test]
fn db_loader_new_is_bare() {
    let loader: DbLoader = DbLoader::new();
    let with_text = loader.with_reader("[]");
    assert_eq!(with_text.reader, "[]");
}
