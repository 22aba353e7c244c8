use routeguide::Feature;
use routeguide::FeatureStore;
use routeguide::Point;
use routeguide::Rectangle;
use routeguide::ServiceError;
use routeguide::handlers::get_feature;
use routeguide::handlers::list_features;

fn pt(latitude: i32, longitude: i32) -> Point {
    Point { latitude, longitude }
}

fn feat(name: &str, location: Option<Point>) -> Feature {
    Feature { name: String::from(name), location }
}

fn sample_store() -> FeatureStore {
    FeatureStore::from_features(vec![
        feat("A", Some(pt(0, 0))),
        feat("B", Some(pt(20, 20))),
        feat("C", Some(pt(5, 5))),
    ])
}

#[test]
fn get_feature_returns_the_stored_feature() {
    let store = sample_store();
    let found = get_feature(&store, &pt(20, 20)).expect("feature stored at (20, 20)");
    assert_eq!(found.name, "B");
}

#[test]
fn get_feature_reports_not_found() {
    let store = sample_store();
    match get_feature(&store, &pt(30, 30)) {
        Ok(_) => panic!("no feature lies at (30, 30)"),
        Err(e) => assert_eq!(e, ServiceError::NotFound),
    }
}

#[test]
fn list_features_streams_matches_in_stored_order() {
    let store = sample_store();
    let rect = Rectangle { lo: Some(pt(0, 0)), hi: Some(pt(10, 10)) };
    let listed = list_features(&store, &rect);
    let names: Vec<&str> = listed.iter().map(|f| f.name.as_str()).collect();
    assert_eq!(names, ["A", "C"]);
}

#[test]
fn list_features_empty_result_is_no_error() {
    let store = sample_store();
    let rect = Rectangle { lo: Some(pt(100, 100)), hi: Some(pt(200, 200)) };
    assert!(list_features(&store, &rect).is_empty());
}
