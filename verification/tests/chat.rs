use routeguide::NoteLog;
use routeguide::Point;
use routeguide::RouteNote;

fn pt(latitude: i32, longitude: i32) -> Point {
    Point { latitude, longitude }
}

fn note(message: &str, location: Option<Point>) -> RouteNote {
    RouteNote { location, message: String::from(message) }
}

fn messages(notes: &[RouteNote]) -> Vec<&str> {
    notes.iter().map(|n| n.message.as_str()).collect()
}

#[test]
fn replay_grows_per_location() {
    let p = pt(1, 1);
    let q = pt(2, 2);
    let mut log = NoteLog::new();
    let first = log.record(note("N1", Some(p)));
    let second = log.record(note("N2", Some(q)));
    let third = log.record(note("N3", Some(p)));
    assert_eq!(messages(&first), ["N1"]);
    assert_eq!(messages(&second), ["N2"]);
    assert_eq!(messages(&third), ["N1", "N3"]);
}

#[test]
fn replay_includes_the_note_just_added() {
    let p = pt(0, 0);
    let mut log = NoteLog::new();
    let out = log.record(note("only", Some(p)));
    assert_eq!(messages(&out), ["only"]);
}

#[test]
fn note_without_location_is_skipped() {
    let p = pt(4, 4);
    let mut log = NoteLog::new();
    let skipped = log.record(note("ghostly", None));
    assert!(skipped.is_empty());
    // The skipped note was not stored either: the next note at any location
    // starts that location's history.
    let out = log.record(note("real", Some(p)));
    assert_eq!(messages(&out), ["real"]);
}

#[test]
fn histories_are_independent_per_location() {
    let p = pt(1, 0);
    let q = pt(0, 1);
    let mut log = NoteLog::new();
    log.record(note("a", Some(p)));
    log.record(note("b", Some(q)));
    log.record(note("c", Some(q)));
    let at_p = log.record(note("d", Some(p)));
    let at_q = log.record(note("e", Some(q)));
    assert_eq!(messages(&at_p), ["a", "d"]);
    assert_eq!(messages(&at_q), ["b", "c", "e"]);
}

#[test]
fn repeated_note_text_is_replayed_in_arrival_order() {
    let p = pt(9, 9);
    let mut log = NoteLog::new();
    log.record(note("same", Some(p)));
    let out = log.record(note("same", Some(p)));
    assert_eq!(messages(&out), ["same", "same"]);
}

#[test]
fn logs_do_not_share_state_across_calls() {
    let p = pt(5, 5);
    let mut first_call = NoteLog::new();
    first_call.record(note("earlier", Some(p)));
    let mut second_call = NoteLog::new();
    let out = second_call.record(note("fresh", Some(p)));
    assert_eq!(messages(&out), ["fresh"]);
}
