use scene_augment::tracker::{LoadFailure, LoadOutcome, LoadStatus, LoadTracker};

#[test]
fn load_starts_pending_and_becomes_ready() {
    let mut tracker = LoadTracker::new();
    let handle = tracker.request_load(String::from("tank_gen_2.gltf"));
    assert_eq!(tracker.poll(handle), LoadStatus::Pending);
    assert_eq!(tracker.name_of(handle), "tank_gen_2.gltf");

    let applied = tracker.apply_outcome(handle, LoadOutcome::Succeeded);
    assert!(applied);
    assert_eq!(tracker.poll(handle), LoadStatus::Ready);
}

#[test]
fn failed_load_is_sticky_and_never_ready() {
    let mut tracker = LoadTracker::new();
    let handle = tracker.request_load(String::from("no_such_asset.gltf"));

    let applied = tracker.apply_outcome(
        handle,
        LoadOutcome::Failed(LoadFailure::NameNotResolved),
    );
    assert!(applied);
    assert_eq!(
        tracker.poll(handle),
        LoadStatus::Failed(LoadFailure::NameNotResolved)
    );
    // no ready event is ever delivered for a failed load
    assert!(!tracker.take_ready_event(handle));

    // terminal states are never left, even if a later outcome arrives
    let applied = tracker.apply_outcome(handle, LoadOutcome::Succeeded);
    assert!(!applied);
    assert_eq!(
        tracker.poll(handle),
        LoadStatus::Failed(LoadFailure::NameNotResolved)
    );
    assert!(!tracker.take_ready_event(handle));
}

#[test]
fn ready_event_fires_exactly_once() {
    let mut tracker = LoadTracker::new();
    let handle = tracker.request_load(String::from("tank_gen_2.gltf"));

    // not before the load resolves
    assert!(!tracker.take_ready_event(handle));

    tracker.apply_outcome(handle, LoadOutcome::Succeeded);
    assert!(tracker.take_ready_event(handle));
    // consumed: never again, though the status stays Ready
    assert!(!tracker.take_ready_event(handle));
    assert_eq!(tracker.poll(handle), LoadStatus::Ready);
}

#[test]
fn ready_is_terminal_too() {
    let mut tracker = LoadTracker::new();
    let handle = tracker.request_load(String::from("tank_gen_2.gltf"));
    tracker.apply_outcome(handle, LoadOutcome::Succeeded);

    let applied = tracker.apply_outcome(
        handle,
        LoadOutcome::Failed(LoadFailure::SourceUnavailable),
    );
    assert!(!applied);
    assert_eq!(tracker.poll(handle), LoadStatus::Ready);
}

#[test]
fn independent_loads_are_tracked_independently() {
    let mut tracker = LoadTracker::new();
    let a = tracker.request_load(String::from("a.gltf"));
    let b = tracker.request_load(String::from("b.gltf"));
    assert_ne!(a, b);

    tracker.apply_outcome(b, LoadOutcome::Failed(LoadFailure::DecodeFailed));
    assert_eq!(tracker.poll(a), LoadStatus::Pending);
    assert_eq!(
        tracker.poll(b),
        LoadStatus::Failed(LoadFailure::DecodeFailed)
    );
    assert_eq!(tracker.name_of(a), "a.gltf");
    assert_eq!(tracker.name_of(b), "b.gltf");
}
