use tuneterm::domain::{MediaId, MediaItem, MediaKind, RepeatMode};
use tuneterm::queue::{
    stable_queue_item_id, Queue, QueueError, QueueItem, QueueItemId, QueueReplacementError,
    QueueSnapshot, MAX_EXPLICIT_LIST_ITEMS,
};

fn media(id: &str) -> MediaItem {
    MediaItem {
        id: MediaId { provider: "youtube-music".to_owned(), video_id: id.to_owned() },
        kind: MediaKind::Song,
        title: format!("Song {id}"),
        creators: vec!["Artist".to_owned()],
        collection: None,
        duration_ms: Some(180_000),
        artwork_url: None,
        explicit: false,
    }
}

fn item(id: &str) -> QueueItem {
    QueueItem::new(QueueItemId::from(id), media(id))
}

fn id(text: &str) -> QueueItemId {
    QueueItemId::from(text)
}

fn queue(ids: &[&str]) -> Queue {
    Queue::from_items(ids.iter().map(|id| item(id)).collect())
        .unwrap_or_else(|_| panic!("entries of their own"))
}

fn active(queue: &Queue) -> Vec<&str> {
    queue.active_ids().iter().map(QueueItemId::as_str).collect()
}

fn logical(queue: &Queue) -> Vec<&str> {
    queue.items().iter().map(|item| item.id().as_str()).collect()
}

fn current(queue: &Queue) -> Option<&str> {
    queue.current().map(|item| item.id().as_str())
}

fn step(item: Option<&QueueItem>) -> Option<&str> {
    item.map(|item| item.id().as_str())
}

#[test]
fn the_first_entry_is_current_and_entries_are_played_in_order() {
    let mut queue = queue(&["a", "b", "c"]);
    assert_eq!(current(&queue), Some("a"));
    assert_eq!(active(&queue), ["a", "b", "c"]);
    assert_eq!(step(queue.next()), Some("b"));
    assert_eq!(step(queue.next()), Some("c"));
    assert_eq!(step(queue.next()), None);
    assert_eq!(step(queue.previous()), Some("b"));
    assert_eq!(step(queue.previous()), Some("a"));
    assert_eq!(step(queue.previous()), None);
    let mut nothing = Queue::from_items(Vec::new()).unwrap_or_else(|_| panic!("no entries"));
    assert!(nothing.current().is_none());
    assert!(nothing.next().is_none());
}

#[test]
fn repeating_one_stays_and_repeating_all_goes_round() {
    let mut queue = queue(&["a", "b"]);
    queue.set_repeat(RepeatMode::One);
    assert_eq!(queue.repeat(), RepeatMode::One);
    assert_eq!(step(queue.next()), Some("a"));
    assert_eq!(step(queue.previous()), Some("a"));
    queue.set_repeat(RepeatMode::All);
    assert_eq!(step(queue.next()), Some("b"));
    assert_eq!(step(queue.next()), Some("a"));
    assert_eq!(step(queue.previous()), Some("b"));
}

#[test]
fn entries_have_ids_of_their_own() {
    assert_eq!(
        Queue::from_items(vec![item("a"), item("a")]).err(),
        Some(QueueError::DuplicateLogicalId { id: id("a") })
    );
    let mut queue = queue(&["a"]);
    let error = queue.append(item("a")).err();
    assert_eq!(error, Some(QueueError::DuplicateLogicalId { id: id("a") }));
    assert_eq!(
        error.map(|error| error.message()),
        Some("logical queue contains duplicate item id `a`".to_owned())
    );
    assert!(!queue.append_unique(item("a")));
    assert!(queue.append_unique(item("b")));
    assert_eq!(logical(&queue), ["a", "b"]);
}

#[test]
fn removing_and_moving_keep_the_rest_in_order() {
    let mut queue = queue(&["a", "b", "c", "d"]);
    assert!(queue.select(&id("b")).is_ok());
    assert!(queue.move_before(&id("d"), &id("b")).is_ok());
    assert_eq!(logical(&queue), ["a", "d", "b", "c"]);
    assert_eq!(active(&queue), ["a", "d", "b", "c"]);
    let removed = queue.remove(&id("b")).unwrap_or_else(|_| panic!("it is there"));
    assert_eq!(removed.id().as_str(), "b");
    assert_eq!(logical(&queue), ["a", "d", "c"]);
    assert_eq!(current(&queue), Some("c"));
    assert_eq!(
        queue.remove(&id("b")).err(),
        Some(QueueError::ItemNotFound { id: id("b") })
    );
    assert_eq!(queue.select(&id("x")).err(), Some(QueueError::ItemNotFound { id: id("x") }));
    assert_eq!(
        queue.move_before(&id("x"), &id("a")).err().map(|error| error.message()),
        Some("queue item id `x` was not found".to_owned())
    );
    queue.clear();
    assert!(queue.items().is_empty());
    assert!(queue.current().is_none());
}

#[test]
fn shuffling_is_seeded_and_can_be_undone() {
    let ids: Vec<String> = (0..24).map(|index| format!("entry-{index}")).collect();
    let names: Vec<&str> = ids.iter().map(String::as_str).collect();
    let mut first = queue(&names);
    assert!(first.select(&id("entry-7")).is_ok());
    let mut second = queue(&names);
    assert!(second.select(&id("entry-7")).is_ok());
    first.set_shuffle(true, 42);
    second.set_shuffle(true, 42);
    assert!(first.is_shuffled());
    assert_eq!(active(&first), active(&second));
    assert_ne!(active(&first), names);
    assert_eq!(active(&first)[0], "entry-7");
    let mut sorted = active(&first);
    sorted.sort_unstable();
    let mut expected = names.clone();
    expected.sort_unstable();
    assert_eq!(sorted, expected);
    second.set_shuffle(true, 43);
    assert_ne!(active(&first), active(&second));
    assert_eq!(logical(&first), names);
    first.set_shuffle(false, 42);
    assert!(!first.is_shuffled());
    assert_eq!(active(&first), names);
    assert_eq!(current(&first), Some("entry-7"));
}

#[test]
fn an_order_of_choice_starts_with_the_current_entry() {
    let mut queue = queue(&["a", "b", "c"]);
    assert!(queue.select(&id("b")).is_ok());
    let mut order = queue.other_ids();
    order.reverse();
    queue.set_shuffled_order(order, 5);
    assert_eq!(active(&queue), ["b", "c", "a"]);
    assert_eq!(
        queue.active_items().iter().map(|item| item.id().as_str()).collect::<Vec<_>>(),
        ["b", "c", "a"]
    );
}

#[test]
fn radio_fills_the_queue_before_it_ends() {
    let mut queue = queue(&["a", "b", "c"]);
    assert!(!queue.needs_radio_fill(5));
    queue.set_radio(true);
    assert!(queue.radio_enabled());
    assert!(queue.needs_radio_fill(3));
    assert!(!queue.needs_radio_fill(2));
    let _ = queue.next();
    assert!(queue.needs_radio_fill(2));
}

#[test]
fn a_snapshot_brings_the_queue_back() {
    let mut queue = queue(&["a", "b", "c", "d"]);
    assert!(queue.select(&id("c")).is_ok());
    queue.set_repeat(RepeatMode::All);
    queue.set_shuffle(true, 9);
    queue.set_radio(true);
    let snapshot = queue.snapshot();
    assert_eq!(snapshot.shuffle_seed, Some(9));
    let restored = Queue::restore(snapshot).unwrap_or_else(|_| panic!("a snapshot of a queue"));
    assert_eq!(active(&restored), active(&queue));
    assert_eq!(logical(&restored), logical(&queue));
    assert_eq!(current(&restored), Some("c"));
    assert_eq!(restored.repeat(), RepeatMode::All);
    assert!(restored.is_shuffled());
    assert!(restored.radio_enabled());
}

fn snapshot(active: &[&str], current: Option<&str>, shuffle_seed: Option<u64>) -> QueueSnapshot {
    QueueSnapshot {
        logical: vec![item("a"), item("b")],
        active: active.iter().map(|text| id(text)).collect(),
        current: current.map(id),
        repeat: RepeatMode::Off,
        shuffle_seed,
        radio: false,
    }
}

#[test]
fn snapshots_that_fit_no_queue_are_refused() {
    let mut twice = snapshot(&["a", "b"], Some("a"), None);
    twice.logical.push(item("a"));
    for (snapshot, error, message) in [
        (
            twice,
            QueueError::DuplicateLogicalId { id: id("a") },
            "logical queue contains duplicate item id `a`",
        ),
        (
            snapshot(&["a", "a"], Some("a"), Some(1)),
            QueueError::DuplicateActiveId { id: id("a") },
            "active queue contains duplicate item id `a`",
        ),
        (
            snapshot(&["a", "x"], Some("a"), Some(1)),
            QueueError::ActiveIdNotFound { id: id("x") },
            "active queue references unknown item id `x`",
        ),
        (
            snapshot(&["a"], Some("a"), Some(1)),
            QueueError::ActiveIdsMismatch { logical_count: 2, active_count: 1 },
            "active queue is not a permutation of the logical queue: 1 active ids for 2 logical \
             items",
        ),
        (
            snapshot(&["b", "a"], Some("a"), None),
            QueueError::UnshuffledOrderMismatch {
                index: 0,
                logical_id: id("a"),
                active_id: id("b"),
            },
            "unshuffled active id `b` at index 0 does not match logical id `a`",
        ),
        (
            snapshot(&["a", "b"], Some("x"), None),
            QueueError::CurrentIdNotFound { id: id("x") },
            "current queue item id `x` is not present",
        ),
        (
            snapshot(&["a", "b"], None, None),
            QueueError::MissingCurrent,
            "a non-empty queue must have a current item",
        ),
    ] {
        assert_eq!(error.message(), message);
        assert_eq!(Queue::restore(snapshot).err(), Some(error));
    }
}

#[test]
fn an_activated_list_replaces_the_queue() {
    let items = vec![media("a"), media("b"), media("a"), media("c")];
    let selected = media("b").id;
    let queue = Queue::from_explicit_list(items, &selected, RepeatMode::All, None)
        .unwrap_or_else(|_| panic!("a list that holds the selection"));
    let ids: Vec<String> = ["a", "b", "c"]
        .iter()
        .map(|name| stable_queue_item_id(&media(name).id).as_str().to_owned())
        .collect();
    assert_eq!(logical(&queue), ids);
    assert_eq!(current(&queue), Some(ids[1].as_str()));
    assert_eq!(queue.repeat(), RepeatMode::All);
    assert!(!queue.radio_enabled());
    assert_eq!(ids[0], "media:13:youtube-music:1:a");

    let shuffled = Queue::from_explicit_list(
        (0..16).map(|index| media(&index.to_string())).collect(),
        &media("5").id,
        RepeatMode::Off,
        Some(3),
    )
    .unwrap_or_else(|_| panic!("a list that holds the selection"));
    assert_eq!(active(&shuffled)[0], stable_queue_item_id(&media("5").id).as_str());
    assert_ne!(active(&shuffled), logical(&shuffled));
}

#[test]
fn lists_that_cannot_replace_the_queue_are_refused() {
    let missing = media("x").id;
    let error = Queue::from_explicit_list(vec![media("a")], &missing, RepeatMode::Off, None).err();
    assert_eq!(
        error.as_ref().map(QueueReplacementError::message),
        Some("selected media item was not found in the explicit list".to_owned())
    );
    assert_eq!(error, Some(QueueReplacementError::SelectedItemNotFound { id: missing }));
    let many: Vec<MediaItem> =
        (0..=MAX_EXPLICIT_LIST_ITEMS).map(|index| media(&index.to_string())).collect();
    let error = Queue::from_explicit_list(many, &media("0").id, RepeatMode::Off, None).err();
    assert_eq!(
        error.as_ref().map(QueueReplacementError::message),
        Some("explicit list contains 1025 unique items; the limit is 1024".to_owned())
    );
    assert_eq!(
        error,
        Some(QueueReplacementError::TooManyItems { actual: 1025, limit: 1024 })
    );
}

#[test]
fn queue_ids_tell_media_apart() {
    let of = |provider: &str, video: &str| {
        stable_queue_item_id(&MediaId {
            provider: provider.to_owned(),
            video_id: video.to_owned(),
        })
        .as_str()
        .to_owned()
    };
    assert_ne!(of("a:1:b", "c"), of("a", "b:1:c"));
    assert_ne!(of("a", "bc"), of("ab", "c"));
    assert_eq!(of("é", ""), "media:2:é:0:");
}

#[test]
fn an_activated_list_keeps_first_occurrences_in_order() {
    let mut later = media("a");
    later.title = "Another title".to_owned();
    let items = vec![media("c"), media("a"), later, media("c"), media("b")];
    let queue = Queue::from_explicit_list(items, &media("a").id, RepeatMode::Off, None)
        .unwrap_or_else(|_| panic!("a list that holds the selection"));
    let titles: Vec<&str> =
        queue.items().iter().map(|item| item.media().title.as_str()).collect();
    assert_eq!(titles, ["Song c", "Song a", "Song b"]);
}

#[test]
fn copies_of_a_queue_are_the_queue() {
    let queue = queue(&["a", "b", "c"]);
    let copy = queue.clone();
    assert_eq!(active(&copy), active(&queue));
    assert_eq!(logical(&copy), logical(&queue));
    assert_eq!(copy.current(), queue.current());
    assert!(copy.snapshot() == queue.snapshot().clone());
}
