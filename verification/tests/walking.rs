use old_files::error::{Error, IoFailure};
use old_files::walker::{Entry, EntryKind, Event, Walker};

fn file(path: &str) -> Event<String> {
    Event::Entry(Entry { path: path.to_string(), kind: Ok(EntryKind::File) })
}

fn dir(path: &str) -> Event<String> {
    Event::Entry(Entry { path: path.to_string(), kind: Ok(EntryKind::Directory) })
}

fn untold(path: &str, failure: IoFailure) -> Event<String> {
    Event::Entry(Entry { path: path.to_string(), kind: Err(failure) })
}

fn paths(names: &[&str]) -> Vec<String> {
    names.iter().map(|name| name.to_string()).collect()
}

fn walk(root: &str, recursive: bool, events: Vec<Event<String>>) -> Walker<String> {
    let mut walker = Walker::new(root.to_string(), recursive);
    for event in events {
        walker = walker.feed(event);
    }
    walker
}

fn opening(walker: &Walker<String>) -> Option<String> {
    walker.opening().cloned()
}

fn reading(walker: &Walker<String>) -> Option<String> {
    walker.reading().cloned()
}

#[test]
fn fresh_walk_wants_the_root_opened() {
    let walker = Walker::new("root".to_string(), true);
    assert_eq!(opening(&walker), Some("root".to_string()));
    assert_eq!(reading(&walker), None);
    assert_eq!(walker.finish(), None);
}

#[test]
fn opened_root_is_read() {
    let walker = walk("root", false, vec![Event::Opened]);
    assert_eq!(opening(&walker), None);
    assert_eq!(reading(&walker), Some("root".to_string()));
    assert_eq!(walker.finish(), None);
}

#[test]
fn flat_walk_reports_the_files_of_the_root_only() {
    let walker = walk("root", false, vec![Event::Opened, file("root/a.txt"), dir("root/sub")]);
    assert_eq!(opening(&walker), None);
    assert_eq!(reading(&walker), Some("root".to_string()));
    let walker = walker.feed(Event::End);
    assert_eq!(reading(&walker), None);
    assert_eq!(walker.finish(), Some(Ok(paths(&["root/a.txt"]))));
}

#[test]
fn recursive_walk_reports_a_directory_after_what_it_holds() {
    let walker = walk("root", true, vec![Event::Opened, file("root/a.txt"), dir("root/sub")]);
    assert_eq!(opening(&walker), Some("root/sub".to_string()));
    assert_eq!(reading(&walker), None);
    let walker = walker.feed(Event::Opened);
    assert_eq!(reading(&walker), Some("root/sub".to_string()));
    let walker = walker.feed(file("root/sub/b.txt")).feed(Event::End);
    assert_eq!(reading(&walker), Some("root".to_string()));
    let walker = walker.feed(Event::End);
    assert_eq!(
        walker.finish(),
        Some(Ok(paths(&["root/a.txt", "root/sub/b.txt", "root/sub"])))
    );
}

#[test]
fn flat_walk_keeps_reading_order_and_skips_every_directory() {
    let walker = walk(
        ".",
        false,
        vec![
            Event::Opened,
            dir("./d1"),
            file("./z"),
            file("./a"),
            dir("./d2"),
            file("./m"),
            dir("./d3"),
            Event::End,
        ],
    );
    assert_eq!(walker.finish(), Some(Ok(paths(&["./z", "./a", "./m"]))));
}

#[test]
fn recursive_walk_goes_depth_first_in_reading_order() {
    let walker = walk("r", true, vec![Event::Opened, dir("r/x")]);
    assert_eq!(opening(&walker), Some("r/x".to_string()));
    let walker = walker.feed(Event::Opened).feed(file("r/x/1")).feed(dir("r/x/deep"));
    assert_eq!(opening(&walker), Some("r/x/deep".to_string()));
    let walker = walker.feed(Event::Opened).feed(file("r/x/deep/3")).feed(Event::End);
    assert_eq!(reading(&walker), Some("r/x".to_string()));
    let walker = walker.feed(file("r/x/2")).feed(Event::End);
    assert_eq!(reading(&walker), Some("r".to_string()));
    let walker = walker.feed(file("r/f")).feed(dir("r/y"));
    assert_eq!(opening(&walker), Some("r/y".to_string()));
    let walker = walker.feed(Event::Opened).feed(Event::End);
    assert_eq!(reading(&walker), Some("r".to_string()));
    let walker = walker.feed(file("r/g")).feed(Event::End);
    assert_eq!(opening(&walker), None);
    assert_eq!(reading(&walker), None);
    assert_eq!(
        walker.finish(),
        Some(Ok(paths(&[
            "r/x/1",
            "r/x/deep/3",
            "r/x/deep",
            "r/x/2",
            "r/x",
            "r/f",
            "r/y",
            "r/g",
        ])))
    );
}

#[test]
fn recursive_walk_reports_every_file_of_the_tree() {
    let walker = walk(
        "t",
        true,
        vec![
            Event::Opened,
            file("t/one"),
            dir("t/a"),
            Event::Opened,
            dir("t/a/inner"),
            Event::Opened,
            file("t/a/inner/three"),
            file("t/a/inner/four"),
            Event::End,
            file("t/a/two"),
            Event::End,
            dir("t/b"),
            Event::Opened,
            file("t/b/five"),
            Event::End,
            Event::End,
        ],
    );
    let found = walker.finish().unwrap().unwrap();
    for expected in ["t/one", "t/a/two", "t/a/inner/three", "t/a/inner/four", "t/b/five"] {
        assert!(found.contains(&expected.to_string()), "missing {expected}");
    }
    assert_eq!(found.len(), 8);
}

#[test]
fn empty_directory_reports_nothing() {
    let recursive = walk("empty", true, vec![Event::Opened, Event::End]);
    assert_eq!(recursive.finish(), Some(Ok(vec![])));
    let flat = walk("empty", false, vec![Event::Opened, Event::End]);
    assert_eq!(flat.finish(), Some(Ok(vec![])));
}

#[test]
fn empty_directory_below_the_root_is_reported_itself() {
    let walker = walk(
        "r",
        true,
        vec![Event::Opened, dir("r/empty"), Event::Opened, Event::End, Event::End],
    );
    assert_eq!(walker.finish(), Some(Ok(paths(&["r/empty"]))));
}

#[test]
fn missing_root_fails_the_walk() {
    let walker = walk("non/existent/dir", true, vec![Event::OpenFailed(IoFailure::NotFound)]);
    assert_eq!(opening(&walker), None);
    assert_eq!(reading(&walker), None);
    assert_eq!(walker.finish(), Some(Err(Error::NotFound)));
}

#[test]
fn unreadable_root_fails_a_flat_walk_too() {
    let walker = walk("locked", false, vec![Event::OpenFailed(IoFailure::PermissionDenied)]);
    assert_eq!(walker.finish(), Some(Err(Error::PermissionDenied)));
}

#[test]
fn other_failure_to_open_is_reported_as_io() {
    let walker = walk("root", true, vec![Event::OpenFailed(IoFailure::Other)]);
    assert_eq!(walker.finish(), Some(Err(Error::Io)));
}

#[test]
fn unreadable_subdirectory_fails_a_recursive_walk() {
    let walker = walk(
        "root",
        true,
        vec![Event::Opened, file("root/seen.txt"), dir("root/no_read_subdir")],
    );
    assert_eq!(opening(&walker), Some("root/no_read_subdir".to_string()));
    let walker = walker.feed(Event::OpenFailed(IoFailure::PermissionDenied));
    assert_eq!(opening(&walker), None);
    assert_eq!(reading(&walker), None);
    assert_eq!(walker.finish(), Some(Err(Error::PermissionDenied)));
}

#[test]
fn unreadable_directory_deep_in_the_tree_fails_a_recursive_walk() {
    let walker = walk(
        "root",
        true,
        vec![
            Event::Opened,
            file("root/a"),
            dir("root/d"),
            Event::Opened,
            file("root/d/b"),
            dir("root/d/e"),
            Event::Opened,
            dir("root/d/e/locked"),
            Event::OpenFailed(IoFailure::PermissionDenied),
        ],
    );
    assert_eq!(walker.finish(), Some(Err(Error::PermissionDenied)));
}

#[test]
fn unreadable_subdirectory_does_not_trouble_a_flat_walk() {
    let walker = walk(
        "root",
        false,
        vec![Event::Opened, file("root/seen.txt"), dir("root/no_read_subdir"), Event::End],
    );
    assert_eq!(walker.finish(), Some(Ok(paths(&["root/seen.txt"]))));
}

#[test]
fn subdirectory_that_vanished_fails_a_recursive_walk() {
    let walker = walk(
        "root",
        true,
        vec![Event::Opened, dir("root/gone"), Event::OpenFailed(IoFailure::NotFound)],
    );
    assert_eq!(walker.finish(), Some(Err(Error::NotFound)));
}

#[test]
fn failed_type_query_fails_the_walk_and_keeps_its_cause() {
    let flat = walk(
        "root",
        false,
        vec![Event::Opened, file("root/a"), untold("root/b", IoFailure::PermissionDenied)],
    );
    assert_eq!(reading(&flat), None);
    assert_eq!(
        flat.finish(),
        Some(Err(Error::TypeQueryFailure(IoFailure::PermissionDenied)))
    );
    let recursive = walk("root", true, vec![Event::Opened, untold("root/b", IoFailure::NotFound)]);
    assert_eq!(recursive.finish(), Some(Err(Error::TypeQueryFailure(IoFailure::NotFound))));
    let other = walk("root", true, vec![Event::Opened, untold("root/b", IoFailure::Other)]);
    assert_eq!(other.finish(), Some(Err(Error::TypeQueryFailure(IoFailure::Other))));
}

#[test]
fn failed_type_query_deep_in_the_tree_keeps_its_cause() {
    let walker = walk(
        "root",
        true,
        vec![
            Event::Opened,
            file("root/a"),
            dir("root/d"),
            Event::Opened,
            file("root/d/b"),
            untold("root/d/c", IoFailure::PermissionDenied),
        ],
    );
    assert_eq!(
        walker.finish(),
        Some(Err(Error::TypeQueryFailure(IoFailure::PermissionDenied)))
    );
}

#[test]
fn failed_read_of_the_next_entry_fails_the_walk() {
    let walker = walk(
        "root",
        false,
        vec![Event::Opened, file("root/a"), Event::ReadFailed(IoFailure::Other)],
    );
    assert_eq!(walker.finish(), Some(Err(Error::Io)));
    let walker = walk(
        "root",
        true,
        vec![
            Event::Opened,
            dir("root/d"),
            Event::Opened,
            Event::ReadFailed(IoFailure::PermissionDenied),
        ],
    );
    assert_eq!(walker.finish(), Some(Err(Error::PermissionDenied)));
}

#[test]
fn first_failure_in_walking_order_wins() {
    let walker = walk(
        "root",
        true,
        vec![
            Event::Opened,
            dir("root/first"),
            Event::OpenFailed(IoFailure::PermissionDenied),
            untold("root/second", IoFailure::Other),
            Event::ReadFailed(IoFailure::NotFound),
        ],
    );
    assert_eq!(walker.finish(), Some(Err(Error::PermissionDenied)));

    let walker = walk(
        "root",
        true,
        vec![
            Event::Opened,
            dir("root/first"),
            Event::Opened,
            file("root/first/ok"),
            Event::End,
            untold("root/second", IoFailure::Other),
            Event::ReadFailed(IoFailure::NotFound),
        ],
    );
    assert_eq!(walker.finish(), Some(Err(Error::TypeQueryFailure(IoFailure::Other))));
}

#[test]
fn finished_walk_ignores_what_comes_after() {
    let done = walk(
        "root",
        false,
        vec![
            Event::Opened,
            file("root/a"),
            Event::End,
            file("root/b"),
            Event::OpenFailed(IoFailure::NotFound),
            Event::End,
        ],
    );
    assert_eq!(done.finish(), Some(Ok(paths(&["root/a"]))));

    let failed = walk(
        "root",
        true,
        vec![Event::OpenFailed(IoFailure::NotFound), Event::Opened, file("root/a"), Event::End],
    );
    assert_eq!(failed.finish(), Some(Err(Error::NotFound)));
}

#[test]
fn event_that_answers_nothing_is_left_aside() {
    let walker = walk("root", true, vec![file("root/early"), Event::End]);
    assert_eq!(opening(&walker), Some("root".to_string()));
    let walker = walker
        .feed(Event::Opened)
        .feed(Event::Opened)
        .feed(Event::OpenFailed(IoFailure::NotFound));
    assert_eq!(reading(&walker), Some("root".to_string()));
    let walker = walker.feed(file("root/a")).feed(Event::End);
    assert_eq!(walker.finish(), Some(Ok(paths(&["root/a"]))));
}

#[test]
fn walk_in_progress_has_no_outcome() {
    let walker = walk("root", true, vec![Event::Opened, dir("root/sub")]);
    assert_eq!(walker.finish(), None);
    let walker = walk("root", true, vec![Event::Opened, file("root/a")]);
    assert_eq!(walker.finish(), None);
}

#[test]
fn unusual_names_come_back_unchanged() {
    let names = [
        "file with spaces.txt",
        "file_with_underscores.txt",
        "file-with-dashes.txt",
        "file.with.multiple.dots.txt",
        "file_with_!@#$%^&*().txt",
        "file_with_ñáéíóú.txt",
        "file_with_àèìòù.txt",
        "file_with_äöüß.txt",
        "file_with_🦀.txt",
        ".hidden_file",
    ];
    let mut events = vec![Event::Opened];
    events.extend(names.iter().map(|name| file(name)));
    events.push(dir("subdir with !@#% spaces"));
    let walker = walk("root", true, events);
    assert_eq!(opening(&walker), Some("subdir with !@#% spaces".to_string()));
    let walker = walker
        .feed(Event::Opened)
        .feed(file("subdir with !@#% spaces/file_0.txt"))
        .feed(file("subdir with !@#% spaces/file_1.txt"))
        .feed(file("subdir with !@#% spaces/file_2.txt"))
        .feed(Event::End)
        .feed(Event::End);
    let found = walker.finish().unwrap().unwrap();
    let mut expected = paths(&names);
    expected.extend(paths(&[
        "subdir with !@#% spaces/file_0.txt",
        "subdir with !@#% spaces/file_1.txt",
        "subdir with !@#% spaces/file_2.txt",
        "subdir with !@#% spaces",
    ]));
    assert_eq!(found, expected);
}

#[test]
fn paths_need_not_be_text() {
    let walker = Walker::new(vec![0xffu8], true)
        .feed(Event::Opened)
        .feed(Event::Entry(Entry { path: vec![0xff, 0x2f, 0xfe], kind: Ok(EntryKind::File) }))
        .feed(Event::Entry(Entry {
            path: vec![0xff, 0x2f, 0x00],
            kind: Ok(EntryKind::Directory),
        }));
    assert_eq!(walker.opening(), Some(&vec![0xffu8, 0x2f, 0x00]));
    let walker = walker.feed(Event::Opened).feed(Event::End).feed(Event::End);
    assert_eq!(
        walker.finish(),
        Some(Ok(vec![vec![0xffu8, 0x2f, 0xfe], vec![0xff, 0x2f, 0x00]]))
    );
}

#[test]
fn failure_maps_to_its_error() {
    assert_eq!(Error::from_failure(IoFailure::NotFound), Error::NotFound);
    assert_eq!(Error::from_failure(IoFailure::PermissionDenied), Error::PermissionDenied);
    assert_eq!(Error::from_failure(IoFailure::Other), Error::Io);
}
