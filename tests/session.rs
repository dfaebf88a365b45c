use media_sync::{Classifier, EntryInfo, History, Session, Step, Timestamp};

fn file(name: &str, secs: u64) -> EntryInfo {
    EntryInfo { name: name.to_string(), is_dir: false, created: Some(Timestamp { secs, nanos: 0 }) }
}

fn dir(name: &str) -> EntryInfo {
    EntryInfo { name: name.to_string(), is_dir: true, created: Some(Timestamp { secs: 1, nanos: 0 }) }
}

fn run(session: &mut Session, entries: &[EntryInfo]) -> Vec<(String, u64)> {
    let mut events = Vec::new();
    for e in entries {
        match session.step(e) {
            Step::Copy => {
                let t = e.created.unwrap();
                let n = session.copy_succeeded(&e.name, &t);
                events.push(("copy".to_string(), n));
            }
            Step::Skipped { count } => events.push(("skip".to_string(), count)),
            Step::Ignored | Step::MissingTimestamp => {}
        }
    }
    events
}

#[test]
fn second_run_skips_what_first_run_copied() {
    let entries = vec![file("a.CR3", 1_699_142_400)];
    let mut first = Session::new(History::new(None), Classifier::standard());
    assert_eq!(run(&mut first, &entries), vec![("copy".to_string(), 1)]);
    let stored = first.history().to_bytes().expect("encodes");

    let mut second = Session::new(History::new(Some(stored)), Classifier::standard());
    assert_eq!(run(&mut second, &entries), vec![("skip".to_string(), 1)]);
    assert_eq!(second.copied(), 0);
    assert_eq!(second.skipped(), 1);
}

#[test]
fn unsupported_files_are_never_copied_nor_recorded() {
    let mut s = Session::new(History::empty(), Classifier::standard());
    let entries = vec![file("notes.txt", 5), dir("nested"), file("deep.jpg", 6), file("clip.mp4", 7)];
    assert!(run(&mut s, &entries).is_empty());
    assert_eq!(s.copied(), 0);
    assert_eq!(s.skipped(), 0);
    assert_eq!(s.history().len(), 0);
}

#[test]
fn directories_are_ignored_even_with_listed_names() {
    let mut s = Session::new(History::empty(), Classifier::standard());
    assert_eq!(s.step(&dir("folder.MP4")), Step::Ignored);
}

#[test]
fn two_valid_files_beside_a_directory_are_copied() {
    let mut s = Session::new(History::empty(), Classifier::standard());
    let entries = vec![dir("locked"), file("one.MP4", 10), file("two.MP4", 20)];
    let events = run(&mut s, &entries);
    assert_eq!(events, vec![("copy".to_string(), 1), ("copy".to_string(), 2)]);
    assert_eq!(s.history().len(), 2);
}

#[test]
fn missing_timestamp_changes_nothing() {
    let mut s = Session::new(History::empty(), Classifier::standard());
    let e = EntryInfo { name: "a.ARW".to_string(), is_dir: false, created: None };
    assert_eq!(s.step(&e), Step::MissingTimestamp);
    assert_eq!(s.copied(), 0);
    assert_eq!(s.skipped(), 0);
}

#[test]
fn skip_counts_increase_one_by_one() {
    let mut h = History::empty();
    h.add_file("a.ARW", &Timestamp { secs: 3, nanos: 0 });
    let mut s = Session::new(h, Classifier::standard());
    let late = EntryInfo {
        name: "a.ARW".to_string(),
        is_dir: false,
        created: Some(Timestamp { secs: 3, nanos: 700 }),
    };
    assert_eq!(s.step(&late), Step::Skipped { count: 1 });
    assert_eq!(s.step(&late), Step::Skipped { count: 2 });
    assert_eq!(s.step(&file("b.ARW", 3)), Step::Copy);
    assert_eq!(s.skipped(), 2);
    assert_eq!(s.copied(), 0);
}

#[test]
fn failed_copy_leaves_counts_alone() {
    let mut s = Session::new(History::empty(), Classifier::standard());
    assert_eq!(s.step(&file("a.CR3", 1)), Step::Copy);
    assert_eq!(s.copied(), 0);
    assert_eq!(s.history().len(), 0);
    assert_eq!(s.step(&file("a.CR3", 1)), Step::Copy);
}
