use batch_rename::entry::{FileEntry, Timestamp};
use batch_rename::error::FileError;
use batch_rename::listing::{read_files_in_directory, ScannedEntry};

fn time(secs: i64) -> Timestamp {
    Timestamp::new(secs, 0).unwrap()
}

fn file(name: &str, dir: &str, secs: i64) -> ScannedEntry {
    ScannedEntry::File {
        name: name.to_string(),
        path: format!("{}/{}", dir, name),
        modified: Ok(time(secs)),
    }
}

fn names(entries: &[FileEntry]) -> Vec<String> {
    entries.iter().map(|e| e.name().clone()).collect()
}

#[test]
fn lists_every_regular_file() {
    let scan = vec![file("a.txt", "/d", 10), file("b.txt", "/d", 20), file("c.log", "/d", 30)];
    let entries = read_files_in_directory(Ok(scan)).unwrap();
    assert_eq!(entries.len(), 3);
    assert_eq!(names(&entries), vec!["a.txt", "b.txt", "c.log"]);
    assert_eq!(entries[1].path(), "/d/b.txt");
    assert_eq!(entries[2].modified(), time(30));
    assert!(entries.iter().all(|e| e.new_name().is_none()));
}

#[test]
fn empty_directory_lists_nothing() {
    let entries = read_files_in_directory(Ok(vec![])).unwrap();
    assert!(entries.is_empty());
}

#[test]
fn subdirectory_is_left_out() {
    let scan = vec![file("a.txt", "/d", 1), ScannedEntry::NotAFile, file("b.txt", "/d", 2)];
    let entries = read_files_in_directory(Ok(scan)).unwrap();
    assert_eq!(names(&entries), vec!["a.txt", "b.txt"]);
}

#[test]
fn unopenable_directory_fails() {
    let r = read_files_in_directory(Err("No such file or directory (os error 2)".to_string()));
    match r {
        Err(FileError::Io { message }) => {
            assert_eq!(message, "No such file or directory (os error 2)")
        }
        _ => panic!("expected an I/O error"),
    }
}

#[test]
fn entry_read_failure_aborts_listing() {
    let scan = vec![
        file("a.txt", "/d", 1),
        ScannedEntry::EntryFailed { message: "bad entry".to_string() },
        file("b.txt", "/d", 2),
    ];
    match read_files_in_directory(Ok(scan)) {
        Err(e) => assert_eq!(e.message(), "bad entry"),
        Ok(_) => panic!("expected the listing to fail"),
    }
}

#[test]
fn file_type_failure_aborts_listing() {
    let scan = vec![ScannedEntry::TypeFailed { message: "no type".to_string() }];
    match read_files_in_directory(Ok(scan)) {
        Err(e) => assert_eq!(e.message(), "no type"),
        Ok(_) => panic!("expected the listing to fail"),
    }
}

#[test]
fn metadata_failure_aborts_listing() {
    let scan = vec![
        file("a.txt", "/d", 1),
        ScannedEntry::File {
            name: "b.txt".to_string(),
            path: "/d/b.txt".to_string(),
            modified: Err("permission denied".to_string()),
        },
    ];
    match read_files_in_directory(Ok(scan)) {
        Err(FileError::Io { message }) => assert_eq!(message, "permission denied"),
        _ => panic!("expected an I/O error"),
    }
}

#[test]
fn listing_twice_gives_the_same_set() {
    let first = read_files_in_directory(Ok(vec![
        file("a.txt", "/d", 1),
        ScannedEntry::NotAFile,
        file("b.txt", "/d", 2),
    ]))
    .unwrap();
    let second = read_files_in_directory(Ok(vec![
        file("b.txt", "/d", 2),
        file("a.txt", "/d", 1),
        ScannedEntry::NotAFile,
    ]))
    .unwrap();
    let mut a = names(&first);
    let mut b = names(&second);
    a.sort();
    b.sort();
    assert_eq!(a, b);
}

#[test]
fn timestamp_rejects_a_full_second_of_nanos() {
    assert!(Timestamp::new(5, 1_000_000_000).is_none());
    let t = Timestamp::new(-5, 999_999_999).unwrap();
    assert_eq!(t.secs(), -5);
    assert_eq!(t.nanos(), 999_999_999);
}
