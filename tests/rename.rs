use batch_rename::entry::{FileEntry, RenameFileEntry, Timestamp};
use batch_rename::error::FileError;
use batch_rename::rename::{RenameAction, RenameBatch};
use batch_rename::text::is_blank_name;

fn request(name: &str, dir: &str, new_name: &str) -> RenameFileEntry {
    RenameFileEntry::new(
        name.to_string(),
        format!("{}/{}", dir, name),
        Timestamp::new(0, 0).unwrap(),
        new_name.to_string(),
    )
}

fn expect_move(batch: &RenameBatch) -> (String, String) {
    match batch.next_action() {
        RenameAction::Move { from, to } => (from, to),
        RenameAction::Fail(e) => panic!("unexpected failure: {}", e.message()),
        RenameAction::Done => panic!("unexpected end of batch"),
    }
}

#[test]
fn single_rename_succeeds() {
    let mut batch = RenameBatch::new(vec![request("a.txt", "/tmp/d", "b.txt")]);
    let (from, to) = expect_move(&batch);
    assert_eq!(from, "/tmp/d/a.txt");
    assert_eq!(to, "/tmp/d/b.txt");
    assert!(batch.record(Ok(())).is_ok());
    assert_eq!(batch.applied(), 1);
    assert!(matches!(batch.next_action(), RenameAction::Done));
}

#[test]
fn empty_batch_is_done_at_once() {
    let batch = RenameBatch::new(vec![]);
    assert!(matches!(batch.next_action(), RenameAction::Done));
}

#[test]
fn stops_at_empty_name_without_undoing() {
    let mut batch = RenameBatch::new(vec![
        request("a.txt", "/tmp/d", "x.txt"),
        request("b.txt", "/tmp/d", ""),
    ]);
    let (from, to) = expect_move(&batch);
    assert_eq!((from.as_str(), to.as_str()), ("/tmp/d/a.txt", "/tmp/d/x.txt"));
    batch.record(Ok(())).unwrap();
    match batch.next_action() {
        RenameAction::Fail(FileError::EmptyName { name }) => assert_eq!(name, "b.txt"),
        _ => panic!("expected the empty name to stop the batch"),
    }
    assert_eq!(batch.applied(), 1);
}

#[test]
fn whitespace_name_is_rejected_before_renaming() {
    let batch = RenameBatch::new(vec![request("a.txt", "/tmp/d", "   ")]);
    match batch.next_action() {
        RenameAction::Fail(e) => {
            assert_eq!(e.message(), "New name is empty for file: a.txt")
        }
        _ => panic!("expected a validation failure"),
    }
    assert_eq!(batch.applied(), 0);
}

#[test]
fn os_failure_stops_the_batch() {
    let mut batch = RenameBatch::new(vec![
        request("a.txt", "/tmp/d", "b.txt"),
        request("c.txt", "/tmp/d", "d.txt"),
    ]);
    expect_move(&batch);
    let err = batch.record(Err("Permission denied (os error 13)".to_string())).unwrap_err();
    assert_eq!(
        err.message(),
        "Failed to rename 'a.txt' to 'b.txt': Permission denied (os error 13)"
    );
    assert_eq!(batch.applied(), 0);
}

#[test]
fn names_are_trimmed_before_the_emptiness_test() {
    assert!(is_blank_name(""));
    assert!(is_blank_name(" \t\n"));
    assert!(is_blank_name("\u{3000}\u{a0}"));
    assert!(!is_blank_name("  a  "));
    assert!(!is_blank_name("b.txt"));
}

#[test]
fn padded_name_is_kept_as_given() {
    let batch = RenameBatch::new(vec![request("a.txt", "/tmp/d", " b.txt")]);
    let (_, to) = expect_move(&batch);
    assert_eq!(to, "/tmp/d/ b.txt");
}

#[test]
fn draft_without_proposal_is_refused() {
    let entry = FileEntry::new("a.txt".to_string(), "/d/a.txt".to_string(), Timestamp::new(1, 2).unwrap());
    match RenameFileEntry::from_draft(&entry) {
        Err(e) => assert_eq!(e.message(), "No new name given for file: a.txt"),
        Ok(_) => panic!("expected a missing proposal"),
    }
}

#[test]
fn drafts_are_confirmed_in_order() {
    let mut a = FileEntry::new("a.txt".to_string(), "/d/a.txt".to_string(), Timestamp::new(1, 0).unwrap());
    a.set_new_name(Some("x.txt".to_string()));
    let b = FileEntry::new("b.txt".to_string(), "/d/b.txt".to_string(), Timestamp::new(2, 0).unwrap());
    match RenameFileEntry::confirm_all(&vec![a.clone(), b.clone()]) {
        Err(FileError::MissingName { name }) => assert_eq!(name, "b.txt"),
        _ => panic!("expected a missing proposal"),
    }
    let confirmed = RenameFileEntry::confirm_all(&vec![a]).unwrap();
    assert_eq!(confirmed.len(), 1);
    assert_eq!(confirmed[0].name(), "a.txt");
    assert_eq!(confirmed[0].path(), "/d/a.txt");
    assert_eq!(confirmed[0].new_name(), "x.txt");
    assert_eq!(confirmed[0].modified(), Timestamp::new(1, 0).unwrap());
}
