use opds_catalog::archive::{
    artifact_name, locate_step, may_hold, member_name, next_candidate, parse_range, ArchiveRange,
    Attempt, LocateError, Move,
};

fn strings(items: &[&str]) -> Vec<String> {
    items.iter().map(|s| String::from(*s)).collect()
}

#[test]
fn a_range_is_read_from_the_name_of_an_archive() {
    assert_eq!(
        parse_range("fb2-100-199.zip"),
        Some(ArchiveRange { min_id: 100, max_id: 199 })
    );
    assert_eq!(
        parse_range("fb2-749200-750279.zip"),
        Some(ArchiveRange { min_id: 749200, max_id: 750279 })
    );
    assert_eq!(parse_range("fb2-0-0"), Some(ArchiveRange { min_id: 0, max_id: 0 }));
    assert_eq!(
        parse_range("fb2-007-0042.zip"),
        Some(ArchiveRange { min_id: 7, max_id: 42 })
    );
    assert_eq!(
        parse_range("fb2-0-4294967295.zip"),
        Some(ArchiveRange { min_id: 0, max_id: 4294967295 })
    );
}

#[test]
fn the_range_may_stand_anywhere_in_the_name() {
    assert_eq!(
        parse_range("lib.rus.ec-fb2-5-9-backup.zip"),
        Some(ArchiveRange { min_id: 5, max_id: 9 })
    );
    assert_eq!(parse_range("fb2-fb2-1-2"), Some(ArchiveRange { min_id: 1, max_id: 2 }));
    assert_eq!(parse_range("fb2-1-x fb2-3-4"), Some(ArchiveRange { min_id: 3, max_id: 4 }));
    assert_eq!(parse_range("fb2-1-2 fb2-3-4"), Some(ArchiveRange { min_id: 1, max_id: 2 }));
    assert_eq!(parse_range("fb2-12-34-56"), Some(ArchiveRange { min_id: 12, max_id: 34 }));
    assert_eq!(parse_range("Ёfb2-1-2"), Some(ArchiveRange { min_id: 1, max_id: 2 }));
}

#[test]
fn names_without_a_range_give_none() {
    for name in [
        "",
        "fb2",
        "fb2-",
        "fb2-1",
        "fb2-1-",
        "fb2--1",
        "fb2-a-1",
        "fb2-1-a",
        "fb2-1_2",
        "FB2-1-2",
        "fb3-1-2",
        "fb-2-1-2",
        "books.db",
        "fb2-１-２",
    ] {
        assert_eq!(parse_range(name), None, "{name}");
    }
}

#[test]
fn numbers_too_large_for_an_id_give_none() {
    assert_eq!(parse_range("fb2-0-4294967296.zip"), None);
    assert_eq!(parse_range("fb2-4294967296-5.zip"), None);
    assert_eq!(parse_range("fb2-99999999999999999999999999-5.zip"), None);
    assert_eq!(parse_range("fb2-1-99999999999999999999999999.zip"), None);
    assert_eq!(parse_range("fb2-4294967296-5 fb2-1-2"), None);
}

#[test]
fn a_range_holds_the_ids_between_its_ends() {
    let range = ArchiveRange { min_id: 100, max_id: 199 };
    assert!(range.contains(100));
    assert!(range.contains(150));
    assert!(range.contains(199));
    assert!(!range.contains(99));
    assert!(!range.contains(200));
    assert!(!range.contains(999));
    let backwards = ArchiveRange { min_id: 9, max_id: 5 };
    assert!(!backwards.contains(7));
}

#[test]
fn an_archive_may_hold_the_ids_of_its_range() {
    assert!(may_hold("fb2-100-199.zip", 150));
    assert!(!may_hold("fb2-100-199.zip", 999));
    assert!(!may_hold("notes.txt", 150));
    assert!(!may_hold("fb2-100-99999999999.zip", 150));
}

#[test]
fn the_next_candidate_is_the_first_that_may_hold_the_book() {
    let names = strings(&["readme.txt", "fb2-1-99.zip", "fb2-100-199.zip", "fb2-150-250.zip", "x"]);
    assert_eq!(next_candidate(&names, 150, 0), Some(2));
    assert_eq!(next_candidate(&names, 150, 2), Some(2));
    assert_eq!(next_candidate(&names, 150, 3), Some(3));
    assert_eq!(next_candidate(&names, 150, 4), None);
    assert_eq!(next_candidate(&names, 150, 5), None);
    assert_eq!(next_candidate(&names, 150, 500), None);
    assert_eq!(next_candidate(&names, 999, 0), None);
    assert_eq!(next_candidate(&names, 1, 0), Some(1));
    assert_eq!(next_candidate(&Vec::new(), 1, 0), None);
}

#[test]
fn a_book_is_named_by_its_id() {
    assert_eq!(member_name(150), "150.fb2");
    assert_eq!(member_name(0), "0.fb2");
    assert_eq!(member_name(4294967295), "4294967295.fb2");
}

#[test]
fn an_artifact_is_named_by_its_checksum() {
    assert_eq!(artifact_name(3735928559), "3735928559.fb2");
    assert_eq!(artifact_name(0), "0.fb2");
    assert_eq!(artifact_name(7), artifact_name(7));
}

#[test]
fn the_words_of_the_errors() {
    let missing = LocateError::RecordNotFound { id: 999, root: String::from("/lib.rus.ec") };
    assert_eq!(missing.message(), "The book 999 was not found in /lib.rus.ec");
    let broken = LocateError::MalformedArchive {
        archive: String::from("fb2-100-199.zip"),
        reason: String::from("invalid Zip archive"),
    };
    assert_eq!(broken.message(), "fb2-100-199.zip: invalid Zip archive");
}

#[test]
fn a_search_opens_the_first_archive_that_may_hold_the_book() {
    let names = strings(&["fb2-1-99.zip", "fb2-100-199.zip", "fb2-150-250.zip"]);
    match locate_step(&names, "/books", 150, Attempt::Start) {
        Move::Open { at, member } => {
            assert_eq!(at, 1);
            assert_eq!(member, "150.fb2");
        }
        _ => panic!("an archive covers the id"),
    }
}

#[test]
fn a_search_goes_on_behind_an_archive_that_lacks_the_book() {
    let names = strings(&["fb2-1-99.zip", "fb2-100-199.zip", "fb2-150-250.zip"]);
    match locate_step(&names, "/books", 150, Attempt::MemberMissing { at: 1 }) {
        Move::Open { at, member } => {
            assert_eq!(at, 2);
            assert_eq!(member, "150.fb2");
        }
        _ => panic!("a later archive covers the id"),
    }
    match locate_step(&names, "/books", 150, Attempt::MemberMissing { at: 2 }) {
        Move::Fail(error) => {
            assert_eq!(error.message(), "The book 150 was not found in /books");
        }
        _ => panic!("no archive is left"),
    }
    match locate_step(&names, "/books", 150, Attempt::MemberMissing { at: usize::MAX }) {
        Move::Fail(LocateError::RecordNotFound { id, root }) => {
            assert_eq!(id, 150);
            assert_eq!(root, "/books");
        }
        _ => panic!("no archive is left"),
    }
}

#[test]
fn a_search_for_an_id_that_no_archive_covers_fails() {
    let names = strings(&["fb2-100-199.zip"]);
    match locate_step(&names, "/books", 999, Attempt::Start) {
        Move::Fail(LocateError::RecordNotFound { id, root }) => {
            assert_eq!(id, 999);
            assert_eq!(root, "/books");
        }
        _ => panic!("no archive covers the id"),
    }
    match locate_step(&Vec::new(), "", 1, Attempt::Start) {
        Move::Fail(error) => assert_eq!(error.message(), "The book 1 was not found in "),
        _ => panic!("there is no archive"),
    }
}

#[test]
fn a_search_ends_at_an_archive_that_cannot_be_read() {
    let names = strings(&["fb2-100-199.zip", "fb2-150-250.zip"]);
    let attempt = Attempt::Unreadable {
        archive: String::from("fb2-100-199.zip"),
        reason: String::from("unexpected end of file"),
    };
    match locate_step(&names, "/books", 150, attempt) {
        Move::Fail(LocateError::MalformedArchive { archive, reason }) => {
            assert_eq!(archive, "fb2-100-199.zip");
            assert_eq!(reason, "unexpected end of file");
        }
        _ => panic!("the search ends"),
    }
}

#[test]
fn a_book_that_was_found_is_extracted_under_its_checksum() {
    let names = strings(&["fb2-100-199.zip"]);
    for _ in 0..2 {
        match locate_step(&names, "/books", 150, Attempt::Stored { checksum: 123456789 }) {
            Move::Extract { artifact } => assert_eq!(artifact, "123456789.fb2"),
            _ => panic!("the book is extracted"),
        }
    }
}
