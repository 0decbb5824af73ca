use gari::error::Error;
use gari::size::{ScanEntry, SizeScan};

#[test]
fn size_of_nested_directories() {
    let mut scan = SizeScan::new("/p", true);
    assert_eq!(scan.next_dir(), Some("/p".to_string()));
    assert!(scan.at_root());
    scan.absorb(&vec![
        ScanEntry::Sized(20),
        ScanEntry::Directory("/p/target".to_string()),
        ScanEntry::Directory("/p/src".to_string()),
    ]);
    assert_eq!(scan.next_dir(), Some("/p/src".to_string()));
    assert!(!scan.at_root());
    scan.absorb(&vec![ScanEntry::Sized(100)]);
    assert_eq!(scan.next_dir(), Some("/p/target".to_string()));
    scan.absorb(&vec![ScanEntry::Sized(10_000_000)]);
    assert_eq!(scan.next_dir(), None);
    assert_eq!(scan.total(), 10_000_120);
    assert!(scan.total() >= 10_000_000 + 100);
}

#[test]
fn size_of_non_directory_is_zero() {
    let mut scan = SizeScan::new("/file", false);
    assert_eq!(scan.next_dir(), None);
    assert_eq!(scan.total(), 0);
}

#[test]
fn unreadable_entries_count_as_zero() {
    let mut scan = SizeScan::new("/p", true);
    scan.next_dir();
    scan.absorb(&vec![ScanEntry::Unreadable, ScanEntry::Sized(7), ScanEntry::Directory("/p/d".to_string())]);
    assert_eq!(scan.next_dir(), Some("/p/d".to_string()));
    assert!(scan.listing_failed("/p/d".to_string(), "gone".to_string()).is_ok());
    assert_eq!(scan.next_dir(), None);
    assert_eq!(scan.total(), 7);
}

#[test]
fn unreadable_root_is_an_error() {
    let mut scan = SizeScan::new("/p", true);
    scan.next_dir();
    match scan.listing_failed("/p".to_string(), "denied".to_string()) {
        Err(Error::FileSystem { path, message }) => {
            assert_eq!(path, "/p");
            assert_eq!(message, "denied");
        }
        _ => panic!("expected a filesystem error"),
    }
}

#[test]
fn total_saturates_at_the_largest_count() {
    let mut scan = SizeScan::new("/p", true);
    scan.next_dir();
    scan.absorb(&vec![ScanEntry::Sized(u64::MAX), ScanEntry::Sized(5)]);
    assert_eq!(scan.total(), u64::MAX);
}
