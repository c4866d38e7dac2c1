use edgefs::errors::FsError;
use edgefs::memory_fs::EntryKind;
use edgefs::memory_fs::MockFileSystem;

#[test]
fn write_then_read_returns_exactly_what_was_written() {
    let mut fs = MockFileSystem::new();
    assert!(fs.write("/dist/main.js", b"console.log(1);").is_ok());
    assert_eq!(fs.read("/dist/main.js").unwrap(), b"console.log(1);".to_vec());
}

#[test]
fn read_of_a_path_never_written_fails_with_not_found() {
    let fs = MockFileSystem::new();
    assert_eq!(fs.read("/nowhere"), Err(FsError::NotFound));
}

#[test]
fn write_replaces_content_wholesale() {
    let mut fs = MockFileSystem::new();
    assert!(fs.write("/a", b"first version").is_ok());
    assert!(fs.write("/a", b"v2").is_ok());
    assert_eq!(fs.read("/a").unwrap(), b"v2".to_vec());
}

#[test]
fn write_of_empty_content_round_trips() {
    let mut fs = MockFileSystem::new();
    assert!(fs.write("/empty", b"").is_ok());
    assert_eq!(fs.read("/empty").unwrap(), Vec::<u8>::new());
}

#[test]
fn remove_file_on_absent_path_succeeds() {
    let mut fs = MockFileSystem::new();
    assert!(fs.remove_file("/never-written").is_ok());
    assert!(fs.remove_file("/never-written").is_ok());
}

#[test]
fn remove_dir_all_on_absent_path_succeeds() {
    let mut fs = MockFileSystem::new();
    assert!(fs.remove_dir_all("/never-created").is_ok());
    assert!(fs.remove_dir_all("/never-created").is_ok());
}

#[test]
fn remove_file_then_read_fails_with_not_found() {
    let mut fs = MockFileSystem::new();
    assert!(fs.write("/a", b"data").is_ok());
    assert!(fs.remove_file("/a").is_ok());
    assert_eq!(fs.read("/a"), Err(FsError::NotFound));
}

#[test]
fn remove_file_leaves_other_files_alone() {
    let mut fs = MockFileSystem::new();
    assert!(fs.write("/a", b"one").is_ok());
    assert!(fs.write("/b", b"two").is_ok());
    assert!(fs.remove_file("/a").is_ok());
    assert_eq!(fs.read("/b").unwrap(), b"two".to_vec());
}

#[test]
fn writes_to_distinct_paths_are_both_readable() {
    let mut fs = MockFileSystem::new();
    assert!(fs.write("/out/a.js", b"aaa").is_ok());
    assert!(fs.write("/out/b.js", b"bbb").is_ok());
    assert_eq!(fs.read("/out/a.js").unwrap(), b"aaa".to_vec());
    assert_eq!(fs.read("/out/b.js").unwrap(), b"bbb".to_vec());
}

#[test]
fn sequential_writes_to_one_path_observe_issuance_order() {
    let mut fs = MockFileSystem::new();
    assert!(fs.write("/x", b"1").is_ok());
    assert!(fs.write("/x", b"2").is_ok());
    assert!(fs.write("/x", b"3").is_ok());
    assert_eq!(fs.read("/x").unwrap(), b"3".to_vec());
}

#[test]
fn create_dir_records_a_directory_entry() {
    let mut fs = MockFileSystem::new();
    assert!(fs.create_dir("/dist").is_ok());
    let meta = fs.metadata("/dist").unwrap();
    assert_eq!(meta.kind, EntryKind::Directory);
    assert_eq!(meta.size, 0);
}

#[test]
fn create_dir_all_never_fails_on_missing_intermediates() {
    let mut fs = MockFileSystem::new();
    assert!(fs.create_dir_all("/very/deep/dir").is_ok());
    let meta = fs.metadata("/very/deep/dir").unwrap();
    assert_eq!(meta.kind, EntryKind::Directory);
}

#[test]
fn write_needs_no_parent_directory() {
    // The permissive in-memory contract: a write succeeds without any
    // parent-directory entry, unlike the real-disk backend.
    let mut fs = MockFileSystem::new();
    assert!(fs.write("/no/parent/created/file.txt", b"ok").is_ok());
    assert_eq!(fs.read("/no/parent/created/file.txt").unwrap(), b"ok".to_vec());
}

#[test]
fn metadata_of_a_file_reports_kind_and_size() {
    let mut fs = MockFileSystem::new();
    assert!(fs.write("/f", b"12345").is_ok());
    let meta = fs.metadata("/f").unwrap();
    assert_eq!(meta.kind, EntryKind::File);
    assert_eq!(meta.size, 5);
}

#[test]
fn metadata_of_an_absent_path_fails_with_not_found() {
    let fs = MockFileSystem::new();
    assert_eq!(fs.metadata("/missing"), Err(FsError::NotFound));
}

#[test]
fn symlink_metadata_observes_what_metadata_observes() {
    let mut fs = MockFileSystem::new();
    assert!(fs.write("/f", b"abc").is_ok());
    assert_eq!(fs.symlink_metadata("/f"), fs.metadata("/f"));
    assert_eq!(fs.symlink_metadata("/g"), Err(FsError::NotFound));
}

#[test]
fn canonicalize_returns_existing_paths_unchanged() {
    let mut fs = MockFileSystem::new();
    assert!(fs.write("/f", b"abc").is_ok());
    assert!(fs.create_dir("/d").is_ok());
    assert_eq!(fs.canonicalize("/f").unwrap(), "/f".to_string());
    assert_eq!(fs.canonicalize("/d").unwrap(), "/d".to_string());
}

#[test]
fn canonicalize_of_an_absent_path_fails_with_not_found() {
    let fs = MockFileSystem::new();
    assert_eq!(fs.canonicalize("/missing"), Err(FsError::NotFound));
}

#[test]
fn entries_drains_all_files_in_write_order() {
    let mut fs = MockFileSystem::new();
    assert!(fs.write("/out/a.js", b"aaa").is_ok());
    assert!(fs.write("/out/b.js", b"bbb").is_ok());
    assert!(fs.write("/out/a.js", b"aaa2").is_ok());
    let drained = fs.entries();
    assert_eq!(drained.len(), 2);
    assert_eq!(drained[0].0, "/out/a.js".to_string());
    assert_eq!(drained[0].1, b"aaa2".to_vec());
    assert_eq!(drained[1].0, "/out/b.js".to_string());
    assert_eq!(drained[1].1, b"bbb".to_vec());
}

#[test]
fn entries_of_an_empty_store_is_empty() {
    let fs = MockFileSystem::new();
    assert!(fs.entries().is_empty());
}

#[test]
fn directories_and_files_are_separate_records() {
    let mut fs = MockFileSystem::new();
    assert!(fs.create_dir("/p").is_ok());
    // Creating the directory does not create a file, and writing a file does
    // not create its parent directory entry.
    assert_eq!(fs.read("/p"), Err(FsError::NotFound));
    assert!(fs.write("/q/file", b"x").is_ok());
    assert_eq!(fs.metadata("/q"), Err(FsError::NotFound));
}
