use file_entity::file::{contains_char, is_valid_file_name, File, FileError};
use file_entity::storage_path::StoragePath;

fn sample() -> File {
    File::with_timestamps(
        "123".to_string(),
        "file.txt".to_string(),
        StoragePath::from_string("/test/file.txt"),
        100,
        "text/plain".to_string(),
        Some("folder-1".to_string()),
        1_000,
        2_000,
    )
    .unwrap()
}

#[test]
fn test_file_creation_with_valid_name() {
    let storage_path = StoragePath::from_string("/test/file.txt");
    let file = File::new(
        "123".to_string(),
        "file.txt".to_string(),
        storage_path,
        100,
        "text/plain".to_string(),
        None,
    );

    assert!(file.is_ok());
}

#[test]
fn test_file_creation_with_invalid_name() {
    let storage_path = StoragePath::from_string("/test/invalid/file.txt");
    let file = File::new(
        "123".to_string(),
        "file/with/slash.txt".to_string(),
        storage_path,
        100,
        "text/plain".to_string(),
        None,
    );

    assert!(file.is_err());
    match file {
        Err(FileError::InvalidFileName(_)) => (),
        _ => panic!("Expected InvalidFileName error"),
    }
}

#[test]
fn test_file_with_name() {
    let storage_path = StoragePath::from_string("/test/file.txt");
    let file = File::new(
        "123".to_string(),
        "file.txt".to_string(),
        storage_path,
        100,
        "text/plain".to_string(),
        None,
    )
    .unwrap();

    let renamed = file.with_name("newname.txt".to_string());
    assert!(renamed.is_ok());
    let renamed = renamed.unwrap();
    assert_eq!(renamed.name(), "newname.txt");
    assert_eq!(renamed.id(), "123");
}

#[test]
fn new_keeps_what_it_is_given() {
    let file = File::new(
        "123".to_string(),
        "file.txt".to_string(),
        StoragePath::from_string("/test/file.txt"),
        100,
        "text/plain".to_string(),
        Some("folder-1".to_string()),
    )
    .unwrap();
    assert_eq!(file.id(), "123");
    assert_eq!(file.name(), "file.txt");
    assert_eq!(file.storage_path(), &StoragePath::from_string("/test/file.txt"));
    assert_eq!(file.path_string(), "/test/file.txt");
    assert_eq!(file.path_string(), file.storage_path().to_string());
    assert_eq!(file.size(), 100);
    assert_eq!(file.mime_type(), "text/plain");
    assert_eq!(file.folder_id(), Some("folder-1"));
    assert_eq!(file.created_at(), file.modified_at());
}

#[test]
fn new_renders_the_path_it_is_given() {
    let file = File::new(
        "1".to_string(),
        "a.txt".to_string(),
        StoragePath::from_string("docs//a.txt/"),
        0,
        String::new(),
        None,
    )
    .unwrap();
    assert_eq!(file.path_string(), "/docs/a.txt");
    assert_eq!(file.folder_id(), None);
}

#[test]
fn new_refuses_bad_names_and_hands_them_back() {
    for bad in ["", "/", "\\", "a/b", "a\\b", "/lead", "trail\\", "file/with/slash.txt"] {
        let built = File::new(
            "1".to_string(),
            bad.to_string(),
            StoragePath::from_string("/x"),
            1,
            "text/plain".to_string(),
            None,
        );
        match built {
            Err(FileError::InvalidFileName(name)) => assert_eq!(name, bad),
            _ => panic!("expected an invalid name"),
        }
    }
}

#[test]
fn with_timestamps_keeps_the_timestamps() {
    let file = sample();
    assert_eq!(file.created_at(), 1_000);
    assert_eq!(file.modified_at(), 2_000);
    assert_eq!(file.path_string(), "/test/file.txt");
    assert_eq!(file.folder_id(), Some("folder-1"));
}

#[test]
fn with_timestamps_does_not_order_the_timestamps() {
    let file = File::with_timestamps(
        "1".to_string(),
        "a".to_string(),
        StoragePath::from_string("/a"),
        0,
        String::new(),
        None,
        9,
        3,
    )
    .unwrap();
    assert_eq!(file.created_at(), 9);
    assert_eq!(file.modified_at(), 3);
}

#[test]
fn with_timestamps_refuses_bad_names() {
    for bad in ["", "a/b", "a\\b"] {
        let built = File::with_timestamps(
            "1".to_string(),
            bad.to_string(),
            StoragePath::from_string("/x"),
            1,
            "text/plain".to_string(),
            None,
            1,
            2,
        );
        match built {
            Err(FileError::InvalidFileName(name)) => assert_eq!(name, bad),
            _ => panic!("expected an invalid name"),
        }
    }
}

#[test]
fn name_validation() {
    assert!(is_valid_file_name("file.txt"));
    assert!(is_valid_file_name(" "));
    assert!(is_valid_file_name(".."));
    assert!(is_valid_file_name("r\u{e9}sum\u{e9}.pdf"));
    assert!(!is_valid_file_name(""));
    assert!(!is_valid_file_name("a/b"));
    assert!(!is_valid_file_name("a\\b"));
    assert!(!is_valid_file_name("\u{e9}/"));
}

#[test]
fn contains_char_finds_what_is_there() {
    assert!(contains_char("abc", 'a'));
    assert!(contains_char("abc", 'c'));
    assert!(contains_char("h\u{e9}llo", '\u{e9}'));
    assert!(!contains_char("abc", 'd'));
    assert!(!contains_char("", 'a'));
}

#[test]
fn from_dto_keeps_the_path_string() {
    for path in ["/test/file.txt", "test//file.txt", "", "/", "no-slash", "a/b/"] {
        let file = File::from_dto(
            "1".to_string(),
            "file.txt".to_string(),
            path.to_string(),
            7,
            "text/plain".to_string(),
            None,
            10,
            20,
        );
        assert_eq!(file.path_string(), path);
        assert_eq!(file.storage_path(), &StoragePath::from_string(path));
    }
}

#[test]
fn from_dto_does_not_validate() {
    let file = File::from_dto(
        "1".to_string(),
        "a/b".to_string(),
        "/x/a/b".to_string(),
        7,
        "text/plain".to_string(),
        Some("f".to_string()),
        10,
        20,
    );
    assert_eq!(file.id(), "1");
    assert_eq!(file.name(), "a/b");
    assert_eq!(file.size(), 7);
    assert_eq!(file.mime_type(), "text/plain");
    assert_eq!(file.folder_id(), Some("f"));
    assert_eq!(file.created_at(), 10);
    assert_eq!(file.modified_at(), 20);
    assert_eq!(file.storage_path().to_string(), "/x/a/b");
}

#[test]
fn rename_keeps_the_folder() {
    let file = sample();
    let renamed = file.renamed_at("newname.txt".to_string(), 3_000).unwrap();
    assert_eq!(renamed.name(), "newname.txt");
    assert_eq!(renamed.path_string(), "/test/newname.txt");
    assert_eq!(renamed.storage_path(), &StoragePath::from_string("/test/newname.txt"));
    assert_eq!(renamed.id(), "123");
    assert_eq!(renamed.size(), 100);
    assert_eq!(renamed.mime_type(), "text/plain");
    assert_eq!(renamed.folder_id(), Some("folder-1"));
    assert_eq!(renamed.created_at(), 1_000);
    assert_eq!(renamed.modified_at(), 3_000);
    assert_eq!(file, sample());
}

#[test]
fn rename_directly_under_the_root() {
    let file = File::from_dto(
        "1".to_string(),
        "a.txt".to_string(),
        "/a.txt".to_string(),
        1,
        String::new(),
        None,
        1,
        1,
    );
    let renamed = file.renamed_at("b.txt".to_string(), 2).unwrap();
    assert_eq!(renamed.path_string(), "/b.txt");
}

#[test]
fn rename_of_a_file_at_the_root_path() {
    let renamed = File::default().renamed_at("b.txt".to_string(), 2).unwrap();
    assert_eq!(renamed.path_string(), "/b.txt");
    assert_eq!(renamed.storage_path(), &StoragePath::from_string("b.txt"));
    assert_eq!(renamed.name(), "b.txt");
    assert_eq!(renamed.id(), "stub-id");
}

#[test]
fn rename_refuses_bad_names_and_leaves_the_file() {
    let file = sample();
    for bad in ["", "a/b", "a\\b"] {
        match file.with_name(bad.to_string()) {
            Err(FileError::InvalidFileName(name)) => assert_eq!(name, bad),
            _ => panic!("expected an invalid name"),
        }
        match file.renamed_at(bad.to_string(), 5) {
            Err(FileError::InvalidFileName(name)) => assert_eq!(name, bad),
            _ => panic!("expected an invalid name"),
        }
    }
    assert_eq!(file, sample());
}

#[test]
fn with_name_keeps_identity_and_reads_the_clock() {
    let file = File::new(
        "123".to_string(),
        "file.txt".to_string(),
        StoragePath::from_string("/test/file.txt"),
        100,
        "text/plain".to_string(),
        None,
    )
    .unwrap();
    let renamed = file.with_name("newname.txt".to_string()).unwrap();
    assert_eq!(renamed.id(), file.id());
    assert_eq!(renamed.created_at(), file.created_at());
    assert!(renamed.modified_at() >= file.modified_at());
    assert_eq!(renamed.path_string(), "/test/newname.txt");
    assert_eq!(renamed.path_string(), renamed.storage_path().to_string());
}

#[test]
fn move_into_a_folder() {
    let file = sample();
    let folder = StoragePath::from_string("/docs/2024");
    let moved = file.moved_at(Some("folder-2".to_string()), Some(folder.clone()), 3_000);
    assert_eq!(moved.storage_path(), &folder.join("file.txt"));
    assert_eq!(moved.path_string(), "/docs/2024/file.txt");
    assert_eq!(moved.folder_id(), Some("folder-2"));
    assert_eq!(moved.name(), "file.txt");
    assert_eq!(moved.id(), "123");
    assert_eq!(moved.size(), 100);
    assert_eq!(moved.mime_type(), "text/plain");
    assert_eq!(moved.created_at(), 1_000);
    assert_eq!(moved.modified_at(), 3_000);
    assert_eq!(file, sample());
}

#[test]
fn move_to_the_root() {
    let file = sample();
    let moved = file.moved_at(None, None, 3_000);
    assert_eq!(moved.storage_path(), &StoragePath::from_string("file.txt"));
    assert_eq!(moved.path_string(), "/file.txt");
    assert_eq!(moved.folder_id(), None);
}

#[test]
fn with_folder_never_fails() {
    let file = sample();
    let moved = file
        .with_folder(Some("f".to_string()), Some(StoragePath::from_string("/")))
        .unwrap();
    assert_eq!(moved.path_string(), "/file.txt");
    assert_eq!(moved.folder_id(), Some("f"));
    assert_eq!(moved.created_at(), 1_000);
    let unvalidated = File::from_dto(
        "1".to_string(),
        "a/b".to_string(),
        "/a/b".to_string(),
        0,
        String::new(),
        None,
        0,
        0,
    );
    let moved = unvalidated.with_folder(None, Some(StoragePath::from_string("/docs")));
    assert!(moved.is_ok());
}

#[test]
fn resize_changes_the_size_only() {
    let file = sample();
    let resized = file.resized_at(5, 3_000);
    assert_eq!(resized.size(), 5);
    assert_eq!(resized.modified_at(), 3_000);
    assert_eq!(resized.id(), file.id());
    assert_eq!(resized.name(), file.name());
    assert_eq!(resized.storage_path(), file.storage_path());
    assert_eq!(resized.path_string(), file.path_string());
    assert_eq!(resized.mime_type(), file.mime_type());
    assert_eq!(resized.folder_id(), file.folder_id());
    assert_eq!(resized.created_at(), file.created_at());
    assert_eq!(file.size(), 100);
    assert_eq!(resized.resized_at(100, 2_000), file);
}

#[test]
fn with_size_keeps_the_rest() {
    let file = sample();
    let resized = file.with_size(u64::MAX);
    assert_eq!(resized.size(), u64::MAX);
    assert_eq!(resized.resized_at(100, 2_000), file);
}

#[test]
fn the_stub() {
    let stub = File::default();
    assert_eq!(stub.id(), "stub-id");
    assert_eq!(stub.name(), "stub-file.txt");
    assert_eq!(stub.storage_path(), &StoragePath::from_string("/"));
    assert_eq!(stub.path_string(), "/");
    assert_eq!(stub.size(), 0);
    assert_eq!(stub.mime_type(), "application/octet-stream");
    assert_eq!(stub.folder_id(), None);
    assert_eq!(stub.created_at(), 0);
    assert_eq!(stub.modified_at(), 0);
}

#[test]
fn clones_are_equal_and_differences_are_seen() {
    let file = sample();
    assert_eq!(file.clone(), file);
    assert_ne!(file.resized_at(1, 2_000), file);
    assert_ne!(file.resized_at(100, 2_001), file);
    assert_ne!(file.moved_at(None, Some(StoragePath::from_string("/test")), 2_000), file);
    assert_eq!(
        file.moved_at(Some("folder-1".to_string()), Some(StoragePath::from_string("/test")), 2_000),
        file
    );
    assert_ne!(file.renamed_at("other".to_string(), 2_000).unwrap(), file);
}
