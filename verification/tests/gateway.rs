use file_gateway::errors::{classify_os_error, ErrorKind, OsErrorClass};
use file_gateway::gateway::{validate_path, FileSystem};

#[test]
fn create_dir_is_idempotent() {
    let mut fs = FileSystem::new();
    let p = String::from("tmp/x");
    assert!(fs.create_dir(&p).is_ok());
    assert!(fs.create_dir(&p).is_ok());
    // The directory exists after either call: a file can be placed in it.
    let f = String::from("tmp/x/f.txt");
    assert!(fs.write_file(&f, &String::from("data")).is_ok());
}

#[test]
fn create_dir_creates_all_ancestors() {
    let mut fs = FileSystem::new();
    assert!(fs.create_dir(&String::from("a/b/c")).is_ok());
    // All three directories exist afterward: each accepts a file.
    assert!(fs.write_file(&String::from("a/f.txt"), &String::from("1")).is_ok());
    assert!(fs.write_file(&String::from("a/b/f.txt"), &String::from("2")).is_ok());
    assert!(fs.write_file(&String::from("a/b/c/f.txt"), &String::from("3")).is_ok());
    // And each is a directory, not a file: reading it fails with IOError.
    let e = fs.read_file(&String::from("a/b")).unwrap_err();
    assert_eq!(e.kind, ErrorKind::IOError);
}

#[test]
fn write_then_read_round_trips() {
    let mut fs = FileSystem::new();
    assert!(fs.create_dir(&String::from("docs")).is_ok());
    let p = String::from("docs/note.txt");
    let t = String::from("line one\nline two\n");
    assert!(fs.write_file(&p, &t).is_ok());
    assert_eq!(fs.read_file(&p).unwrap(), t);
}

#[test]
fn read_missing_path_is_not_found() {
    let fs = FileSystem::new();
    let e = fs.read_file(&String::from("tmp/does/not/exist.txt")).unwrap_err();
    assert_eq!(e.kind, ErrorKind::NotFound);
    assert_eq!(e.message, "no file exists at the path");
}

#[test]
fn write_without_parent_is_io_error() {
    let mut fs = FileSystem::new();
    let e = fs.write_file(&String::from("no/dir/f.txt"), &String::from("x")).unwrap_err();
    assert_eq!(e.kind, ErrorKind::IOError);
    assert_eq!(e.message, "the parent directory does not exist");
    // No ancestor was created along the way.
    assert_eq!(fs.read_file(&String::from("no/dir/f.txt")).unwrap_err().kind, ErrorKind::NotFound);
}

#[test]
fn empty_path_is_invalid_argument_everywhere() {
    let mut fs = FileSystem::new();
    let empty = String::new();
    let e = fs.create_dir(&empty).unwrap_err();
    assert_eq!(e.kind, ErrorKind::InvalidArgument);
    let e = fs.read_file(&empty).unwrap_err();
    assert_eq!(e.kind, ErrorKind::InvalidArgument);
    let e = fs.write_file(&empty, &String::from("x")).unwrap_err();
    assert_eq!(e.kind, ErrorKind::InvalidArgument);
    assert_eq!(e.message, "path must not be empty");
}

#[test]
fn scenario_create_write_read() {
    let mut fs = FileSystem::new();
    assert!(fs.create_dir(&String::from("tmp/x/y")).is_ok());
    assert!(fs.write_file(&String::from("tmp/x/y/f.txt"), &String::from("hello")).is_ok());
    assert_eq!(fs.read_file(&String::from("tmp/x/y/f.txt")).unwrap(), "hello");
}

#[test]
fn scenario_read_nonexistent() {
    let fs = FileSystem::new();
    let r = fs.read_file(&String::from("tmp/does/not/exist.txt"));
    assert!(r.is_err());
    assert_eq!(r.unwrap_err().kind, ErrorKind::NotFound);
}

#[test]
fn overwrite_replaces_contents_in_full() {
    let mut fs = FileSystem::new();
    let p = String::from("config.toml");
    assert!(fs.write_file(&p, &String::from("first version, quite long")).is_ok());
    assert!(fs.write_file(&p, &String::from("second")).is_ok());
    assert_eq!(fs.read_file(&p).unwrap(), "second");
}

#[test]
fn create_dir_over_file_fails() {
    let mut fs = FileSystem::new();
    assert!(fs.write_file(&String::from("f"), &String::from("x")).is_ok());
    let e = fs.create_dir(&String::from("f")).unwrap_err();
    assert_eq!(e.kind, ErrorKind::IOError);
    assert_eq!(e.message, "a path component exists and is not a directory");
    // The same holds when the file stands in the middle of the path.
    let e = fs.create_dir(&String::from("f/sub")).unwrap_err();
    assert_eq!(e.kind, ErrorKind::IOError);
    // And the failed creation changed nothing: "f" still reads back.
    assert_eq!(fs.read_file(&String::from("f")).unwrap(), "x");
}

#[test]
fn write_to_directory_fails() {
    let mut fs = FileSystem::new();
    assert!(fs.create_dir(&String::from("d")).is_ok());
    let e = fs.write_file(&String::from("d"), &String::from("x")).unwrap_err();
    assert_eq!(e.kind, ErrorKind::IOError);
    assert_eq!(e.message, "the path is a directory, not a file");
}

#[test]
fn write_under_file_parent_fails() {
    let mut fs = FileSystem::new();
    assert!(fs.write_file(&String::from("a"), &String::from("x")).is_ok());
    let e = fs.write_file(&String::from("a/b"), &String::from("y")).unwrap_err();
    assert_eq!(e.kind, ErrorKind::IOError);
}

#[test]
fn rooted_and_bare_paths_need_no_parent() {
    let mut fs = FileSystem::new();
    // A bare file name has no parent component to demand.
    assert!(fs.write_file(&String::from("f.txt"), &String::from("bare")).is_ok());
    assert_eq!(fs.read_file(&String::from("f.txt")).unwrap(), "bare");
    // A path whose only parent is the root likewise.
    assert!(fs.write_file(&String::from("/g.txt"), &String::from("rooted")).is_ok());
    assert_eq!(fs.read_file(&String::from("/g.txt")).unwrap(), "rooted");
    // Rooted directories can be created and used.
    assert!(fs.create_dir(&String::from("/etc/app")).is_ok());
    assert!(fs.write_file(&String::from("/etc/app/c"), &String::from("v")).is_ok());
}

#[test]
fn empty_contents_round_trip() {
    let mut fs = FileSystem::new();
    assert!(fs.write_file(&String::from("empty.txt"), &String::new()).is_ok());
    assert_eq!(fs.read_file(&String::from("empty.txt")).unwrap(), "");
}

#[test]
fn validate_path_rejects_only_the_empty_path() {
    let e = validate_path(&String::new()).unwrap();
    assert_eq!(e.kind, ErrorKind::InvalidArgument);
    assert_eq!(e.message, "path must not be empty");
    assert!(validate_path(&String::from("a")).is_none());
    assert!(validate_path(&String::from("/")).is_none());
}

#[test]
fn os_error_classification() {
    let cases = [
        (OsErrorClass::NotFound, ErrorKind::NotFound),
        (OsErrorClass::PermissionDenied, ErrorKind::PermissionDenied),
        (OsErrorClass::AlreadyExists, ErrorKind::AlreadyExists),
        (OsErrorClass::InvalidData, ErrorKind::EncodingError),
        (OsErrorClass::Other, ErrorKind::IOError),
    ];
    for (class, kind) in cases {
        let e = classify_os_error(class, String::from("os detail"));
        assert_eq!(e.kind, kind);
        assert_eq!(e.message, "os detail");
    }
}
