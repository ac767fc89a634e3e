use matlas::matfile::{
    check_close, check_delete, check_directory, check_get, check_open, check_path,
    check_position, check_put, validate_name, Cursor,
};
use matlas::error::quote;
use matlas::{ArrayInfo, Class, ErrorKind, MatError, MatVersion, OpenMode};

#[test]
fn mode_strings() {
    assert_eq!(OpenMode::Read.as_text(), "r");
    assert_eq!(OpenMode::Update.as_text(), "u");
    assert_eq!(OpenMode::Write(MatVersion::Default).as_text(), "w");
    assert_eq!(OpenMode::Write(MatVersion::V4).as_text(), "w4");
    assert_eq!(OpenMode::Write(MatVersion::V6).as_text(), "w6");
    assert_eq!(OpenMode::Write(MatVersion::V7).as_text(), "w7");
    assert_eq!(OpenMode::Write(MatVersion::V73).as_text(), "w7.3");
    assert_eq!(OpenMode::create(), OpenMode::Write(MatVersion::V7));
}

#[test]
fn modes_permit_reading_and_writing() {
    assert!(OpenMode::Read.require_read().is_ok());
    assert!(OpenMode::Update.require_read().is_ok());
    let e = OpenMode::create().require_read().unwrap_err();
    assert_eq!(e.kind, ErrorKind::InvalidMode);
    assert_eq!(e.detail, "file is write-only");
    assert!(OpenMode::Update.require_write().is_ok());
    assert!(OpenMode::Write(MatVersion::V4).require_write().is_ok());
    let e = OpenMode::Read.require_write().unwrap_err();
    assert_eq!(e.kind, ErrorKind::InvalidMode);
    assert_eq!(e.detail, "file is read-only");
}

#[test]
fn names_and_paths() {
    assert!(validate_name(b"x").is_ok());
    let e = validate_name(b"").unwrap_err();
    assert_eq!(e.kind, ErrorKind::InvalidInput);
    assert_eq!(e.detail, "empty name");
    assert!(check_path(Some("data.mat")).is_ok());
    assert_eq!(check_path(None).unwrap_err().detail, "path is not valid Unicode");
    assert_eq!(check_path(Some("a\0.mat")).unwrap_err().detail, "path contains NUL");
    assert_eq!(quote(b"x y"), "\"x y\"");
    assert_eq!(quote(b"a\"b\\\t\n\r'\x00\xe6~"), "\"a\\\"b\\\\\\t\\n\\r\\'\\x00\\xe6~\"");
}

#[test]
fn native_results_map_to_errors() {
    assert!(check_open(true, b"a.mat").is_ok());
    let e = check_open(false, b"a.mat").unwrap_err();
    assert_eq!(e.kind, ErrorKind::Open);
    assert_eq!(e.detail, "\"a.mat\"");
    assert!(check_put(0, 0, false, b"v").is_ok());
    let e = check_put(1, 5, true, b"v").unwrap_err();
    assert_eq!(e.kind, ErrorKind::Write);
    assert_eq!(e.operation, "put global MAT variable");
    assert_eq!(e.status, Some(1));
    assert_eq!(e.mat_error, Some(MatError(5)));
    assert_eq!(check_put(2, 0, false, b"v").unwrap_err().operation, "put MAT variable");
    let e = check_get(false, 9, true, b"v").unwrap_err();
    assert_eq!(e.kind, ErrorKind::Read);
    assert_eq!(e.operation, "get MAT header");
    assert_eq!(e.status, Some(-1));
    assert_eq!(check_get(false, 9, false, b"v").unwrap_err().operation, "get MAT variable");
    assert!(check_get(true, 9, false, b"v").is_ok());
    assert!(check_delete(0, 0, b"v").is_ok());
    assert_eq!(check_delete(1, 2, b"v").unwrap_err().operation, "delete MAT variable");
    assert_eq!(check_directory(3, false, 0).unwrap(), 3);
    assert_eq!(check_directory(0, true, 0).unwrap(), 0);
    assert_eq!(check_directory(-1, false, 4).unwrap_err().detail, "invalid directory");
    assert!(check_directory(2, true, 0).is_err());
    assert!(check_close(0).is_ok());
    let e = check_close(-1).unwrap_err();
    assert_eq!(e.kind, ErrorKind::Close);
    assert_eq!(e.operation, "close MAT-file");
    assert_eq!(e.status, Some(-1));
    assert_eq!(e.id(), "matlas:file:close");
    assert_eq!(check_position(42).unwrap(), 42);
    assert_eq!(check_position(-1).unwrap_err().operation, "stream position");
}

#[test]
fn header_metadata() {
    let info = ArrayInfo::new(vec![2, 3], 6, 6, "double".to_string(), true, false, true);
    assert_eq!(info.dimensions(), &[2, 3]);
    assert_eq!(info.numel(), 6);
    assert_eq!(info.class(), Some(Class::Double));
    assert_eq!(info.class_id(), 6);
    assert_eq!(info.class_name(), "double");
    assert!(info.is_complex());
    assert!(!info.is_sparse());
    assert!(info.is_global());
    let unknown = ArrayInfo::new(vec![1, 1], 1, 42, "mystery".to_string(), false, true, false);
    assert_eq!(unknown.class(), None);
    assert_eq!(unknown.class_id(), 42);
}

#[test]
fn reader_stops_for_good() {
    let mut cursor = Cursor::new(2);
    assert!(cursor.advance());
    cursor.record_read();
    assert!(cursor.advance());
    cursor.record_read();
    assert!(!cursor.advance());
    assert!(!cursor.advance());
    let mut failing = Cursor::new(3);
    assert!(failing.advance());
    let e = failing.fail_missing(7, false);
    assert_eq!(e.kind, ErrorKind::UnexpectedEnd);
    assert_eq!(e.operation, "next MAT variable");
    assert_eq!(e.mat_error, Some(MatError(7)));
    assert!(!failing.advance());
    let mut unnamed = Cursor::new(1);
    let e = unnamed.fail_unnamed(true);
    assert_eq!(e.kind, ErrorKind::Native);
    assert_eq!(e.operation, "next MAT header");
    assert_eq!(e.detail, "null variable name");
    assert!(!unnamed.advance());
}

#[test]
fn directory_entries_must_be_named() {
    assert!(matlas::matfile::check_directory_entry(true).is_ok());
    let e = matlas::matfile::check_directory_entry(false).unwrap_err();
    assert_eq!(e.kind, ErrorKind::Native);
    assert_eq!(e.operation, "MAT directory");
    assert_eq!(e.detail, "null name");
}

#[test]
fn quoting_escapes_every_byte_as_debug_output_does() {
    let all: Vec<u8> = (0..=255u8).collect();
    assert_eq!(quote(&all), format!("\"{}\"", all.escape_ascii()));
    for byte in 0..=255u8 {
        assert_eq!(quote(&[byte]), format!("\"{}\"", [byte].escape_ascii()));
    }
    assert_eq!(quote(b""), "\"\"");
}

#[test]
fn reader_yields_exactly_the_listed_count() {
    let mut empty = Cursor::new(0);
    assert!(!empty.advance());
    let mut cursor = Cursor::new(3);
    let mut yielded = 0;
    while cursor.advance() {
        cursor.record_read();
        yielded += 1;
        assert!(yielded <= 3);
    }
    assert_eq!(yielded, 3);
    assert!(!cursor.advance());
}
