use matlas::error::ErrorId;
use matlas::{Error, ErrorKind, MatError};

#[test]
fn custom_identifier_is_validated() {
    let error = Error::new(ErrorKind::Open, "open", "missing")
        .with_id("store:MissingRecordFile")
        .unwrap();
    assert_eq!(error.id(), "store:MissingRecordFile");
    assert_eq!(error.kind, ErrorKind::Open);
    for id in ["one", "bad:", "0bad:Good", "good:bad-name", "good:日本語"] {
        assert!(Error::new(ErrorKind::Open, "open", "missing")
            .with_id(id)
            .is_err());
    }
    assert!(Error::new(ErrorKind::Open, "open", "missing")
        .with_id(&format!("good:{}", "x".repeat(251)))
        .is_err());
}

#[test]
fn identifier_limits_and_fields() {
    let longest = format!("good:{}", "x".repeat(250));
    assert_eq!(longest.len(), 255);
    assert!(ErrorId::new(&longest).is_some());
    assert!(ErrorId::new("a:b:c_1").is_some());
    assert!(ErrorId::new("A1_:z9").is_some());
    assert!(ErrorId::new(":a").is_none());
    assert!(ErrorId::new("a::b").is_none());
    assert!(ErrorId::new("a:_b").is_none());
    assert!(ErrorId::new("").is_none());
    let rejected = Error::new(ErrorKind::Open, "open", "missing")
        .with_id("nope")
        .unwrap_err();
    assert_eq!(rejected.kind, ErrorKind::InvalidInput);
    assert_eq!(rejected.operation, "error identifier");
    assert_eq!(rejected.id(), "matlas:input:invalid");
}

#[test]
fn identifier_keeps_other_fields() {
    let error = Error::native(ErrorKind::Write, "put", "\"v\"", 3, -7)
        .with_id("store:Write")
        .unwrap();
    assert_eq!(error.kind, ErrorKind::Write);
    assert_eq!(error.operation, "put");
    assert_eq!(error.detail, "\"v\"");
    assert_eq!(error.status, Some(3));
    assert_eq!(error.mat_error, Some(MatError(-7)));
    assert_eq!(error.identifier.as_ref().unwrap().as_str(), "store:Write");
}

#[test]
fn default_identifiers_by_kind() {
    let cases = [
        (ErrorKind::InvalidInput, "matlas:input:invalid"),
        (ErrorKind::Type, "matlas:array:type"),
        (ErrorKind::Bounds, "matlas:array:bounds"),
        (ErrorKind::Allocation, "matlas:allocation"),
        (ErrorKind::Callback, "matlas:callback"),
        (ErrorKind::Workspace, "matlas:workspace"),
        (ErrorKind::Busy, "matlas:runtime:busy"),
        (ErrorKind::InvalidMode, "matlas:file:mode"),
        (ErrorKind::Open, "matlas:file:open"),
        (ErrorKind::Read, "matlas:file:read"),
        (ErrorKind::UnexpectedEnd, "matlas:file:read"),
        (ErrorKind::Write, "matlas:file:write"),
        (ErrorKind::Close, "matlas:file:close"),
        (ErrorKind::Native, "matlas:native"),
    ];
    for (kind, id) in cases {
        assert_eq!(Error::new(kind, "op", "detail").id(), id);
    }
}

#[test]
fn message_text_lists_native_codes() {
    assert_eq!(
        Error::new(ErrorKind::Open, "open MAT-file", "\"x.mat\"").to_text(),
        "open MAT-file: \"x.mat\""
    );
    assert_eq!(
        Error::native(ErrorKind::Read, "get MAT variable", "\"v\"", -1, 12).to_text(),
        "get MAT variable: \"v\" (status -1) (MAT error 12)"
    );
    assert_eq!(
        Error::native_status("close MAT-file", 2147483647).to_text(),
        "close MAT-file: native operation failed (status 2147483647)"
    );
    assert_eq!(
        Error::native(ErrorKind::Write, "w", "d", -2147483648, 0).to_text(),
        "w: d (status -2147483648) (MAT error 0)"
    );
}

#[test]
fn error_constructors_fill_details() {
    let e = Error::bounds("cell", 10, 3);
    assert_eq!(e.kind, ErrorKind::Bounds);
    assert_eq!(e.detail, "index 10 is outside length 3");
    let e = Error::bounds("cell", 0, 0);
    assert_eq!(e.detail, "index 0 is outside length 0");
    let e = Error::type_mismatch("character data", "char", b"double");
    assert_eq!(e.kind, ErrorKind::Type);
    assert_eq!(e.detail, "expected char, got \"double\"");
    let e = Error::count_mismatch(ErrorKind::InvalidInput, "MEX inputs", 2, "inputs", 105);
    assert_eq!(e.detail, "expected 2 inputs, got 105");
    let e = Error::allocation("duplicate array");
    assert_eq!(e.kind, ErrorKind::Allocation);
    assert_eq!(e.detail, "MATLAB returned a null allocation");
    assert_eq!(e.status, None);
}
