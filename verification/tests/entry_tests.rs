use matlas::entry::{check_arity, check_input, check_native_counts, copy_text, report_error};
use matlas::{Error, ErrorKind};

#[test]
fn preserves_utf8_boundaries() {
    let mut buffer: [u8; 5] = [255; 5];
    copy_text(&mut buffer, "a😀b");
    assert_eq!(&buffer[..2], b"a\0");
    copy_text(&mut buffer, "a\0b");
    assert_eq!(&buffer[..4], b"a?b\0");
}

#[test]
fn copy_text_edge_cases() {
    let mut empty: [u8; 0] = [];
    copy_text(&mut empty, "abc");
    let mut one: [u8; 1] = [7];
    copy_text(&mut one, "abc");
    assert_eq!(one, [0]);
    let mut exact: [u8; 4] = [9; 4];
    copy_text(&mut exact, "abc");
    assert_eq!(exact, *b"abc\0");
    let mut tail: [u8; 6] = [9; 6];
    copy_text(&mut tail, "ab");
    assert_eq!(tail, [b'a', b'b', 0, 9, 9, 9]);
    let mut accent: [u8; 3] = [9; 3];
    copy_text(&mut accent, "é!");
    assert_eq!(accent, [0xC3, 0xA9, 0]);
    let mut split: [u8; 2] = [9; 2];
    copy_text(&mut split, "é");
    assert_eq!(split, [0, 9]);
}

#[test]
fn report_error_fills_both_buffers() {
    let error = Error::new(ErrorKind::Type, "fixed MEX", "unsupported input");
    let mut id: [u8; 64] = [1; 64];
    let mut message: [u8; 64] = [1; 64];
    assert_eq!(report_error(&mut id, &mut message, &error), 1);
    assert_eq!(&id[..18], b"matlas:array:type\0");
    assert_eq!(&message[..30], b"fixed MEX: unsupported input\0\x01");
}

#[test]
fn native_counts_and_arity() {
    assert_eq!(check_native_counts(1, 2, false, false).unwrap(), (1, 2));
    assert_eq!(check_native_counts(0, 0, true, true).unwrap(), (0, 0));
    for (nlhs, nrhs, out_missing, in_missing) in
        [(-1, 0, false, false), (0, -1, false, false), (1, 0, true, false), (0, 1, false, true)]
    {
        let e = check_native_counts(nlhs, nrhs, out_missing, in_missing).unwrap_err();
        assert_eq!(e.operation, "MEX entrypoint");
        assert_eq!(e.detail, "invalid MATLAB counts or pointers");
    }
    assert!(check_arity(1, 1, 1, 1).is_ok());
    assert!(check_arity(3, 7, usize::MAX, usize::MAX).is_ok());
    let e = check_arity(1, 2, 1, 1).unwrap_err();
    assert_eq!(e.operation, "MEX inputs");
    assert_eq!(e.detail, "expected 1 inputs, got 2");
    let e = check_arity(0, 2, 1, 2).unwrap_err();
    assert_eq!(e.operation, "MEX outputs");
    assert_eq!(e.detail, "expected 1 outputs, got 0");
    assert!(check_input(true).is_ok());
    assert_eq!(check_input(false).unwrap_err().detail, "null input array");
}

#[test]
fn input_count_refusal_is_reported_with_the_default_identifier() {
    let error = check_arity(1, 0, 1, 1).unwrap_err();
    assert!(error.identifier.is_none());
    assert_eq!(error.status, None);
    assert_eq!(error.mat_error, None);
    let mut id = [0xFFu8; 64];
    let mut message = [0xFFu8; 64];
    assert_eq!(report_error(&mut id, &mut message, &error), 1);
    assert_eq!(&id[..21], b"matlas:input:invalid\0");
    assert_eq!(&message[..37], b"MEX inputs: expected 1 inputs, got 0\0");
}
