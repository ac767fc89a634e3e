use matlas::mex::{
    added_field, allocation_size, call_fallback, callback_error, check_call_counts,
    check_conversion, check_found, check_no_nul, check_print_status, check_property_index,
    check_status, collect_outputs, field_number_from, outputs_into_array, unknown_field,
    MAX_CALL_ARGUMENTS,
};
use matlas::{ErrorKind, Inputs, Matlab, Outputs, Workspace};

#[test]
fn workspace_names() {
    assert_eq!(Workspace::Caller.name(), "caller");
    assert_eq!(Workspace::Global.name(), "global");
    assert_eq!(Workspace::Base.name(), "base");
    let mut matlab = Matlab::new();
    let scope = matlab.workspace_scope(Workspace::Global);
    assert_eq!(scope.workspace(), Workspace::Global);
}

#[test]
fn inputs_are_read_in_order() {
    let inputs: Inputs<u32, { usize::MAX }> = Inputs::new(vec![4, 5, 6]);
    assert_eq!(inputs.len(), 3);
    assert!(!inputs.is_empty());
    assert_eq!(inputs.get(1), Some(5));
    assert_eq!(inputs.get(3), None);
    assert_eq!(inputs.iter(), vec![4, 5, 6]);
    assert_eq!(inputs.require::<3>().unwrap(), [4, 5, 6]);
    let error = inputs.require::<2>().unwrap_err();
    assert_eq!(error.kind, ErrorKind::InvalidInput);
    assert_eq!(error.operation, "MEX inputs");
    assert_eq!(error.detail, "expected 2 inputs, got 3");
    let empty: Inputs<u32, { usize::MAX }> = Inputs::new(Vec::new());
    assert!(empty.is_empty());
}

#[test]
fn fixed_inputs_destructure() {
    let inputs: Inputs<u8, 2> = Inputs::new(vec![1, 2]);
    let [a, b] = inputs.into_array();
    assert_eq!((a, b), (1, 2));
}

#[test]
fn outputs_accept_each_slot_once() {
    let mut outputs: Outputs<String, { usize::MAX }> = Outputs::new(2);
    assert_eq!(outputs.len(), 2);
    assert!(!outputs.is_empty());
    assert!(outputs.require_len(2).is_ok());
    let error = outputs.require_len(1).unwrap_err();
    assert_eq!(error.operation, "MEX outputs");
    assert_eq!(error.detail, "expected 1 outputs, got 2");
    assert!(outputs.set(0, "a".to_string()).is_ok());
    let again = outputs.set(0, "b".to_string()).unwrap_err();
    assert_eq!(again.kind, ErrorKind::InvalidInput);
    assert_eq!(again.detail, "output slot already set");
    let outside = outputs.set(2, "c".to_string()).unwrap_err();
    assert_eq!(outside.kind, ErrorKind::Bounds);
    assert_eq!(outside.detail, "index 2 is outside length 2");
    assert_eq!(outputs.take(0).unwrap(), Some("a".to_string()));
    assert_eq!(outputs.take(0).unwrap(), None);
    assert_eq!(outputs.take(1).unwrap(), None);
    assert_eq!(outputs.take(5).unwrap_err().operation, "take output");
    assert!(outputs.set(0, "d".to_string()).is_ok());
    let none: Outputs<String, 0> = Outputs::new(0);
    assert!(none.is_empty());
}

#[test]
fn callback_counts_are_limited() {
    assert_eq!(MAX_CALL_ARGUMENTS, 50);
    assert!(check_call_counts(50, 50).is_ok());
    assert!(check_call_counts(0, 0).is_ok());
    let error = check_call_counts(51, 0).unwrap_err();
    assert_eq!(error.kind, ErrorKind::InvalidInput);
    assert_eq!(error.operation, "call MATLAB");
    assert!(check_call_counts(0, 51).is_err());
}

#[test]
fn callback_outputs_are_collected() {
    assert_eq!(collect_outputs(vec![Some(1), Some(2)]).unwrap(), vec![1, 2]);
    let error = collect_outputs(vec![Some(1), None, Some(3)]).unwrap_err();
    assert_eq!(error.kind, ErrorKind::Callback);
    assert_eq!(error.operation, "call MATLAB");
    assert_eq!(error.detail, "MATLAB returned a null output");
    assert!(collect_outputs::<u8>(Vec::new()).unwrap().is_empty());
    assert_eq!(outputs_into_array::<u8, 2>(vec![7, 8]).unwrap(), [7, 8]);
    let error = outputs_into_array::<u8, 2>(vec![7]).unwrap_err();
    assert_eq!(error.kind, ErrorKind::Native);
    assert_eq!(error.detail, "unexpected output count");
}

#[test]
fn callback_errors_carry_exception_details() {
    let fallback = call_fallback(b"disp");
    assert_eq!(fallback, "\"disp\" failed without exception details");
    let e = callback_error(
        "call MATLAB",
        Some("MATLAB:undefined".to_string()),
        Some("Undefined function".to_string()),
        fallback.clone(),
    );
    assert_eq!(e.kind, ErrorKind::Callback);
    assert_eq!(e.detail, "MATLAB:undefined: Undefined function");
    let e = callback_error("call MATLAB", Some(String::new()), Some("msg".to_string()), fallback.clone());
    assert_eq!(e.detail, "msg");
    let e = callback_error("call MATLAB", None, Some("msg".to_string()), fallback.clone());
    assert_eq!(e.detail, "msg");
    let e = callback_error("eval", Some("id:x".to_string()), None, fallback);
    assert_eq!(e.detail, "\"disp\" failed without exception details");
    assert_eq!(e.operation, "eval");
}

#[test]
fn nul_is_rejected() {
    assert!(check_no_nul("plain", "name", "contains NUL").is_ok());
    let error = check_no_nul("a\0b", "name", "contains NUL").unwrap_err();
    assert_eq!(error.kind, ErrorKind::InvalidInput);
    assert_eq!(error.operation, "name");
    assert_eq!(error.detail, "contains NUL");
    assert!(check_no_nul("", "name", "contains NUL").is_ok());
}

#[test]
fn native_statuses_map_to_errors() {
    assert!(check_status("put variable", 0).is_ok());
    let e = check_status("put variable", 1).unwrap_err();
    assert_eq!(e.kind, ErrorKind::Native);
    assert_eq!(e.status, Some(1));
    assert!(check_print_status(0).is_ok());
    assert!(check_print_status(12).is_ok());
    assert_eq!(check_print_status(-1).unwrap_err().operation, "printf");
    assert!(check_conversion("make complex", 1).is_ok());
    assert_eq!(check_conversion("make complex", 0).unwrap_err().status, Some(0));
}

#[test]
fn lookups_and_fields() {
    assert!(check_found(true, ErrorKind::Workspace, "get variable", b"x").is_ok());
    let e = check_found(false, ErrorKind::Workspace, "get variable", b"x").unwrap_err();
    assert_eq!(e.kind, ErrorKind::Workspace);
    assert_eq!(e.detail, "\"x\"");
    assert_eq!(field_number_from(3), Some(3));
    assert_eq!(field_number_from(-1), None);
    assert_eq!(added_field(0, b"f").unwrap(), 0);
    let e = added_field(-1, b"f").unwrap_err();
    assert_eq!(e.operation, "add field");
    assert_eq!(e.detail, "\"f\"");
    let e = unknown_field(b"g", false);
    assert_eq!(e.operation, "field");
    assert_eq!(e.detail, "unknown field \"g\"");
    let e = unknown_field(b"g", true);
    assert_eq!(e.operation, "replace field");
    assert_eq!(e.detail, "unknown field");
}

#[test]
fn buffers_and_property_indices() {
    assert_eq!(allocation_size(0), 1);
    assert_eq!(allocation_size(17), 17);
    assert!(check_property_index(0, 1).is_ok());
    let e = check_property_index(1, 1).unwrap_err();
    assert_eq!(e.kind, ErrorKind::Bounds);
    assert_eq!(e.detail, "index 1 is outside length 1");
}

#[test]
fn converted_text_must_be_present() {
    assert!(matlas::mex::check_converted_text(true, "convert UTF-8").is_ok());
    let e = matlas::mex::check_converted_text(false, "convert local string").unwrap_err();
    assert_eq!(e.kind, ErrorKind::Native);
    assert_eq!(e.operation, "convert local string");
    assert_eq!(e.detail, "MATLAB returned a null string");
}
