use matlas::{ErrorKind, PersistentArray, Runtime};

#[test]
fn invocation_is_refused_while_borrowed() {
    let mut runtime: Runtime<u64> = Runtime::new();
    assert!(runtime.begin_invocation().is_ok());
    runtime.begin_external_borrow();
    let error = runtime.begin_invocation().unwrap_err();
    assert_eq!(error.kind, ErrorKind::Busy);
    assert_eq!(error.operation, "enter MEX function");
    assert!(runtime.is_borrowed());
    assert!(runtime.end_external_borrow().is_empty());
    assert!(!runtime.is_borrowed());
    assert!(runtime.begin_invocation().is_ok());
    assert!(runtime.end_invocation().is_empty());
    assert!(runtime.end_invocation().is_empty());
}

#[test]
fn destruction_waits_for_the_last_borrow() {
    let mut runtime: Runtime<u64> = Runtime::new();
    assert_eq!(runtime.destroy_or_defer(7), Some(7));
    runtime.begin_external_borrow();
    runtime.begin_external_borrow();
    assert_eq!(runtime.destroy_or_defer(1), None);
    assert_eq!(runtime.destroy_or_defer(2), None);
    assert!(runtime.end_external_borrow().is_empty());
    assert_eq!(runtime.destroy_or_defer(3), None);
    assert_eq!(runtime.end_external_borrow(), vec![1, 2, 3]);
    assert!(!runtime.is_borrowed());
    assert_eq!(runtime.destroy_or_defer(4), Some(4));
}

#[test]
fn nested_invocations_keep_deferred_arrays_until_the_borrow_ends() {
    let mut runtime: Runtime<u64> = Runtime::new();
    assert!(runtime.begin_invocation().is_ok());
    runtime.begin_external_borrow();
    assert_eq!(runtime.destroy_or_defer(5), None);
    assert!(runtime.end_invocation().is_empty());
    assert_eq!(runtime.end_external_borrow(), vec![5]);
    assert!(runtime.begin_invocation().is_ok());
    assert!(runtime.end_invocation().is_empty());
}

#[test]
fn persistent_keys_resolve_until_removed() {
    let mut runtime: Runtime<u64> = Runtime::new();
    assert_eq!(runtime.begin_persist().unwrap(), true);
    assert!(runtime.record_exit_hook(0).is_ok());
    assert_eq!(runtime.begin_persist().unwrap(), false);
    let first: PersistentArray<'_> = runtime.insert_persistent(100);
    let second: PersistentArray<'_> = runtime.insert_persistent(200);
    assert_eq!(first.as_ref(&runtime).unwrap(), 100);
    assert_eq!(second.as_ref(&runtime).unwrap(), 200);
    assert_eq!(first.remove(&mut runtime).unwrap(), 100);
    assert_eq!(second.as_ref(&runtime).unwrap(), 200);
    let third: PersistentArray<'_> = runtime.insert_persistent(300);
    assert_eq!(third.as_ref(&runtime).unwrap(), 300);
    assert_eq!(runtime.lookup(0, 1).unwrap_err().detail, "stale key");
    assert_eq!(runtime.lookup(0, 3).unwrap(), 300);
    assert_eq!(runtime.lookup(1, 2).unwrap(), 200);
    let stale = runtime.lookup(9, 2).unwrap_err();
    assert_eq!(stale.kind, ErrorKind::InvalidInput);
    assert_eq!(stale.operation, "persistent array");
}

#[test]
fn removal_is_refused_while_borrowed() {
    let mut runtime: Runtime<u64> = Runtime::new();
    let key = runtime.insert_persistent(42);
    runtime.begin_external_borrow();
    assert_eq!(runtime.begin_persist().unwrap_err().kind, ErrorKind::Busy);
    let error = runtime.remove_persistent(0, 1).unwrap_err();
    assert_eq!(error.kind, ErrorKind::Busy);
    assert_eq!(error.operation, "remove persistent array");
    assert_eq!(key.as_ref(&runtime).unwrap(), 42);
    assert!(runtime.end_external_borrow().is_empty());
    assert_eq!(runtime.remove_persistent(0, 1).unwrap(), 42);
    assert_eq!(runtime.remove_persistent(0, 1).unwrap_err().kind, ErrorKind::InvalidInput);
}

#[test]
fn exit_hook_status_is_recorded() {
    let mut runtime: Runtime<u64> = Runtime::new();
    let error = runtime.record_exit_hook(3).unwrap_err();
    assert_eq!(error.kind, ErrorKind::Native);
    assert_eq!(error.operation, "register MEX cleanup");
    assert_eq!(error.status, Some(3));
    assert_eq!(runtime.begin_persist().unwrap(), true);
}

#[test]
fn module_exit_releases_everything() {
    let mut runtime: Runtime<u64> = Runtime::new();
    assert!(runtime.record_exit_hook(0).is_ok());
    let a = runtime.insert_persistent(10);
    let _b = runtime.insert_persistent(20);
    let _c = runtime.insert_persistent(30);
    assert_eq!(a.remove(&mut runtime).unwrap(), 10);
    runtime.begin_external_borrow();
    assert_eq!(runtime.destroy_or_defer(99), None);
    assert_eq!(runtime.at_exit(), vec![20, 30, 99]);
    assert_eq!(runtime.lookup(1, 2).unwrap_err().kind, ErrorKind::InvalidInput);
    assert_eq!(runtime.begin_persist().unwrap_err().kind, ErrorKind::Busy);
    assert!(runtime.end_external_borrow().is_empty());
    assert_eq!(runtime.begin_persist().unwrap(), true);
}

#[test]
fn freed_slots_are_reused_with_fresh_generations() {
    let mut runtime: Runtime<u64> = Runtime::new();
    let a = runtime.insert_persistent(1);
    let _b = runtime.insert_persistent(2);
    assert_eq!(runtime.remove_persistent(0, 1).unwrap(), 1);
    let c = runtime.insert_persistent(3);
    assert_eq!(c.as_ref(&runtime).unwrap(), 3);
    assert!(a.as_ref(&runtime).is_err());
    assert_eq!(runtime.lookup(0, 3).unwrap(), 3);
    assert!(runtime.lookup(0, 1).is_err());
}

#[test]
fn require_unborrowed_names_the_operation() {
    let mut runtime: Runtime<u64> = Runtime::new();
    assert!(runtime.require_unborrowed("call MATLAB").is_ok());
    runtime.begin_external_borrow();
    let error = runtime.require_unborrowed("call MATLAB").unwrap_err();
    assert_eq!(error.kind, ErrorKind::Busy);
    assert_eq!(error.operation, "call MATLAB");
    assert_eq!(error.detail, "MATLAB-owned data is currently borrowed");
}
