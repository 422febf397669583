use cplex::environment::create;
use cplex::environment::get_cplex;
use cplex::environment::SENTINEL_STATUS;

#[test]
fn success_returns_wrapper_with_exact_handle() {
    let r = get_cplex(0x1234_5678_9abc_def0, 0);
    match r {
        Ok(c) => assert_eq!(c.raw_handle(), 0x1234_5678_9abc_def0),
        Err(_) => panic!("status 0 must succeed"),
    }
}

#[test]
fn create_success_keeps_handle() {
    let r = create(77, Some(0));
    match r {
        Ok(c) => assert_eq!(c.raw_handle(), 77),
        Err(_) => panic!("written status 0 must succeed"),
    }
}

#[test]
fn nonzero_status_is_error_with_same_code() {
    for s in [1, -1, 42, 1217, i32::MIN, i32::MAX] {
        let r = get_cplex(5, s);
        match r {
            Ok(_) => panic!("nonzero status must fail"),
            Err(e) => assert_eq!(e.code, s),
        }
    }
}

#[test]
fn error_message_is_formatted_from_code() {
    let e = get_cplex(5, 42).unwrap_err();
    assert_eq!(e.message, "Could not open CPLEX - status 42.");
    assert!(e.message.contains("42"));
    let e = get_cplex(5, -3).unwrap_err();
    assert_eq!(e.message, "Could not open CPLEX - status -3.");
}

#[test]
fn unwritten_status_slot_reports_failure() {
    let r = create(99, None);
    match r {
        Ok(_) => panic!("an unwritten status slot must never look like success"),
        Err(e) => {
            assert_eq!(e.code, SENTINEL_STATUS);
            assert_eq!(e.message, "Could not open CPLEX - status -10.");
        },
    }
}

#[test]
fn sentinel_written_back_is_still_failure() {
    let r = create(99, Some(SENTINEL_STATUS));
    assert!(r.is_err());
    assert_eq!(r.unwrap_err().code, SENTINEL_STATUS);
}
