use genvm::errors::VmError;
use genvm::exe::{make_cookie, permissions_valid, printed_result, PrintOption, RunFailure};
use genvm::vm::RunOk;

#[test]
fn permission_strings() {
    assert!(permissions_valid("rwscn"));
    assert!(permissions_valid("nr"));
    assert!(permissions_valid(""));
    assert!(!permissions_valid("rr"));
    assert!(!permissions_valid("rx"));
    assert!(!permissions_valid("é"));
}

#[test]
fn cookies() {
    assert_eq!(make_cookie(Some("given".into()), &[1, 2]), "given");
    assert_eq!(make_cookie(None, &[0x0a, 0xff, 0x00, 0x10]), "aff010");
    assert_eq!(PrintOption::Quiet.name(), "none");
    assert_eq!(PrintOption::Shrink.name(), "shrink");
}

#[test]
fn printed_results() {
    let err = RunFailure { display: "boom".into(), trap: None };
    assert_eq!(printed_result(&Err(err), PrintOption::All), Some("Error(boom)".to_string()));
    let trap = RunFailure { display: "x".into(), trap: Some("Trap(oob)".into()) };
    assert_eq!(printed_result(&Err(trap), PrintOption::Shrink), Some("Error(\"Trap(oob)\")".to_string()));
    let plain = RunFailure { display: "x".into(), trap: None };
    assert_eq!(printed_result(&Err(plain), PrintOption::Shrink), Some("Error(\"\")".to_string()));
    let ce = Ok(RunOk::ContractError("bad".into(), Some(Box::new(VmError::Other("why".into())))));
    assert_eq!(printed_result(&ce, PrintOption::Shrink), Some("ContractError(\"bad\")".to_string()));
    assert_eq!(printed_result(&Ok(RunOk::Rollback("r".into())), PrintOption::All), Some("Rollback(\"r\")".to_string()));
    assert_eq!(printed_result(&Ok(RunOk::Return(vec![0])), PrintOption::Quiet), None);
}
