use genvm::errors::{ContractError, VmError};
use genvm::vm::RunOk;

#[test]
fn contract_errors() {
    let o = ContractError::oom(None);
    assert_eq!(o.0, "OOM");
    assert!(o.1.is_none());
    let w = ContractError::wrap("ctx".into(), VmError::Other("x".into()));
    assert_eq!(w.0, "ctx");
    assert!(matches!(w.1.as_deref(), Some(VmError::Other(m)) if m == "x"));
    let inner = ContractError::wrap("ctx".into(), VmError::Contract(ContractError("inner".into(), None)));
    assert_eq!(inner.0, "inner");
    assert!(matches!(
        ContractError::unwrap_res(Err(VmError::Contract(ContractError("c".into(), None)))),
        Ok(RunOk::ContractError(m, None)) if m == "c"
    ));
    assert!(matches!(ContractError::unwrap_res(Err(VmError::Trap("t".into()))), Err(VmError::Trap(_))));
}

#[test]
fn error_texts() {
    assert_eq!(genvm::errors::ContractError::oom(None).to_string(), "VMError(OOM)");
    assert_eq!(genvm::errors::UserError("a\"b".into()).to_string(), "UserError(\"a\\\"b\")");
}
