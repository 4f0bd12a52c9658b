use genvm::host::{EntryKind, Methods, ResultCode, StorageType};

#[test]
fn result_code_bytes_and_names() {
    assert_eq!(ResultCode::Return.code(), 0);
    assert_eq!(ResultCode::Rollback.code(), 1);
    assert_eq!(ResultCode::ContractError.code(), 2);
    assert_eq!(ResultCode::Error.code(), 3);
    assert_eq!(ResultCode::ContractError.str_snake_case(), "contract_error");
    assert_eq!(ResultCode::try_from_u8(1), Ok(ResultCode::Rollback));
    assert_eq!(ResultCode::try_from_u8(4), Err(()));
}

#[test]
fn result_code_roundtrip_on_every_code() {
    for c in [ResultCode::Return, ResultCode::Rollback, ResultCode::ContractError, ResultCode::Error] {
        assert_eq!(ResultCode::try_from_u8(c.code()), Ok(c));
    }
}

#[test]
fn storage_type_bytes_and_names() {
    assert_eq!(StorageType::try_from_u8(0), Ok(StorageType::Default));
    assert_eq!(StorageType::try_from_u8(2), Ok(StorageType::LatestNonFinal));
    assert_eq!(StorageType::try_from_u8(3), Err(()));
    assert_eq!(StorageType::LatestFinal.str_snake_case(), "latest_final");
}

#[test]
fn method_bytes() {
    assert_eq!(Methods::try_from_u8(0), Ok(Methods::AppendCalldata));
    assert_eq!(Methods::try_from_u8(9), Ok(Methods::DeployContract));
    assert_eq!(Methods::try_from_u8(10), Err(()));
    assert_ne!(EntryKind::Main, EntryKind::Sandbox);
}
