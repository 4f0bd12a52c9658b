use vstd::prelude::*;

verus! {

/// Outcome category that a run reports to the host.
#[derive(PartialEq, Eq, Clone, Copy, Debug, Structural)]
pub enum ResultCode {
    Return,
    Rollback,
    ContractError,
    Error,
}

impl ResultCode {
    /// The wire byte of this code.
    pub open spec fn spec_code(self) -> u8 {
        match self {
            ResultCode::Return => 0,
            ResultCode::Rollback => 1,
            ResultCode::ContractError => 2,
            ResultCode::Error => 3,
        }
    }

    /// The wire byte of this code.
    pub fn code(self) -> (r: u8)
        ensures
            r == self.spec_code(),
    {
        match self {
            ResultCode::Return => 0,
            ResultCode::Rollback => 1,
            ResultCode::ContractError => 2,
            ResultCode::Error => 3,
        }
    }

    /// The name of the code in snake case.
    pub fn str_snake_case(self) -> (r: &'static str)
        ensures
            r@ == match self {
                ResultCode::Return => "return"@,
                ResultCode::Rollback => "rollback"@,
                ResultCode::ContractError => "contract_error"@,
                ResultCode::Error => "error"@,
            },
    {
        match self {
            ResultCode::Return => "return",
            ResultCode::Rollback => "rollback",
            ResultCode::ContractError => "contract_error",
            ResultCode::Error => "error",
        }
    }

    /// The code with this wire byte, if there is one.
    pub fn try_from_u8(value: u8) -> (r: Result<ResultCode, ()>)
        ensures
            r matches Ok(c) ==> c.spec_code() == value,
            r is Err <==> value > 3,
    {
        match value {
            0 => Ok(ResultCode::Return),
            1 => Ok(ResultCode::Rollback),
            2 => Ok(ResultCode::ContractError),
            3 => Ok(ResultCode::Error),
            _ => Err(()),
        }
    }
}

/// Which state of the storage a read sees.
#[derive(PartialEq, Eq, Clone, Copy, Debug, Structural)]
pub enum StorageType {
    Default,
    LatestFinal,
    LatestNonFinal,
}

impl StorageType {
    /// The wire byte of this storage type.
    pub open spec fn spec_code(self) -> u8 {
        match self {
            StorageType::Default => 0,
            StorageType::LatestFinal => 1,
            StorageType::LatestNonFinal => 2,
        }
    }

    /// The name of the storage type in snake case.
    pub fn str_snake_case(self) -> (r: &'static str)
        ensures
            r@ == match self {
                StorageType::Default => "default"@,
                StorageType::LatestFinal => "latest_final"@,
                StorageType::LatestNonFinal => "latest_non_final"@,
            },
    {
        match self {
            StorageType::Default => "default",
            StorageType::LatestFinal => "latest_final",
            StorageType::LatestNonFinal => "latest_non_final",
        }
    }

    /// The storage type with this wire byte, if there is one.
    pub fn try_from_u8(value: u8) -> (r: Result<StorageType, ()>)
        ensures
            r matches Ok(c) ==> c.spec_code() == value,
            r is Err <==> value > 2,
    {
        match value {
            0 => Ok(StorageType::Default),
            1 => Ok(StorageType::LatestFinal),
            2 => Ok(StorageType::LatestNonFinal),
            _ => Err(()),
        }
    }
}

/// The requests that the virtual machine sends to the host.
#[derive(PartialEq, Eq, Clone, Copy, Debug, Structural)]
pub enum Methods {
    AppendCalldata,
    GetCode,
    StorageRead,
    StorageWrite,
    ConsumeResult,
    GetLeaderNondetResult,
    PostNondetResult,
    PostMessage,
    ConsumeFuel,
    DeployContract,
}

impl Methods {
    /// The wire byte of this request.
    pub open spec fn spec_code(self) -> u8 {
        match self {
            Methods::AppendCalldata => 0,
            Methods::GetCode => 1,
            Methods::StorageRead => 2,
            Methods::StorageWrite => 3,
            Methods::ConsumeResult => 4,
            Methods::GetLeaderNondetResult => 5,
            Methods::PostNondetResult => 6,
            Methods::PostMessage => 7,
            Methods::ConsumeFuel => 8,
            Methods::DeployContract => 9,
        }
    }

    /// The request with this wire byte, if there is one.
    pub fn try_from_u8(value: u8) -> (r: Result<Methods, ()>)
        ensures
            r matches Ok(m) ==> m.spec_code() == value,
            r is Err <==> value > 9,
    {
        match value {
            0 => Ok(Methods::AppendCalldata),
            1 => Ok(Methods::GetCode),
            2 => Ok(Methods::StorageRead),
            3 => Ok(Methods::StorageWrite),
            4 => Ok(Methods::ConsumeResult),
            5 => Ok(Methods::GetLeaderNondetResult),
            6 => Ok(Methods::PostNondetResult),
            7 => Ok(Methods::PostMessage),
            8 => Ok(Methods::ConsumeFuel),
            9 => Ok(Methods::DeployContract),
            _ => Err(()),
        }
    }
}

/// Why a virtual machine is entered.
#[derive(PartialEq, Eq, Clone, Copy, Debug, Structural)]
pub enum EntryKind {
    Main,
    Sandbox,
    ConsensusStage,
}

/// The wire byte of a code is the inverse of reading it back: each byte that names a code gives
/// that code, and each code's byte reads back as the same code.
pub proof fn lemma_result_code_roundtrip(c: ResultCode)
    ensures
        c.spec_code() <= 3,
        forall|d: ResultCode| d.spec_code() == c.spec_code() ==> d == c,
{
}

} // verus!
