use genvm::calldata::{Address, Value};
use genvm::errors::{ContractError, VmError};
use genvm::host::{EntryKind, StorageType};
use genvm::sdk::{
    address_from_bytes, call_contract_config, deploy_contract_data, eth_send_data, post_message_data, check_balance, gl_call_plan, guest_outcome, module_answer_value,
    nondet_config, nondet_plan, nondet_verdict, record_spend, sandbox_config, self_balance_check,
    start_nondet, storage_read_plan, storage_write_plan, SlotId, storage_read_check, storage_type_from_i64, template_answer_check, UnmatchedAnswer, storage_type_from_u64, storage_write_check, vm_result_bytes, Config,
    Errno, GlCallStep, GuestFault, GuestOutcome, Message, NondetPlan, On, Timestamp, TransformedMessage,
};
use genvm::common::GenericValue;
use genvm::interfaces::PromptAnswer;
use genvm::vm::RunOk;
use primitive_types::U256;

fn full() -> Config {
    Config {
        is_deterministic: true,
        can_read_storage: true,
        can_write_storage: true,
        can_spawn_nondet: true,
        can_call_others: true,
        can_send_messages: true,
        state_mode: StorageType::Default,
    }
}

fn message() -> TransformedMessage {
    let mut a = [0u8; 20];
    a[0] = 1;
    TransformedMessage {
        contract_address: Address::from(a),
        sender_address: Address::zero(),
        origin_address: Address::zero(),
        stack: vec![],
        chain_id: num_bigint::BigInt::from(7),
        value: num_bigint::BigInt::from(5),
        is_init: true,
        datetime: Timestamp { secs: 10, nanos: 0 },
        entry_kind: EntryKind::Main,
        entry_data: vec![1, 2],
        entry_stage_data: Value::Null,
    }
}

#[test]
fn nested_configs() {
    let c = call_contract_config(full(), StorageType::Default);
    assert!(!c.can_write_storage && c.is_deterministic);
    assert_eq!(c.state_mode, StorageType::LatestNonFinal);
    assert_eq!(call_contract_config(full(), StorageType::LatestFinal).state_mode, StorageType::LatestFinal);
    let s = sandbox_config(full(), false);
    assert!(!s.can_write_storage && !s.can_send_messages && !s.can_read_storage && !s.can_call_others);
    assert!(sandbox_config(full(), true).can_write_storage);
    let n = nondet_config();
    assert!(!n.is_deterministic && !n.can_write_storage && !n.can_send_messages && !n.can_read_storage);
}

#[test]
fn gl_call_permissions() {
    let nondet = nondet_config();
    let send = Message::EthSend { address: Address::zero(), calldata: vec![], value: U256::from(3) };
    assert_eq!(gl_call_plan(full(), &send), Ok(GlCallStep::Send { covers_value: true }));
    assert_eq!(gl_call_plan(nondet, &send), Err(Errno::Forbidden));
    let zero = Message::EthSend { address: Address::zero(), calldata: vec![], value: U256::zero() };
    assert_eq!(gl_call_plan(full(), &zero), Ok(GlCallStep::Send { covers_value: false }));
    let call = Message::CallContract { address: Address::zero(), calldata: Value::Null, state: StorageType::Default };
    assert_eq!(
        gl_call_plan(full(), &call),
        Ok(GlCallStep::CallContract { config: call_contract_config(full(), StorageType::Default) })
    );
    assert_eq!(gl_call_plan(full(), &Message::Rollback("no".into())), Ok(GlCallStep::Rollback));
    assert_eq!(gl_call_plan(nondet, &Message::Return(Value::Null)), Ok(GlCallStep::Return));
    let run = Message::RunNondet { data_leader: vec![], data_validator: vec![] };
    assert_eq!(gl_call_plan(full(), &run), Ok(GlCallStep::RunNondet));
    assert_eq!(gl_call_plan(nondet, &run), Err(Errno::Forbidden));
    let sandbox = Message::Sandbox { data: vec![], allow_write_ops: false };
    assert_eq!(gl_call_plan(full(), &sandbox), Ok(GlCallStep::Sandbox { config: sandbox_config(full(), false) }));
}

#[test]
fn emit_event_checks() {
    let blob = || vec![("a".to_string(), Value::Null), ("b".to_string(), Value::Bool(true))];
    let ok = Message::EmitEvent { name: "E".into(), indexed_fields: vec!["a".into(), "b".into()], blob: blob() };
    assert_eq!(gl_call_plan(full(), &ok), Ok(GlCallStep::EmitEvent));
    let unsorted = Message::EmitEvent { name: "E".into(), indexed_fields: vec!["b".into(), "a".into()], blob: blob() };
    assert_eq!(gl_call_plan(full(), &unsorted), Err(Errno::Inval));
    let missing = Message::EmitEvent { name: "E".into(), indexed_fields: vec!["c".into()], blob: blob() };
    assert_eq!(gl_call_plan(full(), &missing), Err(Errno::Inval));
    let many = Message::EmitEvent {
        name: "E".into(),
        indexed_fields: vec!["a".into(), "b".into(), "c".into(), "d".into(), "e".into()],
        blob: blob(),
    };
    assert_eq!(gl_call_plan(full(), &many), Err(Errno::Inval));
}

#[test]
fn balance_and_storage_checks() {
    assert_eq!(check_balance(&U256::from(5), &U256::from(5), &U256::from(10)), Ok(()));
    assert_eq!(check_balance(&U256::from(6), &U256::from(5), &U256::from(10)), Err(Errno::Inbalance));
    let mut spent = U256::from(4);
    record_spend(&mut spent, &U256::from(3));
    assert_eq!(spent, U256::from(7));
    assert_eq!(storage_read_check(full(), 0, 32), Ok(()));
    assert_eq!(storage_read_check(nondet_config(), 0, 32), Err(Errno::Forbidden));
    assert_eq!(storage_read_check(full(), u32::MAX, 2), Err(Errno::Inval));
    assert_eq!(storage_write_check(full(), 0, 1, false), Ok(()));
    assert_eq!(storage_write_check(full(), 0, 1, true), Err(Errno::Forbidden));
    assert_eq!(self_balance_check(nondet_config()), Err(Errno::Forbidden));
}

#[test]
fn nondet_plans_and_verdicts() {
    assert!(matches!(nondet_plan(None, false), NondetPlan::RunAsLeader));
    assert!(matches!(nondet_plan(None, true), NondetPlan::Fail(VmError::Other(m)) if m == "absent leader result in sync mode"));
    assert!(matches!(nondet_plan(Some(RunOk::Rollback("x".into())), true), NondetPlan::UseLeader(RunOk::Rollback(_))));
    assert!(matches!(nondet_plan(Some(RunOk::Return(vec![1])), false), NondetPlan::RunAsValidator(_)));
    assert!(matches!(nondet_verdict(None, RunOk::Return(vec![3]), 0), Ok(RunOk::Return(v)) if v == vec![3]));
    assert!(matches!(nondet_verdict(Some(RunOk::Return(vec![9])), RunOk::Return(vec![16]), 0), Ok(RunOk::Return(v)) if v == vec![9]));
    assert!(matches!(
        nondet_verdict(Some(RunOk::Return(vec![9])), RunOk::Return(vec![8]), 12),
        Err(ContractError(m, None)) if m == "validator_disagrees call 12"
    ));
}

#[test]
fn result_bytes() {
    assert_eq!(vm_result_bytes(RunOk::Return(vec![7])).ok(), Some(vec![0, 7]));
    assert_eq!(vm_result_bytes(RunOk::Rollback("ab".into())).ok(), Some(vec![1, b'a', b'b']));
    assert!(matches!(vm_result_bytes(RunOk::ContractError("e".into(), None)), Err(ContractError(m, None)) if m == "e"));
}

#[test]
fn message_forks() {
    let m = message();
    let f = m.fork(EntryKind::Sandbox, vec![9]);
    assert!(!f.is_init);
    assert_eq!(f.entry_kind, EntryKind::Sandbox);
    assert_eq!(f.entry_data, vec![9]);
    assert_eq!(f.chain_id, num_bigint::BigInt::from(7));
    assert!(matches!(f.entry_stage_data, Value::Null));
    let l = m.fork_leader(EntryKind::ConsensusStage, vec![], Some(RunOk::Return(vec![5])));
    match l.entry_stage_data {
        Value::Dict(d) => {
            assert_eq!(d[0].0, "leaders_result");
            assert!(matches!(&d[0].1, Value::Bytes(b) if *b == vec![0, 5]));
        }
        _ => panic!("no leader data"),
    }
    let target = Address::from([2u8; 20]);
    let c = m.call_contract_message(target, vec![4]);
    assert_eq!(c.contract_address, target);
    assert_eq!(c.stack, vec![m.contract_address]);
    assert_eq!(c.value, num_bigint::BigInt::from(0));
}

#[test]
fn storage_type_numbers() {
    assert_eq!(storage_type_from_u64(1), Ok(StorageType::LatestFinal));
    assert_eq!(storage_type_from_u64(300), Err(()));
    assert_eq!(storage_type_from_i64(-1), Err(()));
    assert_eq!(storage_type_from_i64(2), Ok(StorageType::LatestNonFinal));
}

#[test]
fn memory_faults() {
    assert_eq!(guest_outcome(&GuestFault::PtrOutOfBounds), GuestOutcome::Trap);
    assert_eq!(guest_outcome(&GuestFault::InvalidUtf8), GuestOutcome::Code(Errno::Ilseq));
    assert_eq!(guest_outcome(&GuestFault::InFunc(Box::new(GuestFault::TryFromIntError))), GuestOutcome::Code(Errno::Overflow));
    assert_eq!(guest_outcome(&GuestFault::InvalidEnumValue), GuestOutcome::Code(Errno::Inval));
}

#[test]
fn addresses_and_answers() {
    let a = address_from_bytes(&[1, 2, 3]);
    let mut want = [0u8; 20];
    want[..3].copy_from_slice(&[1, 2, 3]);
    assert_eq!(a.raw(), want);
    assert_eq!(address_from_bytes(&[7u8; 25]).raw(), [7u8; 20]);
    match module_answer_value(Err(Value::Str("bad".into()))) {
        Value::Dict(d) => assert_eq!(d[0].0, "error"),
        _ => panic!("not a dict"),
    }
}

#[test]
fn message_data_texts() {
    let v = U256::from(255u64);
    assert_eq!(eth_send_data(&U256::zero()), r#"{"value":"0x0"}"#);
    assert_eq!(post_message_data(&v, On::Accepted), r#"{"on":"accepted","value":"0xff"}"#);
    assert_eq!(
        deploy_contract_data(&v, On::Finalized, &U256::from(4096u64)),
        r#"{"on":"finalized","salt_nonce":"0x1000","value":"0xff"}"#
    );
}

#[test]
fn template_answers_must_match_the_template() {
    assert!(matches!(template_answer_check(true, Ok(PromptAnswer::Bool(true))), Ok(Ok(PromptAnswer::Bool(true)))));
    assert!(matches!(template_answer_check(false, Ok(PromptAnswer::Text("t".into()))), Ok(Ok(PromptAnswer::Text(t))) if t == "t"));
    assert!(matches!(template_answer_check(true, Ok(PromptAnswer::Text("t".into()))), Err(UnmatchedAnswer)));
    assert!(matches!(template_answer_check(false, Ok(PromptAnswer::Object(vec![]))), Err(UnmatchedAnswer)));
    assert!(matches!(template_answer_check(true, Err(GenericValue::Null)), Ok(Err(GenericValue::Null))));
}

#[test]
fn balance_check_refuses_an_overflowing_total() {
    assert_eq!(check_balance(&U256::MAX, &U256::from(1), &U256::MAX), Err(Errno::Inbalance));
    assert_eq!(check_balance(&U256::MAX, &U256::zero(), &U256::MAX), Ok(()));
}

#[test]
fn nondet_call_counter() {
    let mut counter = 7u32;
    let mut conf = full();
    conf.can_spawn_nondet = false;
    assert!(matches!(start_nondet(conf, &mut counter), Err(Errno::Forbidden)));
    assert_eq!(counter, 7);
    let (no, c) = start_nondet(full(), &mut counter).ok().unwrap();
    assert_eq!(no, 7);
    assert_eq!(counter, 8);
    assert!(!c.is_deterministic && !c.can_write_storage && !c.can_read_storage);
    let mut top = u32::MAX;
    assert_eq!(start_nondet(full(), &mut top).ok().unwrap().0, u32::MAX);
    assert_eq!(top, 0);
}

#[test]
fn storage_plans_target_the_own_account() {
    let m = message();
    let me = m.contract_address;
    let slot = SlotId([1u8; 32]);
    let w = storage_write_plan(full(), &m, slot, 4, vec![9, 9], &vec![SlotId([2u8; 32])]).ok().unwrap();
    assert_eq!(w.account, me);
    assert_eq!(w.slot.0, [1u8; 32]);
    assert_eq!((w.index, w.data), (4, vec![9, 9]));
    assert!(matches!(storage_write_plan(full(), &m, slot, 4, vec![9], &vec![slot]), Err(Errno::Forbidden)));
    assert!(matches!(storage_write_plan(full(), &m, slot, u32::MAX, vec![9], &vec![]), Err(Errno::Inval)));
    let r = storage_read_plan(full(), &m, slot, 0, 32).ok().unwrap();
    assert_eq!((r.account, r.index, r.len), (me, 0, 32));
    let mut conf = full();
    conf.is_deterministic = false;
    assert!(matches!(storage_read_plan(conf, &m, slot, 0, 32), Err(Errno::Forbidden)));
}
