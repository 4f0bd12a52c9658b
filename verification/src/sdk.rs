use primitive_types::U256;
use vstd::prelude::*;
use vstd::utf8::encode_utf8;

use crate::calldata::{Address, Value};
use crate::errors::ContractError;
use crate::host::{EntryKind, StorageType};
use crate::interfaces::{PromptPayload, PromptTemplatePayload, RenderPayload, RequestPayload};
use crate::errors::VmError;
use crate::text::{nat_decimal, nat_hex, u32_to_decimal};
use crate::vm::RunOk;

verus! {

#[verifier::external_type_specification]
#[verifier::external_body]
pub struct ExU256(primitive_types::U256);

/// The numeric value of a 256-bit unsigned integer.
pub uninterp spec fn u256_value(x: primitive_types::U256) -> nat;

/// One more than the largest 256-bit unsigned integer.
pub open spec fn u256_limit() -> nat {
    vstd::arithmetic::power2::pow2(256)
}

/// Calls `U256::is_zero`.
#[verifier::external_body]
pub(crate) fn u256_is_zero(x: &U256) -> (r: bool)
    ensures
        r == (u256_value(*x) == 0),
{
    x.is_zero()
}

/// Calls `U256::checked_add`, which gives the sum unless it does not fit in 256 bits.
#[verifier::external_body]
pub(crate) fn u256_checked_add(a: U256, b: U256) -> (r: Option<U256>)
    ensures
        r is None <==> u256_value(a) + u256_value(b) >= u256_limit(),
        r matches Some(c) ==> u256_value(c) == u256_value(a) + u256_value(b),
{
    a.checked_add(b)
}

/// Compares two 256-bit unsigned integers with `>`.
#[verifier::external_body]
pub(crate) fn u256_gt(a: &U256, b: &U256) -> (r: bool)
    ensures
        r == (u256_value(*a) > u256_value(*b)),
{
    a > b
}

/// Calls `format!("{:x}", x)` on a `U256`, whose `LowerHex` writes the value in lowercase
/// hexadecimal without leading zeros, and `0` for zero.
#[verifier::external_body]
pub(crate) fn u256_lower_hex(x: &U256) -> (r: String)
    ensures
        r@ == nat_hex(u256_value(*x)),
{
    format!("{:x}", x)
}

/// The numeric value of a big integer.
pub uninterp spec fn bigint_value(b: num_bigint::BigInt) -> int;

/// Calls `BigInt::clone`, which gives an equal value.
#[verifier::external_body]
pub(crate) fn bigint_clone(b: &num_bigint::BigInt) -> (r: num_bigint::BigInt)
    ensures
        r == *b,
{
    b.clone()
}

/// Reads `BigInt::ZERO`.
#[verifier::external_body]
pub(crate) fn bigint_zero() -> (r: num_bigint::BigInt)
    ensures
        bigint_value(r) == 0,
{
    num_bigint::BigInt::ZERO
}

/// A point in time in UTC: seconds since the Unix epoch and the nanoseconds within the second.
#[derive(Clone, Copy, PartialEq, Eq, Debug, Structural)]
pub struct Timestamp {
    pub secs: i64,
    pub nanos: u32,
}

/// When a message to another contract is to be delivered.
#[derive(Clone, Copy, PartialEq, Eq, Debug, Structural)]
pub enum On {
    Finalized,
    Accepted,
}

/// What a virtual machine may do.
#[derive(Clone, Copy, PartialEq, Eq, Debug, Structural)]
pub struct Config {
    pub is_deterministic: bool,
    pub can_read_storage: bool,
    pub can_write_storage: bool,
    pub can_spawn_nondet: bool,
    pub can_call_others: bool,
    pub can_send_messages: bool,
    pub state_mode: StorageType,
}

/// The error codes that a host call hands back to the guest.
#[derive(Clone, Copy, PartialEq, Eq, Debug, Structural)]
pub enum Errno {
    Inval,
    Forbidden,
    Inbalance,
    Overflow,
    Fault,
    Ilseq,
}

/// A request that a contract makes through `gl_call`.
#[allow(inconsistent_fields)]
pub enum Message {
    EthSend { address: Address, calldata: Vec<u8>, value: U256 },
    EthCall { address: Address, calldata: Vec<u8> },
    CallContract { address: Address, calldata: Value, state: StorageType },
    PostMessage { address: Address, calldata: Value, value: U256, on: On },
    DeployContract { calldata: Value, code: Vec<u8>, value: U256, on: On, salt_nonce: U256 },
    RunNondet { data_leader: Vec<u8>, data_validator: Vec<u8> },
    Sandbox { data: Vec<u8>, allow_write_ops: bool },
    WebRender(RenderPayload),
    WebRequest(RequestPayload),
    ExecPrompt(PromptPayload),
    ExecPromptTemplate(PromptTemplatePayload),
    Rollback(String),
    Return(Value),
    EmitEvent { name: String, indexed_fields: Vec<String>, blob: Vec<(String, Value)> },
}

/// The message that a virtual machine runs for.
pub struct TransformedMessage {
    pub contract_address: Address,
    pub sender_address: Address,
    pub origin_address: Address,
    pub stack: Vec<Address>,
    pub chain_id: num_bigint::BigInt,
    pub value: num_bigint::BigInt,
    pub is_init: bool,
    pub datetime: Timestamp,
    pub entry_kind: EntryKind,
    pub entry_data: Vec<u8>,
    pub entry_stage_data: Value,
}

/// The stage data of an entry that has none.
pub fn default_entry_stage_data() -> (r: Value)
    ensures
        r is Null,
{
    Value::Null
}

fn copy_addresses(v: &Vec<Address>) -> (r: Vec<Address>)
    ensures
        r@ == v@,
{
    let mut r: Vec<Address> = Vec::new();
    let mut i: usize = 0;
    while i < v.len()
        invariant
            0 <= i <= v@.len(),
            r@ == v@.take(i as int),
        decreases v@.len() - i,
    {
        r.push(v[i]);
        assert(v@.take(i + 1) =~= v@.take(i as int).push(v@[i as int]));
        i = i + 1;
    }
    assert(v@.take(i as int) =~= v@);
    r
}

impl TransformedMessage {
    /// The same message entered anew for `entry_kind` with `entry_data`; a validator also gets
    /// the leader's result, as the bytes sent to the host, under `leaders_result`.
    pub fn fork_leader(
        &self,
        entry_kind: EntryKind,
        entry_data: Vec<u8>,
        entry_leader_data: Option<RunOk>,
    ) -> (r: TransformedMessage)
        ensures
            r.contract_address == self.contract_address,
            r.sender_address == self.sender_address,
            r.origin_address == self.origin_address,
            r.stack@ == self.stack@,
            r.chain_id == self.chain_id,
            r.value == self.value,
            r.is_init == false,
            r.datetime == self.datetime,
            r.entry_kind == entry_kind,
            r.entry_data == entry_data,
            match entry_leader_data {
                None => r.entry_stage_data is Null,
                Some(leader) => r.entry_stage_data matches Value::Dict(entries) && entries@.len() == 1
                    && entries@[0].0@ == "leaders_result"@ && (entries@[0].1 matches Value::Bytes(b)
                    && b@ == leader.spec_bytes()),
            },
    {
        let entry_stage_data = match entry_leader_data {
            None => default_entry_stage_data(),
            Some(leader) => {
                let bytes = leader.as_bytes_iter();
                let mut entries: Vec<(String, Value)> = Vec::new();
                entries.push((String::from_str("leaders_result"), Value::Bytes(bytes)));
                Value::Dict(entries)
            },
        };
        TransformedMessage {
            contract_address: self.contract_address,
            sender_address: self.sender_address,
            origin_address: self.origin_address,
            stack: copy_addresses(&self.stack),
            chain_id: bigint_clone(&self.chain_id),
            value: bigint_clone(&self.value),
            is_init: false,
            datetime: self.datetime,
            entry_kind,
            entry_data,
            entry_stage_data,
        }
    }

    /// The same message entered anew for `entry_kind` with `entry_data`.
    pub fn fork(&self, entry_kind: EntryKind, entry_data: Vec<u8>) -> (r: TransformedMessage)
        ensures
            r.contract_address == self.contract_address,
            r.sender_address == self.sender_address,
            r.origin_address == self.origin_address,
            r.stack@ == self.stack@,
            r.chain_id == self.chain_id,
            r.value == self.value,
            r.is_init == false,
            r.datetime == self.datetime,
            r.entry_kind == entry_kind,
            r.entry_data == entry_data,
            r.entry_stage_data is Null,
    {
        self.fork_leader(entry_kind, entry_data, None)
    }

    /// The message under which a called contract runs: this contract is pushed on the stack, the
    /// callee becomes the contract, no value is sent, and the encoded calldata is the entry.
    pub fn call_contract_message(&self, address: Address, calldata_encoded: Vec<u8>) -> (r:
        TransformedMessage)
        ensures
            r.contract_address == address,
            r.sender_address == self.sender_address,
            r.origin_address == self.origin_address,
            r.stack@ == self.stack@.push(self.contract_address),
            r.chain_id == self.chain_id,
            bigint_value(r.value) == 0,
            r.is_init == false,
            r.datetime == self.datetime,
            r.entry_kind == EntryKind::Main,
            r.entry_data == calldata_encoded,
            r.entry_stage_data is Null,
    {
        let mut my_data = self.fork(EntryKind::Main, calldata_encoded);
        my_data.stack.push(my_data.contract_address);
        TransformedMessage {
            contract_address: address,
            sender_address: my_data.sender_address,
            origin_address: my_data.origin_address,
            value: bigint_zero(),
            is_init: false,
            datetime: my_data.datetime,
            chain_id: my_data.chain_id,
            entry_kind: my_data.entry_kind,
            entry_data: my_data.entry_data,
            entry_stage_data: default_entry_stage_data(),
            stack: my_data.stack,
        }
    }
}


/// Byte-wise lexicographic order, which is how strings are ordered.
pub open spec fn bytes_le(a: Seq<u8>, b: Seq<u8>) -> bool
    decreases a.len(),
{
    if a.len() == 0 {
        true
    } else if b.len() == 0 {
        false
    } else if a[0] < b[0] {
        true
    } else if a[0] > b[0] {
        false
    } else {
        bytes_le(a.drop_first(), b.drop_first())
    }
}

/// Whether the names are in ascending order.
pub open spec fn names_sorted(v: Seq<String>) -> bool {
    forall|i: int| 0 <= i < v.len() - 1 ==> bytes_le(encode_utf8(#[trigger] v[i]@), encode_utf8(v[i + 1]@))
}

/// Whether some entry of the blob carries the name `k`.
pub open spec fn blob_has_key(blob: Seq<(String, Value)>, k: Seq<char>) -> bool {
    exists|j: int| 0 <= j < blob.len() && #[trigger] blob[j].0@ == k
}

/// Whether every indexed field of an event names an entry of its blob.
pub open spec fn fields_in_blob(fields: Seq<String>, blob: Seq<(String, Value)>) -> bool {
    forall|i: int| 0 <= i < fields.len() ==> blob_has_key(blob, #[trigger] fields[i]@)
}

/// Compares two strings as the standard order of strings does.
pub fn str_le(a: &str, b: &str) -> (r: bool)
    ensures
        r == bytes_le(encode_utf8(a@), encode_utf8(b@)),
{
    let x = a.as_bytes();
    let y = b.as_bytes();
    let mut i: usize = 0;
    assert(x@.skip(0) =~= x@);
    assert(y@.skip(0) =~= y@);
    while i < x.len() && i < y.len() && x[i] == y[i]
        invariant
            0 <= i <= x@.len(),
            i <= y@.len(),
            x@ == encode_utf8(a@),
            y@ == encode_utf8(b@),
            bytes_le(x@.skip(i as int), y@.skip(i as int)) == bytes_le(x@, y@),
        decreases x@.len() - i,
    {
        assert(x@.skip(i as int).drop_first() =~= x@.skip(i + 1));
        assert(y@.skip(i as int).drop_first() =~= y@.skip(i + 1));
        i = i + 1;
    }
    if i == x.len() {
        true
    } else if i == y.len() {
        false
    } else {
        x[i] < y[i]
    }
}

/// What `gl_call` does for a request, once it has been allowed.
#[derive(Clone, Copy, PartialEq, Eq, Debug, Structural)]
pub enum GlCallStep {
    /// Send a message, a call or a deployment to the host; when `covers_value` the value it
    /// carries must first be covered by the balance.
    Send { covers_value: bool },
    /// Call an Ethereum contract through the host.
    EthCall,
    /// Run another contract with this configuration.
    CallContract { config: Config },
    /// Emit an event.
    EmitEvent,
    /// Hand the request to the web module.
    Web,
    /// Hand the request to the language-model module; for a template, whether a boolean answer
    /// is expected.
    Llm { expect_bool: Option<bool> },
    /// Stop with a rollback.
    Rollback,
    /// Stop, returning the value.
    Return,
    /// Run a non-deterministic block.
    RunNondet,
    /// Run a sandbox with this configuration.
    Sandbox { config: Config },
}

/// The configuration of a contract called from one that runs with `conf`: deterministic, with no
/// writes, and reading the latest non-final state unless it asks for another.
pub open spec fn spec_call_contract_config(conf: Config, state: StorageType) -> Config {
    Config {
        is_deterministic: true,
        can_read_storage: conf.can_read_storage,
        can_write_storage: false,
        can_spawn_nondet: conf.can_spawn_nondet,
        can_call_others: conf.can_call_others,
        can_send_messages: conf.can_send_messages,
        state_mode: if state == StorageType::Default {
            StorageType::LatestNonFinal
        } else {
            state
        },
    }
}

/// The configuration of a sandbox run from one that runs with `conf`: no storage reads, no
/// non-deterministic blocks, no calls; writes and messages only when both allow them.
pub open spec fn spec_sandbox_config(conf: Config, allow_write_ops: bool) -> Config {
    Config {
        is_deterministic: conf.is_deterministic,
        can_read_storage: false,
        can_write_storage: conf.can_write_storage && allow_write_ops,
        can_spawn_nondet: false,
        can_call_others: false,
        can_send_messages: conf.can_send_messages && allow_write_ops,
        state_mode: conf.state_mode,
    }
}

/// The configuration of a non-deterministic block: it may do nothing but compute.
pub open spec fn spec_nondet_config() -> Config {
    Config {
        is_deterministic: false,
        can_read_storage: false,
        can_write_storage: false,
        can_spawn_nondet: false,
        can_call_others: false,
        can_send_messages: false,
        state_mode: StorageType::Default,
    }
}

/// How `gl_call` answers a request under `conf`: refused with an error code, or the step to take.
pub open spec fn spec_gl_call_plan(conf: Config, msg: &Message) -> Result<GlCallStep, Errno> {
    match msg {
        Message::EthSend { value, .. } | Message::PostMessage { value, .. } | Message::DeployContract {
            value,
            ..
        } => if !conf.is_deterministic || !conf.can_send_messages {
            Err(Errno::Forbidden)
        } else {
            Ok(GlCallStep::Send { covers_value: u256_value(*value) != 0 })
        },
        Message::EthCall { .. } => if !conf.is_deterministic || !conf.can_call_others {
            Err(Errno::Forbidden)
        } else {
            Ok(GlCallStep::EthCall)
        },
        Message::CallContract { state, .. } => if !conf.is_deterministic || !conf.can_call_others {
            Err(Errno::Forbidden)
        } else {
            Ok(GlCallStep::CallContract { config: spec_call_contract_config(conf, *state) })
        },
        Message::EmitEvent { indexed_fields, blob, .. } => if !conf.is_deterministic {
            Err(Errno::Forbidden)
        } else if indexed_fields@.len() > 4 {
            Err(Errno::Inval)
        } else if !names_sorted(indexed_fields@) {
            Err(Errno::Inval)
        } else if !fields_in_blob(indexed_fields@, blob@) {
            Err(Errno::Inval)
        } else {
            Ok(GlCallStep::EmitEvent)
        },
        Message::WebRender(_) | Message::WebRequest(_) => if conf.is_deterministic {
            Err(Errno::Forbidden)
        } else {
            Ok(GlCallStep::Web)
        },
        Message::ExecPrompt(_) => if conf.is_deterministic {
            Err(Errno::Forbidden)
        } else {
            Ok(GlCallStep::Llm { expect_bool: None })
        },
        Message::ExecPromptTemplate(p) => if conf.is_deterministic {
            Err(Errno::Forbidden)
        } else {
            Ok(GlCallStep::Llm { expect_bool: Some(!(p is EqNonComparativeLeader)) })
        },
        Message::Rollback(_) => Ok(GlCallStep::Rollback),
        Message::Return(_) => Ok(GlCallStep::Return),
        Message::RunNondet { .. } => if !conf.can_spawn_nondet {
            Err(Errno::Forbidden)
        } else {
            Ok(GlCallStep::RunNondet)
        },
        Message::Sandbox { allow_write_ops, .. } => Ok(
            GlCallStep::Sandbox { config: spec_sandbox_config(conf, *allow_write_ops) },
        ),
    }
}

/// The configuration of a contract called from one that runs with `conf`.
pub fn call_contract_config(conf: Config, state: StorageType) -> (r: Config)
    ensures
        r == spec_call_contract_config(conf, state),
{
    Config {
        is_deterministic: true,
        can_read_storage: conf.can_read_storage,
        can_write_storage: false,
        can_spawn_nondet: conf.can_spawn_nondet,
        can_call_others: conf.can_call_others,
        can_send_messages: conf.can_send_messages,
        state_mode: match state {
            StorageType::Default => StorageType::LatestNonFinal,
            other => other,
        },
    }
}

/// The configuration of a sandbox run from one that runs with `conf`.
pub fn sandbox_config(conf: Config, allow_write_ops: bool) -> (r: Config)
    ensures
        r == spec_sandbox_config(conf, allow_write_ops),
{
    Config {
        is_deterministic: conf.is_deterministic,
        can_read_storage: false,
        can_write_storage: conf.can_write_storage && allow_write_ops,
        can_spawn_nondet: false,
        can_call_others: false,
        can_send_messages: conf.can_send_messages && allow_write_ops,
        state_mode: conf.state_mode,
    }
}

/// The configuration of a non-deterministic block.
pub fn nondet_config() -> (r: Config)
    ensures
        r == spec_nondet_config(),
{
    Config {
        is_deterministic: false,
        can_read_storage: false,
        can_write_storage: false,
        can_spawn_nondet: false,
        can_call_others: false,
        can_send_messages: false,
        state_mode: StorageType::Default,
    }
}

fn event_fields_valid(fields: &Vec<String>, blob: &Vec<(String, Value)>) -> (r: Result<(), Errno>)
    ensures
        r is Ok <==> (fields@.len() <= 4 && names_sorted(fields@) && fields_in_blob(fields@, blob@)),
        r matches Err(e) ==> e == Errno::Inval,
{
    if fields.len() > 4 {
        return Err(Errno::Inval);
    }
    let mut i: usize = 0;
    while i + 1 < fields.len()
        invariant
            fields@.len() <= 4,
            0 <= i <= fields@.len(),
            forall|k: int| 0 <= k < i && k < fields@.len() - 1 ==> bytes_le(
                encode_utf8(#[trigger] fields@[k]@),
                encode_utf8(fields@[k + 1]@),
            ),
        decreases fields@.len() - i,
    {
        if !str_le(fields[i].as_str(), fields[i + 1].as_str()) {
            return Err(Errno::Inval);
        }
        i = i + 1;
    }
    let mut f: usize = 0;
    while f < fields.len()
        invariant
            names_sorted(fields@),
            fields@.len() <= 4,
            0 <= f <= fields@.len(),
            forall|k: int| 0 <= k < f ==> blob_has_key(blob@, #[trigger] fields@[k]@),
        decreases fields@.len() - f,
    {
        let mut j: usize = 0;
        let mut found = false;
        while j < blob.len() && !found
            invariant
                0 <= j <= blob@.len(),
                0 <= f < fields@.len(),
                found ==> blob_has_key(blob@, fields@[f as int]@),
                !found ==> forall|k: int| 0 <= k < j ==> #[trigger] blob@[k].0@ != fields@[f as int]@,
            decreases blob@.len() - j, if found { 0int } else { 1int },
        {
            if blob[j].0 == fields[f] {
                found = true;
                assert(blob@[j as int].0@ == fields@[f as int]@);
            } else {
                j = j + 1;
            }
        }
        if !found {
            assert(!blob_has_key(blob@, fields@[f as int]@));
            return Err(Errno::Inval);
        }
        f = f + 1;
    }
    Ok(())
}

/// Decides what `gl_call` does with a request under `conf`: which requests the configuration
/// forbids, which are malformed, and otherwise the step to take.
pub fn gl_call_plan(conf: Config, msg: &Message) -> (r: Result<GlCallStep, Errno>)
    ensures
        r == spec_gl_call_plan(conf, msg),
{
    match msg {
        Message::EthSend { value, .. } | Message::PostMessage { value, .. } | Message::DeployContract {
            value,
            ..
        } => {
            if !conf.is_deterministic || !conf.can_send_messages {
                Err(Errno::Forbidden)
            } else {
                Ok(GlCallStep::Send { covers_value: !u256_is_zero(value) })
            }
        },
        Message::EthCall { .. } => {
            if !conf.is_deterministic || !conf.can_call_others {
                Err(Errno::Forbidden)
            } else {
                Ok(GlCallStep::EthCall)
            }
        },
        Message::CallContract { state, .. } => {
            if !conf.is_deterministic || !conf.can_call_others {
                Err(Errno::Forbidden)
            } else {
                Ok(GlCallStep::CallContract { config: call_contract_config(conf, *state) })
            }
        },
        Message::EmitEvent { indexed_fields, blob, .. } => {
            if !conf.is_deterministic {
                Err(Errno::Forbidden)
            } else {
                match event_fields_valid(indexed_fields, blob) {
                    Ok(()) => Ok(GlCallStep::EmitEvent),
                    Err(e) => Err(e),
                }
            }
        },
        Message::WebRender(_) | Message::WebRequest(_) => {
            if conf.is_deterministic {
                Err(Errno::Forbidden)
            } else {
                Ok(GlCallStep::Web)
            }
        },
        Message::ExecPrompt(_) => {
            if conf.is_deterministic {
                Err(Errno::Forbidden)
            } else {
                Ok(GlCallStep::Llm { expect_bool: None })
            }
        },
        Message::ExecPromptTemplate(p) => {
            if conf.is_deterministic {
                Err(Errno::Forbidden)
            } else {
                let expect_bool = match p {
                    PromptTemplatePayload::EqNonComparativeLeader(_) => false,
                    _ => true,
                };
                Ok(GlCallStep::Llm { expect_bool: Some(expect_bool) })
            }
        },
        Message::Rollback(_) => Ok(GlCallStep::Rollback),
        Message::Return(_) => Ok(GlCallStep::Return),
        Message::RunNondet { .. } => {
            if !conf.can_spawn_nondet {
                Err(Errno::Forbidden)
            } else {
                Ok(GlCallStep::RunNondet)
            }
        },
        Message::Sandbox { allow_write_ops, .. } => Ok(
            GlCallStep::Sandbox { config: sandbox_config(conf, *allow_write_ops) },
        ),
    }
}

/// The name under which a delivery moment is written.
pub open spec fn on_name(on: On) -> Seq<char> {
    match on {
        On::Finalized => "finalized"@,
        On::Accepted => "accepted"@,
    }
}

/// A `U256` as a JSON string of `0x` and its hexadecimal digits.
pub open spec fn hex_json(v: U256) -> Seq<char> {
    "\"0x"@ + nat_hex(u256_value(v)) + "\""@
}

fn push_hex_json(out: String, v: &U256) -> (r: String)
    ensures
        r@ == out@ + hex_json(*v),
{
    out.concat("\"0x").concat(u256_lower_hex(v).as_str()).concat("\"")
}

/// The data handed to the host with an Ethereum send: `{"value":"0x.."}`, compact.
pub fn eth_send_data(value: &U256) -> (r: String)
    ensures
        r@ == "{\"value\":"@ + hex_json(*value) + "}"@,
{
    push_hex_json(String::from_str("{\"value\":"), value).concat("}")
}

/// The data handed to the host with a message to a contract: when it is delivered and its
/// value, `{"on":"..","value":"0x.."}`, compact and with the keys in order.
pub fn post_message_data(value: &U256, on: On) -> (r: String)
    ensures
        r@ == "{\"on\":\""@ + on_name(on) + "\",\"value\":"@ + hex_json(*value) + "}"@,
{
    let name = match on {
        On::Finalized => "finalized",
        On::Accepted => "accepted",
    };
    push_hex_json(String::from_str("{\"on\":\"").concat(name).concat("\",\"value\":"), value).concat("}")
}

/// The data handed to the host with a deployment: when it is delivered, the salt nonce and the
/// value, `{"on":"..","salt_nonce":"0x..","value":"0x.."}`, compact and with the keys in order.
pub fn deploy_contract_data(value: &U256, on: On, salt_nonce: &U256) -> (r: String)
    ensures
        r@ == "{\"on\":\""@ + on_name(on) + "\",\"salt_nonce\":"@ + hex_json(*salt_nonce)
            + ",\"value\":"@ + hex_json(*value) + "}"@,
{
    let name = match on {
        On::Finalized => "finalized",
        On::Accepted => "accepted",
    };
    let s = String::from_str("{\"on\":\"").concat(name).concat("\",\"salt_nonce\":");
    let s = push_hex_json(s, salt_nonce).concat(",\"value\":");
    push_hex_json(s, value).concat("}")
}

/// The module answered a template prompt in the other form than the template asks for.
#[derive(Clone, Copy, PartialEq, Eq, Debug, Structural)]
pub struct UnmatchedAnswer;

/// Checks the module's answer to a template prompt: an equivalence check must answer with a
/// boolean and the leader's non-comparative task with text; the module's own error is handed on.
pub fn template_answer_check(
    expect_bool: bool,
    answer: Result<crate::interfaces::PromptAnswer, crate::common::GenericValue>,
) -> (r: Result<Result<crate::interfaces::PromptAnswer, crate::common::GenericValue>, UnmatchedAnswer>)
    ensures
        r is Ok <==> match answer {
            Err(_) => true,
            Ok(crate::interfaces::PromptAnswer::Bool(_)) => expect_bool,
            Ok(crate::interfaces::PromptAnswer::Text(_)) => !expect_bool,
            Ok(crate::interfaces::PromptAnswer::Object(_)) => false,
        },
        r matches Ok(x) ==> x == answer,
{
    match answer {
        Err(e) => Ok(Err(e)),
        Ok(a) => {
            let matched = match &a {
                crate::interfaces::PromptAnswer::Bool(_) => expect_bool,
                crate::interfaces::PromptAnswer::Text(_) => !expect_bool,
                crate::interfaces::PromptAnswer::Object(_) => false,
            };
            if matched {
                Ok(Ok(a))
            } else {
                Err(UnmatchedAnswer)
            }
        },
    }
}

/// Checks that the balance covers `value` on top of what earlier messages of this run already
/// took.
pub fn check_balance(value: &U256, decremented: &U256, balance: &U256) -> (r: Result<(), Errno>)
    ensures
        r is Ok <==> u256_value(*value) + u256_value(*decremented) < u256_limit()
            && u256_value(*value) + u256_value(*decremented) <= u256_value(*balance),
        r matches Err(e) ==> e == Errno::Inbalance,
{
    match u256_checked_add(*value, *decremented) {
        Some(total) => {
            if u256_gt(&total, balance) {
                Err(Errno::Inbalance)
            } else {
                Ok(())
            }
        },
        None => Err(Errno::Inbalance),
    }
}

/// Records that a message took `value` from the balance.
pub fn record_spend(decremented: &mut U256, value: &U256)
    requires
        u256_value(*value) + u256_value(*old(decremented)) < u256_limit(),
    ensures
        u256_value(*final(decremented)) == u256_value(*old(decremented)) + u256_value(*value),
{
    match u256_checked_add(*decremented, *value) {
        Some(total) => {
            *decremented = total;
        },
        None => {},
    }
}

/// What one run sends never exceeds its balance: a value is recorded as spent only after the
/// balance check let it through, and then the total spent still fits in the balance. So the
/// total stays within the balance however many messages a run sends.
pub proof fn lemma_spent_within_balance(value: U256, before: U256, after: U256, balance: U256)
    requires
        u256_value(value) + u256_value(before) < u256_limit()
            && u256_value(value) + u256_value(before) <= u256_value(balance),
        u256_value(after) == u256_value(before) + u256_value(value),
    ensures
        u256_value(after) <= u256_value(balance),
        u256_value(before) <= u256_value(after),
{
}

/// The checks of a storage read: only a deterministic run that may read, over a range that fits
/// in 32 bits.
pub fn storage_read_check(conf: Config, index: u32, len: u32) -> (r: Result<(), Errno>)
    ensures
        r == storage_read_check_spec(conf, index, len),
{
    if !conf.is_deterministic || !conf.can_read_storage {
        return Err(Errno::Forbidden);
    }
    if index.checked_add(len).is_none() {
        return Err(Errno::Inval);
    }
    Ok(())
}

/// The checks of a storage write: only a deterministic run that may write, over a range that fits
/// in 32 bits, into a slot that is not locked.
pub fn storage_write_check(conf: Config, index: u32, len: u32, slot_locked: bool) -> (r: Result<(), Errno>)
    ensures
        r == storage_write_check_spec(conf, index, len, slot_locked),
{
    if !conf.is_deterministic || !conf.can_write_storage {
        return Err(Errno::Forbidden);
    }
    if index.checked_add(len).is_none() {
        return Err(Errno::Inval);
    }
    if slot_locked {
        return Err(Errno::Forbidden);
    }
    Ok(())
}

/// The id of a storage slot: thirty-two bytes.
#[derive(Clone, Copy)]
pub struct SlotId(pub [u8; 32]);

/// A read of the host's storage that a run makes.
pub struct StorageRead {
    /// Which state of the storage is read.
    pub mode: StorageType,
    pub account: Address,
    pub slot: SlotId,
    pub index: u32,
    pub len: u32,
}

/// A write to the host's storage that a run makes; the host's answer to it is the answer of the
/// guest's call.
pub struct StorageWrite {
    pub account: Address,
    pub slot: SlotId,
    pub index: u32,
    pub data: Vec<u8>,
}

/// Plans a storage read of a run under `conf` for the message `msg`: after
/// [`storage_read_check`], exactly one read of a slot of the executing contract, the message's
/// `contract_address`, in the run's state mode.
pub fn storage_read_plan(conf: Config, msg: &TransformedMessage, slot: SlotId, index: u32, len: u32) -> (r:
    Result<StorageRead, Errno>)
    ensures
        match storage_read_check_spec(conf, index, len) {
            Err(e) => r == Err::<StorageRead, Errno>(e),
            Ok(()) => r matches Ok(q) && q.mode == conf.state_mode && q.account == msg.contract_address
                && q.slot.0@ == slot.0@ && q.index == index && q.len == len,
        },
{
    match storage_read_check(conf, index, len) {
        Err(e) => Err(e),
        Ok(()) => Ok(StorageRead { mode: conf.state_mode, account: msg.contract_address, slot, index, len }),
    }
}

/// What [`storage_read_check`] answers.
pub open spec fn storage_read_check_spec(conf: Config, index: u32, len: u32) -> Result<(), Errno> {
    if !conf.is_deterministic || !conf.can_read_storage {
        Err(Errno::Forbidden)
    } else if index + len > u32::MAX {
        Err(Errno::Inval)
    } else {
        Ok(())
    }
}

/// `slot` is one of `locked`.
pub open spec fn slot_in(locked: Seq<SlotId>, slot: SlotId) -> bool {
    exists|i: int| 0 <= i < locked.len() && #[trigger] locked[i].0@ == slot.0@
}

fn slot_locked(locked: &Vec<SlotId>, slot: &SlotId) -> (r: bool)
    ensures
        r == slot_in(locked@, *slot),
{
    let mut i: usize = 0;
    while i < locked.len()
        invariant
            0 <= i <= locked@.len(),
            forall|j: int| 0 <= j < i ==> #[trigger] locked@[j].0@ != slot.0@,
        decreases locked@.len() - i,
    {
        let mut k: usize = 0;
        let mut same = true;
        while k < 32
            invariant
                0 <= k <= 32,
                i < locked@.len(),
                same == forall|m: int| 0 <= m < k ==> locked@[i as int].0@[m] == slot.0@[m],
            decreases 32 - k,
        {
            if locked[i].0[k] != slot.0[k] {
                same = false;
            }
            k = k + 1;
        }
        if same {
            assert(locked@[i as int].0@ =~= slot.0@);
            return true;
        }
        assert(locked@[i as int].0@ != slot.0@) by {
            let m = choose|m: int| 0 <= m < 32 && locked@[i as int].0@[m] != slot.0@[m];
            assert(locked@[i as int].0@[m] != slot.0@[m]);
        }
        i = i + 1;
    }
    false
}

/// Plans a storage write of a run under `conf` for the message `msg`: after
/// [`storage_write_check`] (with the slot locked when it is one of `locked`), exactly one write
/// of `data` at `index` to a slot of the executing contract, the message's `contract_address`.
/// No other account is written.
pub fn storage_write_plan(
    conf: Config,
    msg: &TransformedMessage,
    slot: SlotId,
    index: u32,
    data: Vec<u8>,
    locked: &Vec<SlotId>,
) -> (r: Result<StorageWrite, Errno>)
    requires
        data@.len() <= u32::MAX,
    ensures
        match storage_write_check_spec(conf, index, data@.len() as u32, slot_in(locked@, slot)) {
            Err(e) => r == Err::<StorageWrite, Errno>(e),
            Ok(()) => r matches Ok(w) && w.account == msg.contract_address && w.slot.0@ == slot.0@
                && w.index == index && w.data@ == data@,
        },
{
    let is_locked = slot_locked(locked, &slot);
    match storage_write_check(conf, index, data.len() as u32, is_locked) {
        Err(e) => Err(e),
        Ok(()) => Ok(StorageWrite { account: msg.contract_address, slot, index, data }),
    }
}

/// What [`storage_write_check`] answers.
pub open spec fn storage_write_check_spec(conf: Config, index: u32, len: u32, slot_locked: bool) -> Result<(), Errno> {
    if !conf.is_deterministic || !conf.can_write_storage {
        Err(Errno::Forbidden)
    } else if index + len > u32::MAX {
        Err(Errno::Inval)
    } else if slot_locked {
        Err(Errno::Forbidden)
    } else {
        Ok(())
    }
}

/// Starts a non-deterministic block under `conf`: refused (`Forbidden`) without the right to
/// spawn one, leaving the call counter as it is; otherwise the block gets the counter's value as
/// its number, the counter goes up by one (wrapping, as an atomic `fetch_add` does), and the
/// block runs with the non-deterministic configuration, which may change no state.
pub fn start_nondet(conf: Config, counter: &mut u32) -> (r: Result<(u32, Config), Errno>)
    ensures
        !conf.can_spawn_nondet ==> r == Err::<(u32, Config), Errno>(Errno::Forbidden) && *final(counter)
            == *old(counter),
        conf.can_spawn_nondet ==> r == Ok::<(u32, Config), Errno>((*old(counter), spec_nondet_config()))
            && *final(counter) == (if *old(counter) == u32::MAX { 0 } else { *old(counter) + 1 }),
{
    if !conf.can_spawn_nondet {
        return Err(Errno::Forbidden);
    }
    let call_no = *counter;
    *counter = if call_no == u32::MAX { 0 } else { call_no + 1 };
    Ok((call_no, nondet_config()))
}

/// Only a deterministic run may read its own balance.
pub fn self_balance_check(conf: Config) -> (r: Result<(), Errno>)
    ensures
        r is Ok <==> conf.is_deterministic,
        r matches Err(e) ==> e == Errno::Forbidden,
{
    if !conf.is_deterministic {
        Err(Errno::Forbidden)
    } else {
        Ok(())
    }
}


impl RunOk {
    /// A copy of the result; a contract error loses its cause.
    pub fn duplicate(&self) -> (r: RunOk)
        ensures
            match self {
                RunOk::Return(b) => r matches RunOk::Return(c) && c@ == b@,
                RunOk::Rollback(m) => r matches RunOk::Rollback(n) && n@ == m@,
                RunOk::ContractError(m, _) => r matches RunOk::ContractError(n, None) && n@ == m@,
            },
    {
        match self {
            RunOk::Return(items) => RunOk::Return(items.clone()),
            RunOk::Rollback(msg) => RunOk::Rollback(msg.clone()),
            RunOk::ContractError(msg, _) => RunOk::ContractError(msg.clone(), None),
        }
    }
}

/// What a non-deterministic block does once the host has said whether it holds the leader's
/// result for the block.
pub enum NondetPlan {
    /// Synchronous mode: take the leader's result as it is.
    UseLeader(RunOk),
    /// Synchronous mode without a leader's result: an internal error.
    Fail(VmError),
    /// Run the block as the leader.
    RunAsLeader,
    /// Run the block as a validator of this leader's result.
    RunAsValidator(RunOk),
}

/// Decides how a non-deterministic block runs, given the leader's result if the host has one.
pub fn nondet_plan(leaders_res: Option<RunOk>, is_sync: bool) -> (r: NondetPlan)
    ensures
        match leaders_res {
            None => if is_sync {
                r matches NondetPlan::Fail(VmError::Other(m)) && m@ == "absent leader result in sync mode"@
            } else {
                r is RunAsLeader
            },
            Some(l) => if is_sync {
                r == NondetPlan::UseLeader(l)
            } else {
                r == NondetPlan::RunAsValidator(l)
            },
        },
{
    match leaders_res {
        None => {
            if is_sync {
                NondetPlan::Fail(VmError::Other(String::from_str("absent leader result in sync mode")))
            } else {
                NondetPlan::RunAsLeader
            }
        },
        Some(l) => {
            if is_sync {
                NondetPlan::UseLeader(l)
            } else {
                NondetPlan::RunAsValidator(l)
            }
        },
    }
}

/// The verdict on a non-deterministic block: the leader's own result stands; a validator's run
/// agrees only by returning the single byte 16, and then the leader's result stands; anything
/// else is a disagreement.
pub fn nondet_verdict(leaders_res: Option<RunOk>, my_res: RunOk, call_no: u32) -> (r: Result<
    RunOk,
    ContractError,
>)
    ensures
        match leaders_res {
            None => r == Ok::<RunOk, ContractError>(my_res),
            Some(l) => if my_res matches RunOk::Return(v) && v@ == seq![16u8] {
                r == Ok::<RunOk, ContractError>(l)
            } else {
                r matches Err(ContractError(msg, None)) && msg@ == "validator_disagrees call "@
                    + nat_decimal(call_no as nat)
            },
        },
{
    match leaders_res {
        None => Ok(my_res),
        Some(l) => {
            let agrees = match &my_res {
                RunOk::Return(v) => v.len() == 1 && v[0] == 16,
                _ => false,
            };
            if agrees {
                proof {
                    if let RunOk::Return(v) = my_res {
                        assert(v@ =~= seq![16u8]);
                    }
                }
                Ok(l)
            } else {
                let digits = u32_to_decimal(call_no);
                let msg = String::from_str("validator_disagrees call ").concat(digits.as_str());
                Err(ContractError(msg, None))
            }
        },
    }
}

/// The bytes of a run's result as a nested run hands them back; a contract error is passed on as
/// an error instead.
pub fn vm_result_bytes(data: RunOk) -> (r: Result<Vec<u8>, ContractError>)
    ensures
        match data {
            RunOk::ContractError(msg, cause) => r == Err::<Vec<u8>, ContractError>(ContractError(msg, cause)),
            other => r matches Ok(b) && b@ == other.spec_bytes(),
        },
{
    match data {
        RunOk::ContractError(msg, cause) => Err(ContractError(msg, cause)),
        other => Ok(other.as_bytes_iter()),
    }
}


/// The storage type that a number in a request names: its byte, when it fits in one and names
/// a storage type.
pub fn storage_type_from_u64(v: u64) -> (r: Result<StorageType, ()>)
    ensures
        r matches Ok(t) ==> t.spec_code() == v,
        r is Err <==> v > 2,
{
    if v > 255 {
        return Err(());
    }
    StorageType::try_from_u8(v as u8)
}

/// The storage type that a signed number in a request names.
pub fn storage_type_from_i64(v: i64) -> (r: Result<StorageType, ()>)
    ensures
        r matches Ok(t) ==> t.spec_code() == v,
        r is Err <==> (v < 0 || v > 2),
{
    if v < 0 || v > 255 {
        return Err(());
    }
    StorageType::try_from_u8(v as u8)
}

/// The ways an access to the contract's memory can fail.
pub enum GuestFault {
    InvalidFlagValue,
    InvalidEnumValue,
    PtrOverflow,
    PtrOutOfBounds,
    PtrNotAligned,
    PtrBorrowed,
    InvalidUtf8,
    TryFromIntError,
    SliceLengthsDiffer,
    BorrowCheckerOutOfHandles,
    /// A failure inside a named function.
    InFunc(Box<GuestFault>),
}

/// What a failed access to the contract's memory becomes: an error code handed back to the
/// contract, or a trap that ends the run.
#[derive(Clone, Copy, PartialEq, Eq, Debug, Structural)]
pub enum GuestOutcome {
    Code(Errno),
    Trap,
}

/// What a failed memory access becomes: a bad pointer traps, as WASI asks; a bad flag or enum
/// value is `Inval`; bad UTF-8 is `Ilseq`; a number out of range is `Overflow`; the rest is
/// `Fault`. A failure inside a function is told as the failure itself.
pub open spec fn spec_guest_outcome(e: GuestFault) -> GuestOutcome
    decreases e,
{
    match e {
        GuestFault::InvalidFlagValue | GuestFault::InvalidEnumValue => GuestOutcome::Code(Errno::Inval),
        GuestFault::PtrOverflow | GuestFault::PtrOutOfBounds | GuestFault::PtrNotAligned => GuestOutcome::Trap,
        GuestFault::PtrBorrowed => GuestOutcome::Code(Errno::Fault),
        GuestFault::InvalidUtf8 => GuestOutcome::Code(Errno::Ilseq),
        GuestFault::TryFromIntError => GuestOutcome::Code(Errno::Overflow),
        GuestFault::SliceLengthsDiffer | GuestFault::BorrowCheckerOutOfHandles => GuestOutcome::Code(Errno::Fault),
        GuestFault::InFunc(inner) => spec_guest_outcome(*inner),
    }
}

/// What a failed memory access becomes.
pub fn guest_outcome(e: &GuestFault) -> (r: GuestOutcome)
    ensures
        r == spec_guest_outcome(*e),
    decreases e,
{
    match e {
        GuestFault::InvalidFlagValue | GuestFault::InvalidEnumValue => GuestOutcome::Code(Errno::Inval),
        GuestFault::PtrOverflow | GuestFault::PtrOutOfBounds | GuestFault::PtrNotAligned => GuestOutcome::Trap,
        GuestFault::PtrBorrowed => GuestOutcome::Code(Errno::Fault),
        GuestFault::InvalidUtf8 => GuestOutcome::Code(Errno::Ilseq),
        GuestFault::TryFromIntError => GuestOutcome::Code(Errno::Overflow),
        GuestFault::SliceLengthsDiffer | GuestFault::BorrowCheckerOutOfHandles => GuestOutcome::Code(Errno::Fault),
        GuestFault::InFunc(inner) => guest_outcome(inner),
    }
}

/// The address whose bytes are read from the contract's memory: the first bytes of `bytes`, as
/// many as an address holds, the rest zero.
pub fn address_from_bytes(bytes: &[u8]) -> (r: Address)
    ensures
        r@.len() == 20,
        forall|i: int| 0 <= i < 20 ==> #[trigger] r@[i] == if i < bytes@.len() {
            bytes@[i]
        } else {
            0u8
        },
{
    let mut raw: [u8; 20] = [0u8; 20];
    let mut i: usize = 0;
    while i < 20 && i < bytes.len()
        invariant
            0 <= i <= 20,
            i <= bytes@.len(),
            raw@.len() == 20,
            forall|j: int| 0 <= j < i ==> #[trigger] raw@[j] == bytes@[j],
            forall|j: int| i <= j < 20 ==> #[trigger] raw@[j] == 0u8,
        decreases 20 - i,
    {
        raw[i] = bytes[i];
        i = i + 1;
    }
    assert forall|j: int| 0 <= j < 20 implies #[trigger] raw@[j] == if j < bytes@.len() {
        bytes@[j]
    } else {
        0u8
    } by {
        if j < i {
            assert(raw@[j] == bytes@[j]);
        } else {
            assert(raw@[j] == 0u8);
            assert(i == 20 || i == bytes@.len());
        }
    }
    Address::from(raw)
}


/// The value a module call hands back to the contract: its answer under `ok`, or the user error
/// under `error`.
pub fn module_answer_value(res: Result<Value, Value>) -> (r: Value)
    ensures
        match res {
            Ok(v) => crate::calldata::is_single_entry(r, "ok"@, v),
            Err(e) => crate::calldata::is_single_entry(r, "error"@, e),
        },
{
    proof {
        reveal_strlit("ok");
        reveal_strlit("error");
    }
    let mut d: Vec<(String, Value)> = Vec::new();
    match res {
        Ok(v) => d.push((String::from_str("ok"), v)),
        Err(e) => d.push((String::from_str("error"), e)),
    }
    Value::Dict(d)
}


/// Every right of `child` is a right of `parent`.
pub open spec fn rights_within(child: Config, parent: Config) -> bool {
    &&& child.can_read_storage ==> parent.can_read_storage
    &&& child.can_write_storage ==> parent.can_write_storage
    &&& child.can_spawn_nondet ==> parent.can_spawn_nondet
    &&& child.can_call_others ==> parent.can_call_others
    &&& child.can_send_messages ==> parent.can_send_messages
}

/// A run started by another never has a right its parent lacks. A called contract and a
/// non-deterministic block never write storage (they cannot modify state); a non-deterministic
/// block may do nothing but compute; a sandbox writes or sends only where its parent may and it
/// was allowed to.
pub proof fn lemma_nested_runs_rights(conf: Config, msg: &Message)
    ensures
        spec_gl_call_plan(conf, msg) matches Ok(GlCallStep::CallContract { config }) ==> (
        rights_within(config, conf) && !config.can_write_storage && config.is_deterministic),
        spec_gl_call_plan(conf, msg) matches Ok(GlCallStep::Sandbox { config }) ==> (rights_within(
            config,
            conf,
        ) && !config.can_read_storage && !config.can_call_others && !config.can_spawn_nondet),
        spec_gl_call_plan(conf, msg) matches Ok(GlCallStep::Sandbox { config }) ==> (
        msg matches Message::Sandbox { allow_write_ops, .. } && (!*allow_write_ops
            ==> !config.can_write_storage && !config.can_send_messages)),
        rights_within(spec_nondet_config(), conf),
        !spec_nondet_config().can_write_storage && !spec_nondet_config().can_send_messages,
        !spec_nondet_config().is_deterministic,
{
}

/// What `gl_call` allows in which run. Web requests and prompts are non-deterministic work:
/// refused (`Forbidden`) exactly in a deterministic run, and otherwise handed to the web module,
/// or to the language-model module (a prompt expecting no particular answer, a template
/// expecting a boolean unless it is the leader's non-comparative check). Messages, calls and
/// deployments are only made in a deterministic run with the right to send or to call; events
/// only in a deterministic run; a non-deterministic block only with the right to spawn one; and
/// every refusal of these is `Forbidden`; a send checks the balance exactly when it carries a
/// value. Rollback, return and sandbox are always taken.
pub proof fn lemma_gl_call_rights(conf: Config, msg: &Message)
    ensures
        msg is WebRender || msg is WebRequest ==> (spec_gl_call_plan(conf, msg) == Err::<GlCallStep, Errno>(
            Errno::Forbidden) <==> conf.is_deterministic) && (!conf.is_deterministic ==> spec_gl_call_plan(
            conf,
            msg,
        ) == Ok::<GlCallStep, Errno>(GlCallStep::Web)),
        msg is ExecPrompt ==> (spec_gl_call_plan(conf, msg) == Err::<GlCallStep, Errno>(Errno::Forbidden)
            <==> conf.is_deterministic) && (!conf.is_deterministic ==> spec_gl_call_plan(conf, msg)
            == Ok::<GlCallStep, Errno>(GlCallStep::Llm { expect_bool: None })),
        msg matches Message::ExecPromptTemplate(p) ==> (spec_gl_call_plan(conf, msg) == Err::<
            GlCallStep,
            Errno,
        >(Errno::Forbidden) <==> conf.is_deterministic) && (!conf.is_deterministic ==> spec_gl_call_plan(
            conf,
            msg,
        ) == Ok::<GlCallStep, Errno>(
            GlCallStep::Llm { expect_bool: Some(!(p is EqNonComparativeLeader)) },
        )),
        msg is EthSend || msg is PostMessage || msg is DeployContract ==> (spec_gl_call_plan(conf, msg) is Ok
            <==> conf.is_deterministic && conf.can_send_messages) && (spec_gl_call_plan(conf, msg) is Err
            ==> spec_gl_call_plan(conf, msg) == Err::<GlCallStep, Errno>(Errno::Forbidden)) && (
        spec_gl_call_plan(conf, msg) matches Ok(step) ==> step is Send),
        msg matches Message::EthSend { value, .. } ==> (spec_gl_call_plan(conf, msg) matches Ok(
            GlCallStep::Send { covers_value },
        ) ==> covers_value == (u256_value(*value) != 0)),
        msg is EthCall ==> (spec_gl_call_plan(conf, msg) is Ok <==> conf.is_deterministic
            && conf.can_call_others) && (spec_gl_call_plan(conf, msg) is Err ==> spec_gl_call_plan(conf, msg)
            == Err::<GlCallStep, Errno>(Errno::Forbidden)),
        msg is CallContract ==> (spec_gl_call_plan(conf, msg) is Ok <==> conf.is_deterministic
            && conf.can_call_others) && (spec_gl_call_plan(conf, msg) is Err ==> spec_gl_call_plan(conf, msg)
            == Err::<GlCallStep, Errno>(Errno::Forbidden)),
        msg is EmitEvent ==> (!conf.is_deterministic ==> spec_gl_call_plan(conf, msg) == Err::<
            GlCallStep,
            Errno,
        >(Errno::Forbidden)) && (spec_gl_call_plan(conf, msg) is Ok ==> conf.is_deterministic),
        msg is RunNondet ==> (spec_gl_call_plan(conf, msg) is Ok <==> conf.can_spawn_nondet) && (
        spec_gl_call_plan(conf, msg) is Err ==> spec_gl_call_plan(conf, msg) == Err::<GlCallStep, Errno>(
            Errno::Forbidden)),
        msg is Rollback || msg is Return || msg is Sandbox ==> spec_gl_call_plan(conf, msg) is Ok,
{
}

/// A run reads storage only when it is deterministic and may read, and writes only when it is
/// deterministic and may write, into a slot that is not locked: every other read or write is
/// refused with `Forbidden`, whatever the range. So a called contract, whose configuration may
/// not write, and a non-deterministic block never write storage, and a non-deterministic block
/// never reads it.
pub proof fn lemma_storage_rights(conf: Config, index: u32, len: u32, locked: bool, state: StorageType)
    ensures
        !conf.is_deterministic || !conf.can_read_storage ==> storage_read_check_spec(conf, index, len)
            == Err::<(), Errno>(Errno::Forbidden),
        !conf.is_deterministic || !conf.can_write_storage ==> storage_write_check_spec(
            conf,
            index,
            len,
            locked,
        ) == Err::<(), Errno>(Errno::Forbidden),
        storage_write_check_spec(conf, index, len, locked) is Ok ==> conf.is_deterministic
            && conf.can_write_storage && !locked && index + len <= u32::MAX,
        storage_read_check_spec(conf, index, len) is Ok <==> conf.is_deterministic && conf.can_read_storage
            && index + len <= u32::MAX,
        locked ==> storage_write_check_spec(conf, index, len, locked) is Err,
        storage_write_check_spec(spec_call_contract_config(conf, state), index, len, locked) == Err::<
            (),
            Errno,
        >(Errno::Forbidden),
        storage_write_check_spec(spec_nondet_config(), index, len, locked) == Err::<(), Errno>(
            Errno::Forbidden,
        ),
        storage_read_check_spec(spec_nondet_config(), index, len) == Err::<(), Errno>(Errno::Forbidden),
{
}

/// A called contract runs deterministically, never writes, keeps its caller's other rights, and
/// reads the latest non-final state unless it asks for a particular one. A sandbox keeps its
/// caller's mode and state, never reads storage, calls or starts a non-deterministic block, and
/// writes or sends only where its caller may and it was allowed to.
pub proof fn lemma_nested_configs(conf: Config, state: StorageType, allow_write_ops: bool)
    ensures
        ({
            let c = spec_call_contract_config(conf, state);
            &&& c.is_deterministic && !c.can_write_storage
            &&& c.can_read_storage == conf.can_read_storage
            &&& c.can_spawn_nondet == conf.can_spawn_nondet
            &&& c.can_call_others == conf.can_call_others
            &&& c.can_send_messages == conf.can_send_messages
            &&& c.state_mode == if state == StorageType::Default {
                StorageType::LatestNonFinal
            } else {
                state
            }
        }),
        ({
            let b = spec_sandbox_config(conf, allow_write_ops);
            &&& b.is_deterministic == conf.is_deterministic
            &&& b.state_mode == conf.state_mode
            &&& !b.can_read_storage && !b.can_call_others && !b.can_spawn_nondet
            &&& b.can_write_storage == (conf.can_write_storage && allow_write_ops)
            &&& b.can_send_messages == (conf.can_send_messages && allow_write_ops)
        }),
{
}

} // verus!
