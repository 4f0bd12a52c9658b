use vstd::prelude::*;

pub mod host;
pub mod ustar;
pub mod decode;
pub mod errors;
pub mod vm;
pub mod text;
pub mod calldata;
pub mod interfaces;
pub mod sdk;
pub mod softfloat;
pub mod wasm_pass;
pub mod runner;
pub mod str_map;
pub mod actions;
pub mod exe;
pub mod common;
pub mod llm;
pub mod web;
pub mod python_ext;
pub mod llm_request;
pub mod llm_default;
pub mod llm_funcs;

verus! {

} // verus!
