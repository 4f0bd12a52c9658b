use genvm::errors::{ContractError, ContractReturn, I32Exit, UserError, VmError};
use genvm::ustar::SharedBytes;
use genvm::vm::{code_to_archive, CacheAction, ModuleCache, escape_return_bytes, result_of_stop, RunOk};

#[test]
fn result_bytes_carry_the_code() {
    assert_eq!(RunOk::Return(vec![1, 2]).as_bytes_iter(), vec![0, 1, 2]);
    assert_eq!(RunOk::Rollback("x".into()).as_bytes_iter(), vec![1, b'x']);
    assert_eq!(RunOk::ContractError("y".into(), None).as_bytes_iter(), vec![2, b'y']);
    assert!(matches!(RunOk::empty_return(), RunOk::Return(v) if v == vec![0]));
}

#[test]
fn debug_text_of_results() {
    assert_eq!(RunOk::Return(b"ab\\".to_vec()).to_debug_string(), "Return(\"ab\\\\\")");
    assert_eq!(RunOk::Return(vec![0x0a, 0xff]).to_debug_string(), "Return(\"\\x0a\\ff\")");
    assert_eq!(RunOk::Rollback("msg".into()).to_debug_string(), "Rollback(\"msg\")");
    assert_eq!(RunOk::ContractError("e\"q".into(), None).to_debug_string(), "ContractError(\"e\\\"q\")");
    assert_eq!(escape_return_bytes(&"é".as_bytes().to_vec()), "é");
}

#[test]
fn stops_are_classified() {
    assert!(matches!(result_of_stop(VmError::Returned(ContractReturn(vec![3]))), Ok(RunOk::Return(v)) if v == vec![3]));
    assert!(matches!(result_of_stop(VmError::User(UserError("no".into()))), Ok(RunOk::Rollback(m)) if m == "no"));
    assert!(matches!(result_of_stop(VmError::Exit(I32Exit(0))), Ok(RunOk::Return(v)) if v == vec![0]));
    assert!(matches!(result_of_stop(VmError::Contract(ContractError("c".into(), None))), Ok(RunOk::ContractError(m, _)) if m == "c"));
}

#[test]
fn code_archives() {
    let wasm = b"\0asm\x01\0\0\0rest".to_vec();
    let a = code_to_archive(SharedBytes::new(wasm.clone())).ok().unwrap();
    let get = |n: &str| a.data.get(n).map(|v| v.as_slice().to_vec());
    assert_eq!(get("file"), Some(wasm));
    assert_eq!(get("runner.json"), Some(b"{ \"StartWasm\": \"file\" }".to_vec()));

    let py = b"# { \"Depends\": \"py:1\" }\nprint(1)\n".to_vec();
    let b = code_to_archive(SharedBytes::new(py)).ok().unwrap();
    let runner = b.data.get("runner.json").map(|v| v.as_slice().to_vec());
    assert_eq!(runner, Some(b" { \"Depends\": \"py:1\" }".to_vec()));

    assert!(matches!(
        code_to_archive(SharedBytes::new(b"print(1)".to_vec())),
        Err(VmError::Contract(ContractError(m, None))) if m == "no_runner_comment"
    ));
    assert!(matches!(
        code_to_archive(SharedBytes::new(vec![0xff, 0xfe])),
        Err(VmError::Contract(ContractError(m, Some(_)))) if m == "invalid_contract non-utf8"
    ));
}

#[test]
fn exit_codes_and_traps() {
    assert!(matches!(result_of_stop(VmError::Exit(I32Exit(-3))), Ok(RunOk::ContractError(m, None)) if m == "exit_code -3"));
    assert!(matches!(result_of_stop(VmError::Trap("oob".into())), Ok(RunOk::ContractError(m, Some(_))) if m == "wasm_trap oob"));
    assert!(matches!(result_of_stop(VmError::Other("x".into())), Err(VmError::Other(m)) if m == "x"));
}

fn zip_image(files: &[(&str, &[u8])]) -> Vec<u8> {
    let mut w = zip::ZipWriter::new(std::io::Cursor::new(Vec::new()));
    for (name, data) in files {
        let opts = zip::write::SimpleFileOptions::default().compression_method(zip::CompressionMethod::Stored);
        w.start_file(*name, opts).unwrap();
        std::io::Write::write_all(&mut w, data).unwrap();
    }
    w.finish().unwrap().into_inner()
}

#[test]
fn zip_code_gives_its_files() {
    let bytes = zip_image(&[("runner.json", b"{}"), ("file", b"abc")]);
    let n = bytes.len() as u32;
    let a = match code_to_archive(SharedBytes::from_slice(&bytes)) {
        Ok(a) => a,
        Err(_) => panic!("zip refused"),
    };
    assert_eq!(a.total_size, n);
    let names: Vec<&str> = a.data.entries().iter().map(|(k, _)| k.as_str()).collect();
    assert_eq!(names, vec!["file", "runner.json"]);
    assert_eq!(a.data.get("file").unwrap().as_slice(), b"abc");
}

#[test]
fn source_code_archive_has_the_code_size() {
    let code = b"# abc\n# def\nprint(1)";
    let a = match code_to_archive(SharedBytes::from_slice(code)) {
        Ok(a) => a,
        Err(_) => panic!("refused"),
    };
    assert_eq!(a.total_size, 20);
}

#[test]
fn module_cache_counts_where_modules_come_from() {
    let mut c: ModuleCache<u8> = ModuleCache::new();
    assert_eq!(c.cache_step("r:a.wasm", true), CacheAction::LoadPrecompiled);
    c.store("r:a.wasm".into(), 1);
    assert_eq!(c.cache_step("r:a.wasm", false), CacheAction::Hit);
    assert_eq!(c.cache_step("r:b.wasm", false), CacheAction::Compile);
    assert_eq!(c.get("r:a.wasm"), Some(&1));
    let s = c.stats();
    assert_eq!((s.cache_hits, s.precompile_hits, s.compiled_modules), (1, 1, 1));
}
