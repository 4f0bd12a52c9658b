use genvm::calldata::Address;
use genvm::runner::{
    dir_files, get_id_of_contract, precompiled_location, runner_archive_path, verify_runner, wants_latest,
    InitAction, LocateError, PrecompiledError, RunnerCache, RunnerError, WasmFileDesc, ZipCache,
};
use genvm::str_map::StrMap;
use genvm::ustar::{Archive, SharedBytes};

fn archive(files: &[(&str, &[u8])]) -> Archive {
    let mut data = StrMap::new();
    for (n, d) in files {
        data.insert(n.to_string(), SharedBytes::new(d.to_vec()));
    }
    Archive { data, total_size: 0 }
}

#[test]
fn contract_id_is_hex_of_address() {
    let mut raw = [0u8; 20];
    raw[0] = 0xab;
    raw[19] = 0x01;
    let id = get_id_of_contract(Address::from(raw));
    assert_eq!(id, "on_chain:0xab00000000000000000000000000000000000001");
    assert_ne!(get_id_of_contract(Address::zero()), id);
}

#[test]
fn verify_runner_accepts_name_and_hash() {
    assert_eq!(verify_runner("py-lib_1:abc=").ok(), Some(("py-lib_1", "abc=")));
}

#[test]
fn verify_runner_errors() {
    assert!(matches!(verify_runner("nohash"), Err(RunnerError::NotNameAndHash)));
    assert!(matches!(verify_runner("a:b:c"), Err(RunnerError::NotNameAndHash)));
    assert!(matches!(verify_runner("a/b:c"), Err(RunnerError::BadNameChar('/'))));
    assert!(matches!(verify_runner("a=b:c"), Err(RunnerError::BadNameChar('='))));
    assert!(matches!(verify_runner("ab:c.d"), Err(RunnerError::BadHashChar('.'))));
}

#[test]
fn archive_paths() {
    assert_eq!(runner_archive_path("py:abc", false, None).ok(), Some(("py".to_string(), "abc.tar".to_string())));
    assert!(matches!(runner_archive_path("py:latest", false, None), Err(LocateError::LatestNotAllowed)));
    assert_eq!(
        runner_archive_path("py:test", true, Some("h1".to_string())).ok(),
        Some(("py".to_string(), "h1.tar".to_string()))
    );
    assert_eq!(runner_archive_path("py:latest", true, None).ok(), Some(("py".to_string(), "latest.tar".to_string())));
    assert!(matches!(runner_archive_path("p y:x", true, None), Err(LocateError::Id(RunnerError::BadNameChar(' ')))));
    assert!(wants_latest("test") && wants_latest("latest") && !wants_latest("latest2"));
}

#[test]
fn zip_cache_files_and_actions() {
    let mut z = ZipCache::new("r:1".to_string(), archive(&[("runner.json", b"{}"), ("a", b"xy")]));
    assert_eq!(z.runner_id(), "r:1");
    assert_eq!(z.get_file("a").ok().unwrap().as_slice(), b"xy");
    match z.get_file("missing") {
        Err(RunnerError::NoFile { runner, name }) => {
            assert_eq!(runner, "r:1");
            assert_eq!(name, "missing");
        }
        _ => panic!("missing file found"),
    }
    assert_eq!(z.actions_file().ok().unwrap().as_slice(), b"{}");
    assert!(z.actions().is_none());
    z.store_actions(InitAction::StartWasm("main.wasm".to_string()));
    assert!(matches!(z.actions(), Some(InitAction::StartWasm(p)) if p == "main.wasm"));
}

#[test]
fn wasm_file_desc_ids() {
    let d = WasmFileDesc::new(SharedBytes::new(vec![]), "py:abc".to_string(), "lib/x.wasm".to_string());
    assert_eq!(d.debug_path(), "py:abc:lib/x.wasm");
    assert!(!d.is_special());
    assert_eq!(precompiled_location(&d).ok(), Some(("py", "abc")));
    let s = WasmFileDesc::new(SharedBytes::new(vec![]), "<contract>".to_string(), "file".to_string());
    assert!(s.is_special());
    assert!(matches!(precompiled_location(&s), Err(PrecompiledError::Special)));
}

#[test]
fn directory_mapping() {
    let a = archive(&[("py/lib/a.py", b"1"), ("py/lib/", b""), ("py/other", b"2"), ("py/lib/sub/b.py", b"3")]);
    let files = dir_files(&a, "py/lib/", "/usr/lib");
    let names: Vec<&str> = files.iter().map(|(n, _)| n.as_str()).collect();
    assert_eq!(names, vec!["/usr/lib/a.py", "/usr/lib/sub/b.py"]);
    assert_eq!(files[1].1.as_slice(), b"3");
    let slash = dir_files(&a, "py/lib/", "/x/");
    assert_eq!(slash[0].0, "/x/a.py");
}

#[test]
fn runner_cache_keeps_one_per_id() {
    let mut c = RunnerCache::new();
    assert_eq!(c.position("a"), None);
    let i = c.insert(ZipCache::new("a".to_string(), archive(&[])));
    let j = c.insert(ZipCache::new("b".to_string(), archive(&[])));
    assert_eq!((i, j), (0, 1));
    assert_eq!(c.position("b"), Some(1));
    assert_eq!(c.get(1).runner_id(), "b");
    c.store_actions(0, InitAction::LinkWasm("x".to_string()));
    assert!(c.get(0).actions().is_some());
    assert!(c.get(1).actions().is_none());
}
