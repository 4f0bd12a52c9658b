use genvm::actions::{ActionWalker, Effect, WalkStep};
use genvm::runner::{InitAction, WasmMode};

fn next(w: &mut ActionWalker) -> Option<Effect> {
    loop {
        match w.step() {
            WalkStep::Apply(e) => return Some(e),
            WalkStep::Continue => continue,
            WalkStep::Done => return None,
        }
    }
}

#[test]
fn sequence_runs_in_order_and_stops_at_start() {
    let a = InitAction::Sequence(vec![
        InitAction::MapFile { to: "/a".into(), file: "a.txt".into() },
        InitAction::MapFile { to: "/lib".into(), file: "lib/".into() },
        InitAction::SetArgs(vec!["x".into()]),
        InitAction::StartWasm("main.wasm".into()),
        InitAction::LinkWasm("never.wasm".into()),
    ]);
    let mut w = ActionWalker::new(a, "on_chain:0x00".into(), true);
    assert!(matches!(next(&mut w), Some(Effect::MapFile { runner, to, file }) if runner == "on_chain:0x00" && to == "/a" && file == "a.txt"));
    assert!(matches!(next(&mut w), Some(Effect::MapDir { dir, .. }) if dir == "lib/"));
    assert!(matches!(next(&mut w), Some(Effect::SetArgs(a)) if a == vec!["x".to_string()]));
    assert!(matches!(next(&mut w), Some(Effect::StartWasm { path, .. }) if path == "main.wasm"));
    assert!(w.has_started());
    assert!(next(&mut w).is_none());
}

#[test]
fn when_follows_the_mode() {
    let a = InitAction::Sequence(vec![
        InitAction::When { cond: WasmMode::Det, action: Box::new(InitAction::LinkWasm("det.wasm".into())) },
        InitAction::When { cond: WasmMode::Nondet, action: Box::new(InitAction::LinkWasm("nondet.wasm".into())) },
    ]);
    let mut w = ActionWalker::new(a, "c".into(), false);
    assert!(matches!(next(&mut w), Some(Effect::LinkWasm { path, .. }) if path == "nondet.wasm"));
    assert!(next(&mut w).is_none());
    assert!(!w.has_started());
}

#[test]
fn with_switches_runner_and_contract_marker() {
    let a = InitAction::Sequence(vec![
        InitAction::With { runner: "py:1".into(), action: Box::new(InitAction::LinkWasm("lib.wasm".into())) },
        InitAction::With { runner: "<contract>".into(), action: Box::new(InitAction::StartWasm("file".into())) },
    ]);
    let mut w = ActionWalker::new(a, "on_chain:0x01".into(), true);
    assert!(matches!(next(&mut w), Some(Effect::LoadRunner(r)) if r == "py:1"));
    assert!(matches!(next(&mut w), Some(Effect::LinkWasm { runner, .. }) if runner == "py:1"));
    assert!(matches!(next(&mut w), Some(Effect::StartWasm { runner, .. }) if runner == "on_chain:0x01"));
}

#[test]
fn dependency_is_loaded_once() {
    let a = InitAction::Sequence(vec![
        InitAction::Depends("py:1".into()),
        InitAction::Depends("py:1".into()),
        InitAction::StartWasm("file".into()),
    ]);
    let mut w = ActionWalker::new(a, "c".into(), true);
    match next(&mut w) {
        Some(Effect::LoadDependency(r)) => {
            assert_eq!(r, "py:1");
            w.provide_dependency(r, InitAction::AddEnv { name: "K".into(), val: "v".into() });
        }
        _ => panic!("dependency not loaded"),
    }
    assert!(matches!(next(&mut w), Some(Effect::AddEnv { name, .. }) if name == "K"));
    assert!(matches!(next(&mut w), Some(Effect::StartWasm { .. })));
}

#[test]
fn environment_is_kept_in_name_order() {
    let mut w = ActionWalker::new(InitAction::SetArgs(vec![]), "c".into(), true);
    w.set_env("B".into(), "2".into());
    w.set_env("A".into(), "1".into());
    w.set_env("B".into(), "3".into());
    let env: Vec<(String, String)> = w.env_entries().clone();
    assert_eq!(env, vec![("A".to_string(), "1".to_string()), ("B".to_string(), "3".to_string())]);
}

#[test]
fn failed_effect_stops_the_actions() {
    let a = InitAction::Sequence(vec![
        InitAction::LinkWasm("a.wasm".into()),
        InitAction::LinkWasm("b.wasm".into()),
        InitAction::StartWasm("main.wasm".into()),
    ]);
    let mut w = ActionWalker::new(a, "c".into(), true);
    assert!(matches!(next(&mut w), Some(Effect::LinkWasm { path, .. }) if path == "a.wasm"));
    assert!(!w.has_failed());
    w.fail();
    assert!(w.has_failed());
    assert!(next(&mut w).is_none());
    assert!(!w.has_started());
}
