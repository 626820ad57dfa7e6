use cosmwasm_simulate::artifact::{artifact_address, companion_artifact, parent_dir, LoadError};
use cosmwasm_simulate::watch::{ready_address, WatchState};

#[test]
fn poll_reports_changed_artifacts() {
    let mut w = WatchState::new(3);
    assert_eq!(w.poll(&vec![Some(10), Some(20), None]), vec![0, 1, 2]);
    assert_eq!(w.poll(&vec![Some(10), Some(21), None]), vec![1, 2]);
    assert_eq!(w.poll(&vec![Some(10), Some(21), Some(5)]), vec![2]);
    assert_eq!(w.poll(&vec![Some(10), Some(21), Some(5)]), Vec::<usize>::new());
    assert_eq!(w.last, vec![Some(10), Some(21), Some(5)]);
}

#[test]
fn ready_is_first_artifact() {
    assert_eq!(ready_address(&vec!["a".to_string(), "b".to_string()]), Some("a".to_string()));
    assert_eq!(ready_address(&vec![]), None);
}

#[test]
fn artifact_paths() {
    assert_eq!(artifact_address("build/counter.wasm"), Ok("counter".to_string()));
    assert_eq!(artifact_address("counter.wasm"), Ok("counter".to_string()));
    assert_eq!(artifact_address("/a/b.c/token.wasm"), Ok("token".to_string()));
    assert_eq!(artifact_address("counter.wasm.bak"), Err(LoadError::NotWasm));
    assert_eq!(artifact_address("wasm"), Err(LoadError::NotWasm));
    assert_eq!(artifact_address("dir/.wasm"), Ok(".wasm".to_string()));
    assert_eq!(artifact_address(".wasm"), Ok(".wasm".to_string()));
    assert_eq!(artifact_address("a/x.b.wasm"), Ok("x.b".to_string()));
    assert_eq!(parent_dir("/a/b/c.wasm"), Some("/a/b".to_string()));
    assert_eq!(parent_dir("c.wasm"), None);
    assert_eq!(companion_artifact("/a", "contracts", "tok"), "/a/contracts/tok/tok.wasm");
}
