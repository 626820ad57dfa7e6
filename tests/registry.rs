use cosmwasm_simulate::instance::ContractInstance;
use cosmwasm_simulate::registry::Registry;
use cosmwasm_simulate::schema::TypeSchema;
use cosmwasm_simulate::session::{address_choices, Session, SessionError};
use cosmwasm_simulate::watch::{reload_seed, ReloadSeed};

#[test]
fn upsert_replaces_whole() {
    let mut r: Registry<u32> = Registry::new();
    assert!(!r.contains("a"));
    r.upsert("a", 1);
    r.upsert("b", 2);
    r.upsert("a", 3);
    assert_eq!(r.get("a"), Some(&3));
    assert_eq!(r.get("b"), Some(&2));
    assert_eq!(r.get("c"), None);
    assert_eq!(r.addresses().len(), 2);
    assert!(r.has_several());
}

#[test]
fn failed_install_keeps_previous_instance() {
    let mut r: Registry<u32> = Registry::new();
    assert_eq!(r.install::<String>("a", Ok(1)), Ok(()));
    assert_eq!(r.install("a", Err("bad module".to_string())), Err("bad module".to_string()));
    assert_eq!(r.get("a"), Some(&1));
    assert_eq!(r.install::<String>("b", Err("x".to_string())), Err("x".to_string()));
    assert!(!r.contains("b"));
    assert!(!r.has_several());
}

#[test]
fn switch_to_unregistered_keeps_active() {
    let mut r: Registry<u32> = Registry::new();
    r.upsert("alpha", 1);
    r.upsert("beta", 2);
    let mut session = Session::new("alpha");
    assert_eq!(session.switch_to(&r, "gamma"), Err(SessionError::NoSuchContract));
    assert_eq!(session.active, "alpha");
    assert_eq!(session.switch_to(&r, "alpha"), Ok(false));
    assert_eq!(session.switch_to(&r, "beta"), Ok(true));
    assert_eq!(session.active, "beta");
}

#[test]
fn address_choices_are_sorted() {
    let mut r: Registry<u32> = Registry::new();
    r.upsert("zeta", 1);
    r.upsert("alpha", 2);
    r.upsert("Mid", 3);
    assert_eq!(address_choices(&r), vec!["Mid".to_string(), "alpha".to_string(), "zeta".to_string()]);
}

fn query(inst: &ContractInstance<Vec<(String, String)>>, key: &str) -> Option<String> {
    inst.engine.iter().find(|(k, _)| k == key).map(|(_, v)| v.clone())
}

#[test]
fn reload_carries_storage_forward() {
    let mut r: Registry<ContractInstance<Vec<(String, String)>>> = Registry::new();
    assert_eq!(reload_seed(&r, "counter"), ReloadSeed::Fresh);
    let first = ContractInstance::new("counter", "sender", TypeSchema::empty(), vec![]);
    r.install::<String>("counter", Ok(first)).unwrap();
    r.get_mut("counter").unwrap().engine.push(("count".to_string(), "5".to_string()));
    assert_eq!(reload_seed(&r, "counter"), ReloadSeed::FromCurrent);
    let snapshot = r.get("counter").unwrap().engine.clone();
    let rebuilt = ContractInstance::new("counter", "sender", TypeSchema::empty(), snapshot);
    r.install::<String>("counter", Ok(rebuilt)).unwrap();
    assert_eq!(query(r.get("counter").unwrap(), "count"), Some("5".to_string()));
    assert!(r.get("counter").unwrap().raw_json_mode());
}
