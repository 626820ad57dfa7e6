use cosmwasm_simulate::message::{build_message, build_variant_message};
use cosmwasm_simulate::schema::{Field, TypeSchema};
use cosmwasm_simulate::session::{
    group_step, key_choices, parse_call_type, sole_variant, CallChoice, CallKind, GroupStep,
};

#[test]
fn call_types() {
    assert_eq!(parse_call_type("init", false), Some(CallChoice::Call(CallKind::Init)));
    assert_eq!(parse_call_type("handle", true), Some(CallChoice::Call(CallKind::Handle)));
    assert_eq!(parse_call_type("query", false), Some(CallChoice::Call(CallKind::Query)));
    assert_eq!(parse_call_type("switch", true), Some(CallChoice::Switch));
    assert_eq!(parse_call_type("switch", false), None);
    assert_eq!(parse_call_type("Init", true), None);
    assert_eq!(parse_call_type("", true), None);
    assert_eq!(CallKind::Handle.entry_point(), "handle");
}

#[test]
fn handle_with_sole_variant_end_to_end() {
    let mut schema = TypeSchema::empty();
    schema.groups.push(("HandleMsg".to_string(), vec![("increment".to_string(), vec![])]));
    schema.enum_flags.push(("HandleMsg".to_string(), true));
    let kind = match parse_call_type("handle", false) {
        Some(CallChoice::Call(k)) => k,
        other => panic!("unexpected {:?}", other),
    };
    assert_eq!(group_step(&schema, kind), GroupStep::Root);
    let group = schema.lookup_message_group(kind.root_group_name()).unwrap();
    let v = sole_variant(group).unwrap();
    let (name, fields) = &group[v];
    let is_enum = schema.is_enum(kind.root_group_name());
    assert!(is_enum);
    assert_eq!(build_message(&schema, name, fields, is_enum, &vec![]), "{\"increment\":{}}");
    assert_eq!(build_variant_message(&schema, "HandleMsg", &group[v], &vec![]), "{\"increment\":{}}");
}

#[test]
fn group_flag_decides_wrapping() {
    let mut schema = TypeSchema::empty();
    schema.enum_flags.push(("QueryMsg".to_string(), true));
    let variant = ("count".to_string(), vec![Field::new("n", "u32")]);
    let values = vec!["4".to_string()];
    assert_eq!(build_variant_message(&schema, "QueryMsg", &variant, &values), "{\"count\":{\"n\":4}}");
    assert_eq!(build_variant_message(&schema, "InitMsg", &variant, &values), "{\"n\":4}");
}

#[test]
fn group_steps() {
    let mut schema = TypeSchema::empty();
    assert_eq!(group_step(&schema, CallKind::Init), GroupStep::RawJson);
    schema.groups.push(("ExecuteMsg".to_string(), vec![]));
    schema.groups.push(("InitMsg".to_string(), vec![]));
    assert_eq!(group_step(&schema, CallKind::Init), GroupStep::Root);
    assert_eq!(group_step(&schema, CallKind::Query), GroupStep::Ask);
    assert_eq!(key_choices(&schema.groups), vec!["ExecuteMsg".to_string(), "InitMsg".to_string()]);
    assert!(!schema.is_enum("InitMsg"));
}

#[test]
fn variant_selection() {
    let one: Vec<(String, Vec<Field>)> = vec![("a".to_string(), vec![])];
    let two: Vec<(String, Vec<Field>)> = vec![("b".to_string(), vec![]), ("a".to_string(), vec![])];
    assert_eq!(sole_variant(&one), Some(0));
    assert_eq!(sole_variant(&two), None);
    assert_eq!(sole_variant(&vec![]), None);
    assert_eq!(key_choices(&two), vec!["a".to_string(), "b".to_string()]);
}

#[test]
fn schema_lookups() {
    let mut schema = TypeSchema::empty();
    schema.base_aliases.push(("Uint128".to_string(), "string".to_string()));
    schema.structs.push(("Coin".to_string(), vec![Field::new("denom", "string")]));
    assert_eq!(schema.resolve_base_type("Uint128"), "string");
    assert_eq!(schema.resolve_base_type("u64"), "u64");
    assert_eq!(schema.lookup_struct("Coin").unwrap().len(), 1);
    assert!(schema.lookup_struct("Nope").is_none());
    assert!(schema.lookup_message_group("HandleMsg").is_none());
}
