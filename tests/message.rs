use cosmwasm_simulate::message::{build_message, leaf_entry, prompts};
use cosmwasm_simulate::schema::{Field, TypeSchema};

fn s(x: &str) -> String {
    x.to_string()
}

fn vals(xs: &[&str]) -> Vec<String> {
    xs.iter().map(|x| x.to_string()).collect()
}

fn sample_schema() -> TypeSchema {
    let mut schema = TypeSchema::empty();
    schema.base_aliases.push((s("Uint128"), s("string")));
    schema.base_aliases.push((s("Binary"), s("string")));
    schema.structs.push((
        s("Coin"),
        vec![Field::new("denom", "string"), Field::new("amount", "Uint128")],
    ));
    schema.structs.push((s("Empty"), vec![]));
    schema
}

#[test]
fn sole_no_field_variant_payload() {
    let schema = sample_schema();
    let out = build_message(&schema, "increment", &vec![], true, &vec![]);
    assert_eq!(out, "{\"increment\":{}}");
}

#[test]
fn blank_optional_string_is_left_out() {
    let schema = sample_schema();
    let fields = vec![Field::new("name", "string"), Field::new("memo", "string?")];
    let out = build_message(&schema, "register", &fields, false, &vals(&["bob", ""]));
    assert_eq!(out, "{\"name\":\"bob\"}");
}

#[test]
fn blank_optional_first_and_middle() {
    let schema = sample_schema();
    let fields = vec![
        Field::new("a", "string?"),
        Field::new("b", "u64"),
        Field::new("c", "bool?"),
        Field::new("d", "u64"),
    ];
    let out = build_message(&schema, "x", &fields, true, &vals(&["", "1", "", "2"]));
    assert_eq!(out, "{\"x\":{\"b\":1,\"d\":2}}");
    let all_blank = vec![Field::new("a", "string?"), Field::new("c", "bool?")];
    let out = build_message(&schema, "x", &all_blank, false, &vals(&["", ""]));
    assert_eq!(out, "{}");
}

#[test]
fn fields_in_declared_order_without_trailing_comma() {
    let schema = sample_schema();
    let fields = vec![
        Field::new("z", "u64"),
        Field::new("a", "bool"),
        Field::new("m", "string"),
    ];
    let out = build_message(&schema, "v", &fields, false, &vals(&["7", "true", "hi"]));
    assert_eq!(out, "{\"z\":7,\"a\":true,\"m\":\"hi\"}");
}

#[test]
fn alias_to_string_is_quoted_and_escaped() {
    let schema = sample_schema();
    let fields = vec![Field::new("amount", "Uint128"), Field::new("note", "string")];
    let out = build_message(&schema, "v", &fields, false, &vals(&["100", "say \"hi\"\nnow"]));
    assert_eq!(out, "{\"amount\":\"100\",\"note\":\"say \\\"hi\\\"now\"}");
}

#[test]
fn nested_struct_is_expanded() {
    let schema = sample_schema();
    let fields = vec![Field::new("fund", "Coin"), Field::new("to", "string")];
    let asked = prompts(&schema, &fields);
    let names: Vec<String> = asked.iter().map(|f| f.name.clone()).collect();
    assert_eq!(names, vec![s("denom"), s("amount"), s("to")]);
    let out = build_message(&schema, "send", &fields, true, &vals(&["orai", "5", "bob"]));
    assert_eq!(out, "{\"send\":{\"fund\":{\"denom\":\"orai\",\"amount\":\"5\"},\"to\":\"bob\"}}");
}

#[test]
fn empty_struct_takes_one_raw_value() {
    let schema = sample_schema();
    let fields = vec![Field::new("e", "Empty")];
    assert_eq!(prompts(&schema, &fields).len(), 1);
    let out = build_message(&schema, "v", &fields, false, &vals(&["[1,2]"]));
    assert_eq!(out, "{\"e\":[1,2]}");
}

#[test]
fn optional_struct_reference_is_expanded() {
    let schema = sample_schema();
    let fields = vec![Field::new("fund", "Coin?")];
    let out = build_message(&schema, "v", &fields, false, &vals(&["a", "1"]));
    assert_eq!(out, "{\"fund\":{\"denom\":\"a\",\"amount\":\"1\"}}");
}

#[test]
fn non_enum_payload_is_bare_object() {
    let schema = sample_schema();
    let fields = vec![Field::new("count", "i32")];
    let out = build_message(&schema, "InitMsg", &fields, false, &vals(&["3"]));
    assert_eq!(out, "{\"count\":3}");
    let out = build_message(&schema, "reset", &fields, true, &vals(&["3"]));
    assert_eq!(out, "{\"reset\":{\"count\":3}}");
}

#[test]
fn leaf_entry_cases() {
    let schema = sample_schema();
    assert_eq!(leaf_entry(&schema, "memo", "string?", ""), None);
    assert_eq!(leaf_entry(&schema, "memo", "string?", "x"), Some(s("\"memo\":\"x\"")));
    assert_eq!(leaf_entry(&schema, "n", "u8", ""), Some(s("\"n\":")));
    assert_eq!(leaf_entry(&schema, "b", "Binary", "aGk="), Some(s("\"b\":\"aGk=\"")));
}

#[test]
fn blank_optional_empty_struct_is_left_out() {
    let schema = sample_schema();
    let fields = vec![Field::new("e", "Empty?")];
    let out = build_message(&schema, "v", &fields, false, &vals(&[""]));
    assert_eq!(out, "{}");
    let fields = vec![Field::new("a", "u8"), Field::new("e", "Empty?")];
    let out = build_message(&schema, "v", &fields, true, &vals(&["1", ""]));
    assert_eq!(out, "{\"v\":{\"a\":1}}");
    let out = build_message(&schema, "v", &fields, false, &vals(&["1", "null"]));
    assert_eq!(out, "{\"a\":1,\"e\":null}");
}
