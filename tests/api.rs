use cosmwasm_simulate::api::{
    api_response, decode_payload, payload_text, prepare_call, route_query, CallError, PayloadFault,
    QueryError, QueryRequest,
};
use cosmwasm_simulate::registry::Registry;

#[test]
fn decodes_base64_json() {
    // {"a":1}
    assert_eq!(decode_payload("eyJhIjoxfQ==").unwrap(), "{\"a\":1}");
    assert_eq!(decode_payload("").unwrap(), "");
}

#[test]
fn rejects_bad_base64() {
    assert!(matches!(
        decode_payload("not base64!"),
        Err(CallError::MalformedPayload(PayloadFault::NotBase64))
    ));
}

#[test]
fn rejects_non_utf8() {
    assert!(matches!(
        decode_payload("/w=="),
        Err(CallError::MalformedPayload(PayloadFault::NotUtf8))
    ));
    assert!(matches!(
        payload_text(Some(vec![0xff])),
        Err(CallError::MalformedPayload(PayloadFault::NotUtf8))
    ));
    assert_eq!(payload_text(Some(vec![0x68, 0x69])).unwrap(), "hi");
    assert!(matches!(payload_text(None), Err(CallError::MalformedPayload(PayloadFault::NotBase64))));
}

#[test]
fn unknown_contract_is_reported_first() {
    let mut r: Registry<u8> = Registry::new();
    match prepare_call(&r, "nobody", "!!") {
        Err(CallError::NoSuchContract(a)) => assert_eq!(a, "nobody"),
        other => panic!("unexpected {:?}", other),
    }
    r.upsert("c", 0);
    assert_eq!(prepare_call(&r, "c", "e30=").unwrap(), "{}");
    let e = prepare_call(&r, "x", "e30=").unwrap_err();
    assert_eq!(e.message(), "No such contract: x");
}

#[test]
fn responses() {
    assert_eq!(api_response(&Ok("{\"n\":1}".to_string())), "{\"data\": {\"n\":1}}");
    assert_eq!(api_response(&Err("bad \"x\"".to_string())), "{\"error\": \"bad \\\"x\\\"\"}");
    assert_eq!(api_response(&Err("a\\b\nc\u{1}".to_string())), "{\"error\": \"a\\\\b\\nc\\u0001\"}");
    assert_eq!(api_response(&Err("tab\there".to_string())), "{\"error\": \"tab\\there\"}");
}

#[test]
fn query_routing() {
    let mut r: Registry<u8> = Registry::new();
    r.upsert("token", 0);
    let q = QueryRequest::Smart { contract_addr: "token".to_string(), msg: b"{}".to_vec() };
    assert_eq!(route_query(&r, &q).unwrap(), "token");
    let q = QueryRequest::Smart { contract_addr: "gone".to_string(), msg: vec![] };
    assert!(matches!(route_query(&r, &q), Err(QueryError::NoSuchContract(a)) if a == "gone"));
    assert!(matches!(route_query(&r, &QueryRequest::Other), Err(QueryError::UnsupportedRequest)));
}
