use eip1193_browser::{
    join_responses, parse_params, response_payload, Eip1193Request, JsonValue, Provider,
    ResponsePayload, Address,
};
use eip1193_browser::provider::MAINNET_CHAIN_ID;

fn s(t: &str) -> JsonValue {
    JsonValue::String(t.to_string())
}

fn obj(members: Vec<(&str, JsonValue)>) -> JsonValue {
    JsonValue::Object(members.into_iter().map(|(k, v)| (k.to_string(), v)).collect())
}

fn map(members: Vec<(&str, JsonValue)>) -> JsonValue {
    JsonValue::JsMap(members.into_iter().map(|(k, v)| (k.to_string(), v)).collect())
}

#[test]
fn params_null_is_empty() {
    assert_eq!(parse_params(JsonValue::Null), vec![]);
}

#[test]
fn params_other_values_are_empty() {
    assert_eq!(parse_params(JsonValue::Bool(true)), vec![]);
    assert_eq!(parse_params(JsonValue::Number("12".to_string())), vec![]);
    assert_eq!(parse_params(obj(vec![("type", s("0x02"))])), vec![]);
}

#[test]
fn params_map_gives_its_member_pairs() {
    let out = parse_params(map(vec![("type", s("0x02")), ("n", JsonValue::Null)]));
    assert_eq!(
        out,
        vec![
            JsonValue::Array(vec![s("type"), s("0x02")]),
            JsonValue::Array(vec![s("n"), JsonValue::Null]),
        ]
    );
    assert_eq!(parse_params(map(vec![])), vec![]);
}

#[test]
fn params_string_gives_its_characters() {
    assert_eq!(parse_params(s("ab")), vec![s("a"), s("b")]);
    assert_eq!(parse_params(s("")), vec![]);
}

#[test]
fn params_transaction_types_are_shortened() {
    let tx = obj(vec![("to", s("0x01")), ("type", s("0x02")), ("value", s("0x0"))]);
    let out = parse_params(JsonValue::Array(vec![tx, s("latest")]));
    assert_eq!(
        out,
        vec![obj(vec![("to", s("0x01")), ("type", s("0x2")), ("value", s("0x0"))]), s("latest")]
    );
    for (long, short) in [("0x01", "0x1"), ("0x02", "0x2"), ("0x03", "0x3")] {
        let out = parse_params(JsonValue::Array(vec![obj(vec![("type", s(long)), ("to", s("0x0a"))])]));
        assert_eq!(out, vec![obj(vec![("type", s(short)), ("to", s("0x0a"))])]);
    }
}

#[test]
fn params_other_items_stay() {
    let items = vec![
        obj(vec![("type", s("0x04"))]),
        obj(vec![("type", s("0x2"))]),
        obj(vec![("type", JsonValue::Number("2".to_string()))]),
        obj(vec![("kind", s("0x02"))]),
        obj(vec![("inner", obj(vec![("type", s("0x02"))]))]),
        map(vec![("type", s("0x02"))]),
        JsonValue::Array(vec![obj(vec![("type", s("0x02"))])]),
        s("0x02"),
        JsonValue::Number("1".to_string()),
    ];
    let out = parse_params(JsonValue::Array(items.clone()));
    assert_eq!(out, items);
}

#[test]
fn params_normalising_twice_is_once_law() {
    let input = JsonValue::Array(vec![obj(vec![("type", s("0x01"))]), s("x")]);
    let once = parse_params(input);
    let twice = parse_params(JsonValue::Array(once.clone()));
    assert_eq!(once, twice);
}

#[test]
fn request_string_params_pass_unchanged() {
    let r = Eip1193Request::for_rpc("wallet_switchEthereumChain".to_string(), Some(s("{\"chainId\":\"0x1\"}")));
    assert_eq!(r.method(), "wallet_switchEthereumChain");
    assert_eq!(r.params(), s("{\"chainId\":\"0x1\"}"));
}

#[test]
fn request_absent_params_are_an_empty_list() {
    let r = Eip1193Request::for_rpc("eth_accounts".to_string(), None);
    assert_eq!(r.params(), JsonValue::Array(vec![]));
}

#[test]
fn request_json_objects_are_sent_as_given() {
    let r = Eip1193Request::for_rpc(
        "eth_sendTransaction".to_string(),
        Some(JsonValue::Array(vec![map(vec![("type", s("0x02"))])])),
    );
    assert_eq!(r.params(), JsonValue::Array(vec![map(vec![("type", s("0x02"))])]));
}

#[test]
fn request_plain_objects_are_normalised() {
    let r = Eip1193Request::for_rpc(
        "eth_sendTransaction".to_string(),
        Some(JsonValue::Array(vec![obj(vec![("type", s("0x02"))])])),
    );
    assert_eq!(r.params(), JsonValue::Array(vec![obj(vec![("type", s("0x2"))])]));
}

#[test]
fn request_json_object_params_become_member_pairs() {
    let r = Eip1193Request::for_rpc("eth_estimateGas".to_string(), Some(map(vec![("to", s("0x1"))])));
    assert_eq!(r.params(), JsonValue::Array(vec![JsonValue::Array(vec![s("to"), s("0x1")])]));
}

#[test]
fn request_new_and_getters() {
    let r = Eip1193Request::new("eth_chainId".to_string(), JsonValue::Null);
    assert_eq!(r.method(), "eth_chainId");
    assert_eq!(r.params(), JsonValue::Null);
}

#[test]
fn response_success_carries_the_value() {
    match response_payload(Ok(s("0x1"))) {
        ResponsePayload::Success(v) => assert_eq!(v, s("0x1")),
        other => panic!("unexpected {:?}", other),
    }
}

#[test]
fn response_failure_carries_the_thrown_value() {
    let thrown = obj(vec![("code", JsonValue::Number("4001".to_string()))]);
    match response_payload(Err(thrown.clone())) {
        ResponsePayload::Failure(p) => {
            assert_eq!(p.code, 666);
            assert_eq!(p.message, "need to parse JsValue into this");
            assert_eq!(p.data, Some(thrown));
        }
        other => panic!("unexpected {:?}", other),
    }
}

#[test]
fn batch_all_ok() {
    let r: Result<Vec<u32>, &str> = join_responses(vec![Ok(1), Ok(2), Ok(3)]);
    assert_eq!(r, Ok(vec![1, 2, 3]));
    let r: Result<Vec<u32>, &str> = join_responses(vec![]);
    assert_eq!(r, Ok(vec![]));
}

#[test]
fn batch_first_error_wins() {
    let r: Result<Vec<u32>, &str> = join_responses(vec![Ok(1), Err("a"), Ok(3), Err("b")]);
    assert_eq!(r, Err("a"));
}

#[test]
fn json_equality_and_clone() {
    let v = JsonValue::Array(vec![obj(vec![("a", JsonValue::Bool(false))]), JsonValue::Null]);
    assert_eq!(v.clone(), v);
    assert_ne!(v, JsonValue::Array(vec![]));
    assert_ne!(obj(vec![("a", JsonValue::Null)]), obj(vec![("b", JsonValue::Null)]));
    assert_ne!(obj(vec![("a", JsonValue::Null)]), map(vec![("a", JsonValue::Null)]));
    assert_eq!(map(vec![("a", s("x"))]).clone(), map(vec![("a", s("x"))]));
    assert_ne!(s("1"), JsonValue::Number("1".to_string()));
}

#[test]
fn provider_needs_accounts() {
    assert!(Provider::new(vec![], Some(5)).is_none());
    let p = Provider::new(vec![Address::zero()], Some(137)).unwrap();
    assert_eq!(p.from, vec![Address::zero()]);
    assert_eq!(p.chain_id, 137);
    let p = Provider::new(vec![Address::zero()], None).unwrap();
    assert_eq!(p.chain_id, 1);
}

#[test]
fn chain_id_asked_only_with_accounts() {
    assert!(!Provider::wants_chain_id(&vec![]));
    assert!(Provider::wants_chain_id(&vec![Address::zero()]));
}

#[test]
fn provider_resume_is_on_mainnet() {
    assert!(Provider::resume(vec![]).is_none());
    let p = Provider::resume(vec![Address::zero(), Address::zero()]).unwrap();
    assert_eq!(p.from.len(), 2);
    assert_eq!(p.chain_id, MAINNET_CHAIN_ID);
}
