use ws_benchmark::filter::FilterValue;
use ws_benchmark::wire::{build_url, filter_json, pong_control, raw_pong, subscribe_json};

fn single(val: &str) -> FilterValue {
    FilterValue::Single {
        key: b"token_address".to_vec(),
        cmp: b"eq".to_vec(),
        val: val.as_bytes().to_vec(),
    }
}

#[test]
fn single_filter_encodes_exactly() {
    let f = single("0xabc");
    assert_eq!(
        filter_json(&f),
        br#"{"key":"token_address","cmp":"eq","val":"0xabc"}"#.to_vec()
    );
}

#[test]
fn multiple_filter_encodes_exactly() {
    let f = FilterValue::Multiple {
        key: b"token_address".to_vec(),
        cmp: b"in".to_vec(),
        vals: vec![b"a".to_vec(), b"b".to_vec(), b"c".to_vec()],
    };
    assert_eq!(
        filter_json(&f),
        br#"{"key":"token_address","cmp":"in","vals":["a","b","c"]}"#.to_vec()
    );
}

#[test]
fn empty_vals_encode_as_empty_array() {
    let f = FilterValue::Multiple {
        key: b"token_address".to_vec(),
        cmp: b"in".to_vec(),
        vals: Vec::new(),
    };
    assert_eq!(
        filter_json(&f),
        br#"{"key":"token_address","cmp":"in","vals":[]}"#.to_vec()
    );
}

#[test]
fn escaping_covers_quote_backslash_and_control() {
    let f = single("a\"b\\c\nd");
    assert_eq!(
        filter_json(&f),
        b"{\"key\":\"token_address\",\"cmp\":\"eq\",\"val\":\"a\\\"b\\\\c\\u000ad\"}".to_vec()
    );
}

#[test]
fn subscribe_frame_encodes_exactly() {
    let f = single("t");
    assert_eq!(
        subscribe_json(&b"chan".to_vec(), &f),
        br#"{"event":"pusher:subscribe","data":{"channel":"chan","filter":{"key":"token_address","cmp":"eq","val":"t"}}}"#.to_vec()
    );
}

#[test]
fn heartbeat_replies() {
    assert_eq!(pong_control(), br#"{"event":"pusher:pong","data":{}}"#.to_vec());
    assert_eq!(raw_pong(), b"pong".to_vec());
}

#[test]
fn url_uses_wss_exactly_on_port_443() {
    assert_eq!(
        build_url(&b"example.com".to_vec(), 443, &b"key1".to_vec()),
        b"wss://example.com:443/app/key1".to_vec()
    );
    assert_eq!(
        build_url(&b"localhost".to_vec(), 8080, &b"k".to_vec()),
        b"ws://localhost:8080/app/k".to_vec()
    );
    assert_eq!(
        build_url(&b"h".to_vec(), 7, &b"k".to_vec()),
        b"ws://h:7/app/k".to_vec()
    );
}
