use masternode::discovery::{
    get_peers, get_port, peers_request, peers_url, reply_peers, reply_text, Exchange, HttpError,
    PeerInfo, RpcCall, RpcResult, HTTP_OK, PEER_QUERY_DEADLINE_MS,
};
use std::cell::Cell;

fn peer(name: &str, number: u32) -> PeerInfo {
    PeerInfo {
        peer_id: name.to_string(),
        roles: "FULL".to_string(),
        best_hash: "0xabc".to_string(),
        best_number: number,
    }
}

#[test]
fn port_is_written_in_decimal() {
    assert_eq!(get_port(9933), "9933");
    assert_eq!(get_port(65535), "65535");
    assert_eq!(get_port(10000), "10000");
    assert_eq!(get_port(8080), "8080");
    assert_eq!(get_port(1001), "1001");
    assert_eq!(get_port(100), "100");
    assert_eq!(get_port(80), "80");
    assert_eq!(get_port(7), "7");
}

#[test]
fn port_zero_has_no_digits() {
    assert_eq!(get_port(0), "");
}

#[test]
fn every_port_is_written_as_its_number() {
    let mut port: u16 = 1;
    loop {
        assert_eq!(get_port(port), format!("{}", port));
        if port == u16::MAX {
            break;
        }
        port += 1;
    }
}

#[test]
fn the_query_goes_to_the_local_endpoint() {
    assert_eq!(peers_url(9933), "http://127.0.0.1:9933");
    assert_eq!(peers_url(80), "http://127.0.0.1:80");
    assert_eq!(peers_url(0), "http://127.0.0.1:");
}

#[test]
fn the_query_asks_for_the_system_peers() {
    assert_eq!(
        peers_request(),
        RpcCall {
            id: 1,
            jsonrpc: "2.0".to_string(),
            method: "system_peers".to_string(),
        }
    );
    assert_eq!(PEER_QUERY_DEADLINE_MS, 2000);
    assert_eq!(HTTP_OK, 200);
}

#[test]
fn an_answer_with_status_200_yields_its_text() {
    let body = br#"{"jsonrpc":"2.0","result":[],"id":1}"#.to_vec();
    let exchange = Exchange::Answered { code: 200, body };
    assert_eq!(reply_text(&exchange), Ok(r#"{"jsonrpc":"2.0","result":[],"id":1}"#));
    let empty = Exchange::Answered { code: 200, body: vec![] };
    assert_eq!(reply_text(&empty), Ok(""));
}

#[test]
fn an_answer_keeps_text_beyond_ascii() {
    let text = "pe\u{e9}r \u{4e2d}\u{6587} \u{1F600}";
    let exchange = Exchange::Answered { code: 200, body: text.as_bytes().to_vec() };
    assert_eq!(reply_text(&exchange), Ok(text));
}

#[test]
fn an_answer_with_another_status_is_unusable() {
    for code in [0u16, 199, 201, 204, 301, 404, 500] {
        let exchange = Exchange::Answered { code, body: b"[]".to_vec() };
        assert_eq!(reply_text(&exchange), Err(HttpError::Unknown));
    }
}

#[test]
fn an_answer_that_is_not_utf8_is_unusable() {
    for body in [vec![0xff], vec![b'a', 0xc3], vec![0xc0, 0x80], vec![0xed, 0xa0, 0x80]] {
        let exchange = Exchange::Answered { code: 200, body };
        assert_eq!(reply_text(&exchange), Err(HttpError::Unknown));
    }
}

#[test]
fn a_failed_exchange_reports_why() {
    assert_eq!(reply_text(&Exchange::NotSent), Err(HttpError::IoError));
    assert_eq!(reply_text(&Exchange::TimedOut), Err(HttpError::DeadlineReached));
    assert_eq!(
        reply_text(&Exchange::Failed(HttpError::DeadlineReached)),
        Err(HttpError::DeadlineReached)
    );
    assert_eq!(reply_text(&Exchange::Failed(HttpError::IoError)), Err(HttpError::IoError));
    assert_eq!(reply_text(&Exchange::Failed(HttpError::Unknown)), Err(HttpError::Unknown));
}

#[test]
fn a_parsed_answer_yields_its_peers() {
    let answer = RpcResult {
        jsonrpc: "2.0".to_string(),
        result: vec![peer("2g", 5), peer("a3gV", 6)],
        id: 1,
    };
    assert_eq!(reply_peers(Some(answer)), Ok(vec![peer("2g", 5), peer("a3gV", 6)]));
}

#[test]
fn a_parsed_answer_without_peers_yields_an_empty_list() {
    let answer = RpcResult { jsonrpc: "2.0".to_string(), result: vec![], id: 1 };
    assert_eq!(reply_peers(Some(answer)), Ok(vec![]));
}

#[test]
fn an_unparsed_answer_yields_no_peers() {
    assert_eq!(reply_peers(None), Err(HttpError::Unknown));
}

fn parse(text: &str) -> Option<RpcResult> {
    let names = text.strip_prefix("peers:")?;
    Some(RpcResult {
        jsonrpc: "2.0".to_string(),
        result: names.split(',').filter(|n| !n.is_empty()).map(|n| peer(n, 1)).collect(),
        id: 1,
    })
}

#[test]
fn a_good_answer_is_parsed_into_its_peers() {
    let exchange = Exchange::Answered { code: 200, body: b"peers:2g,a3gV".to_vec() };
    assert_eq!(get_peers(&exchange, parse), Ok(vec![peer("2g", 1), peer("a3gV", 1)]));
    let nobody = Exchange::Answered { code: 200, body: b"peers:".to_vec() };
    assert_eq!(get_peers(&nobody, parse), Ok(vec![]));
}

#[test]
fn a_malformed_answer_is_a_failed_query() {
    let exchange = Exchange::Answered { code: 200, body: b"not-json".to_vec() };
    assert_eq!(get_peers(&exchange, parse), Err(HttpError::Unknown));
    let empty = Exchange::Answered { code: 200, body: vec![] };
    assert_eq!(get_peers(&empty, parse), Err(HttpError::Unknown));
}

#[test]
fn an_unusable_answer_is_not_parsed_at_all() {
    let asked = Cell::new(false);
    let spy = |text: &str| {
        asked.set(true);
        parse(text)
    };
    let outcomes = [
        (Exchange::NotSent, HttpError::IoError),
        (Exchange::TimedOut, HttpError::DeadlineReached),
        (Exchange::Failed(HttpError::IoError), HttpError::IoError),
        (Exchange::Answered { code: 500, body: b"peers:2g".to_vec() }, HttpError::Unknown),
        (Exchange::Answered { code: 200, body: vec![0xff, 0xfe] }, HttpError::Unknown),
    ];
    for (exchange, error) in outcomes.iter() {
        assert_eq!(get_peers(exchange, &spy), Err(*error));
    }
    assert!(!asked.get());
}
