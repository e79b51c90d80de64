use compare_heads::error::{AppError, FetchFailure};
use compare_heads::rpc::{
    block_number_from_parsed, fetch_block_number_response, get_block_number, parse_block_number,
    EthBlockNumberResponse, FetchOutcome, RpcCall, DEFAULT_TIMEOUT_MS,
};

const URL: &str = "https://rpc.example.org/sepolia";

fn reply(result: &str) -> FetchOutcome {
    FetchOutcome::Replied(EthBlockNumberResponse { id: 0, result: result.to_string() })
}

fn parse_error(raw: &str) -> AppError {
    AppError::ParseError { raw: raw.to_string() }
}

#[test]
fn hex_result_of_a_decoded_response_is_its_block_number() {
    let body = "{\"id\":0,\"result\":\"0x2a\"}";
    let value: serde_json::Value = serde_json::from_str(body).unwrap();
    let response = EthBlockNumberResponse {
        id: value["id"].as_u64().unwrap() as u8,
        result: value["result"].as_str().unwrap().to_string(),
    };
    assert_eq!(get_block_number(URL, FetchOutcome::Replied(response)), Ok(42));
}

#[test]
fn hex_result_parses() {
    assert_eq!(parse_block_number("0x2a"), Ok(42));
    assert_eq!(parse_block_number("0x0"), Ok(0));
    assert_eq!(parse_block_number("0xffffffff"), Ok(u32::MAX));
    assert_eq!(parse_block_number("0x5BAD55"), Ok(6_008_149));
}

#[test]
fn decimal_result_parses() {
    assert_eq!(parse_block_number("42"), Ok(42));
    assert_eq!(parse_block_number("0"), Ok(0));
    assert_eq!(parse_block_number("4294967295"), Ok(u32::MAX));
}

#[test]
fn octal_and_binary_results_parse() {
    assert_eq!(parse_block_number("0o52"), Ok(42));
    assert_eq!(parse_block_number("0b101010"), Ok(42));
}

#[test]
fn underscores_and_surrounding_blanks_are_passed_over() {
    assert_eq!(parse_block_number("1_000_000"), Ok(1_000_000));
    assert_eq!(parse_block_number("0x2a_2a"), Ok(0x2a2a));
    assert_eq!(parse_block_number(" 0x2a\n"), Ok(42));
}

#[test]
fn parsed_number_is_not_the_text_handed_back() {
    assert_eq!(parse_block_number("0x10"), Ok(16));
    assert_ne!(parse_block_number("0x10"), Ok(10));
}

#[test]
fn text_that_is_no_number_is_a_parse_error_with_the_raw_text() {
    assert_eq!(parse_block_number("oops"), Err(parse_error("oops")));
    assert_eq!(parse_block_number(""), Err(parse_error("")));
    assert_eq!(parse_block_number("0x"), Err(parse_error("0x")));
    assert_eq!(parse_block_number("0xzz"), Err(parse_error("0xzz")));
    assert_eq!(parse_block_number("_42"), Err(parse_error("_42")));
    assert_eq!(parse_block_number("12.5"), Err(parse_error("12.5")));
}

#[test]
fn number_out_of_range_is_a_parse_error() {
    assert_eq!(parse_block_number("4294967296"), Err(parse_error("4294967296")));
    assert_eq!(parse_block_number("0x100000000"), Err(parse_error("0x100000000")));
    assert_eq!(parse_block_number("-1"), Err(parse_error("-1")));
}

#[test]
fn verdict_of_the_parser_decides() {
    assert_eq!(block_number_from_parsed("0x2a", Ok(42)), Ok(42));
    assert_eq!(block_number_from_parsed("anything", Ok(7)), Ok(7));
    let refused = "oops".parse::<u32>();
    assert!(refused.is_err());
    assert_eq!(block_number_from_parsed("oops", refused), Err(parse_error("oops")));
}

#[test]
fn response_that_arrived_is_passed_on() {
    let fetched = fetch_block_number_response(URL, reply("0x2a"));
    assert_eq!(fetched, Ok(EthBlockNumberResponse { id: 0, result: "0x2a".to_string() }));
    let fetched = fetch_block_number_response(
        URL,
        FetchOutcome::Replied(EthBlockNumberResponse { id: 255, result: String::new() }),
    );
    assert_eq!(fetched, Ok(EthBlockNumberResponse { id: 255, result: String::new() }));
}

#[test]
fn failed_call_is_a_fetch_error_with_url_and_cause() {
    for cause in [FetchFailure::Timeout, FetchFailure::Transport, FetchFailure::Decode] {
        let fetched = fetch_block_number_response(URL, FetchOutcome::Failed(cause));
        assert_eq!(fetched, Err(AppError::FetchError { url: URL.to_string(), cause }));
        let head = get_block_number(URL, FetchOutcome::Failed(cause));
        assert_eq!(head, Err(AppError::FetchError { url: URL.to_string(), cause }));
    }
}

#[test]
fn block_number_of_a_reply_is_its_parsed_result() {
    assert_eq!(get_block_number(URL, reply("0x2a")), Ok(42));
    assert_eq!(get_block_number(URL, reply("1234567")), Ok(1_234_567));
    assert_eq!(get_block_number(URL, reply("oops")), Err(parse_error("oops")));
}

#[test]
fn id_of_the_response_does_not_matter() {
    let outcome = FetchOutcome::Replied(EthBlockNumberResponse { id: 9, result: "0x2a".to_string() });
    assert_eq!(get_block_number(URL, outcome), Ok(42));
}

#[test]
fn default_timeout_is_three_seconds() {
    assert_eq!(DEFAULT_TIMEOUT_MS, 3000);
}

#[test]
fn call_carries_index_url_body_and_timeout() {
    let call = RpcCall::block_number(3, URL, 1500);
    assert_eq!(call.index, 3);
    assert_eq!(call.url, URL);
    assert_eq!(call.timeout_ms, 1500);
    assert_eq!(
        call.body,
        "{\"jsonrpc\":\"2.0\",\"method\":\"eth_blockNumber\",\"params\":[],\"id\":0}"
    );
}

#[test]
fn body_is_the_json_rpc_envelope() {
    let call = RpcCall::block_number(0, URL, DEFAULT_TIMEOUT_MS);
    let value: serde_json::Value = serde_json::from_str(&call.body).unwrap();
    let envelope = value.as_object().unwrap();
    assert_eq!(envelope.len(), 4);
    assert_eq!(envelope["jsonrpc"].as_str(), Some("2.0"));
    assert_eq!(envelope["method"].as_str(), Some("eth_blockNumber"));
    assert_eq!(envelope["params"].as_array().map(|params| params.len()), Some(0));
    assert_eq!(envelope["id"].as_u64(), Some(0));
}

#[test]
fn body_is_the_same_for_every_call() {
    let first = RpcCall::block_number(0, "https://a.example", 1);
    let second = RpcCall::block_number(7, "https://b.example", 9000);
    assert_eq!(first.body, second.body);
}
