//! One JSON-RPC exchange with one provider: what is sent, and what is made
//! of the answer.

use core::num::ParseIntError;
use vstd::prelude::*;
use vstd::string::StringExecFns;
use crate::error::{AppError, AppErrorView, FetchFailure};

verus! {

/// The timeout of a call, in milliseconds, where nothing else is configured.
pub const DEFAULT_TIMEOUT_MS: u64 = 3000;

/// The body of every request: the JSON-RPC envelope that asks for the
/// current block number. It has no part that varies from call to call.
pub open spec fn request_body() -> Seq<char> {
    "{\"jsonrpc\":\"2.0\",\"method\":\"eth_blockNumber\",\"params\":[],\"id\":0}"@
}

/// One call that is to be made: an HTTP POST of `body` to `url`, given up
/// after `timeout_ms` milliseconds. `index` is the position of the provider
/// in the registry, and comes back with the outcome.
#[derive(Debug, PartialEq, Eq)]
pub struct RpcCall {
    pub index: usize,
    pub url: String,
    pub body: String,
    pub timeout_ms: u64,
}

/// The mathematical content of an [`RpcCall`].
pub struct RpcCallView {
    pub index: int,
    pub url: Seq<char>,
    pub body: Seq<char>,
    pub timeout_ms: u64,
}

impl View for RpcCall {
    type V = RpcCallView;

    open spec fn view(&self) -> RpcCallView {
        RpcCallView {
            index: self.index as int,
            url: self.url@,
            body: self.body@,
            timeout_ms: self.timeout_ms,
        }
    }
}

/// The call that asks the provider at `url` for its block number.
pub open spec fn block_number_call(index: int, url: Seq<char>, timeout_ms: u64) -> RpcCallView {
    RpcCallView { index, url, body: request_body(), timeout_ms }
}

impl RpcCall {
    /// The call that asks the provider at `url` for its block number.
    pub fn block_number(index: usize, url: &str, timeout_ms: u64) -> (call: RpcCall)
        ensures
            call@ == block_number_call(index as int, url@, timeout_ms),
    {
        RpcCall {
            index,
            url: String::from_str(url),
            body: String::from_str(
                "{\"jsonrpc\":\"2.0\",\"method\":\"eth_blockNumber\",\"params\":[],\"id\":0}",
            ),
            timeout_ms,
        }
    }
}

/// A provider's answer, decoded: the request's id and the block number as
/// the provider wrote it.
#[derive(Debug, PartialEq, Eq)]
pub struct EthBlockNumberResponse {
    pub id: u8,
    pub result: String,
}

/// The mathematical content of an [`EthBlockNumberResponse`].
pub struct EthBlockNumberResponseView {
    pub id: u8,
    pub result: Seq<char>,
}

impl View for EthBlockNumberResponse {
    type V = EthBlockNumberResponseView;

    open spec fn view(&self) -> EthBlockNumberResponseView {
        EthBlockNumberResponseView { id: self.id, result: self.result@ }
    }
}

/// How a call ended.
#[derive(Debug, PartialEq, Eq)]
pub enum FetchOutcome {
    /// A response arrived and was decoded.
    Replied(EthBlockNumberResponse),
    /// No usable response was had.
    Failed(FetchFailure),
}

/// The mathematical content of a [`FetchOutcome`].
pub enum FetchOutcomeView {
    Replied(EthBlockNumberResponseView),
    Failed(FetchFailure),
}

impl View for FetchOutcome {
    type V = FetchOutcomeView;

    open spec fn view(&self) -> FetchOutcomeView {
        match self {
            FetchOutcome::Replied(response) => FetchOutcomeView::Replied(response@),
            FetchOutcome::Failed(cause) => FetchOutcomeView::Failed(*cause),
        }
    }
}

/// The content of a block number or of the error that stands in its place.
pub open spec fn head_view(head: Result<u32, AppError>) -> Result<u32, AppErrorView> {
    match head {
        Ok(number) => Ok(number),
        Err(error) => Err(error@),
    }
}

#[verifier::external_type_specification]
#[verifier::external_body]
pub struct ExParseIntError(ParseIntError);

/// The number that `parse_int::parse::<u32>` reads from `text`, or `None`
/// where it reports an error.
pub uninterp spec fn parsed_literal(text: Seq<char>) -> Option<u32>;

/// Calls `parse_int::parse::<u32>`. The function reads a numeric literal,
/// decimal or with one of the prefixes `0x`, `0o`, `0b`, and depends on
/// nothing but the text it is given. The contract claims just that: what
/// comes back is the value that `parsed_literal` names for this text.
#[verifier::external_body]
fn parse_u32(text: &str) -> (parsed: Result<u32, ParseIntError>)
    ensures
        match parsed {
            Ok(number) => parsed_literal(text@) == Some(number),
            Err(_) => parsed_literal(text@) is None,
        },
{
    parse_int::parse::<u32>(text)
}

/// What a parser's verdict on `raw` means: the number, or a `ParseError`
/// that keeps `raw` for the logs.
pub open spec fn number_or_parse_error(raw: Seq<char>, parsed: Option<u32>) -> Result<
    u32,
    AppErrorView,
> {
    match parsed {
        Some(number) => Ok(number),
        None => Err(AppErrorView::ParseError { raw }),
    }
}

/// The block number that a call to `url` yields when it ends in `outcome`.
pub open spec fn reported_head(url: Seq<char>, outcome: FetchOutcomeView) -> Result<
    u32,
    AppErrorView,
> {
    match outcome {
        FetchOutcomeView::Replied(response) => number_or_parse_error(
            response.result,
            parsed_literal(response.result),
        ),
        FetchOutcomeView::Failed(cause) => Err(AppErrorView::FetchError { url, cause }),
    }
}

/// Turns the parser's verdict on `raw` into a block number or a
/// `ParseError`. The parser's own error is dropped: what the logs need is
/// the text that did not parse.
pub fn block_number_from_parsed(raw: &str, parsed: Result<u32, ParseIntError>) -> (head: Result<
    u32,
    AppError,
>)
    ensures
        head_view(head) == number_or_parse_error(
            raw@,
            match parsed {
                Ok(number) => Some(number),
                Err(_) => None,
            },
        ),
{
    match parsed {
        Ok(number) => Ok(number),
        Err(_) => Err(AppError::ParseError { raw: String::from_str(raw) }),
    }
}

/// Reads the block number that a provider wrote as `raw`.
pub fn parse_block_number(raw: &str) -> (head: Result<u32, AppError>)
    ensures
        head_view(head) == number_or_parse_error(raw@, parsed_literal(raw@)),
{
    block_number_from_parsed(raw, parse_u32(raw))
}

/// Settles whether the call to `url` produced a response: the response
/// itself, or a `FetchError` that names `url` and the cause.
pub fn fetch_block_number_response(url: &str, outcome: FetchOutcome) -> (fetched: Result<
    EthBlockNumberResponse,
    AppError,
>)
    ensures
        match outcome {
            FetchOutcome::Replied(response) => fetched == Ok::<EthBlockNumberResponse, AppError>(
                response,
            ),
            FetchOutcome::Failed(cause) => fetched matches Err(error) && error@
                == (AppErrorView::FetchError { url: url@, cause }),
        },
{
    match outcome {
        FetchOutcome::Replied(response) => Ok(response),
        FetchOutcome::Failed(cause) => Err(
            AppError::FetchError { url: String::from_str(url), cause },
        ),
    }
}

/// The block number that the provider at `url` reported, given how the call
/// to it ended.
pub fn get_block_number(url: &str, outcome: FetchOutcome) -> (head: Result<u32, AppError>)
    ensures
        head_view(head) == reported_head(url@, outcome@),
{
    match fetch_block_number_response(url, outcome) {
        Ok(response) => parse_block_number(response.result.as_str()),
        Err(error) => Err(error),
    }
}

} // verus!
