use compare_heads::endpoint::{respond, Reply, ReplyBody};
use compare_heads::aggregate::BlockNumberByProvider;
use compare_heads::error::{AppError, FetchFailure, STATUS_INTERNAL_SERVER_ERROR, STATUS_OK};

fn fetch_error() -> AppError {
    AppError::FetchError {
        url: "https://sepolia.infura.io/v3/s3cr3t".to_string(),
        cause: FetchFailure::Transport,
    }
}

#[test]
fn status_constants() {
    assert_eq!(STATUS_OK, 200);
    assert_eq!(STATUS_INTERNAL_SERVER_ERROR, 500);
}

#[test]
fn fetch_error_has_the_generic_message() {
    assert_eq!(fetch_error().message(), "Could not fetch block number");
    assert_eq!(fetch_error().status_code(), 500);
}

#[test]
fn parse_error_has_the_generic_message() {
    let error = AppError::ParseError { raw: "oops".to_string() };
    assert_eq!(error.message(), "Could not parse block number");
    assert_eq!(error.status_code(), 500);
}

#[test]
fn config_error_has_a_message() {
    let error = AppError::ConfigError { variable: "INFURA_KEY".to_string() };
    assert_eq!(error.message(), "Missing required configuration");
    assert_eq!(error.status_code(), 500);
}

#[test]
fn message_leaks_neither_url_nor_raw_value() {
    for cause in [FetchFailure::Timeout, FetchFailure::Transport, FetchFailure::Decode] {
        let error = AppError::FetchError { url: "https://host/v3/s3cr3t".to_string(), cause };
        assert!(!error.message().contains("s3cr3t"));
        assert!(!error.message().contains("host"));
        assert_eq!(error.message(), fetch_error().message());
    }
    let error = AppError::ParseError { raw: "s3cr3t".to_string() };
    assert!(!error.message().contains("s3cr3t"));
}

#[test]
fn error_clone_is_equal() {
    let errors = [
        fetch_error(),
        AppError::ParseError { raw: "oops".to_string() },
        AppError::ConfigError { variable: "INFURA_KEY".to_string() },
    ];
    for error in errors {
        assert_eq!(error.clone(), error);
    }
}

#[test]
fn error_becomes_a_500_reply_with_its_message() {
    assert_eq!(
        fetch_error().into_response(),
        Reply {
            status: 500,
            body: ReplyBody::Error { error: "Could not fetch block number".to_string() },
        }
    );
    assert_eq!(
        AppError::ParseError { raw: "oops".to_string() }.into_response(),
        Reply {
            status: 500,
            body: ReplyBody::Error { error: "Could not parse block number".to_string() },
        }
    );
}

#[test]
fn digest_becomes_a_200_reply() {
    let digest = vec![
        BlockNumberByProvider { provider: "infura".to_string(), block_number: Some(42) },
        BlockNumberByProvider { provider: "bordel".to_string(), block_number: None },
    ];
    let expected = vec![
        BlockNumberByProvider { provider: "infura".to_string(), block_number: Some(42) },
        BlockNumberByProvider { provider: "bordel".to_string(), block_number: None },
    ];
    assert_eq!(respond(Ok(digest)), Reply { status: 200, body: ReplyBody::Digest(expected) });
}

#[test]
fn empty_digest_becomes_a_200_reply() {
    assert_eq!(respond(Ok(Vec::new())), Reply { status: 200, body: ReplyBody::Digest(Vec::new()) });
}

#[test]
fn failed_comparison_becomes_a_500_reply() {
    assert_eq!(
        respond(Err(fetch_error())),
        Reply {
            status: 500,
            body: ReplyBody::Error { error: "Could not fetch block number".to_string() },
        }
    );
}
