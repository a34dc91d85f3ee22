use api_bones::bulk::{BulkItemResult, BulkRequest, BulkResponse};
use api_bones::error::{ApiError, ErrorCode};

fn make_error() -> ApiError {
    ApiError::not_found("item not found")
}

#[test]
fn bulk_request_construction() {
    let req: BulkRequest<i32> = BulkRequest {
        items: vec![1, 2, 3],
    };
    assert_eq!(req.items, vec![1, 2, 3]);
}

#[test]
fn bulk_request_empty() {
    let req: BulkRequest<String> = BulkRequest { items: vec![] };
    assert!(req.items.is_empty());
}

#[test]
fn bulk_item_result_success_is_success() {
    let r: BulkItemResult<i32> = BulkItemResult::Success { data: 42 };
    assert!(r.is_success());
    assert!(!r.is_failure());
}

#[test]
fn bulk_item_result_failure_is_failure() {
    let r: BulkItemResult<i32> = BulkItemResult::Failure {
        index: 0,
        error: make_error(),
    };
    assert!(r.is_failure());
    assert!(!r.is_success());
}

#[test]
fn bulk_response_all_success() {
    let response: BulkResponse<i32> = BulkResponse {
        results: vec![
            BulkItemResult::Success { data: 1 },
            BulkItemResult::Success { data: 2 },
        ],
    };
    assert_eq!(response.succeeded_count(), 2);
    assert_eq!(response.failed_count(), 0);
    assert!(!response.has_failures());
}

#[test]
fn bulk_response_all_failure() {
    let response: BulkResponse<i32> = BulkResponse {
        results: vec![
            BulkItemResult::Failure {
                index: 0,
                error: make_error(),
            },
            BulkItemResult::Failure {
                index: 1,
                error: make_error(),
            },
        ],
    };
    assert_eq!(response.succeeded_count(), 0);
    assert_eq!(response.failed_count(), 2);
    assert!(response.has_failures());
}

#[test]
fn bulk_response_mixed() {
    let response: BulkResponse<String> = BulkResponse {
        results: vec![
            BulkItemResult::Success {
                data: "ok".to_string(),
            },
            BulkItemResult::Failure {
                index: 1,
                error: make_error(),
            },
            BulkItemResult::Success {
                data: "also ok".to_string(),
            },
        ],
    };
    assert_eq!(response.succeeded_count(), 2);
    assert_eq!(response.failed_count(), 1);
    assert!(response.has_failures());
}

#[test]
fn bulk_response_empty() {
    let response: BulkResponse<i32> = BulkResponse { results: vec![] };
    assert_eq!(response.succeeded_count(), 0);
    assert_eq!(response.failed_count(), 0);
    assert!(!response.has_failures());
}

#[test]
fn bulk_item_result_failure_uses_api_error() {
    let error = ApiError::new(ErrorCode::ValidationFailed, "bad input");
    let r: BulkItemResult<()> = BulkItemResult::Failure { index: 0, error };
    if let BulkItemResult::Failure { error, .. } = &r {
        assert_eq!(error.code, ErrorCode::ValidationFailed);
    } else {
        panic!("expected Failure");
    }
}

// Own tests.

#[test]
fn bulk_counts_add_up_to_the_number_of_results() {
    let mut results = Vec::new();
    for i in 0..7usize {
        if i % 3 == 0 {
            results.push(BulkItemResult::Failure { index: i, error: make_error() });
        } else {
            results.push(BulkItemResult::Success { data: i });
        }
    }
    let response = BulkResponse { results };
    assert_eq!(response.succeeded_count(), 4);
    assert_eq!(response.failed_count(), 3);
    assert_eq!(response.succeeded_count() + response.failed_count(), 7);
    assert!(response.has_failures());
}
