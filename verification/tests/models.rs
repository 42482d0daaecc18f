use secreton_api::models::{default_limit, HttpStatus, OperationResult, PaginatedResponse, SearchQuery};

#[test]
fn test_paginated_response() {
    let items = vec!["item1".to_string(), "item2".to_string()];
    let response = PaginatedResponse::new(items, 10, 5, 0);

    assert_eq!(response.items.len(), 2);
    assert_eq!(response.pagination.total, 10);
    assert_eq!(response.pagination.limit, 5);
    assert_eq!(response.pagination.offset, 0);
    assert!(response.pagination.has_next);
    assert!(!response.pagination.has_previous);
}

#[test]
fn test_operation_result() {
    let result = OperationResult::success("test data".to_string());
    assert!(result.success);
    assert_eq!(result.data, Some("test data".to_string()));

    let empty_result = OperationResult::success_empty();
    assert!(empty_result.success);
    assert!(empty_result.data.is_none());

    let failure_result = OperationResult::failure("error message".to_string());
    assert!(!failure_result.success);
    assert_eq!(failure_result.message, Some("error message".to_string()));
}

#[test]
fn test_search_query_default() {
    let query = SearchQuery {
        q: "test".to_string(),
        fields: vec![],
        limit: 50,
        offset: 0,
        sort: None,
        highlight: false,
        filters: None,
    };

    assert_eq!(query.q, "test");
    assert_eq!(query.limit, 50);
    assert!(!query.highlight);
}

#[test]
fn paginated_response_last_page_has_no_next() {
    let response = PaginatedResponse::new(vec![1u8, 2, 3], 13, 5, 10);
    assert!(!response.pagination.has_next);
    assert!(response.pagination.has_previous);
    let exact = PaginatedResponse::new(Vec::<u8>::new(), 10, 5, 5);
    assert!(!exact.pagination.has_next);
}

#[test]
fn operation_ids_are_fresh_hyphenated_uuids() {
    let a = OperationResult::success_message("done".to_string());
    let b = OperationResult::success_with_message(7u32, "ok".to_string());
    assert_eq!(a.operation_id.len(), 36);
    for (i, c) in a.operation_id.chars().enumerate() {
        if i == 8 || i == 13 || i == 18 || i == 23 {
            assert_eq!(c, '-');
        } else {
            assert!(c.is_ascii_hexdigit() && !c.is_ascii_uppercase());
        }
    }
    assert_ne!(a.operation_id, b.operation_id);
    assert_eq!(b.data, Some(7));
    assert_eq!(b.message, Some("ok".to_string()));
    assert!(a.timestamp > 1_600_000_000);
}

#[test]
fn http_status_codes_and_classes() {
    assert_eq!(HttpStatus::OK.code(), 200);
    assert_eq!(HttpStatus::NoContent.code(), 204);
    assert_eq!(HttpStatus::Conflict.code(), 409);
    assert_eq!(HttpStatus::TooManyRequests.code(), 429);
    assert_eq!(HttpStatus::GatewayTimeout.code(), 504);
    assert!(HttpStatus::Created.is_success());
    assert!(!HttpStatus::Created.is_client_error());
    assert!(HttpStatus::NotFound.is_client_error());
    assert!(!HttpStatus::NotFound.is_server_error());
    assert!(HttpStatus::BadGateway.is_server_error());
    assert!(!HttpStatus::BadGateway.is_success());
}

#[test]
fn default_page_size_is_fifty() {
    assert_eq!(default_limit(), 50);
}
