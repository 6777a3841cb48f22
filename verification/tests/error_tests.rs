use scenario_api::errors::ApiError;

#[test]
fn status_codes_follow_the_taxonomy() {
    assert_eq!(ApiError::AuthError(String::from("x")).status_code(), 401);
    assert_eq!(ApiError::ForbiddenError(String::from("x")).status_code(), 403);
    assert_eq!(ApiError::NotFoundError(String::from("x")).status_code(), 404);
    assert_eq!(ApiError::BadRequestError(String::from("x")).status_code(), 400);
    assert_eq!(ApiError::InternalError(String::from("x")).status_code(), 500);
    assert_eq!(ApiError::DbError(String::from("x")).status_code(), 500);
}

#[test]
fn error_bodies_carry_status_text_and_prefixed_message() {
    let body = ApiError::AuthError(String::from("bad token")).error_response();
    assert_eq!(body.status.as_str(), "401 Unauthorized");
    assert_eq!(body.message.as_str(), "Authentication error: bad token");

    let body = ApiError::NotFoundError(String::from("no such row")).error_response();
    assert_eq!(body.status.as_str(), "404 Not Found");
    assert_eq!(body.message.as_str(), "Not found: no such row");

    let body = ApiError::BadRequestError(String::from("dup")).error_response();
    assert_eq!(body.status.as_str(), "400 Bad Request");
    assert_eq!(body.message.as_str(), "Bad request: dup");

    let body = ApiError::ForbiddenError(String::from("no")).error_response();
    assert_eq!(body.status.as_str(), "403 Forbidden");
    assert_eq!(body.message.as_str(), "Authorization error: no");

    let body = ApiError::InternalError(String::from("boom")).error_response();
    assert_eq!(body.status.as_str(), "500 Internal Server Error");
    assert_eq!(body.message.as_str(), "Internal server error: boom");

    let body = ApiError::DbError(String::from("down")).error_response();
    assert_eq!(body.status.as_str(), "500 Internal Server Error");
    assert_eq!(body.message.as_str(), "Database error: down");
}
