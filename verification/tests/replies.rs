use gd_profiles::catchers::{catch_400, catch_401, catch_404, catch_422, catch_500};
use gd_profiles::cors::CORS;
use gd_profiles::structs::{ApiResponse, DbErrorKind, ErrorReply, GenericError, ProfanityErrorType};

fn json(reply: ErrorReply) -> (u16, bool, String, bool) {
    match reply {
        ErrorReply::Json { status, body } => (status, body.success, body.message, body.data.is_none()),
        ErrorReply::Status(s) => panic!("bare status {}", s),
    }
}

#[test]
fn error_messages() {
    assert_eq!(GenericError::InvalidAuthenticationError.to_string(), "invalid authentication");
    assert_eq!(GenericError::UuidError.to_string(), "invalid uuid");
    assert_eq!(GenericError::ParseIntError.to_string(), "invalid digit");
    assert_eq!(GenericError::GetMysqlErr(DbErrorKind::Other).to_string(), "database error");
    assert_eq!(GenericError::InvalidPronounsError.to_string(), "invalid pronouns");
}

#[test]
fn auth_error_is_json_500() {
    assert_eq!(
        json(GenericError::InvalidAuthenticationError.respond_to()),
        (500, false, "invalid authentication".to_string(), true)
    );
}

#[test]
fn uuid_error_is_json_400() {
    assert_eq!(json(GenericError::UuidError.respond_to()), (400, false, "invalid uuid".to_string(), true));
}

#[test]
fn missing_row_is_json_404() {
    assert_eq!(
        json(GenericError::GetMysqlErr(DbErrorKind::RowNotFound).respond_to()),
        (404, false, "not found".to_string(), true)
    );
    assert_eq!(
        json(GenericError::GetMysqlErr(DbErrorKind::Other).respond_to()),
        (500, false, "database error".to_string(), true)
    );
}

#[test]
fn io_and_env_errors_are_json_500() {
    assert_eq!(json(GenericError::IOError.respond_to()), (500, false, "io error".to_string(), true));
    assert_eq!(
        json(GenericError::MissingEnvVarError.respond_to()),
        (500, false, "missing environment variable".to_string(), true)
    );
}

#[test]
fn other_errors_are_bare_500() {
    for e in [
        GenericError::ParseIntError,
        GenericError::MissingAuthHeaderError,
        GenericError::ProfanityError(ProfanityErrorType::Bio),
        GenericError::InvalidWebsiteError,
        GenericError::JsonError,
    ] {
        assert!(matches!(e.respond_to(), ErrorReply::Status(500)));
    }
}

#[test]
fn make_response_msg_uses_given_message() {
    assert_eq!(
        json(GenericError::JsonError.make_response_msg(418, "teapot".to_string())),
        (418, false, "teapot".to_string(), true)
    );
    assert_eq!(json(GenericError::RegexError.make_response(503)), (503, false, "regex error".to_string(), true));
}

#[test]
fn api_response_from_value() {
    let r: ApiResponse<u32> = ApiResponse::from(7);
    assert!(r.success);
    assert_eq!(r.message, "");
    assert_eq!(r.data, Some(7));
}

#[test]
fn catcher_bodies() {
    assert_eq!(catch_500(), "500 Internal Server Error");
    assert_eq!(catch_400(), "400 Bad Request");
    assert_eq!(catch_401(), "401 Unauthorized");
    assert_eq!(catch_404(), "404 Not Found");
    assert_eq!(catch_422(), "422 Unprocessable Entity");
}

#[test]
fn cors_headers() {
    assert_eq!(CORS::info_name(), "i hate CORS");
    let h = CORS::response_headers();
    assert_eq!(
        h,
        vec![
            ("Access-Control-Allow-Origin".to_string(), "*".to_string()),
            ("Access-Control-Allow-Methods".to_string(), "POST, GET, PATCH, OPTIONS".to_string()),
            ("Access-Control-Allow-Headers".to_string(), "*".to_string()),
            ("Access-Control-Allow-Credentials".to_string(), "true".to_string()),
        ]
    );
    gd_profiles::all_options();
}
