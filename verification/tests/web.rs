use clishare::service::ServiceError;
use clishare::web::api::{
    ApiError, ApiKey, ApiKeyError, API_KEY_HEADER, API_KEY_LEN, STATUS_BAD_REQUEST,
    STATUS_INTERNAL_SERVER_ERROR, STATUS_NOT_FOUND, STATUS_UNAUTHORIZED,
};
use clishare::web::http::{
    clip_refusal, form_error_notices, FORM_ERROR_NOTICE, SERVER_ERROR_NOTICE,
};
use clishare::web::{PageError, PASSWORD_COOKIE};
use std::str::FromStr;

#[test]
fn constants_of_the_web_layer() {
    assert_eq!(API_KEY_HEADER, "x-api-key");
    assert_eq!(PASSWORD_COOKIE, "password");
    assert_eq!(API_KEY_LEN, 16);
    assert_eq!(STATUS_BAD_REQUEST, 400);
    assert_eq!(STATUS_UNAUTHORIZED, 401);
    assert_eq!(STATUS_NOT_FOUND, 404);
    assert_eq!(STATUS_INTERNAL_SERVER_ERROR, 500);
    assert_eq!(SERVER_ERROR_NOTICE, "A server error occurred. Please try again");
    assert_eq!(FORM_ERROR_NOTICE, "An error occurred, please try again");
}

#[test]
fn api_key_default_has_sixteen_bytes() {
    let key = ApiKey::default();
    assert_eq!(key.clone().into_inner().len(), 16);
    let differs = (0..20).any(|_| ApiKey::default().into_inner() != key.clone().into_inner());
    assert!(differs);
}

#[test]
fn api_key_encodes_to_base64() {
    let key = ApiKey::from_str("AAECAw==").unwrap();
    assert_eq!(key.clone().into_inner(), vec![0, 1, 2, 3]);
    assert_eq!(key.to_base64(), "AAECAw==");
    let key = ApiKey::from_decoded(Ok((0u8..16).collect())).unwrap();
    assert_eq!(key.to_base64(), "AAECAwQFBgcICQoLDA0ODw==");
    let key = ApiKey::from_decoded(Ok(Vec::new())).unwrap();
    assert_eq!(key.to_base64(), "");
}

#[test]
fn api_key_decodes_from_base64() {
    let key = ApiKey::from_str("aGVsbG8=").unwrap();
    assert_eq!(key.into_inner(), b"hello".to_vec());
    let key = ApiKey::from_str("").unwrap();
    assert_eq!(key.into_inner(), Vec::<u8>::new());
    let fresh = ApiKey::default();
    let again = ApiKey::from_str(&fresh.to_base64()).unwrap();
    assert_eq!(again.into_inner(), fresh.into_inner());
}

#[test]
fn api_key_rejects_what_is_not_base64() {
    match ApiKey::from_str("not base64!") {
        Err(ApiKeyError::DecodeError(detail)) => {
            assert_eq!(detail, "Invalid byte 32, offset 3.");
        }
        other => panic!("expected a decode error, got {:?}", other),
    }
    assert!(matches!(
        ApiKey::from_str("AAECAw="),
        Err(ApiKeyError::DecodeError(_))
    ));
    #[allow(deprecated)]
    let failure = base64::decode("%%%%").unwrap_err();
    match ApiKey::from_str("%%%%") {
        Err(ApiKeyError::DecodeError(detail)) => assert_eq!(detail, failure.to_string()),
        other => panic!("expected a decode error, got {:?}", other),
    }
    match ApiKey::from_decoded(Err("Invalid padding".to_string())) {
        Err(ApiKeyError::DecodeError(detail)) => assert_eq!(detail, "Invalid padding"),
        other => panic!("expected a decode error, got {:?}", other),
    }
}

#[test]
fn api_key_errors_have_status_and_message() {
    let not_found = ApiKeyError::NotFound("x".to_string());
    assert_eq!(not_found.status(), 404);
    assert_eq!(not_found.message(), "API key not found");
    let decode = ApiKeyError::DecodeError("y".to_string());
    assert_eq!(decode.status(), 400);
    assert_eq!(decode.message(), "invalid API key format");
}

#[test]
fn api_errors_have_status_and_message() {
    let error = ApiError::NotFound("x".to_string());
    assert_eq!((error.status(), error.message()), (404, "not found"));
    let error = ApiError::Server("x".to_string());
    assert_eq!((error.status(), error.message()), (500, "server error"));
    let error = ApiError::User("x".to_string());
    assert_eq!((error.status(), error.message()), (401, "client error"));
    let error = ApiError::KeyError(ApiKeyError::NotFound("x".to_string()));
    assert_eq!((error.status(), error.message()), (400, "key error"));
}

#[test]
fn api_error_from_service_error() {
    match ApiError::from(ServiceError::Clip("empty content".to_string())) {
        ApiError::User(detail) => assert_eq!(detail, "clip parsing error: empty content"),
        other => panic!("unexpected {:?}", other),
    }
    match ApiError::from(ServiceError::NotFound) {
        ApiError::NotFound(detail) => assert_eq!(detail, "entity not found"),
        other => panic!("unexpected {:?}", other),
    }
    match ApiError::from(ServiceError::Data("disk full".to_string())) {
        ApiError::Server(detail) => assert_eq!(detail, "a server error occurred"),
        other => panic!("unexpected {:?}", other),
    }
    match ApiError::from(ServiceError::PermissionError("invalid password".to_string())) {
        ApiError::User(detail) => assert_eq!(detail, "invalid password"),
        other => panic!("unexpected {:?}", other),
    }
}

#[test]
fn guard_turns_away_a_request_without_a_key() {
    for database_ready in [true, false] {
        match ApiKey::from_header(None, database_ready) {
            Err(rejection) => {
                assert_eq!(rejection.status, 400);
                match rejection.error {
                    ApiError::KeyError(ApiKeyError::NotFound(detail)) => {
                        assert_eq!(detail, "API key not found")
                    }
                    other => panic!("unexpected {:?}", other),
                }
            }
            Ok(key) => panic!("unexpected {:?}", key),
        }
    }
}

#[test]
fn guard_fails_when_the_database_is_not_at_hand() {
    for header in ["AAECAw==", "not base64!"] {
        match ApiKey::from_header(Some(header), false) {
            Err(rejection) => {
                assert_eq!(rejection.status, 500);
                match rejection.error {
                    ApiError::Server(detail) => assert_eq!(detail, "server error"),
                    other => panic!("unexpected {:?}", other),
                }
            }
            Ok(key) => panic!("unexpected {:?}", key),
        }
    }
}

#[test]
fn guard_turns_away_a_malformed_key() {
    match ApiKey::from_header(Some("not base64!"), true) {
        Err(rejection) => {
            assert_eq!(rejection.status, 400);
            assert!(matches!(
                rejection.error,
                ApiError::KeyError(ApiKeyError::DecodeError(_))
            ));
        }
        Ok(key) => panic!("unexpected {:?}", key),
    }
}

#[test]
fn guard_hands_out_a_well_formed_key_and_lets_a_valid_one_in() {
    let key = match ApiKey::from_header(Some("AAECAw=="), true) {
        Ok(key) => key,
        Err(rejection) => panic!("unexpected {:?}", rejection.error),
    };
    assert_eq!(key.clone().into_inner(), vec![0, 1, 2, 3]);
    match key.clone().checked(Some(true)) {
        Ok(admitted) => assert_eq!(admitted.into_inner(), vec![0, 1, 2, 3]),
        Err(rejection) => panic!("unexpected {:?}", rejection.error),
    }
    match key.clone().checked(Some(false)) {
        Err(rejection) => {
            assert_eq!(rejection.status, 400);
            match rejection.error {
                ApiError::KeyError(ApiKeyError::NotFound(detail)) => {
                    assert_eq!(detail, "API key not found")
                }
                other => panic!("unexpected {:?}", other),
            }
        }
        Ok(key) => panic!("unexpected {:?}", key),
    }
    match key.checked(None) {
        Err(rejection) => {
            assert_eq!(rejection.status, 500);
            match rejection.error {
                ApiError::Server(detail) => assert_eq!(detail, "server error"),
                other => panic!("unexpected {:?}", other),
            }
        }
        Ok(key) => panic!("unexpected {:?}", key),
    }
}

#[test]
fn page_errors_have_a_status() {
    assert_eq!(PageError::Serialization("x".to_string()).status(), 500);
    assert_eq!(PageError::Render("x".to_string()).status(), 500);
    assert_eq!(PageError::NotFound("x".to_string()).status(), 404);
    assert_eq!(PageError::Internal("x".to_string()).status(), 500);
}

#[test]
fn page_error_from_a_render_error() {
    let failure = handlebars::RenderError::new("no such helper");
    let expected = failure.to_string();
    assert_eq!(expected, "no such helper");
    match PageError::from(failure) {
        PageError::Render(detail) => assert_eq!(detail, expected),
        other => panic!("unexpected {:?}", other),
    }
}

#[test]
fn page_error_from_a_json_error() {
    let failure = serde_json::from_str::<serde_json::Value>("{").unwrap_err();
    let expected = failure.to_string();
    assert!(!expected.is_empty());
    match PageError::from(failure) {
        PageError::Serialization(detail) => assert_eq!(detail, expected),
        other => panic!("unexpected {:?}", other),
    }
}

#[test]
fn clip_page_answers_a_refusal() {
    match clip_refusal(&ServiceError::PermissionError("invalid password".to_string())) {
        Ok(status) => assert_eq!(status, 401),
        Err(error) => panic!("unexpected {:?}", error),
    }
    match clip_refusal(&ServiceError::NotFound) {
        Err(PageError::NotFound(detail)) => assert_eq!(detail, "clip not found"),
        other => panic!("unexpected {:?}", other),
    }
    match clip_refusal(&ServiceError::Data("disk full".to_string())) {
        Err(PageError::Internal(detail)) => assert_eq!(detail, "server error"),
        other => panic!("unexpected {:?}", other),
    }
    match clip_refusal(&ServiceError::Clip("empty content".to_string())) {
        Err(PageError::Internal(detail)) => assert_eq!(detail, "server error"),
        other => panic!("unexpected {:?}", other),
    }
}

#[test]
fn form_errors_become_notices() {
    let errors = vec![
        Some("please enter a title".to_string()),
        None,
        Some("content is required".to_string()),
    ];
    assert_eq!(
        form_error_notices(&errors),
        vec![
            "please enter a title".to_string(),
            "An error occurred, please try again".to_string(),
            "content is required".to_string(),
        ]
    );
    assert!(form_error_notices(&Vec::new()).is_empty());
}
