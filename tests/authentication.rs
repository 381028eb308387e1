use zero2prod::authentication::{basic_authentication, check_new_password, AuthError, LoginError};

fn reason(header: Option<&str>) -> String {
    match basic_authentication(header) {
        Err(AuthError::InvalidCredentials(m)) => m,
        _ => panic!("expected invalid credentials"),
    }
}

#[test]
fn basic_credentials_are_decoded() {
    // "user:pa:ss" in base64
    let c = basic_authentication(Some("Basic dXNlcjpwYTpzcw==")).ok().unwrap();
    assert_eq!(c.username, "user");
    assert_eq!(c.password, "pa:ss");
}

#[test]
fn each_basic_failure_says_why() {
    assert_eq!(reason(None), "The `Authorization` header was missing.");
    assert_eq!(reason(Some("Bearer abc")), "The authorization scheme is not `Basic`.");
    assert_eq!(reason(Some("Basic !!!")), "Failed to base64-decode `Basic` credentials.");
    // 0xff 0xfe
    assert_eq!(reason(Some("Basic //4=")), "The decoded credential string is not a valid UTF-8.");
    // "user"
    assert_eq!(reason(Some("Basic dXNlcg==")), "A password must be provided for `Basic` auth.");
}

#[test]
fn new_password_fields_must_match() {
    let r = check_new_password(&"new pasword".to_string(), &"new password check".to_string());
    assert_eq!(r, Err("New passwords do not match"));
}

#[test]
fn new_password_must_be_at_least_12_characters_long() {
    let r = check_new_password(&"short".to_string(), &"short".to_string());
    assert_eq!(r, Err("Password must be between 12 and 128 characters long"));
}

#[test]
fn new_password_must_be_at_most_128_characters_long() {
    let p = "a".repeat(130);
    assert_eq!(check_new_password(&p, &p), Err("Password must be between 12 and 128 characters long"));
    let p = "a".repeat(128);
    assert_eq!(check_new_password(&p, &p), Ok(()));
}

#[test]
fn login_errors_have_messages() {
    assert_eq!(LoginError::AuthError(String::new()).message(), "Authentication failed");
    assert_eq!(LoginError::UnexpectedError(String::new()).message(), "Something went wrond");
}
