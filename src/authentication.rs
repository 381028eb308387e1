//! Credentials sent with HTTP Basic authentication, and the rules a new
//! password must meet.
use base64::Engine;
use vstd::prelude::*;
use vstd::string::StrSliceExecFns;
use vstd::utf8::{decode_utf8, encode_utf8, valid_utf8};

verus! {

/// Why a user could not be authenticated.
#[derive(Debug)]
pub enum AuthError {
    /// The credentials are missing, malformed or wrong; the text says which.
    InvalidCredentials(String),
    /// Something else failed.
    UnexpectedError(String),
}

/// A user name and a password.
#[derive(Debug)]
pub struct Credentials {
    pub username: String,
    pub password: String,
}

/// The bytes that the standard base64 alphabet (with padding) decodes `s` to,
/// or `None` where `s` is not such an encoding.
pub uninterp spec fn base64_decoded(s: Seq<char>) -> Option<Seq<u8>>;

/// Relies on `base64::engine::general_purpose::STANDARD.decode`.
#[verifier::external_body]
fn base64_decode(s: &str) -> (r: Option<Vec<u8>>)
    ensures
        match r {
            Some(b) => base64_decoded(s@) == Some(b@),
            None => base64_decoded(s@) is None,
        },
{
    base64::engine::general_purpose::STANDARD.decode(s).ok()
}

/// Relies on `String::from_utf8`: it accepts exactly the valid UTF-8
/// sequences, and the text is what they encode.
#[verifier::external_body]
fn string_from_utf8(b: Vec<u8>) -> (r: Option<String>)
    ensures
        r is Some <==> valid_utf8(b@),
        r matches Some(s) ==> s@ == decode_utf8(b@),
{
    String::from_utf8(b).ok()
}

/// `i` is the position of the first `:` in `s`.
pub open spec fn is_first_colon(s: Seq<char>, i: int) -> bool {
    0 <= i < s.len() && s[i] == ':' && forall|j: int| 0 <= j < i ==> #[trigger] s[j] != ':'
}

/// `s` split at its first `:` into user name and password.
pub open spec fn split_credentials(s: Seq<char>) -> Option<(Seq<char>, Seq<char>)> {
    if exists|i: int| 0 <= i < s.len() && #[trigger] s[i] == ':' {
        let i = choose|i: int| is_first_colon(s, i);
        Some((s.subrange(0, i), s.subrange(i + 1, s.len() as int)))
    } else {
        None
    }
}

pub open spec fn basic_prefix() -> Seq<char> {
    "Basic "@
}

/// What the `Authorization` header value `header` (`None` when absent) gives:
/// the user name and password, or the reason it gives none.
pub open spec fn basic_credentials(header: Option<Seq<char>>) -> Result<
    (Seq<char>, Seq<char>),
    Seq<char>,
> {
    match header {
        None => Err("The `Authorization` header was missing."@),
        Some(h) => if !(h.len() >= basic_prefix().len() && h.subrange(0, 6) == basic_prefix()) {
            Err("The authorization scheme is not `Basic`."@)
        } else {
            match base64_decoded(h.subrange(6, h.len() as int)) {
                None => Err("Failed to base64-decode `Basic` credentials."@),
                Some(bytes) => if !valid_utf8(bytes) {
                    Err("The decoded credential string is not a valid UTF-8."@)
                } else {
                    match split_credentials(decode_utf8(bytes)) {
                        None => Err("A password must be provided for `Basic` auth."@),
                        Some(c) => Ok(c),
                    }
                },
            }
        },
    }
}

pub open spec fn credentials_view(r: Result<Credentials, AuthError>) -> Result<
    (Seq<char>, Seq<char>),
    Seq<char>,
> {
    match r {
        Ok(c) => Ok((c.username@, c.password@)),
        Err(AuthError::InvalidCredentials(m)) => Err(m@),
        Err(AuthError::UnexpectedError(m)) => Err(m@),
    }
}

fn invalid(m: &str) -> (r: Result<Credentials, AuthError>)
    ensures
        r matches Err(AuthError::InvalidCredentials(x)) && x@ == m@,
{
    Err(AuthError::InvalidCredentials(m.to_owned()))
}

/// Reads HTTP Basic credentials from the value of the `Authorization` header
/// (`None` when the request has none): the value must start with `Basic `,
/// the rest must be base64 of UTF-8 text, and that text is split at its
/// first `:` into user name and password. Every failure is an
/// `InvalidCredentials` that says what was wrong.
pub fn basic_authentication(header: Option<&str>) -> (r: Result<Credentials, AuthError>)
    ensures
        r is Err ==> r matches Err(AuthError::InvalidCredentials(_)),
        credentials_view(r) == basic_credentials(
            match header {
                Some(h) => Some(h@),
                None => None,
            },
        ),
{
    let h = match header {
        Some(h) => h,
        None => {
            return invalid("The `Authorization` header was missing.");
        },
    };
    let n = h.unicode_len();
    proof {
        reveal_strlit("Basic ");
    }
    if n < 6 {
        return invalid("The authorization scheme is not `Basic`.");
    }
    let scheme = String::from_str(h.substring_char(0, 6));
    if scheme != String::from_str("Basic ") {
        return invalid("The authorization scheme is not `Basic`.");
    }
    let segment = h.substring_char(6, n);
    let bytes = match base64_decode(segment) {
        Some(b) => b,
        None => {
            return invalid("Failed to base64-decode `Basic` credentials.");
        },
    };
    let text = match string_from_utf8(bytes) {
        Some(t) => t,
        None => {
            return invalid("The decoded credential string is not a valid UTF-8.");
        },
    };
    let s = text.as_str();
    let len = s.unicode_len();
    let mut i: usize = 0;
    while i < len && s.get_char(i) != ':'
        invariant
            len == s@.len(),
            i <= len,
            forall|j: int| 0 <= j < i ==> #[trigger] s@[j] != ':',
        decreases len - i,
    {
        i += 1;
    }
    if i == len {
        return invalid("A password must be provided for `Basic` auth.");
    }
    proof {
        assert(is_first_colon(s@, i as int));
        let c = choose|c: int| is_first_colon(s@, c);
        assert(is_first_colon(s@, c));
        if c < i {
            assert(s@[c] != ':');
        }
        if c > i {
            assert(s@[i as int] != ':');
        }
    }
    let username = s.substring_char(0, i).to_owned();
    let password = s.substring_char(i + 1, len).to_owned();
    Ok(Credentials { username, password })
}

/// The least and largest number of bytes a new password may have.
pub const MIN_PASSWORD_BYTES: usize = 12;

pub const MAX_PASSWORD_BYTES: usize = 128;

/// Checks a new password and its confirmation: they must be equal, then the
/// password must be 12 to 128 bytes long. The error is the message to show.
pub fn check_new_password(new_password: &String, new_password_check: &String) -> (r: Result<
    (),
    &'static str,
>)
    ensures
        new_password@ != new_password_check@ ==> r == Err::<(), &str>("New passwords do not match"),
        new_password@ == new_password_check@ && !(MIN_PASSWORD_BYTES <= encode_utf8(new_password@).len()
            <= MAX_PASSWORD_BYTES) ==> r == Err::<(), &str>(
            "Password must be between 12 and 128 characters long",
        ),
        new_password@ == new_password_check@ && MIN_PASSWORD_BYTES <= encode_utf8(new_password@).len()
            <= MAX_PASSWORD_BYTES ==> r is Ok,
{
    if *new_password != *new_password_check {
        return Err("New passwords do not match");
    }
    let n = new_password.as_str().as_bytes().len();
    if n < MIN_PASSWORD_BYTES || n > MAX_PASSWORD_BYTES {
        return Err("Password must be between 12 and 128 characters long");
    }
    Ok(())
}

/// Why a login failed.
#[derive(Debug)]
pub enum LoginError {
    /// The credentials were not accepted.
    AuthError(String),
    /// Something else failed.
    UnexpectedError(String),
}

impl LoginError {
    /// The message shown to the user on the login page.
    pub fn message(&self) -> (r: &'static str)
        ensures
            self is AuthError ==> r == "Authentication failed",
            self is UnexpectedError ==> r == "Something went wrond",
    {
        match self {
            LoginError::AuthError(_) => "Authentication failed",
            LoginError::UnexpectedError(_) => "Something went wrond",
        }
    }
}

} // verus!
