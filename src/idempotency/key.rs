use vstd::prelude::*;
use vstd::utf8::encode_utf8;

verus! {

/// A key must be shorter than this many bytes.
pub const MAX_KEY_BYTES: usize = 50;

/// A key is not empty and its UTF-8 encoding is shorter than 50 bytes.
pub open spec fn key_valid(s: Seq<char>) -> bool {
    s.len() > 0 && encode_utf8(s).len() < MAX_KEY_BYTES
}

/// A client-supplied token that marks repeated submissions of one logical
/// request; it is meaningful only together with the acting user.
#[derive(Debug)]
pub struct IdempotencyKey {
    key: String,
}

impl View for IdempotencyKey {
    type V = Seq<char>;

    closed spec fn view(&self) -> Seq<char> {
        self.key@
    }
}

impl IdempotencyKey {
    /// Accepts a non-empty key shorter than 50 bytes.
    pub fn parse(s: String) -> (r: Result<IdempotencyKey, String>)
        ensures
            r is Ok <==> key_valid(s@),
            r matches Ok(k) ==> k@ == s@,
            s@.len() == 0 ==> (r matches Err(m) && m@ == "The idempotency key cannot be empty"@),
            s@.len() > 0 && !key_valid(s@) ==> (r matches Err(m) && m@
                == "The idempotency key must be shorter than 50 characters"@),
    {
        if s.as_str().is_empty() {
            return Err(String::from_str("The idempotency key cannot be empty"));
        }
        if s.as_str().as_bytes().len() >= MAX_KEY_BYTES {
            return Err(String::from_str("The idempotency key must be shorter than 50 characters"));
        }
        Ok(IdempotencyKey { key: s })
    }

    /// The key as text.
    pub fn as_str(&self) -> (r: &str)
        ensures
            r@ == self@,
    {
        self.key.as_str()
    }

    /// The key as an owned string's reference.
    pub fn as_string(&self) -> (r: &String)
        ensures
            r@ == self@,
    {
        &self.key
    }
}

} // verus!
