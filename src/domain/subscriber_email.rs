use vstd::prelude::*;

verus! {

/// Whether `validator::validate_email` accepts the address.
pub uninterp spec fn email_valid(s: Seq<char>) -> bool;

/// Relies on `validator::validate_email` (0.16): an empty address, or one
/// without `@`, is rejected before any other test is made.
#[verifier::external_body]
fn validate_email(s: &str) -> (r: bool)
    ensures
        r == email_valid(s@),
        s@.len() == 0 ==> !r,
        !s@.contains('@') ==> !r,
{
    validator::validate_email(s)
}

/// An e-mail address that has passed validation.
#[derive(Debug)]
pub struct SubscriberEmail {
    email: String,
}

impl View for SubscriberEmail {
    type V = Seq<char>;

    closed spec fn view(&self) -> Seq<char> {
        self.email@
    }
}

impl SubscriberEmail {
    /// Accepts `s` exactly when the address validator does; the error names
    /// the rejected address.
    pub fn parse(s: &str) -> (r: Result<SubscriberEmail, String>)
        ensures
            r is Ok <==> email_valid(s@),
            s@.len() == 0 ==> r is Err,
            !s@.contains('@') ==> r is Err,
            r matches Ok(e) ==> e@ == s@,
            r matches Err(m) ==> m@ == s@ + " email is invalid"@,
    {
        if !validate_email(s) {
            let mut m = s.to_owned();
            m.append(" email is invalid");
            return Err(m);
        }
        Ok(SubscriberEmail { email: s.to_owned() })
    }

    /// The address as text.
    pub fn as_str(&self) -> (r: &str)
        ensures
            r@ == self@,
    {
        self.email.as_str()
    }
}

} // verus!
