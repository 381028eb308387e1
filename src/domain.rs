use vstd::prelude::*;

pub mod subscriber_email;
pub mod subscriber_name;

pub use subscriber_email::SubscriberEmail;
pub use subscriber_name::SubscriberName;

verus! {

/// A subscriber whose name and address have both been validated.
#[derive(Debug)]
pub struct NewSubscriber {
    pub email: SubscriberEmail,
    pub name: SubscriberName,
}

} // verus!
