//! Domain types for subscriber sign-up: validated names and email addresses,
//! and the pair of them that a new subscription carries.

pub mod new_subscriber;
pub mod subscriber_email;
pub mod subscriber_name;
pub mod subscriptions;
