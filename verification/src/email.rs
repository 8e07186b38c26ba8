//! The email messages the service asks its email collaborator to send: the
//! newsletter issue for one recipient, and the confirmation email a sign-up
//! triggers.

use vstd::prelude::*;
use vstd::string::StringExecFns;

use crate::domain::new_subscriber::NewSubscriber;

verus! {

/// The mathematical shape of one outgoing email.
#[verifier::ext_equal]
pub struct EmailMessageView {
    pub to: Seq<char>,
    pub subject: Seq<char>,
    pub html_body: Seq<char>,
    pub text_body: Seq<char>,
}

/// One outgoing email, ready for the sending collaborator.
#[derive(Debug)]
pub struct EmailMessage {
    pub to: String,
    pub subject: String,
    pub html_body: String,
    pub text_body: String,
}

impl View for EmailMessage {
    type V = EmailMessageView;

    open spec fn view(&self) -> EmailMessageView {
        EmailMessageView {
            to: self.to@,
            subject: self.subject@,
            html_body: self.html_body@,
            text_body: self.text_body@,
        }
    }
}

/// The confirmation link a sign-up email carries.
pub open spec fn confirmation_link_view(app_base_url: Seq<char>, token: Seq<char>) -> Seq<char> {
    app_base_url + "subscriptions/confirm?subscription_token="@ + token
}

/// The body of the confirmation email, around its link.
pub open spec fn confirmation_body_view(link: Seq<char>) -> Seq<char> {
    "Welcome to our newsletter!<br />Click <a href=\""@ + link
        + "\">here</a> to confirm your subscription."@
}

/// The confirmation email for a new subscriber: a welcome note holding the
/// link that carries the subscription token back.
pub fn send_confirmation_email(
    new_subscriber: &NewSubscriber,
    app_base_url: &str,
    subscription_token: &str,
) -> (r: EmailMessage)
    ensures
        r@.to == new_subscriber.email@,
        r@.subject == "Welcome!"@,
        r@.text_body == confirmation_body_view(
            confirmation_link_view(app_base_url@, subscription_token@),
        ),
        r@.html_body == r@.text_body,
{
    let confirmation_link = String::from_str(app_base_url).concat(
        "subscriptions/confirm?subscription_token=",
    ).concat(subscription_token);
    let body = String::from_str("Welcome to our newsletter!<br />Click <a href=\"").concat(
        confirmation_link.as_str(),
    ).concat("\">here</a> to confirm your subscription.");
    let html_body = String::from_str(body.as_str());
    EmailMessage {
        to: String::from_str(new_subscriber.email.as_ref()),
        subject: String::from_str("Welcome!"),
        html_body,
        text_body: body,
    }
}

} // verus!
