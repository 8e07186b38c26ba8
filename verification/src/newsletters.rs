//! The older publish path: authorise the caller, read the confirmed
//! subscriber rows, and build one newsletter email per recipient whose stored
//! address still parses, skipping the rest.

use vstd::prelude::*;
use vstd::string::StringExecFns;

use crate::domain::subscriber_email::{is_valid_email, SubscriberEmail};
use crate::email::{EmailMessage, EmailMessageView};
use crate::publish::{FormView, NewsletterFormData};
use crate::response::{HeaderPair, ResponseView, StoredResponse};

verus! {

/// Why the older publish path failed.
#[derive(Debug)]
pub enum PublishError {
    /// The caller is not an authenticated user.
    AuthError(String),
    /// Anything else; nothing was sent.
    UnexpectedError(String),
}

/// The response each error maps to: an authentication failure challenges the
/// caller for Basic credentials; anything else is a bare server error.
pub open spec fn error_response_view(e: &PublishError) -> ResponseView {
    match e {
        PublishError::AuthError(_) => ResponseView {
            status: 401,
            headers: seq![("WWW-Authenticate"@, "Basic realm=\"publish\""@)],
            body: Seq::empty(),
        },
        PublishError::UnexpectedError(_) => ResponseView {
            status: 500,
            headers: Seq::empty(),
            body: Seq::empty(),
        },
    }
}

impl PublishError {
    /// The HTTP status the error maps to.
    pub fn status_code(&self) -> (code: u16)
        ensures
            code == error_response_view(self).status,
    {
        match self {
            PublishError::AuthError(_) => 401,
            PublishError::UnexpectedError(_) => 500,
        }
    }

    /// The full response the error maps to.
    pub fn error_response(&self) -> (r: StoredResponse)
        ensures
            r@ == error_response_view(self),
    {
        match self {
            PublishError::UnexpectedError(_) => {
                let r = StoredResponse { status: 500, headers: Vec::new(), body: String::new() };
                proof {
                    assert(r@ =~= error_response_view(self));
                }
                r
            },
            PublishError::AuthError(_) => {
                let mut headers: Vec<HeaderPair> = Vec::new();
                headers.push(
                    HeaderPair {
                        name: String::from_str("WWW-Authenticate"),
                        value: String::from_str("Basic realm=\"publish\""),
                    },
                );
                let r = StoredResponse { status: 401, headers, body: String::new() };
                proof {
                    assert(r@.headers =~= error_response_view(self).headers);
                    assert(r@ =~= error_response_view(self));
                }
                r
            },
        }
    }
}

/// Parses each stored subscriber row into an email address, keeping the
/// outcome per row: a row that no longer parses is reported, not dropped.
pub fn get_confirmed_subscribers(rows: Vec<String>) -> (r: Vec<Result<SubscriberEmail, String>>)
    ensures
        r@.len() == rows@.len(),
        forall|i: int|
            0 <= i < rows@.len() ==> match #[trigger] r@[i] {
                Ok(email) => is_valid_email(rows@[i]@) && email@ == rows@[i]@,
                Err(_) => !is_valid_email(rows@[i]@),
            },
{
    let mut r: Vec<Result<SubscriberEmail, String>> = Vec::new();
    let mut i: usize = 0;
    while i < rows.len()
        invariant
            i <= rows@.len(),
            r@.len() == i,
            forall|j: int|
                0 <= j < i ==> match #[trigger] r@[j] {
                    Ok(email) => is_valid_email(rows@[j]@) && email@ == rows@[j]@,
                    Err(_) => !is_valid_email(rows@[j]@),
                },
        decreases rows@.len() - i,
    {
        let row = String::from_str(rows[i].as_str());
        r.push(SubscriberEmail::parse(row));
        i += 1;
    }
    r
}

/// The newsletter emails a publish of this form produces for these rows: one
/// per row that still parses as an address, in order, the others skipped.
pub open spec fn newsletter_messages(form: FormView, rows: Seq<Seq<char>>) -> Seq<EmailMessageView>
    decreases rows.len(),
{
    if rows.len() == 0 {
        Seq::empty()
    } else {
        newsletter_messages(form, rows.drop_last()) + (if is_valid_email(rows.last()) {
            seq![
                EmailMessageView {
                    to: rows.last(),
                    subject: form.title,
                    html_body: form.html_text,
                    text_body: form.text,
                },
            ]
        } else {
            Seq::empty()
        })
    }
}

/// The older publish entry point: refuses an unauthenticated caller outright,
/// and otherwise builds the newsletter email for every subscriber row whose
/// stored address still parses, skipping the invalid rows.
pub fn publish_newsletter(
    user_id: Option<u64>,
    form: &NewsletterFormData,
    subscriber_rows: Vec<String>,
) -> (r: Result<Vec<EmailMessage>, PublishError>)
    ensures
        match r {
            Ok(messages) => user_id is Some && messages@.map_values(|m: EmailMessage| m@)
                == newsletter_messages(form@, subscriber_rows@.map_values(|s: String| s@)),
            Err(e) => user_id is None && e is AuthError,
        },
{
    if user_id.is_none() {
        return Err(PublishError::AuthError(String::from_str("Unauthorised user")));
    }
    let ghost rows_view = subscriber_rows@.map_values(|s: String| s@);
    let mut messages: Vec<EmailMessage> = Vec::new();
    let mut i: usize = 0;
    while i < subscriber_rows.len()
        invariant
            i <= subscriber_rows@.len(),
            rows_view == subscriber_rows@.map_values(|s: String| s@),
            messages@.map_values(|m: EmailMessage| m@) == newsletter_messages(
                form@,
                rows_view.subrange(0, i as int),
            ),
        decreases subscriber_rows@.len() - i,
    {
        let ghost prefix = rows_view.subrange(0, i as int);
        let ghost prefix1 = rows_view.subrange(0, i as int + 1);
        proof {
            assert(prefix1.drop_last() =~= prefix);
            assert(prefix1.last() == rows_view[i as int]);
        }
        let row = String::from_str(subscriber_rows[i].as_str());
        match SubscriberEmail::parse(row) {
            Ok(email) => {
                let ghost old_messages = messages@;
                let message = EmailMessage {
                    to: String::from_str(email.as_ref()),
                    subject: String::from_str(form.title.as_str()),
                    html_body: String::from_str(form.html_text.as_str()),
                    text_body: String::from_str(form.text.as_str()),
                };
                messages.push(message);
                proof {
                    assert(messages@.map_values(|m: EmailMessage| m@) =~= old_messages.map_values(
                        |m: EmailMessage| m@,
                    ) + seq![
                        EmailMessageView {
                            to: rows_view[i as int],
                            subject: form@.title,
                            html_body: form@.html_text,
                            text_body: form@.text,
                        },
                    ]);
                }
            },
            Err(_) => {
                // A stored address that no longer parses is skipped; the
                // other recipients still receive the issue.
                proof {
                    assert(newsletter_messages(form@, prefix1) =~= newsletter_messages(
                        form@,
                        prefix,
                    ));
                }
            },
        }
        i += 1;
    }
    proof {
        assert(rows_view.subrange(0, rows_view.len() as int) =~= rows_view);
    }
    Ok(messages)
}

} // verus!
