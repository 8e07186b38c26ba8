//! The subscriber directory: sign-up with validation, confirmation tokens,
//! and the confirmed-recipient snapshot the publish path reads. Sign-up files
//! a subscriber as pending; following the emailed confirmation link marks the
//! subscriber confirmed; only confirmed subscribers receive issues.

use vstd::prelude::*;
use vstd::string::StringExecFns;

use rand::Rng;

use crate::domain::new_subscriber::NewSubscriber;
use crate::domain::subscriber_email::{is_valid_email, SubscriberEmail};
use crate::domain::subscriber_name::{valid_subscriber_name, SubscriberName};
use crate::text::str_eq;

verus! {

/// The raw pair a sign-up form carries.
#[derive(Debug)]
pub struct FormData {
    pub email: String,
    pub name: String,
}

impl NewSubscriber {
    /// Validates a raw form into a new subscriber: the name first, then the
    /// email, reporting the first failure.
    pub fn try_from(value: FormData) -> (r: Result<NewSubscriber, String>)
        ensures
            match r {
                Ok(ns) => valid_subscriber_name(value.name@) && is_valid_email(value.email@)
                    && ns.name@ == value.name@ && ns.email@ == value.email@,
                Err(_) => !valid_subscriber_name(value.name@) || !is_valid_email(value.email@),
            },
    {
        let name = match SubscriberName::parse(value.name) {
            Ok(name) => name,
            Err(e) => {
                return Err(e);
            },
        };
        let email = match SubscriberEmail::parse(value.email) {
            Ok(email) => email,
            Err(e) => {
                return Err(e);
            },
        };
        Ok(NewSubscriber { email, name })
    }
}

/// What went wrong during sign-up.
#[derive(Debug)]
pub enum SubscriberError {
    /// The form's name or email was rejected: the caller can mend the input.
    ValidationError(String),
    /// The sign-up could not be recorded; nothing was changed.
    UnexpectedError(String),
}

impl SubscriberError {
    /// The HTTP status the error maps to.
    pub fn status_code(&self) -> (code: u16)
        ensures
            code == match self {
                SubscriberError::ValidationError(_) => 400u16,
                SubscriberError::UnexpectedError(_) => 500u16,
            },
    {
        match self {
            SubscriberError::ValidationError(_) => 400,
            SubscriberError::UnexpectedError(_) => 500,
        }
    }
}

/// A confirmation token could not be stored.
#[derive(Debug)]
pub struct StoreTokenError;

impl StoreTokenError {
    /// What the failure means, in words.
    pub fn message(&self) -> (m: String)
        ensures
            m@ == "A failure was encountered while trying to store a subscription token."@,
    {
        String::from_str("A failure was encountered while trying to store a subscription token.")
    }
}

/// The query parameters of a confirmation request.
#[derive(Debug)]
pub struct Parameters {
    pub subscription_token: String,
}

/// What went wrong while confirming a subscription.
#[derive(Debug)]
pub enum SubscribeConfirmError {
    /// No subscriber is associated with the provided token.
    UnknownToken,
    /// The confirmation could not be recorded; nothing was changed.
    UnexpectedError(String),
}

impl SubscribeConfirmError {
    /// The HTTP status the error maps to.
    pub fn status_code(&self) -> (code: u16)
        ensures
            code == match self {
                SubscribeConfirmError::UnknownToken => 401u16,
                SubscribeConfirmError::UnexpectedError(_) => 500u16,
            },
    {
        match self {
            SubscribeConfirmError::UnknownToken => 401,
            SubscribeConfirmError::UnexpectedError(_) => 500,
        }
    }
}

/// Where a subscription stands.
#[derive(Clone, Copy, PartialEq, Eq, Structural, Debug)]
pub enum SubscriberStatus {
    PendingConfirmation,
    Confirmed,
}

/// The mathematical shape of one subscriber row.
#[verifier::ext_equal]
pub struct SubscriberView {
    pub subscriber_id: u64,
    pub email: Seq<char>,
    pub name: Seq<char>,
    pub status: SubscriberStatus,
    pub subscribed_at: u64,
}

/// One subscriber row.
pub struct SubscriberRecord {
    pub subscriber_id: u64,
    pub email: String,
    pub name: String,
    pub status: SubscriberStatus,
    pub subscribed_at: u64,
}

impl View for SubscriberRecord {
    type V = SubscriberView;

    open spec fn view(&self) -> SubscriberView {
        SubscriberView {
            subscriber_id: self.subscriber_id,
            email: self.email@,
            name: self.name@,
            status: self.status,
            subscribed_at: self.subscribed_at,
        }
    }
}

/// The mathematical shape of one stored token.
#[verifier::ext_equal]
pub struct TokenView {
    pub subscription_token: Seq<char>,
    pub subscriber_id: u64,
}

/// One stored confirmation token.
pub struct TokenRecord {
    pub subscription_token: String,
    pub subscriber_id: u64,
}

impl View for TokenRecord {
    type V = TokenView;

    open spec fn view(&self) -> TokenView {
        TokenView {
            subscription_token: self.subscription_token@,
            subscriber_id: self.subscriber_id,
        }
    }
}

/// The mathematical shape of the directory.
#[verifier::ext_equal]
pub struct DirectoryView {
    pub subscribers: Seq<SubscriberView>,
    pub tokens: Seq<TokenView>,
}

/// The emails of the confirmed subscribers, in sign-up order.
pub open spec fn confirmed_emails(subs: Seq<SubscriberView>) -> Seq<Seq<char>>
    decreases subs.len(),
{
    if subs.len() == 0 {
        Seq::empty()
    } else {
        confirmed_emails(subs.drop_last()) + (if subs.last().status is Confirmed {
            seq![subs.last().email]
        } else {
            Seq::empty()
        })
    }
}

/// The views of a sequence of owned email strings.
pub open spec fn emails_view(v: Seq<String>) -> Seq<Seq<char>> {
    v.map_values(|s: String| s@)
}

/// A fresh receipt of a recorded sign-up: the new subscriber's identifier and
/// the confirmation token that was stored for it.
#[derive(Debug)]
pub struct SubscriptionReceipt {
    pub subscriber_id: u64,
    pub subscription_token: String,
}

/// True for the bytes rand's Alphanumeric distribution can produce: ASCII
/// digits and letters.
pub open spec fn is_alphanumeric_byte(b: u8) -> bool {
    (48 <= b <= 57) || (65 <= b <= 90) || (97 <= b <= 122)
}

/// The character form of the same ranges.
pub open spec fn is_alphanumeric_char(c: char) -> bool {
    ('0' <= c <= '9') || ('A' <= c <= 'Z') || ('a' <= c <= 'z')
}

#[verifier::external_type_specification]
#[verifier::external_body]
pub struct ExThreadRng(rand::rngs::ThreadRng);

/// Relies on rand::thread_rng for the thread-local random generator.
#[verifier::external_body]
fn fresh_rng() -> rand::rngs::ThreadRng {
    rand::thread_rng()
}

/// Relies on rand's Alphanumeric distribution: every sample is an ASCII
/// digit or letter, whatever the generator produced.
#[verifier::external_body]
fn sample_alphanumeric(rng: &mut rand::rngs::ThreadRng) -> (b: u8)
    ensures
        is_alphanumeric_byte(b),
{
    rng.sample(rand::distributions::Alphanumeric)
}

/// Relies on String::from_utf8: ASCII bytes decode to the string whose
/// characters are those bytes, one for one.
#[verifier::external_body]
fn string_from_ascii(v: Vec<u8>) -> (r: String)
    requires
        forall|i: int| 0 <= i < v@.len() ==> v@[i] < 128,
    ensures
        r@.len() == v@.len(),
        forall|i: int| 0 <= i < v@.len() ==> r@[i] == v@[i] as char,
{
    String::from_utf8(v).unwrap()
}

/// A fresh 25-character alphanumeric confirmation token.
pub fn generate_subscription_token() -> (t: String)
    ensures
        t@.len() == 25,
        forall|i: int| 0 <= i < t@.len() ==> is_alphanumeric_char(#[trigger] t@[i]),
{
    let mut rng = fresh_rng();
    let mut bytes: Vec<u8> = Vec::new();
    let mut i: usize = 0;
    while i < 25
        invariant
            i <= 25,
            bytes@.len() == i,
            forall|j: int| 0 <= j < i ==> is_alphanumeric_byte(#[trigger] bytes@[j]),
        decreases 25 - i,
    {
        bytes.push(sample_alphanumeric(&mut rng));
        i += 1;
    }
    string_from_ascii(bytes)
}

/// The subscriber directory itself: the rows of subscribers and the stored
/// confirmation tokens.
pub struct SubscriberDirectory {
    subscribers: Vec<SubscriberRecord>,
    tokens: Vec<TokenRecord>,
}

impl View for SubscriberDirectory {
    type V = DirectoryView;

    closed spec fn view(&self) -> DirectoryView {
        DirectoryView {
            subscribers: self.subscribers@.map_values(|s: SubscriberRecord| s@),
            tokens: self.tokens@.map_values(|t: TokenRecord| t@),
        }
    }
}

impl SubscriberDirectory {
    /// Each subscriber is filed under its position; tokens are unique and
    /// reference existing subscribers.
    pub open spec fn wf(&self) -> bool {
        &&& forall|i: int|
            0 <= i < self@.subscribers.len() ==> (#[trigger] self@.subscribers[i]).subscriber_id
                == i
        &&& forall|i: int, j: int|
            0 <= i < self@.tokens.len() && 0 <= j < self@.tokens.len() && i != j ==> (
            #[trigger] self@.tokens[i]).subscription_token != (
            #[trigger] self@.tokens[j]).subscription_token
        &&& forall|i: int|
            0 <= i < self@.tokens.len() ==> (#[trigger] self@.tokens[i]).subscriber_id
                < self@.subscribers.len()
    }

    /// An empty directory.
    pub fn new() -> (r: SubscriberDirectory)
        ensures
            r.wf(),
            r@.subscribers == Seq::<SubscriberView>::empty(),
            r@.tokens == Seq::<TokenView>::empty(),
    {
        let r = SubscriberDirectory { subscribers: Vec::new(), tokens: Vec::new() };
        proof {
            assert(r@.subscribers =~= Seq::<SubscriberView>::empty());
            assert(r@.tokens =~= Seq::<TokenView>::empty());
        }
        r
    }

    /// How many subscribers are filed, pending ones included.
    pub fn len(&self) -> (n: usize)
        ensures
            n == self@.subscribers.len(),
    {
        self.subscribers.len()
    }

    /// The subscriber row at an identifier, if it exists.
    pub fn get(&self, subscriber_id: u64) -> (r: Option<&SubscriberRecord>)
        requires
            self.wf(),
        ensures
            match r {
                Some(s) => subscriber_id < self@.subscribers.len() && s@
                    == self@.subscribers[subscriber_id as int],
                None => subscriber_id >= self@.subscribers.len(),
            },
    {
        if subscriber_id < self.subscribers.len() as u64 {
            Some(&self.subscribers[subscriber_id as usize])
        } else {
            None
        }
    }

    /// Files a validated subscriber as pending confirmation, under a fresh
    /// identifier.
    pub fn insert_subscriber(&mut self, new_subscriber: &NewSubscriber, now: u64) -> (id: u64)
        requires
            old(self).wf(),
            old(self)@.subscribers.len() < u64::MAX,
        ensures
            final(self).wf(),
            id == old(self)@.subscribers.len(),
            final(self)@.subscribers == old(self)@.subscribers.push(
                SubscriberView {
                    subscriber_id: id,
                    email: new_subscriber.email@,
                    name: new_subscriber.name@,
                    status: SubscriberStatus::PendingConfirmation,
                    subscribed_at: now,
                },
            ),
            final(self)@.tokens == old(self)@.tokens,
    {
        let id = self.subscribers.len() as u64;
        let record = SubscriberRecord {
            subscriber_id: id,
            email: String::from_str(new_subscriber.email.as_ref()),
            name: String::from_str(new_subscriber.name.as_ref()),
            status: SubscriberStatus::PendingConfirmation,
            subscribed_at: now,
        };
        let ghost old_view = self@;
        self.subscribers.push(record);
        proof {
            assert(self@.subscribers =~= old_view.subscribers.push(
                SubscriberView {
                    subscriber_id: id,
                    email: new_subscriber.email@,
                    name: new_subscriber.name@,
                    status: SubscriberStatus::PendingConfirmation,
                    subscribed_at: now,
                },
            ));
            assert(self@.tokens =~= old_view.tokens);
        }
        id
    }

    /// The index of a stored token, if any.
    fn find_token(&self, subscription_token: &str) -> (r: Option<usize>)
        ensures
            match r {
                Some(i) => i < self@.tokens.len() && self@.tokens[i as int].subscription_token
                    == subscription_token@,
                None => forall|i: int|
                    0 <= i < self@.tokens.len() ==> (#[trigger] self@.tokens[i]).subscription_token
                        != subscription_token@,
            },
    {
        let mut i: usize = 0;
        while i < self.tokens.len()
            invariant
                i <= self.tokens@.len(),
                self@.tokens.len() == self.tokens@.len(),
                forall|j: int|
                    0 <= j < i ==> (#[trigger] self@.tokens[j]).subscription_token
                        != subscription_token@,
            decreases self.tokens@.len() - i,
        {
            if str_eq(self.tokens[i].subscription_token.as_str(), subscription_token) {
                return Some(i);
            }
            i += 1;
        }
        None
    }

    /// Stores a confirmation token against a subscriber. The store refuses a
    /// token it already holds and a subscriber it does not know; either
    /// failure leaves the directory unchanged.
    pub fn store_token(&mut self, subscriber_id: u64, subscription_token: String) -> (r: Result<
        (),
        StoreTokenError,
    >)
        requires
            old(self).wf(),
        ensures
            final(self).wf(),
            match r {
                Ok(()) => {
                    &&& subscriber_id < old(self)@.subscribers.len()
                    &&& forall|i: int|
                        0 <= i < old(self)@.tokens.len() ==> (
                        #[trigger] old(self)@.tokens[i]).subscription_token
                            != subscription_token@
                    &&& final(self)@.tokens == old(self)@.tokens.push(
                        TokenView { subscription_token: subscription_token@, subscriber_id },
                    )
                    &&& final(self)@.subscribers == old(self)@.subscribers
                },
                Err(_) => {
                    &&& (subscriber_id >= old(self)@.subscribers.len() || exists|i: int|
                        0 <= i < old(self)@.tokens.len() && (
                        #[trigger] old(self)@.tokens[i]).subscription_token
                            == subscription_token@)
                    &&& final(self)@ == old(self)@
                },
            },
    {
        if subscriber_id >= self.subscribers.len() as u64 {
            return Err(StoreTokenError);
        }
        match self.find_token(subscription_token.as_str()) {
            Some(i) => {
                proof {
                    assert(self@.tokens[i as int].subscription_token == subscription_token@);
                }
                Err(StoreTokenError)
            },
            None => {
                let ghost old_view = self@;
                self.tokens.push(TokenRecord { subscription_token, subscriber_id });
                proof {
                    assert(self@.tokens =~= old_view.tokens.push(
                        TokenView {
                            subscription_token: subscription_token@,
                            subscriber_id,
                        },
                    ));
                    assert(self@.subscribers =~= old_view.subscribers);
                }
                Ok(())
            },
        }
    }

    /// The subscriber a token was stored for, if the token is known.
    pub fn get_subscriber_id_from_token(&self, subscription_token: &str) -> (r: Option<u64>)
        requires
            self.wf(),
        ensures
            match r {
                Some(id) => id < self@.subscribers.len() && exists|i: int|
                    0 <= i < self@.tokens.len() && (
                    #[trigger] self@.tokens[i]).subscription_token == subscription_token@
                        && self@.tokens[i].subscriber_id == id,
                None => forall|i: int|
                    0 <= i < self@.tokens.len() ==> (#[trigger] self@.tokens[i]).subscription_token
                        != subscription_token@,
            },
    {
        match self.find_token(subscription_token) {
            Some(i) => Some(self.tokens[i].subscriber_id),
            None => None,
        }
    }

    /// Marks the subscriber confirmed. An unknown identifier changes nothing,
    /// as an update of a missing row would.
    pub fn confirm_subscriber(&mut self, subscriber_id: u64)
        requires
            old(self).wf(),
        ensures
            final(self).wf(),
            final(self)@.tokens == old(self)@.tokens,
            if subscriber_id < old(self)@.subscribers.len() {
                final(self)@.subscribers == old(self)@.subscribers.update(
                    subscriber_id as int,
                    SubscriberView {
                        status: SubscriberStatus::Confirmed,
                        ..old(self)@.subscribers[subscriber_id as int]
                    },
                )
            } else {
                final(self)@ == old(self)@
            },
    {
        if subscriber_id < self.subscribers.len() as u64 {
            let idx = subscriber_id as usize;
            let ghost old_view = self@;
            let email = self.subscribers[idx].email.clone();
            let name = self.subscribers[idx].name.clone();
            let subscribed_at = self.subscribers[idx].subscribed_at;
            self.subscribers[idx] = SubscriberRecord {
                subscriber_id,
                email,
                name,
                status: SubscriberStatus::Confirmed,
                subscribed_at,
            };
            proof {
                assert(self@.subscribers =~= old_view.subscribers.update(
                    subscriber_id as int,
                    SubscriberView {
                        status: SubscriberStatus::Confirmed,
                        ..old_view.subscribers[subscriber_id as int]
                    },
                ));
                assert(self@.tokens =~= old_view.tokens);
            }
        }
    }

    /// Confirms the subscription a token belongs to: an unknown token is
    /// turned away and nothing changes; a known one marks its subscriber
    /// confirmed and reports the subscriber.
    pub fn confirm(&mut self, parameters: &Parameters) -> (r: Result<u64, SubscribeConfirmError>)
        requires
            old(self).wf(),
        ensures
            final(self).wf(),
            match r {
                Ok(id) => {
                    &&& id < old(self)@.subscribers.len()
                    &&& exists|i: int|
                        0 <= i < old(self)@.tokens.len() && (
                        #[trigger] old(self)@.tokens[i]).subscription_token
                            == parameters.subscription_token@ && old(
                            self,
                        )@.tokens[i].subscriber_id == id
                    &&& final(self)@.subscribers == old(self)@.subscribers.update(
                        id as int,
                        SubscriberView {
                            status: SubscriberStatus::Confirmed,
                            ..old(self)@.subscribers[id as int]
                        },
                    )
                    &&& final(self)@.tokens == old(self)@.tokens
                },
                Err(_) => {
                    &&& (forall|i: int|
                        0 <= i < old(self)@.tokens.len() ==> (
                        #[trigger] old(self)@.tokens[i]).subscription_token
                            != parameters.subscription_token@)
                    &&& final(self)@ == old(self)@
                },
            },
    {
        match self.get_subscriber_id_from_token(parameters.subscription_token.as_str()) {
            Some(id) => {
                self.confirm_subscriber(id);
                Ok(id)
            },
            None => Err(SubscribeConfirmError::UnknownToken),
        }
    }

    /// The snapshot of confirmed recipients, taken at publish time: emails of
    /// the confirmed subscribers, in sign-up order.
    pub fn confirmed_recipients(&self) -> (r: Vec<String>)
        ensures
            emails_view(r@) == confirmed_emails(self@.subscribers),
    {
        let mut r: Vec<String> = Vec::new();
        let mut i: usize = 0;
        while i < self.subscribers.len()
            invariant
                i <= self.subscribers@.len(),
                self@.subscribers.len() == self.subscribers@.len(),
                emails_view(r@) == confirmed_emails(self@.subscribers.subrange(0, i as int)),
            decreases self.subscribers@.len() - i,
        {
            let ghost prefix = self@.subscribers.subrange(0, i as int);
            let ghost prefix1 = self@.subscribers.subrange(0, i as int + 1);
            proof {
                assert(prefix1.drop_last() =~= prefix);
                assert(prefix1.last() == self@.subscribers[i as int]);
            }
            match self.subscribers[i].status {
                SubscriberStatus::Confirmed => {
                    let ghost old_r = r@;
                    r.push(self.subscribers[i].email.clone());
                    proof {
                        assert(emails_view(r@) =~= emails_view(old_r) + seq![
                            self@.subscribers[i as int].email,
                        ]);
                    }
                },
                SubscriberStatus::PendingConfirmation => {
                    proof {
                        assert(confirmed_emails(prefix1) =~= confirmed_emails(prefix));
                    }
                },
            }
            i += 1;
        }
        proof {
            assert(self@.subscribers.subrange(0, self@.subscribers.len() as int)
                =~= self@.subscribers);
        }
        r
    }

    /// Records a sign-up under a caller-supplied token: the form is validated
    /// first; then, in one unit, the subscriber is filed as pending and the
    /// token is stored against it. Success is owed whenever the form is valid
    /// and the token is fresh; any failure leaves the directory unchanged.
    pub fn subscribe_with_token(
        &mut self,
        form: FormData,
        subscription_token: String,
        now: u64,
    ) -> (r: Result<SubscriptionReceipt, SubscriberError>)
        requires
            old(self).wf(),
            old(self)@.subscribers.len() < u64::MAX,
        ensures
            final(self).wf(),
            match r {
                Ok(receipt) => {
                    &&& valid_subscriber_name(form.name@) && is_valid_email(form.email@)
                    &&& forall|i: int|
                        0 <= i < old(self)@.tokens.len() ==> (
                        #[trigger] old(self)@.tokens[i]).subscription_token
                            != subscription_token@
                    &&& receipt.subscriber_id == old(self)@.subscribers.len()
                    &&& receipt.subscription_token@ == subscription_token@
                    &&& final(self)@.subscribers == old(self)@.subscribers.push(
                        SubscriberView {
                            subscriber_id: receipt.subscriber_id,
                            email: form.email@,
                            name: form.name@,
                            status: SubscriberStatus::PendingConfirmation,
                            subscribed_at: now,
                        },
                    )
                    &&& final(self)@.tokens == old(self)@.tokens.push(
                        TokenView {
                            subscription_token: subscription_token@,
                            subscriber_id: receipt.subscriber_id,
                        },
                    )
                },
                Err(SubscriberError::ValidationError(_)) => {
                    &&& (!valid_subscriber_name(form.name@) || !is_valid_email(form.email@))
                    &&& final(self)@ == old(self)@
                },
                Err(SubscriberError::UnexpectedError(_)) => {
                    &&& valid_subscriber_name(form.name@) && is_valid_email(form.email@)
                    &&& exists|i: int|
                        0 <= i < old(self)@.tokens.len() && (
                        #[trigger] old(self)@.tokens[i]).subscription_token
                            == subscription_token@
                    &&& final(self)@ == old(self)@
                },
            },
    {
        let new_subscriber = match NewSubscriber::try_from(form) {
            Ok(ns) => ns,
            Err(e) => {
                return Err(SubscriberError::ValidationError(e));
            },
        };
        // Check the token before filing the subscriber, so a refused token
        // leaves no partial work behind: the two writes form one atomic unit.
        match self.find_token(subscription_token.as_str()) {
            Some(i) => {
                proof {
                    assert(self@.tokens[i as int].subscription_token == subscription_token@);
                }
                Err(
                    SubscriberError::UnexpectedError(
                        String::from_str(
                            "A failure was encountered while trying to store a subscription token.",
                        ),
                    ),
                )
            },
            None => {
                let token_for_receipt = String::from_str(subscription_token.as_str());
                let id = self.insert_subscriber(&new_subscriber, now);
                match self.store_token(id, subscription_token) {
                    Ok(()) => Ok(
                        SubscriptionReceipt {
                            subscriber_id: id,
                            subscription_token: token_for_receipt,
                        },
                    ),
                    Err(_) => {
                        proof {
                            assert(false);
                        }
                        Err(SubscriberError::UnexpectedError(String::new()))
                    },
                }
            },
        }
    }

    /// Records a sign-up with a freshly generated confirmation token and
    /// reports the token so the confirmation email can carry it.
    pub fn subscribe(&mut self, form: FormData, now: u64) -> (r: Result<
        SubscriptionReceipt,
        SubscriberError,
    >)
        requires
            old(self).wf(),
            old(self)@.subscribers.len() < u64::MAX,
        ensures
            final(self).wf(),
            match r {
                Ok(receipt) => {
                    &&& valid_subscriber_name(form.name@) && is_valid_email(form.email@)
                    &&& receipt.subscriber_id == old(self)@.subscribers.len()
                    &&& receipt.subscription_token@.len() == 25
                    &&& final(self)@.subscribers == old(self)@.subscribers.push(
                        SubscriberView {
                            subscriber_id: receipt.subscriber_id,
                            email: form.email@,
                            name: form.name@,
                            status: SubscriberStatus::PendingConfirmation,
                            subscribed_at: now,
                        },
                    )
                    &&& final(self)@.tokens == old(self)@.tokens.push(
                        TokenView {
                            subscription_token: receipt.subscription_token@,
                            subscriber_id: receipt.subscriber_id,
                        },
                    )
                },
                Err(SubscriberError::ValidationError(_)) => {
                    &&& (!valid_subscriber_name(form.name@) || !is_valid_email(form.email@))
                    &&& final(self)@ == old(self)@
                },
                Err(SubscriberError::UnexpectedError(_)) => final(self)@ == old(self)@,
            },
    {
        let token = generate_subscription_token();
        let token_copy = String::from_str(token.as_str());
        match self.subscribe_with_token(form, token, now) {
            Ok(receipt) => Ok(
                SubscriptionReceipt {
                    subscriber_id: receipt.subscriber_id,
                    subscription_token: token_copy,
                },
            ),
            Err(e) => Err(e),
        }
    }
}

} // verus!
