//! The plain parts of the service's configuration: the deployment
//! environment and where the application listens.

use vstd::prelude::*;
use vstd::string::StringExecFns;

use crate::domain::subscriber_email::{is_valid_email, SubscriberEmail};
use crate::text::{lower_of, str_eq, to_lowercase_str};

verus! {

/// Where the service runs.
#[derive(Clone, Copy, PartialEq, Eq, Structural, Debug)]
pub enum Environment {
    Local,
    Production,
}

impl Environment {
    /// The environment's configuration-file name.
    pub fn as_str(&self) -> (r: &'static str)
        ensures
            match self {
                Environment::Local => r@ == "local"@,
                Environment::Production => r@ == "production"@,
            },
    {
        match self {
            Environment::Local => "local",
            Environment::Production => "production",
        }
    }

    /// Reads an environment name, case-insensitively; any other name is
    /// turned away.
    pub fn try_from(s: String) -> (r: Result<Environment, String>)
        ensures
            match r {
                Ok(Environment::Local) => lower_of(s@) == "local"@,
                Ok(Environment::Production) => lower_of(s@) == "production"@,
                Err(e) => lower_of(s@) != "local"@ && lower_of(s@) != "production"@ && e@
                    == lower_of(s@)
                    + " is not a supported environment.\nuse either 'local' or 'production'."@,
            },
    {
        let lowered = to_lowercase_str(s.as_str());
        if str_eq(lowered.as_str(), "local") {
            Ok(Environment::Local)
        } else if str_eq(lowered.as_str(), "production") {
            Ok(Environment::Production)
        } else {
            Err(
                lowered.concat(
                    " is not a supported environment.\nuse either 'local' or 'production'.",
                ),
            )
        }
    }
}

/// Where the application listens.
#[derive(Debug)]
pub struct ApplicationSettings {
    pub port: u16,
    pub host: String,
}

/// How to reach the database.
#[derive(Debug)]
pub struct DatabaseSettings {
    pub username: String,
    pub password: String,
    pub port: u16,
    pub host: String,
    pub database_name: String,
    pub require_ssl: bool,
}

/// How to reach the email delivery provider.
#[derive(Debug)]
pub struct EmailClientSettings {
    pub base_url: String,
    pub sender_email: String,
    pub authorisation_token: String,
    pub timeout_milliseconds: u64,
}

impl EmailClientSettings {
    /// The configured sender, accepted exactly when it is a well-formed
    /// email address.
    pub fn sender(&self) -> (r: Result<SubscriberEmail, String>)
        ensures
            match r {
                Ok(email) => is_valid_email(self.sender_email@) && email@ == self.sender_email@,
                Err(_) => !is_valid_email(self.sender_email@),
            },
    {
        SubscriberEmail::parse(String::from_str(self.sender_email.as_str()))
    }
}

/// Everything the service is configured with.
#[derive(Debug)]
pub struct Settings {
    pub database: DatabaseSettings,
    pub application: ApplicationSettings,
    pub email_client: EmailClientSettings,
}

} // verus!
