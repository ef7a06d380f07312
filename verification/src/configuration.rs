//! Configuration values the adapters load and hand to the library.
//!
//! Loading (files, environment) is adapter work; what lives here is the data
//! and the one piece of logic in it: mapping a free-form environment string
//! to the closed enumeration.

use vstd::prelude::*;

use crate::text::{ascii_ci_eq, str_ci_eq};

verus! {

/// Which configuration profile the process runs under.
#[derive(Clone, Copy, PartialEq, Eq, Structural, Debug)]
pub enum Environment {
    Development,
    Production,
}

/// The environment a free-form string names, matched ASCII-case-
/// insensitively: `dev` or `prod`.
pub open spec fn environment_of(s: Seq<char>) -> Option<Environment> {
    if ascii_ci_eq(s, "dev"@) {
        Some(Environment::Development)
    } else if ascii_ci_eq(s, "prod"@) {
        Some(Environment::Production)
    } else {
        None
    }
}

impl Environment {
    /// Parses an environment name; anything but `dev` or `prod` (in any
    /// case) is rejected with a message naming the offending value.
    pub fn parse(value: &str) -> (r: Result<Environment, String>)
        ensures
            match r {
                Ok(env) => environment_of(value@) == Some(env),
                Err(e) => environment_of(value@) is None && e@ == value@
                    + " is not a valid environment\nUse either `dev` or `prod`."@,
            },
    {
        if str_ci_eq(value, "dev") {
            Ok(Environment::Development)
        } else if str_ci_eq(value, "prod") {
            Ok(Environment::Production)
        } else {
            let mut message = value.to_owned();
            message.append(" is not a valid environment\nUse either `dev` or `prod`.");
            Err(message)
        }
    }

    /// The profile name the configuration files use.
    pub fn as_config_str(&self) -> (r: &'static str)
        ensures
            *self matches Environment::Development ==> r@ == "dev"@,
            *self matches Environment::Production ==> r@ == "prod"@,
    {
        match self {
            Environment::Development => "dev",
            Environment::Production => "prod",
        }
    }
}

/// Where the HTTP listener binds.
#[derive(Debug)]
pub struct ApplicationSettings {
    pub port: u16,
    pub host: String,
}

} // verus!
