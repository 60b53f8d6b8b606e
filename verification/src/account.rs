//! Judge accounts and their registration outcome.

use crate::config::{HANDLE_LEN, PASSWORD_LEN};
use crate::random::random_hex;
use crate::text::all_digits;
use crate::verdict::clone_opt_string;
use vstd::prelude::*;

verus! {

/// Credentials of one judge account, with an optional HTTPS proxy the
/// account's session goes through.
#[derive(Debug)]
pub struct Account {
    pub handle: String,
    pub password: String,
    pub proxy: Option<String>,
}

impl Clone for Account {
    fn clone(&self) -> (r: Self)
        ensures
            r == *self,
    {
        Account {
            handle: self.handle.clone(),
            password: self.password.clone(),
            proxy: clone_opt_string(&self.proxy),
        }
    }
}

/// Why registering a fresh account failed.
#[derive(Debug)]
pub enum RegisterError {
    /// The disposable-mail service failed.
    Email(String),
    /// The judge refused the registration.
    Judge(crate::judge::Error),
}

/// A freshly drawn account: random handle and password of the
/// configured lengths, no proxy.
pub fn generate_account() -> (r: Account)
    ensures
        r.handle@.len() == HANDLE_LEN as nat,
        all_digits(r.handle@),
        r.password@.len() == PASSWORD_LEN as nat,
        all_digits(r.password@),
        r.proxy is None,
{
    Account { handle: random_hex(HANDLE_LEN), password: random_hex(PASSWORD_LEN), proxy: None }
}

} // verus!
