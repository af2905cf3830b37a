//! The command-line client that asks a server to grant a user temporary
//! sudo rights.

use vstd::prelude::*;
use vstd::string::*;
use crate::common::sudo::{Sudo, SudoView};
use crate::text::views;

verus! {

/// A client of the server at `url`.
#[derive(Debug)]
pub struct SudoClient {
    url: String,
}

/// A request to send: the grant, to be posted as JSON to `url`.
pub struct RegisterRequest {
    pub url: String,
    pub data: Sudo,
}

impl SudoClient {
    /// The base URL this client talks to.
    pub closed spec fn base(self) -> Seq<char> {
        self.url@
    }

    /// A client of the server at `url`.
    pub fn new(url: &str) -> (res: SudoClient)
        ensures
            res.base() == url@,
    {
        SudoClient { url: String::from_str(url) }
    }

    /// The request that grants `username` sudo rights for `duration`
    /// seconds on `hostnames`: the grant, posted to `<url>/sudo`.
    pub fn register_sudoer(&self, username: &str, duration: u64, hostnames: Vec<String>) -> (res:
        RegisterRequest)
        ensures
            res.url@ == self.base() + "/sudo"@,
            res.data@ == (SudoView {
                username: username@,
                duration,
                hostnames: Some(views(hostnames@)),
            }),
    {
        let mut url = self.url.clone();
        url.append("/sudo");
        RegisterRequest {
            url,
            data: Sudo { username: String::from_str(username), duration, hostnames: Some(hostnames) },
        }
    }
}

} // verus!
