//! Configuration for a client of the server: base URL, credentials,
//! CSRF behaviour, default depth and request timeout. The builder only
//! accumulates plain configuration; opening the connection itself is
//! the transport layer's concern.

use std::time::Duration;

use vstd::prelude::*;
use vstd::string::*;

verus! {

/// Relies on `core::time::Duration::from_secs`: builds the timeout
/// value handed to the transport layer.
pub assume_specification[ Duration::from_secs ](secs: u64) -> Duration;

/// A user authorizing the queries sent to the server.
#[derive(Debug, PartialEq)]
pub struct User {
    /// Login of the user
    pub username: String,
    /// Password of the user, when one is set
    pub password: Option<String>,
}

/// Builder for a client of the server.
#[derive(Debug)]
pub struct JenkinsBuilder {
    /// Base URL of the server, without a trailing `/`
    pub url: String,
    /// User authorizing the queries, when one is set
    pub user: Option<User>,
    /// Whether post queries fetch and send a CSRF crumb
    pub csrf_enabled: bool,
    /// Default depth query parameter of requests
    pub depth: u8,
    /// Timeout of requests, `None` for no timeout
    pub timeout: Option<Duration>,
}

impl JenkinsBuilder {
    /// Create a new builder with the server url. A single trailing `/`
    /// is stripped, so that rendered paths can be appended directly.
    pub fn new(url: &str) -> (r: Self)
        ensures
            r.url@ == if url@.len() > 0 && url@.last() == '/' {
                url@.drop_last()
            } else {
                url@
            },
            r.user is None,
            r.csrf_enabled,
            r.depth == 1,
            r.timeout is Some,
    {
        let n = url.unicode_len();
        let stripped: String = if n > 0 && url.get_char(n - 1) == '/' {
            let head = url.substring_char(0, n - 1);
            proof {
                assert(head@ =~= url@.drop_last());
            }
            head.to_owned()
        } else {
            url.to_owned()
        };
        JenkinsBuilder {
            url: stripped,
            user: Option::None,
            csrf_enabled: true,
            depth: 1,
            timeout: Option::Some(Duration::from_secs(30)),
        }
    }

    /// Specify the user to use for authorizing queries
    pub fn with_user(self, login: &str, password: Option<&str>) -> (r: Self)
        ensures
            r.user matches Option::Some(u) && u.username@ == login@ && (match (u.password, password) {
                (Option::Some(p), Option::Some(q)) => p@ == q@,
                (Option::None, Option::None) => true,
                _ => false,
            }),
            r.url == self.url,
            r.csrf_enabled == self.csrf_enabled,
            r.depth == self.depth,
            r.timeout == self.timeout,
    {
        let pw: Option<String> = match password {
            Option::Some(p) => Option::Some(p.to_owned()),
            Option::None => Option::None,
        };
        JenkinsBuilder {
            user: Option::Some(User { username: login.to_owned(), password: pw }),
            ..self
        }
    }

    /// Disable CSRF in crumbs used for post queries
    pub fn disable_csrf(self) -> (r: Self)
        ensures
            !r.csrf_enabled,
            r.url == self.url,
            r.user == self.user,
            r.depth == self.depth,
            r.timeout == self.timeout,
    {
        JenkinsBuilder { csrf_enabled: false, ..self }
    }

    /// Change the default depth parameters of requests made to the
    /// server. It controls the amount of data in responses.
    pub fn with_depth(self, depth: u8) -> (r: Self)
        ensures
            r.depth == depth,
            r.url == self.url,
            r.user == self.user,
            r.csrf_enabled == self.csrf_enabled,
            r.timeout == self.timeout,
    {
        JenkinsBuilder { depth, ..self }
    }

    /// Set the timeout for requests
    pub fn with_timeout(self, timeout: Option<Duration>) -> (r: Self)
        ensures
            r.timeout == timeout,
            r.url == self.url,
            r.user == self.user,
            r.csrf_enabled == self.csrf_enabled,
            r.depth == self.depth,
    {
        JenkinsBuilder { timeout, ..self }
    }
}

} // verus!
