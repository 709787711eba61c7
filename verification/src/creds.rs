//! Per-host credential resolution.
//!
//! A small table maps hostnames to login/password records, with one
//! optional default fallback.  Resolution never fails: where no usable
//! record exists, empty anonymous credentials come back and a
//! diagnostic is written.

use std::io::Write;
use vstd::prelude::*;
use crate::text::str_eq;
use crate::urls::{RemoteUrl, UrlHost};

verus! {

/// One credential record: a login and, where usable, a password.
#[derive(Debug)]
pub struct Machine {
    pub login: String,
    pub password: Option<String>,
}

impl Clone for Machine {
    fn clone(&self) -> (r: Self)
        ensures
            r == *self,
    {
        Machine {
            login: self.login.clone(),
            password: match &self.password {
                Some(p) => Some(p.clone()),
                None => None,
            },
        }
    }
}

/// The credential table: per-host records plus one default fallback.
#[derive(Debug)]
pub struct CredentialTable {
    /// (hostname, record) entries; only the first match counts.
    pub hosts: Vec<(String, Machine)>,
    /// The record used where no hostname matches.
    pub default: Option<Machine>,
}

/// The first record whose hostname equals `d`.
pub open spec fn table_lookup(hosts: Seq<(String, Machine)>, d: Seq<char>) -> Option<Machine>
    decreases hosts.len(),
{
    if hosts.len() == 0 {
        None
    } else if hosts[0].0@ == d {
        Some(hosts[0].1)
    } else {
        table_lookup(hosts.drop_first(), d)
    }
}

/// The record an operation uses for a host: an exact hostname match
/// for DNS hosts (falling back to the default), the default alone for
/// address hosts, nothing for URLs without a host.
pub open spec fn machine_for(t: CredentialTable, host: UrlHost) -> Option<Machine> {
    match host {
        UrlHost::Domain(d) => match table_lookup(t.hosts@, d@) {
            Some(m) => Some(m),
            None => t.default,
        },
        UrlHost::Address => t.default,
        UrlHost::Absent => None,
    }
}

/// The credentials an operation runs with, and whether they are the
/// anonymous fallback.
#[derive(Debug)]
pub struct ResolvedCredentials {
    pub login: String,
    pub password: String,
    /// True where no record with a password was found and empty
    /// credentials were substituted; a diagnostic is written then.
    pub anonymous: bool,
}

/// Empty anonymous credentials.
pub open spec fn is_anonymous(r: ResolvedCredentials) -> bool {
    r.login@ == Seq::<char>::empty() && r.password@ == Seq::<char>::empty() && r.anonymous
}

/// `r` is what resolution yields for `host` against `t`: the matched
/// record where it carries a password, anonymous credentials otherwise.
pub open spec fn resolution_of(t: CredentialTable, host: UrlHost, r: ResolvedCredentials) -> bool {
    match machine_for(t, host) {
        Some(m) => match m.password {
            Some(p) => r.login == m.login && r.password == p && !r.anonymous,
            None => is_anonymous(r),
        },
        None => is_anonymous(r),
    }
}

/// Relies on `std::io::stderr` to carry the fallback diagnostic;
/// nothing is claimed of it.
#[verifier::external_body]
fn warn_anonymous_fallback(url_text: &String) {
    let _ = writeln!(
        std::io::stderr(),
        "Warning: no username/password found for URL {url_text}",
    );
}

/// Empty credentials, announced on the diagnostic stream.
fn anonymous_credentials(url: &RemoteUrl) -> (r: ResolvedCredentials)
    ensures
        is_anonymous(r),
{
    warn_anonymous_fallback(&url.text);
    ResolvedCredentials { login: String::new(), password: String::new(), anonymous: true }
}

/// The credentials a record yields: its login and password where the
/// password is present, the anonymous fallback otherwise.
fn credentials_of_machine(m: &Machine, url: &RemoteUrl) -> (r: ResolvedCredentials)
    ensures
        match m.password {
            Some(p) => r.login == m.login && r.password == p && !r.anonymous,
            None => is_anonymous(r),
        },
{
    match &m.password {
        Some(p) => ResolvedCredentials {
            login: m.login.clone(),
            password: p.clone(),
            anonymous: false,
        },
        None => anonymous_credentials(url),
    }
}

impl CredentialTable {
    /// Resolve the credentials for `url`'s host.  Never fails: where
    /// no usable record exists the anonymous fallback comes back, with
    /// a diagnostic on the error stream.
    pub fn resolve(&self, url: &RemoteUrl) -> (r: ResolvedCredentials)
        ensures
            resolution_of(*self, url.host, r),
    {
        match &url.host {
            UrlHost::Domain(d) => {
                let n = self.hosts.len();
                let mut i: usize = 0;
                proof {
                    assert(self.hosts@.subrange(0, n as int) =~= self.hosts@);
                }
                while i < n
                    invariant
                        n == self.hosts@.len(),
                        i <= n,
                        url.host matches UrlHost::Domain(dd) && dd == d,
                        table_lookup(self.hosts@, d@) == table_lookup(
                            self.hosts@.subrange(i as int, n as int),
                            d@,
                        ),
                    decreases n - i,
                {
                    let entry = &self.hosts[i];
                    proof {
                        assert(self.hosts@.subrange(i as int, n as int)[0] == self.hosts@[
                            i as int
                        ]);
                    }
                    if str_eq(entry.0.as_str(), d.as_str()) {
                        return credentials_of_machine(&entry.1, url);
                    }
                    proof {
                        assert(self.hosts@.subrange(i as int, n as int).drop_first() =~= self
                            .hosts@.subrange(i + 1 as int, n as int));
                    }
                    i = i + 1;
                }
                match &self.default {
                    Some(m) => credentials_of_machine(m, url),
                    None => anonymous_credentials(url),
                }
            },
            UrlHost::Address => match &self.default {
                Some(m) => credentials_of_machine(m, url),
                None => anonymous_credentials(url),
            },
            UrlHost::Absent => anonymous_credentials(url),
        }
    }
}

} // verus!
