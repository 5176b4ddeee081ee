//! The remote directory that is polled: how its location is written, and
//! what a poll decides.

use vstd::prelude::*;
use crate::error::ConfigError;
use crate::text::contains_char;

verus! {

/// Whether `pattern` stands at `at` in `s` and nowhere else.
pub open spec fn only_at(s: Seq<char>, pattern: char, at: int) -> bool {
    &&& 0 <= at < s.len()
    &&& s[at] == pattern
    &&& forall|j: int| 0 <= j < s.len() && j != at ==> s[j] != pattern
}

/// The two parts of `s` around its only `pattern`, if `s` holds it exactly once.
pub open spec fn split2_spec(s: Seq<char>, pattern: char) -> Option<(Seq<char>, Seq<char>)> {
    if exists|at: int| only_at(s, pattern, at) {
        let at = choose|at: int| only_at(s, pattern, at);
        Some((s.take(at), s.skip(at + 1)))
    } else {
        None
    }
}

/// Where a pattern stands alone, the split is around that place.
pub proof fn lemma_split2_at(s: Seq<char>, pattern: char, at: int)
    requires
        only_at(s, pattern, at),
    ensures
        split2_spec(s, pattern) == Some((s.take(at), s.skip(at + 1))),
{
    let chosen = choose|at: int| only_at(s, pattern, at);
    assert(chosen == at);
}

/// Splits `s` around `pattern`, which must stand in it exactly once.
pub fn split2(s: &str, pattern: char) -> (parts: Result<(String, String), ConfigError>)
    ensures
        match split2_spec(s@, pattern) {
            Some((first, second)) => parts matches Ok((a, b)) && a@ == first && b@ == second,
            None => parts == Err::<(String, String), _>(ConfigError::UnexpectedSplit { pattern }),
        },
{
    let n = s.unicode_len();
    let mut found: Option<usize> = None;
    let mut i: usize = 0;
    while i < n
        invariant
            i <= n,
            n == s@.len(),
            match found {
                Some(at) => at < i && s@[at as int] == pattern && forall|j: int|
                    0 <= j < i && j != at ==> s@[j] != pattern,
                None => forall|j: int| 0 <= j < i ==> s@[j] != pattern,
            },
        decreases n - i,
    {
        if s.get_char(i) == pattern {
            if let Some(at) = found {
                assert forall|k: int| !only_at(s@, pattern, k) by {
                    if k == at {
                        assert(s@[i as int] == pattern);
                    } else {
                        assert(s@[at as int] == pattern);
                    }
                }
                return Err(ConfigError::UnexpectedSplit { pattern });
            }
            found = Some(i);
        }
        i += 1;
    }
    match found {
        None => Err(ConfigError::UnexpectedSplit { pattern }),
        Some(at) => {
            proof {
                lemma_split2_at(s@, pattern, at as int);
            }
            let first = s.substring_char(0, at).to_owned();
            let second = s.substring_char(at + 1, n).to_owned();
            assert(s@.subrange(0, at as int) =~= s@.take(at as int));
            assert(s@.subrange(at + 1, n as int) =~= s@.skip(at + 1));
            Ok((first, second))
        },
    }
}

/// A remote directory: the host, the path on it, and the user if one is named.
#[derive(Debug, PartialEq, Eq)]
pub struct RemoteParameters {
    pub username: Option<String>,
    pub hostname: String,
    pub path: String,
}

/// A remote directory as plain text.
pub struct RemoteParametersView {
    pub username: Option<Seq<char>>,
    pub hostname: Seq<char>,
    pub path: Seq<char>,
}

impl View for RemoteParameters {
    type V = RemoteParametersView;

    open spec fn view(&self) -> RemoteParametersView {
        RemoteParametersView {
            username: match self.username {
                Some(name) => Some(name@),
                None => None,
            },
            hostname: self.hostname@,
            path: self.path@,
        }
    }
}

/// What a connection string of the form `[user@]host:path` names.
///
/// The colon stands in the string exactly once. What precedes it is the host,
/// or, if it holds an `@`, the user and the host around the only `@`.
pub open spec fn connection_spec(connection: Seq<char>) -> Result<
    RemoteParametersView,
    ConfigError,
> {
    match split2_spec(connection, ':') {
        None => Err(ConfigError::UnexpectedSplit { pattern: ':' }),
        Some((login, path)) => if login.contains('@') {
            match split2_spec(login, '@') {
                None => Err(ConfigError::UnexpectedSplit { pattern: '@' }),
                Some((user, host)) => Ok(
                    RemoteParametersView { username: Some(user), hostname: host, path },
                ),
            }
        } else {
            Ok(RemoteParametersView { username: None, hostname: login, path })
        },
    }
}

/// Reads a connection string of the form `[user@]host:path`.
pub fn parse_connection_string(connection: &str) -> (parsed: Result<
    RemoteParameters,
    ConfigError,
>)
    ensures
        match connection_spec(connection@) {
            Ok(parameters) => parsed matches Ok(p) && p@ == parameters,
            Err(e) => parsed == Err::<RemoteParameters, _>(e),
        },
{
    let (login, path) = match split2(connection, ':') {
        Ok(parts) => parts,
        Err(e) => { return Err(e); },
    };
    if contains_char(login.as_str(), '@') {
        match split2(login.as_str(), '@') {
            Ok((user, host)) => Ok(
                RemoteParameters { username: Some(user), hostname: host, path },
            ),
            Err(e) => Err(e),
        }
    } else {
        Ok(RemoteParameters { username: None, hostname: login, path })
    }
}

/// The port of the remote file-transfer service.
pub const PORT: &'static str = ":22";

/// Seconds between two looks at an empty remote directory.
pub const POLL_INTERVAL_SECONDS: u64 = 5;

impl RemoteParameters {
    /// The address to connect to: the host and the port of the service.
    pub fn address(&self) -> (address: String)
        ensures
            address@ == self.hostname@ + PORT@,
    {
        self.hostname.clone().concat(PORT)
    }

    /// The user to log in as: the one the connection string names, or else
    /// `current_user`.
    pub fn login(&self, current_user: &str) -> (user: String)
        ensures
            user@ == match self.username {
                Some(name) => name@,
                None => current_user@,
            },
    {
        match &self.username {
            Some(name) => name.clone(),
            None => current_user.to_owned(),
        }
    }
}

/// What to do after a look at the remote directory.
#[derive(Debug, PartialEq, Eq)]
pub enum Poll {
    /// Download the entry of this path.
    Download(String),
    /// Nothing is there: look again after so many seconds.
    Wait(u64),
}

/// Decides what follows a look at the remote directory that found
/// `listing`: the last entry is downloaded; where there is none, the next
/// look comes after the poll interval. An empty directory is no error.
pub fn poll(listing: Vec<String>) -> (next: Poll)
    ensures
        next == if listing@.len() == 0 {
            Poll::Wait(POLL_INTERVAL_SECONDS)
        } else {
            Poll::Download(listing@.last())
        },
{
    let mut listing = listing;
    match listing.pop() {
        Some(path) => Poll::Download(path),
        None => Poll::Wait(POLL_INTERVAL_SECONDS),
    }
}

} // verus!
