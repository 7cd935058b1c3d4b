//! Where the container runtime is reached: a local socket, or an HTTP URL.
use vstd::prelude::*;

use crate::env::{try_parse_env_variable_with_default, EnvError, EnvValue};
use crate::text::{push_str, str_equal};
use vstd::string::StrSliceExecFns;

verus! {

/// The runtime's socket when nothing else is configured.
pub const DEFAULT_SOCKET: &'static str = "/var/run/docker.sock";

/// The request timeout, in milliseconds, when nothing else is configured.
pub const DEFAULT_TIMEOUT_MILLISECONDS: u64 = 30;

/// How the runtime is reached.
#[derive(Clone, Debug)]
pub enum Endpoint {
    /// Over HTTP at `url`, each request bounded by the timeout.
    Direct { url: String, timeout_milliseconds: u64 },
    /// Over the local domain socket at this path.
    Socket(String),
}

/// The runtime connection settings.
#[derive(Clone, Debug)]
pub struct Config {
    pub endpoint: Endpoint,
}

/// The endpoint that the socket-or-URL setting `s` names: `tcp://` becomes
/// `http://` and a direct URL; anything else is a socket path.
pub open spec fn endpoint_spec(s: Seq<char>, timeout_milliseconds: u64) -> (bool, Seq<char>, u64) {
    if s.len() >= 6 && s.subrange(0, 6) == "tcp://"@ {
        (true, "http://"@ + s.subrange(6, s.len() as int), timeout_milliseconds)
    } else {
        (false, s, 0)
    }
}

impl Endpoint {
    /// Whether it is direct, its URL or path, and its timeout (0 for a socket).
    pub open spec fn view_parts(&self) -> (bool, Seq<char>, u64) {
        match self {
            Endpoint::Direct { url, timeout_milliseconds } => (true, url@, *timeout_milliseconds),
            Endpoint::Socket(path) => (false, path@, 0),
        }
    }
}

/// The endpoint for the socket-or-URL setting `s`.
pub fn endpoint_for(s: &str, timeout_milliseconds: u64) -> (r: Endpoint)
    ensures
        r.view_parts() == endpoint_spec(s@, timeout_milliseconds),
{
    let n = s.unicode_len();
    if n >= 6 && str_equal(s.substring_char(0, 6), "tcp://") {
        let mut url = String::new();
        push_str(&mut url, "http://");
        push_str(&mut url, s.substring_char(6, n));
        Endpoint::Direct { url, timeout_milliseconds }
    } else {
        let mut path = String::new();
        push_str(&mut path, s);
        Endpoint::Socket(path)
    }
}

impl Config {
    /// The settings from the `DOCKER_SOCK` value (unset: the default socket;
    /// `Err` holds the lossy text of a value that is not Unicode) and the
    /// `CURL_TIMEOUT` value (unset: the default timeout).
    pub fn build(docker_sock: Option<Result<String, String>>, curl_timeout: EnvValue<u64>) -> (r: Result<
        Config,
        EnvError,
    >)
        ensures
            docker_sock matches Some(Err(v)) ==> (r matches Err(EnvError::NotUnicode { name, value })
                && name@ == "DOCKER_SOCK"@ && value@ == v@),
            curl_timeout is Unparsable && !(docker_sock matches Some(Err(_))) ==> (r matches Err(
                EnvError::Unparsable { name },
            ) && name@ == "CURL_TIMEOUT"@),
            curl_timeout is NotUnicode && !(docker_sock matches Some(Err(_))) ==> (r matches Err(
                EnvError::NotUnicode { name, value },
            ) && name@ == "CURL_TIMEOUT"@),
            r matches Ok(c) ==> ({
                let s = match docker_sock {
                    Some(Ok(s)) => s@,
                    _ => DEFAULT_SOCKET@,
                };
                let t = match curl_timeout {
                    EnvValue::Parsed(t) => t,
                    _ => DEFAULT_TIMEOUT_MILLISECONDS,
                };
                c.endpoint.view_parts() == endpoint_spec(s, t)
            }),
            (curl_timeout is Parsed || curl_timeout is NotPresent) && !(docker_sock matches Some(
                Err(_),
            )) ==> r is Ok,
    {
        let socket_or_uri = match docker_sock {
            Some(Ok(s)) => s,
            Some(Err(v)) => {
                let mut name = String::new();
                push_str(&mut name, "DOCKER_SOCK");
                return Err(EnvError::NotUnicode { name, value: v });
            },
            None => {
                let mut s = String::new();
                push_str(&mut s, DEFAULT_SOCKET);
                s
            },
        };
        let timeout_milliseconds = match try_parse_env_variable_with_default(
            "CURL_TIMEOUT",
            curl_timeout,
            DEFAULT_TIMEOUT_MILLISECONDS,
        ) {
            Ok(t) => t,
            Err(e) => return Err(e),
        };
        Ok(Config { endpoint: endpoint_for(socket_or_uri.as_str(), timeout_milliseconds) })
    }
}

} // verus!
