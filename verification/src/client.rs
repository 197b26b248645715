//! The client stubs' decisions: how a request's connection target and
//! URL are derived from the configured daemon address, held apart from
//! sending by a typestate — a builder that still needs its endpoint
//! cannot be sent.
//!
//! Opening the socket and performing the HTTP exchange live outside;
//! they read the prepared connection and hand the response code back to
//! `decode_status`.

use vstd::prelude::*;
use vstd::string::*;
use crate::de::percent_decode;
use crate::error::{Error, ErrorKind};
use crate::daemon::{spec_starts_with, starts_with, tail_after};
use crate::props::string_eq;
use crate::render::{spec_dec, u64_to_string};

verus! {

/// The daemon address, by parts: the transport scheme, the host and
/// port for TCP, the (still percent-encoded) path for Unix sockets.
#[derive(Debug)]
pub struct UrlParts {
    pub scheme: String,
    pub host: String,
    pub port: Option<u16>,
    pub path: String,
}

/// The client configuration: where the daemon listens.
#[derive(Debug)]
pub struct ClientConfig {
    pub url: UrlParts,
}

/// A builder in this state still needs its endpoint.
#[derive(Debug)]
pub struct NeedsEndpoint;

/// A builder in this state is ready to send.
#[derive(Debug)]
pub struct ReadyToSend;

/// How a request connects: over the daemon's Unix socket, or plain TCP.
#[derive(Clone, Debug)]
pub enum Connection {
    Unix { socket: String, url: String },
    Tcp { url: String },
}

/// A request under construction; the type parameter says whether the
/// endpoint has been resolved yet.
#[derive(Debug)]
pub struct RequestBuilder<'a, State> {
    config: &'a ClientConfig,
    connection: Option<Connection>,
    state: State,
}

/// What a scheme's `+`-separated components amount to: no such
/// combination, components without a transport, or the transport the
/// request uses — a `unix` component decides for the socket wherever
/// it stands, `tcp` decides otherwise, `http` components carry nothing.
#[derive(Clone, Copy, Debug, PartialEq, Eq, Structural)]
pub enum SchemeClass {
    /// Some component is none of `http`, `unix`, `tcp`.
    Bad,
    /// Valid components, but none names a transport.
    Plain,
    Unix,
    Tcp,
}

/// Joins the first component's transport with the rest's.
pub open spec fn spec_scheme_join(first: SchemeClass, rest: SchemeClass) -> SchemeClass {
    match rest {
        SchemeClass::Bad => SchemeClass::Bad,
        SchemeClass::Plain => first,
        SchemeClass::Unix => SchemeClass::Unix,
        SchemeClass::Tcp => if first == SchemeClass::Unix {
            SchemeClass::Unix
        } else {
            SchemeClass::Tcp
        },
    }
}

/// Classifies a scheme, component by component.
pub open spec fn spec_scheme_class(s: Seq<char>) -> SchemeClass
    decreases s.len(),
{
    if s.len() == 0 {
        SchemeClass::Bad
    } else if s == "http"@ {
        SchemeClass::Plain
    } else if s == "unix"@ {
        SchemeClass::Unix
    } else if s == "tcp"@ {
        SchemeClass::Tcp
    } else if s.len() > 5 && s.subrange(0, 5) == "http+"@ {
        spec_scheme_join(SchemeClass::Plain, spec_scheme_class(s.skip(5)))
    } else if s.len() > 5 && s.subrange(0, 5) == "unix+"@ {
        spec_scheme_join(SchemeClass::Unix, spec_scheme_class(s.skip(5)))
    } else if s.len() > 4 && s.subrange(0, 4) == "tcp+"@ {
        spec_scheme_join(SchemeClass::Tcp, spec_scheme_class(s.skip(4)))
    } else {
        SchemeClass::Bad
    }
}

/// Classifies a scheme string.
pub fn scheme_class(s: &str) -> (r: SchemeClass)
    ensures
        r == spec_scheme_class(s@),
    decreases s@.len(),
{
    proof {
        reveal_strlit("http");
        reveal_strlit("unix");
        reveal_strlit("tcp");
        reveal_strlit("http+");
        reveal_strlit("unix+");
        reveal_strlit("tcp+");
        assert("http"@.len() == 4 && "unix"@.len() == 4 && "tcp"@.len() == 3);
        assert("http+"@.len() == 5 && "unix+"@.len() == 5 && "tcp+"@.len() == 4);
        assert("http+"@[0] == 'h' && "unix+"@[0] == 'u' && "tcp+"@[0] == 't');
        assert("http"@[0] == 'h' && "unix"@[0] == 'u' && "tcp"@[0] == 't');
    }
    if s.unicode_len() == 0 {
        return SchemeClass::Bad;
    }
    if string_eq(s, "http") {
        SchemeClass::Plain
    } else if string_eq(s, "unix") {
        SchemeClass::Unix
    } else if string_eq(s, "tcp") {
        SchemeClass::Tcp
    } else if starts_with(s, "http+") {
        scheme_class(tail_after(s, "http+"))
    } else if starts_with(s, "unix+") {
        let rest = scheme_class(tail_after(s, "unix+"));
        match rest {
            SchemeClass::Bad => SchemeClass::Bad,
            SchemeClass::Plain => SchemeClass::Unix,
            SchemeClass::Unix => SchemeClass::Unix,
            SchemeClass::Tcp => SchemeClass::Unix,
        }
    } else if starts_with(s, "tcp+") {
        let rest = scheme_class(tail_after(s, "tcp+"));
        match rest {
            SchemeClass::Bad => SchemeClass::Bad,
            SchemeClass::Plain => SchemeClass::Tcp,
            SchemeClass::Unix => SchemeClass::Unix,
            SchemeClass::Tcp => SchemeClass::Tcp,
        }
    } else {
        SchemeClass::Bad
    }
}

/// The `:port` text of a URL, when a port is set.
pub open spec fn spec_port_text(port: Option<u16>) -> Seq<char> {
    match port {
        Some(p) => ":"@ + spec_dec(p as nat),
        None => Seq::empty(),
    }
}

impl ClientConfig {
    /// Starts a request from this configuration; no endpoint is
    /// resolved yet.
    pub fn builder<'a>(&'a self) -> (r: RequestBuilder<'a, NeedsEndpoint>)
        ensures
            r.spec_connection() is None,
            r.spec_url() == self.url,
    {
        RequestBuilder { config: self, connection: None, state: NeedsEndpoint }
    }
}

impl<'a, State> RequestBuilder<'a, State> {
    pub closed spec fn spec_connection(&self) -> Option<Connection> {
        self.connection
    }

    /// The configured daemon address the builder was started from.
    pub closed spec fn spec_url(&self) -> UrlParts {
        self.config.url
    }

    /// The resolved connection, for the transport underneath.
    pub fn connection(&self) -> (r: &Option<Connection>)
        ensures
            *r == self.spec_connection(),
    {
        &self.connection
    }
}

impl<'a> RequestBuilder<'a, NeedsEndpoint> {
    /// Resolves the endpoint: a scheme with a `unix` component decodes
    /// the socket path and addresses `http://localhost`; one whose
    /// transport is `tcp` rewrites the address as plain HTTP.  A scheme
    /// with an unknown component, or without a transport, is refused.
    pub fn endpoint(self, path: &str) -> (r: Result<RequestBuilder<'a, ReadyToSend>, Error>)
        ensures
            r matches Ok(b) ==> b.spec_url() == self.spec_url(),
            spec_scheme_class(self.spec_url().scheme@) == SchemeClass::Unix ==> match crate::de::spec_percent_decode(
                self.spec_url().path@,
            ) {
                Ok(t) => r matches Ok(b) && (b.spec_connection() matches Some(
                    Connection::Unix { socket, url },
                ) && socket@ == t && url@ == "http://localhost"@ + path@),
                Err(_) => r matches Err(e) && e.spec_kind() == ErrorKind::EncodingError,
            },
            spec_scheme_class(self.spec_url().scheme@) == SchemeClass::Tcp ==> (r matches Ok(b)
                && (b.spec_connection() matches Some(Connection::Tcp { url }) && url@ == "http://"@
                + self.spec_url().host@ + spec_port_text(self.spec_url().port) + path@)),
            spec_scheme_class(self.spec_url().scheme@) == SchemeClass::Bad
                || spec_scheme_class(self.spec_url().scheme@) == SchemeClass::Plain ==> (r matches
                Err(e) && e.spec_kind() == ErrorKind::DaemonError),
    {
        let class = scheme_class(self.config.url.scheme.as_str());
        if class == SchemeClass::Unix {
            let socket = percent_decode(self.config.url.path.as_str())?;
            let url = String::from_str("http://localhost").concat(path);
            Ok(
                RequestBuilder {
                    config: self.config,
                    connection: Some(Connection::Unix { socket, url }),
                    state: ReadyToSend,
                },
            )
        } else if class == SchemeClass::Tcp {
            let mut url = String::from_str("http://");
            url.append(self.config.url.host.as_str());
            if let Some(port) = self.config.url.port {
                url.append(":");
                let rendered = u64_to_string(port as u64);
                url.append(rendered.as_str());
            }
            url.append(path);
            proof {
                assert(url@ =~= "http://"@ + self.config.url.host@ + spec_port_text(
                    self.config.url.port,
                ) + path@);
            }
            Ok(
                RequestBuilder {
                    config: self.config,
                    connection: Some(Connection::Tcp { url }),
                    state: ReadyToSend,
                },
            )
        } else {
            Err(Error::new(ErrorKind::DaemonError, "Invalid protocol"))
        }
    }
}

} // verus!
