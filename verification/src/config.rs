//! Connection settings, worked out from the values found in the environment.

use crate::db::opt_text;
use crate::text::{ascii_lowered, eq_ignore_ascii_case, str_eq};
use vstd::prelude::*;
use vstd::string::*;

verus! {

/// How to secure the connection.
#[derive(Debug, Clone, PartialEq)]
pub struct TlsSettings {
    /// The file of trusted certificate authorities, where one is given.
    pub ca_file: Option<String>,
    /// Whether the peer's certificate is verified.
    pub verify_peer: bool,
}

/// Where and how to connect.
#[derive(Debug, Clone, PartialEq)]
pub struct ConnectionSettings {
    pub uri: String,
    /// User name and password, where both are given.
    pub credentials: Option<(String, String)>,
    /// Security settings, where the connection is to be secured.
    pub tls: Option<TlsSettings>,
}

/// How messages are framed on the transport.
#[derive(Debug, Clone, Copy, PartialEq, Eq)]
pub enum Framing {
    /// One message per line.
    Newline,
    /// Messages preceded by their length.
    ContentLength,
}

/// Whether a value switches something on: it is `1`, or `true` in any mix of
/// ASCII case. A value that is absent switches nothing on.
pub open spec fn switched_on(value: Option<Seq<char>>) -> bool {
    match value {
        Some(v) => v == "1"@ || ascii_lowered(v) == ascii_lowered("true"@),
        None => false,
    }
}

/// The mathematical value of security settings.
pub struct TlsView {
    pub ca_file: Option<Seq<char>>,
    pub verify_peer: bool,
}

/// The mathematical value of connection settings.
pub struct SettingsView {
    pub uri: Seq<char>,
    pub credentials: Option<(Seq<char>, Seq<char>)>,
    pub tls: Option<TlsView>,
}

impl View for ConnectionSettings {
    type V = SettingsView;

    open spec fn view(&self) -> SettingsView {
        SettingsView {
            uri: self.uri@,
            credentials: match self.credentials {
                Some((user, password)) => Some((user@, password@)),
                None => None,
            },
            tls: match self.tls {
                Some(tls) => Some(
                    TlsView { ca_file: opt_text(tls.ca_file), verify_peer: tls.verify_peer },
                ),
                None => None,
            },
        }
    }
}

/// The settings that the values stand for. Without an address the local
/// node's default port is used; credentials need both a user and a password;
/// the peer is verified unless that is switched off.
pub open spec fn settings_of(
    uri: Option<Seq<char>>,
    user: Option<Seq<char>>,
    password: Option<Seq<char>>,
    secure: Option<Seq<char>>,
    ca_bundle: Option<Seq<char>>,
    insecure: Option<Seq<char>>,
) -> SettingsView {
    SettingsView {
        uri: match uri {
            Some(u) => u,
            None => "127.0.0.1:9042"@,
        },
        credentials: match (user, password) {
            (Some(u), Some(p)) => Some((u, p)),
            _ => None,
        },
        tls: if switched_on(secure) {
            Some(TlsView { ca_file: ca_bundle, verify_peer: !switched_on(insecure) })
        } else {
            None
        },
    }
}

/// Decides whether a value switches something on.
pub fn flag_enabled(value: &Option<String>) -> (on: bool)
    ensures
        on == switched_on(opt_text(*value)),
{
    match value {
        Some(v) => str_eq(v.as_str(), "1") || eq_ignore_ascii_case(v.as_str(), "true"),
        None => false,
    }
}

/// Works out the connection settings from the values given for the address,
/// the user, the password, the security switch, the file of certificate
/// authorities and the switch that turns verification off.
pub fn connection_settings(
    uri: Option<String>,
    user: Option<String>,
    password: Option<String>,
    secure: Option<String>,
    ca_bundle: Option<String>,
    insecure: Option<String>,
) -> (settings: ConnectionSettings)
    ensures
        settings@ == settings_of(
            opt_text(uri),
            opt_text(user),
            opt_text(password),
            opt_text(secure),
            opt_text(ca_bundle),
            opt_text(insecure),
        ),
{
    let tls = if flag_enabled(&secure) {
        Some(TlsSettings { ca_file: ca_bundle, verify_peer: !flag_enabled(&insecure) })
    } else {
        None
    };
    let credentials = match (user, password) {
        (Some(u), Some(p)) => Some((u, p)),
        _ => None,
    };
    let uri = match uri {
        Some(u) => u,
        None => String::from_str("127.0.0.1:9042"),
    };
    ConnectionSettings { uri, credentials, tls }
}

/// Chooses the framing: one message per line where the value is `newline`,
/// else messages preceded by their length.
pub fn framing_of(value: &Option<String>) -> (framing: Framing)
    ensures
        framing == (if opt_text(*value) == Some("newline"@) {
            Framing::Newline
        } else {
            Framing::ContentLength
        }),
{
    match value {
        Some(v) => if str_eq(v.as_str(), "newline") {
            Framing::Newline
        } else {
            Framing::ContentLength
        },
        None => Framing::ContentLength,
    }
}

} // verus!
