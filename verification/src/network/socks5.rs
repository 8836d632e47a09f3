//! SOCKS5 (RFC 1928) `CONNECT` support, used to route the Minecraft TCP
//! connection through a proxy before the vanilla handshake begins.
//!
//! Only `CONNECT` (`CMD = 0x01`) is implemented, the only command a Minecraft
//! client needs. The negotiation is a machine: it says what to write and how
//! many bytes to read, and is handed the reply.
use crate::error::RetryClass;
use crate::minecraft::text::to_chars;
use crate::protocol::big_endian::{be_bytes, to_be_vec};
use crate::text_build::{
    append_hex, append_int, debug_text, decimal, hex, quoted, text_around,
};
use vstd::prelude::*;
use vstd::utf8::encode_utf8;

verus! {

pub const VERSION: u8 = 0x05;

pub const METHOD_NO_AUTH: u8 = 0x00;

pub const METHOD_USER_PASS: u8 = 0x02;

pub const METHOD_NO_ACCEPTABLE: u8 = 0xFF;

pub const USER_PASS_VERSION: u8 = 0x01;

pub const USER_PASS_SUCCESS: u8 = 0x00;

pub const CMD_CONNECT: u8 = 0x01;

pub const ATYP_IPV4: u8 = 0x01;

pub const ATYP_DOMAIN: u8 = 0x03;

pub const ATYP_IPV6: u8 = 0x04;

/// Length-prefix fields are one byte: 255 is the largest value that fits.
pub const MAX_FIELD_LEN: usize = 255;

/// A proxy password that is never printed: the only way to read the plaintext
/// is [`ProxyPassword::expose_secret`], named to make every call site visibly
/// opt in.
pub struct ProxyPassword(String);

impl View for ProxyPassword {
    type V = Seq<char>;

    closed spec fn view(&self) -> Seq<char> {
        self.0@
    }
}

/// What is shown in place of a password.
pub const REDACTED_PASSWORD: &'static str = "ProxyPassword(<redacted>)";

impl ProxyPassword {
    /// Wraps a password.
    pub fn new(password: &str) -> (p: Self)
        ensures
            p@ == password@,
    {
        ProxyPassword(password.to_owned())
    }

    /// The plaintext password.
    pub fn expose_secret(&self) -> (s: &str)
        ensures
            s@ == self@,
    {
        self.0.as_str()
    }

    /// What is shown in place of the password.
    pub fn redacted(&self) -> (s: String)
        ensures
            s@ == REDACTED_PASSWORD@,
    {
        REDACTED_PASSWORD.to_owned()
    }
}

/// Username/password credentials (RFC 1929). Neither is shown: proxy usernames
/// are often account identifiers worth keeping out of logs.
pub struct Socks5Credentials {
    pub username: String,
    pub password: ProxyPassword,
}

/// What is shown of credentials.
pub const REDACTED_CREDENTIALS: &'static str =
    "Socks5Credentials { username: \"<redacted>\", password: ProxyPassword(<redacted>) }";

impl Socks5Credentials {
    /// Credentials of this name and password.
    pub fn new(username: &str, password: &str) -> (c: Self)
        ensures
            c.username@ == username@,
            c.password@ == password@,
    {
        Socks5Credentials {
            username: username.to_owned(),
            password: ProxyPassword::new(password),
        }
    }

    /// What is shown of the credentials.
    pub fn redacted(&self) -> (s: String)
        ensures
            s@ == REDACTED_CREDENTIALS@,
    {
        REDACTED_CREDENTIALS.to_owned()
    }
}

/// SOCKS5 proxy configuration.
pub struct Socks5ProxyConfig {
    pub host: String,
    pub port: u16,
    pub credentials: Option<Socks5Credentials>,
}

/// A host and a port.
pub open spec fn endpoint_text(host: Seq<char>, port: u16) -> Seq<char> {
    host + ":"@ + decimal(port as int)
}

fn endpoint_of(host: &str, port: u16) -> (s: String)
    ensures
        s@ == endpoint_text(host@, port),
{
    let mut s: String = host.to_owned();
    s.append(":");
    append_int(&mut s, port as i128);
    s
}

/// What is shown of a configuration.
pub open spec fn config_text(host: Seq<char>, port: u16, credentials: bool) -> Seq<char> {
    "Socks5ProxyConfig { host: "@ + debug_text(host) + ", port: "@ + decimal(port as int)
        + ", credentials: "@ + if credentials {
        "Some("@ + REDACTED_CREDENTIALS@ + ")"@
    } else {
        "None"@
    } + " }"@
}

impl Socks5ProxyConfig {
    /// A proxy that needs no credentials.
    pub fn new(host: &str, port: u16) -> (c: Self)
        ensures
            c.host@ == host@,
            c.port == port,
            c.credentials is None,
    {
        Socks5ProxyConfig { host: host.to_owned(), port, credentials: None }
    }

    /// The same proxy with credentials.
    pub fn with_credentials(self, credentials: Socks5Credentials) -> (c: Self)
        ensures
            c == (Socks5ProxyConfig { credentials: Some(credentials), ..self }),
    {
        Socks5ProxyConfig { host: self.host, port: self.port, credentials: Some(credentials) }
    }

    /// The proxy's host and port.
    pub fn endpoint(&self) -> (s: String)
        ensures
            s@ == endpoint_text(self.host@, self.port),
    {
        endpoint_of(self.host.as_str(), self.port)
    }

    /// What is shown of the configuration.
    pub fn redacted(&self) -> (s: String)
        ensures
            s@ == config_text(self.host@, self.port, self.credentials is Some),
    {
        let credentials: String = match &self.credentials {
            Some(c) => text_around("Some(", c.redacted().as_str(), ")"),
            None => "None".to_owned(),
        };
        let mut s = text_around(
            "Socks5ProxyConfig { host: ",
            quoted(self.host.as_str()).as_str(),
            ", port: ",
        );
        append_int(&mut s, self.port as i128);
        s.append(", credentials: ");
        s.append(credentials.as_str());
        s.append(" }");
        s
    }
}

/// What is wrong with a configuration out of the environment. Never carries
/// the password.
#[derive(Debug)]
pub enum EnvConfigError {
    Missing(String),
    InvalidPort(String),
    PartialCredentials,
}

impl EnvConfigError {
    /// What the error says.
    pub open spec fn text(self) -> Seq<char> {
        match self {
            EnvConfigError::Missing(var) => "environment variable "@ + var@
                + " is required when the host variable is set"@,
            EnvConfigError::InvalidPort(var) => "environment variable "@ + var@
                + " is not a valid port number"@,
            EnvConfigError::PartialCredentials =>
                "only one of the username/password environment variables was set; provide both or neither"@,
        }
    }

    /// What the error says.
    pub fn message(&self) -> (s: String)
        ensures
            s@ == self.text(),
    {
        match self {
            EnvConfigError::Missing(var) => text_around(
                "environment variable ",
                var.as_str(),
                " is required when the host variable is set",
            ),
            EnvConfigError::InvalidPort(var) => text_around(
                "environment variable ",
                var.as_str(),
                " is not a valid port number",
            ),
            EnvConfigError::PartialCredentials =>
                "only one of the username/password environment variables was set; provide both or neither".to_owned(),
        }
    }
}

/// The value of decimal digits; none where there is something else.
pub open spec fn digits_value(s: Seq<char>) -> Option<nat>
    decreases s.len(),
{
    if s.len() == 0 {
        Some(0)
    } else {
        match digits_value(s.drop_last()) {
            Some(v) => if '0' <= s.last() <= '9' {
                Some(10 * v + (s.last() as u32 - 48) as nat)
            } else {
                None
            },
            None => None,
        }
    }
}

/// The port that a text writes: decimal digits behind an optional plus sign,
/// of which there is at least one, up to 65535.
pub open spec fn port_value(s: Seq<char>) -> Option<u16> {
    let digits = if s.len() > 0 && s[0] == '+' {
        s.skip(1)
    } else {
        s
    };
    if digits.len() == 0 {
        None
    } else {
        match digits_value(digits) {
            Some(v) => if v <= u16::MAX {
                Some(v as u16)
            } else {
                None
            },
            None => None,
        }
    }
}

/// Where a beginning is no number, or too large a one, so is the whole.
proof fn lemma_digits_prefix(s: Seq<char>, i: int)
    requires
        0 <= i <= s.len(),
    ensures
        digits_value(s.take(i)) is None ==> digits_value(s) is None,
        digits_value(s) is Some ==> digits_value(s.take(i)) is Some && digits_value(s)->0
            >= digits_value(s.take(i))->0,
    decreases s.len() - i,
{
    if i < s.len() {
        lemma_digits_prefix(s, i + 1);
        assert(s.take(i + 1).drop_last() =~= s.take(i));
    } else {
        assert(s.take(i) =~= s);
    }
}

/// The port that a text writes.
pub fn parse_port(text: &str) -> (port: Option<u16>)
    ensures
        port == port_value(text@),
{
    let chars = to_chars(text);
    let start: usize = if chars.len() > 0 && chars[0] == '+' {
        1
    } else {
        0
    };
    let ghost digits = chars@.skip(start as int);
    proof {
        assert(chars@.skip(0) =~= chars@);
        assert(digits.take(0) =~= Seq::empty());
    }
    if chars.len() == start {
        return None;
    }
    let mut value: u32 = 0;
    let mut i: usize = start;
    while i < chars.len()
        invariant
            start <= i <= chars@.len(),
            start <= 1,
            digits == chars@.skip(start as int),
            digits == (if text@.len() > 0 && text@[0] == '+' {
                text@.skip(1)
            } else {
                text@
            }),
            digits.len() > 0,
            value <= 0xFFFF,
            digits_value(digits.take(i - start)) == Some(value as nat),
        decreases chars@.len() - i,
    {
        let c = chars[i];
        proof {
            assert(digits.take(i - start + 1).drop_last() =~= digits.take(i - start));
            assert(digits.take(i - start + 1).last() == c);
            lemma_digits_prefix(digits, i - start + 1);
        }
        if !('0' <= c && c <= '9') {
            return None;
        }
        value = 10 * value + (c as u32 - 48);
        i += 1;
        if value > 0xFFFF {
            return None;
        }
    }
    assert(digits.take(i - start) =~= digits);
    Some(value as u16)
}

/// The variables that a configuration is read from.
pub struct EnvVars {
    pub host: Option<String>,
    pub port: Option<String>,
    pub username: Option<String>,
    pub password: Option<String>,
}

/// What a configuration out of the environment comes to.
pub open spec fn env_outcome(
    prefix: Seq<char>,
    vars: EnvVars,
    res: Result<Option<Socks5ProxyConfig>, EnvConfigError>,
) -> bool {
    match (vars.host, vars.port) {
        (None, _) => res matches Ok(None),
        (Some(_), None) => res matches Err(EnvConfigError::Missing(var)) && var@ == prefix
            + "_PORT"@,
        (Some(host), Some(port)) => match port_value(port@) {
            None => res matches Err(EnvConfigError::InvalidPort(var)) && var@ == prefix + "_PORT"@,
            Some(port) => match (vars.username, vars.password) {
                (Some(username), Some(password)) => res matches Ok(Some(c)) && c.host@ == host@
                    && c.port == port && (c.credentials matches Some(k) && k.username@ == username@
                    && k.password@ == password@),
                (None, None) => res matches Ok(Some(c)) && c.host@ == host@ && c.port == port
                    && c.credentials is None,
                _ => res matches Err(EnvConfigError::PartialCredentials),
            },
        },
    }
}

impl Socks5ProxyConfig {
    /// A configuration out of the variables that start with `prefix`. No host
    /// means no proxy; a host without the rest is an error.
    pub fn from_vars(prefix: &str, vars: &EnvVars) -> (res: Result<Option<Self>, EnvConfigError>)
        ensures
            env_outcome(prefix@, *vars, res),
    {
        let host = match &vars.host {
            Some(host) => host,
            None => return Ok(None),
        };
        let mut port_var: String = prefix.to_owned();
        port_var.append("_PORT");
        let port: u16 = match &vars.port {
            None => return Err(EnvConfigError::Missing(port_var)),
            Some(text) => match parse_port(text.as_str()) {
                Some(port) => port,
                None => return Err(EnvConfigError::InvalidPort(port_var)),
            },
        };
        let config = Socks5ProxyConfig::new(host.as_str(), port);
        match (&vars.username, &vars.password) {
            (Some(username), Some(password)) => Ok(
                Some(
                    config.with_credentials(
                        Socks5Credentials::new(username.as_str(), password.as_str()),
                    ),
                ),
            ),
            (None, None) => Ok(Some(config)),
            _ => Err(EnvConfigError::PartialCredentials),
        }
    }
}

/// The reply code of a SOCKS5 reply.
#[derive(Debug, Clone, Copy, PartialEq, Eq, Structural)]
pub enum Socks5Reply {
    Succeeded,
    GeneralFailure,
    NotAllowedByRuleset,
    NetworkUnreachable,
    HostUnreachable,
    ConnectionRefused,
    TtlExpired,
    CommandNotSupported,
    AddressTypeNotSupported,
    /// A reply code outside 0x00-0x08; still a well-formed reply frame.
    Unknown(u8),
}

/// The reply that a code stands for.
pub open spec fn reply_of(code: u8) -> Socks5Reply {
    if code == 0 {
        Socks5Reply::Succeeded
    } else if code == 1 {
        Socks5Reply::GeneralFailure
    } else if code == 2 {
        Socks5Reply::NotAllowedByRuleset
    } else if code == 3 {
        Socks5Reply::NetworkUnreachable
    } else if code == 4 {
        Socks5Reply::HostUnreachable
    } else if code == 5 {
        Socks5Reply::ConnectionRefused
    } else if code == 6 {
        Socks5Reply::TtlExpired
    } else if code == 7 {
        Socks5Reply::CommandNotSupported
    } else if code == 8 {
        Socks5Reply::AddressTypeNotSupported
    } else {
        Socks5Reply::Unknown(code)
    }
}

/// How a reply is retried: a ruleset denial is a stated decision; network,
/// host, connection and TTL failures can change between attempts; the rest are
/// fixed limits of the proxy.
pub open spec fn reply_class(reply: Socks5Reply) -> RetryClass {
    match reply {
        Socks5Reply::NotAllowedByRuleset => RetryClass::ServerRejected,
        Socks5Reply::CommandNotSupported => RetryClass::ProtocolIncompatible,
        Socks5Reply::AddressTypeNotSupported => RetryClass::ProtocolIncompatible,
        Socks5Reply::Unknown(_) => RetryClass::ProtocolIncompatible,
        _ => RetryClass::Transient,
    }
}

impl Socks5Reply {
    /// The reply that a code stands for.
    pub fn from_code(code: u8) -> (r: Self)
        ensures
            r == reply_of(code),
    {
        match code {
            0x00 => Socks5Reply::Succeeded,
            0x01 => Socks5Reply::GeneralFailure,
            0x02 => Socks5Reply::NotAllowedByRuleset,
            0x03 => Socks5Reply::NetworkUnreachable,
            0x04 => Socks5Reply::HostUnreachable,
            0x05 => Socks5Reply::ConnectionRefused,
            0x06 => Socks5Reply::TtlExpired,
            0x07 => Socks5Reply::CommandNotSupported,
            0x08 => Socks5Reply::AddressTypeNotSupported,
            other => Socks5Reply::Unknown(other),
        }
    }

    /// How the reply is retried.
    pub fn retry_class(self) -> (c: RetryClass)
        ensures
            c == reply_class(self),
    {
        match self {
            Socks5Reply::NotAllowedByRuleset => RetryClass::ServerRejected,
            Socks5Reply::CommandNotSupported => RetryClass::ProtocolIncompatible,
            Socks5Reply::AddressTypeNotSupported => RetryClass::ProtocolIncompatible,
            Socks5Reply::Unknown(_) => RetryClass::ProtocolIncompatible,
            _ => RetryClass::Transient,
        }
    }

    /// What the reply says.
    pub open spec fn text(self) -> Seq<char> {
        match self {
            Socks5Reply::Succeeded => "succeeded"@,
            Socks5Reply::GeneralFailure => "general SOCKS server failure"@,
            Socks5Reply::NotAllowedByRuleset => "connection not allowed by ruleset"@,
            Socks5Reply::NetworkUnreachable => "network unreachable"@,
            Socks5Reply::HostUnreachable => "host unreachable"@,
            Socks5Reply::ConnectionRefused => "connection refused"@,
            Socks5Reply::TtlExpired => "TTL expired"@,
            Socks5Reply::CommandNotSupported => "command not supported"@,
            Socks5Reply::AddressTypeNotSupported => "address type not supported"@,
            Socks5Reply::Unknown(code) => "unknown reply code 0x"@ + hex(code as i32),
        }
    }

    /// What the reply says.
    pub fn message(&self) -> (s: String)
        ensures
            s@ == self.text(),
    {
        match self {
            Socks5Reply::Succeeded => "succeeded".to_owned(),
            Socks5Reply::GeneralFailure => "general SOCKS server failure".to_owned(),
            Socks5Reply::NotAllowedByRuleset => "connection not allowed by ruleset".to_owned(),
            Socks5Reply::NetworkUnreachable => "network unreachable".to_owned(),
            Socks5Reply::HostUnreachable => "host unreachable".to_owned(),
            Socks5Reply::ConnectionRefused => "connection refused".to_owned(),
            Socks5Reply::TtlExpired => "TTL expired".to_owned(),
            Socks5Reply::CommandNotSupported => "command not supported".to_owned(),
            Socks5Reply::AddressTypeNotSupported => "address type not supported".to_owned(),
            Socks5Reply::Unknown(code) => hex_text("unknown reply code 0x", *code),
        }
    }
}

fn hex_text(prefix: &str, code: u8) -> (s: String)
    ensures
        s@ == prefix@ + hex(code as i32),
{
    let mut s: String = prefix.to_owned();
    append_hex(&mut s, code as i32);
    s
}

/// Every way a connection through a proxy can fail. Endpoints (proxy and target
/// `host:port`) are configuration, not secrets. No variant ever carries a
/// username or password.
#[derive(Debug)]
pub enum ProxySocks5Error {
    ProxyConnect { endpoint: String, source: String },
    Io { endpoint: String, phase: &'static str, source: String },
    Timeout { endpoint: String, phase: &'static str },
    NoAcceptableAuthMethod { endpoint: String },
    AuthenticationRejected { endpoint: String },
    ConnectRefused { endpoint: String, target: String, reply: Socks5Reply },
    Protocol { endpoint: String, phase: &'static str, reason: String },
    UsernameTooLong,
    PasswordTooLong,
    TargetTooLong { target: String },
}

impl ProxySocks5Error {
    /// Whether the error is a malformed reply with exactly these parts.
    pub open spec fn is_malformed(
        self,
        endpoint: Seq<char>,
        phase: Seq<char>,
        reason: Seq<char>,
    ) -> bool {
        self matches ProxySocks5Error::Protocol { endpoint: e, phase: p, reason: r } && e@ == endpoint
            && p@ == phase && r@ == reason
    }

    /// How the error is retried: configuration and capability mismatches are
    /// never worth retrying silently.
    pub open spec fn class(self) -> RetryClass {
        match self {
            ProxySocks5Error::ProxyConnect { .. } => RetryClass::Transient,
            ProxySocks5Error::Io { .. } => RetryClass::Transient,
            ProxySocks5Error::Timeout { .. } => RetryClass::Transient,
            ProxySocks5Error::NoAcceptableAuthMethod { .. } => RetryClass::AuthFailure,
            ProxySocks5Error::AuthenticationRejected { .. } => RetryClass::AuthFailure,
            ProxySocks5Error::UsernameTooLong => RetryClass::AuthFailure,
            ProxySocks5Error::PasswordTooLong => RetryClass::AuthFailure,
            ProxySocks5Error::TargetTooLong { .. } => RetryClass::ProtocolIncompatible,
            ProxySocks5Error::Protocol { .. } => RetryClass::ProtocolIncompatible,
            ProxySocks5Error::ConnectRefused { reply, .. } => reply_class(reply),
        }
    }

    /// How the error is retried.
    pub fn retry_class(&self) -> (c: RetryClass)
        ensures
            c == self.class(),
    {
        match self {
            ProxySocks5Error::ProxyConnect { .. } => RetryClass::Transient,
            ProxySocks5Error::Io { .. } => RetryClass::Transient,
            ProxySocks5Error::Timeout { .. } => RetryClass::Transient,
            ProxySocks5Error::NoAcceptableAuthMethod { .. } => RetryClass::AuthFailure,
            ProxySocks5Error::AuthenticationRejected { .. } => RetryClass::AuthFailure,
            ProxySocks5Error::UsernameTooLong => RetryClass::AuthFailure,
            ProxySocks5Error::PasswordTooLong => RetryClass::AuthFailure,
            ProxySocks5Error::TargetTooLong { .. } => RetryClass::ProtocolIncompatible,
            ProxySocks5Error::Protocol { .. } => RetryClass::ProtocolIncompatible,
            ProxySocks5Error::ConnectRefused { reply, .. } => reply.retry_class(),
        }
    }

    /// What the error says.
    pub open spec fn text(self) -> Seq<char> {
        match self {
            ProxySocks5Error::ProxyConnect { endpoint, source } => "connecting to SOCKS5 proxy "@
                + endpoint@ + ": "@ + source@,
            ProxySocks5Error::Io { endpoint, phase, source } =>
                "io error talking to SOCKS5 proxy "@ + endpoint@ + " during "@ + phase@ + ": "@
                    + source@,
            ProxySocks5Error::Timeout { endpoint, phase } => "timed out talking to SOCKS5 proxy "@
                + endpoint@ + " during "@ + phase@,
            ProxySocks5Error::NoAcceptableAuthMethod { endpoint } => "SOCKS5 proxy "@ + endpoint@
                + " rejected every offered authentication method"@,
            ProxySocks5Error::AuthenticationRejected { endpoint } => "SOCKS5 proxy "@ + endpoint@
                + " rejected the supplied username/password"@,
            ProxySocks5Error::ConnectRefused { endpoint, target, reply } => "SOCKS5 proxy "@
                + endpoint@ + " refused CONNECT to "@ + target@ + ": "@ + reply.text(),
            ProxySocks5Error::Protocol { endpoint, phase, reason } => "SOCKS5 proxy "@ + endpoint@
                + " sent a malformed "@ + phase@ + ": "@ + reason@,
            ProxySocks5Error::UsernameTooLong =>
                "proxy username exceeds the SOCKS5 255-byte length limit"@,
            ProxySocks5Error::PasswordTooLong =>
                "proxy password exceeds the SOCKS5 255-byte length limit"@,
            ProxySocks5Error::TargetTooLong { target } => "target hostname "@ + debug_text(target@)
                + " exceeds the SOCKS5 255-byte domain length limit"@,
        }
    }

    /// What the error says.
    pub fn message(&self) -> (s: String)
        ensures
            s@ == self.text(),
    {
        match self {
            ProxySocks5Error::ProxyConnect { endpoint, source } => {
                let mut s = text_around("connecting to SOCKS5 proxy ", endpoint.as_str(), ": ");
                s.append(source.as_str());
                s
            },
            ProxySocks5Error::Io { endpoint, phase, source } => {
                let mut s = text_around(
                    "io error talking to SOCKS5 proxy ",
                    endpoint.as_str(),
                    " during ",
                );
                s.append(phase);
                s.append(": ");
                s.append(source.as_str());
                s
            },
            ProxySocks5Error::Timeout { endpoint, phase } => {
                let mut s = text_around(
                    "timed out talking to SOCKS5 proxy ",
                    endpoint.as_str(),
                    " during ",
                );
                s.append(phase);
                s
            },
            ProxySocks5Error::NoAcceptableAuthMethod { endpoint } => text_around(
                "SOCKS5 proxy ",
                endpoint.as_str(),
                " rejected every offered authentication method",
            ),
            ProxySocks5Error::AuthenticationRejected { endpoint } => text_around(
                "SOCKS5 proxy ",
                endpoint.as_str(),
                " rejected the supplied username/password",
            ),
            ProxySocks5Error::ConnectRefused { endpoint, target, reply } => {
                let mut s = text_around(
                    "SOCKS5 proxy ",
                    endpoint.as_str(),
                    " refused CONNECT to ",
                );
                s.append(target.as_str());
                s.append(": ");
                s.append(reply.message().as_str());
                s
            },
            ProxySocks5Error::Protocol { endpoint, phase, reason } => {
                let mut s = text_around("SOCKS5 proxy ", endpoint.as_str(), " sent a malformed ");
                s.append(phase);
                s.append(": ");
                s.append(reason.as_str());
                s
            },
            ProxySocks5Error::UsernameTooLong =>
                "proxy username exceeds the SOCKS5 255-byte length limit".to_owned(),
            ProxySocks5Error::PasswordTooLong =>
                "proxy password exceeds the SOCKS5 255-byte length limit".to_owned(),
            ProxySocks5Error::TargetTooLong { target } => text_around(
                "target hostname ",
                quoted(target.as_str()).as_str(),
                " exceeds the SOCKS5 255-byte domain length limit",
            ),
        }
    }
}

/// A literal address, as the number that its octets write.
#[derive(Debug, Clone, Copy, PartialEq, Eq, Structural)]
pub enum IpLiteral {
    V4(u32),
    V6(u128),
}

/// The address part of a request: the octets of a literal, or the name itself,
/// which the proxy resolves. None where the name is too long.
pub open spec fn target_bytes(host: Seq<char>, literal: Option<IpLiteral>) -> Option<Seq<u8>> {
    match literal {
        Some(IpLiteral::V4(n)) => Some(seq![ATYP_IPV4] + be_bytes(n as nat, 4)),
        Some(IpLiteral::V6(n)) => Some(seq![ATYP_IPV6] + be_bytes(n as nat, 16)),
        None => {
            let name = encode_utf8(host);
            if name.len() > MAX_FIELD_LEN {
                None
            } else {
                Some(seq![ATYP_DOMAIN, name.len() as u8] + name)
            }
        },
    }
}

/// Encodes the address part of a request. `literal` is the address that the
/// host writes, if it writes one; anything else is sent as a name, so the
/// *proxy* resolves it.
pub fn encode_target(host: &str, literal: Option<IpLiteral>) -> (res: Result<
    Vec<u8>,
    ProxySocks5Error,
>)
    ensures
        match (res, target_bytes(host@, literal)) {
            (Ok(bytes), Some(want)) => bytes@ == want,
            (Err(e), None) => e matches ProxySocks5Error::TargetTooLong { target } && target@
                == host@,
            _ => false,
        },
{
    let mut out: Vec<u8> = Vec::new();
    match literal {
        Some(IpLiteral::V4(n)) => {
            out.push(ATYP_IPV4);
            let mut octets = to_be_vec(n as u128, 4);
            out.append(&mut octets);
        },
        Some(IpLiteral::V6(n)) => {
            out.push(ATYP_IPV6);
            let mut octets = to_be_vec(n, 16);
            out.append(&mut octets);
        },
        None => {
            let name = host.as_bytes();
            let len: usize = name.len();
            if len > MAX_FIELD_LEN {
                return Err(ProxySocks5Error::TargetTooLong { target: host.to_owned() });
            }
            out.push(ATYP_DOMAIN);
            out.push(len as u8);
            out.extend_from_slice(name);
        },
    }
    assert(out@ =~= target_bytes(host@, literal)->0);
    Ok(out)
}

/// The only method that is offered: with credentials, never one that skips
/// them.
pub open spec fn offered_method(credentials: bool) -> u8 {
    if credentials {
        METHOD_USER_PASS
    } else {
        METHOD_NO_AUTH
    }
}

/// The opening of a negotiation.
pub open spec fn greeting_bytes(credentials: bool) -> Seq<u8> {
    seq![VERSION, 1u8, offered_method(credentials)]
}

/// How credentials are sent: each behind its length.
pub open spec fn auth_bytes(username: Seq<char>, password: Seq<char>) -> Seq<u8> {
    seq![USER_PASS_VERSION, encode_utf8(username).len() as u8] + encode_utf8(username) + seq![
        encode_utf8(password).len() as u8,
    ] + encode_utf8(password)
}

/// How a connection is asked for.
pub open spec fn connect_bytes(target: Seq<u8>, port: u16) -> Seq<u8> {
    seq![VERSION, CMD_CONNECT, 0u8] + target + be_bytes(port as nat, 2)
}

/// With credentials nothing but their method is offered, whatever they are.
pub proof fn law_credentials_are_never_skipped()
    ensures
        !greeting_bytes(true).skip(2).contains(METHOD_NO_AUTH),
        greeting_bytes(true).skip(2) =~= seq![METHOD_USER_PASS],
        greeting_bytes(false).skip(2) =~= seq![METHOD_NO_AUTH],
{
    assert(greeting_bytes(true).skip(2) =~= seq![METHOD_USER_PASS]);
    assert(greeting_bytes(false).skip(2) =~= seq![METHOD_NO_AUTH]);
}

/// What the reply to the opening means, for a proxy at `endpoint`.
pub open spec fn method_fault(
    endpoint: Seq<char>,
    credentials: bool,
    reply: Seq<u8>,
    e: ProxySocks5Error,
) -> bool {
    if reply[0] != VERSION {
        e.is_malformed(
            endpoint,
            "method negotiation reply"@,
            "unexpected SOCKS version 0x"@ + hex(reply[0] as i32),
        )
    } else if reply[1] == METHOD_NO_ACCEPTABLE {
        e matches ProxySocks5Error::NoAcceptableAuthMethod { endpoint: at } && at@ == endpoint
    } else {
        e.is_malformed(
            endpoint,
            "method negotiation reply"@,
            "proxy selected unoffered method 0x"@ + hex(reply[1] as i32),
        )
    }
}

/// Whether the proxy takes the method that was offered.
pub open spec fn method_taken(credentials: bool, reply: Seq<u8>) -> bool {
    reply[0] == VERSION && reply[1] == offered_method(credentials)
}

/// Judges the reply to the opening.
pub fn check_method(endpoint: &str, credentials: bool, reply: &[u8]) -> (res: Result<
    (),
    ProxySocks5Error,
>)
    requires
        reply@.len() == 2,
    ensures
        match res {
            Ok(_) => method_taken(credentials, reply@),
            Err(e) => !method_taken(credentials, reply@) && method_fault(
                endpoint@,
                credentials,
                reply@,
                e,
            ),
        },
{
    if reply[0] != VERSION {
        return Err(
            ProxySocks5Error::Protocol {
                endpoint: endpoint.to_owned(),
                phase: "method negotiation reply",
                reason: hex_text("unexpected SOCKS version 0x", reply[0]),
            },
        );
    }
    let offered: u8 = if credentials {
        METHOD_USER_PASS
    } else {
        METHOD_NO_AUTH
    };
    if reply[1] == offered {
        return Ok(());
    }
    if reply[1] == METHOD_NO_ACCEPTABLE {
        return Err(ProxySocks5Error::NoAcceptableAuthMethod { endpoint: endpoint.to_owned() });
    }
    Err(
        ProxySocks5Error::Protocol {
            endpoint: endpoint.to_owned(),
            phase: "method negotiation reply",
            reason: hex_text("proxy selected unoffered method 0x", reply[1]),
        },
    )
}

/// What a reply to credentials that does not take them means.
pub open spec fn auth_fault(endpoint: Seq<char>, reply: Seq<u8>, e: ProxySocks5Error) -> bool {
    if reply[0] != USER_PASS_VERSION {
        e.is_malformed(
            endpoint,
            "authentication reply"@,
            "unexpected sub-negotiation version 0x"@ + hex(reply[0] as i32),
        )
    } else {
        e matches ProxySocks5Error::AuthenticationRejected { endpoint: at } && at@ == endpoint
    }
}

/// Whether the credentials were taken.
pub open spec fn auth_taken(reply: Seq<u8>) -> bool {
    reply[0] == USER_PASS_VERSION && reply[1] == USER_PASS_SUCCESS
}

/// Judges the reply to credentials.
pub fn check_auth(endpoint: &str, reply: &[u8]) -> (res: Result<(), ProxySocks5Error>)
    requires
        reply@.len() == 2,
    ensures
        match res {
            Ok(_) => auth_taken(reply@),
            Err(e) => !auth_taken(reply@) && auth_fault(endpoint@, reply@, e),
        },
{
    if reply[0] != USER_PASS_VERSION {
        return Err(
            ProxySocks5Error::Protocol {
                endpoint: endpoint.to_owned(),
                phase: "authentication reply",
                reason: hex_text("unexpected sub-negotiation version 0x", reply[0]),
            },
        );
    }
    if reply[1] != USER_PASS_SUCCESS {
        return Err(ProxySocks5Error::AuthenticationRejected { endpoint: endpoint.to_owned() });
    }
    Ok(())
}

/// How much of a reply follows its head.
#[derive(Debug, Clone, Copy, PartialEq, Eq, Structural)]
pub enum Tail {
    /// An address of this many bytes, and a port.
    Address(usize),
    /// A length, then a name of that length and a port.
    Name,
}

/// What follows the head of a reply; none where it is malformed.
pub open spec fn tail_of(head: Seq<u8>) -> Option<Tail> {
    if head[0] != VERSION {
        None
    } else if head[3] == ATYP_IPV4 {
        Some(Tail::Address(4))
    } else if head[3] == ATYP_IPV6 {
        Some(Tail::Address(16))
    } else if head[3] == ATYP_DOMAIN {
        Some(Tail::Name)
    } else {
        None
    }
}

/// Judges the head of the reply to a request.
pub fn check_head(endpoint: &str, head: &[u8]) -> (res: Result<Tail, ProxySocks5Error>)
    requires
        head@.len() == 4,
    ensures
        match res {
            Ok(tail) => tail_of(head@) == Some(tail),
            Err(e) => tail_of(head@) is None && e.is_malformed(
                endpoint@,
                "CONNECT reply"@,
                if head@[0] != VERSION {
                    "unexpected SOCKS version 0x"@ + hex(head@[0] as i32)
                } else {
                    "unsupported bound-address type 0x"@ + hex(head@[3] as i32)
                },
            ),
        },
{
    if head[0] != VERSION {
        return Err(
            ProxySocks5Error::Protocol {
                endpoint: endpoint.to_owned(),
                phase: "CONNECT reply",
                reason: hex_text("unexpected SOCKS version 0x", head[0]),
            },
        );
    }
    match head[3] {
        0x01 => Ok(Tail::Address(4)),
        0x04 => Ok(Tail::Address(16)),
        0x03 => Ok(Tail::Name),
        other => Err(
            ProxySocks5Error::Protocol {
                endpoint: endpoint.to_owned(),
                phase: "CONNECT reply",
                reason: hex_text("unsupported bound-address type 0x", other),
            },
        ),
    }
}

/// How far a negotiation is: which reply it waits for.
#[derive(Debug, Clone, Copy, PartialEq, Eq, Structural)]
pub enum Awaiting {
    /// Which method the proxy takes.
    Method,
    /// Whether it takes the credentials.
    Authentication,
    /// The head of the reply to the request.
    Head,
    /// The length of a name.
    NameLength { code: u8 },
    /// The rest of the reply.
    Rest { code: u8, len: usize },
    /// Nothing: the tunnel stands.
    Done,
}

/// What to do next: write these bytes, then read exactly that many. Both can
/// be none.
#[derive(Debug)]
pub struct Exchange {
    pub write: Vec<u8>,
    pub read: usize,
}

/// A negotiation with a proxy.
pub struct Negotiation {
    pub endpoint: String,
    pub credentials: Option<Socks5Credentials>,
    pub target: Vec<u8>,
    pub target_host: String,
    pub target_port: u16,
    pub awaiting: Awaiting,
}

impl Negotiation {
    /// The request for a connection.
    pub open spec fn request(self) -> Seq<u8> {
        connect_bytes(self.target@, self.target_port)
    }

    /// How many bytes it waits for.
    pub open spec fn due(self) -> nat {
        match self.awaiting {
            Awaiting::Method => 2,
            Awaiting::Authentication => 2,
            Awaiting::Head => 4,
            Awaiting::NameLength { .. } => 1,
            Awaiting::Rest { len, .. } => len as nat,
            Awaiting::Done => 0,
        }
    }

    /// The target in writing.
    pub open spec fn target_text(self) -> Seq<char> {
        endpoint_text(self.target_host@, self.target_port)
    }

    /// The same negotiation at another point.
    pub open spec fn now(self, awaiting: Awaiting) -> Negotiation {
        Negotiation { awaiting, ..self }
    }

    /// Where a reply leads: the point after it and what to write. None where
    /// the negotiation fails.
    pub open spec fn next(self, reply: Seq<u8>) -> Option<(Awaiting, Seq<u8>)> {
        match self.awaiting {
            Awaiting::Method => if !method_taken(self.credentials is Some, reply) {
                None
            } else {
                match self.credentials {
                    Some(c) => Some(
                        (Awaiting::Authentication, auth_bytes(c.username@, c.password@)),
                    ),
                    None => Some((Awaiting::Head, self.request())),
                }
            },
            Awaiting::Authentication => if auth_taken(reply) {
                Some((Awaiting::Head, self.request()))
            } else {
                None
            },
            Awaiting::Head => match tail_of(reply) {
                Some(Tail::Address(n)) => Some(
                    (Awaiting::Rest { code: reply[1], len: (n + 2) as usize }, Seq::empty()),
                ),
                Some(Tail::Name) => Some((Awaiting::NameLength { code: reply[1] }, Seq::empty())),
                None => None,
            },
            Awaiting::NameLength { code } => Some(
                (Awaiting::Rest { code, len: (reply[0] + 2) as usize }, Seq::empty()),
            ),
            Awaiting::Rest { code, .. } => if reply_of(code) == Socks5Reply::Succeeded {
                Some((Awaiting::Done, Seq::empty()))
            } else {
                None
            },
            Awaiting::Done => Some((Awaiting::Done, Seq::empty())),
        }
    }

    /// How the negotiation fails on a reply that leads nowhere.
    pub open spec fn fault(self, reply: Seq<u8>, e: ProxySocks5Error) -> bool {
        match self.awaiting {
            Awaiting::Method => method_fault(self.endpoint@, self.credentials is Some, reply, e),
            Awaiting::Authentication => auth_fault(self.endpoint@, reply, e),
            Awaiting::Head => e.is_malformed(
                self.endpoint@,
                "CONNECT reply"@,
                if reply[0] != VERSION {
                    "unexpected SOCKS version 0x"@ + hex(reply[0] as i32)
                } else {
                    "unsupported bound-address type 0x"@ + hex(reply[3] as i32)
                },
            ),
            Awaiting::Rest { code, .. } => e matches ProxySocks5Error::ConnectRefused {
                endpoint,
                target,
                reply: r,
            } && endpoint@ == self.endpoint@ && target@ == self.target_text() && r == reply_of(
                code,
            ),
            _ => false,
        }
    }

    /// Opens a negotiation, unless a field is too long to be sent. `literal`
    /// is the address that the target host writes, if it writes one.
    pub fn start(
        proxy: Socks5ProxyConfig,
        target_host: &str,
        literal: Option<IpLiteral>,
        target_port: u16,
    ) -> (res: Result<(Negotiation, Exchange), ProxySocks5Error>)
        ensures
            match proxy.credentials {
                Some(c) if encode_utf8(c.username@).len() > MAX_FIELD_LEN => res matches Err(e)
                    && e == ProxySocks5Error::UsernameTooLong,
                Some(c) if encode_utf8(c.password@).len() > MAX_FIELD_LEN => res matches Err(e)
                    && e == ProxySocks5Error::PasswordTooLong,
                _ => match target_bytes(target_host@, literal) {
                    None => res matches Err(e) && e matches ProxySocks5Error::TargetTooLong {
                        target,
                    } && target@ == target_host@,
                    Some(target) => res matches Ok((n, x)) && {
                        &&& n.endpoint@ == endpoint_text(proxy.host@, proxy.port)
                        &&& n.credentials == proxy.credentials
                        &&& n.target@ == target
                        &&& n.target_host@ == target_host@
                        &&& n.target_port == target_port
                        &&& n.awaiting == Awaiting::Method
                        &&& x.write@ == greeting_bytes(proxy.credentials is Some)
                        &&& x.read == n.due()
                    },
                },
            },
    {
        match &proxy.credentials {
            Some(c) => {
                let name_len: usize = c.username.as_str().as_bytes().len();
                if name_len > MAX_FIELD_LEN {
                    return Err(ProxySocks5Error::UsernameTooLong);
                }
                let password_len: usize = c.password.expose_secret().as_bytes().len();
                if password_len > MAX_FIELD_LEN {
                    return Err(ProxySocks5Error::PasswordTooLong);
                }
            },
            None => {},
        }
        let target = match encode_target(target_host, literal) {
            Ok(target) => target,
            Err(e) => return Err(e),
        };
        let endpoint = proxy.endpoint();
        let offered: u8 = if proxy.credentials.is_some() {
            METHOD_USER_PASS
        } else {
            METHOD_NO_AUTH
        };
        let mut write: Vec<u8> = Vec::new();
        write.push(VERSION);
        write.push(1);
        write.push(offered);
        assert(write@ =~= greeting_bytes(proxy.credentials is Some));
        let negotiation = Negotiation {
            endpoint,
            credentials: proxy.credentials,
            target,
            target_host: target_host.to_owned(),
            target_port,
            awaiting: Awaiting::Method,
        };
        Ok((negotiation, Exchange { write, read: 2 }))
    }

    fn request_bytes(&self) -> (out: Vec<u8>)
        ensures
            out@ == self.request(),
    {
        let mut out: Vec<u8> = Vec::new();
        out.push(VERSION);
        out.push(CMD_CONNECT);
        out.push(0);
        out.extend_from_slice(self.target.as_slice());
        let mut port = to_be_vec(self.target_port as u128, 2);
        out.append(&mut port);
        assert(out@ =~= self.request());
        out
    }

    /// Takes in a reply: what to do next, or why the negotiation fails.
    pub fn on_reply(&mut self, reply: &[u8]) -> (res: Result<Exchange, ProxySocks5Error>)
        requires
            reply@.len() == old(self).due(),
        ensures
            match old(self).next(reply@) {
                Some((awaiting, write)) => res matches Ok(x) && *final(self) == old(self).now(
                    awaiting,
                ) && x.write@ == write && x.read == final(self).due(),
                None => res matches Err(e) && *final(self) == *old(self) && old(self).fault(
                    reply@,
                    e,
                ),
            },
    {
        match self.awaiting {
            Awaiting::Method => {
                match check_method(self.endpoint.as_str(), self.credentials.is_some(), reply) {
                    Ok(_) => {},
                    Err(e) => return Err(e),
                }
                match &self.credentials {
                    Some(c) => {
                        let write = auth_request(c);
                        self.awaiting = Awaiting::Authentication;
                        Ok(Exchange { write, read: 2 })
                    },
                    None => {
                        let write = self.request_bytes();
                        self.awaiting = Awaiting::Head;
                        Ok(Exchange { write, read: 4 })
                    },
                }
            },
            Awaiting::Authentication => {
                match check_auth(self.endpoint.as_str(), reply) {
                    Ok(_) => {},
                    Err(e) => return Err(e),
                }
                let write = self.request_bytes();
                self.awaiting = Awaiting::Head;
                Ok(Exchange { write, read: 4 })
            },
            Awaiting::Head => {
                let tail = match check_head(self.endpoint.as_str(), reply) {
                    Ok(tail) => tail,
                    Err(e) => return Err(e),
                };
                match tail {
                    Tail::Address(n) => {
                        let len: usize = n + 2;
                        self.awaiting = Awaiting::Rest { code: reply[1], len };
                        Ok(Exchange { write: Vec::new(), read: len })
                    },
                    Tail::Name => {
                        self.awaiting = Awaiting::NameLength { code: reply[1] };
                        Ok(Exchange { write: Vec::new(), read: 1 })
                    },
                }
            },
            Awaiting::NameLength { code } => {
                let len: usize = reply[0] as usize + 2;
                self.awaiting = Awaiting::Rest { code, len };
                Ok(Exchange { write: Vec::new(), read: len })
            },
            Awaiting::Rest { code, .. } => {
                let outcome = Socks5Reply::from_code(code);
                if outcome != Socks5Reply::Succeeded {
                    return Err(
                        ProxySocks5Error::ConnectRefused {
                            endpoint: self.endpoint.clone(),
                            target: endpoint_of(self.target_host.as_str(), self.target_port),
                            reply: outcome,
                        },
                    );
                }
                self.awaiting = Awaiting::Done;
                Ok(Exchange { write: Vec::new(), read: 0 })
            },
            Awaiting::Done => Ok(Exchange { write: Vec::new(), read: 0 }),
        }
    }

    /// What is being written or read at this point.
    pub open spec fn phase(self) -> Seq<char> {
        match self.awaiting {
            Awaiting::Method => "method negotiation"@,
            Awaiting::Authentication => "authentication"@,
            _ => "CONNECT reply"@,
        }
    }

    /// What is being read at this point.
    pub fn read_phase(&self) -> (s: &'static str)
        ensures
            s@ == self.phase(),
    {
        match self.awaiting {
            Awaiting::Method => "method negotiation",
            Awaiting::Authentication => "authentication",
            _ => "CONNECT reply",
        }
    }

    /// What is being written at this point.
    pub fn write_phase(&self) -> (s: &'static str)
        ensures
            s@ == (match self.awaiting {
                Awaiting::Method => "method negotiation"@,
                Awaiting::Authentication => "authentication"@,
                _ => "CONNECT request"@,
            }),
    {
        match self.awaiting {
            Awaiting::Method => "method negotiation",
            Awaiting::Authentication => "authentication",
            _ => "CONNECT request",
        }
    }

    /// The error where the proxy closes the connection within a reply.
    pub fn truncated(&self) -> (e: ProxySocks5Error)
        ensures
            e.is_malformed(
                self.endpoint@,
                self.phase(),
                "connection closed with a truncated reply"@,
            ),
    {
        ProxySocks5Error::Protocol {
            endpoint: self.endpoint.clone(),
            phase: self.read_phase(),
            reason: "connection closed with a truncated reply".to_owned(),
        }
    }
}

fn auth_request(c: &Socks5Credentials) -> (out: Vec<u8>)
    ensures
        out@ == auth_bytes(c.username@, c.password@),
{
    let name = c.username.as_str().as_bytes();
    let password = c.password.expose_secret().as_bytes();
    let mut out: Vec<u8> = Vec::new();
    out.push(USER_PASS_VERSION);
    #[verifier::truncate]
    let name_len: u8 = name.len() as u8;
    out.push(name_len);
    out.extend_from_slice(name);
    #[verifier::truncate]
    let password_len: u8 = password.len() as u8;
    out.push(password_len);
    out.extend_from_slice(password);
    assert(out@ =~= auth_bytes(c.username@, c.password@));
    out
}

/// What is shown of a configuration is the same whatever its credentials hold.
pub proof fn law_secrets_are_never_shown(a: Socks5ProxyConfig, b: Socks5ProxyConfig)
    requires
        a.host@ == b.host@,
        a.port == b.port,
        a.credentials is Some == b.credentials is Some,
    ensures
        config_text(a.host@, a.port, a.credentials is Some) == config_text(
            b.host@,
            b.port,
            b.credentials is Some,
        ),
{
}

/// With credentials the request for a connection goes out only once the proxy
/// has taken them; and the tunnel stands only once the proxy has said that it
/// succeeded.
pub proof fn law_no_step_is_skipped(n: Negotiation, reply: Seq<u8>)
    requires
        n.next(reply) is Some,
        reply.len() == n.due(),
        n.awaiting == Awaiting::Authentication ==> n.credentials is Some,
    ensures
        ({
            let (awaiting, write) = n.next(reply)->0;
            &&& n.awaiting == Awaiting::Method && n.credentials is Some ==> awaiting
                == Awaiting::Authentication
            &&& awaiting == Awaiting::Head ==> write == n.request() && if n.credentials is Some {
                n.awaiting == Awaiting::Authentication && auth_taken(reply)
            } else {
                n.awaiting == Awaiting::Method
            }
            &&& awaiting == Awaiting::Done && n.awaiting != Awaiting::Done ==> (n.awaiting matches
                Awaiting::Rest { code, .. } && code == 0)
        }),
{
}

} // verus!
