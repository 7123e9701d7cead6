//! OPC UA server configuration.

use crate::opcua_server::address::{hostname, is_hostname, is_socket_host, socket_host};
use crate::text;
use crate::text::{decimal, is_blank};
use vstd::prelude::*;
use vstd::string::*;

verus! {

/// How the OPC UA server acknowledges write requests.
#[derive(Clone, Copy, Debug, PartialEq, Eq, Structural)]
pub enum WriteMode {
    /// Accept a write when the request has been queued. Fast, but without end-to-end
    /// confirmation.
    QueuedAck,
    /// Wait for the driver's confirmation before acknowledging the client (default).
    ConfirmedAck,
}

impl Default for WriteMode {
    fn default() -> (r: WriteMode)
        ensures
            r == WriteMode::ConfirmedAck,
    {
        WriteMode::ConfirmedAck
    }
}

/// OPC UA security mode of an endpoint.
#[derive(Clone, Copy, Debug, PartialEq, Eq, Structural)]
pub enum SecurityMode {
    /// No security (default).
    NoSecurity,
    /// Messages are signed but not encrypted.
    Sign,
    /// Messages are signed and encrypted.
    SignAndEncrypt,
}

impl Default for SecurityMode {
    fn default() -> (r: SecurityMode)
        ensures
            r == SecurityMode::NoSecurity,
    {
        SecurityMode::NoSecurity
    }
}

/// The name of a security mode.
pub open spec fn mode_name(m: SecurityMode) -> Seq<char> {
    match m {
        SecurityMode::NoSecurity => "None"@,
        SecurityMode::Sign => "Sign"@,
        SecurityMode::SignAndEncrypt => "SignAndEncrypt"@,
    }
}

impl SecurityMode {
    /// The name of the mode.
    pub fn name(&self) -> (r: &'static str)
        ensures
            r@ == mode_name(*self),
    {
        match self {
            SecurityMode::NoSecurity => "None",
            SecurityMode::Sign => "Sign",
            SecurityMode::SignAndEncrypt => "SignAndEncrypt",
        }
    }
}

/// OPC UA security policy.
#[derive(Clone, Copy, Debug, PartialEq, Eq, Structural)]
pub enum SecurityPolicy {
    /// No security policy (default).
    NoSecurity,
    /// Basic128Rsa15
    Basic128Rsa15,
    /// Basic256
    Basic256,
    /// Basic256Sha256
    Basic256Sha256,
}

impl Default for SecurityPolicy {
    fn default() -> (r: SecurityPolicy)
        ensures
            r == SecurityPolicy::NoSecurity,
    {
        SecurityPolicy::NoSecurity
    }
}

/// The well-known policy URI of a security policy.
pub open spec fn policy_uri(p: SecurityPolicy) -> Seq<char> {
    match p {
        SecurityPolicy::NoSecurity => "http://opcfoundation.org/UA/SecurityPolicy#None"@,
        SecurityPolicy::Basic128Rsa15 => {
            "http://opcfoundation.org/UA/SecurityPolicy#Basic128Rsa15"@
        },
        SecurityPolicy::Basic256 => "http://opcfoundation.org/UA/SecurityPolicy#Basic256"@,
        SecurityPolicy::Basic256Sha256 => {
            "http://opcfoundation.org/UA/SecurityPolicy#Basic256Sha256"@
        },
    }
}

impl SecurityPolicy {
    /// The well-known OPC UA policy URI of this security policy.
    pub fn uri(&self) -> (r: &'static str)
        ensures
            r@ == policy_uri(*self),
    {
        match self {
            SecurityPolicy::NoSecurity => "http://opcfoundation.org/UA/SecurityPolicy#None",
            SecurityPolicy::Basic128Rsa15 => {
                "http://opcfoundation.org/UA/SecurityPolicy#Basic128Rsa15"
            },
            SecurityPolicy::Basic256 => "http://opcfoundation.org/UA/SecurityPolicy#Basic256",
            SecurityPolicy::Basic256Sha256 => {
                "http://opcfoundation.org/UA/SecurityPolicy#Basic256Sha256"
            },
        }
    }
}

/// Certificates and trust store of the OPC UA server.
#[derive(Debug)]
pub struct CertificateConfig {
    /// Path to the server's X.509 certificate (DER or PEM).
    pub server_certificate_path: Option<String>,
    /// Path to the server's private key (DER or PEM).
    pub server_private_key_path: Option<String>,
    /// Directory with trusted client certificates.
    pub trust_store_dir: Option<String>,
    /// Directory for rejected certificates.
    pub reject_store_dir: Option<String>,
    /// Minimum key length required of client certificates.
    pub min_key_length: u32,
}

/// Minimum key length when omitted.
pub fn default_min_key_length() -> (r: u32)
    ensures
        r == 2048,
{
    2048
}

impl Default for CertificateConfig {
    fn default() -> (r: CertificateConfig)
        ensures
            r.server_certificate_path is None,
            r.server_private_key_path is None,
            r.trust_store_dir is None,
            r.reject_store_dir is None,
            r.min_key_length == 2048,
    {
        CertificateConfig {
            server_certificate_path: None,
            server_private_key_path: None,
            trust_store_dir: None,
            reject_store_dir: None,
            min_key_length: default_min_key_length(),
        }
    }
}

/// Configuration of the OPC UA server.
#[derive(Debug)]
pub struct OpcUaConfig {
    /// Bind address of the endpoint: an IP address or a hostname, such as `0.0.0.0`.
    pub bind_addr: String,
    /// TCP port of the endpoint.
    pub port: u16,
    /// Human-friendly application name.
    pub application_name: String,
    /// Application URI (unique identifier of the server).
    pub application_uri: String,
    /// Namespace URI of the nodes.
    pub namespace_uri: String,
    /// Allow anonymous connections.
    pub anonymous_enabled: bool,
    /// Allow username/password authentication.
    pub username_password_enabled: bool,
    /// Maximum number of concurrent sessions.
    pub max_sessions: u32,
    /// Maximum number of concurrent subscriptions.
    pub max_subscriptions: u32,
    /// How writes are acknowledged.
    pub write_mode: WriteMode,
    /// Security mode of the endpoint.
    pub security_mode: SecurityMode,
    /// Security policy of the endpoint.
    pub security_policy: SecurityPolicy,
    /// Certificates and trust store.
    pub certificates: CertificateConfig,
}

/// Errors in an [`OpcUaConfig`].
#[derive(Debug)]
pub enum ConfigError {
    /// Required string field missing or empty.
    MissingField(String),
    /// Invalid TCP port.
    InvalidPort(u16),
    /// Address that is not a socket address.
    InvalidAddress { addr: String, reason: String },
    /// Generic configuration error.
    Other(String),
}

/// What a [`ConfigError`] says.
#[verifier::ext_equal]
pub ghost enum ConfigErrorView {
    MissingField(Seq<char>),
    InvalidPort(u16),
    InvalidAddress { addr: Seq<char>, reason: Seq<char> },
    Other(Seq<char>),
}

impl View for ConfigError {
    type V = ConfigErrorView;

    open spec fn view(&self) -> ConfigErrorView {
        match *self {
            ConfigError::MissingField(s) => ConfigErrorView::MissingField(s@),
            ConfigError::InvalidPort(p) => ConfigErrorView::InvalidPort(p),
            ConfigError::InvalidAddress { addr, reason } => ConfigErrorView::InvalidAddress {
                addr: addr@,
                reason: reason@,
            },
            ConfigError::Other(s) => ConfigErrorView::Other(s@),
        }
    }
}

/// The message of an error.
pub open spec fn config_error_text(e: ConfigErrorView) -> Seq<char> {
    match e {
        ConfigErrorView::MissingField(s) => "missing required field: "@ + s,
        ConfigErrorView::InvalidPort(p) => "invalid port: "@ + decimal(p as nat),
        ConfigErrorView::InvalidAddress { addr, reason } => "invalid bind address `"@ + addr
            + "`: "@ + reason,
        ConfigErrorView::Other(s) => "configuration error: "@ + s,
    }
}

impl ConfigError {
    /// The message of the error.
    pub fn message(&self) -> (r: String)
        ensures
            r@ == config_error_text(self@),
    {
        match self {
            ConfigError::MissingField(s) => text::join2("missing required field: ", s.as_str()),
            ConfigError::InvalidPort(p) => text::join2(
                "invalid port: ",
                text::to_decimal(*p as u64).as_str(),
            ),
            ConfigError::InvalidAddress { addr, reason } => {
                let mut s = text::join3("invalid bind address `", addr.as_str(), "`: ");
                s.append(reason.as_str());
                s
            },
            ConfigError::Other(s) => text::join2("configuration error: ", s.as_str()),
        }
    }
}

/// Host and port as in `0.0.0.0:4840`.
pub open spec fn host_port(host: Seq<char>, port: u16) -> Seq<char> {
    host + ":"@ + decimal(port as nat)
}

/// Why a host and port are not a socket address, if they are not.
pub open spec fn host_fault(host: Seq<char>, port: u16) -> Option<ConfigErrorView> {
    if is_socket_host(host) {
        None
    } else {
        Some(
            ConfigErrorView::InvalidAddress {
                addr: host_port(host, port),
                reason: "invalid socket address syntax"@,
            },
        )
    }
}

/// What is wrong with settings: a blank name or URI, port zero, or a bind address that is neither
/// an IP address nor a hostname.
pub open spec fn settings_fault(
    application_name: Seq<char>,
    application_uri: Seq<char>,
    namespace_uri: Seq<char>,
    bind_addr: Seq<char>,
    port: u16,
) -> Option<ConfigErrorView> {
    if is_blank(application_name) {
        Some(ConfigErrorView::MissingField("application_name"@))
    } else if is_blank(application_uri) {
        Some(ConfigErrorView::MissingField("application_uri"@))
    } else if is_blank(namespace_uri) {
        Some(ConfigErrorView::MissingField("namespace_uri"@))
    } else if port == 0 {
        Some(ConfigErrorView::InvalidPort(0))
    } else if is_hostname(bind_addr) {
        None
    } else {
        host_fault(bind_addr, port)
    }
}

impl OpcUaConfig {
    /// Why the bind address is not a socket address, if it is not.
    pub open spec fn address_fault(self) -> Option<ConfigErrorView> {
        host_fault(self.bind_addr@, self.port)
    }

    /// What is wrong with the configuration.
    pub open spec fn fault(self) -> Option<ConfigErrorView> {
        settings_fault(
            self.application_name@,
            self.application_uri@,
            self.namespace_uri@,
            self.bind_addr@,
            self.port,
        )
    }

    /// A reasonable configuration for local deployment.
    pub fn default_local() -> (r: OpcUaConfig)
        ensures
            r.bind_addr@ == "0.0.0.0"@,
            r.port == 4840,
            r.application_name@ == "opcua-plc-bridge"@,
            r.application_uri@ == "urn:opcua:plc:bridge"@,
            r.namespace_uri@ == "urn:opcua:plc:bridge:ns"@,
            r.anonymous_enabled,
            !r.username_password_enabled,
            r.max_sessions == 100,
            r.max_subscriptions == 1000,
            r.write_mode == WriteMode::ConfirmedAck,
            r.security_mode == SecurityMode::NoSecurity,
            r.security_policy == SecurityPolicy::NoSecurity,
            r.certificates.server_certificate_path is None,
            r.certificates.server_private_key_path is None,
            r.certificates.trust_store_dir is None,
            r.certificates.reject_store_dir is None,
            r.certificates.min_key_length == 2048,
    {
        OpcUaConfig {
            bind_addr: "0.0.0.0".to_owned(),
            port: 4840,
            application_name: "opcua-plc-bridge".to_owned(),
            application_uri: "urn:opcua:plc:bridge".to_owned(),
            namespace_uri: "urn:opcua:plc:bridge:ns".to_owned(),
            anonymous_enabled: true,
            username_password_enabled: false,
            max_sessions: 100,
            max_subscriptions: 1000,
            write_mode: WriteMode::ConfirmedAck,
            security_mode: SecurityMode::NoSecurity,
            security_policy: SecurityPolicy::NoSecurity,
            certificates: CertificateConfig::default(),
        }
    }

    /// The endpoint URL, as in `opc.tcp://0.0.0.0:4840`.
    pub fn endpoint_url(&self) -> (r: String)
        ensures
            r@ == "opc.tcp://"@ + self.bind_addr@ + ":"@ + decimal(self.port as nat),
    {
        let mut s = text::join3("opc.tcp://", self.bind_addr.as_str(), ":");
        s.append(text::to_decimal(self.port as u64).as_str());
        s
    }

    /// The socket address to bind, in text.
    pub fn bind_socket_addr(&self) -> (r: Result<String, ConfigError>)
        ensures
            match r {
                Ok(s) => self.address_fault() is None && s@ == host_port(self.bind_addr@, self.port),
                Err(e) => self.address_fault() == Some(e@),
            },
    {
        let mut s = text::join2(self.bind_addr.as_str(), ":");
        s.append(text::to_decimal(self.port as u64).as_str());
        if socket_host(self.bind_addr.as_str()) {
            Ok(s)
        } else {
            Err(
                ConfigError::InvalidAddress {
                    addr: s,
                    reason: "invalid socket address syntax".to_owned(),
                },
            )
        }
    }

    /// Check for blank required strings, port zero and a bind address that is neither an IP
    /// address nor a hostname.
    pub fn validate(&self) -> (r: Result<(), ConfigError>)
        ensures
            match r {
                Ok(_) => self.fault() is None,
                Err(e) => self.fault() == Some(e@),
            },
    {
        if text::blank(self.application_name.as_str()) {
            return Err(ConfigError::MissingField("application_name".to_owned()));
        }
        if text::blank(self.application_uri.as_str()) {
            return Err(ConfigError::MissingField("application_uri".to_owned()));
        }
        if text::blank(self.namespace_uri.as_str()) {
            return Err(ConfigError::MissingField("namespace_uri".to_owned()));
        }
        if self.port == 0 {
            return Err(ConfigError::InvalidPort(self.port));
        }
        if hostname(self.bind_addr.as_str()) {
            return Ok(());
        }
        match self.bind_socket_addr() {
            Ok(_) => Ok(()),
            Err(e) => Err(e),
        }
    }
}

} // verus!
