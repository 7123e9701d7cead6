//! How the OPC UA server is set up.

use crate::opcua_server::config::{OpcUaConfig, SecurityMode};
use crate::opcua_server::error::{ServerError, ServerErrorView};
use crate::text::decimal;
use vstd::prelude::*;
use vstd::string::*;

verus! {

/// Security files of the server, and whether every client certificate is accepted.
#[derive(Debug)]
pub struct SecurityPlan {
    /// Path to the server's certificate.
    pub certificate_path: String,
    /// Path to the server's private key.
    pub private_key_path: String,
    /// Accept every client certificate, for want of a trust store.
    pub accept_all: bool,
    /// Minimum key length required of client certificates.
    pub min_key_length: u32,
}

/// Who may connect to the server.
#[derive(Clone, Copy, Debug, PartialEq, Eq, Structural)]
pub enum Access {
    /// Everybody is rejected.
    RejectAll,
    /// Clients may connect without a login.
    Anonymous,
    /// Clients whose certificate is in the trust store may connect.
    TrustedCertificates,
    /// A callback checks user names and passwords; `anonymous` says whether clients may also
    /// connect without a login.
    Login { anonymous: bool },
}

/// Who may connect to a server with a configuration, given whether a callback checks logins.
///
/// Where anonymous access is off and no login can be checked, only a trust store lets anybody
/// in, and a client has to show its certificate only where messages are secured.
pub open spec fn access_for(cfg: OpcUaConfig, has_callback: bool) -> Access {
    if has_callback && cfg.username_password_enabled {
        Access::Login { anonymous: cfg.anonymous_enabled }
    } else if cfg.anonymous_enabled {
        Access::Anonymous
    } else if cfg.certificates.trust_store_dir is Some && cfg.security_mode
        != SecurityMode::NoSecurity {
        Access::TrustedCertificates
    } else {
        Access::RejectAll
    }
}

/// Who may connect to a server with a configuration.
pub fn access_plan(cfg: &OpcUaConfig, has_callback: bool) -> (r: Access)
    ensures
        r == access_for(*cfg, has_callback),
{
    if has_callback && cfg.username_password_enabled {
        Access::Login { anonymous: cfg.anonymous_enabled }
    } else if cfg.anonymous_enabled {
        Access::Anonymous
    } else if cfg.certificates.trust_store_dir.is_some() && cfg.security_mode
        != SecurityMode::NoSecurity {
        Access::TrustedCertificates
    } else {
        Access::RejectAll
    }
}

/// How the server starts.
#[derive(Debug)]
pub struct StartPlan {
    /// Endpoint URL.
    pub endpoint: String,
    /// Security files, where messages are to be secured.
    pub security: Option<SecurityPlan>,
    /// Who may connect.
    pub access: Access,
    /// Maximum number of concurrent sessions.
    pub max_sessions: u32,
    /// Maximum number of concurrent subscriptions.
    pub max_subscriptions: u32,
}

/// Why the server cannot start with a configuration.
pub open spec fn start_fault(cfg: OpcUaConfig) -> Option<ServerErrorView> {
    if cfg.security_mode == SecurityMode::NoSecurity {
        None
    } else if cfg.certificates.server_certificate_path is None {
        Some(
            ServerErrorView::Config(
                "server_certificate_path is required when security_mode is not None"@,
            ),
        )
    } else if cfg.certificates.server_private_key_path is None {
        Some(
            ServerErrorView::Config(
                "server_private_key_path is required when security_mode is not None"@,
            ),
        )
    } else {
        None
    }
}

/// How the server starts with a configuration, given whether a callback checks logins.
pub fn start_plan(cfg: &OpcUaConfig, has_callback: bool) -> (r: Result<StartPlan, ServerError>)
    ensures
        match r {
            Ok(p) => {
                &&& start_fault(*cfg) is None
                &&& p.endpoint@ == "opc.tcp://"@ + cfg.bind_addr@ + ":"@ + decimal(
                    cfg.port as nat,
                )
                &&& p.security is Some <==> cfg.security_mode != SecurityMode::NoSecurity
                &&& p.security matches Some(s) ==> {
                    &&& s.certificate_path@ == cfg.certificates.server_certificate_path->0@
                    &&& s.private_key_path@ == cfg.certificates.server_private_key_path->0@
                    &&& s.accept_all == (cfg.certificates.trust_store_dir is None)
                    &&& s.min_key_length == cfg.certificates.min_key_length
                }
                &&& p.access == access_for(*cfg, has_callback)
                &&& p.max_sessions == cfg.max_sessions
                &&& p.max_subscriptions == cfg.max_subscriptions
            },
            Err(e) => start_fault(*cfg) == Some(e@),
        },
{
    let endpoint = cfg.endpoint_url();
    let access = access_plan(cfg, has_callback);
    let max_sessions: u32 = cfg.max_sessions;
    let max_subscriptions: u32 = cfg.max_subscriptions;
    if cfg.security_mode == SecurityMode::NoSecurity {
        return Ok(StartPlan { endpoint, security: None, access, max_sessions, max_subscriptions });
    }
    let certificate_path = match &cfg.certificates.server_certificate_path {
        Some(p) => p.clone(),
        None => {
            return Err(
                ServerError::Config(
                    "server_certificate_path is required when security_mode is not None".to_owned(),
                ),
            );
        },
    };
    let private_key_path = match &cfg.certificates.server_private_key_path {
        Some(p) => p.clone(),
        None => {
            return Err(
                ServerError::Config(
                    "server_private_key_path is required when security_mode is not None".to_owned(),
                ),
            );
        },
    };
    let accept_all = cfg.certificates.trust_store_dir.is_none();
    let min_key_length: u32 = cfg.certificates.min_key_length;
    Ok(
        StartPlan {
            endpoint,
            security: Some(
                SecurityPlan { certificate_path, private_key_path, accept_all, min_key_length },
            ),
            access,
            max_sessions,
            max_subscriptions,
        },
    )
}

/// A server without anonymous access, logins and a trust store rejects everybody; one that rejects
/// everybody has no anonymous access.
pub proof fn closed_server_rejects_all(cfg: OpcUaConfig, has_callback: bool)
    ensures
        !cfg.anonymous_enabled && !cfg.username_password_enabled
            && cfg.certificates.trust_store_dir is None ==> access_for(cfg, has_callback)
            == Access::RejectAll,
        access_for(cfg, has_callback) == Access::RejectAll ==> !cfg.anonymous_enabled,
{
}

/// Anonymous clients are let in exactly where the configuration allows it.
pub proof fn anonymous_access_is_as_configured(cfg: OpcUaConfig, has_callback: bool)
    ensures
        (access_for(cfg, has_callback) == Access::Anonymous || access_for(cfg, has_callback)
            == (Access::Login { anonymous: true })) <==> cfg.anonymous_enabled,
{
}

/// Refuse a login callback where the configuration allows no username and password.
pub fn check_login(cfg: &OpcUaConfig, has_callback: bool) -> (r: Result<(), ServerError>)
    ensures
        match r {
            Ok(_) => !has_callback || cfg.username_password_enabled,
            Err(e) => has_callback && !cfg.username_password_enabled && e@
                == ServerErrorView::Config("username/password authentication disabled in config"@),
        },
{
    if has_callback && !cfg.username_password_enabled {
        Err(
            ServerError::Config("username/password authentication disabled in config".to_owned()),
        )
    } else {
        Ok(())
    }
}

} // verus!
