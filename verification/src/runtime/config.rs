//! Runtime configuration and its checks.

use crate::opcua_server::config::{SecurityMode, SecurityPolicy, WriteMode};
use crate::text;
use crate::text::{decimal, lowercase_of};
use vstd::prelude::*;
use vstd::string::*;

verus! {

/// Top-level runtime configuration.
#[derive(Debug)]
pub struct RuntimeConfig {
    pub opcua: OpcUaConfig,
    pub plcs: Vec<PlcConfig>,
    /// Capacity of the channel that carries PLC health events.
    pub health_channel_capacity: Option<usize>,
    /// Timeout in milliseconds used when enqueuing driver write requests.
    pub driver_write_send_timeout_ms: Option<u64>,
    /// Timeout in milliseconds to wait for driver write confirmations.
    pub write_confirm_timeout_ms: Option<u64>,
}

/// OPC UA part of the configuration.
#[derive(Debug)]
pub struct OpcUaConfig {
    pub bind_addr: String,
    pub port: u16,
    pub application_name: String,
    pub application_uri: String,
    pub namespace_uri: String,
    pub anonymous_enabled: bool,
    pub username_password_enabled: bool,
    pub max_sessions: u32,
    pub max_subscriptions: u32,
    /// Write acknowledgement mode: "QueuedAck" or "ConfirmedAck".
    pub write_mode: String,
    /// Security mode: "None", "Sign", or "SignAndEncrypt".
    pub security_mode: Option<String>,
    /// Security policy: "None", "Basic128Rsa15", "Basic256", or "Basic256Sha256".
    pub security_policy: Option<String>,
    /// Path to the server's X.509 certificate (DER or PEM).
    pub server_certificate_path: Option<String>,
    /// Path to the server's private key (DER or PEM).
    pub server_private_key_path: Option<String>,
    /// Directory with trusted client certificates.
    pub trust_store_dir: Option<String>,
    /// Directory for rejected certificates.
    pub reject_store_dir: Option<String>,
    /// Minimum key length required of client certificates.
    pub min_key_length: Option<u32>,
}

/// Anonymous connections are allowed when the configuration does not say.
pub fn default_true() -> (r: bool)
    ensures
        r,
{
    true
}

/// Number of sessions when the configuration does not say.
pub fn default_u32_100() -> (r: u32)
    ensures
        r == 100,
{
    100
}

/// Number of subscriptions when the configuration does not say.
pub fn default_u32_1000() -> (r: u32)
    ensures
        r == 1000,
{
    1000
}

/// PLC configuration block.
#[derive(Debug)]
pub struct PlcConfig {
    /// Logical name of the PLC.
    pub name: String,
    /// Protocol identifier: `"fins"` or `"modbus"`.
    pub protocol: String,
    /// Host:port endpoint of the PLC.
    pub endpoint: String,
    /// Modbus unit/slave id; 1 when absent.
    pub unit_id: Option<u8>,
    /// Poll cycle in milliseconds.
    pub cycle_ms: u64,
    /// Tags of the PLC.
    pub tags: Vec<TagConfig>,
    /// Maximum number of words per FINS request.
    pub max_words_per_request: Option<u32>,
    /// TCP keepalive in seconds.
    pub keepalive_secs: Option<u64>,
    /// Maximum reconnect backoff in seconds.
    pub max_backoff_secs: Option<u64>,
    /// IO timeout in milliseconds for Modbus operations.
    pub io_timeout_ms: Option<u64>,
}

/// Poll cycle in milliseconds when the configuration does not say.
pub fn default_cycle_ms() -> (r: u64)
    ensures
        r == 100,
{
    100
}

/// A tag as expressed in the configuration file.
#[derive(Debug)]
pub struct TagConfig {
    pub id: String,
    pub name: String,
    pub address: String,
    pub data_type: String,
    pub writable: bool,
    pub byte_order: Option<String>,
    pub word_count: Option<u16>,
    /// FINS memory area code (e.g. 0x82 for the D area). When present, the address is a
    /// register offset within this area; when absent, the area is inferred from the address.
    pub area: Option<u8>,
}

/// A configuration value that is semantically invalid, with a message that says why.
#[derive(Debug)]
pub struct ConfigValidationError {
    pub message: String,
}

/// The write mode that a text names.
pub open spec fn write_mode_of(s: Seq<char>) -> Option<WriteMode> {
    if s == "QueuedAck"@ {
        Some(WriteMode::QueuedAck)
    } else if s == "ConfirmedAck"@ || s == ""@ {
        Some(WriteMode::ConfirmedAck)
    } else {
        None
    }
}

/// The write mode that a text names; an empty text names the default.
pub fn parse_write_mode(s: &str) -> (r: Result<WriteMode, ConfigValidationError>)
    ensures
        match r {
            Ok(m) => write_mode_of(s@) == Some(m),
            Err(e) => {
                &&& write_mode_of(s@) is None
                &&& e.message@ == "Invalid write_mode '"@ + s@
                    + "'; must be QueuedAck or ConfirmedAck"@
            },
        },
{
    proof {
        reveal_strlit("QueuedAck");
        reveal_strlit("ConfirmedAck");
        reveal_strlit("");
        assert("QueuedAck"@.len() == 9 && "ConfirmedAck"@.len() == 12 && ""@.len() == 0);
    }
    if text::same(s, "QueuedAck") {
        Ok(WriteMode::QueuedAck)
    } else if text::same(s, "ConfirmedAck") {
        Ok(WriteMode::ConfirmedAck)
    } else if text::same(s, "") {
        Ok(WriteMode::default())
    } else {
        Err(
            ConfigValidationError {
                message: text::join3(
                    "Invalid write_mode '",
                    s,
                    "'; must be QueuedAck or ConfirmedAck",
                ),
            },
        )
    }
}

/// A text that may be absent, as characters.
pub open spec fn optional(s: Option<&str>) -> Option<Seq<char>> {
    match s {
        Some(t) => Some(t@),
        None => None,
    }
}

/// The security mode that a text names; none is named by default.
pub open spec fn security_mode_of(s: Option<Seq<char>>) -> Option<SecurityMode> {
    match s {
        None => Some(SecurityMode::NoSecurity),
        Some(t) => if t == ""@ || t == "None"@ {
            Some(SecurityMode::NoSecurity)
        } else if t == "Sign"@ {
            Some(SecurityMode::Sign)
        } else if t == "SignAndEncrypt"@ {
            Some(SecurityMode::SignAndEncrypt)
        } else {
            None
        },
    }
}

/// The security mode that a text names.
pub fn parse_security_mode(s: Option<&str>) -> (r: Result<SecurityMode, ConfigValidationError>)
    ensures
        match r {
            Ok(m) => security_mode_of(optional(s)) == Some(m),
            Err(e) => {
                &&& security_mode_of(optional(s)) is None
                &&& s is Some
                &&& e.message@ == "Invalid security_mode '"@ + s->0@
                    + "'; must be None, Sign, or SignAndEncrypt"@
            },
        },
{
    match s {
        None => Ok(SecurityMode::NoSecurity),
        Some(t) => if text::same(t, "") || text::same(t, "None") {
            Ok(SecurityMode::NoSecurity)
        } else if text::same(t, "Sign") {
            Ok(SecurityMode::Sign)
        } else if text::same(t, "SignAndEncrypt") {
            Ok(SecurityMode::SignAndEncrypt)
        } else {
            Err(
                ConfigValidationError {
                    message: text::join3(
                        "Invalid security_mode '",
                        t,
                        "'; must be None, Sign, or SignAndEncrypt",
                    ),
                },
            )
        },
    }
}

/// The security policy that a text names; none is named by default.
pub open spec fn security_policy_of(s: Option<Seq<char>>) -> Option<SecurityPolicy> {
    match s {
        None => Some(SecurityPolicy::NoSecurity),
        Some(t) => if t == ""@ || t == "None"@ {
            Some(SecurityPolicy::NoSecurity)
        } else if t == "Basic128Rsa15"@ {
            Some(SecurityPolicy::Basic128Rsa15)
        } else if t == "Basic256"@ {
            Some(SecurityPolicy::Basic256)
        } else if t == "Basic256Sha256"@ {
            Some(SecurityPolicy::Basic256Sha256)
        } else {
            None
        },
    }
}

/// The security policy that a text names.
pub fn parse_security_policy(s: Option<&str>) -> (r: Result<SecurityPolicy, ConfigValidationError>)
    ensures
        match r {
            Ok(p) => security_policy_of(optional(s)) == Some(p),
            Err(e) => {
                &&& security_policy_of(optional(s)) is None
                &&& s is Some
                &&& e.message@ == "Invalid security_policy '"@ + s->0@
                    + "'; must be None, Basic128Rsa15, Basic256, or Basic256Sha256"@
            },
        },
{
    match s {
        None => Ok(SecurityPolicy::NoSecurity),
        Some(t) => if text::same(t, "") || text::same(t, "None") {
            Ok(SecurityPolicy::NoSecurity)
        } else if text::same(t, "Basic128Rsa15") {
            Ok(SecurityPolicy::Basic128Rsa15)
        } else if text::same(t, "Basic256") {
            Ok(SecurityPolicy::Basic256)
        } else if text::same(t, "Basic256Sha256") {
            Ok(SecurityPolicy::Basic256Sha256)
        } else {
            Err(
                ConfigValidationError {
                    message: text::join3(
                        "Invalid security_policy '",
                        t,
                        "'; must be None, Basic128Rsa15, Basic256, or Basic256Sha256",
                    ),
                },
            )
        },
    }
}

/// Formats of configuration files.
#[derive(Clone, Copy, Debug, PartialEq, Eq, Structural)]
pub enum ConfigFormat {
    Toml,
    Yaml,
    /// TOML, and YAML where the text is not TOML.
    Unknown,
}

/// The format by a file name extension in small letters.
pub open spec fn format_named(extension: Seq<char>) -> ConfigFormat {
    if extension == "toml"@ {
        ConfigFormat::Toml
    } else if extension == "yaml"@ || extension == "yml"@ {
        ConfigFormat::Yaml
    } else {
        ConfigFormat::Unknown
    }
}

/// The format by a file name extension in small letters.
pub fn format_by_lowercase(extension: &str) -> (r: ConfigFormat)
    ensures
        r == format_named(extension@),
{
    if text::same(extension, "toml") {
        ConfigFormat::Toml
    } else if text::same(extension, "yaml") || text::same(extension, "yml") {
        ConfigFormat::Yaml
    } else {
        ConfigFormat::Unknown
    }
}

/// The format of a configuration file by its file name extension.
pub fn config_format(extension: Option<&str>) -> (r: ConfigFormat)
    ensures
        r == (match extension {
            Some(e) => format_named(lowercase_of(e@)),
            None => ConfigFormat::Unknown,
        }),
{
    match extension {
        Some(e) => format_by_lowercase(text::lowercase(e).as_str()),
        None => ConfigFormat::Unknown,
    }
}

/// The message about the first PLC whose poll cycle is shorter than 10 milliseconds.
pub open spec fn cycle_fault(plcs: Seq<PlcConfig>) -> Option<Seq<char>>
    decreases plcs.len(),
{
    if plcs.len() == 0 {
        None
    } else {
        match cycle_fault(plcs.drop_last()) {
            Some(m) => Some(m),
            None => if plcs.last().cycle_ms < 10 {
                Some(
                    "Invalid cycle_ms for "@ + plcs.last().name@ + ": "@ + decimal(
                        plcs.last().cycle_ms as nat,
                    ) + " (must be >= 10)"@,
                )
            } else {
                None
            },
        }
    }
}

/// `r` is the configuration, or the message about its poll cycles.
pub open spec fn is_checked(cfg: RuntimeConfig, r: Result<RuntimeConfig, String>) -> bool {
    match r {
        Ok(c) => c == cfg && cycle_fault(cfg.plcs@) is None,
        Err(m) => cycle_fault(cfg.plcs@) == Some(m@),
    }
}

proof fn cycle_fault_stays(plcs: Seq<PlcConfig>, k: int)
    requires
        0 <= k <= plcs.len(),
        cycle_fault(plcs.take(k)) is Some,
    ensures
        cycle_fault(plcs) == cycle_fault(plcs.take(k)),
    decreases plcs.len() - k,
{
    if k < plcs.len() {
        assert(plcs.take(k + 1).drop_last() =~= plcs.take(k));
        cycle_fault_stays(plcs, k + 1);
    } else {
        assert(plcs.take(k) =~= plcs);
    }
}

/// Refuse poll cycles shorter than 10 milliseconds.
pub fn check_cycles(cfg: RuntimeConfig) -> (r: Result<RuntimeConfig, String>)
    ensures
        is_checked(cfg, r),
{
    let ghost plcs = cfg.plcs@;
    let mut i: usize = 0;
    while i < cfg.plcs.len()
        invariant
            i <= plcs.len(),
            plcs == cfg.plcs@,
            cycle_fault(plcs.take(i as int)) is None,
        decreases plcs.len() - i,
    {
        let plc = &cfg.plcs[i];
        proof {
            assert(plcs.take(i + 1).drop_last() =~= plcs.take(i as int));
            assert(plcs.take(i + 1).last() == *plc);
        }
        if plc.cycle_ms < 10 {
            let mut m = text::join3("Invalid cycle_ms for ", plc.name.as_str(), ": ");
            m.append(text::to_decimal(plc.cycle_ms).as_str());
            m.append(" (must be >= 10)");
            proof {
                cycle_fault_stays(plcs, i + 1);
            }
            return Err(m);
        }
        i = i + 1;
    }
    assert(plcs.take(i as int) =~= plcs);
    Ok(cfg)
}

/// In a configuration that was not refused every poll cycle takes at least 10 milliseconds.
pub proof fn accepted_cycles_are_long_enough(plcs: Seq<PlcConfig>, i: int)
    requires
        cycle_fault(plcs) is None,
        0 <= i < plcs.len(),
    ensures
        plcs[i].cycle_ms >= 10,
    decreases plcs.len(),
{
    if i < plcs.len() - 1 {
        accepted_cycles_are_long_enough(plcs.drop_last(), i);
        assert(plcs.drop_last()[i] == plcs[i]);
    }
}

/// What to do after the text was parsed once: as YAML where the format is YAML, as TOML
/// elsewhere.
#[derive(Debug)]
pub enum ParseStep {
    /// This is the configuration, or why there is none.
    Done(Result<RuntimeConfig, String>),
    /// The text is to be parsed as YAML; this is why it is not TOML.
    TryYaml(String),
}

/// What to do after the text was parsed once.
pub fn after_first_parse(format: ConfigFormat, parsed: Result<RuntimeConfig, String>) -> (r:
    ParseStep)
    ensures
        match parsed {
            Ok(cfg) => r matches ParseStep::Done(d) && is_checked(cfg, d),
            Err(e) => match format {
                ConfigFormat::Toml => r matches ParseStep::Done(Err(m)) && m@
                    == "TOML parse error: "@ + e@,
                ConfigFormat::Yaml => r matches ParseStep::Done(Err(m)) && m@
                    == "YAML parse error: "@ + e@,
                ConfigFormat::Unknown => r == ParseStep::TryYaml(e),
            },
        },
{
    match parsed {
        Ok(cfg) => ParseStep::Done(check_cycles(cfg)),
        Err(e) => match format {
            ConfigFormat::Toml => ParseStep::Done(
                Err(text::join2("TOML parse error: ", e.as_str())),
            ),
            ConfigFormat::Yaml => ParseStep::Done(
                Err(text::join2("YAML parse error: ", e.as_str())),
            ),
            ConfigFormat::Unknown => ParseStep::TryYaml(e),
        },
    }
}

/// The configuration, or why there is none, after a text that is not TOML was parsed as YAML.
pub fn after_second_parse(toml_error: &str, parsed: Result<RuntimeConfig, String>) -> (r: Result<
    RuntimeConfig,
    String,
>)
    ensures
        match parsed {
            Ok(cfg) => is_checked(cfg, r),
            Err(e) => r matches Err(m) && m@ == "Config parse failed: TOML error: "@ + toml_error@
                + "; YAML error: "@ + e@,
        },
{
    match parsed {
        Ok(cfg) => check_cycles(cfg),
        Err(e) => {
            let mut m = text::join3(
                "Config parse failed: TOML error: ",
                toml_error,
                "; YAML error: ",
            );
            m.append(e.as_str());
            Err(m)
        },
    }
}

} // verus!
