//! From the runtime configuration to definitions, drivers and the OPC UA server.

use crate::core_model::tag_definition::{TagDefinition, TagDefinitionView};
use crate::core_model::tag_definition_store::definition_views;
use crate::driver_fins;
use crate::driver_fins::config::FinsConfig;
use crate::driver_fins::mapping::{TagMapping, TagMappingView};
use crate::driver_modbus;
use crate::driver_modbus::config::ModbusConfig;
use crate::driver_modbus::mapping::{ModbusMapping, ModbusMappingView};
use crate::opcua_server::config::{
    config_error_text, mode_name, settings_fault, CertificateConfig, OpcUaConfig, SecurityMode, SecurityPolicy,
    WriteMode,
};
use crate::runtime::config;
use crate::runtime::config::{
    parse_security_mode, parse_security_policy, parse_write_mode, security_mode_of,
    security_policy_of, write_mode_of, PlcConfig, RuntimeConfig, TagConfig,
};
use crate::runtime::tags::{
    borrow_text, definition_of, fins_mapping_of, modbus_mapping_of, optional_view,
    tagconfig_to_definition, tagconfig_to_fins_mapping, tagconfig_to_modbus_mapping,
};
use crate::text;
use crate::text::lowercase_of;
use vstd::prelude::*;
use vstd::string::*;

verus! {

/// Why the bridge cannot be set up.
#[derive(Debug)]
pub struct SetupError {
    /// What was being set up.
    pub context: String,
    /// What went wrong.
    pub cause: String,
}

/// What a [`SetupError`] says.
#[verifier::ext_equal]
pub ghost struct SetupErrorView {
    pub context: Seq<char>,
    pub cause: Seq<char>,
}

impl View for SetupError {
    type V = SetupErrorView;

    open spec fn view(&self) -> SetupErrorView {
        SetupErrorView { context: self.context@, cause: self.cause@ }
    }
}

/// The error of a tag of a PLC.
pub open spec fn tag_error(
    what: Seq<char>,
    plc: Seq<char>,
    id: Seq<char>,
    cause: Seq<char>,
) -> SetupErrorView {
    SetupErrorView { context: what + plc + "::"@ + id, cause }
}

fn error_of_tag(what: &str, plc: &str, id: &str, cause: String) -> (r: SetupError)
    ensures
        r@ == tag_error(what@, plc@, id@, cause@),
{
    let mut context = text::join3(what, plc, "::");
    context.append(id);
    SetupError { context, cause }
}

// ---------------------------------------------------------------------------
// Definitions
// ---------------------------------------------------------------------------

/// The definitions of the tags of a PLC, or the error of the first tag that has none.
pub open spec fn plc_definitions(tags: Seq<TagConfig>, plc: Seq<char>) -> Result<
    Seq<TagDefinitionView>,
    SetupErrorView,
>
    decreases tags.len(),
{
    if tags.len() == 0 {
        Ok(Seq::empty())
    } else {
        match plc_definitions(tags.drop_last(), plc) {
            Err(e) => Err(e),
            Ok(defs) => {
                let t = tags.last();
                match definition_of(t, plc, lowercase_of(t.data_type@)) {
                    Ok(d) => Ok(defs.push(d)),
                    Err(m) => Err(
                        tag_error("Failed to convert tag config for "@, plc, t.id@, m),
                    ),
                }
            },
        }
    }
}

/// The definitions of the tags of all PLCs, or the error of the first tag that has none.
pub open spec fn all_definitions(plcs: Seq<PlcConfig>) -> Result<
    Seq<TagDefinitionView>,
    SetupErrorView,
>
    decreases plcs.len(),
{
    if plcs.len() == 0 {
        Ok(Seq::empty())
    } else {
        match all_definitions(plcs.drop_last()) {
            Err(e) => Err(e),
            Ok(defs) => match plc_definitions(plcs.last().tags@, plcs.last().name@) {
                Ok(more) => Ok(defs + more),
                Err(e) => Err(e),
            },
        }
    }
}

proof fn plc_error_stays(tags: Seq<TagConfig>, plc: Seq<char>, k: int)
    requires
        0 <= k <= tags.len(),
        plc_definitions(tags.take(k), plc) is Err,
    ensures
        plc_definitions(tags, plc) == plc_definitions(tags.take(k), plc),
    decreases tags.len() - k,
{
    if k < tags.len() {
        assert(tags.take(k + 1).drop_last() =~= tags.take(k));
        plc_error_stays(tags, plc, k + 1);
    } else {
        assert(tags.take(k) =~= tags);
    }
}

proof fn definition_error_stays(plcs: Seq<PlcConfig>, k: int)
    requires
        0 <= k <= plcs.len(),
        all_definitions(plcs.take(k)) is Err,
    ensures
        all_definitions(plcs) == all_definitions(plcs.take(k)),
    decreases plcs.len() - k,
{
    if k < plcs.len() {
        assert(plcs.take(k + 1).drop_last() =~= plcs.take(k));
        definition_error_stays(plcs, k + 1);
    } else {
        assert(plcs.take(k) =~= plcs);
    }
}

fn add_definitions(plc: &PlcConfig, defs: &mut Vec<TagDefinition>) -> (r: Result<(), SetupError>)
    ensures
        match plc_definitions(plc.tags@, plc.name@) {
            Ok(more) => r is Ok && definition_views(final(defs)@) == definition_views(old(defs)@)
                + more,
            Err(e) => r matches Err(x) && x@ == e,
        },
{
    let ghost before = definition_views(defs@);
    let ghost tags = plc.tags@;
    let mut i: usize = 0;
    assert(before =~= before + Seq::<TagDefinitionView>::empty());
    while i < plc.tags.len()
        invariant
            i <= tags.len(),
            tags == plc.tags@,
            plc_definitions(tags.take(i as int), plc.name@) is Ok,
            definition_views(defs@) == before + plc_definitions(
                tags.take(i as int),
                plc.name@,
            )->Ok_0,
        decreases tags.len() - i,
    {
        let t = &plc.tags[i];
        proof {
            assert(tags.take(i + 1).drop_last() =~= tags.take(i as int));
            assert(tags.take(i + 1).last() == *t);
        }
        match tagconfig_to_definition(t, plc.name.as_str()) {
            Ok(d) => {
                let ghost now = definition_views(defs@);
                defs.push(d);
                assert(definition_views(defs@) =~= now.push(d@));
                assert(definition_views(defs@) =~= before + plc_definitions(
                    tags.take(i + 1),
                    plc.name@,
                )->Ok_0);
            },
            Err(e) => {
                proof {
                    plc_error_stays(tags, plc.name@, i + 1);
                }
                return Err(
                    error_of_tag(
                        "Failed to convert tag config for ",
                        plc.name.as_str(),
                        t.id.as_str(),
                        e.message,
                    ),
                );
            },
        }
        i = i + 1;
    }
    assert(tags.take(i as int) =~= tags);
    Ok(())
}

/// The definitions of the tags of all PLCs.
pub fn convert_definitions(plcs: &Vec<PlcConfig>) -> (r: Result<Vec<TagDefinition>, SetupError>)
    ensures
        match r {
            Ok(defs) => all_definitions(plcs@) == Ok::<Seq<TagDefinitionView>, SetupErrorView>(
                definition_views(defs@),
            ),
            Err(e) => all_definitions(plcs@) == Err::<Seq<TagDefinitionView>, SetupErrorView>(e@),
        },
{
    let mut defs: Vec<TagDefinition> = Vec::new();
    let mut i: usize = 0;
    assert(definition_views(defs@) =~= Seq::<TagDefinitionView>::empty());
    while i < plcs.len()
        invariant
            i <= plcs@.len(),
            all_definitions(plcs@.take(i as int)) == Ok::<Seq<TagDefinitionView>, SetupErrorView>(
                definition_views(defs@),
            ),
        decreases plcs@.len() - i,
    {
        proof {
            assert(plcs@.take(i + 1).drop_last() =~= plcs@.take(i as int));
            assert(plcs@.take(i + 1).last() == plcs@[i as int]);
        }
        match add_definitions(&plcs[i], &mut defs) {
            Ok(_) => {},
            Err(e) => {
                proof {
                    definition_error_stays(plcs@, i + 1);
                }
                return Err(e);
            },
        }
        i = i + 1;
    }
    assert(plcs@.take(i as int) =~= plcs@);
    Ok(defs)
}

// ---------------------------------------------------------------------------
// Drivers
// ---------------------------------------------------------------------------

/// Protocols that PLCs speak.
#[derive(Clone, Copy, Debug, PartialEq, Eq, Structural)]
pub enum Protocol {
    Fins,
    Modbus,
    /// A protocol that the bridge does not speak; its PLCs are left out.
    Unsupported,
}

/// The protocol with a name in small letters.
pub open spec fn protocol_named(name: Seq<char>) -> Protocol {
    if name == "fins"@ {
        Protocol::Fins
    } else if name == "modbus"@ {
        Protocol::Modbus
    } else {
        Protocol::Unsupported
    }
}

/// The protocol with a name in small letters.
pub fn protocol_by_lowercase(name: &str) -> (r: Protocol)
    ensures
        r == protocol_named(name@),
{
    if text::same(name, "fins") {
        Protocol::Fins
    } else if text::same(name, "modbus") {
        Protocol::Modbus
    } else {
        Protocol::Unsupported
    }
}

/// The protocol of a PLC.
pub fn plc_protocol(plc: &PlcConfig) -> (r: Protocol)
    ensures
        r == protocol_named(lowercase_of(plc.protocol@)),
{
    protocol_by_lowercase(text::lowercase(plc.protocol.as_str()).as_str())
}

fn or_default(value: Option<u64>, default: u64) -> (r: u64)
    ensures
        r == (match value {
            Some(v) => v,
            None => default,
        }),
{
    match value {
        Some(v) => v,
        None => default,
    }
}

/// The FINS mappings of the tags of a PLC, or the error of the first tag that has none.
pub open spec fn fins_mappings(tags: Seq<TagConfig>, plc: Seq<char>) -> Result<
    Seq<TagMappingView>,
    SetupErrorView,
>
    decreases tags.len(),
{
    if tags.len() == 0 {
        Ok(Seq::empty())
    } else {
        match fins_mappings(tags.drop_last(), plc) {
            Err(e) => Err(e),
            Ok(ms) => {
                let t = tags.last();
                match fins_mapping_of(t, lowercase_of(t.data_type@)) {
                    Ok(m) => Ok(ms.push(m)),
                    Err(c) => Err(tag_error("FINS mapping error for "@, plc, t.id@, c)),
                }
            },
        }
    }
}

proof fn fins_error_stays(tags: Seq<TagConfig>, plc: Seq<char>, k: int)
    requires
        0 <= k <= tags.len(),
        fins_mappings(tags.take(k), plc) is Err,
    ensures
        fins_mappings(tags, plc) == fins_mappings(tags.take(k), plc),
    decreases tags.len() - k,
{
    if k < tags.len() {
        assert(tags.take(k + 1).drop_last() =~= tags.take(k));
        fins_error_stays(tags, plc, k + 1);
    } else {
        assert(tags.take(k) =~= tags);
    }
}

/// The configuration of the FINS driver of a PLC at `endpoint`.
pub fn fins_config(plc: &PlcConfig, endpoint: &str) -> (r: Result<FinsConfig, SetupError>)
    ensures
        match r {
            Ok(c) => {
                &&& fins_mappings(plc.tags@, plc.name@) == Ok::<Seq<TagMappingView>, SetupErrorView>(
                    driver_fins::mapping::mapping_views(c.mappings@),
                )
                &&& c.name@ == plc.name@
                &&& c.endpoint@ == endpoint@
                &&& c.cycle_ms == plc.cycle_ms
                &&& c.keepalive_secs == plc.keepalive_secs.unwrap_or(30)
                &&& c.max_backoff_secs == plc.max_backoff_secs.unwrap_or(30)
                &&& c.max_words_per_request == plc.max_words_per_request.unwrap_or(960)
            },
            Err(e) => fins_mappings(plc.tags@, plc.name@) == Err::<
                Seq<TagMappingView>,
                SetupErrorView,
            >(e@),
        },
{
    let ghost tags = plc.tags@;
    let mut mappings: Vec<TagMapping> = Vec::new();
    let mut i: usize = 0;
    assert(driver_fins::mapping::mapping_views(mappings@) =~= Seq::<TagMappingView>::empty());
    while i < plc.tags.len()
        invariant
            i <= tags.len(),
            tags == plc.tags@,
            fins_mappings(tags.take(i as int), plc.name@) == Ok::<
                Seq<TagMappingView>,
                SetupErrorView,
            >(driver_fins::mapping::mapping_views(mappings@)),
        decreases tags.len() - i,
    {
        let t = &plc.tags[i];
        proof {
            assert(tags.take(i + 1).drop_last() =~= tags.take(i as int));
            assert(tags.take(i + 1).last() == *t);
        }
        match tagconfig_to_fins_mapping(t) {
            Ok(m) => {
                let ghost now = driver_fins::mapping::mapping_views(mappings@);
                mappings.push(m);
                assert(driver_fins::mapping::mapping_views(mappings@) =~= now.push(m@));
            },
            Err(e) => {
                proof {
                    fins_error_stays(tags, plc.name@, i + 1);
                }
                return Err(
                    error_of_tag(
                        "FINS mapping error for ",
                        plc.name.as_str(),
                        t.id.as_str(),
                        e.message,
                    ),
                );
            },
        }
        i = i + 1;
    }
    assert(tags.take(i as int) =~= tags);
    Ok(
        FinsConfig {
            name: plc.name.clone(),
            endpoint: endpoint.to_owned(),
            cycle_ms: plc.cycle_ms,
            keepalive_secs: or_default(plc.keepalive_secs, 30),
            max_backoff_secs: or_default(plc.max_backoff_secs, 30),
            mappings,
            max_words_per_request: match plc.max_words_per_request {
                Some(n) => n,
                None => 960,
            },
        },
    )
}

/// The Modbus mappings of the tags of a PLC, or the error of the first tag that has none.
pub open spec fn modbus_mappings(tags: Seq<TagConfig>, plc: Seq<char>) -> Result<
    Seq<ModbusMappingView>,
    SetupErrorView,
>
    decreases tags.len(),
{
    if tags.len() == 0 {
        Ok(Seq::empty())
    } else {
        match modbus_mappings(tags.drop_last(), plc) {
            Err(e) => Err(e),
            Ok(ms) => {
                let t = tags.last();
                match modbus_mapping_of(t, lowercase_of(t.data_type@)) {
                    Ok(m) => Ok(ms.push(m)),
                    Err(c) => Err(tag_error("Modbus mapping error for "@, plc, t.id@, c)),
                }
            },
        }
    }
}

proof fn modbus_error_stays(tags: Seq<TagConfig>, plc: Seq<char>, k: int)
    requires
        0 <= k <= tags.len(),
        modbus_mappings(tags.take(k), plc) is Err,
    ensures
        modbus_mappings(tags, plc) == modbus_mappings(tags.take(k), plc),
    decreases tags.len() - k,
{
    if k < tags.len() {
        assert(tags.take(k + 1).drop_last() =~= tags.take(k));
        modbus_error_stays(tags, plc, k + 1);
    } else {
        assert(tags.take(k) =~= tags);
    }
}

/// The configuration of the Modbus driver of a PLC at `endpoint`.
pub fn modbus_config(plc: &PlcConfig, endpoint: &str) -> (r: Result<ModbusConfig, SetupError>)
    ensures
        match r {
            Ok(c) => {
                &&& modbus_mappings(plc.tags@, plc.name@) == Ok::<
                    Seq<ModbusMappingView>,
                    SetupErrorView,
                >(driver_modbus::mapping::mapping_views(c.mappings@))
                &&& c.name@ == plc.name@
                &&& c.endpoint@ == endpoint@
                &&& c.unit_id == plc.unit_id.unwrap_or(1)
                &&& c.cycle_ms == plc.cycle_ms
                &&& c.keepalive_secs == plc.keepalive_secs.unwrap_or(30)
                &&& c.max_backoff_secs == plc.max_backoff_secs.unwrap_or(30)
                &&& c.io_timeout_ms == plc.io_timeout_ms.unwrap_or(2000)
            },
            Err(e) => modbus_mappings(plc.tags@, plc.name@) == Err::<
                Seq<ModbusMappingView>,
                SetupErrorView,
            >(e@),
        },
{
    let ghost tags = plc.tags@;
    let mut mappings: Vec<ModbusMapping> = Vec::new();
    let mut i: usize = 0;
    assert(driver_modbus::mapping::mapping_views(mappings@) =~= Seq::<ModbusMappingView>::empty());
    while i < plc.tags.len()
        invariant
            i <= tags.len(),
            tags == plc.tags@,
            modbus_mappings(tags.take(i as int), plc.name@) == Ok::<
                Seq<ModbusMappingView>,
                SetupErrorView,
            >(driver_modbus::mapping::mapping_views(mappings@)),
        decreases tags.len() - i,
    {
        let t = &plc.tags[i];
        proof {
            assert(tags.take(i + 1).drop_last() =~= tags.take(i as int));
            assert(tags.take(i + 1).last() == *t);
        }
        match tagconfig_to_modbus_mapping(t) {
            Ok(m) => {
                let ghost now = driver_modbus::mapping::mapping_views(mappings@);
                mappings.push(m);
                assert(driver_modbus::mapping::mapping_views(mappings@) =~= now.push(m@));
            },
            Err(e) => {
                proof {
                    modbus_error_stays(tags, plc.name@, i + 1);
                }
                return Err(
                    error_of_tag(
                        "Modbus mapping error for ",
                        plc.name.as_str(),
                        t.id.as_str(),
                        e.message,
                    ),
                );
            },
        }
        i = i + 1;
    }
    assert(tags.take(i as int) =~= tags);
    Ok(
        ModbusConfig {
            name: plc.name.clone(),
            endpoint: endpoint.to_owned(),
            unit_id: match plc.unit_id {
                Some(n) => n,
                None => 1,
            },
            cycle_ms: plc.cycle_ms,
            mappings,
            keepalive_secs: or_default(plc.keepalive_secs, 30),
            max_backoff_secs: or_default(plc.max_backoff_secs, 30),
            io_timeout_ms: or_default(plc.io_timeout_ms, 2000),
        },
    )
}

// ---------------------------------------------------------------------------
// OPC UA server
// ---------------------------------------------------------------------------

fn copy_optional(s: &Option<String>) -> (r: Option<String>)
    ensures
        optional_view(r) == optional_view(*s),
{
    match s {
        Some(t) => Some(t.clone()),
        None => None,
    }
}

/// `r` is the server configuration that the runtime configuration and the modes make up.
pub open spec fn is_server_config(
    r: OpcUaConfig,
    cfg: config::OpcUaConfig,
    write_mode: WriteMode,
    security_mode: SecurityMode,
    security_policy: SecurityPolicy,
) -> bool {
    &&& r.bind_addr@ == cfg.bind_addr@
    &&& r.port == cfg.port
    &&& r.application_name@ == cfg.application_name@
    &&& r.application_uri@ == cfg.application_uri@
    &&& r.namespace_uri@ == cfg.namespace_uri@
    &&& r.anonymous_enabled == cfg.anonymous_enabled
    &&& r.username_password_enabled == cfg.username_password_enabled
    &&& r.max_sessions == cfg.max_sessions
    &&& r.max_subscriptions == cfg.max_subscriptions
    &&& r.write_mode == write_mode
    &&& r.security_mode == security_mode
    &&& r.security_policy == security_policy
    &&& optional_view(r.certificates.server_certificate_path) == optional_view(
        cfg.server_certificate_path,
    )
    &&& optional_view(r.certificates.server_private_key_path) == optional_view(
        cfg.server_private_key_path,
    )
    &&& optional_view(r.certificates.trust_store_dir) == optional_view(cfg.trust_store_dir)
    &&& optional_view(r.certificates.reject_store_dir) == optional_view(cfg.reject_store_dir)
    &&& r.certificates.min_key_length == cfg.min_key_length.unwrap_or(2048)
}

/// The server configuration that the runtime configuration and the modes make up.
pub fn build_opcua_config(
    cfg: &config::OpcUaConfig,
    write_mode: WriteMode,
    security_mode: SecurityMode,
    security_policy: SecurityPolicy,
) -> (r: OpcUaConfig)
    ensures
        is_server_config(r, *cfg, write_mode, security_mode, security_policy),
{
    OpcUaConfig {
        bind_addr: cfg.bind_addr.clone(),
        port: cfg.port,
        application_name: cfg.application_name.clone(),
        application_uri: cfg.application_uri.clone(),
        namespace_uri: cfg.namespace_uri.clone(),
        anonymous_enabled: cfg.anonymous_enabled,
        username_password_enabled: cfg.username_password_enabled,
        max_sessions: cfg.max_sessions,
        max_subscriptions: cfg.max_subscriptions,
        write_mode,
        security_mode,
        security_policy,
        certificates: CertificateConfig {
            server_certificate_path: copy_optional(&cfg.server_certificate_path),
            server_private_key_path: copy_optional(&cfg.server_private_key_path),
            trust_store_dir: copy_optional(&cfg.trust_store_dir),
            reject_store_dir: copy_optional(&cfg.reject_store_dir),
            min_key_length: match cfg.min_key_length {
                Some(n) => n,
                None => 2048,
            },
        },
    }
}

/// Why the OPC UA part of a configuration is refused: a mode or policy that is not known, or
/// security without certificate or private key.
pub open spec fn opcua_fault(cfg: config::OpcUaConfig) -> Option<Seq<char>> {
    if write_mode_of(cfg.write_mode@) is None {
        Some(
            "Invalid write_mode '"@ + cfg.write_mode@ + "'; must be QueuedAck or ConfirmedAck"@,
        )
    } else if security_mode_of(optional_view(cfg.security_mode)) is None {
        Some(
            "Invalid security_mode '"@ + cfg.security_mode->0@
                + "'; must be None, Sign, or SignAndEncrypt"@,
        )
    } else if security_policy_of(optional_view(cfg.security_policy)) is None {
        Some(
            "Invalid security_policy '"@ + cfg.security_policy->0@
                + "'; must be None, Basic128Rsa15, Basic256, or Basic256Sha256"@,
        )
    } else {
        let mode = security_mode_of(optional_view(cfg.security_mode))->0;
        if mode != SecurityMode::NoSecurity && (cfg.server_certificate_path is None
            || cfg.server_private_key_path is None) {
            Some(
                "Security mode "@ + mode_name(mode)
                    + " requires server_certificate_path and server_private_key_path to be set"@,
            )
        } else {
            None
        }
    }
}

/// The server configuration of a runtime configuration, or why it is refused.
pub fn opcua_settings(cfg: &config::OpcUaConfig) -> (r: Result<OpcUaConfig, String>)
    ensures
        match r {
            Ok(c) => {
                &&& opcua_fault(*cfg) is None
                &&& c.fault() is None
                &&& is_server_config(
                    c,
                    *cfg,
                    write_mode_of(cfg.write_mode@)->0,
                    security_mode_of(optional_view(cfg.security_mode))->0,
                    security_policy_of(optional_view(cfg.security_policy))->0,
                )
            },
            Err(m) => match opcua_fault(*cfg) {
                Some(t) => m@ == t,
                None => settings_fault(
                    cfg.application_name@,
                    cfg.application_uri@,
                    cfg.namespace_uri@,
                    cfg.bind_addr@,
                    cfg.port,
                ) matches Some(e) && m@ == "OPC UA configuration is invalid: "@ + config_error_text(
                    e,
                ),
            },
        },
{
    let write_mode = match parse_write_mode(cfg.write_mode.as_str()) {
        Ok(m) => m,
        Err(e) => {
            return Err(e.message);
        },
    };
    let security_mode = match parse_security_mode(borrow_text(&cfg.security_mode)) {
        Ok(m) => m,
        Err(e) => {
            return Err(e.message);
        },
    };
    let security_policy = match parse_security_policy(borrow_text(&cfg.security_policy)) {
        Ok(p) => p,
        Err(e) => {
            return Err(e.message);
        },
    };
    if security_mode != SecurityMode::NoSecurity && (cfg.server_certificate_path.is_none()
        || cfg.server_private_key_path.is_none()) {
        return Err(
            text::join3(
                "Security mode ",
                security_mode.name(),
                " requires server_certificate_path and server_private_key_path to be set",
            ),
        );
    }
    let settings = build_opcua_config(cfg, write_mode, security_mode, security_policy);
    match settings.validate() {
        Ok(_) => Ok(settings),
        Err(e) => Err(
            text::join2("OPC UA configuration is invalid: ", e.message().as_str()),
        ),
    }
}

/// Whether the server runs without any security, which its operator is warned of.
pub fn is_insecure(cfg: &OpcUaConfig) -> (r: bool)
    ensures
        r == (cfg.security_mode == SecurityMode::NoSecurity && cfg.security_policy
            == SecurityPolicy::NoSecurity),
{
    cfg.security_mode == SecurityMode::NoSecurity && cfg.security_policy
        == SecurityPolicy::NoSecurity
}

/// A runtime configuration that is not refused makes up a server configuration that the server
/// can start with.
pub proof fn accepted_settings_can_start(cfg: config::OpcUaConfig, c: OpcUaConfig)
    requires
        opcua_fault(cfg) is None,
        is_server_config(
            c,
            cfg,
            write_mode_of(cfg.write_mode@)->0,
            security_mode_of(optional_view(cfg.security_mode))->0,
            security_policy_of(optional_view(cfg.security_policy))->0,
        ),
    ensures
        crate::opcua_server::server::start_fault(c) is None,
{
    assert(optional_view(c.certificates.server_certificate_path) is Some
        == c.certificates.server_certificate_path is Some);
    assert(optional_view(c.certificates.server_private_key_path) is Some
        == c.certificates.server_private_key_path is Some);
}

// ---------------------------------------------------------------------------
// Limits
// ---------------------------------------------------------------------------

/// Capacities and timeouts of the runtime.
#[derive(Clone, Copy, Debug, PartialEq, Eq, Structural)]
pub struct Limits {
    /// Capacity of the channel that carries health events.
    pub health_channel_capacity: usize,
    /// How long handing a write to a driver may take, in milliseconds.
    pub driver_write_send_timeout_ms: u64,
    /// How long a driver's confirmation is awaited, in milliseconds.
    pub write_confirm_timeout_ms: u64,
}

/// Capacities and timeouts of a configuration, with defaults for what it does not say.
pub fn runtime_limits(cfg: &RuntimeConfig) -> (r: Limits)
    ensures
        r.health_channel_capacity == cfg.health_channel_capacity.unwrap_or(128),
        r.driver_write_send_timeout_ms == cfg.driver_write_send_timeout_ms.unwrap_or(2000),
        r.write_confirm_timeout_ms == cfg.write_confirm_timeout_ms.unwrap_or(5000),
{
    Limits {
        health_channel_capacity: match cfg.health_channel_capacity {
            Some(n) => n,
            None => 128,
        },
        driver_write_send_timeout_ms: or_default(cfg.driver_write_send_timeout_ms, 2000),
        write_confirm_timeout_ms: or_default(cfg.write_confirm_timeout_ms, 5000),
    }
}

/// Names of the PLCs of a configuration.
pub fn plc_names(plcs: &Vec<PlcConfig>) -> (r: Vec<String>)
    ensures
        r@.len() == plcs@.len(),
        forall|i: int| 0 <= i < plcs@.len() ==> (#[trigger] r@[i])@ == plcs@[i].name@,
{
    let mut names: Vec<String> = Vec::new();
    let mut i: usize = 0;
    while i < plcs.len()
        invariant
            i <= plcs@.len(),
            names@.len() == i,
            forall|k: int| 0 <= k < i ==> (#[trigger] names@[k])@ == plcs@[k].name@,
        decreases plcs@.len() - i,
    {
        names.push(plcs[i].name.clone());
        i = i + 1;
    }
    names
}

/// Every tag of a FINS PLC whose mappings were accepted can be written only where the
/// configuration says so, and is read as the type that its definition has.
pub proof fn fins_mapping_agrees_with_definition(t: TagConfig, plc: Seq<char>, lowered: Seq<char>)
    requires
        fins_mapping_of(t, lowered) is Ok,
    ensures
        definition_of(t, plc, lowered) matches Ok(d) && ({
            let m = fins_mapping_of(t, lowered)->Ok_0;
            &&& m.tag_id == d.id
            &&& m.data_type == d.data_type
            &&& m.writable == d.writable
            &&& m.byte_order == d.byte_order
        }),
{
}

/// Every tag of a Modbus PLC whose mappings were accepted can be written only where the
/// configuration says so, and is read as the type that its definition has.
pub proof fn modbus_mapping_agrees_with_definition(
    t: TagConfig,
    plc: Seq<char>,
    lowered: Seq<char>,
)
    requires
        modbus_mapping_of(t, lowered) is Ok,
    ensures
        definition_of(t, plc, lowered) matches Ok(d) && ({
            let m = modbus_mapping_of(t, lowered)->Ok_0;
            &&& m.tag_id == d.id
            &&& m.data_type == d.data_type
            &&& m.writable == d.writable
            &&& m.byte_order == d.byte_order
        }),
{
}

} // verus!
