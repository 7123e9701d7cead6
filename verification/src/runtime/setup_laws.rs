//! How the configuration of PLCs becomes definitions, mappings and a server.

use crate::core_model::tag_definition::TagDefinitionView;
use crate::driver_fins::config::FinsConfig;
use crate::driver_fins::mapping::TagMappingView;
use crate::driver_modbus::config::ModbusConfig;
use crate::driver_modbus::mapping::ModbusMappingView;
use crate::opcua_server::config::{settings_fault, OpcUaConfig, SecurityMode};
use crate::runtime::config;
use crate::runtime::config::{
    security_mode_of, security_policy_of, write_mode_of, PlcConfig, RuntimeConfig, TagConfig,
};
use crate::runtime::setup::{
    all_definitions, fins_config, fins_mappings, modbus_config, modbus_mappings, opcua_fault,
    opcua_settings, plc_definitions, protocol_named, runtime_limits, Limits, Protocol, SetupError,
    SetupErrorView,
};
use crate::runtime::tags::{definition_of, fins_mapping_of, modbus_mapping_of, optional_view};
use crate::text::lowercase_of;
use vstd::prelude::*;
use vstd::string::*;

verus! {

/// The definition of a configured tag of a PLC, by its own data type.
pub open spec fn own_definition(t: TagConfig, plc: Seq<char>) -> Result<
    TagDefinitionView,
    Seq<char>,
> {
    definition_of(t, plc, lowercase_of(t.data_type@))
}

/// The FINS mapping of a configured tag, by its own data type.
pub open spec fn own_fins_mapping(t: TagConfig) -> Result<TagMappingView, Seq<char>> {
    fins_mapping_of(t, lowercase_of(t.data_type@))
}

/// The Modbus mapping of a configured tag, by its own data type.
pub open spec fn own_modbus_mapping(t: TagConfig) -> Result<ModbusMappingView, Seq<char>> {
    modbus_mapping_of(t, lowercase_of(t.data_type@))
}

/// The definitions of a PLC are those of its tags, one for each and in their order.
pub proof fn each_tag_is_defined(tags: Seq<TagConfig>, plc: Seq<char>, i: int)
    requires
        plc_definitions(tags, plc) is Ok,
        0 <= i < tags.len(),
    ensures
        plc_definitions(tags, plc)->Ok_0.len() == tags.len(),
        own_definition(tags[i], plc) == Ok::<TagDefinitionView, Seq<char>>(
            plc_definitions(tags, plc)->Ok_0[i],
        ),
    decreases tags.len(),
{
    let front = tags.drop_last();
    definitions_are_counted(front, plc);
    if i < front.len() {
        each_tag_is_defined(front, plc, i);
        assert(front[i] == tags[i]);
    }
}

proof fn definitions_are_counted(tags: Seq<TagConfig>, plc: Seq<char>)
    ensures
        plc_definitions(tags, plc) is Ok ==> plc_definitions(tags, plc)->Ok_0.len() == tags.len(),
    decreases tags.len(),
{
    if tags.len() > 0 {
        definitions_are_counted(tags.drop_last(), plc);
    }
}

/// Of the tags of a PLC the first one without a definition is told, with the reason.
pub proof fn first_undefined_tag_is_told(tags: Seq<TagConfig>, plc: Seq<char>, k: int)
    requires
        0 <= k < tags.len(),
        own_definition(tags[k], plc) is Err,
        forall|j: int|
            0 <= j < k ==> own_definition(#[trigger] tags[j], plc) is Ok,
    ensures
        plc_definitions(tags, plc) == Err::<Seq<TagDefinitionView>, SetupErrorView>(
            SetupErrorView {
                context: "Failed to convert tag config for "@ + plc + "::"@ + tags[k].id@,
                cause: own_definition(tags[k], plc)->Err_0,
            },
        ),
    decreases tags.len(),
{
    let front = tags.drop_last();
    if k < front.len() {
        assert forall|j: int| 0 <= j < k implies own_definition(#[trigger] front[j], plc) is Ok by {
            assert(front[j] == tags[j]);
        }
        assert(front[k] == tags[k]);
        first_undefined_tag_is_told(front, plc, k);
    } else {
        assert(tags.last() == tags[k]);
        definitions_are_counted_ok(front, plc, tags);
    }
}

proof fn definitions_are_counted_ok(front: Seq<TagConfig>, plc: Seq<char>, tags: Seq<TagConfig>)
    requires
        front.len() <= tags.len(),
        front == tags.take(front.len() as int),
        forall|j: int|
            0 <= j < front.len() ==> own_definition(#[trigger] tags[j], plc) is Ok,
    ensures
        plc_definitions(front, plc) is Ok,
    decreases front.len(),
{
    if front.len() > 0 {
        let rest = front.drop_last();
        assert(rest =~= tags.take(rest.len() as int));
        definitions_are_counted_ok(rest, plc, tags);
        assert(front.last() == tags[front.len() - 1]);
    }
}

/// The mappings of a FINS PLC are those of its tags, one for each and in their order.
pub proof fn each_tag_is_mapped_for_fins(tags: Seq<TagConfig>, plc: Seq<char>, i: int)
    requires
        fins_mappings(tags, plc) is Ok,
        0 <= i < tags.len(),
    ensures
        fins_mappings(tags, plc)->Ok_0.len() == tags.len(),
        own_fins_mapping(tags[i]) == Ok::<TagMappingView, Seq<char>>(
            fins_mappings(tags, plc)->Ok_0[i],
        ),
    decreases tags.len(),
{
    let front = tags.drop_last();
    fins_mappings_are_counted(front, plc);
    if i < front.len() {
        each_tag_is_mapped_for_fins(front, plc, i);
        assert(front[i] == tags[i]);
    }
}

proof fn fins_mappings_are_counted(tags: Seq<TagConfig>, plc: Seq<char>)
    ensures
        fins_mappings(tags, plc) is Ok ==> fins_mappings(tags, plc)->Ok_0.len() == tags.len(),
    decreases tags.len(),
{
    if tags.len() > 0 {
        fins_mappings_are_counted(tags.drop_last(), plc);
    }
}

/// Of the tags of a FINS PLC the first one without a mapping is told, with the reason.
pub proof fn first_unmapped_fins_tag_is_told(tags: Seq<TagConfig>, plc: Seq<char>, k: int)
    requires
        0 <= k < tags.len(),
        own_fins_mapping(tags[k]) is Err,
        forall|j: int|
            0 <= j < k ==> own_fins_mapping(#[trigger] tags[j]) is Ok,
    ensures
        fins_mappings(tags, plc) == Err::<Seq<TagMappingView>, SetupErrorView>(
            SetupErrorView {
                context: "FINS mapping error for "@ + plc + "::"@ + tags[k].id@,
                cause: own_fins_mapping(tags[k])->Err_0,
            },
        ),
    decreases tags.len(),
{
    let front = tags.drop_last();
    if k < front.len() {
        assert forall|j: int| 0 <= j < k implies own_fins_mapping(#[trigger] front[j]) is Ok by {
            assert(front[j] == tags[j]);
        }
        assert(front[k] == tags[k]);
        first_unmapped_fins_tag_is_told(front, plc, k);
    } else {
        assert(tags.last() == tags[k]);
        fins_mappings_are_counted_ok(front, plc, tags);
    }
}

proof fn fins_mappings_are_counted_ok(front: Seq<TagConfig>, plc: Seq<char>, tags: Seq<TagConfig>)
    requires
        front.len() <= tags.len(),
        front == tags.take(front.len() as int),
        forall|j: int|
            0 <= j < front.len() ==> own_fins_mapping(#[trigger] tags[j]) is Ok,
    ensures
        fins_mappings(front, plc) is Ok,
    decreases front.len(),
{
    if front.len() > 0 {
        let rest = front.drop_last();
        assert(rest =~= tags.take(rest.len() as int));
        fins_mappings_are_counted_ok(rest, plc, tags);
        assert(front.last() == tags[front.len() - 1]);
    }
}

/// The mappings of a Modbus PLC are those of its tags, one for each and in their order.
pub proof fn each_tag_is_mapped_for_modbus(tags: Seq<TagConfig>, plc: Seq<char>, i: int)
    requires
        modbus_mappings(tags, plc) is Ok,
        0 <= i < tags.len(),
    ensures
        modbus_mappings(tags, plc)->Ok_0.len() == tags.len(),
        own_modbus_mapping(tags[i]) == Ok::<ModbusMappingView, Seq<char>>(
            modbus_mappings(tags, plc)->Ok_0[i],
        ),
    decreases tags.len(),
{
    let front = tags.drop_last();
    modbus_mappings_are_counted(front, plc);
    if i < front.len() {
        each_tag_is_mapped_for_modbus(front, plc, i);
        assert(front[i] == tags[i]);
    }
}

proof fn modbus_mappings_are_counted(tags: Seq<TagConfig>, plc: Seq<char>)
    ensures
        modbus_mappings(tags, plc) is Ok ==> modbus_mappings(tags, plc)->Ok_0.len() == tags.len(),
    decreases tags.len(),
{
    if tags.len() > 0 {
        modbus_mappings_are_counted(tags.drop_last(), plc);
    }
}

/// Of the tags of a Modbus PLC the first one without a mapping is told, with the reason.
pub proof fn first_unmapped_modbus_tag_is_told(tags: Seq<TagConfig>, plc: Seq<char>, k: int)
    requires
        0 <= k < tags.len(),
        own_modbus_mapping(tags[k]) is Err,
        forall|j: int|
            0 <= j < k ==> own_modbus_mapping(#[trigger] tags[j]) is Ok,
    ensures
        modbus_mappings(tags, plc) == Err::<Seq<ModbusMappingView>, SetupErrorView>(
            SetupErrorView {
                context: "Modbus mapping error for "@ + plc + "::"@ + tags[k].id@,
                cause: own_modbus_mapping(tags[k])->Err_0,
            },
        ),
    decreases tags.len(),
{
    let front = tags.drop_last();
    if k < front.len() {
        assert forall|j: int| 0 <= j < k implies own_modbus_mapping(#[trigger] front[j]) is Ok by {
            assert(front[j] == tags[j]);
        }
        assert(front[k] == tags[k]);
        first_unmapped_modbus_tag_is_told(front, plc, k);
    } else {
        assert(tags.last() == tags[k]);
        modbus_mappings_are_counted_ok(front, plc, tags);
    }
}

proof fn modbus_mappings_are_counted_ok(front: Seq<TagConfig>, plc: Seq<char>, tags: Seq<TagConfig>)
    requires
        front.len() <= tags.len(),
        front == tags.take(front.len() as int),
        forall|j: int|
            0 <= j < front.len() ==> own_modbus_mapping(#[trigger] tags[j]) is Ok,
    ensures
        modbus_mappings(front, plc) is Ok,
    decreases front.len(),
{
    if front.len() > 0 {
        let rest = front.drop_last();
        assert(rest =~= tags.take(rest.len() as int));
        modbus_mappings_are_counted_ok(rest, plc, tags);
        assert(front.last() == tags[front.len() - 1]);
    }
}

/// The definitions of all PLCs are those of each PLC, one PLC after the other; where a PLC has
/// none, the error of the first such PLC is that of all.
pub proof fn plcs_are_defined_in_order(plcs: Seq<PlcConfig>, plc: PlcConfig)
    ensures
        all_definitions(Seq::empty()) == Ok::<Seq<TagDefinitionView>, SetupErrorView>(
            Seq::empty(),
        ),
        all_definitions(plcs) matches Err(e) ==> all_definitions(plcs.push(plc)) == Err::<
            Seq<TagDefinitionView>,
            SetupErrorView,
        >(e),
        all_definitions(plcs) is Ok && plc_definitions(plc.tags@, plc.name@) is Ok
            ==> all_definitions(plcs.push(plc)) == Ok::<Seq<TagDefinitionView>, SetupErrorView>(
            all_definitions(plcs)->Ok_0 + plc_definitions(plc.tags@, plc.name@)->Ok_0,
        ),
        all_definitions(plcs) is Ok && plc_definitions(plc.tags@, plc.name@) is Err
            ==> all_definitions(plcs.push(plc)) == Err::<Seq<TagDefinitionView>, SetupErrorView>(
            plc_definitions(plc.tags@, plc.name@)->Err_0,
        ),
{
    assert(plcs.push(plc).drop_last() =~= plcs);
    assert(plcs.push(plc).last() == plc);
}

/// Every tag of every PLC is defined with the name of its PLC.
pub proof fn every_tag_of_every_plc_is_defined(plcs: Seq<PlcConfig>, p: int, i: int) -> (at: int)
    requires
        all_definitions(plcs) is Ok,
        0 <= p < plcs.len(),
        0 <= i < plcs[p].tags@.len(),
    ensures
        0 <= at < all_definitions(plcs)->Ok_0.len(),
        own_definition(plcs[p].tags@[i], plcs[p].name@) == Ok::<TagDefinitionView, Seq<char>>(
            all_definitions(plcs)->Ok_0[at],
        ),
    decreases plcs.len(),
{
    let front = plcs.drop_last();
    let before = all_definitions(front)->Ok_0;
    if p < front.len() {
        assert(front[p] == plcs[p]);
        every_tag_of_every_plc_is_defined(front, p, i)
    } else {
        assert(plcs.last() == plcs[p]);
        each_tag_is_defined(plcs[p].tags@, plcs[p].name@, i);
        before.len() + i
    }
}

/// The two protocols are denoted by their names, and no other text denotes one.
pub proof fn protocols_are_denoted_by_their_names(s: Seq<char>)
    ensures
        protocol_named(s) == Protocol::Fins <==> s == "fins"@,
        protocol_named(s) == Protocol::Modbus <==> s == "modbus"@,
{
    reveal_strlit("fins");
    reveal_strlit("modbus");
    assert("fins"@.len() == 4 && "modbus"@.len() == 6);
}

/// The settings of the server are accepted exactly where their texts denote a write mode, a
/// security mode and a policy, and a mode that secures messages has its certificate and key.
pub proof fn server_settings_are_accepted(cfg: config::OpcUaConfig)
    ensures
        opcua_fault(cfg) is None <==> {
            let mode = security_mode_of(optional_view(cfg.security_mode));
            &&& write_mode_of(cfg.write_mode@) is Some
            &&& mode is Some
            &&& security_policy_of(optional_view(cfg.security_policy)) is Some
            &&& mode == Some(SecurityMode::NoSecurity) || (cfg.server_certificate_path is Some
                && cfg.server_private_key_path is Some)
        },
{
}

/// The configuration of a FINS driver has the name and cycle of its PLC, the endpoint, a mapping
/// for each tag, and what the PLC says of waits and sizes: 30 seconds and 960 words where it says
/// nothing.
pub proof fn fins_drivers_are_configured(
    plc: PlcConfig,
    endpoint: &str,
    r: Result<FinsConfig, SetupError>,
)
    requires
        call_ensures(fins_config, (&plc, endpoint), r),
    ensures
        r is Ok <==> fins_mappings(plc.tags@, plc.name@) is Ok,
        r matches Ok(c) ==> {
            &&& c.name@ == plc.name@
            &&& c.endpoint@ == endpoint@
            &&& c.cycle_ms == plc.cycle_ms
            &&& c.mappings@.len() == plc.tags@.len()
            &&& c.keepalive_secs == (match plc.keepalive_secs {
                Some(n) => n,
                None => 30,
            })
            &&& c.max_backoff_secs == (match plc.max_backoff_secs {
                Some(n) => n,
                None => 30,
            })
            &&& c.max_words_per_request == (match plc.max_words_per_request {
                Some(n) => n,
                None => 960,
            })
            &&& forall|i: int|
                0 <= i < plc.tags@.len() ==> own_fins_mapping(
                    #[trigger] plc.tags@[i],
                ) == Ok::<TagMappingView, Seq<char>>(c.mappings@[i]@)
        },
{
    fins_mappings_are_counted(plc.tags@, plc.name@);
    if let Ok(c) = r {
        assert forall|i: int| 0 <= i < plc.tags@.len() implies own_fins_mapping(
            #[trigger] plc.tags@[i],
        ) == Ok::<TagMappingView, Seq<char>>(c.mappings@[i]@) by {
            each_tag_is_mapped_for_fins(plc.tags@, plc.name@, i);
        }
    }
}

/// The configuration of a Modbus driver has the name and cycle of its PLC, the endpoint, a mapping
/// for each tag, and what the PLC says of its unit, waits and timeout: unit 1, 30 seconds and
/// 2000 milliseconds where it says nothing.
pub proof fn modbus_drivers_are_configured(
    plc: PlcConfig,
    endpoint: &str,
    r: Result<ModbusConfig, SetupError>,
)
    requires
        call_ensures(modbus_config, (&plc, endpoint), r),
    ensures
        r is Ok <==> modbus_mappings(plc.tags@, plc.name@) is Ok,
        r matches Ok(c) ==> {
            &&& c.name@ == plc.name@
            &&& c.endpoint@ == endpoint@
            &&& c.cycle_ms == plc.cycle_ms
            &&& c.mappings@.len() == plc.tags@.len()
            &&& c.unit_id == (match plc.unit_id {
                Some(n) => n,
                None => 1,
            })
            &&& c.keepalive_secs == (match plc.keepalive_secs {
                Some(n) => n,
                None => 30,
            })
            &&& c.max_backoff_secs == (match plc.max_backoff_secs {
                Some(n) => n,
                None => 30,
            })
            &&& c.io_timeout_ms == (match plc.io_timeout_ms {
                Some(n) => n,
                None => 2000,
            })
            &&& forall|i: int|
                0 <= i < plc.tags@.len() ==> own_modbus_mapping(
                    #[trigger] plc.tags@[i],
                ) == Ok::<ModbusMappingView, Seq<char>>(c.mappings@[i]@)
        },
{
    modbus_mappings_are_counted(plc.tags@, plc.name@);
    if let Ok(c) = r {
        assert forall|i: int| 0 <= i < plc.tags@.len() implies own_modbus_mapping(
            #[trigger] plc.tags@[i],
        ) == Ok::<ModbusMappingView, Seq<char>>(c.mappings@[i]@) by {
            each_tag_is_mapped_for_modbus(plc.tags@, plc.name@, i);
        }
    }
}

/// Where the configuration says nothing, 128 health events have room, a write is handed over within
/// 2000 milliseconds and confirmed within 5000.
pub proof fn limits_have_defaults(cfg: RuntimeConfig, r: Limits)
    requires
        call_ensures(runtime_limits, (&cfg,), r),
    ensures
        r.health_channel_capacity == (match cfg.health_channel_capacity {
            Some(n) => n,
            None => 128,
        }),
        r.driver_write_send_timeout_ms == (match cfg.driver_write_send_timeout_ms {
            Some(n) => n,
            None => 2000,
        }),
        r.write_confirm_timeout_ms == (match cfg.write_confirm_timeout_ms {
            Some(n) => n,
            None => 5000,
        }),
{
}

/// The server gets the settings of the configuration and the modes that its texts denote; the
/// shortest key has 2048 bits where the configuration says nothing.
pub proof fn server_gets_its_settings(cfg: config::OpcUaConfig, r: Result<OpcUaConfig, String>)
    requires
        call_ensures(opcua_settings, (&cfg,), r),
    ensures
        r matches Ok(c) ==> {
            &&& c.bind_addr@ == cfg.bind_addr@
            &&& c.port == cfg.port
            &&& c.application_name@ == cfg.application_name@
            &&& c.application_uri@ == cfg.application_uri@
            &&& c.namespace_uri@ == cfg.namespace_uri@
            &&& c.anonymous_enabled == cfg.anonymous_enabled
            &&& c.username_password_enabled == cfg.username_password_enabled
            &&& c.max_sessions == cfg.max_sessions
            &&& c.max_subscriptions == cfg.max_subscriptions
            &&& Some(c.write_mode) == write_mode_of(cfg.write_mode@)
            &&& Some(c.security_mode) == security_mode_of(optional_view(cfg.security_mode))
            &&& Some(c.security_policy) == security_policy_of(optional_view(cfg.security_policy))
            &&& c.certificates.min_key_length == (match cfg.min_key_length {
                Some(n) => n,
                None => 2048,
            })
            &&& optional_view(c.certificates.trust_store_dir) == optional_view(cfg.trust_store_dir)
            &&& optional_view(c.certificates.reject_store_dir) == optional_view(
                cfg.reject_store_dir,
            )
            &&& optional_view(c.certificates.server_certificate_path) == optional_view(
                cfg.server_certificate_path,
            )
            &&& optional_view(c.certificates.server_private_key_path) == optional_view(
                cfg.server_private_key_path,
            )
        },
        r is Ok <==> opcua_fault(cfg) is None && settings_fault(
            cfg.application_name@,
            cfg.application_uri@,
            cfg.namespace_uri@,
            cfg.bind_addr@,
            cfg.port,
        ) is None,
{
}

} // verus!
