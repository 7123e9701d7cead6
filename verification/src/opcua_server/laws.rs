//! What clients read and write, and how the server is set up.

use crate::core_model::registry::{RegistryView, TagRegistry};
use crate::core_model::tag::TagView;
use crate::core_model::tag_definition::TagDefinitionView;
use crate::core_model::tag_laws::has_ink;
use crate::core_model::tag_value::{type_of, TagDataType, TagQualityView, TagValueView};
use crate::opcua_server::address::{is_hostname, is_socket_host};
use crate::opcua_server::address_space::{
    before, behind, data_type_node, each_tag_has_its_node, space_of, string_id,
};
use crate::opcua_server::config::{
    config_error_text, host_fault, host_port, mode_name, policy_uri, settings_fault,
    ConfigErrorView, OpcUaConfig, SecurityMode, SecurityPolicy, WriteMode,
};
use crate::driver_common::write_request::{Confirmation, ReplyId};
use crate::opcua_server::data_source::{
    tag_read, value_read, value_written, AfterSend, DataValue, TagDataSource,
};
use crate::opcua_server::error::{server_error_text, ServerError, ServerErrorView};
use crate::opcua_server::server::{
    access_for, check_login, start_fault, start_plan, Access, StartPlan,
};
use crate::opcua_server::variant::{
    quality_status, scalar_name, tagvalue_of, timestamp_nanos, variant_of, StatusCode, Variant,
    VariantView,
};
use crate::opcua_server::writes::BridgeWrite;
use crate::text::{decimal, first_at, has, stands_at};
use crate::time::{nanos_are_counted, nanos_of_an_instant, Timestamp};
use vstd::prelude::*;
use vstd::string::*;

verus! {

// ---------------------------------------------------------------------------
// Reading
// ---------------------------------------------------------------------------

/// A client reads the status `Good` of a tag exactly where its quality is good or it waits for its
/// first value. A tag that is out of reach, wrongly configured, of the wrong type or in error is
/// bad, and a stale or substituted value is uncertain.
pub proof fn status_follows_the_quality(tag: TagView)
    requires
        tag_read(tag) is Ok,
    ensures
        ({
            let status = tag_read(tag)->Ok_0.status;
            &&& status == StatusCode::Good <==> tag.quality is Good || tag.quality is Initializing
            &&& status == StatusCode::BadUnexpectedError <==> tag.quality is CommLost
                || tag.quality is ConfigError || tag.quality is TypeMismatch || tag.quality is Error
            &&& status == StatusCode::UncertainSubNormal <==> tag.quality is Stale
                || tag.quality is Substitute
        }),
{
}

/// The status of a quality by itself: good is good, errors are bad, and the rest is uncertain.
pub proof fn qualities_have_their_status(q: TagQualityView)
    ensures
        quality_status(q) == StatusCode::Good <==> q is Good,
        quality_status(q) == StatusCode::BadUnexpectedError <==> q is CommLost || q is ConfigError
            || q is TypeMismatch || q is Error,
        quality_status(q) == StatusCode::UncertainSubNormal <==> q is Initializing || q is Stale
            || q is Substitute,
{
}

/// Every tag that is there can be read, but for a time that 64 bits of nanoseconds cannot hold;
/// of any other tag the read fails. The status does not decide whether there is a value.
pub proof fn tags_can_be_read(reg: RegistryView, id: Seq<char>)
    ensures
        value_read(reg, id) is Err ==> value_read(reg, id)->Err_0 == StatusCode::BadInternalError,
        !reg.store.tags.contains_key(id) ==> value_read(reg, id) is Err,
        reg.store.tags.contains_key(id) && !(reg.store.tags[id].value is DateTime) ==> value_read(
            reg,
            id,
        ) is Ok,
        reg.store.tags.contains_key(id) && (reg.store.tags[id].value matches TagValueView::DateTime(
            t,
        ) && -9_223_372_036 <= t.secs() < 9_223_372_036 && 0 <= t.nanos() < 1_000_000_000)
            ==> value_read(reg, id) is Ok,
        value_read(reg, id) matches Ok(v) ==> {
            let tag = reg.store.tags[id];
            &&& Some(v.variant) == variant_of(tag.value)
            &&& v.status == StatusCode::Good <==> tag.quality is Good || tag.quality is Initializing
            &&& v.status == StatusCode::BadUnexpectedError <==> tag.quality is CommLost
                || tag.quality is ConfigError || tag.quality is TypeMismatch || tag.quality is Error
            &&& v.source_nanos == timestamp_nanos(tag.source_timestamp)
            &&& v.server_nanos == timestamp_nanos(tag.server_timestamp)
        },
{
}

/// A timestamp is told in nanoseconds since 1970-01-01 00:00:00 UTC, where 64 bits hold them.
pub proof fn timestamps_are_told_in_nanoseconds(t: Timestamp)
    requires
        -9_223_372_036 <= t.secs() < 9_223_372_036,
        0 <= t.nanos() < 1_000_000_000,
    ensures
        timestamp_nanos(t) == t.secs() * 1_000_000_000 + t.nanos(),
{
    nanos_of_an_instant(t);
}

/// The variant of a value is a scalar of the type of the same name that holds the same; that of a
/// time is its nanoseconds since 1970-01-01 00:00:00 UTC.
pub proof fn variants_hold_the_value(value: TagValueView)
    ensures
        match value {
            TagValueView::Bool(b) => variant_of(value) == Some(VariantView::Boolean(b)),
            TagValueView::Int16(v) => variant_of(value) == Some(VariantView::Int16(v)),
            TagValueView::UInt16(v) => variant_of(value) == Some(VariantView::UInt16(v)),
            TagValueView::Int32(v) => variant_of(value) == Some(VariantView::Int32(v)),
            TagValueView::UInt32(v) => variant_of(value) == Some(VariantView::UInt32(v)),
            TagValueView::Int64(v) => variant_of(value) == Some(VariantView::Int64(v)),
            TagValueView::UInt64(v) => variant_of(value) == Some(VariantView::UInt64(v)),
            TagValueView::Float(v) => variant_of(value) == Some(VariantView::Float(v)),
            TagValueView::Double(v) => variant_of(value) == Some(VariantView::Double(v)),
            TagValueView::String(s) => variant_of(value) == Some(VariantView::String(s)),
            TagValueView::ByteString(b) => variant_of(value) == Some(VariantView::ByteString(b)),
            TagValueView::DateTime(t) => {
                &&& variant_of(value) matches Some(v) ==> (v matches VariantView::DateTime(n) && n
                    == t.secs() * 1_000_000_000 + t.nanos())
                &&& -9_223_372_036 <= t.secs() < 9_223_372_036 && 0 <= t.nanos() < 1_000_000_000
                    ==> variant_of(value) is Some
            },
        },
{
}

// ---------------------------------------------------------------------------
// Writing
// ---------------------------------------------------------------------------

/// The data type whose values a variant can hold, if it is a scalar of one.
pub open spec fn held_type(v: VariantView) -> Option<TagDataType> {
    match v {
        VariantView::Boolean(_) => Some(TagDataType::Bool),
        VariantView::Int16(_) => Some(TagDataType::Int16),
        VariantView::UInt16(_) => Some(TagDataType::UInt16),
        VariantView::Int32(_) => Some(TagDataType::Int32),
        VariantView::UInt32(_) => Some(TagDataType::UInt32),
        VariantView::Int64(_) => Some(TagDataType::Int64),
        VariantView::UInt64(_) => Some(TagDataType::UInt64),
        VariantView::Float(_) => Some(TagDataType::Float),
        VariantView::Double(_) => Some(TagDataType::Double),
        VariantView::String(_) => Some(TagDataType::String),
        VariantView::DateTime(_) => Some(TagDataType::DateTime),
        VariantView::ByteString(_) => Some(TagDataType::ByteString),
        VariantView::Other => None,
    }
}

/// A variant is taken for exactly the data type of its scalar, and what is taken is what it holds;
/// the nanoseconds of a time are counted from 1970-01-01 00:00:00 UTC.
pub proof fn values_are_taken_from_variants(v: VariantView, expected: TagDataType)
    ensures
        tagvalue_of(v, expected) is Ok <==> held_type(v) == Some(expected),
        tagvalue_of(v, expected) matches Err(m) ==> m == "Expected "@ + scalar_name(expected),
        tagvalue_of(v, expected) matches Ok(x) ==> {
            &&& type_of(x) == expected
            &&& match v {
                VariantView::DateTime(n) => i64::MIN <= n <= i64::MAX ==> (
                x matches TagValueView::DateTime(t) && t.secs() * 1_000_000_000 + t.nanos() == n),
                _ => variant_of(x) == Some(v),
            }
        },
{
    match v {
        VariantView::DateTime(n) => {
            if i64::MIN <= n <= i64::MAX {
                nanos_are_counted(n as i64);
            }
        },
        _ => {},
    }
}

/// A write is taken exactly where it has a value of the type that the tag is defined with, and
/// what is taken is that value.
pub proof fn writes_need_the_defined_type(
    reg: RegistryView,
    id: Seq<char>,
    variant: Option<VariantView>,
)
    ensures
        ({
            let r = value_written(reg, id, variant);
            &&& r is Ok <==> {
                &&& variant is Some
                &&& reg.definitions.contains_key(id)
                &&& held_type(variant->0) == Some(reg.definitions[id].data_type)
            }
            &&& r matches Err(s) ==> s == StatusCode::BadInternalError
            &&& r matches Ok(x) ==> {
                &&& type_of(x) == reg.definitions[id].data_type
                &&& !(x is DateTime) ==> variant_of(x) == variant
            }
        }),
{
    if variant is Some && reg.definitions.contains_key(id) {
        values_are_taken_from_variants(variant->0, reg.definitions[id].data_type);
    }
}

// ---------------------------------------------------------------------------
// Nodes
// ---------------------------------------------------------------------------

/// Data types stand in namespace 0 under the numbers that OPC UA gives them.
pub proof fn data_types_have_their_numbers()
    ensures
        data_type_node(TagDataType::Bool) == 1,
        data_type_node(TagDataType::Int16) == 4,
        data_type_node(TagDataType::UInt16) == 5,
        data_type_node(TagDataType::Int32) == 6,
        data_type_node(TagDataType::UInt32) == 7,
        data_type_node(TagDataType::Int64) == 8,
        data_type_node(TagDataType::UInt64) == 9,
        data_type_node(TagDataType::Float) == 10,
        data_type_node(TagDataType::Double) == 11,
        data_type_node(TagDataType::String) == 12,
        data_type_node(TagDataType::DateTime) == 13,
        data_type_node(TagDataType::ByteString) == 15,
{
}

/// Data types have the names that OPC UA gives them.
pub proof fn data_types_have_their_names()
    ensures
        scalar_name(TagDataType::Bool) == "Boolean"@,
        scalar_name(TagDataType::Int16) == "Int16"@,
        scalar_name(TagDataType::UInt16) == "UInt16"@,
        scalar_name(TagDataType::Int32) == "Int32"@,
        scalar_name(TagDataType::UInt32) == "UInt32"@,
        scalar_name(TagDataType::Int64) == "Int64"@,
        scalar_name(TagDataType::UInt64) == "UInt64"@,
        scalar_name(TagDataType::Float) == "Float"@,
        scalar_name(TagDataType::Double) == "Double"@,
        scalar_name(TagDataType::String) == "String"@,
        scalar_name(TagDataType::DateTime) == "DateTime"@,
        scalar_name(TagDataType::ByteString) == "ByteString"@,
{
}

proof fn separator()
    ensures
        ";s="@ == seq![';', 's', '='],
{
    reveal_strlit(";s=");
    assert(";s="@ =~= seq![';', 's', '=']);
}

proof fn separator_stands_first(prefix: Seq<char>, rest: Seq<char>)
    requires
        !(has(prefix, ";s="@)),
    ensures
        behind(prefix + ";s="@ + rest, ";s="@) == Some(rest),
        before(prefix + ";s="@ + rest, ";s="@) == prefix,
{
    separator();
    let pat = ";s="@;
    let s = prefix + pat + rest;
    let n = prefix.len() as int;
    assert(s.subrange(n, n + 3) =~= pat);
    assert(stands_at(s, pat, n));
    assert forall|k: int| 0 <= k < n implies !stands_at(s, pat, k) by {
        if stands_at(s, pat, k) {
            assert(s.subrange(k, k + 3)[0] == s[k]);
            assert(s.subrange(k, k + 3)[1] == s[k + 1]);
            assert(s.subrange(k, k + 3)[2] == s[k + 2]);
            if k + 3 <= n {
                assert(prefix.subrange(k, k + 3) =~= s.subrange(k, k + 3));
                assert(stands_at(prefix, pat, k));
            } else {
                assert(s[n] == ';');
            }
        }
    }
    assert(first_at(s, pat, 0, n));
    let c = choose|i: int| first_at(s, pat, 0, i);
    assert(first_at(s, pat, 0, c));
    if c < n {
        assert(!stands_at(s, pat, c));
    } else if n < c {
        assert(!stands_at(s, pat, n));
    }
    assert(s.skip(n + 3) =~= rest);
    assert(s.take(n) =~= prefix);
}

/// The string identifier of a node is what stands behind the first `;s=` of the tag's id, up to a
/// second `;s=` if there is one; an id without `;s=` is the identifier itself.
pub proof fn node_ids_stand_behind_the_separator(
    prefix: Seq<char>,
    name: Seq<char>,
    rest: Seq<char>,
)
    requires
        !(has(prefix, ";s="@)),
        !(has(name, ";s="@)),
    ensures
        string_id(prefix) == prefix,
        string_id(prefix + ";s="@ + name) == name,
        string_id(prefix + ";s="@ + (name + ";s="@ + rest)) == name,
{
    separator_stands_first(prefix, name);
    separator_stands_first(prefix, name + ";s="@ + rest);
    separator_stands_first(name, rest);
}

/// Every definition has its own variable node, in the order of the definitions, with the id, name,
/// type and access of the definition, in the folder that bears the name of its PLC.
pub proof fn nodes_follow_the_definitions(defs: Seq<TagDefinitionView>, i: int)
    requires
        0 <= i < defs.len(),
    ensures
        ({
            let space = space_of(defs);
            let v = space.variables[i];
            &&& space.variables.len() == defs.len()
            &&& v.tag_id == defs[i].id
            &&& !(has(defs[i].id, ";s="@)) ==> v.string_id == defs[i].id
            &&& v.browse_name == defs[i].name
            &&& v.data_type == data_type_node(defs[i].data_type)
            &&& v.writable == defs[i].writable
            &&& 0 <= v.folder < space.folders.len()
            &&& space.folders[v.folder] == defs[i].plc_name
        }),
{
    each_tag_has_its_node(defs, i);
}

/// Every folder bears the name of the PLC of some definition.
pub proof fn folders_belong_to_plcs(defs: Seq<TagDefinitionView>, f: int)
    requires
        0 <= f < space_of(defs).folders.len(),
    ensures
        exists|i: int|
            0 <= i < defs.len() && (#[trigger] defs[i]).plc_name == space_of(defs).folders[f],
    decreases defs.len(),
{
    let rest = defs.drop_last();
    let n = rest.len() as int;
    if f < space_of(rest).folders.len() {
        folders_belong_to_plcs(rest, f);
        let i = choose|i: int|
            0 <= i < rest.len() && (#[trigger] rest[i]).plc_name == space_of(rest).folders[f];
        assert(defs[i] == rest[i]);
        assert(space_of(defs).folders[f] == space_of(rest).folders[f]);
    } else {
        assert(defs[n].plc_name == space_of(defs).folders[f]);
    }
}

// ---------------------------------------------------------------------------
// Setting up
// ---------------------------------------------------------------------------

/// Security modes and policies have the names that OPC UA gives them.
pub proof fn security_has_its_names()
    ensures
        mode_name(SecurityMode::NoSecurity) == "None"@,
        mode_name(SecurityMode::Sign) == "Sign"@,
        mode_name(SecurityMode::SignAndEncrypt) == "SignAndEncrypt"@,
        policy_uri(SecurityPolicy::NoSecurity) == "http://opcfoundation.org/UA/SecurityPolicy#None"@,
        policy_uri(SecurityPolicy::Basic128Rsa15)
            == "http://opcfoundation.org/UA/SecurityPolicy#Basic128Rsa15"@,
        policy_uri(SecurityPolicy::Basic256)
            == "http://opcfoundation.org/UA/SecurityPolicy#Basic256"@,
        policy_uri(SecurityPolicy::Basic256Sha256)
            == "http://opcfoundation.org/UA/SecurityPolicy#Basic256Sha256"@,
{
}

/// Logins are checked exactly where a callback can check them and the configuration allows them.
/// Else anonymous clients are let in where they may be, else those with a certificate out of the
/// trust store where messages are secured, else nobody.
pub proof fn access_is_granted(cfg: OpcUaConfig, has_callback: bool)
    ensures
        ({
            let a = access_for(cfg, has_callback);
            let logins = has_callback && cfg.username_password_enabled;
            let certificates = cfg.certificates.trust_store_dir is Some && cfg.security_mode
                != SecurityMode::NoSecurity;
            &&& a is Login <==> logins
            &&& a matches Access::Login { anonymous } ==> anonymous == cfg.anonymous_enabled
            &&& a is Anonymous <==> !logins && cfg.anonymous_enabled
            &&& a is TrustedCertificates <==> !logins && !cfg.anonymous_enabled && certificates
            &&& a is RejectAll <==> !logins && !cfg.anonymous_enabled && !certificates
        }),
{
}

/// A server that secures messages needs its certificate and its private key; one that does not
/// needs neither.
pub proof fn secured_server_needs_its_files(cfg: OpcUaConfig)
    ensures
        start_fault(cfg) is None <==> cfg.security_mode == SecurityMode::NoSecurity || (
        cfg.certificates.server_certificate_path is Some
            && cfg.certificates.server_private_key_path is Some),
        start_fault(cfg) matches Some(e) ==> e is Config,
{
}

/// Settings are valid exactly where the names and URIs hold more than white space, the port is not
/// zero, and the bind address is a hostname, an IPv4 address or an IPv6 address in brackets.
pub proof fn valid_settings(
    name: Seq<char>,
    uri: Seq<char>,
    namespace: Seq<char>,
    bind: Seq<char>,
    port: u16,
)
    ensures
        settings_fault(name, uri, namespace, bind, port) is None <==> {
            &&& has_ink(name)
            &&& has_ink(uri)
            &&& has_ink(namespace)
            &&& port != 0
            &&& is_hostname(bind) || is_socket_host(bind)
        },
        !has_ink(name) ==> settings_fault(name, uri, namespace, bind, port) == Some(
            ConfigErrorView::MissingField("application_name"@),
        ),
        has_ink(name) && !has_ink(uri) ==> settings_fault(name, uri, namespace, bind, port) == Some(
            ConfigErrorView::MissingField("application_uri"@),
        ),
        has_ink(name) && has_ink(uri) && !has_ink(namespace) ==> settings_fault(
            name,
            uri,
            namespace,
            bind,
            port,
        ) == Some(ConfigErrorView::MissingField("namespace_uri"@)),
        has_ink(name) && has_ink(uri) && has_ink(namespace) && port == 0 ==> settings_fault(
            name,
            uri,
            namespace,
            bind,
            port,
        ) == Some(ConfigErrorView::InvalidPort(0)),
        host_fault(bind, port) is None <==> is_socket_host(bind),
        host_fault(bind, port) matches Some(e) ==> e == (ConfigErrorView::InvalidAddress {
            addr: bind + ":"@ + decimal(port as nat),
            reason: "invalid socket address syntax"@,
        }),
        host_port(bind, port) == bind + ":"@ + decimal(port as nat),
{
}

/// The messages of errors end in what they are about.
pub proof fn errors_are_told(s: Seq<char>, t: Seq<char>, port: u16)
    ensures
        server_error_text(ServerErrorView::Io(s)) == "IO error: "@ + s,
        server_error_text(ServerErrorView::Config(s)) == "Configuration error: "@ + s,
        server_error_text(ServerErrorView::Backend(s)) == "OPC UA backend error: "@ + s,
        server_error_text(ServerErrorView::BadRequest(s)) == "Invalid request: "@ + s,
        server_error_text(ServerErrorView::Other(s)) == "Other: "@ + s,
        config_error_text(ConfigErrorView::MissingField(s)) == "missing required field: "@ + s,
        config_error_text(ConfigErrorView::InvalidPort(port)) == "invalid port: "@ + decimal(
            port as nat,
        ),
        config_error_text(ConfigErrorView::Other(s)) == "configuration error: "@ + s,
        config_error_text(ConfigErrorView::InvalidAddress { addr: s, reason: t })
            == "invalid bind address `"@ + s + "`: "@ + t,
{
}

/// A write that could not be handed over fails. One that was handed over is answered at once where
/// writes are only queued, and after its confirmation where they are confirmed.
pub proof fn writes_are_answered_by_their_mode(source: TagDataSource, sent: bool, r: AfterSend)
    requires
        call_ensures(TagDataSource::after_send, (&source, sent), r),
    ensures
        !sent ==> r == AfterSend::Answer(Err(StatusCode::BadInternalError)),
        sent && source.write_mode == WriteMode::QueuedAck ==> r == AfterSend::Answer(Ok(())),
        sent && source.write_mode == WriteMode::ConfirmedAck ==> r == AfterSend::AwaitConfirmation(
            source.confirm_timeout_ms,
        ),
{
}

/// A confirmed write succeeds exactly where the driver replied that it did.
pub proof fn confirmed_writes_succeed_by_reply(
    confirmation: Confirmation,
    r: Result<(), StatusCode>,
)
    requires
        call_ensures(TagDataSource::after_confirmation, (&confirmation,), r),
    ensures
        r is Ok <==> (confirmation matches Confirmation::Replied(Ok(_))),
        r is Err ==> r->Err_0 == StatusCode::BadInternalError,
{
}

/// A server starts at the address and port of its configuration, with its limits, and with its
/// certificate and key where it secures messages; it trusts every client certificate exactly where
/// it has no trust store.
pub proof fn server_starts_as_configured(
    cfg: OpcUaConfig,
    has_callback: bool,
    r: Result<StartPlan, ServerError>,
)
    requires
        call_ensures(start_plan, (&cfg, has_callback), r),
    ensures
        r is Ok <==> cfg.security_mode == SecurityMode::NoSecurity || (
        cfg.certificates.server_certificate_path is Some
            && cfg.certificates.server_private_key_path is Some),
        r matches Ok(p) ==> {
            &&& p.endpoint@ == "opc.tcp://"@ + cfg.bind_addr@ + ":"@ + decimal(cfg.port as nat)
            &&& p.max_sessions == cfg.max_sessions
            &&& p.max_subscriptions == cfg.max_subscriptions
            &&& cfg.security_mode == SecurityMode::NoSecurity <==> p.security is None
            &&& p.security matches Some(s) ==> {
                &&& s.certificate_path@ == cfg.certificates.server_certificate_path->0@
                &&& s.private_key_path@ == cfg.certificates.server_private_key_path->0@
                &&& s.min_key_length == cfg.certificates.min_key_length
                &&& s.accept_all <==> cfg.certificates.trust_store_dir is None
            }
            &&& (p.access is Anonymous || p.access == (Access::Login { anonymous: true }))
                <==> cfg.anonymous_enabled
        },
{
}

/// A login callback is refused exactly where the configuration allows no logins.
pub proof fn login_callbacks_need_logins(
    cfg: OpcUaConfig,
    has_callback: bool,
    r: Result<(), ServerError>,
)
    requires
        call_ensures(check_login, (&cfg, has_callback), r),
    ensures
        r is Err <==> has_callback && !cfg.username_password_enabled,
{
}

/// A write that a client asks for is handed over for the tag of the node, with the value that was
/// written, and with a place for the confirmation exactly where one is awaited.
pub proof fn writes_are_handed_over(
    source: TagDataSource,
    registry: TagRegistry,
    variant: Option<&Variant>,
    reply: ReplyId,
    r: Result<BridgeWrite, StatusCode>,
)
    requires
        call_ensures(TagDataSource::write, (&source, &registry, variant, reply), r),
    ensures
        r is Ok <==> {
            &&& variant is Some
            &&& registry@.definitions.contains_key(source.tag_id@)
            &&& held_type(variant->0@) == Some(registry@.definitions[source.tag_id@].data_type)
        },
        r matches Ok(w) ==> {
            &&& w@.tag_id == source.tag_id@
            &&& type_of(w@.value) == registry@.definitions[source.tag_id@].data_type
            &&& !(w@.value is DateTime) ==> variant_of(w@.value) == Some(variant->0@)
            &&& w@.reply == Some(reply) <==> source.write_mode == WriteMode::ConfirmedAck
            &&& w@.reply is None <==> source.write_mode == WriteMode::QueuedAck
        },
{
    let v = match variant {
        Some(v) => Some(v@),
        None => None,
    };
    writes_need_the_defined_type(registry@, source.tag_id@, v);
}

/// What is known of a variant and of what a client reads is what they hold.
pub proof fn values_say_what_they_hold(v: Variant, d: DataValue)
    ensures
        match v {
            Variant::Boolean(x) => v@ == VariantView::Boolean(x),
            Variant::Int16(x) => v@ == VariantView::Int16(x),
            Variant::UInt16(x) => v@ == VariantView::UInt16(x),
            Variant::Int32(x) => v@ == VariantView::Int32(x),
            Variant::UInt32(x) => v@ == VariantView::UInt32(x),
            Variant::Int64(x) => v@ == VariantView::Int64(x),
            Variant::UInt64(x) => v@ == VariantView::UInt64(x),
            Variant::Float(x) => v@ == VariantView::Float(x.bits),
            Variant::Double(x) => v@ == VariantView::Double(x.bits),
            Variant::String(x) => v@ == VariantView::String(x@),
            Variant::DateTime(x) => v@ == VariantView::DateTime(x),
            Variant::ByteString(x) => v@ == VariantView::ByteString(x@),
            Variant::Other => v@ is Other,
        },
        d@.variant == d.variant@,
        d@.status == d.status,
        d@.source_nanos == d.source_nanos,
        d@.server_nanos == d.server_nanos,
{
}

} // verus!
