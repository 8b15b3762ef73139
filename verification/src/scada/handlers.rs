//! What the SCADA handlers decide: the validation of each payload and the
//! answer to each result that the database gives back.

use vstd::prelude::*;

use crate::error::{rejected, AppError};
use crate::json::{entries_contain_key, has_key, json_eq, JsonValue};
use crate::scada::models::{
    protocol_debug_name, AssetPayload, AssetRow, ConnectionPayload, ConnectionRow, DataType,
    Protocol, SchedulePayload, ScheduleRow, SitePayload, TagPayload, TagRow, TriggerType,
};
use crate::ids::{is_uuid_v4_text, new_id};
use crate::text::{is_blank, is_blank_str, same_text, trim, trim_string};

verus! {

// ================= Sites =================

pub fn validate_site_payload(payload: &SitePayload) -> (r: Result<(), AppError>)
    ensures
        r is Ok <==> !is_blank(payload.name@),
        r is Err ==> rejected(r, "El nombre del site es obligatorio"@),
{
    if is_blank_str(payload.name.as_str()) {
        return Err(AppError::BadRequest("El nombre del site es obligatorio".to_string()));
    }
    Ok(())
}

// ================= Assets =================

pub fn validate_asset_payload(payload: &AssetPayload) -> (r: Result<(), AppError>)
    ensures
        r is Ok <==> !is_blank(payload.name@) && !is_blank(payload.kind@),
        is_blank(payload.name@) ==> rejected(r, "El nombre del asset es obligatorio"@),
        !is_blank(payload.name@) && is_blank(payload.kind@) ==> rejected(
            r,
            "El kind del asset es obligatorio"@,
        ),
{
    if is_blank_str(payload.name.as_str()) {
        return Err(AppError::BadRequest("El nombre del asset es obligatorio".to_string()));
    }
    if is_blank_str(payload.kind.as_str()) {
        return Err(AppError::BadRequest("El kind del asset es obligatorio".to_string()));
    }
    Ok(())
}

// ================= Connections and tags: keys a JSON object must hold =================

/// Keys that a connection's `config` must hold for each protocol.
pub open spec fn config_keys(p: Protocol) -> Seq<Seq<char>> {
    match p {
        Protocol::Opcua => seq!["endpoint_url"@, "security_policy"@, "credentials_ref"@],
        Protocol::Mqtt => seq!["broker_url"@, "base_topic"@, "qos"@, "tls"@],
        Protocol::S7 => seq!["ip"@, "rack"@, "slot"@],
    }
}

/// Keys that a tag's `address` must hold for each protocol of its connection.
pub open spec fn address_keys(p: Protocol) -> Seq<Seq<char>> {
    match p {
        Protocol::Opcua => seq!["node_id"@],
        Protocol::Mqtt => seq!["topic"@, "json_pointer"@],
        Protocol::S7 => seq!["db_number"@, "offset"@, "bit"@, "s7_type"@],
    }
}

/// The first of `keys` that the object does not hold, if any.
pub open spec fn first_missing_key(
    entries: Seq<(String, JsonValue)>,
    keys: Seq<Seq<char>>,
) -> Option<Seq<char>>
    decreases keys.len(),
{
    if keys.len() == 0 {
        None
    } else if !has_key(entries, keys[0]) {
        Some(keys[0])
    } else {
        first_missing_key(entries, keys.subrange(1, keys.len() as int))
    }
}

/// What a JSON object named `field` (`config` or `address`) is answered
/// with, for a connection of protocol `p` that requires `keys`.
pub open spec fn required_keys_outcome(
    field: Seq<char>,
    p: Protocol,
    value: JsonValue,
    keys: Seq<Seq<char>>,
) -> Option<Seq<char>> {
    match value {
        JsonValue::Object(entries) => match first_missing_key(entries@, keys) {
            Some(k) => Some(field + "."@ + k + " es obligatorio para el protocolo "@
                + protocol_debug_name(p)),
            None => None,
        },
        _ => Some(field + " debe ser un objeto JSON"@),
    }
}

proof fn lemma_first_missing_step(entries: Seq<(String, JsonValue)>, keys: Seq<Seq<char>>, i: int)
    requires
        0 <= i < keys.len(),
        forall|j: int| 0 <= j < i ==> has_key(entries, #[trigger] keys[j]),
    ensures
        first_missing_key(entries, keys) == first_missing_key(
            entries,
            keys.subrange(i, keys.len() as int),
        ),
    decreases i,
{
    if i > 0 {
        let rest = keys.subrange(1, keys.len() as int);
        assert forall|j: int| 0 <= j < i - 1 implies has_key(entries, #[trigger] rest[j]) by {
            assert(rest[j] == keys[j + 1]);
        }
        assert(has_key(entries, keys[0]));
        lemma_first_missing_step(entries, rest, i - 1);
        assert(rest.subrange(i - 1, rest.len() as int) =~= keys.subrange(i, keys.len() as int));
    } else {
        assert(keys.subrange(0, keys.len() as int) =~= keys);
    }
}

proof fn lemma_none_missing(entries: Seq<(String, JsonValue)>, keys: Seq<Seq<char>>)
    requires
        forall|j: int| 0 <= j < keys.len() ==> has_key(entries, #[trigger] keys[j]),
    ensures
        first_missing_key(entries, keys) is None,
    decreases keys.len(),
{
    if keys.len() > 0 {
        let rest = keys.subrange(1, keys.len() as int);
        assert forall|j: int| 0 <= j < rest.len() implies has_key(entries, #[trigger] rest[j]) by {
            assert(rest[j] == keys[j + 1]);
        }
        assert(has_key(entries, keys[0]));
        lemma_none_missing(entries, rest);
    }
}

proof fn lemma_missing_found(entries: Seq<(String, JsonValue)>, keys: Seq<Seq<char>>, j: int)
    requires
        0 <= j < keys.len(),
        !has_key(entries, keys[j]),
    ensures
        first_missing_key(entries, keys) is Some,
    decreases keys.len(),
{
    if j > 0 && has_key(entries, keys[0]) {
        let rest = keys.subrange(1, keys.len() as int);
        assert(rest[j - 1] == keys[j]);
        lemma_missing_found(entries, rest, j - 1);
    }
}

/// An object lacks none of `keys` exactly when it holds every one of them.
proof fn lemma_none_missing_iff(entries: Seq<(String, JsonValue)>, keys: Seq<Seq<char>>)
    ensures
        first_missing_key(entries, keys) is None <==> forall|j: int|
            0 <= j < keys.len() ==> has_key(entries, #[trigger] keys[j]),
{
    if forall|j: int| 0 <= j < keys.len() ==> has_key(entries, #[trigger] keys[j]) {
        lemma_none_missing(entries, keys);
    } else {
        let j = choose|j: int| !(0 <= j < keys.len() ==> has_key(entries, #[trigger] keys[j]));
        lemma_missing_found(entries, keys, j);
    }
}

/// Whether `value` is a JSON object holding each of `keys`.
pub open spec fn object_holding(value: JsonValue, keys: Seq<Seq<char>>) -> bool {
    value matches JsonValue::Object(entries) && forall|j: int|
        0 <= j < keys.len() ==> has_key(entries@, #[trigger] keys[j])
}

proof fn lemma_outcome_none_iff(field: Seq<char>, p: Protocol, value: JsonValue, keys: Seq<Seq<char>>)
    ensures
        required_keys_outcome(field, p, value, keys) is None <==> object_holding(value, keys),
{
    if let JsonValue::Object(entries) = value {
        lemma_none_missing_iff(entries@, keys);
    }
}

/// Checks that `value` is an object holding every key of `keys`; the error
/// names the field, the first missing key and the protocol.
fn require_keys(field: &str, p: Protocol, value: &JsonValue, keys: &Vec<&'static str>) -> (r:
    Result<(), AppError>)
    ensures
        match required_keys_outcome(field@, p, *value, keys@.map_values(|k: &str| k@)) {
            None => r is Ok,
            Some(m) => rejected(r, m),
        },
{
    let ghost key_views = keys@.map_values(|k: &str| k@);
    let entries = match value {
        JsonValue::Object(entries) => entries,
        _ => {
            let mut m = field.to_string();
            m.append(" debe ser un objeto JSON");
            return Err(AppError::BadRequest(m));
        },
    };
    let mut i: usize = 0;
    while i < keys.len()
        invariant
            *value == JsonValue::Object(*entries),
            key_views == keys@.map_values(|k: &str| k@),
            i <= keys@.len(),
            forall|j: int| 0 <= j < i ==> has_key(entries@, #[trigger] key_views[j]),
        decreases keys@.len() - i,
    {
        let key = keys[i];
        if !entries_contain_key(entries, key) {
            proof {
                lemma_first_missing_step(entries@, key_views, i as int);
            }
            let mut m = field.to_string();
            m.append(".");
            m.append(key);
            m.append(" es obligatorio para el protocolo ");
            m.append(p.debug_name());
            return Err(AppError::BadRequest(m));
        }
        i = i + 1;
    }
    proof {
        lemma_none_missing(entries@, key_views);
    }
    Ok(())
}

pub fn validate_connection_config(protocol: Protocol, config: &JsonValue) -> (r: Result<
    (),
    AppError,
>)
    ensures
        match required_keys_outcome("config"@, protocol, *config, config_keys(protocol)) {
            None => r is Ok,
            Some(m) => rejected(r, m),
        },
        r is Ok <==> match protocol {
            Protocol::Opcua => object_holding(
                *config,
                seq!["endpoint_url"@, "security_policy"@, "credentials_ref"@],
            ),
            Protocol::Mqtt => object_holding(
                *config,
                seq!["broker_url"@, "base_topic"@, "qos"@, "tls"@],
            ),
            Protocol::S7 => object_holding(*config, seq!["ip"@, "rack"@, "slot"@]),
        },
{
    proof {
        lemma_outcome_none_iff("config"@, protocol, *config, config_keys(protocol));
    }
    let keys: Vec<&'static str> = match protocol {
        Protocol::Opcua => vec!["endpoint_url", "security_policy", "credentials_ref"],
        Protocol::Mqtt => vec!["broker_url", "base_topic", "qos", "tls"],
        Protocol::S7 => vec!["ip", "rack", "slot"],
    };
    assert(keys@.map_values(|k: &str| k@) =~= config_keys(protocol));
    require_keys("config", protocol, config, &keys)
}

pub fn validate_connection_payload(payload: &ConnectionPayload) -> (r: Result<(), AppError>)
    ensures
        is_blank(payload.name@) ==> rejected(r, "El nombre de la conexión es obligatorio"@),
        !is_blank(payload.name@) ==> match required_keys_outcome(
            "config"@,
            payload.protocol,
            payload.config,
            config_keys(payload.protocol),
        ) {
            None => r is Ok,
            Some(m) => rejected(r, m),
        },
{
    if is_blank_str(payload.name.as_str()) {
        return Err(AppError::BadRequest("El nombre de la conexión es obligatorio".to_string()));
    }
    validate_connection_config(payload.protocol, &payload.config)
}

pub fn validate_tag_address(protocol: Protocol, address: &JsonValue) -> (r: Result<(), AppError>)
    ensures
        match required_keys_outcome("address"@, protocol, *address, address_keys(protocol)) {
            None => r is Ok,
            Some(m) => rejected(r, m),
        },
        r is Ok <==> match protocol {
            Protocol::Opcua => object_holding(*address, seq!["node_id"@]),
            Protocol::Mqtt => object_holding(*address, seq!["topic"@, "json_pointer"@]),
            Protocol::S7 => object_holding(
                *address,
                seq!["db_number"@, "offset"@, "bit"@, "s7_type"@],
            ),
        },
{
    proof {
        lemma_outcome_none_iff("address"@, protocol, *address, address_keys(protocol));
    }
    let keys: Vec<&'static str> = match protocol {
        Protocol::Opcua => vec!["node_id"],
        Protocol::Mqtt => vec!["topic", "json_pointer"],
        Protocol::S7 => vec!["db_number", "offset", "bit", "s7_type"],
    };
    assert(keys@.map_values(|k: &str| k@) =~= address_keys(protocol));
    require_keys("address", protocol, address, &keys)
}

/// The address a tag needs for each protocol of its connection is an
/// object holding the documented keys: `node_id` for OPC UA; `topic` and
/// `json_pointer` for MQTT; `db_number`, `offset`, `bit` and `s7_type` for S7.
pub proof fn law_tag_address_keys(p: Protocol, address: JsonValue)
    ensures
        required_keys_outcome("address"@, p, address, address_keys(p)) is None <==> match p {
            Protocol::Opcua => object_holding(address, seq!["node_id"@]),
            Protocol::Mqtt => object_holding(address, seq!["topic"@, "json_pointer"@]),
            Protocol::S7 => object_holding(
                address,
                seq!["db_number"@, "offset"@, "bit"@, "s7_type"@],
            ),
        },
{
    lemma_outcome_none_iff("address"@, p, address, address_keys(p));
}

/// The config a connection needs for each protocol is an object holding
/// the documented keys: `endpoint_url`, `security_policy` and
/// `credentials_ref` for OPC UA; `broker_url`, `base_topic`, `qos` and
/// `tls` for MQTT; `ip`, `rack` and `slot` for S7.
pub proof fn law_connection_config_keys(p: Protocol, config: JsonValue)
    ensures
        required_keys_outcome("config"@, p, config, config_keys(p)) is None <==> match p {
            Protocol::Opcua => object_holding(
                config,
                seq!["endpoint_url"@, "security_policy"@, "credentials_ref"@],
            ),
            Protocol::Mqtt => object_holding(
                config,
                seq!["broker_url"@, "base_topic"@, "qos"@, "tls"@],
            ),
            Protocol::S7 => object_holding(config, seq!["ip"@, "rack"@, "slot"@]),
        },
{
    lemma_outcome_none_iff("config"@, p, config, config_keys(p));
}

/// The bounds of the tag are inverted: both are given and `min > max`.
pub open spec fn bounds_inverted(payload: TagPayload) -> bool {
    payload.min_value matches Some(min) && payload.max_value matches Some(max) && min.spec_gt(max)
}

pub fn validate_tag_payload(payload: &TagPayload) -> (r: Result<(), AppError>)
    ensures
        r is Ok <==> !is_blank(payload.name@) && !bounds_inverted(*payload) && !(
        payload.data_type == DataType::Enum && payload.allowed_values is None),
        is_blank(payload.name@) ==> rejected(r, "El nombre del tag es obligatorio"@),
        !is_blank(payload.name@) && bounds_inverted(*payload) ==> rejected(
            r,
            "min_value no puede ser mayor a max_value"@,
        ),
        !is_blank(payload.name@) && !bounds_inverted(*payload) && payload.data_type
            == DataType::Enum && payload.allowed_values is None ==> rejected(
            r,
            "Los tags de tipo enum requieren allowed_values"@,
        ),
{
    if is_blank_str(payload.name.as_str()) {
        return Err(AppError::BadRequest("El nombre del tag es obligatorio".to_string()));
    }
    match (&payload.min_value, &payload.max_value) {
        (Some(min), Some(max)) => {
            if min.gt(max) {
                return Err(
                    AppError::BadRequest("min_value no puede ser mayor a max_value".to_string()),
                );
            }
        },
        _ => {},
    }
    if payload.data_type == DataType::Enum && payload.allowed_values.is_none() {
        return Err(
            AppError::BadRequest("Los tags de tipo enum requieren allowed_values".to_string()),
        );
    }
    Ok(())
}

// ================= Schedules =================

/// A `cron` schedule without an expression, or with a blank one.
pub open spec fn cron_expr_missing(payload: SchedulePayload) -> bool {
    match payload.cron_expr {
        Some(e) => is_blank(e@),
        None => true,
    }
}

/// The field that the schedule's trigger requires and lacks; a trigger
/// other than `once` and `cron` is never met.
pub open spec fn trigger_requirement_unmet(payload: SchedulePayload) -> bool {
    match payload.trigger_type {
        TriggerType::Once => payload.start_date is None,
        TriggerType::Cron => cron_expr_missing(payload),
        TriggerType::CalendarEvent => true,
    }
}

/// A schedule's trigger has what it needs exactly when a `once` schedule
/// has a `start_date` or a `cron` schedule has a `cron_expr` that is not
/// blank; no other trigger is met.
pub proof fn law_schedule_trigger_requirements(p: SchedulePayload)
    ensures
        !trigger_requirement_unmet(p) <==> match p.trigger_type {
            TriggerType::Once => p.start_date is Some,
            TriggerType::Cron => p.cron_expr matches Some(e) && !is_blank(e@),
            TriggerType::CalendarEvent => false,
        },
{
}

pub fn validate_schedule_payload(payload: &SchedulePayload) -> (r: Result<(), AppError>)
    ensures
        r is Ok <==> !is_blank(payload.name@) && !trigger_requirement_unmet(*payload),
        is_blank(payload.name@) ==> rejected(r, "El nombre de la programación es obligatorio"@),
        !is_blank(payload.name@) && payload.trigger_type == TriggerType::Once
            && payload.start_date is None ==> rejected(
            r,
            "Una programación 'once' requiere start_date"@,
        ),
        !is_blank(payload.name@) && payload.trigger_type == TriggerType::Cron && cron_expr_missing(
            *payload,
        ) ==> rejected(r, "Una programación 'cron' requiere cron_expr"@),
        !is_blank(payload.name@) && payload.trigger_type == TriggerType::CalendarEvent ==> rejected(
            r,
            "trigger_type debe ser 'once' o 'cron'"@,
        ),
        r is Ok ==> payload.trigger_type == TriggerType::Once || payload.trigger_type
            == TriggerType::Cron,
        r is Ok <==> !is_blank(payload.name@) && match payload.trigger_type {
            TriggerType::Once => payload.start_date is Some,
            TriggerType::Cron => payload.cron_expr matches Some(e) && !is_blank(e@),
            TriggerType::CalendarEvent => false,
        },
{
    if is_blank_str(payload.name.as_str()) {
        return Err(
            AppError::BadRequest("El nombre de la programación es obligatorio".to_string()),
        );
    }
    match payload.trigger_type {
        TriggerType::Once => {
            if payload.start_date.is_none() {
                return Err(
                    AppError::BadRequest(
                        "Una programación 'once' requiere start_date".to_string(),
                    ),
                );
            }
        },
        TriggerType::Cron => {
            let missing = match &payload.cron_expr {
                Some(e) => is_blank_str(e.as_str()),
                None => true,
            };
            if missing {
                return Err(
                    AppError::BadRequest("Una programación 'cron' requiere cron_expr".to_string()),
                );
            }
        },
        TriggerType::CalendarEvent => {
            return Err(AppError::BadRequest("trigger_type debe ser 'once' o 'cron'".to_string()));
        },
    }
    Ok(())
}

/// Whether `target` fits a tag of this data type and allowed values.
pub open spec fn target_value_fits(
    data_type: DataType,
    allowed_values: Option<JsonValue>,
    target: JsonValue,
) -> bool {
    match data_type {
        DataType::Bool => target is Bool,
        DataType::Int => target matches JsonValue::Number(n) && !(n is Float),
        DataType::Float => target is Number,
        DataType::Enum => match allowed_values {
            Some(JsonValue::Array(values)) => exists|i: int|
                0 <= i < values@.len() && json_eq(#[trigger] values@[i], target),
            _ => true,
        },
    }
}

pub fn validate_target_value(
    data_type: DataType,
    allowed_values: Option<&JsonValue>,
    target_value: &JsonValue,
) -> (r: Result<(), AppError>)
    ensures
        r is Ok <==> target_value_fits(
            data_type,
            match allowed_values {
                Some(v) => Some(*v),
                None => None,
            },
            *target_value,
        ),
        r is Err ==> rejected(r, "target_value no es compatible con el data_type del tag"@),
{
    let valid = match data_type {
        DataType::Bool => target_value.is_boolean(),
        DataType::Int => target_value.is_integer(),
        DataType::Float => target_value.is_number(),
        DataType::Enum => match allowed_values {
            Some(JsonValue::Array(values)) => crate::json::array_contains(values, target_value),
            _ => true,
        },
    };
    if !valid {
        return Err(
            AppError::BadRequest(
                "target_value no es compatible con el data_type del tag".to_string(),
            ),
        );
    }
    Ok(())
}

// ================= Records to store =================
// What a create or update handler writes: the payload with the names it
// stores trimmed; a create also draws a fresh id.

pub fn stored_site(payload: SitePayload) -> (r: SitePayload)
    ensures
        r.name@ == trim(payload.name@),
{
    SitePayload { name: trim_string(payload.name.as_str()) }
}

pub fn stored_asset(payload: AssetPayload) -> (r: AssetPayload)
    ensures
        r.site_id == payload.site_id,
        r.parent_asset_id == payload.parent_asset_id,
        r.name@ == trim(payload.name@),
        r.kind@ == trim(payload.kind@),
{
    let name = trim_string(payload.name.as_str());
    let kind = trim_string(payload.kind.as_str());
    AssetPayload { name, kind, ..payload }
}

pub fn stored_connection(payload: ConnectionPayload) -> (r: ConnectionPayload)
    ensures
        r.asset_id == payload.asset_id,
        r.name@ == trim(payload.name@),
        r.protocol == payload.protocol,
        r.config == payload.config,
{
    let name = trim_string(payload.name.as_str());
    ConnectionPayload { name, ..payload }
}

pub fn stored_tag(payload: TagPayload) -> (r: TagPayload)
    ensures
        r.name@ == trim(payload.name@),
        r == (TagPayload { name: r.name, ..payload }),
{
    let name = trim_string(payload.name.as_str());
    TagPayload { name, ..payload }
}

pub fn stored_schedule(payload: SchedulePayload) -> (r: SchedulePayload)
    ensures
        r.name@ == trim(payload.name@),
        r == (SchedulePayload { name: r.name, ..payload }),
{
    let name = trim_string(payload.name.as_str());
    SchedulePayload { name, ..payload }
}

pub fn new_site_record(payload: SitePayload) -> (r: (String, SitePayload))
    ensures
        is_uuid_v4_text(r.0@),
        r.1.name@ == trim(payload.name@),
{
    (new_id(), stored_site(payload))
}

pub fn new_asset_record(payload: AssetPayload) -> (r: (String, AssetPayload))
    ensures
        is_uuid_v4_text(r.0@),
        r.1.site_id == payload.site_id,
        r.1.parent_asset_id == payload.parent_asset_id,
        r.1.name@ == trim(payload.name@),
        r.1.kind@ == trim(payload.kind@),
{
    (new_id(), stored_asset(payload))
}

pub fn new_connection_record(payload: ConnectionPayload) -> (r: (String, ConnectionPayload))
    ensures
        is_uuid_v4_text(r.0@),
        r.1.asset_id == payload.asset_id,
        r.1.name@ == trim(payload.name@),
        r.1.protocol == payload.protocol,
        r.1.config == payload.config,
{
    (new_id(), stored_connection(payload))
}

pub fn new_tag_record(payload: TagPayload) -> (r: (String, TagPayload))
    ensures
        is_uuid_v4_text(r.0@),
        r.1.name@ == trim(payload.name@),
        r.1 == (TagPayload { name: r.1.name, ..payload }),
{
    (new_id(), stored_tag(payload))
}

pub fn new_schedule_record(payload: SchedulePayload) -> (r: (String, SchedulePayload))
    ensures
        is_uuid_v4_text(r.0@),
        r.1.name@ == trim(payload.name@),
        r.1 == (SchedulePayload { name: r.1.name, ..payload }),
{
    (new_id(), stored_schedule(payload))
}

// ================= Answers to what the database gave back =================

/// The site an asset names must exist.
pub fn check_site_exists(site_count: i64) -> (r: Result<(), AppError>)
    ensures
        r is Ok <==> site_count != 0,
        r is Err ==> rejected(r, "El site referenciado no existe"@),
{
    if site_count == 0 {
        return Err(AppError::BadRequest("El site referenciado no existe".to_string()));
    }
    Ok(())
}

/// The parent that must be looked up for an asset being created (`self_id`
/// is `None`) or edited: none without a parent, an error when the asset
/// would be its own parent.
pub fn asset_parent_to_check(payload: &AssetPayload, self_id: Option<&String>) -> (r: Result<
    Option<String>,
    AppError,
>)
    ensures
        match payload.parent_asset_id {
            None => r == Ok::<Option<String>, AppError>(None),
            Some(p) => if self_id matches Some(s) && s@ == p@ {
                rejected(r, "Un asset no puede ser su propio padre"@)
            } else {
                r matches Ok(Some(q)) && q@ == p@
            },
        },
{
    match &payload.parent_asset_id {
        None => Ok(None),
        Some(parent_id) => {
            if let Some(s) = self_id {
                if same_text(parent_id.as_str(), s.as_str()) {
                    return Err(
                        AppError::BadRequest("Un asset no puede ser su propio padre".to_string()),
                    );
                }
            }
            Ok(Some(parent_id.clone()))
        },
    }
}

/// The parent's site (`None` when no asset has the parent's id) must be the
/// asset's own site.
pub fn check_parent_site(payload: &AssetPayload, parent_site: Option<String>) -> (r: Result<
    (),
    AppError,
>)
    ensures
        match parent_site {
            None => rejected(r, "El asset padre referenciado no existe"@),
            Some(s) => if s@ == payload.site_id@ {
                r is Ok
            } else {
                rejected(r, "El asset padre debe pertenecer al mismo site"@)
            },
        },
{
    match parent_site {
        None => Err(AppError::BadRequest("El asset padre referenciado no existe".to_string())),
        Some(site_id) => {
            if !(site_id == payload.site_id) {
                return Err(
                    AppError::BadRequest(
                        "El asset padre debe pertenecer al mismo site".to_string(),
                    ),
                );
            }
            Ok(())
        },
    }
}

// ================= The checks of an asset, step by step =================
// `create_asset` and `update_asset` check the payload, then that its site
// exists, then (when it names a parent) that the parent is not the asset
// itself, exists, and lies in the same site, asking the database between
// the steps. `next_asset_check` decides each step.

/// What the checks of an asset payload have learnt.
pub enum AssetCheckEvent {
    /// The payload has arrived; the database has not been asked anything.
    Received,
    /// How many sites have the payload's `site_id`.
    SitesCounted(i64),
    /// The site of the parent asset, `None` when no asset has the parent's id.
    ParentFound(Option<String>),
}

/// What the checks of an asset payload do next.
pub enum AssetCheckAction {
    /// Count the sites with this id.
    CountSites(String),
    /// Look up the site of the asset with this id.
    LookUpParent(String),
    /// Every check passed: the asset may be stored.
    Accept,
    /// A check failed: answer with this error.
    Refuse(AppError),
}

/// Why the payload's own fields are refused, if they are.
pub open spec fn asset_fields_refusal(p: AssetPayload) -> Option<Seq<char>> {
    if is_blank(p.name@) {
        Some("El nombre del asset es obligatorio"@)
    } else if is_blank(p.kind@) {
        Some("El kind del asset es obligatorio"@)
    } else {
        None
    }
}

/// Why the site is refused, if it is: it must exist.
pub open spec fn asset_site_refusal(site_count: i64) -> Option<Seq<char>> {
    if site_count == 0 {
        Some("El site referenciado no existe"@)
    } else {
        None
    }
}

/// The text of an optional id.
pub open spec fn id_view(id: Option<&String>) -> Option<Seq<char>> {
    match id {
        Some(s) => Some(s@),
        None => None,
    }
}

/// Whether the payload names, as parent, the asset being edited.
pub open spec fn own_parent(p: AssetPayload, self_id: Option<Seq<char>>) -> bool {
    p.parent_asset_id matches Some(parent) && self_id == Some(parent@)
}

/// Why the parent is refused once its site is known, if it is: it must
/// exist and lie in the asset's site.
pub open spec fn asset_parent_refusal(p: AssetPayload, parent_site: Option<String>) -> Option<
    Seq<char>,
> {
    match parent_site {
        None => Some("El asset padre referenciado no existe"@),
        Some(site) => if site@ == p.site_id@ {
            None
        } else {
            Some("El asset padre debe pertenecer al mismo site"@)
        },
    }
}

/// What a run of the checks answers, given what the database said (the
/// parent's site is only asked for when the payload names a parent): the
/// first refusal in the order the checks run; `None` when the asset is accepted.
pub open spec fn asset_checks_refusal(
    p: AssetPayload,
    self_id: Option<Seq<char>>,
    site_count: i64,
    parent_site: Option<String>,
) -> Option<Seq<char>> {
    if asset_fields_refusal(p) is Some {
        asset_fields_refusal(p)
    } else if asset_site_refusal(site_count) is Some {
        asset_site_refusal(site_count)
    } else if p.parent_asset_id is None {
        None
    } else if own_parent(p, self_id) {
        Some("Un asset no puede ser su propio padre"@)
    } else {
        asset_parent_refusal(p, parent_site)
    }
}

/// The next step of the checks of `payload` (for the asset `self_id` when
/// it is being edited), given what was last learnt.
pub fn next_asset_check(payload: &AssetPayload, self_id: Option<&String>, event: AssetCheckEvent) -> (r:
    AssetCheckAction)
    ensures
        match event {
            AssetCheckEvent::Received => match asset_fields_refusal(*payload) {
                None => r matches AssetCheckAction::CountSites(id) && id@ == payload.site_id@,
                Some(m) => r matches AssetCheckAction::Refuse(e) && e.is_bad_request(m),
            },
            AssetCheckEvent::SitesCounted(n) => match asset_site_refusal(n) {
                Some(m) => r matches AssetCheckAction::Refuse(e) && e.is_bad_request(m),
                None => match payload.parent_asset_id {
                    None => r is Accept,
                    Some(parent) => if own_parent(*payload, id_view(self_id)) {
                        r matches AssetCheckAction::Refuse(e) && e.is_bad_request(
                            "Un asset no puede ser su propio padre"@,
                        )
                    } else {
                        r matches AssetCheckAction::LookUpParent(id) && id@ == parent@
                    },
                },
            },
            AssetCheckEvent::ParentFound(site) => match asset_parent_refusal(*payload, site) {
                None => r is Accept,
                Some(m) => r matches AssetCheckAction::Refuse(e) && e.is_bad_request(m),
            },
        },
{
    match event {
        AssetCheckEvent::Received => match validate_asset_payload(payload) {
            Ok(()) => AssetCheckAction::CountSites(payload.site_id.clone()),
            Err(e) => AssetCheckAction::Refuse(e),
        },
        AssetCheckEvent::SitesCounted(n) => match check_site_exists(n) {
            Err(e) => AssetCheckAction::Refuse(e),
            Ok(()) => match asset_parent_to_check(payload, self_id) {
                Ok(None) => AssetCheckAction::Accept,
                Ok(Some(parent)) => AssetCheckAction::LookUpParent(parent),
                Err(e) => AssetCheckAction::Refuse(e),
            },
        },
        AssetCheckEvent::ParentFound(site) => match check_parent_site(payload, site) {
            Ok(()) => AssetCheckAction::Accept,
            Err(e) => AssetCheckAction::Refuse(e),
        },
    }
}

/// An asset is accepted exactly when every check passes: its fields, its
/// site, and its parent when it names one (not itself, existing, in the
/// same site). In particular an accepted asset's parent lies in its site.
pub proof fn law_asset_accepted_when_every_check_passes(
    p: AssetPayload,
    self_id: Option<Seq<char>>,
    site_count: i64,
    parent_site: Option<String>,
)
    ensures
        asset_checks_refusal(p, self_id, site_count, parent_site) is None <==> {
            &&& !is_blank(p.name@)
            &&& !is_blank(p.kind@)
            &&& site_count != 0
            &&& (p.parent_asset_id is Some ==> !own_parent(p, self_id) && (parent_site matches Some(
                site,
            ) && site@ == p.site_id@))
        },
{
}

/// The asset a connection names must exist.
pub fn check_asset_exists(asset_count: i64) -> (r: Result<(), AppError>)
    ensures
        r is Ok <==> asset_count != 0,
        r is Err ==> rejected(r, "El asset referenciado no existe"@),
{
    if asset_count == 0 {
        return Err(AppError::BadRequest("El asset referenciado no existe".to_string()));
    }
    Ok(())
}

/// The connection a tag names must exist and belong to the tag's asset;
/// its protocol is what the tag's address is checked against.
pub fn check_tag_connection(connection: Option<(String, Protocol)>, asset_id: &String) -> (r:
    Result<Protocol, AppError>)
    ensures
        match connection {
            None => rejected(r, "La conexión referenciada no existe"@),
            Some((conn_asset, protocol)) => if conn_asset@ == asset_id@ {
                r == Ok::<Protocol, AppError>(protocol)
            } else {
                rejected(r, "El tag debe pertenecer al mismo asset que su conexión"@)
            },
        },
{
    match connection {
        None => Err(AppError::BadRequest("La conexión referenciada no existe".to_string())),
        Some((conn_asset, protocol)) => {
            if !(conn_asset == *asset_id) {
                return Err(
                    AppError::BadRequest(
                        "El tag debe pertenecer al mismo asset que su conexión".to_string(),
                    ),
                );
            }
            Ok(protocol)
        },
    }
}

/// No other tag of the connection may have the same name.
pub fn check_tag_name_available(duplicates: i64) -> (r: Result<(), AppError>)
    ensures
        r is Ok <==> duplicates <= 0,
        r is Err ==> rejected(r, "Ya existe un tag con ese nombre en la conexión"@),
{
    if duplicates > 0 {
        return Err(
            AppError::BadRequest("Ya existe un tag con ese nombre en la conexión".to_string()),
        );
    }
    Ok(())
}

// ================= The checks of a tag, step by step =================
// `create_tag` and `update_tag` check the payload, then the connection it
// names, then the other tags of that connection with the same name, asking
// the database between the steps. `next_tag_check` decides each step.

/// What the checks of a tag payload have learnt.
pub enum TagCheckEvent {
    /// The payload has arrived; the database has not been asked anything.
    Received,
    /// The connection the payload names: its asset and protocol, `None`
    /// when no connection has that id.
    ConnectionFound(Option<(String, Protocol)>),
    /// How many other tags of the connection carry the payload's trimmed name.
    NamesakesCounted(i64),
}

/// What the checks of a tag payload do next.
pub enum TagCheckAction {
    /// Look up the connection with this id.
    LookUpConnection(String),
    /// Count the other tags of the connection (first) with the name (second).
    CountNamesakes(String, String),
    /// Every check passed: the tag may be stored.
    Accept,
    /// A check failed: answer with this error.
    Refuse(AppError),
}

/// Why the payload's own fields are refused, if they are.
pub open spec fn tag_fields_refusal(p: TagPayload) -> Option<Seq<char>> {
    if is_blank(p.name@) {
        Some("El nombre del tag es obligatorio"@)
    } else if bounds_inverted(p) {
        Some("min_value no puede ser mayor a max_value"@)
    } else if p.data_type == DataType::Enum && p.allowed_values is None {
        Some("Los tags de tipo enum requieren allowed_values"@)
    } else {
        None
    }
}

/// Why the connection found for the payload is refused, if it is: it must
/// exist, belong to the tag's asset, and its protocol's address keys must
/// be in the tag's address.
pub open spec fn tag_connection_refusal(p: TagPayload, c: Option<(String, Protocol)>) -> Option<
    Seq<char>,
> {
    match c {
        None => Some("La conexión referenciada no existe"@),
        Some((asset, protocol)) => if asset@ != p.asset_id@ {
            Some("El tag debe pertenecer al mismo asset que su conexión"@)
        } else {
            required_keys_outcome("address"@, protocol, p.address, address_keys(protocol))
        },
    }
}

/// Why the name is refused, if it is: no other tag of the connection may carry it.
pub open spec fn tag_name_refusal(namesakes: i64) -> Option<Seq<char>> {
    if namesakes > 0 {
        Some("Ya existe un tag con ese nombre en la conexión"@)
    } else {
        None
    }
}

/// What a run of the checks answers, given what the database said: the
/// first refusal, in the order the checks run; `None` when the tag is accepted.
pub open spec fn tag_checks_refusal(
    p: TagPayload,
    c: Option<(String, Protocol)>,
    namesakes: i64,
) -> Option<Seq<char>> {
    if tag_fields_refusal(p) is Some {
        tag_fields_refusal(p)
    } else if tag_connection_refusal(p, c) is Some {
        tag_connection_refusal(p, c)
    } else {
        tag_name_refusal(namesakes)
    }
}

/// The next step of the checks of `payload`, given what was last learnt.
pub fn next_tag_check(payload: &TagPayload, event: TagCheckEvent) -> (r: TagCheckAction)
    ensures
        match event {
            TagCheckEvent::Received => match tag_fields_refusal(*payload) {
                None => r matches TagCheckAction::LookUpConnection(id) && id@
                    == payload.connection_id@,
                Some(m) => r matches TagCheckAction::Refuse(e) && e.is_bad_request(m),
            },
            TagCheckEvent::ConnectionFound(c) => match tag_connection_refusal(*payload, c) {
                None => r matches TagCheckAction::CountNamesakes(id, name) && id@
                    == payload.connection_id@ && name@ == trim(payload.name@),
                Some(m) => r matches TagCheckAction::Refuse(e) && e.is_bad_request(m),
            },
            TagCheckEvent::NamesakesCounted(n) => match tag_name_refusal(n) {
                None => r is Accept,
                Some(m) => r matches TagCheckAction::Refuse(e) && e.is_bad_request(m),
            },
        },
{
    match event {
        TagCheckEvent::Received => match validate_tag_payload(payload) {
            Ok(()) => TagCheckAction::LookUpConnection(payload.connection_id.clone()),
            Err(e) => TagCheckAction::Refuse(e),
        },
        TagCheckEvent::ConnectionFound(c) => {
            match check_tag_connection(c, &payload.asset_id) {
                Ok(protocol) => match validate_tag_address(protocol, &payload.address) {
                    Ok(()) => TagCheckAction::CountNamesakes(
                        payload.connection_id.clone(),
                        trim_string(payload.name.as_str()),
                    ),
                    Err(e) => TagCheckAction::Refuse(e),
                },
                Err(e) => TagCheckAction::Refuse(e),
            }
        },
        TagCheckEvent::NamesakesCounted(n) => match check_tag_name_available(n) {
            Ok(()) => TagCheckAction::Accept,
            Err(e) => TagCheckAction::Refuse(e),
        },
    }
}

/// A tag is accepted exactly when every check passes: its fields, the
/// connection it names, and its name within that connection. In
/// particular no tag is accepted while another tag of the same connection
/// carries its name.
pub proof fn law_tag_accepted_when_every_check_passes(
    p: TagPayload,
    c: Option<(String, Protocol)>,
    namesakes: i64,
)
    ensures
        tag_checks_refusal(p, c, namesakes) is None <==> {
            &&& !is_blank(p.name@)
            &&& !bounds_inverted(p)
            &&& !(p.data_type == DataType::Enum && p.allowed_values is None)
            &&& c matches Some((asset, protocol)) && asset@ == p.asset_id@ && required_keys_outcome(
                "address"@,
                protocol,
                p.address,
                address_keys(protocol),
            ) is None
            &&& namesakes <= 0
        },
{
}

// ================= The tag table that the checks keep =================

/// A row of the tags table as the checks see it: id, connection id,
/// asset id, name.
pub type TagKey = (Seq<char>, Seq<char>, Seq<char>, Seq<char>);

/// A row of the connections table as the checks see it: id, asset id, protocol.
pub type ConnectionKey = (Seq<char>, Seq<char>, Protocol);

/// How many tags, other than `self_id`, have the connection and the name
/// (what the namesake query counts).
pub open spec fn namesake_count(
    tags: Seq<TagKey>,
    connection_id: Seq<char>,
    name: Seq<char>,
    self_id: Seq<char>,
) -> nat
    decreases tags.len(),
{
    if tags.len() == 0 {
        0
    } else {
        let t = tags.last();
        namesake_count(tags.drop_last(), connection_id, name, self_id) + if t.1 == connection_id
            && t.3 == name && t.0 != self_id {
            1nat
        } else {
            0nat
        }
    }
}

/// The rules the tag checks keep over the tags table: no two tags of a
/// connection share a name, and every tag lies in its connection's asset.
pub open spec fn tag_table_ok(tags: Seq<TagKey>, connections: Seq<ConnectionKey>) -> bool {
    &&& forall|i: int, j: int|
        0 <= i < j < tags.len() ==> !(#[trigger] tags[i].1 == #[trigger] tags[j].1 && tags[i].3
            == tags[j].3)
    &&& forall|i: int|
        0 <= i < tags.len() ==> exists|k: int|
            0 <= k < connections.len() && connections[k].0 == #[trigger] tags[i].1
                && connections[k].1 == tags[i].2
}

/// The answer of the connection query: a connection with the id, when the
/// query found one.
pub open spec fn connection_answer(
    connections: Seq<ConnectionKey>,
    connection_id: Seq<char>,
    c: Option<(String, Protocol)>,
) -> bool {
    c matches Some((asset, protocol)) ==> exists|k: int|
        0 <= k < connections.len() && #[trigger] connections[k] == (connection_id, asset@, protocol)
}

proof fn lemma_no_namesake(tags: Seq<TagKey>, connection_id: Seq<char>, name: Seq<char>, self_id: Seq<char>, i: int)
    requires
        namesake_count(tags, connection_id, name, self_id) == 0,
        0 <= i < tags.len(),
    ensures
        !(tags[i].1 == connection_id && tags[i].3 == name && tags[i].0 != self_id),
    decreases tags.len(),
{
    if i < tags.len() - 1 {
        lemma_no_namesake(tags.drop_last(), connection_id, name, self_id, i);
    }
}

/// Storing a tag that the checks accepted keeps the tag table's rules:
/// when the database answered the checks truthfully (the connection found
/// is the one with the payload's id, the namesakes counted are those of
/// the table), the table with the new row added still has no two tags of
/// a connection with the same name, and every tag in its connection's asset.
/// (On creation the namesake query leaves out the id `""`, which no row has.)
pub proof fn law_created_tag_keeps_the_table(
    tags: Seq<TagKey>,
    connections: Seq<ConnectionKey>,
    p: TagPayload,
    c: Option<(String, Protocol)>,
    namesakes: i64,
    id: Seq<char>,
)
    requires
        tag_table_ok(tags, connections),
        forall|i: int| 0 <= i < tags.len() ==> #[trigger] tags[i].0 != Seq::<char>::empty(),
        connection_answer(connections, p.connection_id@, c),
        namesakes == namesake_count(tags, p.connection_id@, trim(p.name@), Seq::empty()),
        tag_checks_refusal(p, c, namesakes) is None,
    ensures
        tag_table_ok(
            tags.push((id, p.connection_id@, p.asset_id@, trim(p.name@))),
            connections,
        ),
{
    let row = (id, p.connection_id@, p.asset_id@, trim(p.name@));
    let t = tags.push(row);
    let (asset, protocol) = c->0;
    assert forall|i: int, j: int| 0 <= i < j < t.len() implies !(#[trigger] t[i].1
        == #[trigger] t[j].1 && t[i].3 == t[j].3) by {
        if j == tags.len() {
            lemma_no_namesake(tags, p.connection_id@, trim(p.name@), Seq::empty(), i);
            assert(t[i] == tags[i]);
        } else {
            assert(t[i] == tags[i] && t[j] == tags[j]);
        }
    }
    assert forall|i: int| 0 <= i < t.len() implies exists|k: int|
        0 <= k < connections.len() && connections[k].0 == #[trigger] t[i].1 && connections[k].1
            == t[i].2 by {
        if i < tags.len() {
            assert(t[i] == tags[i]);
        } else {
            let k = choose|k: int|
                0 <= k < connections.len() && #[trigger] connections[k] == (
                    p.connection_id@,
                    asset@,
                    protocol,
                );
            assert(connections[k].0 == t[i].1);
        }
    }
}

/// Editing a tag that the checks accepted keeps the tag table's rules: the
/// row of the edited tag (`k`, whose id the namesake query leaves out)
/// replaced by the new one, the table still has no two tags of a
/// connection with the same name, and every tag in its connection's asset.
pub proof fn law_updated_tag_keeps_the_table(
    tags: Seq<TagKey>,
    connections: Seq<ConnectionKey>,
    p: TagPayload,
    c: Option<(String, Protocol)>,
    namesakes: i64,
    k: int,
)
    requires
        tag_table_ok(tags, connections),
        0 <= k < tags.len(),
        forall|i: int| 0 <= i < tags.len() && i != k ==> #[trigger] tags[i].0 != tags[k].0,
        connection_answer(connections, p.connection_id@, c),
        namesakes == namesake_count(tags, p.connection_id@, trim(p.name@), tags[k].0),
        tag_checks_refusal(p, c, namesakes) is None,
    ensures
        tag_table_ok(
            tags.update(k, (tags[k].0, p.connection_id@, p.asset_id@, trim(p.name@))),
            connections,
        ),
{
    let row = (tags[k].0, p.connection_id@, p.asset_id@, trim(p.name@));
    let t = tags.update(k, row);
    let (asset, protocol) = c->0;
    assert forall|i: int, j: int| 0 <= i < j < t.len() implies !(#[trigger] t[i].1
        == #[trigger] t[j].1 && t[i].3 == t[j].3) by {
        if j == k {
            lemma_no_namesake(tags, p.connection_id@, trim(p.name@), tags[k].0, i);
            assert(t[i] == tags[i]);
        } else if i == k {
            lemma_no_namesake(tags, p.connection_id@, trim(p.name@), tags[k].0, j);
            assert(t[j] == tags[j]);
        } else {
            assert(t[i] == tags[i] && t[j] == tags[j]);
        }
    }
    assert forall|i: int| 0 <= i < t.len() implies exists|m: int|
        0 <= m < connections.len() && connections[m].0 == #[trigger] t[i].1 && connections[m].1
            == t[i].2 by {
        if i != k {
            assert(t[i] == tags[i]);
        } else {
            let m = choose|m: int|
                0 <= m < connections.len() && #[trigger] connections[m] == (
                    p.connection_id@,
                    asset@,
                    protocol,
                );
            assert(connections[m].0 == t[i].1);
        }
    }
}

/// The tag a schedule names must exist; its data type and allowed values
/// are what the target value is checked against.
pub fn tag_constraints(tag: Option<(DataType, Option<JsonValue>)>) -> (r: Result<
    (DataType, Option<JsonValue>),
    AppError,
>)
    ensures
        match tag {
            Some(t) => r == Ok::<(DataType, Option<JsonValue>), AppError>(t),
            None => rejected(r, "El tag referenciado no existe"@),
        },
{
    match tag {
        Some(t) => Ok(t),
        None => Err(AppError::BadRequest("El tag referenciado no existe".to_string())),
    }
}

// ================= Listings =================

/// The elements of `rows` whose `mask` entry is set, in order.
pub open spec fn select<T>(rows: Seq<T>, mask: Seq<bool>) -> Seq<T>
    decreases rows.len(),
{
    if rows.len() == 0 || mask.len() == 0 {
        Seq::empty()
    } else if mask.last() {
        select(rows.drop_last(), mask.drop_last()).push(rows.last())
    } else {
        select(rows.drop_last(), mask.drop_last())
    }
}

proof fn lemma_select_is_filter<T>(rows: Seq<T>, mask: Seq<bool>, pred: spec_fn(T) -> bool)
    requires
        rows.len() == mask.len(),
        forall|i: int| 0 <= i < rows.len() ==> mask[i] == pred(#[trigger] rows[i]),
    ensures
        select(rows, mask) == rows.filter(pred),
    decreases rows.len(),
{
    reveal(Seq::filter);
    if rows.len() > 0 {
        let r = rows.drop_last();
        let m = mask.drop_last();
        assert forall|i: int| 0 <= i < r.len() implies m[i] == pred(#[trigger] r[i]) by {
            assert(r[i] == rows[i]);
        }
        lemma_select_is_filter(r, m, pred);
        assert(mask.last() == pred(rows.last()));
    }
}

/// Keeps the rows whose mask entry is set, in their order.
fn keep_rows<T>(rows: Vec<T>, mask: &Vec<bool>) -> (kept: Vec<T>)
    requires
        mask@.len() == rows@.len(),
    ensures
        kept@ == select(rows@, mask@),
{
    let ghost all = rows@;
    let n = rows.len();
    let mut rows = rows;
    let mut kept: Vec<T> = Vec::new();
    let mut i: usize = 0;
    while rows.len() > 0
        invariant
            mask@.len() == all.len(),
            all.len() == n,
            i + rows@.len() == all.len(),
            rows@ == all.subrange(i as int, all.len() as int),
            kept@ == select(all.take(i as int), mask@.take(i as int)),
        decreases rows@.len(),
    {
        let row = rows.remove(0);
        proof {
            let t = all.take(i + 1);
            let mt = mask@.take(i + 1);
            assert(t.drop_last() =~= all.take(i as int));
            assert(mt.drop_last() =~= mask@.take(i as int));
            assert(t.last() == row);
        }
        if mask[i] {
            kept.push(row);
        }
        assert(rows@ =~= all.subrange(i + 1, all.len() as int));
        i = i + 1;
    }
    assert(all.take(i as int) =~= all);
    assert(mask@.take(i as int) =~= mask@);
    kept
}

/// Query filter of `GET /assets`.
pub struct AssetFilter {
    pub site_id: Option<String>,
    pub parent_asset_id: Option<String>,
}

impl AssetFilter {
    /// Every given field matches the row (`WHERE site_id = ? AND parent_asset_id = ?`).
    pub open spec fn admits(&self, row: AssetRow) -> bool {
        &&& (self.site_id matches Some(s) ==> row.site_id@ == s@)
        &&& (self.parent_asset_id matches Some(p) ==> (row.parent_asset_id matches Some(q)
            && q@ == p@))
    }

    pub fn matches(&self, row: &AssetRow) -> (r: bool)
        ensures
            r == self.admits(*row),
            r ==> (self.site_id matches Some(s) ==> row.site_id@ == s@),
            r ==> (self.parent_asset_id matches Some(p) ==> (row.parent_asset_id matches Some(q) && q@ == p@)),
            (self.site_id matches Some(s) ==> row.site_id@ == s@) && (self.parent_asset_id matches Some(p) ==> (row.parent_asset_id matches Some(q) && q@ == p@)) ==> r,
    {
        if let Some(s) = &self.site_id {
            if !(row.site_id == *s) {
                return false;
            }
        }
        if let Some(p) = &self.parent_asset_id {
            match &row.parent_asset_id {
                Some(q) => {
                    if !(*q == *p) {
                        return false;
                    }
                },
                None => {
                    return false;
                },
            }
        }
        true
    }
}

/// `GET /assets`: the rows (in the order of their creation) that the filter admits.
pub fn list_assets(rows: Vec<AssetRow>, filter: &AssetFilter) -> (kept: Vec<AssetRow>)
    ensures
        kept@ == rows@.filter(|r: AssetRow| filter.admits(r)),
        forall|i: int| 0 <= i < kept@.len() ==> (filter.site_id matches Some(s) ==> (#[trigger] kept@[i]).site_id@ == s@),
        forall|i: int| 0 <= i < kept@.len() ==> (filter.parent_asset_id matches Some(p) ==> ((#[trigger] kept@[i]).parent_asset_id matches Some(q) && q@ == p@)),
        forall|j: int| 0 <= j < rows@.len() && (filter.site_id matches Some(s) ==> rows@[j].site_id@ == s@) && (filter.parent_asset_id matches Some(p) ==> (rows@[j].parent_asset_id matches Some(q) && q@ == p@)) ==> kept@.contains(#[trigger] rows@[j]),
{
    let mut mask: Vec<bool> = Vec::new();
    let mut i: usize = 0;
    while i < rows.len()
        invariant
            i <= rows@.len(),
            mask@.len() == i,
            forall|j: int| 0 <= j < i ==> mask@[j] == filter.admits(#[trigger] rows@[j]),
        decreases rows@.len() - i,
    {
        mask.push(filter.matches(&rows[i]));
        i = i + 1;
    }
    proof {
        lemma_select_is_filter(rows@, mask@, |r: AssetRow| filter.admits(r));
    }
    let kept = keep_rows(rows, &mask);
    proof {
        let ghost pred = |r: AssetRow| filter.admits(r);
        assert(kept@ == rows@.filter(pred));
        assert forall|i: int| 0 <= i < kept@.len() implies filter.admits(#[trigger] kept@[i]) by {
            rows@.lemma_filter_pred(pred, i);
        }
        assert forall|j: int| 0 <= j < rows@.len() && filter.admits(rows@[j]) implies kept@.contains(
            #[trigger] rows@[j],
        ) by {
            rows@.lemma_filter_contains(pred, j);
        }
    }
    kept
}

/// The asset listing keeps a row exactly when every field
/// given in the filter matches it, each on its own.
pub proof fn law_asset_filter_fields(filter: AssetFilter, row: AssetRow)
    ensures
        filter.admits(row) <==> (filter.site_id matches Some(s) ==> row.site_id@ == s@) && (filter.parent_asset_id matches Some(p) ==> (row.parent_asset_id matches Some(q) && q@ == p@)),
{
}


/// Query filter of `GET /connections`.
pub struct ConnectionFilter {
    pub asset_id: Option<String>,
}

impl ConnectionFilter {
    pub open spec fn admits(&self, row: ConnectionRow) -> bool {
        self.asset_id matches Some(a) ==> row.asset_id@ == a@
    }

    pub fn matches(&self, row: &ConnectionRow) -> (r: bool)
        ensures
            r == self.admits(*row),
            r ==> (self.asset_id matches Some(a) ==> row.asset_id@ == a@),
            (self.asset_id matches Some(a) ==> row.asset_id@ == a@) ==> r,
    {
        match &self.asset_id {
            Some(a) => row.asset_id == *a,
            None => true,
        }
    }
}

/// `GET /connections`: the rows that the filter admits, in order.
pub fn list_connections(rows: Vec<ConnectionRow>, filter: &ConnectionFilter) -> (kept: Vec<
    ConnectionRow,
>)
    ensures
        kept@ == rows@.filter(|r: ConnectionRow| filter.admits(r)),
        forall|i: int| 0 <= i < kept@.len() ==> (filter.asset_id matches Some(a) ==> (#[trigger] kept@[i]).asset_id@ == a@),
        forall|j: int| 0 <= j < rows@.len() && (filter.asset_id matches Some(a) ==> rows@[j].asset_id@ == a@) ==> kept@.contains(#[trigger] rows@[j]),
{
    let mut mask: Vec<bool> = Vec::new();
    let mut i: usize = 0;
    while i < rows.len()
        invariant
            i <= rows@.len(),
            mask@.len() == i,
            forall|j: int| 0 <= j < i ==> mask@[j] == filter.admits(#[trigger] rows@[j]),
        decreases rows@.len() - i,
    {
        mask.push(filter.matches(&rows[i]));
        i = i + 1;
    }
    proof {
        lemma_select_is_filter(rows@, mask@, |r: ConnectionRow| filter.admits(r));
    }
    let kept = keep_rows(rows, &mask);
    proof {
        let ghost pred = |r: ConnectionRow| filter.admits(r);
        assert(kept@ == rows@.filter(pred));
        assert forall|i: int| 0 <= i < kept@.len() implies filter.admits(#[trigger] kept@[i]) by {
            rows@.lemma_filter_pred(pred, i);
        }
        assert forall|j: int| 0 <= j < rows@.len() && filter.admits(rows@[j]) implies kept@.contains(
            #[trigger] rows@[j],
        ) by {
            rows@.lemma_filter_contains(pred, j);
        }
    }
    kept
}

/// The connection listing keeps a row exactly when every field
/// given in the filter matches it, each on its own.
pub proof fn law_connection_filter_fields(filter: ConnectionFilter, row: ConnectionRow)
    ensures
        filter.admits(row) <==> (filter.asset_id matches Some(a) ==> row.asset_id@ == a@),
{
}


/// Query filter of `GET /tags`.
pub struct TagFilter {
    pub connection_id: Option<String>,
    pub asset_id: Option<String>,
}

impl TagFilter {
    pub open spec fn admits(&self, row: TagRow) -> bool {
        &&& (self.connection_id matches Some(c) ==> row.connection_id@ == c@)
        &&& (self.asset_id matches Some(a) ==> row.asset_id@ == a@)
    }

    pub fn matches(&self, row: &TagRow) -> (r: bool)
        ensures
            r == self.admits(*row),
            r ==> (self.connection_id matches Some(c) ==> row.connection_id@ == c@),
            r ==> (self.asset_id matches Some(a) ==> row.asset_id@ == a@),
            (self.connection_id matches Some(c) ==> row.connection_id@ == c@) && (self.asset_id matches Some(a) ==> row.asset_id@ == a@) ==> r,
    {
        if let Some(c) = &self.connection_id {
            if !(row.connection_id == *c) {
                return false;
            }
        }
        if let Some(a) = &self.asset_id {
            if !(row.asset_id == *a) {
                return false;
            }
        }
        true
    }
}

/// `GET /tags`: the rows that the filter admits, in order.
pub fn list_tags(rows: Vec<TagRow>, filter: &TagFilter) -> (kept: Vec<TagRow>)
    ensures
        kept@ == rows@.filter(|r: TagRow| filter.admits(r)),
        forall|i: int| 0 <= i < kept@.len() ==> (filter.connection_id matches Some(c) ==> (#[trigger] kept@[i]).connection_id@ == c@),
        forall|i: int| 0 <= i < kept@.len() ==> (filter.asset_id matches Some(a) ==> (#[trigger] kept@[i]).asset_id@ == a@),
        forall|j: int| 0 <= j < rows@.len() && (filter.connection_id matches Some(c) ==> rows@[j].connection_id@ == c@) && (filter.asset_id matches Some(a) ==> rows@[j].asset_id@ == a@) ==> kept@.contains(#[trigger] rows@[j]),
{
    let mut mask: Vec<bool> = Vec::new();
    let mut i: usize = 0;
    while i < rows.len()
        invariant
            i <= rows@.len(),
            mask@.len() == i,
            forall|j: int| 0 <= j < i ==> mask@[j] == filter.admits(#[trigger] rows@[j]),
        decreases rows@.len() - i,
    {
        mask.push(filter.matches(&rows[i]));
        i = i + 1;
    }
    proof {
        lemma_select_is_filter(rows@, mask@, |r: TagRow| filter.admits(r));
    }
    let kept = keep_rows(rows, &mask);
    proof {
        let ghost pred = |r: TagRow| filter.admits(r);
        assert(kept@ == rows@.filter(pred));
        assert forall|i: int| 0 <= i < kept@.len() implies filter.admits(#[trigger] kept@[i]) by {
            rows@.lemma_filter_pred(pred, i);
        }
        assert forall|j: int| 0 <= j < rows@.len() && filter.admits(rows@[j]) implies kept@.contains(
            #[trigger] rows@[j],
        ) by {
            rows@.lemma_filter_contains(pred, j);
        }
    }
    kept
}

/// The tag listing keeps a row exactly when every field
/// given in the filter matches it, each on its own.
pub proof fn law_tag_filter_fields(filter: TagFilter, row: TagRow)
    ensures
        filter.admits(row) <==> (filter.connection_id matches Some(c) ==> row.connection_id@ == c@) && (filter.asset_id matches Some(a) ==> row.asset_id@ == a@),
{
}


/// Query filter of `GET /schedules`.
pub struct ScheduleFilter {
    pub tag_id: Option<String>,
    pub enabled: Option<bool>,
}

impl ScheduleFilter {
    pub open spec fn admits(&self, row: ScheduleRow) -> bool {
        &&& (self.tag_id matches Some(t) ==> row.tag_id@ == t@)
        &&& (self.enabled matches Some(e) ==> row.enabled == e)
    }

    pub fn matches(&self, row: &ScheduleRow) -> (r: bool)
        ensures
            r == self.admits(*row),
            r ==> (self.tag_id matches Some(t) ==> row.tag_id@ == t@),
            r ==> (self.enabled matches Some(e) ==> row.enabled == e),
            (self.tag_id matches Some(t) ==> row.tag_id@ == t@) && (self.enabled matches Some(e) ==> row.enabled == e) ==> r,
    {
        if let Some(t) = &self.tag_id {
            if !(row.tag_id == *t) {
                return false;
            }
        }
        if let Some(e) = self.enabled {
            if row.enabled != e {
                return false;
            }
        }
        true
    }
}

/// `GET /schedules`: the rows that the filter admits, in order.
pub fn list_schedules(rows: Vec<ScheduleRow>, filter: &ScheduleFilter) -> (kept: Vec<
    ScheduleRow,
>)
    ensures
        kept@ == rows@.filter(|r: ScheduleRow| filter.admits(r)),
        forall|i: int| 0 <= i < kept@.len() ==> (filter.tag_id matches Some(t) ==> (#[trigger] kept@[i]).tag_id@ == t@),
        forall|i: int| 0 <= i < kept@.len() ==> (filter.enabled matches Some(e) ==> (#[trigger] kept@[i]).enabled == e),
        forall|j: int| 0 <= j < rows@.len() && (filter.tag_id matches Some(t) ==> rows@[j].tag_id@ == t@) && (filter.enabled matches Some(e) ==> rows@[j].enabled == e) ==> kept@.contains(#[trigger] rows@[j]),
{
    let mut mask: Vec<bool> = Vec::new();
    let mut i: usize = 0;
    while i < rows.len()
        invariant
            i <= rows@.len(),
            mask@.len() == i,
            forall|j: int| 0 <= j < i ==> mask@[j] == filter.admits(#[trigger] rows@[j]),
        decreases rows@.len() - i,
    {
        mask.push(filter.matches(&rows[i]));
        i = i + 1;
    }
    proof {
        lemma_select_is_filter(rows@, mask@, |r: ScheduleRow| filter.admits(r));
    }
    let kept = keep_rows(rows, &mask);
    proof {
        let ghost pred = |r: ScheduleRow| filter.admits(r);
        assert(kept@ == rows@.filter(pred));
        assert forall|i: int| 0 <= i < kept@.len() implies filter.admits(#[trigger] kept@[i]) by {
            rows@.lemma_filter_pred(pred, i);
        }
        assert forall|j: int| 0 <= j < rows@.len() && filter.admits(rows@[j]) implies kept@.contains(
            #[trigger] rows@[j],
        ) by {
            rows@.lemma_filter_contains(pred, j);
        }
    }
    kept
}

/// The schedule listing keeps a row exactly when every field
/// given in the filter matches it, each on its own.
pub proof fn law_schedule_filter_fields(filter: ScheduleFilter, row: ScheduleRow)
    ensures
        filter.admits(row) <==> (filter.tag_id matches Some(t) ==> row.tag_id@ == t@) && (filter.enabled matches Some(e) ==> row.enabled == e),
{
}


proof fn lemma_filter_keeps_all<T>(rows: Seq<T>, pred: spec_fn(T) -> bool)
    requires
        forall|i: int| 0 <= i < rows.len() ==> pred(#[trigger] rows[i]),
    ensures
        rows.filter(pred) == rows,
    decreases rows.len(),
{
    reveal(Seq::filter);
    if rows.len() > 0 {
        let r = rows.drop_last();
        assert forall|i: int| 0 <= i < r.len() implies pred(#[trigger] r[i]) by {
            assert(r[i] == rows[i]);
        }
        lemma_filter_keeps_all(r, pred);
        assert(pred(rows.last()));
        assert(r.push(rows.last()) =~= rows);
    }
}

/// A listing asked without any filter gives back every row, in order.
pub proof fn law_unfiltered_listings_keep_every_row(
    assets: Seq<AssetRow>,
    connections: Seq<ConnectionRow>,
    tags: Seq<TagRow>,
    schedules: Seq<ScheduleRow>,
)
    ensures
        assets.filter(
            |r: AssetRow| (AssetFilter { site_id: None, parent_asset_id: None }).admits(r),
        ) == assets,
        connections.filter(|r: ConnectionRow| (ConnectionFilter { asset_id: None }).admits(r))
            == connections,
        tags.filter(|r: TagRow| (TagFilter { connection_id: None, asset_id: None }).admits(r))
            == tags,
        schedules.filter(|r: ScheduleRow| (ScheduleFilter { tag_id: None, enabled: None }).admits(r))
            == schedules,
{
    lemma_filter_keeps_all(
        assets,
        |r: AssetRow| (AssetFilter { site_id: None, parent_asset_id: None }).admits(r),
    );
    lemma_filter_keeps_all(
        connections,
        |r: ConnectionRow| (ConnectionFilter { asset_id: None }).admits(r),
    );
    lemma_filter_keeps_all(
        tags,
        |r: TagRow| (TagFilter { connection_id: None, asset_id: None }).admits(r),
    );
    lemma_filter_keeps_all(
        schedules,
        |r: ScheduleRow| (ScheduleFilter { tag_id: None, enabled: None }).admits(r),
    );
}

} // verus!
