use calendar_backend::error::AppError;
use calendar_backend::json::{FloatBits, JsonNumber, JsonValue};
use calendar_backend::scada::handlers::{
    next_tag_check, TagCheckAction, TagCheckEvent, validate_asset_payload, validate_connection_config, validate_connection_payload,
    validate_schedule_payload, validate_site_payload, validate_tag_address, validate_tag_payload,
    validate_target_value,
};
use calendar_backend::scada::models::{
    AssetPayload, ConnectionPayload, DataType, Protocol, ReadWrite, SchedulePayload, SitePayload,
    TagKind, TagPayload, TriggerType,
};

fn s(text: &str) -> String {
    text.to_string()
}

fn text(v: &str) -> JsonValue {
    JsonValue::String(s(v))
}

fn integer(n: u64) -> JsonValue {
    JsonValue::Number(JsonNumber::PosInt(n))
}

fn float(x: f64) -> JsonValue {
    JsonValue::Number(JsonNumber::Float(FloatBits { bits: x.to_bits() }))
}

fn object(entries: Vec<(&str, JsonValue)>) -> JsonValue {
    JsonValue::Object(entries.into_iter().map(|(k, v)| (s(k), v)).collect())
}

fn bad_request_message(r: Result<(), AppError>) -> String {
    match r {
        Err(AppError::BadRequest(m)) => m,
        other => panic!("expected a BadRequest, got {:?}", other),
    }
}

#[test]
fn rejects_a_blank_site_name() {
    let payload = SitePayload { name: "   ".to_string() };
    assert!(validate_site_payload(&payload).is_err());
}

#[test]
fn rejects_an_asset_without_kind() {
    let payload = AssetPayload {
        site_id: "site-1".to_string(),
        parent_asset_id: None,
        name: "Area 1".to_string(),
        kind: "  ".to_string(),
    };
    assert!(validate_asset_payload(&payload).is_err());
}

#[test]
fn validates_config_keys_per_protocol() {
    let incomplete = object(vec![("endpoint_url", text("opc.tcp://x"))]);
    assert!(validate_connection_config(Protocol::Opcua, &incomplete).is_err());

    let complete = object(vec![
        ("credentials_ref", text("cred-1")),
        ("endpoint_url", text("opc.tcp://x")),
        ("security_policy", text("None")),
    ]);
    assert!(validate_connection_config(Protocol::Opcua, &complete).is_ok());

    let mqtt = object(vec![
        ("base_topic", text("plant/area")),
        ("broker_url", text("mqtt://x")),
        ("qos", integer(1)),
        ("tls", JsonValue::Bool(false)),
    ]);
    assert!(validate_connection_config(Protocol::Mqtt, &mqtt).is_ok());
}

#[test]
fn validates_address_keys_per_protocol() {
    let incomplete = object(vec![("db_number", integer(1))]);
    assert!(validate_tag_address(Protocol::S7, &incomplete).is_err());

    let complete = object(vec![
        ("bit", integer(3)),
        ("db_number", integer(1)),
        ("offset", integer(0)),
        ("s7_type", text("bool")),
    ]);
    assert!(validate_tag_address(Protocol::S7, &complete).is_ok());
}

fn tag_payload(data_type: DataType, min: Option<f64>, max: Option<f64>) -> TagPayload {
    TagPayload {
        connection_id: "conn-1".to_string(),
        asset_id: "asset-1".to_string(),
        name: "Motor1_Run".to_string(),
        description: String::new(),
        tag_kind: TagKind::Telemando,
        data_type,
        unit: None,
        address: object(vec![("node_id", text("ns=2;s=Motor1.Run"))]),
        read_write: ReadWrite::Write,
        min_value: min.map(|x| FloatBits { bits: x.to_bits() }),
        max_value: max.map(|x| FloatBits { bits: x.to_bits() }),
        allowed_values: None,
        requires_sbo: false,
        requires_ack: false,
    }
}

#[test]
fn rejects_min_value_greater_than_max_value() {
    let payload = tag_payload(DataType::Float, Some(10.0), Some(5.0));
    assert!(validate_tag_payload(&payload).is_err());
}

#[test]
fn requires_allowed_values_for_enum_tags() {
    let payload = tag_payload(DataType::Enum, None, None);
    assert!(validate_tag_payload(&payload).is_err());
}

fn schedule_payload(trigger_type: TriggerType) -> SchedulePayload {
    SchedulePayload {
        name: "Arranque".to_string(),
        tag_id: "tag-1".to_string(),
        target_value: JsonValue::Bool(true),
        trigger_type,
        cron_expr: None,
        start_date: None,
        end_date: None,
        enabled: true,
        requires_confirmation: false,
    }
}

#[test]
fn requires_start_date_for_once_schedules() {
    assert!(validate_schedule_payload(&schedule_payload(TriggerType::Once)).is_err());
}

#[test]
fn requires_cron_expr_for_cron_schedules() {
    assert!(validate_schedule_payload(&schedule_payload(TriggerType::Cron)).is_err());
}

#[test]
fn validates_target_value_against_data_type() {
    assert!(validate_target_value(DataType::Bool, None, &JsonValue::Bool(true)).is_ok());
    assert!(validate_target_value(DataType::Bool, None, &text("true")).is_err());
    assert!(validate_target_value(DataType::Int, None, &integer(42)).is_ok());
    assert!(validate_target_value(DataType::Int, None, &float(4.2)).is_err());

    let allowed = JsonValue::Array(vec![text("auto"), text("manual")]);
    assert!(validate_target_value(DataType::Enum, Some(&allowed), &text("auto")).is_ok());
    assert!(validate_target_value(DataType::Enum, Some(&allowed), &text("off")).is_err());
}

// ---------- Messages and edge cases ----------

#[test]
fn site_name_errors_name_the_field() {
    let m = bad_request_message(validate_site_payload(&SitePayload { name: s("\t\n ") }));
    assert_eq!(m, "El nombre del site es obligatorio");
    assert!(validate_site_payload(&SitePayload { name: s(" Planta Norte ") }).is_ok());
    // U+3000 IDEOGRAPHIC SPACE is white space for str::trim
    assert!(validate_site_payload(&SitePayload { name: s("\u{3000}") }).is_err());
}

#[test]
fn asset_name_is_checked_before_kind() {
    let payload = AssetPayload {
        site_id: s("site-1"),
        parent_asset_id: None,
        name: s(""),
        kind: s(""),
    };
    assert_eq!(
        bad_request_message(validate_asset_payload(&payload)),
        "El nombre del asset es obligatorio"
    );
    let payload = AssetPayload { site_id: s("site-1"), parent_asset_id: None, name: s("A"), kind: s(" ") };
    assert_eq!(
        bad_request_message(validate_asset_payload(&payload)),
        "El kind del asset es obligatorio"
    );
}

#[test]
fn missing_config_key_is_named_with_the_protocol() {
    let incomplete = object(vec![("endpoint_url", text("opc.tcp://x"))]);
    assert_eq!(
        bad_request_message(validate_connection_config(Protocol::Opcua, &incomplete)),
        "config.security_policy es obligatorio para el protocolo Opcua"
    );
    assert_eq!(
        bad_request_message(validate_connection_config(Protocol::S7, &JsonValue::Array(vec![]))),
        "config debe ser un objeto JSON"
    );
    let s7 = object(vec![("ip", text("10.0.0.1")), ("rack", integer(0))]);
    assert_eq!(
        bad_request_message(validate_connection_config(Protocol::S7, &s7)),
        "config.slot es obligatorio para el protocolo S7"
    );
}

#[test]
fn missing_address_key_is_named_with_the_protocol() {
    let mqtt = object(vec![("topic", text("a/b"))]);
    assert_eq!(
        bad_request_message(validate_tag_address(Protocol::Mqtt, &mqtt)),
        "address.json_pointer es obligatorio para el protocolo Mqtt"
    );
    assert_eq!(
        bad_request_message(validate_tag_address(Protocol::Opcua, &text("ns=2"))),
        "address debe ser un objeto JSON"
    );
}

#[test]
fn connection_name_is_checked_before_config() {
    let payload = ConnectionPayload {
        asset_id: s("asset-1"),
        name: s("  "),
        protocol: Protocol::Opcua,
        config: JsonValue::Null,
    };
    assert_eq!(
        bad_request_message(validate_connection_payload(&payload)),
        "El nombre de la conexión es obligatorio"
    );
}

#[test]
fn tag_bounds_compare_as_floats() {
    // equal bounds are fine, and -0.0 is not above 0.0
    assert!(validate_tag_payload(&tag_payload(DataType::Float, Some(5.0), Some(5.0))).is_ok());
    assert!(validate_tag_payload(&tag_payload(DataType::Float, Some(-0.0), Some(0.0))).is_ok());
    assert!(validate_tag_payload(&tag_payload(DataType::Float, Some(-3.5), Some(-7.25))).is_err());
    assert!(validate_tag_payload(&tag_payload(DataType::Float, Some(-7.25), Some(-3.5))).is_ok());
    assert!(validate_tag_payload(&tag_payload(DataType::Int, Some(1.0), None)).is_ok());
    assert_eq!(
        bad_request_message(validate_tag_payload(&tag_payload(DataType::Float, Some(1e9), Some(-1e9)))),
        "min_value no puede ser mayor a max_value"
    );
    assert_eq!(
        bad_request_message(validate_tag_payload(&tag_payload(DataType::Enum, None, None))),
        "Los tags de tipo enum requieren allowed_values"
    );
    let mut unnamed = tag_payload(DataType::Bool, None, None);
    unnamed.name = s(" ");
    assert_eq!(bad_request_message(validate_tag_payload(&unnamed)), "El nombre del tag es obligatorio");
}

#[test]
fn schedule_triggers_need_their_field() {
    let mut once = schedule_payload(TriggerType::Once);
    assert_eq!(
        bad_request_message(validate_schedule_payload(&once)),
        "Una programación 'once' requiere start_date"
    );
    once.start_date = Some(s("2026-09-10T15:00:00.000Z"));
    assert!(validate_schedule_payload(&once).is_ok());

    let mut cron = schedule_payload(TriggerType::Cron);
    cron.cron_expr = Some(s("   "));
    assert_eq!(
        bad_request_message(validate_schedule_payload(&cron)),
        "Una programación 'cron' requiere cron_expr"
    );
    cron.cron_expr = Some(s("0 6 * * *"));
    assert!(validate_schedule_payload(&cron).is_ok());

    let mut unnamed = schedule_payload(TriggerType::Cron);
    unnamed.name = s("");
    assert_eq!(
        bad_request_message(validate_schedule_payload(&unnamed)),
        "El nombre de la programación es obligatorio"
    );
}

#[test]
fn target_values_follow_serde_json_number_forms() {
    let negative = JsonValue::Number(JsonNumber::NegInt(-3));
    assert!(validate_target_value(DataType::Int, None, &negative).is_ok());
    assert!(validate_target_value(DataType::Float, None, &negative).is_ok());
    assert!(validate_target_value(DataType::Float, None, &float(4.2)).is_ok());
    assert!(validate_target_value(DataType::Float, None, &JsonValue::Null).is_err());
    // an enum without allowed values accepts anything, as does one whose allowed values are not an array
    assert!(validate_target_value(DataType::Enum, None, &text("x")).is_ok());
    assert!(validate_target_value(DataType::Enum, Some(&text("x")), &integer(1)).is_ok());
    // 1 and 1.0 are different JSON values for serde_json
    let allowed = JsonValue::Array(vec![integer(1), float(2.0)]);
    assert!(validate_target_value(DataType::Enum, Some(&allowed), &integer(1)).is_ok());
    assert!(validate_target_value(DataType::Enum, Some(&allowed), &float(1.0)).is_err());
    assert!(validate_target_value(DataType::Enum, Some(&allowed), &float(2.0)).is_ok());
    assert_eq!(
        bad_request_message(validate_target_value(DataType::Bool, None, &integer(1))),
        "target_value no es compatible con el data_type del tag"
    );
    // nested values compare entry by entry
    let nested = JsonValue::Array(vec![object(vec![("mode", text("auto"))])]);
    assert!(validate_target_value(DataType::Enum, Some(&nested), &object(vec![("mode", text("auto"))])).is_ok());
    assert!(validate_target_value(DataType::Enum, Some(&nested), &object(vec![("mode", text("off"))])).is_err());
}

#[test]
fn only_once_and_cron_schedules_are_accepted() {
    let mut p = schedule_payload(TriggerType::CalendarEvent);
    p.start_date = Some("2026-09-10T15:00:00.000Z".to_string());
    p.cron_expr = Some("0 * * * *".to_string());
    match validate_schedule_payload(&p) {
        Err(AppError::BadRequest(m)) => assert_eq!(m, "trigger_type debe ser 'once' o 'cron'"),
        _ => panic!("expected BadRequest"),
    }
    let mut p = schedule_payload(TriggerType::Once);
    p.start_date = Some("2026-09-10T15:00:00.000Z".to_string());
    assert!(validate_schedule_payload(&p).is_ok());
    let mut p = schedule_payload(TriggerType::Cron);
    p.cron_expr = Some("0 * * * *".to_string());
    assert!(validate_schedule_payload(&p).is_ok());
}

fn refusal(a: TagCheckAction) -> String {
    match a {
        TagCheckAction::Refuse(AppError::BadRequest(m)) => m,
        _ => panic!("expected a refusal"),
    }
}

#[test]
fn tag_checks_run_in_order() {
    let mut p = tag_payload(DataType::Bool, None, None);
    p.name = s("  Motor1_Run ");
    match next_tag_check(&p, TagCheckEvent::Received) {
        TagCheckAction::LookUpConnection(id) => assert_eq!(id, "conn-1"),
        _ => panic!("expected a connection lookup"),
    }
    assert_eq!(
        refusal(next_tag_check(&p, TagCheckEvent::ConnectionFound(None))),
        "La conexión referenciada no existe"
    );
    assert_eq!(
        refusal(next_tag_check(&p, TagCheckEvent::ConnectionFound(Some((s("asset-2"), Protocol::Opcua))))),
        "El tag debe pertenecer al mismo asset que su conexión"
    );
    assert_eq!(
        refusal(next_tag_check(&p, TagCheckEvent::ConnectionFound(Some((s("asset-1"), Protocol::Mqtt))))),
        "address.topic es obligatorio para el protocolo Mqtt"
    );
    match next_tag_check(&p, TagCheckEvent::ConnectionFound(Some((s("asset-1"), Protocol::Opcua)))) {
        TagCheckAction::CountNamesakes(id, name) => {
            assert_eq!(id, "conn-1");
            assert_eq!(name, "Motor1_Run");
        }
        _ => panic!("expected a namesake count"),
    }
    assert_eq!(
        refusal(next_tag_check(&p, TagCheckEvent::NamesakesCounted(1))),
        "Ya existe un tag con ese nombre en la conexión"
    );
    assert!(matches!(next_tag_check(&p, TagCheckEvent::NamesakesCounted(0)), TagCheckAction::Accept));
    p.name = s(" ");
    assert_eq!(refusal(next_tag_check(&p, TagCheckEvent::Received)), "El nombre del tag es obligatorio");
}
