use calendar_backend::config::{parse_i64, parse_u16, AppConfig};
use calendar_backend::error::{require_affected, require_found, AppError, Entity};
use calendar_backend::json::{FloatBits, JsonNumber, JsonValue};
use calendar_backend::scada::handlers::{
    asset_parent_to_check, check_asset_exists, check_parent_site, check_site_exists,
    check_tag_connection, check_tag_name_available, list_assets, list_connections, list_schedules,
    list_tags, new_asset_record, new_connection_record, new_site_record, next_asset_check,
    stored_asset, stored_site, tag_constraints, AssetCheckAction, AssetCheckEvent,
    AssetFilter, ConnectionFilter, ScheduleFilter, TagFilter,
};
use calendar_backend::scada::models::{
    default_interlock_action, default_read_write, default_true, AssetPayload, AssetRow,
    ConnectionPayload, ConnectionResponse, ConnectionRow, ConnectionStatus, DataType, InterlockAction, Protocol,
    ReadWrite, ScheduleRow, SitePayload, TagKind, TagRow, TriggerType,
};
use calendar_backend::text::trim_string;

fn s(t: &str) -> String {
    t.to_string()
}

fn message(e: AppError) -> String {
    e.message().clone()
}

#[test]
fn asset_hierarchy_answers() {
    assert_eq!(message(check_site_exists(0).unwrap_err()), "El site referenciado no existe");
    assert!(check_site_exists(3).is_ok());

    let payload = AssetPayload {
        site_id: s("site-1"),
        parent_asset_id: Some(s("asset-1")),
        name: s("PLC"),
        kind: s("plc"),
    };
    let own = s("asset-1");
    assert_eq!(
        message(asset_parent_to_check(&payload, Some(&own)).unwrap_err()),
        "Un asset no puede ser su propio padre"
    );
    let other = s("asset-2");
    assert_eq!(asset_parent_to_check(&payload, Some(&other)).ok().unwrap(), Some(s("asset-1")));
    assert_eq!(asset_parent_to_check(&payload, None).ok().unwrap(), Some(s("asset-1")));
    let root = AssetPayload { site_id: s("site-1"), parent_asset_id: None, name: s("P"), kind: s("plant") };
    assert_eq!(asset_parent_to_check(&root, Some(&own)).ok().unwrap(), None);

    assert_eq!(
        message(check_parent_site(&payload, None).unwrap_err()),
        "El asset padre referenciado no existe"
    );
    assert_eq!(
        message(check_parent_site(&payload, Some(s("site-2"))).unwrap_err()),
        "El asset padre debe pertenecer al mismo site"
    );
    assert!(check_parent_site(&payload, Some(s("site-1"))).is_ok());
    assert_eq!(message(check_asset_exists(0).unwrap_err()), "El asset referenciado no existe");
}

#[test]
fn tag_references_answers() {
    let asset = s("asset-1");
    assert_eq!(
        message(check_tag_connection(None, &asset).unwrap_err()),
        "La conexión referenciada no existe"
    );
    assert_eq!(
        message(check_tag_connection(Some((s("asset-2"), Protocol::S7)), &asset).unwrap_err()),
        "El tag debe pertenecer al mismo asset que su conexión"
    );
    assert_eq!(check_tag_connection(Some((s("asset-1"), Protocol::Mqtt)), &asset).ok(), Some(Protocol::Mqtt));
    assert_eq!(
        message(check_tag_name_available(2).unwrap_err()),
        "Ya existe un tag con ese nombre en la conexión"
    );
    assert!(check_tag_name_available(0).is_ok());
    assert_eq!(message(tag_constraints(None).unwrap_err()), "El tag referenciado no existe");
    let (dt, allowed) = tag_constraints(Some((DataType::Enum, Some(JsonValue::Null)))).ok().unwrap();
    assert_eq!(dt, DataType::Enum);
    assert!(matches!(allowed, Some(JsonValue::Null)));
}

#[test]
fn absent_records_are_not_found() {
    for (e, m) in [
        (Entity::Site, "El site no existe"),
        (Entity::Asset, "El asset no existe"),
        (Entity::Connection, "La conexión no existe"),
        (Entity::Tag, "El tag no existe"),
        (Entity::Schedule, "La programación no existe"),
        (Entity::Event, "Evento no existe por ese id"),
    ] {
        match require_affected(0, e) {
            Err(err @ AppError::NotFound(_)) => assert_eq!(message(err), m),
            _ => panic!("expected NotFound"),
        }
        assert!(require_affected(1, e).is_ok());
        assert!(require_found(None::<u8>, e).is_err());
        assert_eq!(require_found(Some(7u8), e).ok(), Some(7));
    }
}

#[test]
fn error_kinds_have_their_status() {
    assert_eq!(AppError::BadRequest(s("x")).status_code(), 400);
    assert_eq!(AppError::Unauthorized(s("x")).status_code(), 401);
    assert_eq!(AppError::NotFound(s("x")).status_code(), 404);
    assert_eq!(AppError::Internal(s("x")).status_code(), 500);
}

fn asset(id: &str, site: &str, parent: Option<&str>) -> AssetRow {
    AssetRow {
        id: s(id),
        site_id: s(site),
        parent_asset_id: parent.map(s),
        name: s(id),
        kind: s("area"),
        created_at: s("2026-01-01"),
    }
}

fn ids(rows: &[AssetRow]) -> Vec<String> {
    rows.iter().map(|r| r.id.clone()).collect()
}

#[test]
fn asset_listing_filters_in_order() {
    let rows = || vec![asset("a", "s1", None), asset("b", "s2", Some("a")), asset("c", "s1", Some("a"))];
    let all = AssetFilter { site_id: None, parent_asset_id: None };
    assert_eq!(ids(&list_assets(rows(), &all)), vec!["a", "b", "c"]);
    let s1 = AssetFilter { site_id: Some(s("s1")), parent_asset_id: None };
    assert_eq!(ids(&list_assets(rows(), &s1)), vec!["a", "c"]);
    let under_a = AssetFilter { site_id: None, parent_asset_id: Some(s("a")) };
    assert_eq!(ids(&list_assets(rows(), &under_a)), vec!["b", "c"]);
    let both = AssetFilter { site_id: Some(s("s2")), parent_asset_id: Some(s("a")) };
    assert_eq!(ids(&list_assets(rows(), &both)), vec!["b"]);
}

fn connection(id: &str, asset_id: &str) -> ConnectionRow {
    ConnectionRow {
        id: s(id),
        asset_id: s(asset_id),
        name: s(id),
        protocol: Protocol::Opcua,
        config: JsonValue::Object(vec![]),
        status: ConnectionStatus::Unknown,
        last_seen: None,
        created_at: s("2026-01-01"),
    }
}

#[test]
fn connection_listing_and_response() {
    let rows = vec![connection("c1", "a1"), connection("c2", "a2"), connection("c3", "a1")];
    let kept = list_connections(rows, &ConnectionFilter { asset_id: Some(s("a1")) });
    let names: Vec<String> = kept.iter().map(|r| r.id.clone()).collect();
    assert_eq!(names, vec!["c1", "c3"]);
    let resp = ConnectionResponse::from(connection("c9", "a9"));
    assert_eq!(resp.id, "c9");
    assert_eq!(resp.asset_id, "a9");
    assert_eq!(resp.status, ConnectionStatus::Unknown);
}

fn tag(id: &str, connection_id: &str, asset_id: &str) -> TagRow {
    TagRow {
        id: s(id),
        connection_id: s(connection_id),
        asset_id: s(asset_id),
        name: s(id),
        description: String::new(),
        tag_kind: TagKind::Medida,
        data_type: DataType::Float,
        unit: Some(s("bar")),
        address: JsonValue::Null,
        read_write: ReadWrite::Read,
        min_value: Some(FloatBits { bits: 0.5f64.to_bits() }),
        max_value: None,
        allowed_values: None,
        requires_sbo: false,
        requires_ack: true,
        created_at: s("2026-01-01"),
    }
}

#[test]
fn tag_listing_filters_by_connection_and_asset() {
    let rows = || vec![tag("t1", "c1", "a1"), tag("t2", "c2", "a1"), tag("t3", "c1", "a2")];
    let pick = |f: TagFilter| -> Vec<String> { list_tags(rows(), &f).iter().map(|r| r.id.clone()).collect() };
    assert_eq!(pick(TagFilter { connection_id: Some(s("c1")), asset_id: None }), vec!["t1", "t3"]);
    assert_eq!(pick(TagFilter { connection_id: None, asset_id: Some(s("a1")) }), vec!["t1", "t2"]);
    assert_eq!(pick(TagFilter { connection_id: Some(s("c1")), asset_id: Some(s("a1")) }), vec!["t1"]);
    assert_eq!(pick(TagFilter { connection_id: Some(s("zz")), asset_id: None }), Vec::<String>::new());
}

fn schedule(id: &str, tag_id: &str, enabled: bool) -> ScheduleRow {
    ScheduleRow {
        id: s(id),
        name: s(id),
        tag_id: s(tag_id),
        target_value: JsonValue::Bool(true),
        trigger_type: TriggerType::Once,
        cron_expr: None,
        start_date: Some(s("2026-09-10T15:00:00.000Z")),
        end_date: None,
        enabled,
        requires_confirmation: false,
        created_by: s("uid-1"),
        created_at: s("2026-01-01"),
    }
}

#[test]
fn schedule_listing_filters_by_tag_and_enabled() {
    let rows = || vec![schedule("s1", "t1", true), schedule("s2", "t1", false), schedule("s3", "t2", true)];
    let pick = |f: ScheduleFilter| -> Vec<String> { list_schedules(rows(), &f).iter().map(|r| r.id.clone()).collect() };
    assert_eq!(pick(ScheduleFilter { tag_id: None, enabled: Some(true) }), vec!["s1", "s3"]);
    assert_eq!(pick(ScheduleFilter { tag_id: Some(s("t1")), enabled: None }), vec!["s1", "s2"]);
    assert_eq!(pick(ScheduleFilter { tag_id: Some(s("t1")), enabled: Some(false) }), vec!["s2"]);
    assert_eq!(pick(ScheduleFilter { tag_id: None, enabled: None }), vec!["s1", "s2", "s3"]);
}

#[test]
fn defaults_of_the_payloads() {
    assert!(default_true());
    assert_eq!(default_read_write(), ReadWrite::Write);
    assert_eq!(default_interlock_action(), InterlockAction::Block);
}

fn assert_uuid_v4(a: &str) {
    assert_eq!(a.len(), 36);
    assert_eq!(a.chars().nth(14), Some('4'));
    assert!(matches!(a.chars().nth(19), Some('8' | '9' | 'a' | 'b')));
    for (i, c) in a.chars().enumerate() {
        if [8, 13, 18, 23].contains(&i) {
            assert_eq!(c, '-');
        } else {
            assert!(c.is_ascii_hexdigit() && !c.is_ascii_uppercase());
        }
    }
}

#[test]
fn new_records_get_fresh_version_4_uuids_and_trimmed_names() {
    let (a, site) = new_site_record(SitePayload { name: s("  Planta Norte \t") });
    let (b, _) = new_site_record(SitePayload { name: s("x") });
    assert_uuid_v4(&a);
    assert_uuid_v4(&b);
    assert_ne!(a, b);
    assert_eq!(site.name, "Planta Norte");

    let (id, asset) = new_asset_record(AssetPayload {
        site_id: s("site-1"),
        parent_asset_id: Some(s("area-1")),
        name: s(" PLC 1 "),
        kind: s(" plc\n"),
    });
    assert_uuid_v4(&id);
    assert_eq!(asset.site_id, "site-1");
    assert_eq!(asset.parent_asset_id.as_deref(), Some("area-1"));
    assert_eq!(asset.name, "PLC 1");
    assert_eq!(asset.kind, "plc");

    let (id, conn) = new_connection_record(ConnectionPayload {
        asset_id: s("asset-1"),
        name: s("\u{a0}S7 principal "),
        protocol: Protocol::S7,
        config: JsonValue::Null,
    });
    assert_uuid_v4(&id);
    assert_eq!(conn.asset_id, "asset-1");
    assert_eq!(conn.name, "S7 principal");
    assert_eq!(conn.protocol, Protocol::S7);
    assert!(matches!(conn.config, JsonValue::Null));
}

#[test]
fn trimming_drops_unicode_white_space_at_both_ends() {
    assert_eq!(trim_string("  a b \n"), "a b");
    assert_eq!(trim_string("\u{a0}\u{2003}x\u{3000}"), "x");
    assert_eq!(trim_string(" \t "), "");
    assert_eq!(trim_string("x"), "x");
}

#[test]
fn settings_parse_as_rust_does() {
    assert_eq!(parse_i64("86400"), Some(86_400));
    assert_eq!(parse_i64("+7"), Some(7));
    assert_eq!(parse_i64("-15"), Some(-15));
    assert_eq!(parse_i64("-9223372036854775808"), Some(i64::MIN));
    assert_eq!(parse_i64("9223372036854775808"), None);
    assert_eq!(parse_i64(" 5"), None);
    assert_eq!(parse_i64("-"), None);
    assert_eq!(parse_i64(""), None);
    assert_eq!(parse_u16("4000"), Some(4000));
    assert_eq!(parse_u16("+80"), Some(80));
    assert_eq!(parse_u16("-0"), None);
    assert_eq!(parse_u16("65536"), None);
    assert_eq!(parse_u16("0080"), Some(80));

    let c = AppConfig::from_env(None, s("k"), Some(s("abc")), Some(s("99999")), None);
    assert_eq!(c.database_url, "sqlite://calendar.db");
    assert_eq!(c.jwt_secret, "k");
    assert_eq!(c.jwt_expires_seconds, 86_400);
    assert_eq!(c.port, 4000);
    assert_eq!(c.allowed_origin, "http://localhost:5173");
    let c = AppConfig::from_env(Some(s("sqlite::memory:")), s("k"), Some(s("60")), Some(s("8080")), Some(s("http://x")));
    assert_eq!(c.database_url, "sqlite::memory:");
    assert_eq!(c.jwt_expires_seconds, 60);
    assert_eq!(c.port, 8080);
    assert_eq!(c.allowed_origin, "http://x");
}

#[test]
fn json_numbers_compare_as_serde_json_does() {
    let f = |x: f64| JsonValue::Number(JsonNumber::Float(FloatBits { bits: x.to_bits() }));
    assert!(f(0.0).equals(&f(-0.0)));
    assert!(!f(1.5).equals(&f(2.5)));
    assert!(!JsonValue::Number(JsonNumber::PosInt(1)).equals(&f(1.0)));
    assert!(JsonValue::Number(JsonNumber::NegInt(-2)).equals(&JsonValue::Number(JsonNumber::NegInt(-2))));
    let a = FloatBits { bits: 2.0f64.to_bits() };
    let b = FloatBits { bits: (-1.0f64).to_bits() };
    let nan = FloatBits { bits: f64::NAN.to_bits() };
    assert!(a.gt(&b));
    assert!(!b.gt(&a));
    assert!(!nan.gt(&b) && !b.gt(&nan));
}

#[test]
fn trimming_twice_is_trimming_once() {
    for text in ["  a  ", "\u{2028}b c\t", "", "   ", "x"] {
        let once = trim_string(text);
        assert_eq!(trim_string(&once), once);
    }
}

fn asset_refusal(a: AssetCheckAction) -> String {
    match a {
        AssetCheckAction::Refuse(AppError::BadRequest(m)) => m,
        _ => panic!("expected a refusal"),
    }
}

#[test]
fn asset_checks_run_in_order() {
    let p = AssetPayload {
        site_id: s("site-1"),
        parent_asset_id: Some(s("area-1")),
        name: s("PLC 1"),
        kind: s("plc"),
    };
    match next_asset_check(&p, None, AssetCheckEvent::Received) {
        AssetCheckAction::CountSites(id) => assert_eq!(id, "site-1"),
        _ => panic!("expected a site count"),
    }
    assert_eq!(
        asset_refusal(next_asset_check(&p, None, AssetCheckEvent::SitesCounted(0))),
        "El site referenciado no existe"
    );
    match next_asset_check(&p, None, AssetCheckEvent::SitesCounted(1)) {
        AssetCheckAction::LookUpParent(id) => assert_eq!(id, "area-1"),
        _ => panic!("expected a parent lookup"),
    }
    let own = s("area-1");
    assert_eq!(
        asset_refusal(next_asset_check(&p, Some(&own), AssetCheckEvent::SitesCounted(1))),
        "Un asset no puede ser su propio padre"
    );
    assert_eq!(
        asset_refusal(next_asset_check(&p, None, AssetCheckEvent::ParentFound(None))),
        "El asset padre referenciado no existe"
    );
    assert_eq!(
        asset_refusal(next_asset_check(&p, None, AssetCheckEvent::ParentFound(Some(s("site-2"))))),
        "El asset padre debe pertenecer al mismo site"
    );
    assert!(matches!(
        next_asset_check(&p, None, AssetCheckEvent::ParentFound(Some(s("site-1")))),
        AssetCheckAction::Accept
    ));
    let orphan = AssetPayload { parent_asset_id: None, ..p };
    assert!(matches!(
        next_asset_check(&orphan, None, AssetCheckEvent::SitesCounted(1)),
        AssetCheckAction::Accept
    ));
    let blank = AssetPayload { kind: s("  "), ..orphan };
    assert_eq!(
        asset_refusal(next_asset_check(&blank, None, AssetCheckEvent::Received)),
        "El kind del asset es obligatorio"
    );
}

#[test]
fn updates_store_trimmed_names() {
    assert_eq!(stored_site(SitePayload { name: s(" Norte ") }).name, "Norte");
    let a = stored_asset(AssetPayload {
        site_id: s("site-1"),
        parent_asset_id: None,
        name: s("\tPLC "),
        kind: s(" plc"),
    });
    assert_eq!(a.name, "PLC");
    assert_eq!(a.kind, "plc");
    assert_eq!(a.site_id, "site-1");
    assert!(a.parent_asset_id.is_none());
}
