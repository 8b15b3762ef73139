use calendar_backend::error::AppError;
use calendar_backend::events::handlers::{
    check_event_owner, check_schedule_exists, new_event_record, validate_event_fields, EventAction,
};
use calendar_backend::events::models::{EventPayload, EventResponse, EventRow};
use calendar_backend::text::is_blank_str;

fn payload(schedule_id: &str, start: &str) -> EventPayload {
    EventPayload { schedule_id: schedule_id.to_string(), start: start.to_string() }
}

#[test]
fn rejects_dates_that_are_not_rfc3339() {
    let p = payload("schedule-1", "not-a-date");
    match validate_event_fields(&p) {
        Err(AppError::BadRequest(m)) => assert_eq!(m, "La fecha de inicio no es válida"),
        _ => panic!("expected BadRequest"),
    }
}

#[test]
fn rejects_an_empty_schedule_id() {
    let p = payload("   ", "2026-09-10T15:00:00.000Z");
    assert!(is_blank_str(&p.schedule_id));
}

#[test]
fn event_fields_are_checked_in_order() {
    match validate_event_fields(&payload("   ", "not-a-date")) {
        Err(AppError::BadRequest(m)) => assert_eq!(m, "schedule_id es obligatorio"),
        _ => panic!("expected BadRequest"),
    }
    match validate_event_fields(&payload("schedule-1", "not-a-date")) {
        Err(AppError::BadRequest(m)) => assert_eq!(m, "La fecha de inicio no es válida"),
        _ => panic!("expected BadRequest"),
    }
    assert!(validate_event_fields(&payload("schedule-1", "2026-09-10T15:00:00.000Z")).is_ok());
    match check_schedule_exists(0) {
        Err(AppError::BadRequest(m)) => assert_eq!(m, "El schedule referenciado no existe"),
        _ => panic!("expected BadRequest"),
    }
    assert!(check_schedule_exists(1).is_ok());
}

fn row(start: &str) -> EventRow {
    EventRow {
        id: "ev-1".to_string(),
        schedule_id: "sch-1".to_string(),
        title: "Arranque bomba".to_string(),
        start_date: start.to_string(),
        user_id: "uid-1".to_string(),
        user_name: "Ana".to_string(),
    }
}

#[test]
fn events_are_drawn_thirty_minutes_long() {
    let r = EventResponse::from(row("2026-09-10T15:00:00.000Z"));
    assert_eq!(r.start, "2026-09-10T15:00:00.000Z");
    assert_eq!(r.end, "2026-09-10T15:30:00.000Z");
    assert_eq!(r.title, "Arranque bomba");
    assert_eq!(r.user.uid, "uid-1");
    assert_eq!(r.user.name, "Ana");
    let r = EventResponse::from(row("2026-12-31T23:45:10.5+02:00"));
    assert_eq!(r.end, "2027-01-01T00:15:10.500+02:00");
    // a start that is not RFC 3339 is drawn with no length
    let r = EventResponse::from(row("mañana"));
    assert_eq!(r.end, "mañana");
}

#[test]
fn only_the_owner_touches_an_event() {
    let uid = "uid-1".to_string();
    assert!(check_event_owner(Some("uid-1".to_string()), &uid, EventAction::Edit).is_ok());
    match check_event_owner(Some("uid-2".to_string()), &uid, EventAction::Edit) {
        Err(AppError::Unauthorized(m)) => assert_eq!(m, "No tiene privilegio de editar este evento"),
        _ => panic!("expected Unauthorized"),
    }
    match check_event_owner(Some("uid-2".to_string()), &uid, EventAction::Delete) {
        Err(AppError::Unauthorized(m)) => assert_eq!(m, "No tiene privilegio de eliminar este evento"),
        _ => panic!("expected Unauthorized"),
    }
    match check_event_owner(None, &uid, EventAction::Delete) {
        Err(e @ AppError::NotFound(_)) => {
            assert_eq!(e.message(), "Evento no existe por ese id");
            assert_eq!(e.status_code(), 404);
        }
        _ => panic!("expected NotFound"),
    }
}

#[test]
fn a_new_event_keeps_what_was_sent() {
    let (id, stored) = new_event_record(payload("schedule-1", "2026-09-10T15:00:00.000Z"));
    assert_eq!(id.len(), 36);
    assert_eq!(id.chars().nth(14), Some('4'));
    assert_eq!(stored.schedule_id, "schedule-1");
    assert_eq!(stored.start, "2026-09-10T15:00:00.000Z");
}
