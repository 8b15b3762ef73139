//! What the event handlers decide.

use vstd::prelude::*;

use crate::error::{not_found_message, rejected, AppError, Entity};
use crate::events::models::{accepts_rfc3339, rfc3339_accepts, EventPayload};
use crate::ids::{is_uuid_v4_text, new_id};
use crate::text::{is_blank, is_blank_str};

verus! {

/// The checks of an event payload made before the database is asked.
pub fn validate_event_fields(payload: &EventPayload) -> (r: Result<(), AppError>)
    ensures
        r is Ok <==> !is_blank(payload.schedule_id@) && rfc3339_accepts(payload.start@),
        is_blank(payload.schedule_id@) ==> rejected(r, "schedule_id es obligatorio"@),
        !is_blank(payload.schedule_id@) && !rfc3339_accepts(payload.start@) ==> rejected(
            r,
            "La fecha de inicio no es válida"@,
        ),
{
    if is_blank_str(payload.schedule_id.as_str()) {
        return Err(AppError::BadRequest("schedule_id es obligatorio".to_string()));
    }
    if !accepts_rfc3339(payload.start.as_str()) {
        return Err(AppError::BadRequest("La fecha de inicio no es válida".to_string()));
    }
    Ok(())
}

/// The schedule an event names must exist.
pub fn check_schedule_exists(schedule_count: i64) -> (r: Result<(), AppError>)
    ensures
        r is Ok <==> schedule_count != 0,
        r is Err ==> rejected(r, "El schedule referenciado no existe"@),
{
    if schedule_count == 0 {
        return Err(AppError::BadRequest("El schedule referenciado no existe".to_string()));
    }
    Ok(())
}

/// What an owner is asked to do with an event.
#[derive(Clone, Copy, Debug, PartialEq, Eq, Structural)]
pub enum EventAction {
    Edit,
    Delete,
}

/// The answer to a user who may not touch someone else's event.
pub open spec fn not_owner_message(action: EventAction) -> Seq<char> {
    match action {
        EventAction::Edit => "No tiene privilegio de editar este evento"@,
        EventAction::Delete => "No tiene privilegio de eliminar este evento"@,
    }
}

/// Only the owner of an event may edit or delete it; `owner` is the stored
/// owner (`None` when no event has the id).
pub fn check_event_owner(owner: Option<String>, uid: &String, action: EventAction) -> (r: Result<
    (),
    AppError,
>)
    ensures
        match owner {
            None => r matches Err(e) && e.is_not_found(not_found_message(Entity::Event)),
            Some(o) => if o@ == uid@ {
                r is Ok
            } else {
                r matches Err(e) && e.is_unauthorized(not_owner_message(action))
            },
        },
{
    match owner {
        None => Err(crate::error::not_found(Entity::Event)),
        Some(o) => {
            if !(o == *uid) {
                let m = match action {
                    EventAction::Edit => "No tiene privilegio de editar este evento",
                    EventAction::Delete => "No tiene privilegio de eliminar este evento",
                };
                return Err(AppError::Unauthorized(m.to_string()));
            }
            Ok(())
        },
    }
}

/// What `POST /events` stores: a fresh id and the payload as sent (the
/// owner is the signed-in user).
pub fn new_event_record(payload: EventPayload) -> (r: (String, EventPayload))
    ensures
        is_uuid_v4_text(r.0@),
        r.1 == payload,
{
    (new_id(), payload)
}

} // verus!
