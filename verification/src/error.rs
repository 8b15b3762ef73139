//! The error type that every handler answers with.

use vstd::prelude::*;

verus! {

/// An error answered to the client as `{ ok: false, msg }` with the status of its kind.
#[derive(Debug)]
pub enum AppError {
    BadRequest(String),
    Unauthorized(String),
    NotFound(String),
    Internal(String),
}

impl AppError {
    /// The message carried by the error.
    pub open spec fn msg(&self) -> Seq<char> {
        match self {
            AppError::BadRequest(m) => m@,
            AppError::Unauthorized(m) => m@,
            AppError::NotFound(m) => m@,
            AppError::Internal(m) => m@,
        }
    }

    /// The HTTP status of each kind of error.
    pub open spec fn spec_status(&self) -> u16 {
        match self {
            AppError::BadRequest(_) => 400,
            AppError::Unauthorized(_) => 401,
            AppError::NotFound(_) => 404,
            AppError::Internal(_) => 500,
        }
    }

    /// Whether this is a `BadRequest` carrying exactly `m`.
    pub open spec fn is_bad_request(&self, m: Seq<char>) -> bool {
        self matches AppError::BadRequest(s) && s@ == m
    }

    /// Whether this is an `Unauthorized` carrying exactly `m`.
    pub open spec fn is_unauthorized(&self, m: Seq<char>) -> bool {
        self matches AppError::Unauthorized(s) && s@ == m
    }

    /// Whether this is a `NotFound` carrying exactly `m`.
    pub open spec fn is_not_found(&self, m: Seq<char>) -> bool {
        self matches AppError::NotFound(s) && s@ == m
    }

    pub fn status_code(&self) -> (code: u16)
        ensures
            code == self.spec_status(),
    {
        match self {
            AppError::BadRequest(_) => 400,
            AppError::Unauthorized(_) => 401,
            AppError::NotFound(_) => 404,
            AppError::Internal(_) => 500,
        }
    }

    pub fn message(&self) -> (m: &String)
        ensures
            m@ == self.msg(),
    {
        match self {
            AppError::BadRequest(m) => m,
            AppError::Unauthorized(m) => m,
            AppError::NotFound(m) => m,
            AppError::Internal(m) => m,
        }
    }
}

/// `r` is an `Err(BadRequest(m))`.
pub open spec fn rejected<T>(r: Result<T, AppError>, m: Seq<char>) -> bool {
    r matches Err(e) && e.is_bad_request(m)
}

/// The records whose absence a handler reports.
#[derive(Clone, Copy, Debug, PartialEq, Eq, Structural)]
pub enum Entity {
    Site,
    Asset,
    Connection,
    Tag,
    Schedule,
    Event,
}

/// What is answered when the record is not there.
pub open spec fn not_found_message(e: Entity) -> Seq<char> {
    match e {
        Entity::Site => "El site no existe"@,
        Entity::Asset => "El asset no existe"@,
        Entity::Connection => "La conexión no existe"@,
        Entity::Tag => "El tag no existe"@,
        Entity::Schedule => "La programación no existe"@,
        Entity::Event => "Evento no existe por ese id"@,
    }
}

pub fn not_found(e: Entity) -> (err: AppError)
    ensures
        err.is_not_found(not_found_message(e)),
{
    let m = match e {
        Entity::Site => "El site no existe",
        Entity::Asset => "El asset no existe",
        Entity::Connection => "La conexión no existe",
        Entity::Tag => "El tag no existe",
        Entity::Schedule => "La programación no existe",
        Entity::Event => "Evento no existe por ese id",
    };
    AppError::NotFound(m.to_string())
}

/// A looked-up record, or `NotFound` when the query found none.
pub fn require_found<T>(row: Option<T>, e: Entity) -> (r: Result<T, AppError>)
    ensures
        match row {
            Some(x) => r == Ok::<T, AppError>(x),
            None => r matches Err(err) && err.is_not_found(not_found_message(e)),
        },
{
    match row {
        Some(x) => Ok(x),
        None => Err(not_found(e)),
    }
}

/// An update or delete that touched no row is answered `NotFound`.
pub fn require_affected(rows_affected: u64, e: Entity) -> (r: Result<(), AppError>)
    ensures
        r is Ok <==> rows_affected != 0,
        r matches Err(err) ==> err.is_not_found(not_found_message(e)),
{
    if rows_affected == 0 {
        return Err(not_found(e));
    }
    Ok(())
}

} // verus!
