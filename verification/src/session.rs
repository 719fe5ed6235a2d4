//! The session-lookup data model and the decisions made over it.
//!
//! The metadata service is an external collaborator reached over HTTP; the
//! caller performs the lookup and hands the outcome here as plain values.
//! The lookup is informational only: it never gates the protocol exchange,
//! it only annotates the final report.

use vstd::prelude::*;

verus! {

/// The HTTP status code by which the metadata service reports a session
/// absent.
pub const STATUS_NOT_FOUND: i32 = 404;

/// Session metadata as the service reports it. Timestamps are carried as
/// seconds since the Unix epoch.
#[derive(Debug, PartialEq, Eq)]
pub struct Session {
    pub name: Option<String>,
    pub description: Option<String>,
    pub corresponding_world_id: Option<World>,
    pub tags: Vec<String>,
    pub session_id: String,
    pub normalized_session_id: String,
    pub host_user_id: Option<String>,
    pub host_machine_id: String,
    pub host_username: String,
    pub compatibility_hash: String,
    pub universe_id: Option<String>,
    pub neos_version: String,
    pub headless_host: bool,
    pub session_urls: Vec<String>,
    pub session_users: Vec<SessionUser>,
    pub thumbnail: Option<String>,
    pub joined_users: i32,
    pub active_users: i32,
    pub max_users: i32,
    pub mobile_friendly: bool,
    /// seconds since the Unix epoch
    pub session_begin_time: i64,
    /// seconds since the Unix epoch
    pub last_update: i64,
    pub away_since: Option<String>,
    pub access_level: String,
    pub has_ended: bool,
    pub is_valid: bool,
}

#[derive(Debug, PartialEq, Eq)]
pub struct World {
    pub record_id: String,
    pub owner_id: String,
}

#[derive(Debug, PartialEq, Eq)]
pub struct SessionUser {
    pub username: String,
    pub user_id: Option<String>,
    pub is_present: bool,
}

/// The service's structured failure report.
#[derive(Debug, PartialEq, Eq)]
pub struct ErrorResponse {
    pub error_type: String,
    pub title: String,
    pub status: i32,
    pub trace_id: String,
}

/// What a lookup yields when the service answers at all: the metadata, or
/// its failure report.
#[derive(Debug, PartialEq, Eq)]
pub enum SessionResponse {
    Session(Session),
    Error(ErrorResponse),
}

/// Whether a lookup outcome says the session is missing: only a structured
/// failure report with the not-found status does; transport failures and
/// successful answers do not.
pub fn session_missing(lookup: &Result<SessionResponse, String>) -> (r: bool)
    ensures
        r == match lookup {
            Ok(resp) => match resp {
                SessionResponse::Error(e) => e.status == STATUS_NOT_FOUND,
                SessionResponse::Session(_) => false,
            },
            Err(_) => false,
        },
{
    match lookup {
        Ok(SessionResponse::Error(e)) => e.status == STATUS_NOT_FOUND,
        _ => false,
    }
}

} // verus!
