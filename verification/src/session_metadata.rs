//! The metadata saved once per logging session.
use vstd::prelude::*;
use crate::applications::AppWindow;
use crate::text::string_of;
use crate::uuid_text::{is_v4_uuid_text, spec_v4_uuid_text, v4_uuid_text};

verus! {

/// File name of the session metadata.
pub const SESSION_METADATA_FILE: &'static str = "session_metadata.json";

/// Session-level metadata.
#[derive(Debug, Clone)]
pub struct SessionMetadata {
    pub operation_logger_version: String,
    pub is_production_build: bool,
    pub local_participant_id: String,
    pub session_id: String,
    pub started_at_utc: String,
    pub target_app: SessionTargetApp,
}

/// The application a session logs.
#[derive(Debug, Clone)]
pub struct SessionTargetApp {
    pub title: String,
    pub process_name: String,
}

/// The process name recorded for an application: its own, or `unknown`.
pub open spec fn recorded_process_name(app: AppWindow) -> Seq<char> {
    match app.process_name {
        Some(name) => name@,
        None => "unknown"@,
    }
}

/// The metadata of a new session of `app`: the given version, build kind,
/// participant id and start time, a fresh random session id, and the
/// application's title and process name.
pub fn session_metadata_for(
    app: &AppWindow,
    local_participant_id: &str,
    operation_logger_version: &str,
    is_production_build: bool,
    started_at_utc: String,
    session_random_bytes: [u8; 16],
) -> (m: SessionMetadata)
    ensures
        m.session_id@ == spec_v4_uuid_text(session_random_bytes@),
        m.operation_logger_version@ == operation_logger_version@,
        m.is_production_build == is_production_build,
        m.local_participant_id@ == local_participant_id@,
        is_v4_uuid_text(m.session_id@),
        m.started_at_utc == started_at_utc,
        m.target_app.title@ == app.title@,
        m.target_app.process_name@ == recorded_process_name(*app),
{
    let process_name = match &app.process_name {
        Some(name) => name.clone(),
        None => string_of("unknown"),
    };
    SessionMetadata {
        operation_logger_version: string_of(operation_logger_version),
        is_production_build,
        local_participant_id: string_of(local_participant_id),
        session_id: v4_uuid_text(session_random_bytes),
        started_at_utc,
        target_app: SessionTargetApp { title: app.title.clone(), process_name },
    }
}

} // verus!
