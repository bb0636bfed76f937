//! App logic that spans modules: events waiting for the frontend, and
//! requests waiting for the native wrapper.

use vstd::prelude::*;

verus! {

/// Events that accumulate until they are sent to the UI.
#[derive(Debug, Clone)]
pub struct PendingEvents {
    /// A `scoria://` url the app was opened with.
    pub opened_url: Option<String>,
}

/// Records an incoming `scoria://` url, which may come before the frontend
/// connects. Returns the events to send now: all pending events when the
/// frontend is connected (they are then no longer pending), else none.
pub fn handle_url_scheme(
    pending: &mut Option<PendingEvents>,
    url: String,
    frontend_connected: bool,
) -> (send: Option<PendingEvents>)
    ensures
        frontend_connected ==> (*final(pending)) is None && (send matches Some(e) && e.opened_url
            == Some(url)),
        !frontend_connected ==> send is None && ((*final(pending)) matches Some(e) && e.opened_url
            == Some(url)),
{
    match pending {
        Some(events) => {
            events.opened_url = Some(url);
        },
        None => {
            *pending = Some(PendingEvents { opened_url: Some(url) });
        },
    }
    if frontend_connected {
        pending.take()
    } else {
        None
    }
}

/// Requests waiting for the native wrapper to act on them.
#[derive(Debug, Clone, Copy, PartialEq, Eq, Structural)]
pub struct WrapperMessages {
    pub should_request_when_in_use_authorization: bool,
    pub should_go_to_location_settings: bool,
    /// Export the SQLite log in a share sheet.
    pub should_export_sqlite_log: bool,
    /// Import an SQLite log.
    pub should_import_sqlite_log: bool,
    pub should_export_track: bool,
    pub should_import_places_geojson: bool,
    pub should_mount_db: bool,
    pub should_export_image: bool,
}

impl Default for WrapperMessages {
    /// Nothing requested.
    fn default() -> (m: Self)
        ensures
            m == (WrapperMessages {
                should_request_when_in_use_authorization: false,
                should_go_to_location_settings: false,
                should_export_sqlite_log: false,
                should_import_sqlite_log: false,
                should_export_track: false,
                should_import_places_geojson: false,
                should_mount_db: false,
                should_export_image: false,
            }),
    {
        WrapperMessages {
            should_request_when_in_use_authorization: false,
            should_go_to_location_settings: false,
            should_export_sqlite_log: false,
            should_import_sqlite_log: false,
            should_export_track: false,
            should_import_places_geojson: false,
            should_mount_db: false,
            should_export_image: false,
        }
    }
}

/// A frontend request that the native wrapper carries out.
#[derive(Debug, Clone, Copy, PartialEq, Eq, Structural)]
pub enum WrapperRequest {
    ExportSqliteLog,
    ImportSqliteLog,
    RequestWhenInUseAuthorization,
}

impl WrapperMessages {
    /// Records a request for the wrapper: raises its flag, leaving the
    /// others as they were.
    pub fn request(&mut self, r: WrapperRequest)
        ensures
            *final(self) == (match r {
                WrapperRequest::ExportSqliteLog => WrapperMessages { should_export_sqlite_log: true, ..*old(self) },
                WrapperRequest::ImportSqliteLog => WrapperMessages { should_import_sqlite_log: true, ..*old(self) },
                WrapperRequest::RequestWhenInUseAuthorization => WrapperMessages {
                    should_request_when_in_use_authorization: true,
                    ..*old(self)
                },
            }),
    {
        match r {
            WrapperRequest::ExportSqliteLog => self.should_export_sqlite_log = true,
            WrapperRequest::ImportSqliteLog => self.should_import_sqlite_log = true,
            WrapperRequest::RequestWhenInUseAuthorization => self.should_request_when_in_use_authorization = true,
        }
    }
}

} // verus!
