//! The request and response shapes exchanged between client and server.
//!
//! Timestamps are carried as [`Timestamp`], a plain count of nanoseconds
//! since the Unix epoch; the `data` field of a history entry is an opaque
//! payload the server never interprets.

use vstd::prelude::*;

verus! {

/// A point in time, as nanoseconds since the Unix epoch.
///
/// Event time comes from the client's clock; server-observed insertion time
/// is assigned by the server and compared against cursor values.
#[derive(Clone, Copy, Debug, Hash, PartialEq, Eq, Structural)]
pub struct Timestamp {
    pub unix_nanos: i64,
}

impl View for Timestamp {
    type V = int;

    open spec fn view(&self) -> int {
        self.unix_nanos as int
    }
}

/// Identifies the user behind a session.
#[derive(Clone, Debug, PartialEq, Eq)]
pub struct UserResponse {
    pub username: String,
}

/// Creates an account; all three fields are required.
#[derive(Clone, Debug, PartialEq, Eq)]
pub struct RegisterRequest {
    pub email: String,
    pub username: String,
    pub password: String,
}

/// The bearer session token issued at registration.
#[derive(Clone, Debug, PartialEq, Eq)]
pub struct RegisterResponse {
    pub session: String,
}

/// Authenticates an existing account.
#[derive(Clone, Debug, PartialEq, Eq)]
pub struct LoginRequest {
    pub username: String,
    pub password: String,
}

/// The bearer session token re-issued at login.
#[derive(Clone, Debug, PartialEq, Eq)]
pub struct LoginResponse {
    pub session: String,
}

/// A single history entry to upsert, keyed on its client-generated `id`.
#[derive(Clone, Debug, PartialEq, Eq)]
pub struct AddHistoryRequest {
    pub id: String,
    pub timestamp: Timestamp,
    pub data: String,
    pub hostname: String,
}

/// The ghost model of an [`AddHistoryRequest`].
pub ghost struct AddHistoryModel {
    pub id: Seq<char>,
    pub timestamp: int,
    pub data: Seq<char>,
    pub hostname: Seq<char>,
}

impl View for AddHistoryRequest {
    type V = AddHistoryModel;

    open spec fn view(&self) -> AddHistoryModel {
        AddHistoryModel {
            id: self.id@,
            timestamp: self.timestamp@,
            data: self.data@,
            hostname: self.hostname@,
        }
    }
}

/// The authoritative live-entry count for an account.
#[derive(Clone, Copy, Debug, PartialEq, Eq)]
pub struct CountResponse {
    pub count: i64,
}

/// The cursor a client carries between delta-sync calls.
///
/// `sync_ts` bounds server-observed insertion time, `history_ts` bounds
/// client event time, and a non-empty `host` restricts results to one origin
/// machine (exact match).
#[derive(Clone, Debug, PartialEq, Eq)]
pub struct SyncHistoryRequest {
    pub sync_ts: Timestamp,
    pub history_ts: Timestamp,
    pub host: String,
}

/// The ghost model of a [`SyncHistoryRequest`].
pub ghost struct CursorModel {
    pub sync_ts: int,
    pub history_ts: int,
    pub host: Seq<char>,
}

impl View for SyncHistoryRequest {
    type V = CursorModel;

    open spec fn view(&self) -> CursorModel {
        CursorModel { sync_ts: self.sync_ts@, history_ts: self.history_ts@, host: self.host@ }
    }
}

/// The opaque payloads selected by a sync, in insertion order.
#[derive(Clone, Debug, PartialEq, Eq)]
pub struct SyncHistoryResponse {
    pub history: Vec<String>,
}

impl View for SyncHistoryResponse {
    type V = Seq<Seq<char>>;

    open spec fn view(&self) -> Seq<Seq<char>> {
        self.history@.map_values(|s: String| s@)
    }
}

/// The wire form of a failure.
#[derive(Clone, Debug, PartialEq, Eq)]
pub struct ErrorResponse {
    pub reason: String,
}

/// The service's landing document.
#[derive(Clone, Debug, PartialEq, Eq)]
pub struct IndexResponse {
    pub homage: String,
    pub version: String,
}

/// A reconciliation snapshot: the live-entry count and the ids tombstoned so
/// far, so a client can detect drift and apply deletions without a full
/// re-sync.
#[derive(Clone, Debug, PartialEq, Eq)]
pub struct StatusResponse {
    pub count: i64,
    pub deleted: Vec<String>,
}

/// Tombstones the entry with the named client-generated id.
#[derive(Clone, Debug, PartialEq, Eq)]
pub struct DeleteHistoryRequest {
    pub client_id: String,
}

/// A plain informational message.
#[derive(Clone, Debug, PartialEq, Eq)]
pub struct MessageResponse {
    pub message: String,
}

} // verus!
