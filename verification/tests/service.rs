use atuin_common::api::{
    AddHistoryRequest, DeleteHistoryRequest, LoginRequest, RegisterRequest, SyncHistoryRequest,
    Timestamp,
};
use atuin_common::error::ServiceError;
use atuin_common::server::Server;

fn register_req(email: &str, username: &str, password: &str) -> RegisterRequest {
    RegisterRequest {
        email: email.to_string(),
        username: username.to_string(),
        password: password.to_string(),
    }
}

fn add_req(id: &str, ts: i64, data: &str, hostname: &str) -> AddHistoryRequest {
    AddHistoryRequest {
        id: id.to_string(),
        timestamp: Timestamp { unix_nanos: ts },
        data: data.to_string(),
        hostname: hostname.to_string(),
    }
}

fn cursor(sync_ts: i64, history_ts: i64, host: &str) -> SyncHistoryRequest {
    SyncHistoryRequest {
        sync_ts: Timestamp { unix_nanos: sync_ts },
        history_ts: Timestamp { unix_nanos: history_ts },
        host: host.to_string(),
    }
}

fn delete_req(id: &str) -> DeleteHistoryRequest {
    DeleteHistoryRequest { client_id: id.to_string() }
}

#[test]
fn end_to_end_scenario() {
    let mut server = Server::new();
    let reg = server
        .register(&register_req("u@example.com", "u", "pw"))
        .unwrap();
    assert_eq!(reg.session.len(), 32);
    let login = server
        .login(&LoginRequest { username: "u".to_string(), password: "pw".to_string() })
        .unwrap();
    let session = login.session;

    server
        .add_history(&session, &add_req("id1", 10, "one", "host-a"), Timestamp { unix_nanos: 100 })
        .unwrap();
    server
        .add_history(&session, &add_req("id2", 20, "two", "host-a"), Timestamp { unix_nanos: 200 })
        .unwrap();
    server
        .add_history(&session, &add_req("id3", 30, "three", "host-a"), Timestamp {
            unix_nanos: 300,
        })
        .unwrap();

    let resp = server.sync_history(&session, &cursor(0, 0, "")).unwrap();
    assert_eq!(resp.history, vec!["one".to_string(), "two".to_string(), "three".to_string()]);

    server.delete_history(&session, &delete_req("id2")).unwrap();
    let status = server.status(&session).unwrap();
    assert_eq!(status.count, 2);
    assert_eq!(status.deleted, vec!["id2".to_string()]);
}

#[test]
fn add_history_is_idempotent() {
    let mut server = Server::new();
    let session = server
        .register(&register_req("a@example.com", "a", "pw"))
        .unwrap()
        .session;
    let req = add_req("same-id", 7, "payload", "h");
    server.add_history(&session, &req, Timestamp { unix_nanos: 50 }).unwrap();
    let count_once = server.count(&session).unwrap().count;
    server.add_history(&session, &req, Timestamp { unix_nanos: 60 }).unwrap();
    let count_twice = server.count(&session).unwrap().count;
    assert_eq!(count_once, 1);
    assert_eq!(count_twice, 1);
    let resp = server.sync_history(&session, &cursor(0, 0, "")).unwrap();
    assert_eq!(resp.history, vec!["payload".to_string()]);
}

#[test]
fn sync_is_monotonic() {
    let mut server = Server::new();
    let session = server
        .register(&register_req("m@example.com", "m", "pw"))
        .unwrap()
        .session;
    server
        .add_history(&session, &add_req("id1", 10, "one", "h"), Timestamp { unix_nanos: 100 })
        .unwrap();
    server
        .add_history(&session, &add_req("id2", 20, "two", "h"), Timestamp { unix_nanos: 200 })
        .unwrap();
    let first = server.sync_history(&session, &cursor(0, 0, "")).unwrap();
    assert_eq!(first.history, vec!["one".to_string(), "two".to_string()]);
    // The max server-observed insertion time in the first response is 200.
    let second = server.sync_history(&session, &cursor(200, 0, "")).unwrap();
    assert_eq!(second.history, Vec::<String>::new());
    // A later entry is still delivered.
    server
        .add_history(&session, &add_req("id3", 30, "three", "h"), Timestamp { unix_nanos: 300 })
        .unwrap();
    let third = server.sync_history(&session, &cursor(200, 0, "")).unwrap();
    assert_eq!(third.history, vec!["three".to_string()]);
}

#[test]
fn sync_filters_by_host_and_event_time() {
    let mut server = Server::new();
    let session = server
        .register(&register_req("h@example.com", "h", "pw"))
        .unwrap()
        .session;
    server
        .add_history(&session, &add_req("id1", 10, "one", "laptop"), Timestamp { unix_nanos: 100 })
        .unwrap();
    server
        .add_history(&session, &add_req("id2", 20, "two", "desktop"), Timestamp {
            unix_nanos: 200,
        })
        .unwrap();
    let laptop_only = server.sync_history(&session, &cursor(0, 0, "laptop")).unwrap();
    assert_eq!(laptop_only.history, vec!["one".to_string()]);
    let all = server.sync_history(&session, &cursor(0, 0, "")).unwrap();
    assert_eq!(all.history, vec!["one".to_string(), "two".to_string()]);
    // The event-time filter is independent of the insertion-time filter.
    let recent_events = server.sync_history(&session, &cursor(0, 10, "")).unwrap();
    assert_eq!(recent_events.history, vec!["two".to_string()]);
}

#[test]
fn watermark_never_regresses() {
    let mut server = Server::new();
    let session = server
        .register(&register_req("w@example.com", "w", "pw"))
        .unwrap()
        .session;
    // The second arrival carries an earlier clock reading; the server pushes
    // its insertion time forward to the watermark, so a cursor beyond the
    // first entry still sees the second.
    server
        .add_history(&session, &add_req("id1", 10, "one", "h"), Timestamp { unix_nanos: 500 })
        .unwrap();
    server
        .add_history(&session, &add_req("id2", 20, "two", "h"), Timestamp { unix_nanos: 100 })
        .unwrap();
    let resp = server.sync_history(&session, &cursor(400, 0, "")).unwrap();
    assert_eq!(resp.history, vec!["one".to_string(), "two".to_string()]);
}

#[test]
fn deletion_reconciliation() {
    let mut server = Server::new();
    let session = server
        .register(&register_req("d@example.com", "d", "pw"))
        .unwrap()
        .session;
    server
        .add_history(&session, &add_req("keep", 10, "one", "h"), Timestamp { unix_nanos: 100 })
        .unwrap();
    server
        .add_history(&session, &add_req("drop", 20, "two", "h"), Timestamp { unix_nanos: 200 })
        .unwrap();
    let before = server.status(&session).unwrap();
    assert_eq!(before.count, 2);
    assert_eq!(before.deleted, Vec::<String>::new());

    server.delete_history(&session, &delete_req("drop")).unwrap();
    let after = server.status(&session).unwrap();
    assert_eq!(after.count, before.count - 1);
    assert_eq!(after.deleted, vec!["drop".to_string()]);
    // The tombstoned entry is no longer synced.
    let resp = server.sync_history(&session, &cursor(0, 0, "")).unwrap();
    assert_eq!(resp.history, vec!["one".to_string()]);
}

#[test]
fn delete_unknown_or_deleted_id_is_not_found() {
    let mut server = Server::new();
    let session = server
        .register(&register_req("n@example.com", "n", "pw"))
        .unwrap()
        .session;
    assert_eq!(
        server.delete_history(&session, &delete_req("missing")),
        Err(ServiceError::NotFound)
    );
    server
        .add_history(&session, &add_req("once", 10, "one", "h"), Timestamp { unix_nanos: 100 })
        .unwrap();
    assert_eq!(server.delete_history(&session, &delete_req("once")), Ok(()));
    assert_eq!(server.delete_history(&session, &delete_req("once")), Err(ServiceError::NotFound));
    // The failed retry changed nothing.
    assert_eq!(server.status(&session).unwrap().deleted, vec!["once".to_string()]);
}

#[test]
fn register_rejects_duplicates_and_empty_fields() {
    let mut server = Server::new();
    server.register(&register_req("u@example.com", "u", "pw")).unwrap();
    assert_eq!(
        server.register(&register_req("other@example.com", "u", "pw")),
        Err(ServiceError::Conflict)
    );
    assert_eq!(
        server.register(&register_req("u@example.com", "other", "pw")),
        Err(ServiceError::Conflict)
    );
    assert_eq!(server.register(&register_req("", "v", "pw")), Err(ServiceError::InvalidInput));
    assert_eq!(
        server.register(&register_req("v@example.com", "", "pw")),
        Err(ServiceError::InvalidInput)
    );
    assert_eq!(
        server.register(&register_req("v@example.com", "v", "")),
        Err(ServiceError::InvalidInput)
    );
}

#[test]
fn login_rejects_bad_credentials() {
    let mut server = Server::new();
    server.register(&register_req("u@example.com", "u", "pw")).unwrap();
    assert_eq!(
        server.login(&LoginRequest { username: "u".to_string(), password: "wrong".to_string() }),
        Err(ServiceError::Unauthorized)
    );
    assert_eq!(
        server.login(&LoginRequest { username: "nobody".to_string(), password: "pw".to_string() }),
        Err(ServiceError::Unauthorized)
    );
    assert!(server
        .login(&LoginRequest { username: "u".to_string(), password: "pw".to_string() })
        .is_ok());
}

#[test]
fn operations_require_a_valid_session() {
    let mut server = Server::new();
    server.register(&register_req("u@example.com", "u", "pw")).unwrap();
    let bogus = "not-a-session".to_string();
    assert_eq!(
        server.add_history(&bogus, &add_req("id", 1, "x", "h"), Timestamp { unix_nanos: 1 }),
        Err(ServiceError::Unauthorized)
    );
    assert_eq!(server.sync_history(&bogus, &cursor(0, 0, "")).unwrap_err(), ServiceError::Unauthorized);
    assert_eq!(server.status(&bogus).unwrap_err(), ServiceError::Unauthorized);
    assert_eq!(server.count(&bogus).unwrap_err(), ServiceError::Unauthorized);
    assert_eq!(server.me(&bogus).unwrap_err(), ServiceError::Unauthorized);
    assert_eq!(
        server.delete_history(&bogus, &delete_req("id")),
        Err(ServiceError::Unauthorized)
    );
}

#[test]
fn add_history_rejects_empty_id() {
    let mut server = Server::new();
    let session = server
        .register(&register_req("u@example.com", "u", "pw"))
        .unwrap()
        .session;
    assert_eq!(
        server.add_history(&session, &add_req("", 1, "x", "h"), Timestamp { unix_nanos: 1 }),
        Err(ServiceError::InvalidInput)
    );
    assert_eq!(server.count(&session).unwrap().count, 0);
}

#[test]
fn me_identifies_the_session_owner() {
    let mut server = Server::new();
    let s1 = server
        .register(&register_req("a@example.com", "alice", "pw"))
        .unwrap()
        .session;
    let s2 = server
        .register(&register_req("b@example.com", "bob", "pw"))
        .unwrap()
        .session;
    assert_eq!(server.me(&s1).unwrap().username, "alice".to_string());
    assert_eq!(server.me(&s2).unwrap().username, "bob".to_string());
}

#[test]
fn accounts_are_isolated() {
    let mut server = Server::new();
    let s1 = server
        .register(&register_req("a@example.com", "alice", "pw"))
        .unwrap()
        .session;
    let s2 = server
        .register(&register_req("b@example.com", "bob", "pw"))
        .unwrap()
        .session;
    server
        .add_history(&s1, &add_req("id1", 1, "alice-data", "h"), Timestamp { unix_nanos: 10 })
        .unwrap();
    assert_eq!(server.count(&s1).unwrap().count, 1);
    assert_eq!(server.count(&s2).unwrap().count, 0);
    let resp = server.sync_history(&s2, &cursor(0, 0, "")).unwrap();
    assert_eq!(resp.history, Vec::<String>::new());
}
