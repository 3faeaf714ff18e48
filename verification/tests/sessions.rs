use disco::registry::Registry;
use disco::session::{
    first_free_token, new_session, token_letters, new_instance_id, new_session_token, session_instance, Code, InstanceId, InstanceInfo,
    InstanceState, SessionToken, Timestamp,
};
use disco::viewer::{assignment, ResultNumbering, ViewerAction, ViewerConnection, ViewerEvent};

fn ids(v: &[&str]) -> Vec<InstanceId> {
    v.iter().map(|s| InstanceId { id: s.to_string() }).collect()
}

#[test]
fn instance_ids_fill_the_first_gap() {
    assert_eq!(new_instance_id(&ids(&[]), None).unwrap().id, "1");
    assert_eq!(new_instance_id(&ids(&["1", "2"]), None).unwrap().id, "3");
    assert_eq!(new_instance_id(&ids(&["2", "3"]), None).unwrap().id, "1");
    assert_eq!(new_instance_id(&ids(&["1", "3"]), Some(5)).unwrap().id, "2");
    assert_eq!(new_instance_id(&ids(&["x", "y"]), None).unwrap().id, "1");
}

#[test]
fn full_sessions_refuse_viewers() {
    let err = new_instance_id(&ids(&["1", "2"]), Some(2)).unwrap_err();
    assert_eq!(err.code, Code::Unavailable);
    assert_eq!(err.message, "maximum number of viewers (2) exceeded");
}

#[test]
fn session_tokens() {
    let existing = vec![SessionToken {
        token: "abcd".to_string(),
    }];
    let t = new_session_token(&existing, None).unwrap();
    assert_eq!(t.token.len(), 4);
    assert!(t.token.chars().all(|c| c.is_ascii_lowercase()));
    assert_ne!(t.token, "abcd");
    let err = new_session_token(&existing, Some(1)).unwrap_err();
    assert_eq!(err.code, Code::Unavailable);
    assert_eq!(err.message, "maximum number of sessions (1) exceeded");
}

#[test]
fn request_metadata() {
    let (t, i) = session_instance(Some(Some("tok".to_string())), Some(Some("7".to_string()))).unwrap();
    assert_eq!(t.token, "tok");
    assert_eq!(i.id, "7");
    let e = session_instance(None, Some(Some("7".to_string()))).unwrap_err();
    assert_eq!(e.code, Code::InvalidArgument);
    assert_eq!(e.message, "missing \"session-token\" metadata");
    let e = session_instance(Some(Some("tok".to_string())), Some(None)).unwrap_err();
    assert_eq!(e.message, "failed to decode \"instance-id\" metadata");
}

#[test]
fn status_changes() {
    let mut info = InstanceInfo {
        session_token: None,
        instance_id: None,
        connected_since: None,
        state: InstanceState::Offline.code(),
    };
    let t1 = Timestamp { seconds: 10, nanos: 5 };
    let t2 = Timestamp { seconds: 20, nanos: 0 };
    assert!(!info.is_online());
    info.set_status(InstanceState::Online, t1);
    assert_eq!(info.state, InstanceState::Online.code());
    assert_eq!(info.connected_since, Some(t1));
    assert!(info.is_online());
    info.set_status(InstanceState::Online, t2);
    assert_eq!(info.connected_since, Some(t1));
    info.set_status(InstanceState::Offline, t2);
    assert_eq!(info.connected_since, None);
    assert_eq!(info.state, InstanceState::Offline.code());
}

#[test]
fn viewer_connection_events() {
    let mut c = ViewerConnection::new();
    assert_eq!(
        c.on_event(ViewerEvent::Forwarded { sent: false }, 30),
        ViewerAction::Continue {
            state: InstanceState::Offline,
            heartbeat_through: false
        }
    );
    assert_eq!(
        c.on_event(ViewerEvent::NothingReceived, 30),
        ViewerAction::Continue {
            state: InstanceState::Offline,
            heartbeat_through: false
        }
    );
    assert_eq!(
        c.on_event(ViewerEvent::HeartbeatDue { sent: true, secs_since_heartbeat: 5 }, 30),
        ViewerAction::Continue {
            state: InstanceState::Online,
            heartbeat_through: true
        }
    );
    assert_eq!(c.seq, 1);
    assert_eq!(
        c.on_event(ViewerEvent::HeartbeatDue { sent: false, secs_since_heartbeat: 30 }, 30),
        ViewerAction::Continue {
            state: InstanceState::Offline,
            heartbeat_through: false
        }
    );
    assert_eq!(c.seq, 2);
    assert_eq!(
        c.on_event(ViewerEvent::HeartbeatDue { sent: false, secs_since_heartbeat: 31 }, 30),
        ViewerAction::Remove
    );
    assert_eq!(c.seq, 2);
    assert_eq!(c.on_event(ViewerEvent::Shutdown, 30), ViewerAction::Exit);
}

#[test]
fn results_are_numbered_by_deliveries() {
    let mut n = ResultNumbering::new();
    assert_eq!(n.next_number(), 0);
    n.on_sent(true);
    assert_eq!(n.next_number(), 1);
    n.on_sent(false);
    assert_eq!(n.next_number(), 1);
    n.on_sent(true);
    n.on_sent(true);
    assert_eq!(n.next_number(), 3);
}

fn tokens(v: &[&str]) -> Vec<SessionToken> {
    v.iter().map(|s| SessionToken { token: s.to_string() }).collect()
}

#[test]
fn the_first_free_draw_is_taken() {
    let existing = tokens(&["abcd", "wxyz"]);
    let drawn: Vec<String> = vec!["abcd".into(), "qrst".into(), "mnop".into()];
    assert_eq!(first_free_token(&existing, &drawn).unwrap().token, "qrst");
    let drawn: Vec<String> = vec!["wxyz".into(), "abcd".into()];
    let err = first_free_token(&existing, &drawn).unwrap_err();
    assert_eq!(err.code, Code::Internal);
    assert_eq!(err.message, "failed to generate a new session token");
    assert!(first_free_token(&existing, &vec![]).is_err());
    let letters: String = token_letters().iter().collect();
    assert_eq!(letters, "abcdefghijklmnopqrstuvwxyz");
}

#[test]
fn new_sessions_join_the_store() {
    let mut sessions: Registry<SessionToken, u8> = Registry::new();
    let t = new_session(&mut sessions, Some(2), 1).unwrap();
    assert_eq!(t.token.len(), 4);
    assert_eq!(sessions.get(&t), Some(&1));
    let u = new_session(&mut sessions, Some(2), 2).unwrap();
    assert_ne!(t.token, u.token);
    assert_eq!(sessions.len(), 2);
    let err = new_session(&mut sessions, Some(2), 3).unwrap_err();
    assert_eq!(err.code, Code::Unavailable);
    assert_eq!(err.message, "maximum number of sessions (2) exceeded");
    assert_eq!(sessions.len(), 2);
}

#[test]
fn new_viewers_start_offline_and_are_told_their_ids() {
    let token = SessionToken { token: "abcd".to_string() };
    let id = InstanceId { id: "2".to_string() };
    let info = InstanceInfo::new_offline(token.clone(), id.clone());
    assert_eq!(info.state, InstanceState::Offline.code());
    assert!(info.connected_since.is_none());
    assert_eq!(info.session_token.unwrap().token, "abcd");
    assert_eq!(info.instance_id.unwrap().id, "2");
    let a = assignment(token, id);
    assert_eq!(a.session_token.unwrap().token, "abcd");
    assert_eq!(a.instance_id.unwrap().id, "2");
    let mut conn = ViewerConnection::new();
    assert_eq!(conn.heartbeat().seq, 0);
    conn.on_event(ViewerEvent::HeartbeatDue { sent: true, secs_since_heartbeat: 5 }, 30);
    assert_eq!(conn.heartbeat().seq, 1);
}
