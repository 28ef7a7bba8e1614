use backend::error::PlaceError;
use backend::session::{CloseReason, Frame, PlaceSession, SessionAction, SessionState};

fn active(uuid: &str) -> PlaceSession {
    let mut s = PlaceSession::new(uuid.to_string());
    s.started();
    s
}

#[test]
fn session_starts_connecting_then_active() {
    let mut s = PlaceSession::new("u".to_string());
    assert_eq!(s.state, SessionState::Connecting);
    assert!(s.close_reason.is_none());
    s.started();
    assert_eq!(s.state, SessionState::Active);
}

#[test]
fn ping_is_answered_with_payload() {
    let mut s = active("u");
    match s.handle_ws(Frame::Ping(vec![1, 2, 3])) {
        SessionAction::Pong(p) => assert_eq!(p, vec![1, 2, 3]),
        _ => panic!("expected pong"),
    }
}

#[test]
fn text_is_echoed() {
    let mut s = active("u");
    match s.handle_ws(Frame::Text("hello".to_string())) {
        SessionAction::Text(t) => assert_eq!(t, "hello"),
        _ => panic!("expected echo"),
    }
}

#[test]
fn binary_becomes_placement() {
    let mut s = active("user-1");
    match s.handle_ws(Frame::Binary(vec![0, 3, 0, 4, 2])) {
        SessionAction::Place(m) => {
            assert_eq!(m.uuid, "user-1");
            assert_eq!((m.pixel_update.pos_x, m.pixel_update.pos_y, m.pixel_update.color), (3, 4, 2));
        }
        _ => panic!("expected placement"),
    }
    assert_eq!(s.state, SessionState::Active);
}

#[test]
fn short_binary_is_reported() {
    let mut s = active("u");
    match s.handle_ws(Frame::Binary(vec![0, 3])) {
        SessionAction::Text(t) => assert_eq!(t, "Error deserializing pixel color update"),
        _ => panic!("expected error text"),
    }
}

#[test]
fn close_frame_then_disconnect_once() {
    let mut s = active("u");
    let reason = CloseReason { code: 1000, description: Some("bye".to_string()) };
    assert!(matches!(s.handle_ws(Frame::Close(Some(reason))), SessionAction::CloseSocket));
    assert_eq!(s.state, SessionState::Closing);
    assert_eq!(s.close_reason.as_ref().map(|r| r.code), Some(1000));
    assert!(matches!(s.handle_ws(Frame::Text("late".to_string())), SessionAction::Nothing));
    assert_eq!(s.stopping(), Some("u".to_string()));
    assert_eq!(s.state, SessionState::Closed);
    assert_eq!(s.stopping(), None);
}

#[test]
fn stream_end_closes_without_reason() {
    let mut s = active("u");
    s.close(None);
    assert_eq!(s.state, SessionState::Closing);
    assert!(s.close_reason.is_none());
    s.close(Some(CloseReason { code: 1001, description: None }));
    assert!(s.close_reason.is_none());
    assert_eq!(s.stopping(), Some("u".to_string()));
}

#[test]
fn other_frames_and_inactive_sessions_do_nothing() {
    let mut s = active("u");
    assert!(matches!(s.handle_ws(Frame::Other), SessionAction::Nothing));
    let mut fresh = PlaceSession::new("v".to_string());
    assert!(matches!(fresh.handle_ws(Frame::Ping(vec![])), SessionAction::Nothing));
    assert_eq!(fresh.stopping(), None);
}

#[test]
fn rejection_is_reported_as_text() {
    let s = active("u");
    match s.place_result(&Err(PlaceError::QuotaExhausted)) {
        SessionAction::Text(t) => assert_eq!(t, "No pixels left"),
        _ => panic!("expected text"),
    }
    match s.place_result(&Err(PlaceError::OutOfBounds)) {
        SessionAction::Text(t) => assert_eq!(t, "Invalid position in canvas"),
        _ => panic!("expected text"),
    }
    assert!(matches!(s.place_result(&Ok(())), SessionAction::Nothing));
}

#[test]
fn place_pixel_decodes_or_explains() {
    let s = active("id-7");
    let m = s.place_pixel(&[0, 1, 0, 2, 3]).ok().unwrap();
    assert_eq!(m.uuid, "id-7");
    assert_eq!((m.pixel_update.pos_x, m.pixel_update.pos_y, m.pixel_update.color), (1, 2, 3));
    assert_eq!(s.place_pixel(&[1]).err().unwrap(), "Error deserializing pixel color update");
}
