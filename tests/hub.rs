use backend::canvas::chunk_index_to_key;
use backend::config::Config;
use backend::error::PlaceError;
use backend::hub::{Delivery, Notification, PlaceServer};
use backend::protocol::{PixelColorUpdateMessage, UserPixelColorMessage};
use backend::quota::Client;
use backend::session::{PlaceSession, SessionAction};

fn config() -> Config {
    Config {
        redis_url: String::from("redis://localhost"),
        host: String::from("localhost"),
        debug_mode: false,
        canvas_width: 100,
        canvas_height: 50,
        canvas_chunk_size: 32,
        base_pixel_amount: 5,
        timeout: 60,
        pixels_per_bytes: 2,
        colors: vec![[0, 0, 0]],
        colors_active: None,
    }
}

fn request(uuid: &str, x: u16, y: u16, color: u8) -> UserPixelColorMessage {
    UserPixelColorMessage { pixel_update: PixelColorUpdateMessage { pos_x: x, pos_y: y, color }, uuid: uuid.to_string() }
}

fn online(d: &[Delivery]) -> Vec<(u64, usize)> {
    d.iter()
        .map(|d| match d.notification {
            Notification::Online(n) => (d.session, n),
            Notification::Pixel(_) => panic!("not a count"),
        })
        .collect()
}

#[test]
fn connect_announces_count_to_everyone() {
    let mut hub = PlaceServer::new(config());
    assert_eq!(online(&hub.connect("a".to_string(), 1)), vec![(1, 1)]);
    assert_eq!(online(&hub.connect("b".to_string(), 2)), vec![(1, 2), (2, 2)]);
    assert_eq!(hub.sessions.len(), 2);
}

#[test]
fn reconnect_replaces_session() {
    let mut hub = PlaceServer::new(config());
    hub.connect("a".to_string(), 1);
    hub.connect("b".to_string(), 2);
    assert_eq!(online(&hub.connect("a".to_string(), 7)), vec![(7, 2), (2, 2)]);
    assert_eq!(hub.sessions.sessions(), vec![7, 2]);
}

#[test]
fn disconnect_is_idempotent() {
    let mut hub = PlaceServer::new(config());
    hub.connect("a".to_string(), 1);
    hub.connect("b".to_string(), 2);
    assert_eq!(online(&hub.disconnect(&"a".to_string())), vec![(2, 1)]);
    assert_eq!(online(&hub.disconnect(&"a".to_string())), vec![(2, 1)]);
    assert_eq!(online(&hub.disconnect(&"zzz".to_string())), vec![(2, 1)]);
    assert_eq!(online(&hub.disconnect(&"b".to_string())), vec![]);
}

#[test]
fn count_after_connects_and_disconnects() {
    let mut hub = PlaceServer::new(config());
    for (i, id) in ["a", "b", "c", "d", "e"].iter().enumerate() {
        hub.connect(id.to_string(), i as u64);
    }
    hub.disconnect(&"b".to_string());
    let last = hub.disconnect(&"d".to_string());
    assert_eq!(online(&last), vec![(0, 3), (2, 3), (4, 3)]);
    let session = PlaceSession::new("a".to_string());
    match session.handle_message(last[0].notification) {
        SessionAction::Text(t) => assert_eq!(t, "/count 3"),
        _ => panic!("count is sent as text"),
    }
}

#[test]
fn out_of_bounds_is_refused() {
    let hub = PlaceServer::new(config());
    for (x, y) in [(100u16, 0u16), (0, 50), (500, 500), (65535, 0)] {
        let r = hub.place_pixel(&request("a", x, y, 1), None, 1_000);
        assert!(matches!(r, Err(PlaceError::OutOfBounds)));
    }
    let exhausted = Client { last_timestamp: 1_000, remaining_pixels: 0 };
    let r = hub.place_pixel(&request("a", 100, 0, 1), Some(exhausted), 1_000);
    assert!(matches!(r, Err(PlaceError::OutOfBounds)));
}

#[test]
fn placement_plans_record_and_writes() {
    let hub = PlaceServer::new(config());
    let p = hub.place_pixel(&request("a", 99, 49, 6), None, 1_000).ok().unwrap();
    assert_eq!(p.client, Client { last_timestamp: 1_000, remaining_pixels: 4 });
    assert_eq!(p.chunk_key, chunk_index_to_key(3, 1));
    assert_eq!(p.chunk_key, "canvas_3_1");
    let got: Vec<(usize, bool)> = p.writes.iter().map(|w| (w.offset, w.value)).collect();
    let start = (17 * 32 + 3) * 4;
    assert_eq!(got, vec![(start + 3, false), (start + 2, true), (start + 1, true), (start, false)]);
}

#[test]
fn exhausted_quota_is_refused() {
    let hub = PlaceServer::new(config());
    let empty = Client { last_timestamp: 1_000, remaining_pixels: 0 };
    let r = hub.place_pixel(&request("a", 1, 1, 1), Some(empty), 1_030);
    assert!(matches!(r, Err(PlaceError::QuotaExhausted)));
    let r = hub.place_pixel(&request("a", 1, 1, 1), Some(empty), 1_059);
    assert_eq!(r.ok().unwrap().client, Client { last_timestamp: 1_059, remaining_pixels: 4 });
}

#[test]
fn placement_reaches_every_session_as_five_bytes() {
    let mut hub = PlaceServer::new(config());
    hub.connect("a".to_string(), 1);
    hub.connect("b".to_string(), 2);
    hub.connect("c".to_string(), 3);
    let pixel = PixelColorUpdateMessage { pos_x: 10, pos_y: 20, color: 5 };
    let deliveries = hub.send_pixel_update(pixel);
    assert_eq!(deliveries.iter().map(|d| d.session).collect::<Vec<_>>(), vec![1, 2, 3]);
    let session = PlaceSession::new("a".to_string());
    for d in deliveries {
        assert_eq!(d.notification, Notification::Pixel(pixel));
        match session.handle_message(d.notification) {
            SessionAction::Binary(b) => assert_eq!(b, vec![0, 10, 0, 20, 5]),
            _ => panic!("placements are sent as binary"),
        }
    }
}
