use backend::error::{BackendError, PlaceError};
use backend::protocol::{PixelColorUpdateMessage, UserPixelColorMessage};
use backend::text::count_message;

#[test]
fn serialize_is_big_endian_five_bytes() {
    let m = PixelColorUpdateMessage { pos_x: 258, pos_y: 3, color: 7 };
    assert_eq!(m.serialize(), vec![1, 2, 0, 3, 7]);
    let max = PixelColorUpdateMessage { pos_x: u16::MAX, pos_y: 0, color: 255 };
    assert_eq!(max.serialize(), vec![255, 255, 0, 0, 255]);
}

#[test]
fn deserialize_reads_five_bytes() {
    let m = PixelColorUpdateMessage::deserialize(&[1, 2, 0, 3, 7]).unwrap();
    assert_eq!(m, PixelColorUpdateMessage { pos_x: 258, pos_y: 3, color: 7 });
    let longer = PixelColorUpdateMessage::deserialize(&[0, 9, 1, 0, 4, 99]).unwrap();
    assert_eq!(longer, PixelColorUpdateMessage { pos_x: 9, pos_y: 256, color: 4 });
}

#[test]
fn deserialize_refuses_short_frames() {
    assert_eq!(
        PixelColorUpdateMessage::deserialize(&[1, 2, 3, 4]),
        Err("Error deserializing pixel color update")
    );
    assert!(PixelColorUpdateMessage::deserialize(&[]).is_err());
}

#[test]
fn frame_round_trip() {
    for (x, y, c) in [(0u16, 0u16, 0u8), (65535, 1, 15), (300, 700, 9)] {
        let m = PixelColorUpdateMessage { pos_x: x, pos_y: y, color: c };
        assert_eq!(PixelColorUpdateMessage::deserialize(&m.serialize()), Ok(m));
    }
}

#[test]
fn user_message_keeps_identity() {
    let m = UserPixelColorMessage::new("abc".to_string(), &[0, 1, 0, 2, 3]).ok().unwrap();
    assert_eq!(m.uuid, "abc");
    assert_eq!(m.pixel_update, PixelColorUpdateMessage { pos_x: 1, pos_y: 2, color: 3 });
    assert!(UserPixelColorMessage::new("abc".to_string(), &[0, 1]).is_err());
}

#[test]
fn count_message_text() {
    assert_eq!(count_message(0), "/count 0");
    assert_eq!(count_message(42), "/count 42");
    assert_eq!(count_message(1000), "/count 1000");
}

#[test]
fn error_reasons() {
    assert_eq!(PlaceError::OutOfBounds.reason(), "Invalid position in canvas");
    assert_eq!(PlaceError::QuotaExhausted.reason(), "No pixels left");
    assert_eq!(PlaceError::StoreError("connection refused".to_string()).reason(), "connection refused");
}

#[test]
fn backend_error_keeps_fields() {
    let e = BackendError::new("Error retrieving canvas from redis", "timeout".to_string());
    assert_eq!(e.error, "Error retrieving canvas from redis");
    assert_eq!(e.details, "timeout");
}
