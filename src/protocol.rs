use vstd::prelude::*;

verus! {

/// Bytes of a pixel frame on the socket.
pub const PIXEL_FRAME_LEN: usize = 5;

/// One pixel placement: position on the canvas and palette index.
#[derive(Clone, Copy, Debug, PartialEq, Eq, Structural)]
pub struct PixelColorUpdateMessage {
    pub pos_x: u16,
    pub pos_y: u16,
    pub color: u8,
}

/// A placement request together with the identity that sent it.
pub struct UserPixelColorMessage {
    pub pixel_update: PixelColorUpdateMessage,
    pub uuid: String,
}

/// The five bytes of a pixel frame: `pos_x` and `pos_y` big-endian, then
/// the color.
pub open spec fn frame_bytes(m: PixelColorUpdateMessage) -> Seq<u8> {
    seq![
        (m.pos_x / 256) as u8,
        (m.pos_x % 256) as u8,
        (m.pos_y / 256) as u8,
        (m.pos_y % 256) as u8,
        m.color,
    ]
}

/// The placement that the first five bytes of a frame stand for.
pub open spec fn frame_message(data: Seq<u8>) -> PixelColorUpdateMessage {
    PixelColorUpdateMessage {
        pos_x: (data[0] * 256 + data[1]) as u16,
        pos_y: (data[2] * 256 + data[3]) as u16,
        color: data[4],
    }
}

/// Why a frame could not be read as a placement.
pub open spec fn short_frame_error() -> &'static str {
    "Error deserializing pixel color update"
}

impl PixelColorUpdateMessage {
    /// Reads a placement from a binary frame. Frames shorter than five bytes
    /// are refused; bytes after the fifth are ignored.
    pub fn deserialize(data: &[u8]) -> (r: Result<Self, &'static str>)
        ensures
            data@.len() < PIXEL_FRAME_LEN ==> r == Err::<Self, &'static str>(short_frame_error()),
            data@.len() >= PIXEL_FRAME_LEN ==> r == Ok::<Self, &'static str>(frame_message(data@)),
    {
        if data.len() < PIXEL_FRAME_LEN {
            return Err("Error deserializing pixel color update");
        }
        let pos_x = (data[0] as u16) * 256 + data[1] as u16;
        let pos_y = (data[2] as u16) * 256 + data[3] as u16;
        Ok(PixelColorUpdateMessage { pos_x, pos_y, color: data[4] })
    }

    /// Writes the placement as a five-byte binary frame.
    pub fn serialize(&self) -> (r: Vec<u8>)
        ensures
            r@ == frame_bytes(*self),
    {
        let mut buffer: Vec<u8> = Vec::new();
        buffer.push((self.pos_x / 256) as u8);
        buffer.push((self.pos_x % 256) as u8);
        buffer.push((self.pos_y / 256) as u8);
        buffer.push((self.pos_y % 256) as u8);
        buffer.push(self.color);
        buffer
    }
}

impl UserPixelColorMessage {
    /// The placement request of identity `uuid` that a binary frame holds.
    pub fn new(uuid: String, data: &[u8]) -> (r: Result<Self, &'static str>)
        ensures
            data@.len() < PIXEL_FRAME_LEN ==> (r matches Err(e) && e == short_frame_error()),
            data@.len() >= PIXEL_FRAME_LEN ==> (r matches Ok(m) && m.pixel_update == frame_message(
                data@,
            ) && m.uuid == uuid),
    {
        match PixelColorUpdateMessage::deserialize(data) {
            Ok(pixel_update) => Ok(UserPixelColorMessage { pixel_update, uuid }),
            Err(e) => Err(e),
        }
    }
}

/// A placement written as a frame reads back as the same placement, and
/// every frame of five bytes is the frame of the placement it reads as.
pub proof fn lemma_frame_round_trip(m: PixelColorUpdateMessage, data: Seq<u8>)
    ensures
        frame_bytes(m).len() == PIXEL_FRAME_LEN,
        frame_message(frame_bytes(m)) == m,
        data.len() == PIXEL_FRAME_LEN ==> frame_bytes(frame_message(data)) == data,
{
    if data.len() == PIXEL_FRAME_LEN {
        assert(frame_bytes(frame_message(data)) =~= data);
    }
}

} // verus!
