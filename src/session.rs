use crate::error::PlaceError;
use crate::hub::Notification;
use crate::protocol::{frame_bytes, frame_message, short_frame_error, UserPixelColorMessage, PIXEL_FRAME_LEN};
use crate::text::{count_message, count_text};
use vstd::prelude::*;

verus! {

/// Why a socket was closed: the close code and an optional description.
pub struct CloseReason {
    pub code: u16,
    pub description: Option<String>,
}

/// A frame received from the socket.
pub enum Frame {
    Ping(Vec<u8>),
    Text(String),
    Binary(Vec<u8>),
    Close(Option<CloseReason>),
    /// Any other frame (pong, continuation); it is ignored.
    Other,
}

/// Where a session is in its life.
#[derive(Clone, Copy, Debug, PartialEq, Eq, Structural)]
pub enum SessionState {
    Connecting,
    Active,
    Closing,
    Closed,
}

/// What the session asks of the code that owns its socket and its link to
/// the hub.
pub enum SessionAction {
    Nothing,
    /// Answer a ping with this payload.
    Pong(Vec<u8>),
    /// Push a text frame.
    Text(String),
    /// Push a binary frame.
    Binary(Vec<u8>),
    /// Hand this placement to the hub.
    Place(UserPixelColorMessage),
    /// Send the close frame, with the session's close reason, then finish.
    CloseSocket,
}

/// One live connection: its identity, its state and the reason the peer
/// gave for closing, if it did.
pub struct PlaceSession {
    pub uuid: String,
    pub state: SessionState,
    pub close_reason: Option<CloseReason>,
}

impl PlaceSession {
    /// A session for identity `uuid`, not yet registered with the hub.
    pub fn new(uuid: String) -> (r: PlaceSession)
        ensures
            r.uuid == uuid,
            r.state == SessionState::Connecting,
            r.close_reason is None,
    {
        PlaceSession { uuid, state: SessionState::Connecting, close_reason: None }
    }

    /// The hub has registered the session.
    pub fn started(&mut self)
        ensures
            old(self).state == SessionState::Connecting ==> final(self).state == SessionState::Active,
            old(self).state != SessionState::Connecting ==> final(self).state == old(self).state,
            final(self).uuid == old(self).uuid,
            final(self).close_reason == old(self).close_reason,
    {
        if self.state == SessionState::Connecting {
            self.state = SessionState::Active;
        }
    }

    /// Begins closing, keeping `reason` as the close reason: on a close
    /// frame from the peer, an error or end of the stream (no reason), or a
    /// stop asked by the hub side. A session already closing or closed is
    /// left as it is.
    pub fn close(&mut self, reason: Option<CloseReason>)
        ensures
            (old(self).state == SessionState::Connecting || old(self).state == SessionState::Active)
                ==> final(self).state == SessionState::Closing && final(self).close_reason == reason,
            (old(self).state == SessionState::Closing || old(self).state == SessionState::Closed)
                ==> final(self).state == old(self).state && final(self).close_reason
                == old(self).close_reason,
            final(self).uuid == old(self).uuid,
    {
        if self.state == SessionState::Connecting || self.state == SessionState::Active {
            self.state = SessionState::Closing;
            self.close_reason = reason;
        }
    }

    /// The close frame has been sent: a closing session becomes closed and
    /// returns the identity to disconnect from the hub. Any other state
    /// returns `None`, so the disconnect happens exactly once.
    pub fn stopping(&mut self) -> (r: Option<String>)
        ensures
            old(self).state == SessionState::Closing ==> final(self).state == SessionState::Closed
                && (r matches Some(u) && u@ == old(self).uuid@),
            old(self).state != SessionState::Closing ==> final(self).state == old(self).state
                && r is None,
            final(self).uuid == old(self).uuid,
            final(self).close_reason == old(self).close_reason,
    {
        if self.state == SessionState::Closing {
            self.state = SessionState::Closed;
            Some(self.uuid.clone())
        } else {
            None
        }
    }

    /// The placement request that a binary frame from this session's client
    /// holds, or the reason it cannot be read.
    pub fn place_pixel(&self, bin: &[u8]) -> (r: Result<UserPixelColorMessage, String>)
        ensures
            bin@.len() >= PIXEL_FRAME_LEN ==> (r matches Ok(m) && m.pixel_update == frame_message(
                bin@,
            ) && m.uuid@ == self.uuid@),
            bin@.len() < PIXEL_FRAME_LEN ==> (r matches Err(e) && e@ == short_frame_error()@),
    {
        match UserPixelColorMessage::new(self.uuid.clone(), bin) {
            Ok(m) => Ok(m),
            Err(e) => Err(String::from_str(e)),
        }
    }

    /// Handles a frame from the socket while active: a ping is answered
    /// with its payload, text is echoed, a binary frame becomes a placement
    /// for the hub (or, if it is too short to read, a text frame with the
    /// reason), and a close frame starts closing with the peer's reason.
    /// Frames outside the active state, and other frames, do nothing.
    pub fn handle_ws(&mut self, frame: Frame) -> (r: SessionAction)
        ensures
            final(self).uuid == old(self).uuid,
            old(self).state != SessionState::Active ==> r is Nothing && final(self).state == old(
                self,
            ).state && final(self).close_reason == old(self).close_reason,
            old(self).state == SessionState::Active ==> match frame {
                Frame::Ping(p) => r == SessionAction::Pong(p) && final(self).state == old(
                    self,
                ).state,
                Frame::Text(t) => r == SessionAction::Text(t) && final(self).state == old(
                    self,
                ).state,
                Frame::Binary(b) => final(self).state == old(self).state && (if b@.len()
                    >= PIXEL_FRAME_LEN {
                    r matches SessionAction::Place(m) && m.pixel_update == frame_message(b@)
                        && m.uuid@ == old(self).uuid@
                } else {
                    r matches SessionAction::Text(t) && t@ == short_frame_error()@
                }),
                Frame::Close(reason) => r is CloseSocket && final(self).state
                    == SessionState::Closing && final(self).close_reason == reason,
                Frame::Other => r is Nothing && final(self).state == old(self).state,
            },
    {
        if self.state != SessionState::Active {
            return SessionAction::Nothing;
        }
        match frame {
            Frame::Ping(payload) => SessionAction::Pong(payload),
            Frame::Text(text) => SessionAction::Text(text),
            Frame::Binary(bin) => {
                match self.place_pixel(bin.as_slice()) {
                    Ok(m) => SessionAction::Place(m),
                    Err(reason) => SessionAction::Text(reason),
                }
            },
            Frame::Close(reason) => {
                self.close(reason);
                SessionAction::CloseSocket
            },
            Frame::Other => SessionAction::Nothing,
        }
    }

    /// The hub's answer to a placement this session sent: a refusal is
    /// reported to the client as text; an accepted placement needs no reply
    /// here, since it comes back through the hub's broadcast.
    pub fn place_result(&self, result: &Result<(), PlaceError>) -> (r: SessionAction)
        ensures
            result is Ok ==> r is Nothing,
            result matches Err(e) ==> (r matches SessionAction::Text(t) && (e is OutOfBounds
                ==> t@ == crate::error::out_of_bounds_text()) && (e is QuotaExhausted ==> t@
                == crate::error::quota_exhausted_text())),
    {
        match result {
            Ok(()) => SessionAction::Nothing,
            Err(e) => SessionAction::Text(e.reason()),
        }
    }

    /// A notification from the hub becomes a frame for the client: the live
    /// count as the text `"/count {N}"`, a placement as its five-byte
    /// binary frame.
    pub fn handle_message(&self, message: Notification) -> (r: SessionAction)
        ensures
            message matches Notification::Online(n) ==> (r matches SessionAction::Text(t) && t@
                == count_text(n as nat)),
            message matches Notification::Pixel(m) ==> (r matches SessionAction::Binary(b) && b@
                == frame_bytes(m)),
    {
        match message {
            Notification::Online(count) => SessionAction::Text(count_message(count)),
            Notification::Pixel(pixel) => SessionAction::Binary(pixel.serialize()),
        }
    }
}

} // verus!
