use crate::canvas::chunk_key;
use crate::packing::BitWrite;
use crate::config::Config;
use crate::error::PlaceError;
use crate::protocol::{PixelColorUpdateMessage, UserPixelColorMessage};
use crate::quota::{consumed, Client};
use crate::registry::{registered_with, unregistered, Entry, Registry};
use vstd::prelude::*;

verus! {

/// What the hub tells a session.
#[derive(Clone, Copy, Debug, PartialEq, Eq, Structural)]
pub enum Notification {
    /// The number of live sessions changed to this.
    Online(usize),
    /// A placement was applied.
    Pixel(PixelColorUpdateMessage),
}

/// A notification addressed to one session.
#[derive(Clone, Copy, Debug, PartialEq, Eq, Structural)]
pub struct Delivery {
    pub session: u64,
    pub notification: Notification,
}

/// The same notification for every registered session, in registry order.
pub open spec fn fan_out(v: Seq<Entry>, n: Notification) -> Seq<Delivery> {
    v.map_values(|e: Entry| Delivery { session: e.1, notification: n })
}

/// The record that a placement is checked against: the stored one, or a
/// full quota whose window starts now.
pub open spec fn loaded(stored: Option<Client>, base: usize, now: u64) -> Client {
    match stored {
        Some(c) => c,
        None => Client { last_timestamp: now, remaining_pixels: base },
    }
}

/// The placement lies on the canvas.
pub open spec fn in_bounds(cfg: Config, pixel: PixelColorUpdateMessage) -> bool {
    pixel.pos_x < cfg.canvas_width && pixel.pos_y < cfg.canvas_height
}

/// What an accepted placement asks of the store: the identity's record to
/// store, and the chunk updates that write the pixel.
pub struct Placement {
    pub client: Client,
    pub chunk_key: String,
    pub writes: Vec<BitWrite>,
}

/// The hub: the configuration and the live sessions. It alone changes the
/// registry, one message at a time.
pub struct PlaceServer {
    pub config: Config,
    pub sessions: Registry,
}

impl PlaceServer {
    /// A hub with no session.
    pub fn new(config: Config) -> (r: PlaceServer)
        ensures
            r.config == config,
            r.sessions@ == Seq::<Entry>::empty(),
            r.sessions.wf(),
    {
        PlaceServer { config, sessions: Registry::new() }
    }

    /// The notification `n` for every live session.
    fn send_to_all(&self, n: Notification) -> (r: Vec<Delivery>)
        ensures
            r@ == fan_out(self.sessions@, n),
    {
        let ids = self.sessions.sessions();
        let mut out: Vec<Delivery> = Vec::new();
        let len = ids.len();
        for i in 0..len
            invariant
                len == ids@.len(),
                ids@ == self.sessions@.map_values(|e: Entry| e.1),
                out@ == fan_out(self.sessions@, n).subrange(0, i as int),
        {
            out.push(Delivery { session: ids[i], notification: n });
        }
        assert(out@ == fan_out(self.sessions@, n));
        out
    }

    /// The live session count, for every live session.
    pub fn send_online(&self) -> (r: Vec<Delivery>)
        ensures
            r@ == fan_out(self.sessions@, Notification::Online(self.sessions@.len() as usize)),
    {
        let count = self.sessions.len();
        self.send_to_all(Notification::Online(count))
    }

    /// An applied placement, for every live session, the one that placed it
    /// included.
    pub fn send_pixel_update(&self, pixel: PixelColorUpdateMessage) -> (r: Vec<Delivery>)
        ensures
            r@ == fan_out(self.sessions@, Notification::Pixel(pixel)),
    {
        self.send_to_all(Notification::Pixel(pixel))
    }

    /// Identity `uuid` connected with session `session`: it is registered,
    /// replacing an earlier session of the same identity, and every live
    /// session, the new one included, learns the new count.
    pub fn connect(&mut self, uuid: String, session: u64) -> (r: Vec<Delivery>)
        requires
            old(self).sessions.wf(),
        ensures
            final(self).sessions@ == registered_with(old(self).sessions@, uuid@, session),
            final(self).sessions.wf(),
            final(self).config == old(self).config,
            r@ == fan_out(
                final(self).sessions@,
                Notification::Online(final(self).sessions@.len() as usize),
            ),
    {
        self.sessions.insert(uuid, session);
        self.send_online()
    }

    /// Identity `uuid` disconnected: its session, if any, leaves the
    /// registry, and every remaining session learns the new count.
    pub fn disconnect(&mut self, uuid: &String) -> (r: Vec<Delivery>)
        requires
            old(self).sessions.wf(),
        ensures
            final(self).sessions@ == unregistered(old(self).sessions@, uuid@),
            final(self).sessions.wf(),
            final(self).config == old(self).config,
            r@ == fan_out(
                final(self).sessions@,
                Notification::Online(final(self).sessions@.len() as usize),
            ),
    {
        self.sessions.remove(uuid);
        self.send_online()
    }

    /// Checks a placement at time `now`, given the identity's record as the
    /// store held it: a position off the canvas is refused first, then an
    /// exhausted quota; otherwise the result holds the record to store and
    /// the chunk updates to apply. Nothing is to be written on a refusal.
    pub fn place_pixel(&self, msg: &UserPixelColorMessage, stored: Option<Client>, now: u64) -> (r:
        Result<Placement, PlaceError>)
        requires
            self.config.wf(),
        ensures
            !in_bounds(self.config, msg.pixel_update) ==> r is Err && r->Err_0 is OutOfBounds,
            in_bounds(self.config, msg.pixel_update) && consumed(
                loaded(stored, self.config.base_pixel_amount, now),
                self.config.base_pixel_amount,
                self.config.timeout,
                now,
            ) is None ==> r is Err && r->Err_0 is QuotaExhausted,
            in_bounds(self.config, msg.pixel_update) && consumed(
                loaded(stored, self.config.base_pixel_amount, now),
                self.config.base_pixel_amount,
                self.config.timeout,
                now,
            ) is Some ==> r is Ok,
            r matches Ok(p) ==> {
                &&& Some(p.client) == consumed(
                    loaded(stored, self.config.base_pixel_amount, now),
                    self.config.base_pixel_amount,
                    self.config.timeout,
                    now,
                )
                &&& p.chunk_key@ == chunk_key(
                    msg.pixel_update.pos_x as nat / self.config.canvas_chunk_size as nat,
                    msg.pixel_update.pos_y as nat / self.config.canvas_chunk_size as nat,
                )
                &&& p.writes@ == self.config.pixel_writes(
                    msg.pixel_update.pos_x as int % self.config.canvas_chunk_size as int,
                    msg.pixel_update.pos_y as int % self.config.canvas_chunk_size as int,
                    msg.pixel_update.color,
                )
            },
    {
        let config = &self.config;
        let pixel = msg.pixel_update;
        if pixel.pos_x as usize >= config.canvas_width || pixel.pos_y as usize >= config.canvas_height {
            return Err(PlaceError::OutOfBounds);
        }
        let base = config.base_pixel_amount;
        let client = match stored {
            Some(c) => c,
            None => Client { last_timestamp: now, remaining_pixels: base },
        };
        match client.take_pixel(base, config.timeout, now) {
            None => Err(PlaceError::QuotaExhausted),
            Some(updated) => {
                let update = config.chunk_update(&pixel);
                Ok(Placement { client: updated, chunk_key: update.key, writes: update.writes })
            },
        }
    }
}

/// A placement goes to every live session, the placer's included: one
/// delivery per registry entry, addressed to that entry's session.
pub proof fn lemma_pixel_reaches_every_session(v: Seq<Entry>, pixel: PixelColorUpdateMessage, k: Seq<char>, h: u64)
    requires
        v.contains((k, h)),
    ensures
        fan_out(v, Notification::Pixel(pixel)).len() == v.len(),
        fan_out(v, Notification::Pixel(pixel)).contains(
            Delivery { session: h, notification: Notification::Pixel(pixel) },
        ),
{
    let i = choose|i: int| 0 <= i < v.len() && v[i] == (k, h);
    assert(fan_out(v, Notification::Pixel(pixel))[i] == Delivery {
        session: h,
        notification: Notification::Pixel(pixel),
    });
}

} // verus!
