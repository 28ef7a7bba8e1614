use vstd::prelude::*;

verus! {

/// What the store keeps per identity: when the quota window last started,
/// in seconds since the Unix epoch, and the pixels left in it.
#[derive(Clone, Copy, Debug, PartialEq, Eq, Structural)]
pub struct Client {
    pub last_timestamp: u64,
    pub remaining_pixels: usize,
}

/// What a user tells about themself.
pub struct Profile {
    pub name: String,
    pub email: String,
    pub image: String,
}

#[verifier::external_type_specification]
#[verifier::external_body]
pub struct ExSystemTime(std::time::SystemTime);

/// Relies on `SystemTime::now`: the machine's clock. Nothing is known of
/// the value.
pub assume_specification[ std::time::SystemTime::now ]() -> std::time::SystemTime;

/// Relies on `SystemTime::duration_since` from `UNIX_EPOCH`: `None` when
/// the time lies before the epoch, else the whole seconds since it.
#[verifier::external_body]
fn secs_since_epoch(t: &std::time::SystemTime) -> (r: Option<u64>) {
    t.duration_since(std::time::UNIX_EPOCH).ok().map(|d| d.as_secs())
}

/// A refill is due: the quota is empty and the window, less one second
/// of tolerance for clock skew, has passed since the last refill.
pub open spec fn refill_due(c: Client, timeout: u64, now: u64) -> bool {
    c.remaining_pixels == 0 && now - c.last_timestamp >= timeout - 1
}

/// The record once a due refill has been applied.
pub open spec fn refreshed(c: Client, base: usize, timeout: u64, now: u64) -> Client {
    if refill_due(c, timeout, now) {
        Client { last_timestamp: now, remaining_pixels: base }
    } else {
        c
    }
}

/// The outcome of one placement attempt at time `now`: the record to store
/// when a pixel may be placed, `None` when the quota is exhausted.
pub open spec fn consumed(c: Client, base: usize, timeout: u64, now: u64) -> Option<Client> {
    let d = refreshed(c, base, timeout, now);
    if d.remaining_pixels == 0 {
        None
    } else {
        Some(Client { last_timestamp: d.last_timestamp, remaining_pixels: (d.remaining_pixels - 1) as usize })
    }
}

/// The record after placement attempts at the given times, each applied to
/// what the previous one stored; `None` once one of them is refused.
pub open spec fn place_many(c: Client, base: usize, timeout: u64, times: Seq<u64>) -> Option<Client>
    decreases times.len(),
{
    if times.len() == 0 {
        Some(c)
    } else {
        match place_many(c, base, timeout, times.drop_last()) {
            Some(d) => consumed(d, base, timeout, times.last()),
            None => None,
        }
    }
}

/// Seconds since the Unix epoch by the machine's clock; zero when the clock
/// reads a time before the epoch.
pub fn timestamp_now() -> u64 {
    let now = std::time::SystemTime::now();
    match secs_since_epoch(&now) {
        Some(secs) => secs,
        None => 0,
    }
}

/// What the timeout endpoint reports of an identity's quota.
pub struct TimeoutStatus {
    /// The record as it stands after the check.
    pub client: Client,
    /// Whether the record changed and must be stored again.
    pub changed: bool,
    pub last_timestamp: u64,
    /// When the current window ends: the last refill plus the window,
    /// saturated at `u64::MAX`.
    pub next_timestamp: u64,
    pub timeout: u64,
    pub remaining_pixels: usize,
}

impl Client {
    /// The remaining count stays within the configured amount.
    pub open spec fn wf(&self, base: usize) -> bool {
        self.remaining_pixels <= base
    }

    /// A record for a new identity: a full quota, its window starting now.
    pub fn new(base_pixel_amount: usize) -> (r: Client)
        ensures
            r.remaining_pixels == base_pixel_amount,
    {
        let last_timestamp = timestamp_now();
        Client { last_timestamp, remaining_pixels: base_pixel_amount }
    }

    /// The record of an identity from what the store held: the decoded
    /// record when there was one, else a fresh record.
    pub fn from_redis(stored: Option<Client>, base_pixel_amount: usize) -> (r: Client)
        ensures
            stored matches Some(c) ==> r == c,
            stored is None ==> r.remaining_pixels == base_pixel_amount,
    {
        match stored {
            Some(c) => c,
            None => Client::new(base_pixel_amount),
        }
    }

    /// One placement attempt at time `now` against a quota of `base` pixels
    /// per window of `timeout` seconds: refills an empty quota whose window
    /// has passed, then takes one pixel. Returns the record to store, or
    /// `None` when no pixel is left; the record is then not stored.
    pub fn take_pixel(&self, base: usize, timeout: u64, now: u64) -> (r: Option<Client>)
        ensures
            r == consumed(*self, base, timeout, now),
            self.wf(base) ==> (r matches Some(c) ==> c.wf(base)),
    {
        let mut c = *self;
        if c.remaining_pixels == 0 && (now as u128) + 1 >= (c.last_timestamp as u128) + (
        timeout as u128) {
            c.remaining_pixels = base;
            c.last_timestamp = now;
        }
        if c.remaining_pixels == 0 {
            None
        } else {
            Some(Client { last_timestamp: c.last_timestamp, remaining_pixels: c.remaining_pixels - 1 })
        }
    }

    /// The quota as the timeout endpoint reports it at time `now`: when the
    /// window is positive and has passed (one second of tolerance), the
    /// quota is full again and the window restarts now.
    pub fn timeout_status(&self, base: usize, timeout: u64, now: u64) -> (r: TimeoutStatus)
        ensures
            r.changed == (timeout > 0 && now - self.last_timestamp >= timeout - 1),
            r.changed ==> r.client == (Client { last_timestamp: now, remaining_pixels: base }),
            !r.changed ==> r.client == *self,
            r.last_timestamp == r.client.last_timestamp,
            r.remaining_pixels == r.client.remaining_pixels,
            r.timeout == timeout,
            r.next_timestamp == if r.client.last_timestamp + timeout <= u64::MAX {
                r.client.last_timestamp + timeout
            } else {
                u64::MAX as int
            },
    {
        let changed = timeout > 0 && (now as u128) + 1 >= (self.last_timestamp as u128) + (
        timeout as u128);
        let client = if changed {
            Client { last_timestamp: now, remaining_pixels: base }
        } else {
            *self
        };
        TimeoutStatus {
            client,
            changed,
            last_timestamp: client.last_timestamp,
            next_timestamp: client.last_timestamp.saturating_add(timeout),
            timeout,
            remaining_pixels: client.remaining_pixels,
        }
    }
}

/// While pixels are left a placement takes one and keeps the window's
/// start; with none left and the window not over, it is refused.
pub proof fn lemma_quota_step(c: Client, base: usize, timeout: u64, now: u64)
    ensures
        c.remaining_pixels > 0 ==> consumed(c, base, timeout, now) == Some(
            Client { last_timestamp: c.last_timestamp, remaining_pixels: (c.remaining_pixels - 1) as usize },
        ),
        c.remaining_pixels == 0 && now - c.last_timestamp < timeout - 1 ==> consumed(
            c,
            base,
            timeout,
            now,
        ) is None,
{
}

/// A fresh identity with a quota of `base` pixels places `base` pixels one
/// after the other, each taking one from the count, and a further attempt
/// before the window has passed is refused.
pub proof fn lemma_fresh_quota_runs_out(base: usize, timeout: u64, start: u64, times: Seq<u64>)
    ensures
        times.len() <= base ==> place_many(
            Client { last_timestamp: start, remaining_pixels: base },
            base,
            timeout,
            times,
        ) == Some(Client { last_timestamp: start, remaining_pixels: (base - times.len()) as usize }),
        times.len() == base + 1 && times.last() - start < timeout - 1 ==> place_many(
            Client { last_timestamp: start, remaining_pixels: base },
            base,
            timeout,
            times,
        ) is None,
    decreases times.len(),
{
    if times.len() > 0 {
        lemma_fresh_quota_runs_out(base, timeout, start, times.drop_last());
    }
}

/// Once the quota is empty and the window, less one second, has passed,
/// the next placement succeeds and leaves one pixel fewer than a full
/// quota, the window restarting at that placement.
pub proof fn lemma_quota_refill(c: Client, base: usize, timeout: u64, now: u64)
    requires
        c.remaining_pixels == 0,
        now - c.last_timestamp >= timeout - 1,
        base >= 1,
    ensures
        consumed(c, base, timeout, now) == Some(
            Client { last_timestamp: now, remaining_pixels: (base - 1) as usize },
        ),
{
}

} // verus!
