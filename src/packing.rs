use crate::config::Config;
use vstd::arithmetic::div_mod::lemma_div_denominator;
use vstd::arithmetic::power2::{
    lemma2_to64, lemma_pow2_pos, lemma_pow2_strictly_increases, lemma_pow2_unfold, pow2,
};
use vstd::prelude::*;

verus! {

/// One bit update of a chunk blob in the store: the bit at `offset`,
/// counted from the most significant bit of the first byte, becomes
/// `value`.
pub struct BitWrite {
    pub offset: usize,
    pub value: bool,
}

/// Bit `r` of a byte, counted from the most significant bit (`r == 0`).
pub open spec fn byte_bit(byte: u8, r: u8) -> bool {
    (byte >> ((7 - r) as u8)) & 1u8 == 1u8
}

/// `byte` with its bit `r` (most significant first) set to `v`.
pub open spec fn byte_with_bit(byte: u8, r: u8, v: bool) -> u8 {
    if v {
        byte | (1u8 << ((7 - r) as u8))
    } else {
        byte & !(1u8 << ((7 - r) as u8))
    }
}

/// Bit `k` of a blob, counted from the most significant bit of its first
/// byte; bits past the end of the blob read as zero.
pub open spec fn blob_bit(blob: Seq<u8>, k: int) -> bool {
    0 <= k && k / 8 < blob.len() && byte_bit(blob[k / 8], (k % 8) as u8)
}

/// The blob after one bit update in the store: grown with zero bytes until
/// it holds bit `k`, then bit `k` set to `v`.
pub open spec fn blob_with_bit(blob: Seq<u8>, k: nat, v: bool) -> Seq<u8> {
    let grown = if (k / 8) < blob.len() {
        blob
    } else {
        blob + Seq::new((k / 8 + 1 - blob.len()) as nat, |i: int| 0u8)
    };
    grown.update((k / 8) as int, byte_with_bit(grown[(k / 8) as int], (k % 8) as u8, v))
}

/// The blob after the bit updates `writes`, applied in order.
pub open spec fn apply_writes(blob: Seq<u8>, writes: Seq<BitWrite>) -> Seq<u8>
    decreases writes.len(),
{
    if writes.len() == 0 {
        blob
    } else {
        let w = writes.last();
        blob_with_bit(apply_writes(blob, writes.drop_last()), w.offset as nat, w.value)
    }
}

/// The number formed by `n` bits of a blob from bit `start` on, the first
/// bit the most significant.
pub open spec fn bits_value(blob: Seq<u8>, start: int, n: nat) -> nat
    decreases n,
{
    if n == 0 {
        0
    } else {
        2 * bits_value(blob, start, (n - 1) as nat) + if blob_bit(blob, start + n - 1) {
            1nat
        } else {
            0nat
        }
    }
}

/// Bit `i` of a color, counted from the least significant.
pub open spec fn color_bit(color: u8, i: nat) -> bool {
    (color as nat / pow2(i)) % 2 == 1
}

impl Config {
    /// First bit of the pixel at `(local_x, local_y)` inside its chunk.
    pub open spec fn pixel_bit_offset(&self, local_x: int, local_y: int) -> int {
        (local_y * self.canvas_chunk_size + local_x) * self.bits_per_pixel_spec()
    }

    /// The color of the pixel at `(local_x, local_y)` of a chunk blob.
    pub open spec fn pixel_value(&self, blob: Seq<u8>, local_x: int, local_y: int) -> nat {
        bits_value(blob, self.pixel_bit_offset(local_x, local_y), self.bits_per_pixel_spec() as nat)
    }

    /// The bit updates that write `color` at `(local_x, local_y)`: color bit
    /// `i` goes to the bit `bits_per_pixel - 1 - i` places after the pixel's
    /// first bit, so that the group holds the color most significant bit
    /// first.
    pub open spec fn pixel_writes(&self, local_x: int, local_y: int, color: u8) -> Seq<BitWrite> {
        let bpp = self.bits_per_pixel_spec();
        let start = self.pixel_bit_offset(local_x, local_y);
        Seq::new(
            bpp as nat,
            |i: int| BitWrite { offset: (start + bpp - 1 - i) as usize, value: color_bit(color, i as nat) },
        )
    }
}

proof fn lemma_byte_with_bit(byte: u8, r: u8, v: bool, s: u8)
    requires
        r < 8,
        s < 8,
    ensures
        byte_bit(byte_with_bit(byte, r, v), s) == if r == s {
            v
        } else {
            byte_bit(byte, s)
        },
{
    if v {
        assert(((byte | (1u8 << ((7 - r) as u8))) >> ((7 - s) as u8)) & 1u8 == 1u8 <==> (if r
            == s {
            true
        } else {
            (byte >> ((7 - s) as u8)) & 1u8 == 1u8
        })) by (bit_vector)
            requires
                r < 8,
                s < 8,
        ;
    } else {
        assert(((byte & !(1u8 << ((7 - r) as u8))) >> ((7 - s) as u8)) & 1u8 == 1u8 <==> (if r
            == s {
            false
        } else {
            (byte >> ((7 - s) as u8)) & 1u8 == 1u8
        })) by (bit_vector)
            requires
                r < 8,
                s < 8,
        ;
    }
}

pub(crate) proof fn lemma_zero_byte_bit(s: u8)
    requires
        s < 8,
    ensures
        !byte_bit(0u8, s),
{
    assert((0u8 >> ((7 - s) as u8)) & 1u8 != 1u8) by (bit_vector)
        requires
            s < 8,
    ;
}

/// One bit update changes the bit it names and no other, and leaves the
/// blob long enough to hold that bit.
pub proof fn lemma_blob_with_bit(blob: Seq<u8>, k: nat, v: bool, j: int)
    requires
        0 <= j,
    ensures
        blob_bit(blob_with_bit(blob, k, v), j) == if j == k {
            v
        } else {
            blob_bit(blob, j)
        },
        blob_with_bit(blob, k, v).len() == if (k / 8) < blob.len() {
            blob.len()
        } else {
            k / 8 + 1
        },
{
    let grown = if (k / 8) < blob.len() {
        blob
    } else {
        blob + Seq::new((k / 8 + 1 - blob.len()) as nat, |i: int| 0u8)
    };
    let after = blob_with_bit(blob, k, v);
    if j / 8 == k / 8 {
        lemma_byte_with_bit(grown[(k / 8) as int], (k % 8) as u8, v, (j % 8) as u8);
        if j != k {
            if j / 8 >= blob.len() {
                lemma_zero_byte_bit((j % 8) as u8);
            }
        }
    } else if j / 8 < after.len() && j / 8 >= blob.len() {
        lemma_zero_byte_bit((j % 8) as u8);
    }
}

/// The pixel's bits lie inside the chunk, and every bit offset of a chunk
/// fits in a `usize`.
pub(crate) proof fn lemma_pixel_in_chunk(cfg: &Config, local_x: int, local_y: int)
    requires
        cfg.wf(),
        0 <= local_x < cfg.canvas_chunk_size,
        0 <= local_y < cfg.canvas_chunk_size,
    ensures
        0 <= cfg.pixel_bit_offset(local_x, local_y),
        cfg.pixel_bit_offset(local_x, local_y) + cfg.bits_per_pixel_spec() <= cfg.chunk_bits(),
        cfg.chunk_bits() <= usize::MAX,
        1 <= cfg.bits_per_pixel_spec() <= 8,
        local_y * cfg.canvas_chunk_size + local_x < cfg.canvas_chunk_size * cfg.canvas_chunk_size,
        cfg.canvas_chunk_size * cfg.canvas_chunk_size <= usize::MAX,
{
    let cs = cfg.canvas_chunk_size as int;
    let bpp = cfg.bits_per_pixel_spec();
    assert(1 <= bpp <= 8);
    assert((local_y * cs + local_x) * bpp + bpp <= cs * cs * bpp && cs * cs * bpp <= cs * cs * 8
        && 0 <= (local_y * cs + local_x) * bpp && local_y * cs + local_x < cs * cs && cs * cs <= cs * cs * 8) by (nonlinear_arith)
        requires
            0 <= local_x < cs,
            0 <= local_y < cs,
            1 <= bpp <= 8,
    ;
}

/// Dropping the lowest bit of `color / 2^i` gives `color / 2^(i+1)`.
proof fn lemma_color_shift(color: nat, i: nat)
    ensures
        color / pow2(i + 1) == (color / pow2(i)) / 2,
        pow2(i + 1) == 2 * pow2(i),
{
    lemma_pow2_unfold(i + 1);
    lemma_pow2_pos(i);
    lemma_div_denominator(color as int, pow2(i) as int, 2);
}

/// After the first `m` updates of a pixel write, the bits they name hold
/// their color bits and every other bit is as before.
proof fn lemma_pixel_writes_prefix(cfg: &Config, blob: Seq<u8>, local_x: int, local_y: int, color: u8, m: nat, j: int)
    requires
        cfg.wf(),
        0 <= local_x < cfg.canvas_chunk_size,
        0 <= local_y < cfg.canvas_chunk_size,
        m <= cfg.bits_per_pixel_spec(),
        0 <= j,
    ensures
        ({
            let start = cfg.pixel_bit_offset(local_x, local_y);
            let end = start + cfg.bits_per_pixel_spec();
            blob_bit(apply_writes(blob, cfg.pixel_writes(local_x, local_y, color).subrange(0, m as int)), j)
                == if end - m <= j < end {
                color_bit(color, (end - 1 - j) as nat)
            } else {
                blob_bit(blob, j)
            }
        }),
    decreases m,
{
    lemma_pixel_in_chunk(cfg, local_x, local_y);
    let ws = cfg.pixel_writes(local_x, local_y, color);
    let pre = ws.subrange(0, m as int);
    if m > 0 {
        assert(pre.drop_last() == ws.subrange(0, m - 1));
        lemma_pixel_writes_prefix(cfg, blob, local_x, local_y, color, (m - 1) as nat, j);
        let w = pre.last();
        lemma_blob_with_bit(apply_writes(blob, pre.drop_last()), w.offset as nat, w.value, j);
    } else {
        assert(pre.len() == 0);
    }
}

/// The number formed by bits that hold the color's bits, most significant
/// first, is the color with its low bits dropped.
proof fn lemma_bits_value_of_color(blob: Seq<u8>, start: int, bpp: nat, color: u8, n: nat)
    requires
        n <= bpp,
        (color as nat) < pow2(bpp),
        forall|t: int|
            0 <= t < bpp ==> #[trigger] blob_bit(blob, start + t) == color_bit(color, (bpp - 1 - t) as nat),
    ensures
        bits_value(blob, start, n) == (color as nat) / pow2((bpp - n) as nat),
    decreases n,
{
    if n == 0 {
        lemma_pow2_pos(bpp);
        assert((color as nat) / pow2(bpp) == 0) by (nonlinear_arith)
            requires (color as nat) < pow2(bpp), pow2(bpp) > 0;
    } else {
        lemma_bits_value_of_color(blob, start, bpp, color, (n - 1) as nat);
        let e = (bpp - n) as nat;
        lemma_color_shift(color as nat, e);
        assert(blob_bit(blob, start + (n - 1)) == color_bit(color, e));
        assert(start + n - 1 == start + (n - 1));
    }
}

/// Equal bits over a range give equal numbers.
proof fn lemma_bits_value_same(a: Seq<u8>, b: Seq<u8>, start: int, n: nat)
    requires
        forall|t: int| 0 <= t < n ==> #[trigger] blob_bit(a, start + t) == blob_bit(b, start + t),
    ensures
        bits_value(a, start, n) == bits_value(b, start, n),
    decreases n,
{
    if n > 0 {
        lemma_bits_value_same(a, b, start, (n - 1) as nat);
        assert(blob_bit(a, start + (n - 1)) == blob_bit(b, start + (n - 1)));
        assert(start + n - 1 == start + (n - 1));
    }
}

/// A number formed by `n` bits is below `2^n`.
proof fn lemma_bits_value_bound(blob: Seq<u8>, start: int, n: nat)
    ensures
        bits_value(blob, start, n) < pow2(n),
    decreases n,
{
    if n == 0 {
        lemma2_to64();
    } else {
        lemma_bits_value_bound(blob, start, (n - 1) as nat);
        lemma_pow2_unfold(n);
    }
}

/// Writing a color into a pixel and reading the pixel back gives the color,
/// whatever the chunk held before, for every color that fits in a pixel's
/// bits.
pub proof fn lemma_pixel_round_trip(cfg: &Config, blob: Seq<u8>, local_x: int, local_y: int, color: u8)
    requires
        cfg.wf(),
        0 <= local_x < cfg.canvas_chunk_size,
        0 <= local_y < cfg.canvas_chunk_size,
        (color as nat) < pow2(cfg.bits_per_pixel_spec() as nat),
    ensures
        cfg.pixel_value(apply_writes(blob, cfg.pixel_writes(local_x, local_y, color)), local_x, local_y)
            == color,
{
    lemma_pixel_in_chunk(cfg, local_x, local_y);
    let bpp = cfg.bits_per_pixel_spec() as nat;
    let start = cfg.pixel_bit_offset(local_x, local_y);
    let ws = cfg.pixel_writes(local_x, local_y, color);
    let after = apply_writes(blob, ws);
    assert(ws.subrange(0, bpp as int) == ws);
    assert forall|t: int| 0 <= t < bpp implies #[trigger] blob_bit(after, start + t) == color_bit(
        color,
        (bpp - 1 - t) as nat,
    ) by {
        lemma_pixel_writes_prefix(cfg, blob, local_x, local_y, color, bpp, start + t);
    }
    lemma_bits_value_of_color(after, start, bpp, color, bpp);
    lemma2_to64();
    assert((bpp - bpp) as nat == 0);
    assert((color as nat) / 1 == color);
}

/// Writing a pixel changes no bit outside the pixel's own bits.
pub proof fn lemma_pixel_write_is_local(cfg: &Config, blob: Seq<u8>, local_x: int, local_y: int, color: u8, j: int)
    requires
        cfg.wf(),
        0 <= local_x < cfg.canvas_chunk_size,
        0 <= local_y < cfg.canvas_chunk_size,
        0 <= j,
        !(cfg.pixel_bit_offset(local_x, local_y) <= j < cfg.pixel_bit_offset(local_x, local_y)
            + cfg.bits_per_pixel_spec()),
    ensures
        blob_bit(apply_writes(blob, cfg.pixel_writes(local_x, local_y, color)), j) == blob_bit(blob, j),
{
    lemma_pixel_in_chunk(cfg, local_x, local_y);
    let bpp = cfg.bits_per_pixel_spec() as nat;
    let ws = cfg.pixel_writes(local_x, local_y, color);
    assert(ws.subrange(0, bpp as int) == ws);
    lemma_pixel_writes_prefix(cfg, blob, local_x, local_y, color, bpp, j);
}

/// Writing a pixel leaves every other pixel of the chunk as it was.
pub proof fn lemma_other_pixels_kept(
    cfg: &Config,
    blob: Seq<u8>,
    local_x: int,
    local_y: int,
    color: u8,
    other_x: int,
    other_y: int,
)
    requires
        cfg.wf(),
        0 <= local_x < cfg.canvas_chunk_size,
        0 <= local_y < cfg.canvas_chunk_size,
        0 <= other_x < cfg.canvas_chunk_size,
        0 <= other_y < cfg.canvas_chunk_size,
        (other_x, other_y) != (local_x, local_y),
    ensures
        cfg.pixel_value(apply_writes(blob, cfg.pixel_writes(local_x, local_y, color)), other_x, other_y)
            == cfg.pixel_value(blob, other_x, other_y),
{
    let cs = cfg.canvas_chunk_size as int;
    let bpp = cfg.bits_per_pixel_spec();
    lemma_pixel_in_chunk(cfg, local_x, local_y);
    lemma_pixel_in_chunk(cfg, other_x, other_y);
    let p = local_y * cs + local_x;
    let q = other_y * cs + other_x;
    assert(p != q) by (nonlinear_arith)
        requires
            p == local_y * cs + local_x,
            q == other_y * cs + other_x,
            0 <= local_x < cs,
            0 <= local_y < cs,
            0 <= other_x < cs,
            0 <= other_y < cs,
            (other_x, other_y) != (local_x, local_y),
    ;
    let start = cfg.pixel_bit_offset(other_x, other_y);
    let after = apply_writes(blob, cfg.pixel_writes(local_x, local_y, color));
    assert forall|t: int| 0 <= t < bpp implies #[trigger] blob_bit(after, start + t) == blob_bit(
        blob,
        start + t,
    ) by {
        assert(!(p * bpp <= q * bpp + t < p * bpp + bpp)) by (nonlinear_arith)
            requires p != q, 0 <= t < bpp, 1 <= bpp, p >= 0, q >= 0;
        lemma_pixel_write_is_local(cfg, blob, local_x, local_y, color, start + t);
    }
    lemma_bits_value_same(after, blob, start, bpp as nat);
}

impl Config {
    /// The bit updates that write `color` at `(local_x, local_y)` of a chunk.
    pub fn pixel_bit_writes(&self, local_x: usize, local_y: usize, color: u8) -> (r: Vec<BitWrite>)
        requires
            self.wf(),
            local_x < self.canvas_chunk_size,
            local_y < self.canvas_chunk_size,
        ensures
            r@ == self.pixel_writes(local_x as int, local_y as int, color),
    {
        proof {
            lemma_pixel_in_chunk(self, local_x as int, local_y as int);
            lemma2_to64();
        }
        let bpp = self.bits_per_pixel();
        let cs = self.canvas_chunk_size;
        let start = (local_y * cs + local_x) * bpp;
        let ghost ws = self.pixel_writes(local_x as int, local_y as int, color);
        let mut rest: u8 = color;
        let mut out: Vec<BitWrite> = Vec::new();
        assert((color as nat) / pow2(0) == color as nat);
        for i in 0..bpp
            invariant
                bpp == self.bits_per_pixel_spec(),
                start == self.pixel_bit_offset(local_x as int, local_y as int),
                start + bpp <= usize::MAX,
                ws == self.pixel_writes(local_x as int, local_y as int, color),
                rest as nat == (color as nat) / pow2(i as nat),
                out@ == ws.subrange(0, i as int),
        {
            proof {
                lemma_color_shift(color as nat, i as nat);
            }
            out.push(BitWrite { offset: start + bpp - 1 - i, value: rest % 2 == 1 });
            rest = rest / 2;
        }
        out
    }

    /// The color of the pixel at `(local_x, local_y)` of a chunk blob.
    pub fn read_pixel(&self, chunk: &Vec<u8>, local_x: usize, local_y: usize) -> (r: u8)
        requires
            self.wf(),
            local_x < self.canvas_chunk_size,
            local_y < self.canvas_chunk_size,
        ensures
            r as nat == self.pixel_value(chunk@, local_x as int, local_y as int),
    {
        proof {
            lemma_pixel_in_chunk(self, local_x as int, local_y as int);
            lemma2_to64();
        }
        let bpp = self.bits_per_pixel();
        let cs = self.canvas_chunk_size;
        let start = (local_y * cs + local_x) * bpp;
        let mut v: u16 = 0;
        for n in 0..bpp
            invariant
                bpp == self.bits_per_pixel_spec(),
                bpp <= 8,
                start + bpp <= usize::MAX,
                v as nat == bits_value(chunk@, start as int, n as nat),
        {
            proof {
                lemma_bits_value_bound(chunk@, start as int, n as nat);
                lemma_pow2_strictly_increases(n as nat, 8);
                lemma2_to64();
            }
            let k = start + n;
            let bit = k / 8 < chunk.len() && (chunk[k / 8] >> (7 - (k % 8) as u8)) & 1u8 == 1u8;
            v = 2 * v + if bit { 1 } else { 0 };
        }
        proof {
            lemma_bits_value_bound(chunk@, start as int, bpp as nat);
        }
        v as u8
    }
}

} // verus!
