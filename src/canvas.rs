use crate::config::{chunks_to_cover, Config, ConfigColor};
use crate::packing::{
    apply_writes, bits_value, blob_with_bit, byte_with_bit, lemma_pixel_in_chunk, lemma_zero_byte_bit,
    BitWrite,
};
use crate::protocol::PixelColorUpdateMessage;
use crate::text::{decimal, usize_text};
use vstd::prelude::*;

verus! {

/// Name of the store key that every chunk key starts with.
pub const CANVAS_DB_KEY: &'static str = "canvas";

/// The store key of chunk `(chunk_x, chunk_y)`: `canvas_{chunk_x}_{chunk_y}`.
pub open spec fn chunk_key(chunk_x: nat, chunk_y: nat) -> Seq<char> {
    CANVAS_DB_KEY@ + "_"@ + decimal(chunk_x) + "_"@ + decimal(chunk_y)
}

/// The store key of chunk `(chunk_x, chunk_y)`.
pub fn chunk_index_to_key(chunk_x: usize, chunk_y: usize) -> (r: String)
    ensures
        r@ == chunk_key(chunk_x as nat, chunk_y as nat),
{
    let mut key = String::from_str(CANVAS_DB_KEY);
    key.append("_");
    let x = usize_text(chunk_x);
    key.append(x.as_str());
    key.append("_");
    let y = usize_text(chunk_y);
    key.append(y.as_str());
    key
}

/// `len` bytes: those of `blob`, then zeros where `blob` is shorter. Bits
/// that the store never wrote read as zero, so this is the chunk that a
/// stored blob of any length stands for.
pub open spec fn fitted(blob: Seq<u8>, len: nat) -> Seq<u8> {
    Seq::new(len, |i: int| if i < blob.len() { blob[i] } else { 0u8 })
}

/// A chunk blob of `len` zero bytes.
pub open spec fn zero_blob(len: nat) -> Seq<u8> {
    Seq::new(len, |i: int| 0u8)
}

/// A whole canvas held in memory at two pixels per byte, and whether it
/// has been filled from the store yet.
pub struct Canvas {
    pub valid: bool,
    pub colors: Vec<u8>,
}

impl Canvas {
    /// An unfilled canvas of `canvas_width × canvas_height` pixels: all
    /// zero, two pixels per byte.
    pub fn new(canvas_width: usize, canvas_height: usize) -> (r: Canvas)
        requires
            canvas_width * canvas_height <= usize::MAX,
        ensures
            !r.valid,
            r.colors@ == zero_blob((canvas_width * canvas_height / 2) as nat),
    {
        let len = canvas_width * canvas_height / 2;
        let mut colors: Vec<u8> = Vec::new();
        for i in 0..len
            invariant
                colors@ == zero_blob(len as nat).subrange(0, i as int),
        {
            colors.push(0u8);
        }
        Canvas { valid: false, colors }
    }
}

/// The store updates of one pixel placement: the chunk's key and the bit
/// updates to apply to its blob, in order.
pub struct ChunkUpdate {
    pub key: String,
    pub writes: Vec<BitWrite>,
}

/// What reading a chunk yields: the chunk's bytes, and, when the store held
/// no blob for it, the bit update that makes the store hold a zero-filled
/// blob of the chunk's length.
pub struct ChunkRead {
    pub blob: Vec<u8>,
    pub create: Option<BitWrite>,
}

/// What a canvas read answers: every chunk blob in base64, the canvas and
/// chunk sizes, and the palette that clients see.
pub struct CanvasInfo {
    /// The chunk blobs in base64, `canvas[chunk_x][chunk_y]`.
    pub canvas: Vec<Vec<String>>,
    pub width: usize,
    pub height: usize,
    pub chunk_size: usize,
    pub colors: Vec<ConfigColor>,
}

/// The base64 text of a byte string, standard alphabet, with padding.
pub uninterp spec fn base64_of(bytes: Seq<u8>) -> Seq<char>;

/// Relies on base64's `Engine::encode` with the standard engine: the
/// encoding is a function of the bytes, four characters for every three
/// bytes or part of them. It panics only when that length overflows.
#[verifier::external_body]
fn encode_base64(bytes: &Vec<u8>) -> (r: String)
    requires
        bytes@.len() / 3 * 4 + 4 <= usize::MAX,
    ensures
        r@ == base64_of(bytes@),
        r@.len() == chunks_to_cover(bytes@.len() as int, 3) * 4,
{
    base64::Engine::encode(&base64::engine::general_purpose::STANDARD, bytes)
}

/// The cell at `(x, y)` of the canvas that the chunks `chunks[chunk_x][chunk_y]`
/// make up.
pub open spec fn canvas_cell(cfg: Config, chunks: Seq<Vec<Vec<u8>>>, x: int, y: int) -> nat {
    let cs = cfg.canvas_chunk_size as int;
    cfg.pixel_value(chunks[x / cs]@[y / cs]@, x % cs, y % cs)
}

/// The chunks are laid out as `chunks[chunk_x][chunk_y]`, one for every
/// chunk of the grid.
pub open spec fn chunk_grid_shape(cfg: Config, chunks: Seq<Vec<Vec<u8>>>) -> bool {
    &&& chunks.len() == cfg.chunk_counts().0
    &&& forall|i: int| 0 <= i < chunks.len() ==> #[trigger] chunks[i]@.len() == cfg.chunk_counts().1
}

/// A position inside a side of `size` cells lies in one of the chunks that
/// cover it.
proof fn lemma_in_covering_chunk(pos: int, size: int, chunk: int)
    requires
        0 <= pos < size,
        chunk > 0,
    ensures
        0 <= pos / chunk < chunks_to_cover(size, chunk),
        0 <= pos % chunk < chunk,
{
    let q = pos / chunk;
    let r = pos % chunk;
    let qq = size / chunk;
    let rr = size % chunk;
    assert(pos == chunk * q + r && size == chunk * qq + rr && 0 <= r < chunk && 0 <= rr < chunk) by {
        vstd::arithmetic::div_mod::lemma_fundamental_div_mod(pos, chunk);
        vstd::arithmetic::div_mod::lemma_fundamental_div_mod(size, chunk);
    }
    assert(q >= 0 && (q < qq || (q == qq && rr > 0))) by (nonlinear_arith)
        requires
            pos == chunk * q + r,
            size == chunk * qq + rr,
            0 <= r < chunk,
            0 <= rr < chunk,
            0 <= pos < size,
            chunk > 0,
    ;
}

/// The cell at row `i / width`, column `i % width` of a `width × height`
/// grid read row by row.
proof fn lemma_raster_index(i: int, width: int, height: int)
    requires
        0 <= i < width * height,
        width > 0,
    ensures
        0 <= i % width < width,
        0 <= i / width < height,
{
    let q = i / width;
    let r = i % width;
    assert(i == width * q + r && 0 <= r < width) by {
        vstd::arithmetic::div_mod::lemma_fundamental_div_mod(i, width);
    }
    assert(0 <= q < height) by (nonlinear_arith)
        requires
            i == width * q + r,
            0 <= r < width,
            0 <= i < width * height,
            width > 0,
    ;
}

/// Position `(x, y)` of a grid `width` cells wide is cell `y * width + x`
/// when the grid is read row by row.
pub proof fn lemma_raster_position(x: int, y: int, width: int, height: int)
    requires
        0 <= x < width,
        0 <= y < height,
    ensures
        0 <= y * width + x < width * height,
        (y * width + x) % width == x,
        (y * width + x) / width == y,
{
    assert(0 <= y * width + x < width * height) by (nonlinear_arith)
        requires 0 <= x < width, 0 <= y < height;
    vstd::arithmetic::div_mod::lemma_fundamental_div_mod_converse(y * width + x, width, y, x);
}

impl Config {
    /// The bit update whose only effect on a store without the chunk is a
    /// zero-filled blob of the chunk's length: its last bit, set to zero.
    pub open spec fn creation_write(&self) -> BitWrite {
        BitWrite { offset: (self.chunk_len() * 8 - 1) as usize, value: false }
    }

    /// Reads a chunk from what the store held under its key: a stored blob
    /// is cut or zero-padded to the chunk's length; a missing one is read
    /// as zeros, together with the bit update that creates it.
    pub fn chunk_get(&self, stored: Option<Vec<u8>>) -> (r: ChunkRead)
        requires
            self.wf(),
        ensures
            match stored {
                Some(b) => r.create is None && r.blob@ == fitted(b@, self.chunk_len() as nat),
                None => r.create == Some(self.creation_write()) && r.blob@ == zero_blob(
                    self.chunk_len() as nat,
                ),
            },
    {
        let len = self.chunk_byte_len();
        proof {
            lemma_pixel_in_chunk(self, 0, 0);
        }
        match stored {
            Some(b) => {
                let mut out: Vec<u8> = Vec::new();
                for i in 0..len
                    invariant
                        out@ == fitted(b@, len as nat).subrange(0, i as int),
                {
                    if i < b.len() {
                        out.push(b[i]);
                    } else {
                        out.push(0u8);
                    }
                }
                ChunkRead { blob: out, create: None }
            },
            None => {
                let mut out: Vec<u8> = Vec::new();
                for i in 0..len
                    invariant
                        out@ == zero_blob(len as nat).subrange(0, i as int),
                {
                    out.push(0u8);
                }
                ChunkRead { blob: out, create: Some(BitWrite { offset: len * 8 - 1, value: false }) }
            },
        }
    }

    /// The store updates that write a placement: the key of the chunk that
    /// holds the position and the bit updates at the position inside it.
    pub fn chunk_update(&self, pixel: &PixelColorUpdateMessage) -> (r: ChunkUpdate)
        requires
            self.wf(),
        ensures
            r.key@ == chunk_key(
                pixel.pos_x as nat / self.canvas_chunk_size as nat,
                pixel.pos_y as nat / self.canvas_chunk_size as nat,
            ),
            r.writes@ == self.pixel_writes(
                pixel.pos_x as int % self.canvas_chunk_size as int,
                pixel.pos_y as int % self.canvas_chunk_size as int,
                pixel.color,
            ),
    {
        let loc = self.canvas_pos_to_chunk_location(pixel.pos_x as usize, pixel.pos_y as usize);
        let ((chunk_x, chunk_y), (local_x, local_y)) = loc;
        let key = chunk_index_to_key(chunk_x, chunk_y);
        let writes = self.pixel_bit_writes(local_x, local_y, pixel.color);
        ChunkUpdate { key, writes }
    }

    /// The full canvas, one palette index per cell, row by row: cell `i`
    /// is the pixel at column `i % width`, row `i / width`, read from the
    /// chunk that covers it. Edge chunks contribute only their cells that
    /// fall inside the canvas.
    pub fn assemble_canvas(&self, chunks: &Vec<Vec<Vec<u8>>>) -> (r: Vec<u8>)
        requires
            self.wf(),
            chunk_grid_shape(*self, chunks@),
            self.canvas_width * self.canvas_height <= usize::MAX,
        ensures
            r@.len() == self.canvas_width * self.canvas_height,
            forall|i: int|
                0 <= i < r@.len() ==> r@[i] == canvas_cell(
                    *self,
                    chunks@,
                    i % (self.canvas_width as int),
                    i / (self.canvas_width as int),
                ),
    {
        let w = self.canvas_width;
        let h = self.canvas_height;
        let cs = self.canvas_chunk_size;
        let total = w * h;
        let mut out: Vec<u8> = Vec::new();
        for i in 0..total
            invariant
                self.wf(),
                w == self.canvas_width,
                h == self.canvas_height,
                cs == self.canvas_chunk_size,
                total == w * h,
                chunk_grid_shape(*self, chunks@),
                out@.len() == i,
                forall|j: int|
                    0 <= j < i ==> out@[j] == canvas_cell(*self, chunks@, j % (w as int), j / (w as int)),
        {
            proof {
                lemma_raster_index(i as int, w as int, h as int);
                lemma_in_covering_chunk((i % w) as int, w as int, cs as int);
                lemma_in_covering_chunk((i / w) as int, h as int, cs as int);
            }
            let x = i % w;
            let y = i / w;
            let cell = self.read_pixel(&chunks[x / cs][y / cs], x % cs, y % cs);
            out.push(cell);
        }
        out
    }

    /// The payload of a canvas read: every chunk in base64 at its place in
    /// the grid, the canvas and chunk sizes, and the active palette.
    pub fn canvas_info(&self, chunks: &Vec<Vec<Vec<u8>>>) -> (r: CanvasInfo)
        requires
            forall|i: int, j: int|
                0 <= i < chunks@.len() && 0 <= j < chunks@[i]@.len() ==> #[trigger] chunks@[i]@[j]@.len()
                    / 3 * 4 + 4 <= usize::MAX,
        ensures
            r.canvas@.len() == chunks@.len(),
            forall|i: int|
                0 <= i < chunks@.len() ==> #[trigger] r.canvas@[i]@.len() == chunks@[i]@.len(),
            forall|i: int, j: int|
                0 <= i < chunks@.len() && 0 <= j < chunks@[i]@.len() ==> #[trigger] r.canvas@[i]@[j]@
                    == base64_of(chunks@[i]@[j]@),
            r.width == self.canvas_width,
            r.height == self.canvas_height,
            r.chunk_size == self.canvas_chunk_size,
            r.colors@ == crate::config::active_palette(self.colors@, self.active_indices()),
    {
        let mut canvas: Vec<Vec<String>> = Vec::new();
        let n = chunks.len();
        for i in 0..n
            invariant
                n == chunks@.len(),
                canvas@.len() == i,
                forall|a: int, b: int|
                    0 <= a < chunks@.len() && 0 <= b < chunks@[a]@.len() ==> #[trigger] chunks@[a]@[b]@.len()
                        / 3 * 4 + 4 <= usize::MAX,
                forall|a: int| 0 <= a < i ==> #[trigger] canvas@[a]@.len() == chunks@[a]@.len(),
                forall|a: int, b: int|
                    0 <= a < i && 0 <= b < chunks@[a]@.len() ==> #[trigger] canvas@[a]@[b]@ == base64_of(
                        chunks@[a]@[b]@,
                    ),
        {
            let row = &chunks[i];
            let mut encoded: Vec<String> = Vec::new();
            let m = row.len();
            for j in 0..m
                invariant
                    m == row@.len(),
                    row == chunks@[i as int],
                    0 <= i < chunks@.len(),
                    forall|a: int, b: int|
                        0 <= a < chunks@.len() && 0 <= b < chunks@[a]@.len() ==> #[trigger] chunks@[a]@[b]@.len()
                            / 3 * 4 + 4 <= usize::MAX,
                    encoded@.len() == j,
                    forall|b: int| 0 <= b < j ==> #[trigger] encoded@[b]@ == base64_of(row@[b]@),
            {
                encoded.push(encode_base64(&row[j]));
            }
            canvas.push(encoded);
        }
        CanvasInfo {
            canvas,
            width: self.canvas_width,
            height: self.canvas_height,
            chunk_size: self.canvas_chunk_size,
            colors: self.active_colors(),
        }
    }
}

proof fn lemma_zero_bits_value(len: nat, start: int, n: nat)
    requires
        start >= 0,
    ensures
        bits_value(zero_blob(len), start, n) == 0,
    decreases n,
{
    if n > 0 {
        lemma_zero_bits_value(len, start, (n - 1) as nat);
        let k = start + n - 1;
        if k / 8 < len {
            lemma_zero_byte_bit((k % 8) as u8);
        }
    }
}

/// A chunk that the store did not hold reads as zeros of the chunk's
/// length; the creation update turns a missing blob into exactly that; and
/// every pixel of it reads as color zero.
pub proof fn lemma_lazy_chunk(cfg: &Config, local_x: int, local_y: int)
    requires
        cfg.wf(),
        0 <= local_x < cfg.canvas_chunk_size,
        0 <= local_y < cfg.canvas_chunk_size,
    ensures
        apply_writes(Seq::empty(), seq![cfg.creation_write()]) == zero_blob(cfg.chunk_len() as nat),
        cfg.pixel_value(zero_blob(cfg.chunk_len() as nat), local_x, local_y) == 0,
{
    lemma_pixel_in_chunk(cfg, local_x, local_y);
    let len = cfg.chunk_len() as nat;
    let w = cfg.creation_write();
    let ws = seq![w];
    assert(ws.drop_last() == Seq::<BitWrite>::empty());
    assert(w.offset as nat == len * 8 - 1);
    assert((len * 8 - 1) as nat / 8 == len - 1);
    assert((len * 8 - 1) as nat % 8 == 7);
    assert(byte_with_bit(0u8, 7u8, false) == 0u8) by (bit_vector);
    assert(len >= 1);
    assert(apply_writes(Seq::empty(), ws.drop_last()) == Seq::<u8>::empty());
    let grown = Seq::<u8>::empty() + Seq::new(len, |i: int| 0u8);
    assert(grown =~= zero_blob(len));
    assert(blob_with_bit(Seq::empty(), w.offset as nat, false) =~= zero_blob(len));
    assert(apply_writes(Seq::empty(), ws) =~= zero_blob(len));
    lemma_zero_bits_value(len, cfg.pixel_bit_offset(local_x, local_y), cfg.bits_per_pixel_spec() as nat);
}

} // verus!
