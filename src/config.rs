use vstd::prelude::*;

verus! {

/// Side of the canvas, and of a chunk, when the configuration names none.
pub const CANVAS_SIZE_DEFAULT: usize = 256;

/// Pixels held by one byte when the configuration names none.
pub const PIXELS_PER_BYTES_DEFAULT: usize = 2;

/// Returns the default canvas side.
pub fn canvas_size_default() -> (r: usize)
    ensures
        r == CANVAS_SIZE_DEFAULT,
{
    CANVAS_SIZE_DEFAULT
}

/// Returns the default number of pixels per byte.
pub fn pixels_per_bytes_default() -> (r: usize)
    ensures
        r == PIXELS_PER_BYTES_DEFAULT,
{
    PIXELS_PER_BYTES_DEFAULT
}

/// Number of chunks of side `chunk` needed to cover `size` cells: the
/// quotient, rounded up.
pub open spec fn chunks_to_cover(size: int, chunk: int) -> int {
    size / chunk + if size % chunk != 0 { 1int } else { 0int }
}

/// A palette entry: red, green and blue.
pub type ConfigColor = [u8; 3];

/// Which chunk a canvas position falls in, and where inside it:
/// `((chunk_x, chunk_y), (local_x, local_y))`.
pub type ChunkLocation = ((usize, usize), (usize, usize));

/// The palette that clients see: the configured colors in order, or, when
/// a list of active indices is configured, the colors at those indices in
/// the list's order, indices past the end of the palette left out.
pub open spec fn active_palette(colors: Seq<ConfigColor>, active: Option<Seq<usize>>) -> Seq<
    ConfigColor,
> {
    match active {
        None => colors,
        Some(indices) => picked_colors(colors, indices),
    }
}

/// The colors at `indices`, in the order of `indices`, skipping those that
/// fall outside `colors`.
pub open spec fn picked_colors(colors: Seq<ConfigColor>, indices: Seq<usize>) -> Seq<ConfigColor>
    decreases indices.len(),
{
    if indices.len() == 0 {
        seq![]
    } else {
        let rest = picked_colors(colors, indices.drop_last());
        let i = indices.last();
        if (i as int) < colors.len() {
            rest.push(colors[i as int])
        } else {
            rest
        }
    }
}

/// Settings of the canvas and of the placement quota.
pub struct Config {
    pub redis_url: String,
    pub host: String,
    pub debug_mode: bool,
    pub canvas_width: usize,
    pub canvas_height: usize,
    pub canvas_chunk_size: usize,
    /// Pixels an identity may place in one quota window.
    pub base_pixel_amount: usize,
    /// Length of the quota window, in seconds.
    pub timeout: u64,
    pub pixels_per_bytes: usize,
    pub colors: Vec<ConfigColor>,
    pub colors_active: Option<Vec<usize>>,
}

impl Config {
    /// The settings that the chunk arithmetic depends on are usable: a
    /// chunk has a positive side, a byte holds a whole number of pixels of
    /// a whole number of bits, and the bit offsets inside a chunk fit in a
    /// `usize`.
    pub open spec fn wf(&self) -> bool {
        &&& self.canvas_chunk_size > 0
        &&& (self.pixels_per_bytes == 1 || self.pixels_per_bytes == 2 || self.pixels_per_bytes
            == 4 || self.pixels_per_bytes == 8)
        &&& self.canvas_chunk_size * self.canvas_chunk_size * 8 <= usize::MAX
    }

    /// The configured list of active palette indices, if any.
    pub open spec fn active_indices(&self) -> Option<Seq<usize>> {
        match self.colors_active {
            Some(v) => Some(v@),
            None => None,
        }
    }

    /// Bits that one pixel occupies.
    pub open spec fn bits_per_pixel_spec(&self) -> int {
        8int / (self.pixels_per_bytes as int)
    }

    /// Bits that one chunk occupies.
    pub open spec fn chunk_bits(&self) -> int {
        self.canvas_chunk_size * self.canvas_chunk_size * self.bits_per_pixel_spec()
    }

    /// Bytes of one chunk blob: its bits, rounded up to whole bytes.
    pub open spec fn chunk_len(&self) -> int {
        chunks_to_cover(self.chunk_bits(), 8)
    }

    /// Chunks along the horizontal and the vertical axis.
    pub open spec fn chunk_counts(&self) -> (int, int) {
        (
            chunks_to_cover(self.canvas_width as int, self.canvas_chunk_size as int),
            chunks_to_cover(self.canvas_height as int, self.canvas_chunk_size as int),
        )
    }

    /// Tells whether the settings meet [`Config::wf`].
    pub fn is_valid(&self) -> (r: bool)
        ensures
            r == self.wf(),
    {
        let ppb = self.pixels_per_bytes;
        let cs = self.canvas_chunk_size;
        if cs == 0 || !(ppb == 1 || ppb == 2 || ppb == 4 || ppb == 8) {
            return false;
        }
        match cs.checked_mul(cs) {
            None => false,
            Some(area) => area <= usize::MAX / 8,
        }
    }

    fn chunk_number(&self, size: usize) -> (r: usize)
        requires
            self.canvas_chunk_size > 0,
        ensures
            r == chunks_to_cover(size as int, self.canvas_chunk_size as int),
    {
        let cs = self.canvas_chunk_size;
        let extra: usize = if size % cs != 0 { 1 } else { 0 };
        assert(size / cs + extra <= size) by (nonlinear_arith)
            requires cs > 0, extra == (if size % cs != 0 { 1usize } else { 0usize });
        size / cs + extra
    }

    /// Chunks along each axis: the canvas side divided by the chunk side,
    /// rounded up.
    pub fn canvas_chunks(&self) -> (r: (usize, usize))
        requires
            self.wf(),
        ensures
            r.0 == self.chunk_counts().0,
            r.1 == self.chunk_counts().1,
    {
        (self.chunk_number(self.canvas_width), self.chunk_number(self.canvas_height))
    }

    /// The chunk that holds `(pos_x, pos_y)` and the position inside it.
    pub fn canvas_pos_to_chunk_location(&self, pos_x: usize, pos_y: usize) -> (r: ChunkLocation)
        requires
            self.wf(),
        ensures
            r.0.0 == pos_x / self.canvas_chunk_size,
            r.0.1 == pos_y / self.canvas_chunk_size,
            r.1.0 == pos_x % self.canvas_chunk_size,
            r.1.1 == pos_y % self.canvas_chunk_size,
    {
        let cs = self.canvas_chunk_size;
        ((pos_x / cs, pos_y / cs), (pos_x % cs, pos_y % cs))
    }

    /// Bits that one pixel occupies: eight divided by the pixels per byte.
    pub fn bits_per_pixel(&self) -> (r: usize)
        requires
            self.wf(),
        ensures
            r == self.bits_per_pixel_spec(),
            1 <= r <= 8,
    {
        8 / self.pixels_per_bytes
    }

    /// Bytes of one chunk blob.
    pub fn chunk_byte_len(&self) -> (r: usize)
        requires
            self.wf(),
        ensures
            r == self.chunk_len(),
            r * 8 >= self.chunk_bits(),
            r <= self.canvas_chunk_size * self.canvas_chunk_size,
    {
        let cs = self.canvas_chunk_size;
        let area = cs * cs;
        let bpp = self.bits_per_pixel();
        assert(area * bpp <= area * 8) by (nonlinear_arith)
            requires bpp <= 8, area >= 0;
        let bits = area * bpp;
        let extra: usize = if bits % 8 != 0 { 1 } else { 0 };
        bits / 8 + extra
    }

    /// The palette that clients see (see [`active_palette`]).
    pub fn active_colors(&self) -> (r: Vec<ConfigColor>)
        ensures
            r@ == active_palette(self.colors@, self.active_indices()),
    {
        let mut out: Vec<ConfigColor> = Vec::new();
        match &self.colors_active {
            None => {
                let n = self.colors.len();
                for i in 0..n
                    invariant
                        n == self.colors@.len(),
                        out@ == self.colors@.subrange(0, i as int),
                {
                    out.push(self.colors[i]);
                }
                assert(out@ == self.colors@);
            },
            Some(indices) => {
                let n = indices.len();
                for k in 0..n
                    invariant
                        n == indices@.len(),
                        out@ == picked_colors(self.colors@, indices@.subrange(0, k as int)),
                {
                    let i = indices[k];
                    assert(indices@.subrange(0, k as int) == indices@.subrange(
                        0,
                        k + 1,
                    ).drop_last());
                    if i < self.colors.len() {
                        out.push(self.colors[i]);
                    }
                }
                assert(indices@.subrange(0, n as int) == indices@);
            },
        }
        out
    }
}

} // verus!
