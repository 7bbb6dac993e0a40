//! The framebuffer console: where each character goes on the screen, when
//! the screen wraps or is cleared, and which pixels a character sets, in the
//! glyphs of the Noto Sans Mono bitmap font (regular, 16 pixels high).
use vstd::prelude::*;
use noto_sans_mono_bitmap::{get_raster, FontWeight, RasterHeight};

verus! {

/// Width in pixels of every glyph of the font (regular, 16 pixels high).
pub const GLYPH_WIDTH: usize = 7;

/// Height in pixels of every glyph of the font, and of a line.
pub const GLYPH_HEIGHT: usize = 16;

/// Bytes of a glyph: one intensity per pixel, row by row.
pub const GLYPH_BYTES: usize = 112;

/// The framebuffer's shape: pixels across and down, bytes per row, and
/// bytes per pixel.
#[derive(Debug, Clone, Copy, PartialEq, Eq, Structural)]
pub struct FbGeometry {
    pub width: usize,
    pub height: usize,
    pub pitch: usize,
    pub bpp: usize,
}

/// Where the next character goes, in pixels from the top left corner.
#[derive(Debug, Clone, Copy, PartialEq, Eq, Structural)]
pub struct Cursor {
    pub x: usize,
    pub y: usize,
}

/// The four bytes of a pixel's colour, in framebuffer order.
#[derive(Debug, Clone, Copy, PartialEq, Eq, Structural)]
pub struct PixelColor(pub u8, pub u8, pub u8, pub u8);

/// One pixel to set: its byte offset in the framebuffer, and the colour
/// whose first `bpp` bytes it takes.
#[derive(Debug, Clone, Copy, PartialEq, Eq, Structural)]
pub struct PixelWrite {
    pub offset: usize,
    pub color: PixelColor,
}

/// What printing one character does: the cursor after it, whether the
/// screen is cleared first, and the pixels set after that.
pub struct PutchOutcome {
    pub cursor: Cursor,
    pub clear: bool,
    pub writes: Vec<PixelWrite>,
}

/// The glyph `noto_sans_mono_bitmap::get_raster` gives a character (regular,
/// 16 pixels high): its pixel intensities, row by row.
pub uninterp spec fn glyph_pixels(c: char) -> Seq<u8>;

/// Whether the font has a glyph for `c`: with the crate's default features,
/// the printable ASCII characters.
pub open spec fn has_glyph(c: char) -> bool {
    0x20 <= c as u32 <= 0x7e
}

/// The glyph of `c` (`noto_sans_mono_bitmap::get_raster`, regular weight,
/// 16 pixels high), `None` when the font has none. The contract claims what
/// the crate's source shows with its default features: a glyph exactly for
/// the printable ASCII characters, each 7 by 16 pixels; the pixels
/// themselves are named (`glyph_pixels`).
#[verifier::external_body]
fn raster(c: char) -> (r: Option<Vec<u8>>)
    ensures
        r is Some <==> has_glyph(c),
        r matches Some(p) ==> p@ == glyph_pixels(c) && p@.len() == GLYPH_BYTES,
{
    get_raster(c, FontWeight::Regular, RasterHeight::Size16).map(|g| g.pixels().to_vec())
}

/// The grey of a pixel of intensity `i`: every colour channel carries it.
pub open spec fn pixel_color(i: u8) -> PixelColor {
    PixelColor(i, i, i, 0)
}

/// Where a character is drawn from `cur`, and whether the screen is cleared
/// first: past the right edge it goes to the start of the next line; a line
/// that would not fit above the bottom clears the screen and starts at the
/// top.
pub open spec fn placement(fb: FbGeometry, cur: Cursor) -> (Cursor, bool) {
    let c1 = if cur.x >= fb.width { Cursor { x: 0, y: (cur.y + GLYPH_HEIGHT) as usize } } else { cur };
    if c1.y >= fb.height - GLYPH_HEIGHT {
        (Cursor { x: 0, y: 0 }, true)
    } else {
        (c1, false)
    }
}

/// The pixels of a glyph drawn with its top left corner at `at`.
pub open spec fn glyph_writes(fb: FbGeometry, at: Cursor, pixels: Seq<u8>) -> Seq<PixelWrite> {
    Seq::new(GLYPH_BYTES as nat, |k: int| PixelWrite {
        offset: ((at.y + k / 7) * fb.pitch + (at.x + k % 7) * fb.bpp) as usize,
        color: pixel_color(pixels[k]),
    })
}

/// What printing `c` at `cur` does, given the glyph drawn for it: a newline
/// moves to the start of the next line, a carriage return to the start of
/// the line; any other character is placed, drawn, and moves the cursor one
/// glyph to the right.
pub open spec fn putch_outcome(fb: FbGeometry, cur: Cursor, c: char, pixels: Seq<u8>)
    -> (Cursor, bool, Seq<PixelWrite>) {
    if c == '\n' {
        (Cursor { x: 0, y: (cur.y + GLYPH_HEIGHT) as usize }, false, Seq::empty())
    } else if c == '\r' {
        (Cursor { x: 0, y: cur.y }, false, Seq::empty())
    } else {
        let (at, clear) = placement(fb, cur);
        (Cursor { x: (at.x + GLYPH_WIDTH) as usize, y: at.y }, clear, glyph_writes(fb, at, pixels))
    }
}

/// The framebuffer bounds under which no offset overflows: every pixel a
/// line can reach lies below the top of the address space.
pub open spec fn fb_fits(fb: FbGeometry) -> bool {
    &&& fb.height >= GLYPH_HEIGHT
    &&& fb.width + GLYPH_WIDTH <= usize::MAX
    &&& fb.height * fb.pitch + (fb.width + GLYPH_WIDTH) * fb.bpp <= usize::MAX
}

/// Whether `fb_fits` holds of a framebuffer, tested.
pub fn fb_fits_checked(fb: FbGeometry) -> (r: bool)
    ensures
        r == fb_fits(fb),
{
    if fb.height < GLYPH_HEIGHT || fb.width > usize::MAX - GLYPH_WIDTH {
        return false;
    }
    match (fb.height.checked_mul(fb.pitch), (fb.width + GLYPH_WIDTH).checked_mul(fb.bpp)) {
        (Some(a), Some(b)) => a <= usize::MAX - b,
        _ => false,
    }
}

/// Move to the beginning of the line.
pub fn home(cur: Cursor) -> (r: Cursor)
    ensures
        r == (Cursor { x: 0, y: cur.y }),
{
    Cursor { x: 0, y: cur.y }
}

/// Move down one line, to its beginning.
pub fn next_line(cur: Cursor) -> (r: Cursor)
    requires
        cur.y + GLYPH_HEIGHT <= usize::MAX,
    ensures
        r == (Cursor { x: 0, y: (cur.y + GLYPH_HEIGHT) as usize }),
{
    home(move_down(cur, GLYPH_HEIGHT))
}

/// Move to the top of the page.
pub fn page_up(cur: Cursor) -> (r: Cursor)
    ensures
        r == (Cursor { x: cur.x, y: 0 }),
{
    Cursor { x: cur.x, y: 0 }
}

/// Where the cursor stands once the screen is cleared: the top left
/// corner. The caller zeroes the `height * pitch` bytes of the framebuffer.
pub fn clear(cur: Cursor) -> (r: Cursor)
    ensures
        r == (Cursor { x: 0, y: 0 }),
{
    page_up(home(cur))
}

/// The width of the framebuffer in pixels.
pub fn width(fb: FbGeometry) -> (r: usize)
    ensures
        r == fb.width,
{
    fb.width
}

/// The height of the framebuffer in pixels.
pub fn height(fb: FbGeometry) -> (r: usize)
    ensures
        r == fb.height,
{
    fb.height
}

/// Print `c` at `cur` with the given glyph (ignored for a newline or a
/// carriage return).
pub fn putch_step(fb: FbGeometry, cur: Cursor, c: char, glyph: &Vec<u8>) -> (r: PutchOutcome)
    requires
        fb_fits(fb),
        cur.y + GLYPH_HEIGHT <= usize::MAX,
        c != '\n' && c != '\r' ==> glyph@.len() == GLYPH_BYTES,
    ensures
        (r.cursor, r.clear, r.writes@) == putch_outcome(fb, cur, c, glyph@),
{
    if c == '\n' {
        return PutchOutcome { cursor: next_line(cur), clear: false, writes: Vec::new() };
    }
    if c == '\r' {
        return PutchOutcome { cursor: home(cur), clear: false, writes: Vec::new() };
    }
    let mut at = cur;
    if at.x >= width(fb) {
        at = next_line(cur);
    }
    let mut cleared = false;
    if at.y >= height(fb) - GLYPH_HEIGHT {
        at = clear(at);
        cleared = true;
    }
    assert((at, cleared) == placement(fb, cur));
    let ghost target = glyph_writes(fb, at, glyph@);
    let mut writes: Vec<PixelWrite> = Vec::new();
    let mut k: usize = 0;
    while k < GLYPH_BYTES
        invariant
            k <= GLYPH_BYTES,
            glyph@.len() == GLYPH_BYTES,
            fb_fits(fb),
            at.x <= fb.width,
            at.y + GLYPH_HEIGHT <= fb.height,
            target == glyph_writes(fb, at, glyph@),
            writes@ == target.take(k as int),
        decreases GLYPH_BYTES - k,
    {
        let row = k / 7;
        let col = k % 7;
        assert((at.y + row) * fb.pitch <= fb.height * fb.pitch) by (nonlinear_arith)
            requires at.y + row < fb.height;
        assert((at.x + col) * fb.bpp <= (fb.width + GLYPH_WIDTH) * fb.bpp) by (nonlinear_arith)
            requires at.x + col <= fb.width + GLYPH_WIDTH;
        let offset = (at.y + row) * fb.pitch + (at.x + col) * fb.bpp;
        let i = glyph[k];
        writes.push(PixelWrite { offset, color: PixelColor(i, i, i, 0) });
        assert(writes@ =~= target.take(k + 1));
        k = k + 1;
    }
    assert(writes@ =~= target);
    PutchOutcome { cursor: Cursor { x: at.x + GLYPH_WIDTH, y: at.y }, clear: cleared, writes }
}

/// The glyph a character is drawn with: its own, or `?` when the font has
/// none.
pub open spec fn drawn_glyph(c: char) -> Seq<u8> {
    if has_glyph(c) { glyph_pixels(c) } else { glyph_pixels('?') }
}

/// Print `c` at `cur`: a character the font lacks is drawn as `?`.
pub fn putch(fb: FbGeometry, cur: Cursor, c: char) -> (r: PutchOutcome)
    requires
        fb_fits(fb),
        cur.y + GLYPH_HEIGHT <= usize::MAX,
    ensures
        (r.cursor, r.clear, r.writes@) == putch_outcome(fb, cur, c, drawn_glyph(c)),
{
    if c == '\n' || c == '\r' {
        return putch_step(fb, cur, c, &Vec::new());
    }
    match raster(c) {
        Some(g) => putch_step(fb, cur, c, &g),
        None => match raster('?') {
            Some(g) => putch_step(fb, cur, '?', &g),
            None => {
                assert(has_glyph('?'));
                putch_step(fb, cur, c, &Vec::new())
            },
        },
    }
}

/// Move the cursor down by `distance` pixels.
pub fn move_down(cur: Cursor, distance: usize) -> (r: Cursor)
    requires
        cur.y + distance <= usize::MAX,
    ensures
        r == (Cursor { x: cur.x, y: (cur.y + distance) as usize }),
{
    Cursor { x: cur.x, y: cur.y + distance }
}

/// Lines of text the screen holds, as the terminal reports them.
pub fn screen_rows(fb: FbGeometry) -> (r: u8)
    ensures
        r == (fb.height / GLYPH_HEIGHT) as u8,
{
    (fb.height / GLYPH_HEIGHT) as u8
}

/// Characters a line holds, as the terminal reports them.
pub fn screen_cols(fb: FbGeometry) -> (r: u8)
    ensures
        r == (fb.width / GLYPH_WIDTH) as u8,
{
    (fb.width / GLYPH_WIDTH) as u8
}

} // verus!
