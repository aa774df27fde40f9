//! Tile decoding and frame composition.

use vstd::prelude::*;
use crate::memory::{Memory, ADDRESS_SPACE};

verus! {

/// Bytes per pixel in the frame buffer: red, green, blue, alpha.
pub const BYTES_PER_PIXEL: usize = 4;

/// Height of the background canvas in pixels.
pub const BUFFER_HEIGHT: usize = 256;

/// Width of the background canvas in pixels.
pub const BUFFER_WIDTH: usize = 256;

/// Size of the frame buffer in bytes.
pub const BUFFER_SIZE: usize = BUFFER_HEIGHT * BUFFER_WIDTH * BYTES_PER_PIXEL;

/// Address of the first byte of tile 0.
pub const TILE_DATA_BASE: u16 = 0x8000;

/// Bytes of bitmap data per tile: two for each of its eight rows.
pub const TILE_BYTES: usize = 16;

/// Address of the first entry of the background map.
pub const TILE_MAP_BASE: u16 = 0x9800;

/// Tiles in one row, and in one column, of the background map.
pub const MAP_SIDE: usize = 32;

/// Bytes in one row of the frame buffer.
pub const BUFFER_PITCH: usize = BUFFER_WIDTH * BYTES_PER_PIXEL;

/// Scanlines in one frame, the vertical blank included.
pub const LINES_PER_FRAME: u8 = 154;

/// The scanline at which the vertical blank begins.
pub const VBLANK_LINE: u8 = 144;

/// Width of the visible screen in pixels.
pub const SCREEN_WIDTH: u32 = 160;

/// Height of the visible screen in pixels.
pub const SCREEN_HEIGHT: u32 = 144;

/// One pixel as it lies in the frame buffer: red, green, blue, alpha.
pub type Color = (u8, u8, u8, u8);

/// The colour of a pixel whose bit is set.
pub const FOREGROUND: Color = (0xff, 0x00, 0x00, 0x00);

/// The colour of a pixel whose bit is clear.
pub const BACKGROUND: Color = (0xff, 0xff, 0xff, 0xff);

/// The row-major RGBA canvas the background is drawn into.
pub struct Buffer {
    pub buffer: [u8; BUFFER_SIZE],
}

impl Buffer {
    /// A canvas with every byte cleared.
    pub fn new() -> (canvas: Self)
        ensures
            canvas.buffer@ == Seq::new(BUFFER_SIZE as nat, |i: int| 0u8),
    {
        let canvas = Buffer { buffer: [0u8; BUFFER_SIZE] };
        assert(canvas.buffer@ =~= Seq::new(BUFFER_SIZE as nat, |i: int| 0u8));
        canvas
    }

    /// The pixel in column `x` of row `y`.
    pub fn pixel(&self, x: u8, y: u8) -> (color: Color)
        ensures
            color == pixel_at(self.buffer@, x as int, y as int),
    {
        let index: usize = (x as usize + y as usize * BUFFER_WIDTH) * BYTES_PER_PIXEL;
        (
            self.buffer[index],
            self.buffer[index + 1],
            self.buffer[index + 2],
            self.buffer[index + 3],
        )
    }
}

/// Index in the frame buffer of the first byte of the pixel in column `px`
/// of row `py`.
pub open spec fn pixel_offset(px: int, py: int) -> int {
    (px + py * 256) * 4
}

/// The pixel that `bytes` holds in column `px` of row `py`.
pub open spec fn pixel_at(bytes: Seq<u8>, px: int, py: int) -> Color {
    let i = pixel_offset(px, py);
    (bytes[i], bytes[i + 1], bytes[i + 2], bytes[i + 3])
}

/// The sixteen bytes of tile `index`, as they lie in `memory`.
pub open spec fn tile_bytes(memory: Seq<u8>, index: u8) -> Seq<u8> {
    memory.subrange(0x8000 + 16 * index, 0x8000 + 16 * index + 16)
}

/// Whether bit `bit` of `byte` is set.
pub open spec fn bit_is_set(byte: u8, bit: u8) -> bool {
    byte & (1u8 << bit) != 0
}

/// The colour of the pixel `offset` columns from the left edge of `row` in
/// `tile`: bit `offset` of the first of the row's two bytes picks it.
pub open spec fn tile_pixel(tile: Seq<u8>, row: int, offset: int) -> Color {
    if bit_is_set(tile[2 * row], offset as u8) {
        FOREGROUND
    } else {
        BACKGROUND
    }
}

/// Whether the pixel in column `px` of row `py` lies in the 8x8 block of
/// the tile with map coordinates (`x`, `y`).
pub open spec fn in_tile(x: int, y: int, px: int, py: int) -> bool {
    8 * x <= px < 8 * x + 8 && 8 * y <= py < 8 * y + 8
}

/// The tile index that the background map holds at map coordinates
/// (`x`, `y`).
pub open spec fn map_entry(memory: Seq<u8>, x: int, y: int) -> u8 {
    memory[0x9800 + 32 * y + x]
}

/// The colour of the background in column `px` of row `py`, as tile data
/// and the background map in `memory` give it.
pub open spec fn frame_pixel(memory: Seq<u8>, px: int, py: int) -> Color {
    tile_pixel(tile_bytes(memory, map_entry(memory, px / 8, py / 8)), py % 8, px % 8)
}

/// The scanline that follows `ly`.
pub open spec fn next_line(ly: u8) -> u8 {
    ((ly + 1) % 154) as u8
}

/// A rectangle of the canvas: its upper left corner and its size in pixels.
#[derive(Clone, Copy, Debug, PartialEq, Eq, Structural)]
pub struct Viewport {
    pub x: i32,
    pub y: i32,
    pub width: u32,
    pub height: u32,
}

/// What the presentation layer has to do after a scanline step.
#[derive(Clone, Copy, Debug, PartialEq, Eq, Structural)]
pub enum FrameAction {
    /// Nothing: the step only advanced the counter.
    Idle,
    /// The canvas was redrawn: upload the whole of it to the texture, in
    /// rows of `pitch` bytes.
    Upload { pitch: usize },
    /// The vertical blank began: copy `source` from the texture to the
    /// screen and present it.
    Present { source: Viewport },
}

/// The action that a step at scanline `ly` asks for when the vertical
/// scroll is `scy`.
pub open spec fn frame_action(ly: u8, scy: u8) -> FrameAction {
    if ly == 0 {
        FrameAction::Upload { pitch: 1024 }
    } else if ly == 144 {
        FrameAction::Present { source: Viewport { x: 0, y: scy as i32, width: 160, height: 144 } }
    } else {
        FrameAction::Idle
    }
}

/// The display controller's registers.
pub struct Gpu {
    /// The scanline being drawn: 0 to 143 are visible, 144 to 153 are the
    /// vertical blank.
    pub ly: u8,
    /// The canvas row shown at the top of the screen.
    pub scy: u8,
    /// The canvas column shown at the left of the screen.
    pub scx: u8,
}

impl Gpu {
    /// A controller at the first scanline with the scroll at the origin.
    pub fn new() -> (gpu: Self)
        ensures
            gpu.ly == 0,
            gpu.scy == 0,
            gpu.scx == 0,
    {
        Gpu { ly: 0, scy: 0, scx: 0 }
    }

    /// Sets the scanline counter to `value`, whatever it held before.
    pub fn write_ly(&mut self, value: u8)
        ensures
            final(self).ly == value,
            final(self).scy == old(self).scy,
            final(self).scx == old(self).scx,
    {
        self.ly = value;
    }

    /// Performs one scanline step.
    ///
    /// At scanline 0 the whole background map is drawn into `buffer`, tile
    /// by tile in row-major order, and the caller is asked to upload it. At
    /// scanline 144 the caller is asked to present the screen-sized window
    /// of the canvas that starts at row `scy`. On any other scanline nothing
    /// is drawn. The counter then moves on to the next scanline.
    pub fn display(&mut self, memory: &Memory, buffer: &mut Buffer) -> (action: FrameAction)
        ensures
            final(self).ly == next_line(old(self).ly),
            final(self).scy == old(self).scy,
            final(self).scx == old(self).scx,
            action == frame_action(old(self).ly, old(self).scy),
            old(self).ly == 0 ==> forall|px: int, py: int|
                0 <= px < 256 && 0 <= py < 256 ==> #[trigger] pixel_at(
                    final(buffer).buffer@,
                    px,
                    py,
                ) == frame_pixel(memory@, px, py),
            old(self).ly != 0 ==> final(buffer).buffer@ == old(buffer).buffer@,
    {
        let mut action = FrameAction::Idle;
        if self.ly == 0 {
            let mut i: usize = 0;
            while i < MAP_SIDE * MAP_SIDE
                invariant
                    i <= MAP_SIDE * MAP_SIDE,
                    forall|px: int, py: int|
                        0 <= px < 256 && 0 <= py < 256 ==> #[trigger] pixel_at(
                            buffer.buffer@,
                            px,
                            py,
                        ) == if 32 * (py / 8) + px / 8 < i {
                            frame_pixel(memory@, px, py)
                        } else {
                            pixel_at(old(buffer).buffer@, px, py)
                        },
                decreases MAP_SIDE * MAP_SIDE - i,
            {
                let tile_num = memory.load(TILE_MAP_BASE + i as u16);
                let tile_x = (i % MAP_SIDE) as u8;
                let tile_y = (i / MAP_SIDE) as u8;
                let tile = self.get_tile(memory, tile_num);
                let ghost before = buffer.buffer@;
                self.print_tile(tile, &mut buffer.buffer, tile_x, tile_y);
                assert forall|px: int, py: int|
                    0 <= px < 256 && 0 <= py < 256 implies #[trigger] pixel_at(
                    buffer.buffer@,
                    px,
                    py,
                ) == if 32 * (py / 8) + px / 8 < i + 1 {
                    frame_pixel(memory@, px, py)
                } else {
                    pixel_at(old(buffer).buffer@, px, py)
                } by {
                    if in_tile(tile_x as int, tile_y as int, px, py) {
                        assert(32 * (py / 8) + px / 8 == i);
                        assert(tile_num == map_entry(memory@, px / 8, py / 8));
                    } else {
                        assert(pixel_at(buffer.buffer@, px, py) == pixel_at(before, px, py));
                    }
                }
                i += 1;
            }
            action = FrameAction::Upload { pitch: BUFFER_PITCH };
        }
        if self.ly == VBLANK_LINE {
            let source = Viewport {
                x: 0,
                y: self.scy as i32,
                width: SCREEN_WIDTH,
                height: SCREEN_HEIGHT,
            };
            action = FrameAction::Present { source };
        }
        self.ly = ((self.ly as u16 + 1) % (LINES_PER_FRAME as u16)) as u8;
        action
    }

    /// Reads the bitmap of tile `tile_num` from tile data.
    pub fn get_tile(&self, memory: &Memory, tile_num: u8) -> (tile: [u8; 16])
        ensures
            tile@ == tile_bytes(memory@, tile_num),
    {
        let tile_start: u16 = TILE_DATA_BASE + (tile_num as u16) * 16;
        let mut tile: [u8; 16] = [0; 16];
        let mut i: usize = 0;
        while i < TILE_BYTES
            invariant
                i <= TILE_BYTES,
                tile_start == 0x8000 + 16 * tile_num,
                forall|k: int| 0 <= k < i ==> tile@[k] == memory@[tile_start + k],
            decreases TILE_BYTES - i,
        {
            tile[i] = memory.load(tile_start + i as u16);
            i += 1;
        }
        assert(tile@ =~= tile_bytes(memory@, tile_num));
        tile
    }

    /// Draws `tile` into the 8x8 block of `buffer` at map coordinates
    /// (`x`, `y`), and leaves every pixel outside that block as it was.
    ///
    /// Columns are taken most significant bit first; column `col` is drawn
    /// `|col - 7|` pixels from the block's left edge, so bit 7 of a row byte
    /// colours the block's last pixel and bit 0 its first.
    pub fn print_tile(&self, tile: [u8; 16], buffer: &mut [u8], x: u8, y: u8)
        requires
            x < 32,
            y < 32,
            old(buffer)@.len() == BUFFER_SIZE,
        ensures
            final(buffer)@.len() == BUFFER_SIZE,
            forall|px: int, py: int|
                0 <= px < 256 && 0 <= py < 256 ==> #[trigger] pixel_at(final(buffer)@, px, py)
                    == if in_tile(x as int, y as int, px, py) {
                    tile_pixel(tile@, py - 8 * y, px - 8 * x)
                } else {
                    pixel_at(old(buffer)@, px, py)
                },
    {
        let mut row: usize = 0;
        while row < 8
            invariant
                row <= 8,
                x < 32,
                y < 32,
                buffer@.len() == BUFFER_SIZE,
                forall|px: int, py: int|
                    0 <= px < 256 && 0 <= py < 256 ==> #[trigger] pixel_at(buffer@, px, py)
                        == if in_tile(x as int, y as int, px, py) && py - 8 * y < row {
                        tile_pixel(tile@, py - 8 * y, px - 8 * x)
                    } else {
                        pixel_at(old(buffer)@, px, py)
                    },
            decreases 8 - row,
        {
            let first = tile[row * 2];
            let yy: usize = y as usize * 8 + row;
            let mut col: u8 = 8;
            while col > 0
                invariant
                    col <= 8,
                    row < 8,
                    x < 32,
                    y < 32,
                    yy == 8 * y + row,
                    first == tile@[2 * row],
                    buffer@.len() == BUFFER_SIZE,
                    forall|px: int, py: int|
                        0 <= px < 256 && 0 <= py < 256 ==> #[trigger] pixel_at(buffer@, px, py)
                            == if in_tile(x as int, y as int, px, py) && (py - 8 * y < row || (py
                            - 8 * y == row && px - 8 * x < 8 - col)) {
                            tile_pixel(tile@, py - 8 * y, px - 8 * x)
                        } else {
                            pixel_at(old(buffer)@, px, py)
                        },
                decreases col,
            {
                col -= 1;
                let offset: u8 = 7 - col;
                let color = if first & (1u8 << offset) != 0 {
                    FOREGROUND
                } else {
                    BACKGROUND
                };
                let xx: usize = x as usize * 8 + offset as usize;
                let ghost before = buffer@;
                put_pixel(buffer, xx, yy, color);
                assert forall|px: int, py: int|
                    0 <= px < 256 && 0 <= py < 256 implies #[trigger] pixel_at(
                    buffer@,
                    px,
                    py,
                ) == if in_tile(x as int, y as int, px, py) && (py - 8 * y < row || (py - 8 * y
                    == row && px - 8 * x < 8 - col)) {
                    tile_pixel(tile@, py - 8 * y, px - 8 * x)
                } else {
                    pixel_at(old(buffer)@, px, py)
                } by {
                    if px == xx && py == yy {
                        assert(color == tile_pixel(tile@, row as int, offset as int));
                    } else {
                        assert(pixel_at(buffer@, px, py) == pixel_at(before, px, py));
                    }
                }
            }
            row += 1;
        }
    }
}

/// Writes `color` to the pixel in column `xx` of row `yy` and leaves every
/// other pixel as it was.
fn put_pixel(buffer: &mut [u8], xx: usize, yy: usize, color: Color)
    requires
        xx < BUFFER_WIDTH,
        yy < BUFFER_HEIGHT,
        old(buffer)@.len() == BUFFER_SIZE,
    ensures
        final(buffer)@.len() == BUFFER_SIZE,
        pixel_at(final(buffer)@, xx as int, yy as int) == color,
        forall|px: int, py: int|
            0 <= px < 256 && 0 <= py < 256 && (px != xx || py != yy) ==> #[trigger] pixel_at(
                final(buffer)@,
                px,
                py,
            ) == pixel_at(old(buffer)@, px, py),
{
    let index: usize = (xx + yy * BUFFER_WIDTH) * BYTES_PER_PIXEL;
    buffer[index] = color.0;
    buffer[index + 1] = color.1;
    buffer[index + 2] = color.2;
    buffer[index + 3] = color.3;
}

/// The bitmap of tile `index` is the sixteen bytes that begin at
/// `0x8000 + 16 * index`, in order, and no other byte of memory has a part
/// in it: two memories that agree on those sixteen give the same tile.
pub proof fn lemma_tile_reads_its_bytes_only(memory: Seq<u8>, other: Seq<u8>, index: u8)
    requires
        memory.len() == ADDRESS_SPACE,
        other.len() == ADDRESS_SPACE,
        forall|a: int|
            0x8000 + 16 * index <= a < 0x8000 + 16 * index + 16 ==> memory[a] == other[a],
    ensures
        tile_bytes(memory, index).len() == 16,
        forall|k: int|
            0 <= k < 16 ==> tile_bytes(memory, index)[k] == memory[0x8000 + 16 * index + k],
        tile_bytes(memory, index) == tile_bytes(other, index),
{
    assert(tile_bytes(memory, index) =~= tile_bytes(other, index));
}

/// The four bytes of every pixel in the block of a tile with map
/// coordinates below 32 lie inside the frame buffer.
pub proof fn lemma_block_in_buffer(x: u8, y: u8, px: int, py: int)
    requires
        x < 32,
        y < 32,
        in_tile(x as int, y as int, px, py),
    ensures
        0 <= px < 256,
        0 <= py < 256,
        0 <= pixel_offset(px, py),
        pixel_offset(px, py) + 4 <= BUFFER_SIZE,
{
}

/// A row whose first byte has only its high bit set shows the foreground
/// colour in the last column of the block, seven pixels from its left
/// edge, and the background colour in the seven columns before it.
pub proof fn lemma_high_bit_is_last_column(tile: Seq<u8>, row: int)
    requires
        tile.len() == 16,
        0 <= row < 8,
        tile[2 * row] == 0x80,
    ensures
        tile_pixel(tile, row, 7) == FOREGROUND,
        forall|offset: int| 0 <= offset < 7 ==> tile_pixel(tile, row, offset) == BACKGROUND,
{
    assert(0x80u8 & (1u8 << 7u8) != 0) by (bit_vector);
    assert(forall|bit: u8| bit < 7 ==> 0x80u8 & (1u8 << bit) == 0) by (bit_vector);
}

} // verus!
