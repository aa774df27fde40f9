use tile_gpu::gpu::{Buffer, FrameAction, Gpu, Viewport, BACKGROUND, FOREGROUND};
use tile_gpu::memory::Memory;

#[test]
fn new_gpu_starts_at_line_zero() {
    let gpu = Gpu::new();
    assert_eq!(gpu.ly, 0);
    assert_eq!(gpu.scy, 0);
    assert_eq!(gpu.scx, 0);
}

#[test]
fn blank_memory_draws_background_everywhere() {
    let memory = Box::new(Memory::new());
    let mut canvas = Box::new(Buffer::new());
    let mut gpu = Gpu::new();
    let action = gpu.display(&memory, &mut canvas);
    assert_eq!(action, FrameAction::Upload { pitch: 1024 });
    assert_eq!(gpu.ly, 1);
    for chunk in canvas.buffer.chunks(4) {
        assert_eq!(chunk, &[0xff, 0xff, 0xff, 0xff]);
    }
    assert_eq!(canvas.pixel(0, 0), BACKGROUND);
    assert_eq!(canvas.pixel(255, 255), BACKGROUND);
}

#[test]
fn high_bit_of_first_row_draws_pixel_seven() {
    let mut memory = Box::new(Memory::new());
    memory.store(0x8000, 0x80);
    memory.store(0x8001, 0x00);
    let mut canvas = Box::new(Buffer::new());
    let mut gpu = Gpu::new();
    gpu.display(&memory, &mut canvas);
    let index = (7 + 0 * 256) * 4;
    assert_eq!(&canvas.buffer[index..index + 4], &[0xff, 0x00, 0x00, 0x00]);
    assert_eq!(&canvas.buffer[0..4], &[0xff, 0xff, 0xff, 0xff]);
    assert_eq!(canvas.pixel(7, 0), FOREGROUND);
    assert_eq!(canvas.pixel(0, 0), BACKGROUND);
    // Every map cell names tile 0, so the pattern repeats in each block.
    for y in 0..=255u8 {
        for x in 0..=255u8 {
            let expected = if y % 8 == 0 && x % 8 == 7 { FOREGROUND } else { BACKGROUND };
            assert_eq!(canvas.pixel(x, y), expected);
        }
    }
}

#[test]
fn map_cells_pick_their_tiles_in_row_major_order() {
    let mut memory = Box::new(Memory::new());
    // Tile 1 is solid, tile 2 has only its top row lit.
    for k in 0..16u16 {
        memory.store(0x8010 + k, 0xff);
    }
    memory.store(0x8020, 0xff);
    // Cell (1, 0) shows tile 1, cell (0, 1) shows tile 2, cell (31, 31) shows tile 1.
    memory.store(0x9800 + 1, 1);
    memory.store(0x9800 + 32, 2);
    memory.store(0x9bff, 1);
    let mut canvas = Box::new(Buffer::new());
    let mut gpu = Gpu::new();
    gpu.display(&memory, &mut canvas);
    for y in 0..=255u8 {
        for x in 0..=255u8 {
            let cell = (x / 8, y / 8);
            let lit = cell == (1, 0) || cell == (31, 31) || (cell == (0, 1) && y % 8 == 0);
            let expected = if lit { FOREGROUND } else { BACKGROUND };
            assert_eq!(canvas.pixel(x, y), expected, "pixel ({}, {})", x, y);
        }
    }
}

#[test]
fn redraw_overwrites_whatever_the_canvas_held() {
    let memory = Box::new(Memory::new());
    let mut canvas = Box::new(Buffer::new());
    for (i, byte) in canvas.buffer.iter_mut().enumerate() {
        *byte = (i % 199) as u8;
    }
    let mut gpu = Gpu::new();
    gpu.display(&memory, &mut canvas);
    assert!(canvas.buffer.iter().all(|&b| b == 0xff));
}

#[test]
fn other_lines_leave_the_canvas_alone() {
    let mut memory = Box::new(Memory::new());
    memory.store(0x8000, 0xff);
    let mut gpu = Gpu::new();
    for line in 1..=255u8 {
        let mut canvas = Box::new(Buffer::new());
        canvas.buffer[12345] = 0x5a;
        let before = canvas.buffer.to_vec();
        gpu.write_ly(line);
        gpu.display(&memory, &mut canvas);
        assert_eq!(&canvas.buffer[..], &before[..]);
    }
}

#[test]
fn vblank_asks_for_the_scrolled_viewport() {
    let memory = Box::new(Memory::new());
    let mut canvas = Box::new(Buffer::new());
    let mut gpu = Gpu::new();
    gpu.write_ly(144);
    gpu.scy = 37;
    gpu.scx = 91;
    let action = gpu.display(&memory, &mut canvas);
    assert_eq!(
        action,
        FrameAction::Present { source: Viewport { x: 0, y: 37, width: 160, height: 144 } }
    );
    assert_eq!(gpu.ly, 145);
    assert_eq!(gpu.scy, 37);
    assert_eq!(gpu.scx, 91);
    assert!(canvas.buffer.iter().all(|&b| b == 0));
}

#[test]
fn vblank_viewport_follows_every_scroll_value() {
    let memory = Box::new(Memory::new());
    let mut canvas = Box::new(Buffer::new());
    let mut gpu = Gpu::new();
    for scy in 0..=255u8 {
        gpu.write_ly(144);
        gpu.scy = scy;
        let action = gpu.display(&memory, &mut canvas);
        let source = Viewport { x: 0, y: scy as i32, width: 160, height: 144 };
        assert_eq!(action, FrameAction::Present { source });
    }
}
