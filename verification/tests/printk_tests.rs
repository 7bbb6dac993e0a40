use noto_sans_mono_bitmap::{get_raster, FontWeight, RasterHeight};
use venix::printk::{
    clear, height, home, move_down, next_line, page_up, putch, putch_step, screen_cols, screen_rows, width, Cursor,
    FbGeometry, PixelColor,
};

fn fb() -> FbGeometry {
    FbGeometry { width: 70, height: 64, pitch: 280, bpp: 4 }
}

#[test]
fn characters_drawn_from_the_font() {
    let out = putch(fb(), Cursor { x: 14, y: 16 }, 'A');
    assert_eq!(out.cursor, Cursor { x: 21, y: 16 });
    assert!(!out.clear);
    let glyph = get_raster('A', FontWeight::Regular, RasterHeight::Size16).unwrap();
    assert_eq!(out.writes.len(), 112);
    for (k, w) in out.writes.iter().enumerate() {
        let (row, col) = (k / 7, k % 7);
        assert_eq!(w.offset, (16 + row) * 280 + (14 + col) * 4);
        let i = glyph.pixels()[k];
        assert_eq!(w.color, PixelColor(i, i, i, 0));
    }
}

#[test]
fn control_characters_move_the_cursor() {
    let out = putch(fb(), Cursor { x: 35, y: 16 }, '\n');
    assert_eq!((out.cursor, out.clear, out.writes.len()), (Cursor { x: 0, y: 32 }, false, 0));
    let out = putch(fb(), Cursor { x: 35, y: 16 }, '\r');
    assert_eq!((out.cursor, out.clear, out.writes.len()), (Cursor { x: 0, y: 16 }, false, 0));
    assert_eq!(move_down(Cursor { x: 3, y: 4 }, 2), Cursor { x: 3, y: 6 });
}

#[test]
fn lines_wrap_and_the_screen_clears() {
    // Past the right edge: the next line.
    let out = putch(fb(), Cursor { x: 70, y: 0 }, 'x');
    assert_eq!(out.cursor, Cursor { x: 7, y: 16 });
    assert!(!out.clear);
    assert_eq!(out.writes[0].offset, 16 * 280);
    // A line that would not fit: clear, and start at the top.
    let out = putch(fb(), Cursor { x: 7, y: 48 }, 'x');
    assert!(out.clear);
    assert_eq!(out.cursor, Cursor { x: 7, y: 0 });
    assert_eq!(out.writes[0].offset, 0);
}

#[test]
fn unknown_characters_drawn_as_question_marks() {
    let out = putch(fb(), Cursor { x: 0, y: 0 }, '\u{e9}');
    let q = putch_step(fb(), Cursor { x: 0, y: 0 }, '?',
        &get_raster('?', FontWeight::Regular, RasterHeight::Size16).unwrap().pixels().to_vec());
    assert_eq!(out.writes, q.writes);
    assert_eq!(out.cursor, Cursor { x: 7, y: 0 });
    assert_eq!((screen_rows(fb()), screen_cols(fb())), (4, 10));
}

#[test]
fn cursor_moves() {
    let c = Cursor { x: 35, y: 32 };
    assert_eq!(home(c), Cursor { x: 0, y: 32 });
    assert_eq!(next_line(c), Cursor { x: 0, y: 48 });
    assert_eq!(page_up(c), Cursor { x: 35, y: 0 });
    assert_eq!(clear(c), Cursor { x: 0, y: 0 });
    assert_eq!((width(fb()), height(fb())), (70, 64));
}

#[test]
fn glyph_pixels_are_grey() {
    let out = putch(fb(), Cursor { x: 0, y: 0 }, 'M');
    for w in &out.writes {
        assert_eq!(w.color.0, w.color.1);
        assert_eq!(w.color.1, w.color.2);
        assert_eq!(w.color.3, 0);
    }
    assert!(out.writes.iter().any(|w| w.color.2 > 0x80));
}
