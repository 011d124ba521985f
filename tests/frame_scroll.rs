use ledpanel::frame::Frame;
use ledpanel::image::Image;
use ledpanel::panel::{COLUMNS, ROWS};
use ledpanel::pixel::Pixel;

fn striped_image(width: u32) -> Image {
    let mut pixels = Vec::new();
    for r in 0..ROWS {
        let mut row = Vec::new();
        for c in 0..width {
            row.push(Pixel::new_colored_pixel(c as u16, r as u16, (c * 3 + r as u32) as u16));
        }
        pixels.push(row);
    }
    Image { width, height: ROWS as u32, pixels }
}

#[test]
fn black_source_keeps_frame_black_and_moves_cursor() {
    let image = Image::new();
    let mut frame = Frame::new();
    frame.next_image_frame(&image);
    assert_eq!(frame.position(), 1);
    assert_eq!(frame.pixels.len(), ROWS);
    for row in &frame.pixels {
        assert_eq!(row.len(), COLUMNS);
        assert!(row.iter().all(|p| *p == Pixel::new()));
    }
}

#[test]
fn window_wraps_around_source_width() {
    let image = striped_image(40);
    let mut frame = Frame::new();
    for _ in 0..30 {
        frame.next_image_frame(&image);
    }
    assert_eq!(frame.position(), 30);
    frame.next_image_frame(&image);
    // cursor was 30: panel column c shows source column (30 + c) mod 40
    assert_eq!(frame.pixels[5][0], image.pixels[5][30]);
    assert_eq!(frame.pixels[5][9], image.pixels[5][39]);
    assert_eq!(frame.pixels[5][10], image.pixels[5][0]);
    assert_eq!(frame.pixels[15][31], image.pixels[15][21]);
}

#[test]
fn scrolling_is_cyclic_over_source_width() {
    let width = 37;
    let image = striped_image(width);
    let mut frame = Frame::new();
    frame.next_image_frame(&image);
    let first = frame.pixels.clone();
    for _ in 1..width {
        frame.next_image_frame(&image);
    }
    assert_eq!(frame.position(), 0);
    frame.next_image_frame(&image);
    assert_eq!(frame.pixels, first);
    assert_eq!(frame.position(), 1);
}

#[test]
fn narrow_source_repeats_across_panel() {
    let image = striped_image(1);
    let mut frame = Frame::new();
    frame.next_image_frame(&image);
    assert_eq!(frame.position(), 0);
    assert!(frame.pixels[7].iter().all(|p| *p == image.pixels[7][0]));
}

#[test]
fn border_frames_the_panel() {
    let mut frame = Frame::new();
    frame.draw_border();
    let border = Pixel::new_colored_pixel(230, 230, 230);
    assert_eq!(frame.pixels[0][5], border);
    assert_eq!(frame.pixels[ROWS - 1][5], border);
    assert_eq!(frame.pixels[4][0], border);
    assert_eq!(frame.pixels[4][COLUMNS - 1], border);
    assert_eq!(frame.pixels[4][5], Pixel::new());
    frame.clear_frame();
    assert_eq!(frame.pixels[0][0], Pixel::new());
}

#[test]
fn game_over_picture_is_one_scroll_step() {
    let image = striped_image(32);
    let mut frame = Frame::new();
    frame.draw_game_over(&image);
    assert_eq!(frame.pixels, image.pixels);
    assert_eq!(frame.position(), 1);
}
