use axis_transpose::frame::Frame;
use axis_transpose::image::Rgb;

fn counting(len: usize) -> Vec<u8> {
    (0..len).map(|i| i as u8).collect()
}

#[test]
fn frame_accepts_tight_buffer() {
    let frame = Frame::new(2, 3, 6, counting(18)).unwrap();
    assert_eq!(frame.width(), 2);
    assert_eq!(frame.height(), 3);
    assert_eq!(frame.row_stride(), 6);
    assert_eq!(frame.bytes(), &counting(18));
}

#[test]
fn frame_rejects_short_buffer() {
    assert!(Frame::new(2, 2, 6, vec![0u8; 11]).is_none());
}

#[test]
fn frame_accepts_buffer_longer_than_needed() {
    let frame = Frame::new(2, 2, 6, counting(13)).unwrap();
    assert_eq!(frame.pixel_at(1, 1), Rgb { r: 9, g: 10, b: 11 });
    assert_eq!(frame.bytes().len(), 13);
}

#[test]
fn frame_accepts_last_row_without_padding() {
    // Rows start 8 bytes apart; the second and last row ends after its pixels.
    let frame = Frame::new(2, 2, 8, counting(14)).unwrap();
    assert_eq!(frame.pixel_at(1, 1), Rgb { r: 11, g: 12, b: 13 });
    assert!(Frame::new(2, 2, 8, counting(13)).is_none());
}

#[test]
fn frame_rejects_zero_width() {
    assert!(Frame::new(0, 2, 6, vec![0u8; 12]).is_none());
}

#[test]
fn frame_rejects_zero_height() {
    assert!(Frame::new(2, 0, 6, Vec::new()).is_none());
}

#[test]
fn frame_rejects_stride_below_row_of_pixels() {
    assert!(Frame::new(2, 2, 5, vec![0u8; 10]).is_none());
    assert!(Frame::new(2, 2, 6, vec![0u8; 12]).is_some());
}

#[test]
fn frame_rejects_geometry_that_overflows() {
    assert!(Frame::new(1, usize::MAX, 4, vec![0u8; 8]).is_none());
    assert!(Frame::new(usize::MAX, 1, usize::MAX, Vec::new()).is_none());
}

#[test]
fn frame_reads_pixels_through_the_stride() {
    // Two rows of two pixels, each row followed by two bytes of padding.
    let frame = Frame::new(2, 2, 8, counting(16)).unwrap();
    assert_eq!(frame.pixel_at(0, 0), Rgb { r: 0, g: 1, b: 2 });
    assert_eq!(frame.pixel_at(1, 0), Rgb { r: 3, g: 4, b: 5 });
    assert_eq!(frame.pixel_at(0, 1), Rgb { r: 8, g: 9, b: 10 });
    assert_eq!(frame.pixel_at(1, 1), Rgb { r: 11, g: 12, b: 13 });
}

#[test]
fn frame_pixel_is_none_outside_the_picture() {
    let frame = Frame::new(2, 2, 8, counting(16)).unwrap();
    assert_eq!(frame.pixel(1, 1), Some(Rgb { r: 11, g: 12, b: 13 }));
    assert_eq!(frame.pixel(2, 0), None);
    assert_eq!(frame.pixel(0, 2), None);
}

#[test]
fn repack_widens_rows_and_zeroes_the_padding() {
    let frame = Frame::new(2, 2, 6, counting(12)).unwrap();
    let wide = frame.repack(8).unwrap();
    assert_eq!(wide.width(), 2);
    assert_eq!(wide.height(), 2);
    assert_eq!(wide.row_stride(), 8);
    assert_eq!(wide.bytes(), &vec![0, 1, 2, 3, 4, 5, 0, 0, 6, 7, 8, 9, 10, 11, 0, 0]);
    for y in 0..2 {
        for x in 0..2 {
            assert_eq!(wide.pixel(x, y), frame.pixel(x, y));
        }
    }
}

#[test]
fn repack_narrows_rows_down_to_the_pixels() {
    let frame = Frame::new(1, 2, 5, vec![1, 2, 3, 9, 9, 4, 5, 6, 9, 9]).unwrap();
    let tight = frame.repack(3).unwrap();
    assert_eq!(tight.row_stride(), 3);
    assert_eq!(tight.bytes(), &vec![1, 2, 3, 4, 5, 6]);
}

#[test]
fn repack_rejects_stride_below_row_of_pixels() {
    let frame = Frame::new(2, 2, 6, counting(12)).unwrap();
    assert!(frame.repack(5).is_none());
    assert!(frame.repack(6).is_some());
}

#[test]
fn repack_fills_a_short_last_row() {
    let frame = Frame::new(1, 2, 4, vec![1, 2, 3, 9, 4, 5, 6]).unwrap();
    let full = frame.repack(4).unwrap();
    assert_eq!(full.bytes(), &vec![1, 2, 3, 0, 4, 5, 6, 0]);
}
