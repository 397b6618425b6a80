use axis_transpose::frame::Frame;
use axis_transpose::image::Rgb;
use axis_transpose::store::{FrameStore, Volume};

fn solid(width: usize, height: usize, color: Rgb) -> Frame {
    let mut data = Vec::new();
    for _ in 0..width * height {
        data.push(color.r);
        data.push(color.g);
        data.push(color.b);
    }
    Frame::new(width, height, width * 3, data).unwrap()
}

/// A frame whose pixel at (x, y) in frame t is (t, y, x).
fn coded(width: usize, height: usize, stride: usize, t: usize) -> Frame {
    let mut data = vec![0xEEu8; stride * height];
    for y in 0..height {
        for x in 0..width {
            data[y * stride + 3 * x] = t as u8;
            data[y * stride + 3 * x + 1] = y as u8;
            data[y * stride + 3 * x + 2] = x as u8;
        }
    }
    Frame::new(width, height, stride, data).unwrap()
}

fn coded_volume(width: usize, height: usize, stride: usize, frames: usize) -> Volume {
    let mut store = FrameStore::new();
    for t in 0..frames {
        store.append(coded(width, height, stride, t)).unwrap();
    }
    store.finalize().unwrap()
}

fn transpose_all(volume: &Volume) -> Vec<Frame> {
    (0..volume.output_frame_count()).map(|x| volume.transpose_frame(x)).collect()
}

#[test]
fn three_solid_frames_become_four_padded_frames() {
    let colors = [
        Rgb { r: 255, g: 0, b: 0 },
        Rgb { r: 0, g: 255, b: 0 },
        Rgb { r: 0, g: 0, b: 255 },
    ];
    let mut store = FrameStore::new();
    for color in colors {
        store.append(solid(4, 2, color)).unwrap();
    }
    let volume = store.finalize().unwrap();
    assert_eq!(volume.output_frame_count(), 4);
    assert_eq!(volume.output_width(), 4);
    assert_eq!(volume.output_height(), 2);
    assert!(volume.is_padded());

    let outputs = transpose_all(&volume);
    assert_eq!(outputs.len(), 4);
    for out in &outputs {
        assert_eq!(out.width(), 4);
        assert_eq!(out.height(), 2);
    }
    let first = &outputs[0];
    for y in 0..2 {
        assert_eq!(first.pixel(0, y), Some(colors[0]));
        assert_eq!(first.pixel(1, y), Some(colors[1]));
        assert_eq!(first.pixel(2, y), Some(colors[2]));
        assert_eq!(first.pixel(3, y), Some(colors[2]));
    }
    assert_eq!(
        first.bytes(),
        &vec![
            255, 0, 0, 0, 255, 0, 0, 0, 255, 0, 0, 255, //
            255, 0, 0, 0, 255, 0, 0, 0, 255, 0, 0, 255,
        ]
    );
}

#[test]
fn even_frame_count_needs_no_padding() {
    let volume = coded_volume(3, 2, 9, 4);
    assert!(!volume.is_padded());
    assert_eq!(volume.output_width(), 4);
    assert_eq!(volume.output_height(), 2);
    assert_eq!(volume.output_frame_count(), 3);
    for out in transpose_all(&volume) {
        assert_eq!(out.width(), 4);
        assert_eq!(out.height(), 2);
        assert_eq!(out.row_stride(), 12);
        assert_eq!(out.bytes().len(), 24);
    }
}

#[test]
fn odd_frame_count_adds_one_column() {
    let volume = coded_volume(3, 2, 9, 5);
    assert!(volume.is_padded());
    assert_eq!(volume.output_width(), 6);
    assert_eq!(volume.output_frame_count(), 3);
    for out in transpose_all(&volume) {
        assert_eq!(out.width(), 6);
        assert_eq!(out.height(), 2);
        assert_eq!(out.row_stride(), 18);
    }
}

#[test]
fn single_frame_is_padded_to_two_columns() {
    let volume = coded_volume(2, 2, 6, 1);
    assert_eq!(volume.output_width(), 2);
    let out = volume.transpose_frame(1);
    assert_eq!(out.bytes(), &vec![0, 0, 1, 0, 0, 1, 0, 1, 1, 0, 1, 1]);
}

#[test]
fn every_pixel_moves_from_column_to_time() {
    let volume = coded_volume(5, 3, 15, 4);
    for x in 0..5usize {
        let out = volume.transpose_frame(x);
        for y in 0..3usize {
            for t in 0..4usize {
                assert_eq!(out.pixel(t, y), volume.frame(t).pixel(x, y));
                assert_eq!(out.pixel(t, y), Some(Rgb { r: t as u8, g: y as u8, b: x as u8 }));
            }
        }
    }
}

#[test]
fn pixels_are_read_through_the_input_stride() {
    let volume = coded_volume(3, 2, 16, 2);
    let out = volume.transpose_frame(2);
    assert_eq!(out.bytes(), &vec![0, 0, 2, 1, 0, 2, 0, 1, 2, 1, 1, 2]);
}

#[test]
fn padding_column_repeats_the_last_column() {
    let volume = coded_volume(4, 3, 12, 5);
    for x in 0..4usize {
        let out = volume.transpose_frame(x);
        for y in 0..3usize {
            assert_eq!(out.pixel(5, y), out.pixel(4, y));
            assert_eq!(out.pixel(5, y), Some(Rgb { r: 4, g: y as u8, b: x as u8 }));
        }
    }
}

#[test]
fn padded_transpose_is_not_undone_by_transposing_again() {
    let volume = coded_volume(4, 2, 12, 3);
    let mut second = FrameStore::new();
    for out in transpose_all(&volume) {
        second.append(out).unwrap();
    }
    let second = second.finalize().unwrap();
    // Four frames of 4 x 2 pixels come back where three went in.
    assert_eq!(second.frame_count(), 4);
    assert_eq!(second.width(), 4);
    assert_eq!(second.output_frame_count(), 4);
    assert_ne!(second.output_frame_count(), volume.frame_count());
    let back = transpose_all(&second);
    assert_eq!(back.len(), 4);
    for t in 0..3usize {
        assert_eq!(back[t].bytes(), volume.frame(t).bytes());
    }
    assert_eq!(back[3].bytes(), volume.frame(2).bytes());
}

#[test]
fn unpadded_transpose_is_undone_by_transposing_again() {
    let volume = coded_volume(4, 2, 12, 2);
    let mut second = FrameStore::new();
    for out in transpose_all(&volume) {
        second.append(out).unwrap();
    }
    let second = second.finalize().unwrap();
    let back = transpose_all(&second);
    assert_eq!(back.len(), 2);
    for t in 0..2usize {
        assert_eq!(back[t].bytes(), volume.frame(t).bytes());
    }
}
