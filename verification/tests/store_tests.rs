use axis_transpose::error::PipelineError;
use axis_transpose::frame::Frame;
use axis_transpose::image::Rgb;
use axis_transpose::store::FrameStore;

fn blank(width: usize, height: usize) -> Frame {
    Frame::new(width, height, width * 3, vec![0u8; width * height * 3]).unwrap()
}

#[test]
fn new_store_is_empty() {
    let store = FrameStore::new();
    assert_eq!(store.len(), 0);
    assert!(store.is_empty());
}

#[test]
fn append_counts_frames() {
    let mut store = FrameStore::new();
    assert_eq!(store.append(blank(4, 2)), Ok(()));
    assert_eq!(store.append(blank(4, 2)), Ok(()));
    assert_eq!(store.len(), 2);
    assert!(!store.is_empty());
}

#[test]
fn append_ignores_stride_when_comparing_sizes() {
    let mut store = FrameStore::new();
    assert_eq!(store.append(blank(4, 2)), Ok(()));
    let padded = Frame::new(4, 2, 16, vec![0u8; 32]).unwrap();
    assert_eq!(store.append(padded), Ok(()));
    assert_eq!(store.len(), 2);
}

#[test]
fn append_rejects_other_width_and_keeps_the_store() {
    let mut store = FrameStore::new();
    assert_eq!(store.append(blank(100, 4)), Ok(()));
    assert_eq!(store.append(blank(120, 4)), Err(PipelineError::DimensionMismatch));
    assert_eq!(store.len(), 1);
    assert_eq!(store.append(blank(100, 4)), Ok(()));
    assert_eq!(store.len(), 2);
}

#[test]
fn append_rejects_other_height() {
    let mut store = FrameStore::new();
    assert_eq!(store.append(blank(4, 2)), Ok(()));
    assert_eq!(store.append(blank(4, 3)), Err(PipelineError::DimensionMismatch));
    assert_eq!(store.len(), 1);
}

#[test]
fn finalize_of_empty_store_fails() {
    let store = FrameStore::new();
    assert!(matches!(store.finalize(), Err(PipelineError::EmptyStore)));
}

#[test]
fn finalize_keeps_frames_in_order() {
    let mut store = FrameStore::new();
    for shade in 0..3u8 {
        let frame = Frame::new(1, 1, 3, vec![shade, shade, shade]).unwrap();
        assert_eq!(store.append(frame), Ok(()));
    }
    let volume = store.finalize().unwrap();
    assert_eq!(volume.frame_count(), 3);
    assert_eq!(volume.width(), 1);
    assert_eq!(volume.height(), 1);
    for t in 0..3usize {
        let shade = t as u8;
        assert_eq!(volume.frame(t).pixel(0, 0), Some(Rgb { r: shade, g: shade, b: shade }));
    }
}
