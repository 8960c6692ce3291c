//! Frame buffers and frames.

use fluxframe::frame::{FrameBuffer, FrameMeta, PixelFormat, Timestamp, VideoFrame};
use std::sync::Arc;
use std::time::Duration;

#[test]
fn shared_buffer_promotes_on_make_owned() {
    let arc: Arc<[u8]> = Arc::from(vec![1, 2, 3].into_boxed_slice());
    let mut buf = FrameBuffer::Shared(arc);
    assert!(buf.as_mut_owned().is_none());
    buf.make_owned();
    assert!(buf.as_mut_owned().is_some());
    assert!(matches!(buf, FrameBuffer::Owned(_)));
    assert_eq!(buf.as_slice(), &[1, 2, 3]);
}

#[test]
fn new_packed_rejects_planar_format() {
    let buf = FrameBuffer::Owned(vec![0; 100]);
    let frame = VideoFrame::new_packed(buf, 10, 10, PixelFormat::Nv12, FrameMeta::default());
    assert!(frame.is_none(), "Nv12 is planar; new_packed must return None");
}

#[test]
fn validate_catches_dimension_mismatch() {
    let buf = FrameBuffer::Owned(vec![0; 5]);
    let frame = VideoFrame::new_packed(buf, 100, 100, PixelFormat::Rgb, FrameMeta::default())
        .expect("constructor ok");
    assert!(frame.validate().is_err(), "data too small for w*h*bpp");
}

#[test]
fn a_packed_frame_of_the_right_size_is_valid() {
    let buf = FrameBuffer::Owned(vec![7; 12]);
    let frame = VideoFrame::new_packed(buf, 2, 2, PixelFormat::Rgb, FrameMeta::default())
        .expect("constructor ok");
    assert_eq!(frame.validate(), Ok(()));
    assert_eq!(frame.data.len(), 12);
    assert!(!frame.data.is_empty());
}

#[test]
fn writing_through_a_shared_buffer_leaves_the_other_owner_alone() {
    let arc: Arc<[u8]> = Arc::from(vec![1, 2, 3].into_boxed_slice());
    let mut buf = FrameBuffer::Shared(Arc::clone(&arc));
    buf.as_mut_slice()[0] = 9;
    assert_eq!(buf.as_slice(), &[9, 2, 3]);
    assert_eq!(&arc[..], &[1, 2, 3]);
}

#[test]
fn timestamps_keep_nanoseconds() {
    let t = Timestamp::from_nanos(1_500_000_007);
    assert_eq!(t.as_nanos(), 1_500_000_007);
    assert_eq!(t.as_duration(), Duration::new(1, 500_000_007));
    assert_eq!(Timestamp::default().as_nanos(), 0);
}

#[test]
fn bytes_per_pixel_of_each_format() {
    assert_eq!(PixelFormat::Rgb.bytes_per_pixel(), Some(3));
    assert_eq!(PixelFormat::Rgba.bytes_per_pixel(), Some(4));
    assert_eq!(PixelFormat::Bgr.bytes_per_pixel(), Some(3));
    assert_eq!(PixelFormat::Yuy2.bytes_per_pixel(), Some(2));
    assert_eq!(PixelFormat::Nv12.bytes_per_pixel(), None);
    assert_eq!(PixelFormat::Gray8.bytes_per_pixel(), Some(1));
}

#[test]
fn timestamps_are_ordered_by_nanoseconds() {
    let (a, b) = (Timestamp::from_nanos(7), Timestamp::from_nanos(8));
    assert!(a < b);
    assert!(b > a);
    assert!(a <= a);
    assert!(!(a < a));
    assert_eq!(a.max(b), b);
    assert_eq!(a.partial_cmp(&b), Some(std::cmp::Ordering::Less));
}

#[test]
fn the_largest_timestamp_is_a_duration_without_loss() {
    for n in [0, 1, 999, 1_000, u64::MAX] {
        assert_eq!(Timestamp::from_nanos(n).as_duration().as_nanos(), u128::from(n));
    }
}
