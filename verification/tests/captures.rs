//! Frames and captures.

use wayland_agent::capture::{
    bytes_per_pixel, convert_to_rgba, offered_formats, single_frame, single_image, stream_frame,
    stream_image, Capture, Frame, ParamChange, PixelFormat, Slot, VideoInfo,
};

fn format_of(format: PixelFormat, width: u32, height: u32) -> ParamChange {
    ParamChange {
        is_format: true,
        video: true,
        raw: true,
        info: Some(VideoInfo { format, width, height }),
    }
}

#[test]
fn pixels_have_sizes() {
    for f in [PixelFormat::Bgrx, PixelFormat::Rgbx, PixelFormat::Bgra, PixelFormat::Rgba] {
        assert_eq!(bytes_per_pixel(f), 4);
    }
    assert_eq!(bytes_per_pixel(PixelFormat::Bgr), 3);
    assert_eq!(bytes_per_pixel(PixelFormat::Rgb), 3);
    assert_eq!(bytes_per_pixel(PixelFormat::Other), 0);
    let offered = offered_formats();
    assert_eq!(offered[0], PixelFormat::Bgrx);
    assert_eq!(offered.len(), 6);
}

#[test]
fn frames_are_converted() {
    let src = [1, 2, 3, 4, 5, 6, 7, 8, 99, 99, 11, 12, 13, 14, 15, 16, 17, 18];
    assert_eq!(
        convert_to_rgba(&src, 2, 2, 10, PixelFormat::Bgra),
        vec![3, 2, 1, 255, 7, 6, 5, 255, 13, 12, 11, 255, 17, 16, 15, 255]
    );
    assert_eq!(
        convert_to_rgba(&src, 2, 2, 10, PixelFormat::Rgbx),
        vec![1, 2, 3, 255, 5, 6, 7, 255, 11, 12, 13, 255, 15, 16, 17, 255]
    );
    assert_eq!(
        convert_to_rgba(&src, 2, 1, 6, PixelFormat::Bgr),
        vec![3, 2, 1, 255, 6, 5, 4, 255]
    );
    assert_eq!(
        convert_to_rgba(&src, 1, 2, 3, PixelFormat::Rgb),
        vec![1, 2, 3, 255, 4, 5, 6, 255]
    );
    assert!(convert_to_rgba(&src, 0, 2, 3, PixelFormat::Rgb).is_empty());
    assert!(convert_to_rgba(&src, 3, 0, 3, PixelFormat::Rgb).is_empty());
}

#[test]
fn slots_take_frames() {
    let data = [1u8, 2, 3, 4];
    let mut slot = Slot::new();
    assert!(!slot.offer(4, 4, Some(&data)));
    slot.on_param(ParamChange { raw: false, ..format_of(PixelFormat::Rgba, 1, 1) });
    assert!(slot.format.is_none());
    slot.on_param(ParamChange { is_format: false, ..format_of(PixelFormat::Rgba, 1, 1) });
    assert!(slot.format.is_none());
    slot.on_param(format_of(PixelFormat::Other, 1, 1));
    assert!(!slot.offer(4, 4, Some(&data)));
    slot.on_param(format_of(PixelFormat::Bgra, 1, 1));
    assert!(!slot.offer(0, 4, Some(&data)));
    assert!(!slot.offer(4, 4, None));
    assert!(slot.fits(4, 4, Some(&data)));
    assert!(!slot.fits(4, 4, Some(&data[..3])));
    assert!(slot.offer(4, 4, Some(&data)));
    let frame = single_frame(slot).unwrap();
    assert_eq!((frame.width, frame.height, frame.rgba), (1, 1, vec![3, 2, 1, 255]));
}

#[test]
fn a_capture_is_over_with_its_last_frame() {
    let data = [9u8, 8, 7];
    let mut capture = Capture::new(2);
    capture.on_param(0, format_of(PixelFormat::Rgb, 1, 1));
    capture.on_param(1, format_of(PixelFormat::Rgb, 1, 1));
    assert!(!capture.is_complete());
    assert!(capture.wants(0) && capture.wants(1));
    assert!(!capture.offer(1, 3, 3, Some(&data)));
    assert!(!capture.wants(1));
    assert!(!capture.offer(1, 3, 3, Some(&[0, 0, 0])));
    assert!(capture.offer(0, 3, 3, Some(&data)));
    assert!(capture.is_complete());
    let slot = capture.slots.pop().unwrap();
    assert_eq!(stream_frame(slot, 1).unwrap().rgba, vec![9, 8, 7, 255]);
}

#[test]
fn missing_frames_are_errors() {
    assert_eq!(single_frame(Slot::new()).unwrap_err(), "no frame captured");
    assert_eq!(
        stream_frame(Slot::new(), 3).unwrap_err(),
        "stream 3: no frame captured before quit"
    );
}

#[test]
fn frames_make_images() {
    let frame = |n: usize| Frame { width: 2, height: 1, rgba: vec![7; n] };
    assert_eq!(single_image(frame(8)).unwrap().rgba, vec![7; 8]);
    assert_eq!(
        single_image(frame(7)).unwrap_err(),
        "frame buffer length doesn't match 2x1"
    );
    assert_eq!(stream_image(frame(9), 0).unwrap().rgba, vec![7; 9]);
    assert_eq!(stream_image(frame(0), 4).unwrap_err(), "stream 4: bad frame buffer size");
}
