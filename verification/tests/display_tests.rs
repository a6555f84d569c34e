use base64::Engine;
use grouped_alt_tab::placement::{
    cover_monitor, custom_window_bounds, is_custom_mode, monitor_area, MonitorArea, WindowBounds,
};
use grouped_alt_tab::thumbnail::{
    bgra_to_rgba, capture_size, png_data_url, png_data_url_from_base64, CaptureSize,
    ThumbnailError,
};

#[test]
fn cover_bounds() {
    let m = cover_monitor(-1920, 0, 0, 1080);
    assert_eq!(m, MonitorArea { x: -1920, y: 0, width: 1920, height: 1080 });
}

#[test]
fn custom_mode_detection() {
    assert!(is_custom_mode("custom"));
    assert!(!is_custom_mode("fullscreen"));
    assert!(!is_custom_mode("Custom"));
    assert!(!is_custom_mode(""));
}

#[test]
fn custom_window_is_centred_and_clamped() {
    let m = monitor_area(0, 0, 1920, 1080);
    assert_eq!(
        custom_window_bounds(1280, 720, m),
        WindowBounds { x: 320, y: 180, width: 1280, height: 720 }
    );
    assert_eq!(
        custom_window_bounds(100, 100, m),
        WindowBounds { x: 600, y: 310, width: 720, height: 460 }
    );
    assert_eq!(
        custom_window_bounds(10_000, 9_000, m),
        WindowBounds { x: 0, y: 0, width: 7680, height: 4320 }
    );
    let second = monitor_area(1920, -200, 3840, 880);
    assert_eq!(
        custom_window_bounds(1000, 600, second),
        WindowBounds { x: 2380, y: 40, width: 1000, height: 600 }
    );
}

#[test]
fn capture_sizes() {
    assert_eq!(
        capture_size(10, 20, 110, 70),
        Some(CaptureSize { width: 100, height: 50, buffer_len: 20_000 })
    );
    assert_eq!(capture_size(0, 0, 0, 10), None);
    assert_eq!(capture_size(0, 0, 10_001, 10), None);
    assert_eq!(capture_size(5, 5, 4, 10), None);
    assert_eq!(
        capture_size(0, 0, 10_000, 10_000),
        Some(CaptureSize { width: 10_000, height: 10_000, buffer_len: 400_000_000 })
    );
}

#[test]
fn bgra_becomes_opaque_rgba() {
    let bgra = vec![1u8, 2, 3, 4, 10, 20, 30, 40, 99];
    assert_eq!(bgra_to_rgba(&bgra), vec![3u8, 2, 1, 255, 30, 20, 10, 255]);
    assert!(bgra_to_rgba(&Vec::new()).is_empty());
}

#[test]
fn data_url_prefix() {
    assert_eq!(png_data_url_from_base64("AAAA"), "data:image/png;base64,AAAA");
}

#[test]
fn thumbnail_is_png_data_url() {
    let bgra = vec![0u8, 0, 255, 0, 255, 0, 0, 0];
    let url = png_data_url(&bgra, 2, 1).unwrap();
    // Base64 of the PNG signature \x89PNG\r\n\x1a\n
    assert!(url.starts_with("data:image/png;base64,iVBORw0KGgo"));
    assert!(url.len() > "data:image/png;base64,iVBORw0KGgo".len() + 20);
}

#[test]
fn empty_image_cannot_be_encoded() {
    assert_eq!(png_data_url(&Vec::new(), 0, 0), Err(ThumbnailError::EncodeFailed));
    assert_eq!(ThumbnailError::EncodeFailed.message(), "failed to encode window thumbnail");
}

#[test]
fn thumbnail_payload_is_padded_base64_of_png() {
    let bgra = vec![10u8, 20, 30, 0, 40, 50, 60, 0, 70, 80, 90, 0];
    let url = png_data_url(&bgra, 3, 1).unwrap();
    let payload = &url["data:image/png;base64,".len()..];
    assert_eq!(payload.len() % 4, 0);
    let png = base64::engine::general_purpose::STANDARD.decode(payload).unwrap();
    assert_eq!(&png[..8], &[137u8, 80, 78, 71, 13, 10, 26, 10]);
    assert_eq!(payload.len(), (png.len() + 2) / 3 * 4);
}
