use dotscan::{find_marker, find_marker_in_rgba, AnalysisError, Centroid, MarkerTracker};

const PURPLE: [u8; 4] = [230, 0, 230, 255];
const GREY: [u8; 4] = [100, 100, 100, 255];

fn image_with(width: usize, height: usize, marks: &[(usize, usize)]) -> Vec<[u8; 4]> {
    let mut px = vec![GREY; width * height];
    for &(x, y) in marks {
        px[y * width + x] = PURPLE;
    }
    px
}

#[test]
fn no_marker_pixels_gives_none() {
    assert_eq!(find_marker(&image_with(6, 6, &[]), 6), None);
}

#[test]
fn one_marker_pixel_is_the_centroid() {
    assert_eq!(find_marker(&image_with(6, 6, &[(3, 4)]), 6), Some(Centroid { x: 3, y: 4 }));
}

#[test]
fn two_marker_pixels_give_their_mean() {
    assert_eq!(find_marker(&image_with(3, 3, &[(0, 0), (2, 2)]), 3), Some(Centroid { x: 1, y: 1 }));
}

#[test]
fn mean_is_truncated() {
    assert_eq!(
        find_marker(&image_with(4, 4, &[(0, 0), (1, 0), (3, 3)]), 4),
        Some(Centroid { x: 1, y: 1 })
    );
}

#[test]
fn threshold_edges_do_not_match() {
    let px = vec![[215, 0, 230, 0], [230, 10, 230, 0], [230, 0, 215, 0], [216, 9, 216, 0]];
    assert_eq!(find_marker(&px, 2), Some(Centroid { x: 1, y: 1 }));
}

#[test]
fn empty_image_gives_none() {
    assert_eq!(find_marker(&vec![], 5), None);
}

#[test]
fn rgba_buffer_is_read_four_bytes_per_pixel() {
    let mut data = vec![0u8; 4 * 3 * 2];
    let k = 4 * (1 * 3 + 2);
    data[k] = 250;
    data[k + 2] = 250;
    assert_eq!(find_marker_in_rgba(3, 2, data), Ok(Some(Centroid { x: 2, y: 1 })));
}

#[test]
fn rgba_buffer_longer_than_frame_ignores_the_rest() {
    let mut data = vec![0u8; 4 * 2 * 2 + 4];
    data[16] = 250;
    data[18] = 250;
    assert_eq!(find_marker_in_rgba(2, 2, data), Ok(None));
}

#[test]
fn rgba_buffer_too_short_is_an_error() {
    assert_eq!(find_marker_in_rgba(3, 2, vec![0u8; 23]), Err(AnalysisError::FrameTooSmall));
}

#[test]
fn tracker_keeps_last_position() {
    let mut t = MarkerTracker::new();
    let dets = [
        Some(Centroid { x: 5, y: 5 }),
        None,
        None,
        Some(Centroid { x: 9, y: 1 }),
    ];
    let out: Vec<_> = dets.iter().map(|d| t.update(*d)).collect();
    assert_eq!(
        out,
        vec![
            Ok(Centroid { x: 5, y: 5 }),
            Ok(Centroid { x: 5, y: 5 }),
            Ok(Centroid { x: 5, y: 5 }),
            Ok(Centroid { x: 9, y: 1 })
        ]
    );
}

#[test]
fn tracker_without_any_detection_fails() {
    let mut t = MarkerTracker::new();
    assert_eq!(t.update(None), Err(AnalysisError::NoMarkerFound));
    assert_eq!(t.track(&image_with(2, 2, &[]), 2), Err(AnalysisError::NoMarkerFound));
    assert_eq!(t.track(&image_with(2, 2, &[(1, 0)]), 2), Ok(Centroid { x: 1, y: 0 }));
    assert_eq!(t.track(&image_with(2, 2, &[]), 2), Ok(Centroid { x: 1, y: 0 }));
}
