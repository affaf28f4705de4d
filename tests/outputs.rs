use dotscan::{
    graymap_dump, push_decimal, select_video_stream, AnalysisError, Centroid, CoordinateLog,
    FrameAnalysis, MediaType, StreamDescriptor, StreamInfo,
};

fn stream(media_type: MediaType, width: i32, height: i32) -> StreamDescriptor {
    StreamDescriptor { media_type, width, height, codec_id: 27, pixel_format: 0 }
}

#[test]
fn first_video_stream_is_selected() {
    let streams = vec![
        stream(MediaType::Audio, 0, 0),
        stream(MediaType::Video, 640, 480),
        stream(MediaType::Video, 320, 240),
    ];
    assert_eq!(
        select_video_stream(&streams),
        Ok((1, StreamInfo { index: 1, width: 640, height: 480, codec_id: 27, pixel_format: 0 }))
    );
}

#[test]
fn no_video_stream_is_an_error() {
    let streams = vec![stream(MediaType::Audio, 0, 0), stream(MediaType::Other, 0, 0)];
    assert_eq!(select_video_stream(&streams), Err(AnalysisError::NoVideoStream));
    assert_eq!(select_video_stream(&vec![]), Err(AnalysisError::NoVideoStream));
}

#[test]
fn graymap_body_follows_header() {
    let out = graymap_dump(2, 2, 2, &vec![10, 20, 30, 40]).unwrap();
    let header = b"P5\n2 2\n255\n";
    assert_eq!(&out[..header.len()], header);
    assert_eq!(&out[header.len()..], &[10, 20, 30, 40]);
}

#[test]
fn graymap_skips_row_padding() {
    let plane = vec![1, 2, 3, 99, 4, 5, 6, 99, 7, 8, 9];
    let out = graymap_dump(3, 3, 4, &plane).unwrap();
    let mut expected = b"P5\n3 3\n255\n".to_vec();
    expected.extend_from_slice(&[1, 2, 3, 4, 5, 6, 7, 8, 9]);
    assert_eq!(out, expected);
}

#[test]
fn graymap_rejects_short_plane_and_narrow_stride() {
    assert_eq!(graymap_dump(3, 3, 4, &vec![0; 10]), Err(AnalysisError::BadPlaneLayout));
    assert_eq!(graymap_dump(3, 1, 2, &vec![0; 10]), Err(AnalysisError::BadPlaneLayout));
    assert_eq!(graymap_dump(4, 0, 4, &vec![]), Ok(b"P5\n4 0\n255\n".to_vec()));
}

#[test]
fn decimal_digits() {
    let mut buf = b"x".to_vec();
    push_decimal(&mut buf, 0);
    push_decimal(&mut buf, 1905);
    assert_eq!(buf, b"x01905".to_vec());
    let mut big = Vec::new();
    push_decimal(&mut big, 18446744073709551615);
    assert_eq!(big, b"18446744073709551615".to_vec());
}

#[test]
fn log_writes_one_line_per_frame() {
    let mut log = CoordinateLog::new();
    let a = log.record(Centroid { x: 3, y: 4 });
    let b = log.record(Centroid { x: 10, y: 0 });
    let c = log.record(Centroid { x: 7, y: 123 });
    let text = String::from_utf8([a, b, c].concat()).unwrap();
    assert_eq!(text, "0, 3, 4\n1, 10, 0\n2, 7, 123\n");
    assert_eq!(text.lines().count(), 3);
    assert_eq!(log.next_index, 3);
}

#[test]
fn log_numbering_continues_across_calls() {
    let mut log = CoordinateLog::new();
    let first = log.record_all(&vec![Centroid { x: 1, y: 1 }, Centroid { x: 2, y: 2 }]);
    let second = log.record_all(&vec![Centroid { x: 3, y: 3 }]);
    assert_eq!(first, vec![b"0, 1, 1\n".to_vec(), b"1, 2, 2\n".to_vec()]);
    assert_eq!(second, vec![b"2, 3, 3\n".to_vec()]);
}

fn rgba_frame(width: usize, height: usize, mark: Option<(usize, usize)>) -> Vec<u8> {
    let mut data = vec![0u8; 4 * width * height];
    if let Some((x, y)) = mark {
        let k = 4 * (y * width + x);
        data[k] = 240;
        data[k + 2] = 240;
    }
    data
}

#[test]
fn frames_are_logged_with_last_known_position() {
    let mut run = FrameAnalysis::new();
    assert_eq!(
        run.process_frame(3, 3, rgba_frame(3, 3, None)),
        Err(AnalysisError::NoMarkerFound)
    );
    assert_eq!(run.log.next_index, 0);
    assert_eq!(run.process_frame(3, 3, rgba_frame(3, 3, Some((2, 1)))), Ok(b"0, 2, 1\n".to_vec()));
    assert_eq!(run.process_frame(3, 3, rgba_frame(3, 3, None)), Ok(b"1, 2, 1\n".to_vec()));
    assert_eq!(run.process_frame(3, 3, vec![0; 5]), Err(AnalysisError::FrameTooSmall));
    assert_eq!(run.process_frame(3, 3, rgba_frame(3, 3, Some((0, 2)))), Ok(b"2, 0, 2\n".to_vec()));
}
