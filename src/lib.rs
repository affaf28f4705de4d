//! Marker tracking over decoded video frames: stream selection, the decode
//! pull protocol, marker centroids and the text and image outputs.

mod analysis;
mod coordlog;
mod error;
mod graymap;
mod marker;
mod model;
mod pipeline;
mod stream;
mod text;

pub use analysis::FrameAnalysis;
pub use coordlog::{
    lemma_decimal_no_newline, lemma_log_lines, lines_view, log_line, log_lines, CoordinateLog,
};
pub use error::AnalysisError;
pub use graymap::{graymap_dump, graymap_header, plane_fits, plane_rows};
pub use marker::{
    centroid, channels, find_marker, find_marker_in_rgba, is_marker, lemma_position_kept,
    marker_count, marker_sum_x, marker_sum_y, remembered, reported, rgba_pixels_of, same_point,
    Centroid, MarkerTracker,
};
pub use model::{
    consistent, drive, lemma_all_pictures_emitted, respond, selected_from, steps_left, Drive,
};
pub use pipeline::{
    actions, emitted, lemma_action_at, lemma_actions_len, lemma_feeds_only_selected,
    lemma_finish_after_flush, lemma_flush_recorded, lemma_flushed_monotone,
    lemma_no_feed_after_flush, lemma_ready_frame_emitted, lemma_runs_agree, lemma_state_after_wf,
    pull_action, state_after, transition, Action, Event, Phase, RawFrameIter,
};
pub use stream::{
    first_video, has_video, info_of, select_video_stream, MediaType, StreamDescriptor, StreamInfo,
};
pub use text::{decimal, push_decimal};
