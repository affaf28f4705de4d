use vstd::prelude::*;
use crate::coordlog::{log_line, CoordinateLog};
use crate::error::AnalysisError;
use crate::marker::{
    centroid, find_marker_in_rgba, remembered, reported, rgba_pixels_of, same_point,
    MarkerTracker,
};

verus! {

/// The state of one tracking run: the remembered marker position and the
/// frame numbering of the log.
#[derive(Clone, Copy, Debug, PartialEq, Eq, Structural)]
pub struct FrameAnalysis {
    pub tracker: MarkerTracker,
    pub log: CoordinateLog,
}

impl FrameAnalysis {
    /// A run before its first frame.
    pub fn new() -> (r: FrameAnalysis)
        ensures
            r.tracker.last is None,
            r.log.next_index == 0,
    {
        FrameAnalysis { tracker: MarkerTracker::new(), log: CoordinateLog::new() }
    }

    /// Handles one frame converted to packed RGBA, `width` by `height` pixels:
    /// finds the marker, updates the remembered position and returns the log
    /// line of the frame. Fails when the buffer is too short for the frame, or
    /// when no marker has been seen yet; a failed frame writes no line.
    pub fn process_frame(&mut self, width: u32, height: u32, rgba: Vec<u8>) -> (r: Result<
        Vec<u8>,
        AnalysisError,
    >)
        requires
            width > 0,
            old(self).log.next_index < usize::MAX,
        ensures
            rgba@.len() < 4 * (width as int) * (height as int) ==> r == Err::<
                Vec<u8>,
                AnalysisError,
            >(AnalysisError::FrameTooSmall) && *final(self) == *old(self),
            rgba@.len() >= 4 * (width as int) * (height as int) ==> exists|d: Option<
                crate::marker::Centroid,
            >|
                same_point(
                    d,
                    centroid(rgba_pixels_of(rgba@, (width * height) as nat), width as nat),
                ) && final(self).tracker.last == remembered(old(self).tracker.last, d),
            rgba@.len() >= 4 * (width as int) * (height as int) ==> match reported(
                final(self).tracker.last,
            ) {
                Ok(c) => r matches Ok(line) && line@ == log_line(
                    old(self).log.next_index as nat,
                    c,
                ) && final(self).log.next_index == old(self).log.next_index + 1,
                Err(e) => r == Err::<Vec<u8>, AnalysisError>(e) && final(self).log == old(
                    self,
                ).log,
            },
    {
        let detection = match find_marker_in_rgba(width, height, rgba) {
            Ok(d) => d,
            Err(e) => {
                return Err(e);
            },
        };
        match self.tracker.update(detection) {
            Ok(c) => Ok(self.log.record(c)),
            Err(e) => Err(e),
        }
    }
}

} // verus!
