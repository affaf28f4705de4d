use vstd::prelude::*;

verus! {

/// The ways an analysis run can stop.
#[derive(Clone, Copy, Debug, PartialEq, Eq, Structural)]
pub enum AnalysisError {
    /// The container holds no video stream.
    NoVideoStream,
    /// The converted frame buffer holds fewer bytes than its dimensions need.
    FrameTooSmall,
    /// A plane's stride or length does not cover the rows it should hold.
    BadPlaneLayout,
    /// No marker pixel has been seen in this frame or any earlier one.
    NoMarkerFound,
}

} // verus!
