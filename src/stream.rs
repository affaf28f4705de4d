use vstd::prelude::*;
use crate::error::AnalysisError;

verus! {

/// The kind of media a stream carries.
#[derive(Clone, Copy, Debug, PartialEq, Eq, Structural)]
pub enum MediaType {
    Video,
    Audio,
    Other,
}

/// A stream as the container describes it.
#[derive(Clone, Copy, Debug, PartialEq, Eq, Structural)]
pub struct StreamDescriptor {
    pub media_type: MediaType,
    pub width: i32,
    pub height: i32,
    pub codec_id: u32,
    pub pixel_format: i32,
}

/// The fixed parameters of the selected video stream.
#[derive(Clone, Copy, Debug, PartialEq, Eq, Structural)]
pub struct StreamInfo {
    pub index: usize,
    pub width: i32,
    pub height: i32,
    pub codec_id: u32,
    pub pixel_format: i32,
}

/// The parameters of the stream at position `i`.
pub open spec fn info_of(d: StreamDescriptor, i: usize) -> StreamInfo {
    StreamInfo {
        index: i,
        width: d.width,
        height: d.height,
        codec_id: d.codec_id,
        pixel_format: d.pixel_format,
    }
}

/// Whether some stream among `streams` is a video stream.
pub open spec fn has_video(streams: Seq<StreamDescriptor>) -> bool {
    exists|i: int| 0 <= i < streams.len() && streams[i].media_type == MediaType::Video
}

/// Whether `i` is the position of the first video stream in container order.
pub open spec fn first_video(streams: Seq<StreamDescriptor>, i: int) -> bool {
    &&& 0 <= i < streams.len()
    &&& streams[i].media_type == MediaType::Video
    &&& forall|j: int| 0 <= j < i ==> streams[j].media_type != MediaType::Video
}

/// Picks the first video stream in container order and returns its position
/// and parameters; fails when there is no video stream.
pub fn select_video_stream(streams: &Vec<StreamDescriptor>) -> (r: Result<(usize, StreamInfo), AnalysisError>)
    ensures
        r is Ok <==> has_video(streams@),
        r matches Ok((i, info)) ==> first_video(streams@, i as int) && info == info_of(
            streams@[i as int],
            i,
        ),
        r is Err ==> r == Err::<(usize, StreamInfo), AnalysisError>(AnalysisError::NoVideoStream),
{
    let mut i: usize = 0;
    while i < streams.len()
        invariant
            i <= streams.len(),
            forall|j: int| 0 <= j < i ==> streams@[j].media_type != MediaType::Video,
        decreases streams.len() - i,
    {
        let d = streams[i];
        if d.media_type == MediaType::Video {
            let info = StreamInfo {
                index: i,
                width: d.width,
                height: d.height,
                codec_id: d.codec_id,
                pixel_format: d.pixel_format,
            };
            return Ok((i, info));
        }
        i = i + 1;
    }
    Err(AnalysisError::NoVideoStream)
}

} // verus!
