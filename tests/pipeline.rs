use dotscan::{Action, Event, Phase, RawFrameIter};

/// A decoder that holds `delay` pictures before it releases the oldest one.
struct DelayDecoder {
    delay: usize,
    held: Vec<u32>,
    flushed: bool,
}

impl DelayDecoder {
    fn drain(&mut self) -> (Event, Option<u32>) {
        if self.held.len() > self.delay || (self.flushed && !self.held.is_empty()) {
            (Event::FrameReady, Some(self.held.remove(0)))
        } else if self.flushed {
            (Event::Eof, None)
        } else {
            (Event::NeedsInput, None)
        }
    }
}

/// Drives a pipeline over `(stream, picture)` packets; returns the emitted
/// pictures and the final action.
fn run(selected: usize, packets: &[(usize, u32)], delay: usize) -> (Vec<u32>, Action) {
    let mut it = RawFrameIter::new(selected);
    let mut dec = DelayDecoder { delay, held: Vec::new(), flushed: false };
    let mut pos = 0;
    let mut current = None;
    let mut out = Vec::new();
    let mut frame = None;
    let mut act = it.pull();
    for _ in 0..10_000 {
        act = match act {
            Action::DrainOne => {
                let (ev, f) = dec.drain();
                frame = f;
                it.on_event(ev)
            }
            Action::ReadPacket => {
                if pos < packets.len() {
                    current = Some(packets[pos]);
                    pos += 1;
                    it.on_event(Event::Packet { stream_index: packets[pos - 1].0 })
                } else {
                    it.on_event(Event::EndOfPackets)
                }
            }
            Action::FeedPacket => {
                dec.held.push(current.unwrap().1);
                it.on_event(Event::FeedDone)
            }
            Action::FeedFlush => {
                dec.flushed = true;
                it.on_event(Event::FeedDone)
            }
            Action::EmitFrame => {
                out.push(frame.take().unwrap());
                it.pull()
            }
            Action::Finish | Action::Fail => return (out, act),
        };
    }
    panic!("pipeline did not terminate");
}

#[test]
fn buffered_frames_are_drained_after_flush() {
    let packets: Vec<(usize, u32)> = (0..5).map(|p| (0, p)).collect();
    let (frames, last) = run(0, &packets, 2);
    assert_eq!(frames, vec![0, 1, 2, 3, 4]);
    assert_eq!(last, Action::Finish);
}

#[test]
fn other_streams_are_not_fed() {
    let packets = vec![(1, 100), (0, 1), (2, 200), (1, 101), (0, 2), (0, 3), (1, 102)];
    let (frames, last) = run(0, &packets, 1);
    assert_eq!(frames, vec![1, 2, 3]);
    assert_eq!(last, Action::Finish);
}

#[test]
fn repeated_runs_emit_the_same_frames() {
    let packets = vec![(0, 7), (1, 9), (0, 8), (0, 6), (1, 5)];
    let first = run(0, &packets, 2);
    let second = run(0, &packets, 2);
    assert_eq!(first, second);
    assert_eq!(first.0, vec![7, 8, 6]);
}

#[test]
fn no_selected_packets_finishes_without_frames() {
    let packets = vec![(1, 1), (1, 2)];
    assert_eq!(run(0, &packets, 0), (vec![], Action::Finish));
}

#[test]
fn feed_failure_fails_the_sequence() {
    let mut it = RawFrameIter::new(0);
    assert_eq!(it.on_event(Event::NeedsInput), Action::ReadPacket);
    assert_eq!(it.on_event(Event::Packet { stream_index: 0 }), Action::FeedPacket);
    assert_eq!(it.on_event(Event::FeedFailed), Action::Fail);
    assert_eq!(it.phase, Phase::Failed);
    assert_eq!(it.pull(), Action::Fail);
}

#[test]
fn second_exhaustion_drains_without_another_flush() {
    let mut it = RawFrameIter::new(3);
    assert_eq!(it.on_event(Event::NeedsInput), Action::ReadPacket);
    assert_eq!(it.on_event(Event::Packet { stream_index: 2 }), Action::ReadPacket);
    assert_eq!(it.on_event(Event::EndOfPackets), Action::FeedFlush);
    assert!(it.flushed);
    assert_eq!(it.on_event(Event::FeedDone), Action::DrainOne);
    assert_eq!(it.on_event(Event::NeedsInput), Action::ReadPacket);
    assert_eq!(it.on_event(Event::EndOfPackets), Action::DrainOne);
    assert_eq!(it.on_event(Event::FrameReady), Action::EmitFrame);
    assert_eq!(it.pull(), Action::DrainOne);
    assert_eq!(it.on_event(Event::Eof), Action::Finish);
    assert_eq!(it.pull(), Action::Finish);
}

#[test]
fn end_signal_before_flush_is_a_failure() {
    let mut it = RawFrameIter::new(0);
    assert_eq!(it.on_event(Event::Eof), Action::Fail);
}

#[test]
fn on_events_answers_each_event() {
    let mut it = RawFrameIter::new(0);
    let evs = vec![
        Event::NeedsInput,
        Event::Packet { stream_index: 1 },
        Event::Packet { stream_index: 0 },
        Event::FeedDone,
        Event::FrameReady,
    ];
    let acts = it.on_events(&evs);
    assert_eq!(
        acts,
        vec![
            Action::ReadPacket,
            Action::ReadPacket,
            Action::FeedPacket,
            Action::DrainOne,
            Action::EmitFrame
        ]
    );
    assert_eq!(it.phase, Phase::Draining);
}
