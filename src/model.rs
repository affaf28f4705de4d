use vstd::prelude::*;
use crate::pipeline::{pull_action, transition, Action, Event, Phase, RawFrameIter};

verus! {

/// A pipeline run against a model demuxer and decoder: the demuxer hands out
/// the stream indices of a packet sequence in order; the decoder holds up to
/// `delay` pictures before it releases the oldest, and releases all of them
/// after the flush signal.
pub struct Drive {
    pub it: RawFrameIter,
    /// Pictures fed to the decoder and not yet returned.
    pub held: nat,
    /// Whether the decoder has received the flush signal.
    pub dec_flushed: bool,
    /// Packets read so far.
    pub pos: nat,
    /// Frames handed out so far.
    pub frames: nat,
}

/// How many packets from position `pos` on belong to stream `sel`.
pub open spec fn selected_from(packets: Seq<usize>, sel: usize, pos: nat) -> nat
    decreases packets.len() - pos,
{
    if pos >= packets.len() {
        0
    } else {
        (if packets[pos as int] == sel { 1nat } else { 0nat }) + selected_from(packets, sel, pos + 1)
    }
}

/// How the model demuxer and decoder answer action `a`.
pub open spec fn respond(d: Drive, packets: Seq<usize>, delay: nat, a: Action) -> (Drive, Event) {
    match a {
        Action::DrainOne => if d.held > delay || (d.dec_flushed && d.held > 0) {
            (Drive { held: (d.held - 1) as nat, ..d }, Event::FrameReady)
        } else if d.dec_flushed {
            (d, Event::Eof)
        } else {
            (d, Event::NeedsInput)
        },
        Action::ReadPacket => if d.pos < packets.len() {
            (Drive { pos: d.pos + 1, ..d }, Event::Packet { stream_index: packets[d.pos as int] })
        } else {
            (d, Event::EndOfPackets)
        },
        Action::FeedPacket => (Drive { held: d.held + 1, ..d }, Event::FeedDone),
        Action::FeedFlush => (Drive { dec_flushed: true, ..d }, Event::FeedDone),
        _ => (d, Event::Eof),
    }
}

/// The run from `d` with action `a` due, for at most `fuel` steps: the final
/// state and the last action.
pub open spec fn drive(d: Drive, packets: Seq<usize>, delay: nat, a: Action, fuel: nat) -> (
    Drive,
    Action,
)
    decreases fuel,
{
    if fuel == 0 || a == Action::Finish || a == Action::Fail {
        (d, a)
    } else if a == Action::EmitFrame {
        drive(Drive { frames: d.frames + 1, ..d }, packets, delay, pull_action(d.it), (fuel - 1) as nat)
    } else {
        let (d2, ev) = respond(d, packets, delay, a);
        let (it2, a2) = transition(d2.it, ev);
        drive(Drive { it: it2, ..d2 }, packets, delay, a2, (fuel - 1) as nat)
    }
}

/// The steps a run from `d` with `a` due still needs.
pub open spec fn steps_left(d: Drive, packets: Seq<usize>, a: Action) -> nat {
    let base = 6 * (packets.len() - d.pos) + 3 * d.held + if d.it.flushed { 0int } else { 3int };
    (base + match a {
        Action::DrainOne => 3int,
        Action::ReadPacket => 2int,
        Action::FeedPacket => 7int,
        Action::EmitFrame => 4int,
        Action::FeedFlush => 4int,
        _ => 0int,
    }) as nat
}

/// The states a run passes through, with action `a` due.
pub open spec fn consistent(d: Drive, packets: Seq<usize>, sel: usize, a: Action) -> bool {
    &&& d.it.selected == sel
    &&& d.pos <= packets.len()
    &&& d.it.flushed ==> d.pos == packets.len()
    &&& if a == Action::FeedFlush {
        d.it.flushed && !d.dec_flushed
    } else {
        d.it.flushed == d.dec_flushed
    }
    &&& match a {
        Action::DrainOne => d.it.phase == Phase::Draining,
        Action::EmitFrame => d.it.phase == Phase::Draining,
        Action::ReadPacket => d.it.phase == Phase::Reading && !d.it.flushed,
        Action::FeedPacket => d.it.phase == Phase::Feeding && !d.it.flushed && d.pos > 0
            && packets[d.pos - 1] == sel,
        Action::FeedFlush => d.it.phase == Phase::Feeding,
        _ => false,
    }
    &&& d.frames + d.held + selected_from(packets, sel, d.pos) + (if a == Action::FeedPacket
        || a == Action::EmitFrame { 1nat } else { 0nat }) == selected_from(packets, sel, 0)
}

proof fn lemma_drive_finishes(d: Drive, packets: Seq<usize>, sel: usize, delay: nat, a: Action, fuel: nat)
    requires
        consistent(d, packets, sel, a),
        fuel >= steps_left(d, packets, a),
    ensures
        drive(d, packets, delay, a, fuel).1 == Action::Finish,
        drive(d, packets, delay, a, fuel).0.frames == selected_from(packets, sel, 0),
    decreases fuel,
{
    assert(fuel > 0);
    if a == Action::EmitFrame {
        let d2 = Drive { frames: d.frames + 1, ..d };
        assert(consistent(d2, packets, sel, pull_action(d.it)));
        assert(fuel - 1 >= steps_left(d2, packets, pull_action(d.it)));
        lemma_drive_finishes(d2, packets, sel, delay, pull_action(d.it), (fuel - 1) as nat);
    } else {
        let (d2, ev) = respond(d, packets, delay, a);
        let (it2, a2) = transition(d2.it, ev);
        let d3 = Drive { it: it2, ..d2 };
        assert(drive(d, packets, delay, a, fuel) == drive(d3, packets, delay, a2, (fuel - 1) as nat));
        if a2 != Action::Finish {
            assert(consistent(d3, packets, sel, a2));
            assert(fuel - 1 >= steps_left(d3, packets, a2));
            lemma_drive_finishes(d3, packets, sel, delay, a2, (fuel - 1) as nat);
        } else {
            assert(selected_from(packets, sel, d.pos) == 0);
        }
    }
}

/// Draining at the end of the stream: against a decoder that holds up to
/// `delay` pictures, a run over any packet sequence finishes, and hands out
/// exactly one frame per packet of the selected stream, the pictures still held
/// at the last packet included.
pub proof fn lemma_all_pictures_emitted(packets: Seq<usize>, sel: usize, delay: nat)
    ensures
        ({
            let start = Drive {
                it: RawFrameIter::new_spec(sel),
                held: 0,
                dec_flushed: false,
                pos: 0,
                frames: 0,
            };
            let (end, last) = drive(start, packets, delay, Action::DrainOne, 6 * packets.len() + 6);
            last == Action::Finish && end.frames == selected_from(packets, sel, 0)
        }),
{
    let start = Drive {
        it: RawFrameIter::new_spec(sel),
        held: 0,
        dec_flushed: false,
        pos: 0,
        frames: 0,
    };
    lemma_drive_finishes(start, packets, sel, delay, Action::DrainOne, 6 * packets.len() + 6);
}

} // verus!
