use vstd::prelude::*;

verus! {

/// What the driver of a [`RawFrameIter`] must do next.
#[derive(Clone, Copy, Debug, PartialEq, Eq, Structural)]
pub enum Action {
    /// Ask the decoder for one frame and report the outcome.
    DrainOne,
    /// Pull the next packet from the demuxer and report it.
    ReadPacket,
    /// Feed the packet just read to the decoder and report the outcome.
    FeedPacket,
    /// Send the decoder the flush signal and report the outcome.
    FeedFlush,
    /// Hand out the frame the decoder just returned; this pull is done.
    EmitFrame,
    /// The frame sequence is exhausted.
    Finish,
    /// Decoding failed; the frame sequence ends with an error.
    Fail,
}

/// What the driver observed while performing the last action.
#[derive(Clone, Copy, Debug, PartialEq, Eq, Structural)]
pub enum Event {
    /// The decoder returned a frame.
    FrameReady,
    /// The decoder needs more input before it can return a frame.
    NeedsInput,
    /// The decoder has no more frames.
    Eof,
    /// The demuxer returned a packet of the given stream.
    Packet { stream_index: usize },
    /// The demuxer has no more packets.
    EndOfPackets,
    /// The decoder accepted what was fed.
    FeedDone,
    /// The decoder rejected what was fed.
    FeedFailed,
}

/// Where the pull protocol stands.
#[derive(Clone, Copy, Debug, PartialEq, Eq, Structural)]
pub enum Phase {
    /// A drain request to the decoder is due.
    Draining,
    /// A packet is needed from the demuxer.
    Reading,
    /// A feed to the decoder is under way.
    Feeding,
    /// The decoder reported its end after the flush.
    Drained,
    /// Feeding failed, or the decoder broke the protocol.
    Failed,
}

/// The decode pull protocol: turns the demuxer's packets and the decoder's
/// answers into a stream-filtered, drain-aware sequence of frames.
///
/// The driver performs each returned [`Action`] on the real demuxer and
/// decoder and reports the outcome as an [`Event`].
#[derive(Clone, Copy, Debug, PartialEq, Eq, Structural)]
pub struct RawFrameIter {
    /// Index of the selected video stream.
    pub selected: usize,
    /// Whether the flush signal has been sent to the decoder.
    pub flushed: bool,
    pub phase: Phase,
}

/// The state after `ev` and the action it calls for.
pub open spec fn transition(s: RawFrameIter, ev: Event) -> (RawFrameIter, Action) {
    match s.phase {
        Phase::Draining => match ev {
            Event::FrameReady => (s, Action::EmitFrame),
            Event::NeedsInput => (RawFrameIter { phase: Phase::Reading, ..s }, Action::ReadPacket),
            Event::Eof => if s.flushed {
                (RawFrameIter { phase: Phase::Drained, ..s }, Action::Finish)
            } else {
                (RawFrameIter { phase: Phase::Failed, ..s }, Action::Fail)
            },
            _ => (RawFrameIter { phase: Phase::Failed, ..s }, Action::Fail),
        },
        Phase::Reading => match ev {
            Event::Packet { stream_index } => if stream_index == s.selected && !s.flushed {
                (RawFrameIter { phase: Phase::Feeding, ..s }, Action::FeedPacket)
            } else {
                (s, Action::ReadPacket)
            },
            Event::EndOfPackets => if s.flushed {
                (RawFrameIter { phase: Phase::Draining, ..s }, Action::DrainOne)
            } else {
                (RawFrameIter { phase: Phase::Feeding, flushed: true, ..s }, Action::FeedFlush)
            },
            _ => (RawFrameIter { phase: Phase::Failed, ..s }, Action::Fail),
        },
        Phase::Feeding => match ev {
            Event::FeedDone => (RawFrameIter { phase: Phase::Draining, ..s }, Action::DrainOne),
            _ => (RawFrameIter { phase: Phase::Failed, ..s }, Action::Fail),
        },
        Phase::Drained => (s, Action::Finish),
        Phase::Failed => (s, Action::Fail),
    }
}

/// The action that opens the next pull from state `s`.
pub open spec fn pull_action(s: RawFrameIter) -> Action {
    match s.phase {
        Phase::Draining => Action::DrainOne,
        Phase::Reading => Action::ReadPacket,
        Phase::Drained => Action::Finish,
        _ => Action::Fail,
    }
}

/// The state reached from `s` after the events `evs`.
pub open spec fn state_after(s: RawFrameIter, evs: Seq<Event>) -> RawFrameIter
    decreases evs.len(),
{
    if evs.len() == 0 {
        s
    } else {
        transition(state_after(s, evs.drop_last()), evs.last()).0
    }
}

/// The actions returned, one per event, when the events `evs` are reported from `s`.
pub open spec fn actions(s: RawFrameIter, evs: Seq<Event>) -> Seq<Action>
    decreases evs.len(),
{
    if evs.len() == 0 {
        Seq::empty()
    } else {
        actions(s, evs.drop_last()).push(transition(state_after(s, evs.drop_last()), evs.last()).1)
    }
}


/// The count of frames handed out in `acts`.
pub open spec fn emitted(acts: Seq<Action>) -> nat
    decreases acts.len(),
{
    if acts.len() == 0 {
        0
    } else {
        emitted(acts.drop_last()) + if acts.last() == Action::EmitFrame { 1nat } else { 0nat }
    }
}

/// The `k`-th action answers the `k`-th event from the state the earlier events led to.
pub proof fn lemma_action_at(s0: RawFrameIter, evs: Seq<Event>, k: int)
    requires
        0 <= k < evs.len(),
    ensures
        actions(s0, evs).len() == evs.len(),
        actions(s0, evs)[k] == transition(state_after(s0, evs.take(k)), evs[k]).1,
        state_after(s0, evs.take(k + 1)) == transition(state_after(s0, evs.take(k)), evs[k]).0,
    decreases evs.len(),
{
    lemma_actions_len(s0, evs);
    assert(evs.take(k + 1).drop_last() =~= evs.take(k));
    if k == evs.len() - 1 {
        assert(evs.drop_last() =~= evs.take(k));
    } else {
        lemma_action_at(s0, evs.drop_last(), k);
        assert(evs.drop_last().take(k) =~= evs.take(k));
        assert(evs.drop_last().take(k + 1) =~= evs.take(k + 1));
    }
}

pub proof fn lemma_actions_len(s0: RawFrameIter, evs: Seq<Event>)
    ensures
        actions(s0, evs).len() == evs.len(),
    decreases evs.len(),
{
    if evs.len() > 0 {
        lemma_actions_len(s0, evs.drop_last());
    }
}

/// Every state reached keeps the selected stream, and a finished pipeline has flushed.
pub proof fn lemma_state_after_wf(s0: RawFrameIter, evs: Seq<Event>)
    requires
        s0.phase == Phase::Drained ==> s0.flushed,
    ensures
        state_after(s0, evs).selected == s0.selected,
        state_after(s0, evs).phase == Phase::Drained ==> state_after(s0, evs).flushed,
        s0.flushed ==> state_after(s0, evs).flushed,
    decreases evs.len(),
{
    if evs.len() > 0 {
        lemma_state_after_wf(s0, evs.drop_last());
    }
}

/// Once the flush signal has gone out it stays recorded, and a pipeline that has
/// flushed issued the flush as one of its actions.
pub proof fn lemma_flush_recorded(s0: RawFrameIter, evs: Seq<Event>)
    requires
        !s0.flushed,
    ensures
        state_after(s0, evs).flushed ==> exists|j: int|
            0 <= j < evs.len() && actions(s0, evs)[j] == Action::FeedFlush,
    decreases evs.len(),
{
    if evs.len() > 0 {
        let pre = evs.drop_last();
        lemma_flush_recorded(s0, pre);
        lemma_actions_len(s0, pre);
        if state_after(s0, pre).flushed {
            let j = choose|j: int| 0 <= j < pre.len() && actions(s0, pre)[j] == Action::FeedFlush;
            assert(actions(s0, evs)[j] == Action::FeedFlush);
        } else if state_after(s0, evs).flushed {
            assert(actions(s0, evs)[pre.len() as int] == Action::FeedFlush);
        }
    }
}

/// The flushed flag only goes from false to true along a run.
pub proof fn lemma_flushed_monotone(s0: RawFrameIter, evs: Seq<Event>, j: int, k: int)
    requires
        0 <= j <= k <= evs.len(),
        state_after(s0, evs.take(j)).flushed,
    ensures
        state_after(s0, evs.take(k)).flushed,
    decreases k - j,
{
    if j < k {
        lemma_flushed_monotone(s0, evs, j, k - 1);
        lemma_action_at(s0, evs, k - 1);
    }
}

/// Stream filtering: the decoder is fed a packet only in answer to a packet of the
/// selected stream, and never once the flush signal has gone out, so no frame can
/// come from a packet of another stream.
pub proof fn lemma_feeds_only_selected(sel: usize, evs: Seq<Event>, k: int)
    requires
        0 <= k < evs.len(),
        actions(RawFrameIter::new_spec(sel), evs)[k] == Action::FeedPacket,
    ensures
        evs[k] == (Event::Packet { stream_index: sel }),
        !state_after(RawFrameIter::new_spec(sel), evs.take(k)).flushed,
{
    let s0 = RawFrameIter::new_spec(sel);
    lemma_action_at(s0, evs, k);
    lemma_state_after_wf(s0, evs.take(k));
}

/// No packet is fed after the flush signal: every packet feed comes before every flush.
pub proof fn lemma_no_feed_after_flush(sel: usize, evs: Seq<Event>, j: int, k: int)
    requires
        0 <= j < evs.len(),
        0 <= k < evs.len(),
        actions(RawFrameIter::new_spec(sel), evs)[j] == Action::FeedFlush,
        actions(RawFrameIter::new_spec(sel), evs)[k] == Action::FeedPacket,
    ensures
        k < j,
{
    let s0 = RawFrameIter::new_spec(sel);
    lemma_action_at(s0, evs, j);
    lemma_feeds_only_selected(sel, evs, k);
    if j < k {
        lemma_flushed_monotone(s0, evs, j + 1, k);
    }
}

/// Draining at the end: the sequence finishes only in answer to the decoder's end
/// signal or after it, and only once the flush signal has gone out; until then every
/// frame the decoder returns, buffered ones included, is handed out.
pub proof fn lemma_finish_after_flush(sel: usize, evs: Seq<Event>, k: int)
    requires
        0 <= k < evs.len(),
        actions(RawFrameIter::new_spec(sel), evs)[k] == Action::Finish,
    ensures
        exists|j: int| 0 <= j < k && actions(RawFrameIter::new_spec(sel), evs)[j] == Action::FeedFlush,
        evs[k] == Event::Eof || state_after(RawFrameIter::new_spec(sel), evs.take(k)).phase == Phase::Drained,
{
    let s0 = RawFrameIter::new_spec(sel);
    lemma_action_at(s0, evs, k);
    lemma_state_after_wf(s0, evs.take(k));
    lemma_flush_recorded(s0, evs.take(k));
    let j = choose|j: int| 0 <= j < k && actions(s0, evs.take(k))[j] == Action::FeedFlush;
    lemma_action_at(s0, evs.take(k), j);
    lemma_action_at(s0, evs, j);
    assert(evs.take(k).take(j) =~= evs.take(j));
}

/// A frame the decoder returns while a drain is due is always handed out, before
/// and after the flush alike.
pub proof fn lemma_ready_frame_emitted(s: RawFrameIter)
    requires
        s.phase == Phase::Draining,
    ensures
        transition(s, Event::FrameReady) == (s, Action::EmitFrame),
{
}

/// Determinism: two pipelines for the same stream that see the same events return
/// the same actions, hence hand out the same number of frames in the same order.
pub proof fn lemma_runs_agree(sel: usize, evs: Seq<Event>, p: RawFrameIter, q: RawFrameIter)
    requires
        p == RawFrameIter::new_spec(sel),
        q == RawFrameIter::new_spec(sel),
    ensures
        actions(p, evs) == actions(q, evs),
        emitted(actions(p, evs)) == emitted(actions(q, evs)),
        state_after(p, evs) == state_after(q, evs),
{
}

impl RawFrameIter {
    /// A pipeline for the stream at `selected`, before any packet is read.
    pub open spec fn new_spec(selected: usize) -> RawFrameIter {
        RawFrameIter { selected, flushed: false, phase: Phase::Draining }
    }

    /// A pipeline for the stream at `selected`, before any packet is read.
    pub fn new(selected: usize) -> (r: RawFrameIter)
        ensures
            r == RawFrameIter::new_spec(selected),
    {
        RawFrameIter { selected, flushed: false, phase: Phase::Draining }
    }

    /// The action that opens the next pull.
    pub fn pull(&self) -> (r: Action)
        ensures
            r == pull_action(*self),
    {
        match self.phase {
            Phase::Draining => Action::DrainOne,
            Phase::Reading => Action::ReadPacket,
            Phase::Drained => Action::Finish,
            _ => Action::Fail,
        }
    }

    /// Takes the outcome of the last action and returns the next one.
    pub fn on_event(&mut self, ev: Event) -> (r: Action)
        ensures
            (*final(self), r) == transition(*old(self), ev),
    {
        match self.phase {
            Phase::Draining => match ev {
                Event::FrameReady => Action::EmitFrame,
                Event::NeedsInput => {
                    self.phase = Phase::Reading;
                    Action::ReadPacket
                },
                Event::Eof => {
                    if self.flushed {
                        self.phase = Phase::Drained;
                        Action::Finish
                    } else {
                        self.phase = Phase::Failed;
                        Action::Fail
                    }
                },
                _ => {
                    self.phase = Phase::Failed;
                    Action::Fail
                },
            },
            Phase::Reading => match ev {
                Event::Packet { stream_index } => {
                    if stream_index == self.selected && !self.flushed {
                        self.phase = Phase::Feeding;
                        Action::FeedPacket
                    } else {
                        Action::ReadPacket
                    }
                },
                Event::EndOfPackets => {
                    if self.flushed {
                        self.phase = Phase::Draining;
                        Action::DrainOne
                    } else {
                        self.phase = Phase::Feeding;
                        self.flushed = true;
                        Action::FeedFlush
                    }
                },
                _ => {
                    self.phase = Phase::Failed;
                    Action::Fail
                },
            },
            Phase::Feeding => match ev {
                Event::FeedDone => {
                    self.phase = Phase::Draining;
                    Action::DrainOne
                },
                _ => {
                    self.phase = Phase::Failed;
                    Action::Fail
                },
            },
            Phase::Drained => Action::Finish,
            Phase::Failed => Action::Fail,
        }
    }

    /// Reports the events `evs` in order and returns the action that answers each.
    pub fn on_events(&mut self, evs: &Vec<Event>) -> (r: Vec<Action>)
        ensures
            r@ == actions(*old(self), evs@),
            *final(self) == state_after(*old(self), evs@),
    {
        let ghost s0 = *self;
        let mut out: Vec<Action> = Vec::new();
        let mut i: usize = 0;
        while i < evs.len()
            invariant
                i <= evs.len(),
                out@ == actions(s0, evs@.take(i as int)),
                *self == state_after(s0, evs@.take(i as int)),
            decreases evs.len() - i,
        {
            let a = self.on_event(evs[i]);
            out.push(a);
            assert(evs@.take(i as int + 1).drop_last() =~= evs@.take(i as int));
            i = i + 1;
        }
        assert(evs@.take(i as int) =~= evs@);
        out
    }
}

} // verus!
