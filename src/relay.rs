use vstd::prelude::*;

verus! {

/// What a read from one side of a session produced.
pub enum ReadEvent {
    /// Bytes arrived.
    Data(Vec<u8>),
    /// The source signalled end-of-stream.
    End,
    /// The read failed.
    Fault,
}

/// What to do after a read.
pub enum PumpAction {
    /// Write these bytes to the destination, then read again.
    Write(Vec<u8>),
    /// Close the destination's write side (half-close); this direction is done.
    ShutdownWrite,
    /// This direction is done; leave the destination as it is.
    Stop,
}

/// The plain-value form of a [`ReadEvent`].
pub enum ReadEventView {
    Data(Seq<u8>),
    End,
    Fault,
}

/// The plain-value form of a [`PumpAction`].
pub enum PumpActionView {
    Write(Seq<u8>),
    ShutdownWrite,
    Stop,
}

impl ReadEvent {
    pub open spec fn view(&self) -> ReadEventView {
        match self {
            ReadEvent::Data(b) => ReadEventView::Data(b@),
            ReadEvent::End => ReadEventView::End,
            ReadEvent::Fault => ReadEventView::Fault,
        }
    }
}

impl PumpAction {
    pub open spec fn view(&self) -> PumpActionView {
        match self {
            PumpAction::Write(b) => PumpActionView::Write(b@),
            PumpAction::ShutdownWrite => PumpActionView::ShutdownWrite,
            PumpAction::Stop => PumpActionView::Stop,
        }
    }
}

/// One step of a copy direction: from whether it still runs and a read
/// event, to whether it runs afterwards and the action to take.
pub open spec fn pump_step(running: bool, ev: ReadEventView) -> (bool, PumpActionView) {
    if !running {
        (false, PumpActionView::Stop)
    } else {
        match ev {
            ReadEventView::Data(b) => (true, PumpActionView::Write(b)),
            ReadEventView::End => (false, PumpActionView::ShutdownWrite),
            ReadEventView::Fault => (false, PumpActionView::Stop),
        }
    }
}

/// The actions a copy direction takes on a series of read events.
pub open spec fn pump_run(running: bool, evs: Seq<ReadEventView>) -> Seq<PumpActionView>
    decreases evs.len(),
{
    if evs.len() == 0 {
        Seq::empty()
    } else {
        let (next, act) = pump_step(running, evs[0]);
        seq![act] + pump_run(next, evs.drop_first())
    }
}

/// The bytes a source delivered before it ended or failed.
pub open spec fn delivered(evs: Seq<ReadEventView>) -> Seq<u8>
    decreases evs.len(),
{
    if evs.len() == 0 {
        Seq::empty()
    } else {
        match evs[0] {
            ReadEventView::Data(b) => b + delivered(evs.drop_first()),
            _ => Seq::empty(),
        }
    }
}

/// The bytes written by a series of actions, in order.
pub open spec fn written(acts: Seq<PumpActionView>) -> Seq<u8>
    decreases acts.len(),
{
    if acts.len() == 0 {
        Seq::empty()
    } else {
        match acts[0] {
            PumpActionView::Write(b) => b + written(acts.drop_first()),
            _ => written(acts.drop_first()),
        }
    }
}

/// One direction of a relay: copies what its source delivers to its
/// destination until the source ends or fails.
pub struct Pump {
    running: bool,
}

impl Pump {
    /// Whether this direction still copies.
    pub closed spec fn running(&self) -> bool {
        self.running
    }

    /// A direction that has not finished.
    pub fn new() -> (r: Pump)
        ensures
            r.running(),
    {
        Pump { running: true }
    }

    /// Whether this direction still copies.
    pub fn is_running(&self) -> (r: bool)
        ensures
            r == self.running(),
    {
        self.running
    }

    /// Handles one read from the source.
    pub fn on_read(&mut self, ev: ReadEvent) -> (r: PumpAction)
        ensures
            (final(self).running(), r@) == pump_step(old(self).running(), ev@),
    {
        if !self.running {
            return PumpAction::Stop;
        }
        match ev {
            ReadEvent::Data(b) => PumpAction::Write(b),
            ReadEvent::End => {
                self.running = false;
                PumpAction::ShutdownWrite
            },
            ReadEvent::Fault => {
                self.running = false;
                PumpAction::Stop
            },
        }
    }
}

proof fn lemma_stopped_writes_nothing(evs: Seq<ReadEventView>)
    ensures
        written(pump_run(false, evs)) == Seq::<u8>::empty(),
    decreases evs.len(),
{
    if evs.len() > 0 {
        lemma_stopped_writes_nothing(evs.drop_first());
        let acts = pump_run(false, evs);
        assert(acts.drop_first() =~= pump_run(false, evs.drop_first()));
    }
}

/// A direction writes to its destination exactly the bytes its source
/// delivered, in order and unchanged.
pub proof fn lemma_relay_preserves_bytes(evs: Seq<ReadEventView>)
    ensures
        written(pump_run(true, evs)) == delivered(evs),
    decreases evs.len(),
{
    if evs.len() > 0 {
        let acts = pump_run(true, evs);
        let (next, act) = pump_step(true, evs[0]);
        assert(acts.drop_first() =~= pump_run(next, evs.drop_first()));
        if next {
            lemma_relay_preserves_bytes(evs.drop_first());
        } else {
            lemma_stopped_writes_nothing(evs.drop_first());
        }
    }
}

/// When the source ends after delivering data, the direction half-closes its
/// destination at that point and does nothing afterwards.
pub proof fn lemma_end_half_closes(evs: Seq<ReadEventView>, k: int)
    requires
        0 <= k < evs.len(),
        evs[k] is End,
        forall|j: int| 0 <= j < k ==> #[trigger] evs[j] is Data,
    ensures
        pump_run(true, evs).len() == evs.len(),
        pump_run(true, evs)[k] is ShutdownWrite,
        forall|j: int| k < j < evs.len() ==> #[trigger] pump_run(true, evs)[j] is Stop,
    decreases k,
{
    let rest = evs.drop_first();
    if k == 0 {
        lemma_stopped_run(rest);
        assert(pump_run(true, evs) =~= seq![PumpActionView::ShutdownWrite] + pump_run(false, rest));
    } else {
        assert forall|j: int| 0 <= j < k - 1 implies #[trigger] rest[j] is Data by {
            assert(rest[j] == evs[j + 1]);
        }
        assert(evs[0] is Data);
        lemma_end_half_closes(rest, k - 1);
        let acts = pump_run(true, evs);
        assert(acts.drop_first() =~= pump_run(true, rest));
        assert forall|j: int| k < j < evs.len() implies #[trigger] acts[j] is Stop by {
            assert(acts[j] == pump_run(true, rest)[j - 1]);
        }
    }
}

proof fn lemma_stopped_run(evs: Seq<ReadEventView>)
    ensures
        pump_run(false, evs).len() == evs.len(),
        forall|j: int| 0 <= j < evs.len() ==> #[trigger] pump_run(false, evs)[j] is Stop,
    decreases evs.len(),
{
    if evs.len() > 0 {
        let rest = evs.drop_first();
        lemma_stopped_run(rest);
        let acts = pump_run(false, evs);
        assert forall|j: int| 0 <= j < evs.len() implies #[trigger] acts[j] is Stop by {
            if j > 0 {
                assert(acts[j] == pump_run(false, rest)[j - 1]);
            }
        }
    }
}

} // verus!
