//! The decisions of one bridge between a client connection and its backend
//! connection.
//!
//! The driver waits on whichever source is ready first (a client message,
//! backend bytes, the queue of frames bound for the client, the shutdown
//! signal), hands what happened to [`Bridge::handle`] as an event, and carries
//! out the action it gets back. Once an action is `Close`, the driver closes
//! both connections.
use vstd::prelude::*;
use crate::frame::{feed_spec, is_frame, stated_len, wanted_of, FeedView, FrameReader, ReadOutcome};
use std::collections::VecDeque;

verus! {

/// Something that happened on one of the bridge's sources.
#[derive(Debug)]
pub enum BridgeEvent {
    /// The client sent a binary message.
    ClientBinary(Vec<u8>),
    /// The client sent a message that is neither binary nor close.
    ClientOther,
    /// The client sent a close message, its stream ended or reading it failed.
    ClientClosed,
    /// One read from the backend delivered these bytes; none means the backend closed.
    BackendData(Vec<u8>),
    /// Reading from or writing to the backend failed.
    BackendFailed,
    /// The client connection can take the next queued frame.
    SendReady,
    /// Sending a message to the client failed.
    ClientSendFailed,
    /// The process-wide shutdown signal fired.
    Shutdown,
}

/// What the driver does next.
#[derive(Debug, PartialEq, Eq)]
pub enum BridgeAction {
    /// Nothing to do; wait for the next event.
    Continue,
    /// Write these bytes to the backend, as they are.
    WriteBackend(Vec<u8>),
    /// Send these bytes to the client as one binary message.
    SendClient(Vec<u8>),
    /// Close both connections; the bridge is done.
    Close,
}

/// A [`BridgeEvent`] as a mathematical value.
pub enum EventView {
    ClientBinary(Seq<u8>),
    ClientOther,
    ClientClosed,
    BackendData(Seq<u8>),
    BackendFailed,
    SendReady,
    ClientSendFailed,
    Shutdown,
}

/// A [`BridgeAction`] as a mathematical value.
pub enum ActionView {
    Continue,
    WriteBackend(Seq<u8>),
    SendClient(Seq<u8>),
    Close,
}

impl View for BridgeEvent {
    type V = EventView;

    open spec fn view(&self) -> EventView {
        match self {
            BridgeEvent::ClientBinary(b) => EventView::ClientBinary(b@),
            BridgeEvent::ClientOther => EventView::ClientOther,
            BridgeEvent::ClientClosed => EventView::ClientClosed,
            BridgeEvent::BackendData(c) => EventView::BackendData(c@),
            BridgeEvent::BackendFailed => EventView::BackendFailed,
            BridgeEvent::SendReady => EventView::SendReady,
            BridgeEvent::ClientSendFailed => EventView::ClientSendFailed,
            BridgeEvent::Shutdown => EventView::Shutdown,
        }
    }
}

impl View for BridgeAction {
    type V = ActionView;

    open spec fn view(&self) -> ActionView {
        match self {
            BridgeAction::Continue => ActionView::Continue,
            BridgeAction::WriteBackend(b) => ActionView::WriteBackend(b@),
            BridgeAction::SendClient(b) => ActionView::SendClient(b@),
            BridgeAction::Close => ActionView::Close,
        }
    }
}

/// The state of a bridge: whether it is done, the bytes held of the backend
/// frame in progress, and the whole frames waiting to go to the client,
/// oldest first.
pub struct BridgeView {
    pub closed: bool,
    pub partial: Seq<u8>,
    pub queue: Seq<Seq<u8>>,
}

/// A bridge that is done: nothing held, nothing queued.
pub open spec fn closed_state() -> BridgeView {
    BridgeView { closed: true, partial: Seq::empty(), queue: Seq::empty() }
}

/// The events that the driver may hand over: a backend read delivers no more
/// bytes than the frame in progress needs.
pub open spec fn admissible(s: BridgeView, e: EventView) -> bool {
    match e {
        EventView::BackendData(c) => s.closed || c.len() <= wanted_of(s.partial),
        _ => true,
    }
}

/// One step of a bridge: the state after the event and the action to take.
pub open spec fn step(s: BridgeView, e: EventView) -> (BridgeView, ActionView) {
    if s.closed {
        (closed_state(), ActionView::Close)
    } else {
        match e {
            EventView::ClientBinary(b) => (s, ActionView::WriteBackend(b)),
            EventView::ClientOther => (s, ActionView::Continue),
            EventView::BackendData(c) => {
                let (p, y) = feed_spec(s.partial, c);
                match y {
                    FeedView::NeedMore => (BridgeView { partial: p, ..s }, ActionView::Continue),
                    FeedView::Frame(f) => if f.len() == 2 {
                        (closed_state(), ActionView::Close)
                    } else {
                        (
                            BridgeView { partial: p, queue: s.queue.push(f), ..s },
                            ActionView::Continue,
                        )
                    },
                    _ => (closed_state(), ActionView::Close),
                }
            },
            EventView::SendReady => if s.queue.len() == 0 {
                (s, ActionView::Continue)
            } else {
                (BridgeView { queue: s.queue.drop_first(), ..s }, ActionView::SendClient(s.queue[0]))
            },
            _ => (closed_state(), ActionView::Close),
        }
    }
}

/// A bridge that is done stays done: every event only repeats `Close`.
pub proof fn lemma_closed_stays_closed(e: EventView)
    ensures
        step(closed_state(), e) == (closed_state(), ActionView::Close),
{
}

/// A backend frame whose header states a length of zero ends the bridge: the
/// read that completes it closes the bridge, drops what was queued, and
/// nothing is forwarded after it, whatever event comes next.
pub proof fn lemma_empty_frame_closes(s: BridgeView, c: Seq<u8>, e: EventView)
    requires
        !s.closed,
        c.len() > 0,
        is_frame(s.partial + c),
        stated_len(s.partial + c) == 0,
    ensures
        step(s, EventView::BackendData(c)) == (closed_state(), ActionView::Close),
        step(step(s, EventView::BackendData(c)).0, e) == (closed_state(), ActionView::Close),
{
}

/// Shutdown reaches every bridge: whatever state each one is in, the shutdown
/// event closes it and drops its queue, and nothing is forwarded after it.
pub proof fn lemma_shutdown_closes_all(bridges: Seq<BridgeView>, e: EventView)
    ensures
        forall|i: int|
            0 <= i < bridges.len() ==> #[trigger] step(bridges[i], EventView::Shutdown) == (
            closed_state(),
            ActionView::Close,
        ),
        step(closed_state(), e) == (closed_state(), ActionView::Close),
{
}

/// The queued frames as byte sequences.
pub open spec fn queue_view(q: Seq<Vec<u8>>) -> Seq<Seq<u8>> {
    q.map_values(|v: Vec<u8>| v@)
}

/// One client connection paired with its backend connection.
pub struct Bridge {
    reader: FrameReader,
    queue: VecDeque<Vec<u8>>,
    closed: bool,
}

impl View for Bridge {
    type V = BridgeView;

    closed spec fn view(&self) -> BridgeView {
        BridgeView { closed: self.closed, partial: self.reader@, queue: queue_view(self.queue@) }
    }
}

impl Bridge {
    pub closed spec fn wf(&self) -> bool {
        &&& self.reader.wf()
        &&& self.closed ==> self@ == closed_state()
    }

    /// A bridge that has just been set up: open, nothing held, nothing queued.
    pub fn new() -> (r: Bridge)
        ensures
            r.wf(),
            r@ == (BridgeView { closed: false, partial: Seq::empty(), queue: Seq::empty() }),
    {
        let r = Bridge { reader: FrameReader::new(), queue: VecDeque::new(), closed: false };
        assert(queue_view(r.queue@) =~= Seq::<Seq<u8>>::empty());
        r
    }

    /// Whether the bridge is done.
    pub fn is_closed(&self) -> (r: bool)
        ensures
            r == self@.closed,
    {
        self.closed
    }

    /// Whether a frame waits to go to the client.
    pub fn has_pending(&self) -> (r: bool)
        ensures
            r == (self@.queue.len() > 0),
    {
        self.queue.len() > 0
    }

    /// How many bytes the next backend read may deliver.
    pub fn wanted(&self) -> (r: usize)
        requires
            self.wf(),
        ensures
            r == wanted_of(self@.partial),
    {
        self.reader.wanted()
    }

    fn close(&mut self)
        requires
            old(self).reader.wf(),
        ensures
            final(self).wf(),
            final(self)@ == closed_state(),
    {
        self.reader = FrameReader::new();
        self.queue = VecDeque::new();
        self.closed = true;
        assert(queue_view(self.queue@) =~= Seq::<Seq<u8>>::empty());
    }

    /// Takes one event and says what to do next.
    pub fn handle(&mut self, ev: BridgeEvent) -> (r: BridgeAction)
        requires
            old(self).wf(),
            admissible(old(self)@, ev@),
        ensures
            final(self).wf(),
            (final(self)@, r@) == step(old(self)@, ev@),
    {
        if self.closed {
            return BridgeAction::Close;
        }
        match ev {
            BridgeEvent::ClientBinary(b) => BridgeAction::WriteBackend(b),
            BridgeEvent::ClientOther => BridgeAction::Continue,
            BridgeEvent::BackendData(c) => {
                match self.reader.feed(c.as_slice()) {
                    ReadOutcome::NeedMore => BridgeAction::Continue,
                    ReadOutcome::Frame(f) => {
                        if f.len() == 2 {
                            self.close();
                            BridgeAction::Close
                        } else {
                            let ghost q0 = self.queue@;
                            self.queue.push_back(f);
                            assert(queue_view(self.queue@) =~= queue_view(q0).push(f@));
                            BridgeAction::Continue
                        }
                    },
                    _ => {
                        self.close();
                        BridgeAction::Close
                    },
                }
            },
            BridgeEvent::SendReady => {
                let ghost q0 = self.queue@;
                match self.queue.pop_front() {
                    None => BridgeAction::Continue,
                    Some(f) => {
                        assert(queue_view(self.queue@) =~= queue_view(q0).drop_first());
                        BridgeAction::SendClient(f)
                    },
                }
            },
            _ => {
                self.close();
                BridgeAction::Close
            },
        }
    }
}

} // verus!
