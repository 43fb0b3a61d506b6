//! The relay's state machine. The loop that drives it pulls notifications,
//! performs the anchor call it asks for, and hands the outcome back; every
//! decision is taken here.
use vstd::prelude::*;
use crate::chain::{BlockRange, ChainSegment, HeightAck, Notification};
use crate::decode::{decode, segment_events, EventFilter};

verus! {

/// The gas ceiling of an anchor call.
pub const ANCHOR_GAS_LIMIT: u64 = 5_000_000;

/// A call of the anchor contract's state-root method.
#[derive(Clone, Copy, Debug, PartialEq, Eq)]
pub struct AnchorRequest {
    pub commitment: [u8; 32],
    pub gas_limit: u64,
}

/// Why an anchor call did not go through.
#[derive(Clone, Copy, Debug, PartialEq, Eq)]
pub enum AnchorFailure {
    TransportUnreachable,
    Signing,
    CallReverted,
    GasCeilingExceeded,
    Timeout,
    Other,
}

/// What became of an anchor call.
#[derive(Clone, Copy, Debug, PartialEq, Eq)]
pub enum AnchorOutcome {
    Submitted { tx_id: [u8; 32] },
    Failed { failure: AnchorFailure },
}

/// The kind of a notification that changes no acknowledged height.
#[derive(Clone, Copy, Debug, PartialEq, Eq)]
pub enum Unsettled {
    Reorged,
    Reverted,
}

/// What the relay asks of its driver after a notification.
#[derive(Clone, Copy, Debug, PartialEq, Eq)]
pub enum Step {
    /// Submit this call, then hand its outcome to `on_anchor_outcome`.
    Anchor { request: AnchorRequest, range: BlockRange, event_count: usize },
    /// Send this acknowledgment to the host.
    Acknowledge { ack: HeightAck },
    /// Nothing to send; the notification is only reported.
    Ignore { kind: Unsettled, range: BlockRange },
}

/// The record of a finished anchor call, and the acknowledgment to send.
#[derive(Clone, Copy, Debug, PartialEq, Eq)]
pub struct AnchorReport {
    pub range: BlockRange,
    pub commitment: [u8; 32],
    pub event_count: usize,
    pub outcome: AnchorOutcome,
    pub ack: HeightAck,
}

/// Where the relay stands between two calls.
#[derive(Clone, Copy, Debug, PartialEq, Eq)]
pub enum Phase {
    Idle,
    Anchoring { request: AnchorRequest, range: BlockRange, event_count: usize, ack: HeightAck },
    ShuttingDown,
}

/// The acknowledgments owed for a sequence of notifications: the tip of each
/// committed segment, in arrival order.
pub open spec fn acks_for(ns: Seq<Notification>) -> Seq<HeightAck>
    decreases ns.len(),
{
    if ns.len() == 0 {
        seq![]
    } else {
        let earlier = acks_for(ns.drop_last());
        match ns.last() {
            Notification::Committed { new } => earlier.push(new.tip_ack()),
            _ => earlier,
        }
    }
}

/// The tip height of a committed notification; none for the others.
pub open spec fn committed_height(n: Notification) -> Option<u64> {
    match n {
        Notification::Committed { new } => Some(new.tip.number),
        _ => None,
    }
}

/// Whether the committed notifications of `ns` arrive in increasing height.
pub open spec fn committed_heights_increase(ns: Seq<Notification>) -> bool {
    forall|i: int, j: int|
        0 <= i < j < ns.len() && (#[trigger] committed_height(ns[i])) is Some && (#[trigger]
        committed_height(ns[j])) is Some ==> committed_height(ns[i])->0 < committed_height(
            ns[j],
        )->0
}

/// Each owed acknowledgment is the tip of some committed notification.
proof fn lemma_ack_source(ns: Seq<Notification>, k: int)
    requires
        0 <= k < acks_for(ns).len(),
    ensures
        exists|i: int|
            0 <= i < ns.len() && #[trigger] committed_height(ns[i]) == Some(acks_for(ns)[k].number),
    decreases ns.len(),
{
    let pre = ns.drop_last();
    if k < acks_for(pre).len() {
        lemma_ack_source(pre, k);
        let i = choose|i: int|
            0 <= i < pre.len() && #[trigger] committed_height(pre[i]) == Some(acks_for(pre)[k].number);
        assert(ns[i] == pre[i]);
    } else {
        assert(committed_height(ns[ns.len() - 1]) == Some(acks_for(ns)[k].number));
    }
}

/// When the committed notifications arrive in increasing height, the owed
/// acknowledgments are strictly increasing in block number.
pub proof fn lemma_acks_increase(ns: Seq<Notification>)
    requires
        committed_heights_increase(ns),
    ensures
        forall|a: int, b: int|
            0 <= a < b < acks_for(ns).len() ==> (#[trigger] acks_for(ns)[a]).number < (
            #[trigger] acks_for(ns)[b]).number,
    decreases ns.len(),
{
    if ns.len() > 0 {
        let pre = ns.drop_last();
        assert forall|i: int, j: int|
            0 <= i < j < pre.len() && (#[trigger] committed_height(pre[i])) is Some && (#[trigger]
            committed_height(pre[j])) is Some implies committed_height(pre[i])->0
            < committed_height(pre[j])->0 by {
            assert(pre[i] == ns[i] && pre[j] == ns[j]);
        }
        lemma_acks_increase(pre);
        assert forall|a: int, b: int| 0 <= a < b < acks_for(ns).len() implies (
        #[trigger] acks_for(ns)[a]).number < (#[trigger] acks_for(ns)[b]).number by {
            if b >= acks_for(pre).len() {
                lemma_ack_source(pre, a);
                let i = choose|i: int|
                    0 <= i < pre.len() && #[trigger] committed_height(pre[i]) == Some(
                        acks_for(pre)[a].number,
                    );
                assert(ns[i] == pre[i]);
                assert(committed_height(ns[ns.len() - 1]) == Some(acks_for(ns)[b].number));
            }
        }
    }
}

/// A reorg or a revert adds no owed acknowledgment.
pub proof fn lemma_unsettled_owe_nothing(ns: Seq<Notification>, n: Notification)
    requires
        !(n is Committed),
    ensures
        acks_for(ns.push(n)) == acks_for(ns),
{
    assert(ns.push(n).drop_last() =~= ns);
}

/// The request that anchors the commitment of `seg`.
pub open spec fn anchor_request_for(seg: ChainSegment) -> AnchorRequest {
    AnchorRequest { commitment: seg.tip.state_root, gas_limit: ANCHOR_GAS_LIMIT }
}

/// The relay: the event filter, its phase, and in ghost state the
/// notifications received and the acknowledgments emitted so far.
pub struct Relay {
    filter: EventFilter,
    phase: Phase,
    stop_requested: bool,
    received: Ghost<Seq<Notification>>,
    acked: Ghost<Seq<HeightAck>>,
}

impl Relay {
    pub closed spec fn filter_spec(self) -> EventFilter {
        self.filter
    }

    pub closed spec fn phase_spec(self) -> Phase {
        self.phase
    }

    pub closed spec fn stop_requested_spec(self) -> bool {
        self.stop_requested
    }

    /// The notifications handed to the relay, in arrival order.
    pub closed spec fn received(self) -> Seq<Notification> {
        self.received@
    }

    /// The acknowledgments the relay has emitted, in order.
    pub closed spec fn acked(self) -> Seq<HeightAck> {
        self.acked@
    }

    /// Acknowledgments follow the committed notifications one for one, in
    /// arrival order; while an anchor call is out, the last notification is
    /// the committed one it belongs to, not yet acknowledged.
    pub closed spec fn wf(self) -> bool {
        match self.phase {
            Phase::Anchoring { request, range, ack, .. } => {
                &&& self.received@.len() > 0
                &&& self.received@.last() matches Notification::Committed { new }
                &&& ack == new.tip_ack()
                &&& request == anchor_request_for(new)
                &&& range == new.range()
                &&& self.acked@ == acks_for(self.received@.drop_last())
            },
            _ => self.acked@ == acks_for(self.received@),
        }
    }

    /// When the committed notifications arrived in increasing height, the
    /// acknowledgments the relay has emitted are strictly increasing.
    pub proof fn lemma_emitted_acks_increase(self)
        requires
            self.wf(),
            committed_heights_increase(self.received()),
        ensures
            forall|a: int, b: int|
                0 <= a < b < self.acked().len() ==> (#[trigger] self.acked()[a]).number < (
                #[trigger] self.acked()[b]).number,
    {
        let ns = self.received@;
        match self.phase {
            Phase::Anchoring { .. } => {
                let pre = ns.drop_last();
                assert forall|i: int, j: int|
                    0 <= i < j < pre.len() && (#[trigger] committed_height(pre[i])) is Some && (
                    #[trigger] committed_height(pre[j])) is Some implies committed_height(
                    pre[i],
                )->0 < committed_height(pre[j])->0 by {
                    assert(pre[i] == ns[i] && pre[j] == ns[j]);
                }
                lemma_acks_increase(pre);
            },
            _ => {
                lemma_acks_increase(ns);
            },
        }
    }

    pub fn new(filter: EventFilter) -> (r: Relay)
        ensures
            r.wf(),
            r.filter_spec() == filter,
            r.phase_spec() == Phase::Idle,
            !r.stop_requested_spec(),
            r.received() == Seq::<Notification>::empty(),
            r.acked() == Seq::<HeightAck>::empty(),
    {
        Relay {
            filter,
            phase: Phase::Idle,
            stop_requested: false,
            received: Ghost(Seq::empty()),
            acked: Ghost(Seq::empty()),
        }
    }

    pub fn phase(&self) -> (r: Phase)
        ensures
            r == self.phase_spec(),
    {
        self.phase
    }

    /// Whether the relay has stopped taking notifications.
    pub fn is_shut_down(&self) -> (r: bool)
        ensures
            r == (self.phase_spec() is ShuttingDown),
    {
        match self.phase {
            Phase::ShuttingDown => true,
            _ => false,
        }
    }

    /// Handles one notification. A committed segment with events of the
    /// watched contract asks for one anchor call carrying the tip's state
    /// root; one without is acknowledged at once. A reorg or a revert is
    /// neither anchored nor acknowledged.
    pub fn on_notification(&mut self, n: &Notification) -> (step: Step)
        requires
            old(self).wf(),
            old(self).phase_spec() is Idle,
        ensures
            final(self).wf(),
            final(self).filter_spec() == old(self).filter_spec(),
            final(self).stop_requested_spec() == old(self).stop_requested_spec(),
            final(self).received() == old(self).received().push(*n),
            match *n {
                Notification::Committed { new } => {
                    let count = segment_events(old(self).filter_spec(), new).len();
                    if count > 0 {
                        &&& step == (Step::Anchor {
                            request: anchor_request_for(new),
                            range: new.range(),
                            event_count: count as usize,
                        })
                        &&& final(self).phase_spec() == (Phase::Anchoring {
                            request: anchor_request_for(new),
                            range: new.range(),
                            event_count: count as usize,
                            ack: new.tip_ack(),
                        })
                        &&& final(self).acked() == old(self).acked()
                    } else {
                        &&& step == (Step::Acknowledge { ack: new.tip_ack() })
                        &&& final(self).phase_spec() == Phase::Idle
                        &&& final(self).acked() == old(self).acked().push(new.tip_ack())
                    }
                },
                Notification::Reorged { new, .. } => {
                    &&& step == (Step::Ignore { kind: Unsettled::Reorged, range: new.range() })
                    &&& final(self).phase_spec() == Phase::Idle
                    &&& final(self).acked() == old(self).acked()
                },
                Notification::Reverted { old: gone } => {
                    &&& step == (Step::Ignore { kind: Unsettled::Reverted, range: gone.range() })
                    &&& final(self).phase_spec() == Phase::Idle
                    &&& final(self).acked() == old(self).acked()
                },
            },
    {
        let ghost prev = self.received@;
        self.received = Ghost(self.received@.push(*n));
        assert(self.received@.drop_last() =~= prev);
        match n {
            Notification::Committed { new } => {
                let events = decode(new, &self.filter);
                let ack = new.tip_height();
                if events.len() > 0 {
                    let request = AnchorRequest {
                        commitment: new.commitment(),
                        gas_limit: ANCHOR_GAS_LIMIT,
                    };
                    let range = new.block_range();
                    self.phase = Phase::Anchoring {
                        request,
                        range,
                        event_count: events.len(),
                        ack,
                    };
                    Step::Anchor { request, range, event_count: events.len() }
                } else {
                    self.acked = Ghost(self.acked@.push(ack));
                    Step::Acknowledge { ack }
                }
            },
            Notification::Reorged { new, .. } => {
                Step::Ignore { kind: Unsettled::Reorged, range: new.block_range() }
            },
            Notification::Reverted { old: gone } => {
                Step::Ignore { kind: Unsettled::Reverted, range: gone.block_range() }
            },
        }
    }

    /// Takes the outcome of the anchor call in flight and returns its report
    /// with the acknowledgment of the segment's tip, which is owed whatever
    /// the outcome.
    pub fn on_anchor_outcome(&mut self, outcome: AnchorOutcome) -> (report: AnchorReport)
        requires
            old(self).wf(),
            old(self).phase_spec() is Anchoring,
        ensures
            final(self).wf(),
            final(self).filter_spec() == old(self).filter_spec(),
            final(self).stop_requested_spec() == old(self).stop_requested_spec(),
            final(self).received() == old(self).received(),
            old(self).phase_spec() matches Phase::Anchoring { request, range, event_count, ack }
                && report == (AnchorReport {
                    range,
                    commitment: request.commitment,
                    event_count,
                    outcome,
                    ack,
                }),
            final(self).acked() == old(self).acked().push(report.ack),
            final(self).phase_spec() == if old(self).stop_requested_spec() {
                Phase::ShuttingDown
            } else {
                Phase::Idle
            },
    {
        match self.phase {
            Phase::Anchoring { request, range, event_count, ack } => {
                self.acked = Ghost(self.acked@.push(ack));
                self.phase = if self.stop_requested {
                    Phase::ShuttingDown
                } else {
                    Phase::Idle
                };
                AnchorReport { range, commitment: request.commitment, event_count, outcome, ack }
            },
            _ => {
                proof {
                    assert(false);
                }
                AnchorReport {
                    range: BlockRange { first: 0, last: 0 },
                    commitment: [0u8; 32],
                    event_count: 0,
                    outcome,
                    ack: HeightAck { number: 0, hash: [0u8; 32] },
                }
            },
        }
    }

    /// Asks the relay to stop: at once when idle, else once the anchor call
    /// in flight has been reported.
    pub fn request_shutdown(&mut self)
        requires
            old(self).wf(),
        ensures
            final(self).wf(),
            final(self).filter_spec() == old(self).filter_spec(),
            final(self).received() == old(self).received(),
            final(self).acked() == old(self).acked(),
            final(self).stop_requested_spec(),
            final(self).phase_spec() == match old(self).phase_spec() {
                Phase::Idle => Phase::ShuttingDown,
                p => p,
            },
    {
        self.stop_requested = true;
        match self.phase {
            Phase::Idle => {
                self.phase = Phase::ShuttingDown;
            },
            _ => {},
        }
    }
}

} // verus!
