//! Inter-process messaging between the scheduler and runtimes: bounded
//! channels with back-pressure, message types, and the scheduler's routing
//! of events to named runtimes.
//!
//! What a channel holds is shared with the other end, which may live on
//! another thread; so what a send or receive returns is not stated beyond
//! its kind. The routing decisions are.

use std::sync::mpsc::{Receiver, SyncSender, TryRecvError, TrySendError};
use std::sync::Arc;
use vstd::prelude::*;
use crate::text::str_eq;

verus! {

#[verifier::external_type_specification]
#[verifier::external_body]
#[verifier::reject_recursive_types(T)]
pub struct ExSyncSender<T>(SyncSender<T>);

#[verifier::external_type_specification]
#[verifier::external_body]
#[verifier::reject_recursive_types(T)]
pub struct ExReceiver<T>(Receiver<T>);

/// Why a send failed.
#[derive(Debug, Clone, PartialEq, Eq, Structural)]
pub enum SendError {
    /// The channel is full.
    BackPressure,
    /// The receiving end is gone.
    Disconnected,
}

/// Why a receive failed.
#[derive(Debug, Clone, PartialEq, Eq, Structural)]
pub enum RecvError2 {
    /// Nothing is waiting.
    Empty,
    /// The sending end is gone.
    Disconnected,
}

/// Calls `std::sync::mpsc::sync_channel`: a channel holding at most
/// `capacity` messages. Nothing is stated of the two ends.
#[verifier::external_body]
fn sync_channel_ends<T>(capacity: usize) -> (SyncSender<T>, Receiver<T>) {
    std::sync::mpsc::sync_channel(capacity)
}

/// Calls `SyncSender::try_send` and names its failure: a full channel as
/// back-pressure, a dropped receiver as disconnection. Which outcome comes
/// depends on the other end, so none is stated.
#[verifier::external_body]
fn try_send_on<T>(tx: &SyncSender<T>, msg: T) -> Result<(), SendError> {
    match tx.try_send(msg) {
        Ok(()) => Ok(()),
        Err(TrySendError::Full(_)) => Err(SendError::BackPressure),
        Err(TrySendError::Disconnected(_)) => Err(SendError::Disconnected),
    }
}

/// Calls `Receiver::try_recv` and names its failure: nothing waiting as
/// empty, a dropped sender with nothing waiting as disconnection. Which
/// outcome comes depends on the other end, so none is stated.
#[verifier::external_body]
fn try_recv_on<T>(rx: &Receiver<T>) -> Result<T, RecvError2> {
    match rx.try_recv() {
        Ok(msg) => Ok(msg),
        Err(TryRecvError::Empty) => Err(RecvError2::Empty),
        Err(TryRecvError::Disconnected) => Err(RecvError2::Disconnected),
    }
}

/// Calls `Receiver::recv`, which waits for a message; its only failure, a
/// dropped sender with nothing waiting, is named disconnection, so it never
/// reports an empty channel. Whether a message or the failure comes depends
/// on the other end, so that is not stated.
#[verifier::external_body]
fn recv_on<T>(rx: &Receiver<T>) -> (r: Result<T, RecvError2>)
    ensures
        r matches Err(e) ==> e == RecvError2::Disconnected,
{
    match rx.recv() {
        Ok(msg) => Ok(msg),
        Err(_) => Err(RecvError2::Disconnected),
    }
}

/// Calls `Arc::clone`: a second handle on the same allocation.
#[verifier::external_body]
fn share_link(a: &Arc<()>) -> Arc<()> {
    Arc::clone(a)
}

/// Calls `Arc::strong_count`: how many `Arc` handles on the allocation are
/// alive. `a` is one of them, so the count is at least one; the others may
/// be dropped on another thread at any moment, so nothing more is stated.
#[verifier::external_body]
fn link_count(a: &Arc<()>) -> (n: usize)
    ensures
        n >= 1,
{
    Arc::strong_count(a)
}

/// Sending end of a bounded channel. `link` is shared with the receiving
/// end and tells whether that end is still alive.
#[verifier::reject_recursive_types(T)]
pub struct ChannelSender<T> {
    inner: SyncSender<T>,
    link: Arc<()>,
}

/// Receiving end of a bounded channel.
#[verifier::reject_recursive_types(T)]
pub struct ChannelReceiver<T> {
    inner: Receiver<T>,
    link: Arc<()>,
}

/// Whether a link handle counted `holders` times, one of them our own, is
/// still held by the other end.
pub fn peer_alive(holders: usize) -> (b: bool)
    ensures
        b <==> holders >= 2,
{
    holders >= 2
}

/// Keeps the outcome of one receive: a message goes at the end of `out`,
/// a failure leaves `out` as it was; the result says whether to go on.
pub fn take_outcome<T>(out: &mut Vec<T>, r: Result<T, RecvError2>) -> (more: bool)
    ensures
        more == r is Ok,
        r matches Ok(m) ==> final(out)@ == old(out)@.push(m),
        r is Err ==> final(out)@ == old(out)@,
{
    match r {
        Ok(m) => {
            out.push(m);
            true
        },
        Err(_) => false,
    }
}

impl<T> ChannelSender<T> {
    /// Sends without waiting: refused with back-pressure when the channel
    /// is full, and as disconnected when the receiver is gone.
    pub fn send(&self, msg: T) -> (r: Result<(), SendError>) {
        try_send_on(&self.inner, msg)
    }

    /// Whether the receiving end is still alive: the handle shared with it
    /// has another holder besides this sender.
    pub fn is_connected(&self) -> (b: bool) {
        peer_alive(link_count(&self.link))
    }
}

impl<T> ChannelReceiver<T> {
    /// Takes the next message without waiting.
    pub fn try_recv(&self) -> (r: Result<T, RecvError2>) {
        try_recv_on(&self.inner)
    }

    /// Waits for the next message; it fails only when the sender is gone
    /// and nothing is waiting, never because the channel is empty.
    pub fn recv(&self) -> (r: Result<T, RecvError2>)
        ensures
            r matches Err(e) ==> e == RecvError2::Disconnected,
    {
        recv_on(&self.inner)
    }

    /// Takes every message waiting now, in the order they were sent, and
    /// stops at the first receive that fails.
    pub fn drain(&self) -> (out: Vec<T>) {
        let mut out: Vec<T> = Vec::new();
        while out.len() < usize::MAX
            decreases usize::MAX - out@.len(),
        {
            let r = self.try_recv();
            if !take_outcome(&mut out, r) {
                break;
            }
        }
        out
    }
}

/// A bounded channel holding at most `capacity` messages: the sending and
/// the receiving end.
pub fn channel<T>(capacity: usize) -> (ends: (ChannelSender<T>, ChannelReceiver<T>)) {
    let (tx, rx) = sync_channel_ends(capacity);
    let link = Arc::new(());
    let shared = share_link(&link);
    (ChannelSender { inner: tx, link: shared }, ChannelReceiver { inner: rx, link })
}

/// Transport control of a runtime.
#[derive(Debug, Clone, Copy, PartialEq, Eq, Structural)]
pub enum TransportCommand {
    Play,
    Pause,
    Stop,
    Seek { beat: u64 },
}

/// Health a runtime process reports.
#[derive(Debug, Clone, Copy, PartialEq, Eq, Structural)]
pub enum ProcessHealth {
    Healthy,
    Degraded,
    Unhealthy,
    Unresponsive,
}

/// A message from the scheduler to a runtime.
#[derive(Debug, Clone)]
pub enum RuntimeMessage {
    Action { payload_json: String },
    Patch { patch_id: String, patch_json: String },
    Transport { command: TransportCommand },
    HealthCheck,
    Terminate { reason: String },
}

/// A message with its correlation and causation identifiers.
#[derive(Debug, Clone)]
pub struct MessageEnvelope {
    pub correlation_id: String,
    pub message_id: String,
    pub parent_id: Option<String>,
    pub timestamp_ms: u64,
    pub payload: RuntimeMessage,
}

/// An acknowledgement from a runtime process back to the controller. CPU
/// load and memory travel as the bit patterns of their `f64` values.
#[derive(Debug, Clone)]
pub enum RuntimeAck {
    /// Execution completed.
    ExecutionAck { correlation_id: String, success: bool, wall_ms: u64, detail: Option<String> },
    /// A health report.
    HealthStatus {
        correlation_id: String,
        process_id: String,
        cpu_percent_bits: u64,
        memory_mb_bits: u64,
        status: ProcessHealth,
    },
    /// A patch was applied.
    PatchAck { correlation_id: String, patch_id: String, success: bool, rollback_available: bool },
    /// An error.
    Error { correlation_id: String, code: String, message: String },
}

/// Health of a runtime as the resilience monitor sees it.
#[derive(Debug, Clone, Copy, PartialEq, Eq, Structural)]
pub enum RuntimeHealth {
    Healthy,
    Degraded,
    Panicked,
}

/// An event the scheduler routes to the runtime named by `channel`.
#[derive(Debug, Clone)]
pub struct RuntimeEvent {
    pub correlation_id: String,
    pub channel: String,
    pub payload_json: String,
}

/// A copy of `e`, field by field.
pub fn copy_event(e: &RuntimeEvent) -> (c: RuntimeEvent)
    ensures
        c == *e,
{
    RuntimeEvent {
        correlation_id: e.correlation_id.clone(),
        channel: e.channel.clone(),
        payload_json: e.payload_json.clone(),
    }
}

/// A runtime's acknowledgement of an event.
#[derive(Debug, Clone)]
pub struct RuntimeAckMsg {
    pub correlation_id: String,
    pub runtime_name: String,
    pub success: bool,
    pub detail: String,
}

/// The scheduler's side of a runtime: where its events go and where its
/// acknowledgements come from.
pub struct RuntimeChannel {
    pub name: String,
    pub event_tx: SyncSender<RuntimeEvent>,
    pub ack_rx: Receiver<RuntimeAckMsg>,
}

/// The names of the runtimes, in registration order.
pub open spec fn runtime_names(rs: Seq<RuntimeChannel>) -> Seq<Seq<char>> {
    rs.map_values(|r: RuntimeChannel| r.name@)
}

/// The first runtime named `name`, if any.
pub open spec fn first_named(names: Seq<Seq<char>>, name: Seq<char>) -> Option<int> {
    if exists|i: int| 0 <= i < names.len() && names[i] == name && forall|j: int| 0 <= j < i ==> names[j] != name {
        Some(choose|i: int| 0 <= i < names.len() && names[i] == name && forall|j: int| 0 <= j < i ==> names[j] != name)
    } else {
        None
    }
}

/// Where some runtime is named `name`, `first_named` finds the first one: a
/// position with that name and none before it.
pub proof fn lemma_first_named_found(names: Seq<Seq<char>>, name: Seq<char>, i: int)
    requires
        0 <= i < names.len(),
        names[i] == name,
    ensures
        first_named(names, name) matches Some(k) && 0 <= k <= i && names[k] == name
            && forall|j: int| 0 <= j < k ==> names[j] != name,
    decreases i,
{
    if exists|j: int| 0 <= j < i && names[j] == name {
        let j = choose|j: int| 0 <= j < i && names[j] == name;
        lemma_first_named_found(names, name, j);
    } else {
        let k = choose|k: int| 0 <= k < names.len() && names[k] == name
            && forall|j: int| 0 <= j < k ==> names[j] != name;
        assert(k == i) by {
            if k < i {
            } else if k > i {
                assert(names[i] != name);
            }
        }
    }
}

/// Offers `event` to the runtime at position `i` without waiting, and
/// reports that position with the outcome of the send.
fn send_to(runtimes: &Vec<RuntimeChannel>, i: usize, event: RuntimeEvent) -> (r: (usize, Result<(), SendError>))
    requires
        i < runtimes@.len(),
    ensures
        r.0 == i,
{
    (i, try_send_on(&runtimes[i].event_tx, event))
}

/// What a dispatch did: the position of the runtime the event was offered
/// to, if one has that name, and whether the send went through.
#[derive(Debug, Clone, Copy, PartialEq, Eq, Structural)]
pub struct Dispatch {
    pub runtime: Option<usize>,
    pub sent: bool,
}

/// Routes events to registered runtimes by name and gathers their
/// acknowledgements.
pub struct SchedulerIpc {
    runtimes: Vec<RuntimeChannel>,
}

impl SchedulerIpc {
    /// The registered runtimes' names, in registration order.
    pub closed spec fn names_spec(&self) -> Seq<Seq<char>> {
        runtime_names(self.runtimes@)
    }

    /// No runtime registered.
    pub fn new() -> (s: Self)
        ensures
            s.names_spec() == Seq::<Seq<char>>::empty(),
    {
        let s = SchedulerIpc { runtimes: Vec::new() };
        proof {
            assert(s.names_spec() =~= Seq::<Seq<char>>::empty());
        }
        s
    }

    /// Adds a runtime after those registered.
    pub fn register(&mut self, channel: RuntimeChannel)
        ensures
            final(self).names_spec() == old(self).names_spec().push(channel.name@),
    {
        let ghost n = channel.name@;
        self.runtimes.push(channel);
        proof {
            assert(runtime_names(self.runtimes@) =~= runtime_names(old(self).runtimes@).push(n));
        }
    }

    /// Position of the first runtime named `channel`.
    pub fn route_index(&self, channel: &str) -> (r: Option<usize>)
        ensures
            r == (match first_named(self.names_spec(), channel@) { Some(i) => Some(i as usize), None => None::<usize> }),
            r matches Some(i) ==> i < self.names_spec().len(),
    {
        let mut i: usize = 0;
        while i < self.runtimes.len()
            invariant
                i <= self.runtimes@.len(),
                forall|j: int| 0 <= j < i ==> #[trigger] self.names_spec()[j] != channel@,
            decreases self.runtimes@.len() - i,
        {
            if str_eq(self.runtimes[i].name.as_str(), channel) {
                proof {
                    let names = self.names_spec();
                    assert(names[i as int] == channel@);
                    let c = choose|k: int| 0 <= k < names.len() && names[k] == channel@ && forall|j: int| 0 <= j < k ==> names[j] != channel@;
                    assert(c == i as int) by {
                        if c < i {
                        } else if c > i {
                            assert(names[i as int] != channel@);
                        }
                    }
                }
                return Some(i);
            }
            i = i + 1;
        }
        None
    }

    /// Hands `event` to the first runtime named by its channel, without
    /// waiting: which runtime it was offered to, if any, and whether the
    /// send went through. No runtime of that name means nothing is sent.
    pub fn dispatch_routed(&self, event: &RuntimeEvent) -> (d: Dispatch)
        ensures
            d.runtime == (match first_named(self.names_spec(), event.channel@) { Some(i) => Some(i as usize), None => None::<usize> }),
            d.runtime is None ==> !d.sent,
    {
        match self.route_index(event.channel.as_str()) {
            Some(i) => {
                let (to, r) = send_to(&self.runtimes, i, copy_event(event));
                Dispatch { runtime: Some(to), sent: r.is_ok() }
            },
            None => Dispatch { runtime: None, sent: false },
        }
    }

    /// Hands `event` to the first runtime named by its channel, without
    /// waiting, as `dispatch_routed` does; true when it was sent, false when
    /// no runtime has that name or the send failed.
    pub fn dispatch(&self, event: &RuntimeEvent) -> (sent: bool)
        ensures
            first_named(self.names_spec(), event.channel@) is None ==> !sent,
    {
        self.dispatch_routed(event).sent
    }

    /// Every acknowledgement waiting now, runtime by runtime in
    /// registration order; none when no runtime is registered.
    pub fn collect_acks(&self) -> (acks: Vec<RuntimeAckMsg>)
        ensures
            self.names_spec().len() == 0 ==> acks@.len() == 0,
    {
        let mut acks: Vec<RuntimeAckMsg> = Vec::new();
        let mut i: usize = 0;
        while i < self.runtimes.len()
            invariant
                i <= self.runtimes@.len(),
                i == 0 ==> acks@.len() == 0,
            decreases self.runtimes@.len() - i,
        {
            while acks.len() < usize::MAX
                invariant
                    i < self.runtimes@.len(),
                decreases usize::MAX - acks@.len(),
            {
                let r = try_recv_on(&self.runtimes[i].ack_rx);
                if !take_outcome(&mut acks, r) {
                    break;
                }
            }
            i = i + 1;
        }
        proof {
            assert(self.names_spec().len() == self.runtimes@.len());
        }
        acks
    }

    /// Number of registered runtimes.
    pub fn runtime_count(&self) -> (n: usize)
        ensures
            n == self.names_spec().len(),
    {
        self.runtimes.len()
    }
}

impl Default for SchedulerIpc {
    /// No runtime registered.
    fn default() -> (s: Self)
        ensures
            s.names_spec() == Seq::<Seq<char>>::empty(),
    {
        SchedulerIpc::new()
    }
}

/// A runtime's channels: the scheduler's side, named `name`, and the
/// runtime's event receiver and acknowledgement sender, each channel
/// holding at most `capacity` messages.
pub fn create_runtime_channels(name: &str, capacity: usize)
    -> (r: (RuntimeChannel, Receiver<RuntimeEvent>, SyncSender<RuntimeAckMsg>))
    ensures
        r.0.name@ == name@,
{
    let (event_tx, event_rx) = sync_channel_ends(capacity);
    let (ack_tx, ack_rx) = sync_channel_ends(capacity);
    (RuntimeChannel { name: String::from_str(name), event_tx, ack_rx }, event_rx, ack_tx)
}

} // verus!
