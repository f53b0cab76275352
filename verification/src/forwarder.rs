//! The forwarder's state machine. The sockets and the forwarding thread live
//! with the caller; this type decides what they do and keeps the count of
//! forwarded packets. Each start opens a new generation; a forwarding thread
//! belongs to the generation it was started for and goes on only while that
//! generation is the running one, so at most one forwarding thread goes on.
use vstd::prelude::*;
use crate::decimal::decimal;
use crate::target::{spec_target_address, target_address, any_interface_address};

verus! {

/// Size of the receive buffer: the largest UDP payload.
pub const BUF_SIZE: usize = 65535;

/// How long a receive waits before the forwarding loop looks again whether
/// it should go on.
pub const READ_TIMEOUT_MS: u64 = 100;

/// Receives UDP packets on a local port and sends each one on, unchanged, to
/// a target address.
pub struct UdpForwarder {
    running: bool,
    packet_count: u64,
    generation: u64,
}

/// The forwarder's state as plain values.
pub struct ForwarderView {
    pub running: bool,
    pub packet_count: u64,
    pub generation: u64,
}

impl View for UdpForwarder {
    type V = ForwarderView;

    closed spec fn view(&self) -> ForwarderView {
        ForwarderView { running: self.running, packet_count: self.packet_count, generation: self.generation }
    }
}

/// Why forwarding cannot start.
#[derive(Debug, PartialEq, Eq, Structural, Clone, Copy)]
pub enum ForwarderError {
    /// Forwarding is already running; it has to be stopped first.
    AlreadyRunning,
}

/// The sockets that forwarding needs: a listener bound to every interface
/// on the local port, and a sender bound to any free port and connected to
/// the target.
pub struct SocketPlan {
    pub listen_addr: String,
    pub sender_addr: String,
    pub target_addr: String,
    pub read_timeout_ms: u64,
    pub buffer_size: usize,
}

/// The next generation number, wrapping around.
pub open spec fn next_generation(g: u64) -> u64 {
    if g == u64::MAX { 0 } else { (g + 1) as u64 }
}

/// The packet count after one more send attempt: a sent packet adds one,
/// wrapping around as an atomic add does.
pub open spec fn count_after_send(count: u64, sent: bool) -> u64 {
    if sent {
        if count == u64::MAX { 0 } else { (count + 1) as u64 }
    } else {
        count
    }
}

/// The state and result of a request to start: refused while running;
/// otherwise running from a zero count in a new generation.
pub open spec fn spec_start(v: ForwarderView) -> (ForwarderView, Result<u64, ForwarderError>) {
    if v.running {
        (v, Err(ForwarderError::AlreadyRunning))
    } else {
        let g = next_generation(v.generation);
        (ForwarderView { running: true, packet_count: 0, generation: g }, Ok(g))
    }
}

/// The state after a stop: not running, count and generation kept.
pub open spec fn spec_stop(v: ForwarderView) -> ForwarderView {
    ForwarderView { running: false, ..v }
}

/// Whether the forwarding thread of `generation` goes on: only the thread of
/// the running generation does.
pub open spec fn spec_keep_forwarding(v: ForwarderView, generation: u64) -> bool {
    v.running && v.generation == generation
}

/// The state after the thread of `generation` tried to send a packet on:
/// only a packet of the current generation is counted.
pub open spec fn spec_record_send(v: ForwarderView, generation: u64, sent: bool) -> ForwarderView {
    if generation == v.generation {
        ForwarderView { packet_count: count_after_send(v.packet_count, sent), ..v }
    } else {
        v
    }
}

/// The state of a new forwarder.
pub open spec fn initial_view() -> ForwarderView {
    ForwarderView { running: false, packet_count: 0, generation: 0 }
}

impl UdpForwarder {
    /// A forwarder that is not running and has forwarded nothing.
    pub fn new() -> (f: UdpForwarder)
        ensures
            f@ == initial_view(),
    {
        UdpForwarder { running: false, packet_count: 0, generation: 0 }
    }

    /// The sockets to open for forwarding from `local_port` to
    /// `target_ip:target_port`.
    pub fn socket_plan(local_port: u16, target_ip: &str, target_port: u16) -> (p: SocketPlan)
        ensures
            p.listen_addr@ == "0.0.0.0:"@ + decimal(local_port as nat),
            p.sender_addr@ == "0.0.0.0:"@ + decimal(0),
            p.target_addr@ == spec_target_address(target_ip@, target_port),
            p.read_timeout_ms == READ_TIMEOUT_MS,
            p.buffer_size == BUF_SIZE,
    {
        SocketPlan {
            listen_addr: any_interface_address(local_port),
            sender_addr: any_interface_address(0),
            target_addr: target_address(target_ip, target_port),
            read_timeout_ms: READ_TIMEOUT_MS,
            buffer_size: BUF_SIZE,
        }
    }

    /// Starts forwarding, once its sockets are open: running, count reset to
    /// zero, in a new generation, which the forwarding thread is to be
    /// started for. Refused, with nothing changed, while forwarding runs.
    pub fn start(&mut self) -> (r: Result<u64, ForwarderError>)
        ensures
            (final(self)@, r) == spec_start(old(self)@),
    {
        if self.running {
            return Err(ForwarderError::AlreadyRunning);
        }
        self.generation = self.generation.wrapping_add(1);
        self.running = true;
        self.packet_count = 0;
        Ok(self.generation)
    }

    /// Stops forwarding: not running, so the forwarding thread ends. The
    /// count is kept.
    pub fn stop(&mut self)
        ensures
            final(self)@ == spec_stop(old(self)@),
    {
        self.running = false;
    }

    /// Whether forwarding is running.
    pub fn is_running(&self) -> (r: bool)
        ensures
            r == self@.running,
    {
        self.running
    }

    /// The number of packets forwarded since the last start.
    pub fn packet_count(&self) -> (r: u64)
        ensures
            r == self@.packet_count,
    {
        self.packet_count
    }

    /// Whether the forwarding thread of `generation` goes on with another
    /// receive.
    pub fn keep_forwarding(&self, generation: u64) -> (r: bool)
        ensures
            r == spec_keep_forwarding(self@, generation),
    {
        self.running && self.generation == generation
    }

    /// Records one packet received by the thread of `generation`; `sent`
    /// tells whether sending it on succeeded.
    pub fn record_send(&mut self, generation: u64, sent: bool)
        ensures
            final(self)@ == spec_record_send(old(self)@, generation, sent),
    {
        if sent && generation == self.generation {
            self.packet_count = self.packet_count.wrapping_add(1);
        }
    }
}

impl Default for UdpForwarder {
    fn default() -> (f: UdpForwarder)
        ensures
            f@ == initial_view(),
    {
        UdpForwarder::new()
    }
}

/// At most one forwarding thread goes on: no two generations are told to go
/// on in the same state.
pub proof fn lemma_one_forwarding_thread(v: ForwarderView, g1: u64, g2: u64)
    requires
        spec_keep_forwarding(v, g1),
        spec_keep_forwarding(v, g2),
    ensures
        g1 == g2,
{
}

/// After a stop no forwarding thread goes on; after a start that succeeds
/// only the thread of the new generation goes on; a refused start changes
/// nothing, so no second thread is started beside the running one.
pub proof fn lemma_start_stop_threads(v: ForwarderView, g: u64)
    ensures
        !spec_keep_forwarding(spec_stop(v), g),
        spec_start(v).1 matches Ok(n) ==> (spec_keep_forwarding(spec_start(v).0, g) <==> g == n),
        spec_start(v).1 is Ok ==> !spec_keep_forwarding(spec_start(v).0, v.generation),
        spec_start(v).1 is Err ==> spec_start(v).0 == v && v.running,
{
}

/// The operations on a forwarder.
pub enum ForwarderOp {
    Start,
    Stop,
    Send { generation: u64, sent: bool },
}

/// The state after one operation.
pub open spec fn apply_op(v: ForwarderView, op: ForwarderOp) -> ForwarderView {
    match op {
        ForwarderOp::Start => spec_start(v).0,
        ForwarderOp::Stop => spec_stop(v),
        ForwarderOp::Send { generation, sent } => spec_record_send(v, generation, sent),
    }
}

/// The state after a run of operations.
pub open spec fn run_ops(v: ForwarderView, ops: Seq<ForwarderOp>) -> ForwarderView
    decreases ops.len(),
{
    if ops.len() == 0 {
        v
    } else {
        apply_op(run_ops(v, ops.drop_last()), ops.last())
    }
}

/// Some start in `ops` has no stop after it.
pub open spec fn started_since_stop(ops: Seq<ForwarderOp>) -> bool {
    exists|i: int|
        0 <= i < ops.len() && #[trigger] ops[i] is Start && forall|j: int| i < j < ops.len() ==> !(
        #[trigger] ops[j] is Stop)
}

/// Whatever operations a new forwarder went through, it runs exactly when
/// some start came after the last stop.
pub proof fn lemma_running_after_ops(ops: Seq<ForwarderOp>)
    ensures
        run_ops(initial_view(), ops).running == started_since_stop(ops),
    decreases ops.len(),
{
    if ops.len() > 0 {
        let prev = ops.drop_last();
        let n = ops.len() - 1;
        lemma_running_after_ops(prev);
        match ops.last() {
            ForwarderOp::Start => {
                assert(ops[n] is Start);
                assert(started_since_stop(ops));
            },
            ForwarderOp::Stop => {
                if started_since_stop(ops) {
                    let i = choose|i: int|
                        0 <= i < ops.len() && #[trigger] ops[i] is Start && forall|j: int|
                            i < j < ops.len() ==> !(#[trigger] ops[j] is Stop);
                    assert(ops[n] is Stop);
                    assert(false);
                }
            },
            ForwarderOp::Send { .. } => {
                if started_since_stop(ops) {
                    let i = choose|i: int|
                        0 <= i < ops.len() && #[trigger] ops[i] is Start && forall|j: int|
                            i < j < ops.len() ==> !(#[trigger] ops[j] is Stop);
                    assert(i < n);
                    assert(prev[i] is Start);
                    assert forall|j: int| i < j < prev.len() implies !(#[trigger] prev[j] is Stop) by {
                        assert(prev[j] == ops[j]);
                    }
                }
                if started_since_stop(prev) {
                    let i = choose|i: int|
                        0 <= i < prev.len() && #[trigger] prev[i] is Start && forall|j: int|
                            i < j < prev.len() ==> !(#[trigger] prev[j] is Stop);
                    assert(ops[i] is Start);
                    assert forall|j: int| i < j < ops.len() implies !(#[trigger] ops[j] is Stop) by {
                        if j < n {
                            assert(prev[j] == ops[j]);
                        }
                    }
                }
            },
        }
    }
}

/// The packet count after the current generation's thread made a run of send
/// attempts, each telling whether the packet was sent on.
pub open spec fn count_after_sends(count: u64, outcomes: Seq<bool>) -> u64
    decreases outcomes.len(),
{
    if outcomes.len() == 0 {
        count
    } else {
        count_after_send(count_after_sends(count, outcomes.drop_last()), outcomes.last())
    }
}

/// The number of packets that were sent on.
pub open spec fn sent_count(outcomes: Seq<bool>) -> nat
    decreases outcomes.len(),
{
    if outcomes.len() == 0 {
        0
    } else {
        sent_count(outcomes.drop_last()) + if outcomes.last() { 1nat } else { 0nat }
    }
}

/// Counting from a start, the packet count is exactly the number of packets
/// sent on (as long as fewer than 2^64 attempts were made).
pub proof fn lemma_count_is_sent_packets(outcomes: Seq<bool>)
    requires
        outcomes.len() <= u64::MAX,
    ensures
        count_after_sends(0, outcomes) == sent_count(outcomes),
        sent_count(outcomes) <= outcomes.len(),
    decreases outcomes.len(),
{
    if outcomes.len() > 0 {
        lemma_count_is_sent_packets(outcomes.drop_last());
    }
}

/// Each packet that the running generation's thread sends on adds exactly
/// one to the count (wrapping only past 2^64 - 1); a failed send, or a send
/// from a thread of another generation, leaves the count as it was; nothing
/// else changes.
pub proof fn lemma_record_send(v: ForwarderView, generation: u64, sent: bool)
    ensures
        generation == v.generation && sent && v.packet_count < u64::MAX ==> spec_record_send(
            v,
            generation,
            sent,
        ).packet_count == v.packet_count + 1,
        generation == v.generation && sent && v.packet_count == u64::MAX ==> spec_record_send(
            v,
            generation,
            sent,
        ).packet_count == 0,
        !sent ==> spec_record_send(v, generation, sent) == v,
        generation != v.generation ==> spec_record_send(v, generation, sent) == v,
        spec_record_send(v, generation, sent).running == v.running,
        spec_record_send(v, generation, sent).generation == v.generation,
{
}

/// The count after a start and then a run of send attempts by the started
/// thread: each attempt that sent its packet on adds one.
pub open spec fn count_after_start_and_sends(v: ForwarderView, outcomes: Seq<bool>) -> ForwarderView
    decreases outcomes.len(),
{
    if outcomes.len() == 0 {
        spec_start(v).0
    } else {
        let prev = count_after_start_and_sends(v, outcomes.drop_last());
        spec_record_send(prev, prev.generation, outcomes.last())
    }
}

/// From a start, the count is exactly the number of packets the started
/// thread sent on, for fewer than 2^64 attempts.
pub proof fn lemma_start_then_sends(v: ForwarderView, outcomes: Seq<bool>)
    requires
        !v.running,
        outcomes.len() < u64::MAX,
    ensures
        count_after_start_and_sends(v, outcomes).packet_count == sent_count(outcomes),
        count_after_start_and_sends(v, outcomes).running,
        count_after_start_and_sends(v, outcomes).generation == next_generation(v.generation),
    decreases outcomes.len(),
{
    if outcomes.len() > 0 {
        lemma_start_then_sends(v, outcomes.drop_last());
        let prev = count_after_start_and_sends(v, outcomes.drop_last());
        lemma_record_send(prev, prev.generation, outcomes.last());
        lemma_sent_count_le(outcomes.drop_last());
    }
}

proof fn lemma_sent_count_le(outcomes: Seq<bool>)
    ensures
        sent_count(outcomes) <= outcomes.len(),
    decreases outcomes.len(),
{
    if outcomes.len() > 0 {
        lemma_sent_count_le(outcomes.drop_last());
    }
}

/// A start succeeds exactly when the forwarder is not running; it then runs
/// from a zero count in a generation that differs from the previous one. A
/// stop leaves it not running with its count and generation.
pub proof fn lemma_start_stop(v: ForwarderView)
    ensures
        spec_start(v).1 is Ok <==> !v.running,
        !v.running ==> spec_start(v).0.running && spec_start(v).0.packet_count == 0
            && spec_start(v).0.generation != v.generation && spec_start(v).1 == Ok::<u64, ForwarderError>(
            spec_start(v).0.generation,
        ),
        v.running ==> spec_start(v).0 == v,
        !spec_stop(v).running,
        spec_stop(v).packet_count == v.packet_count,
        spec_stop(v).generation == v.generation,
{
}

} // verus!
