//! Per-CPU consumer: the state machine that drives one CPU's stream.
//!
//! One consumer is bound to exactly one CPU at spawn time.  The caller
//! owns the channel and the suspension: it waits for records, then hands
//! each outcome — a batch, a closed channel, a transport failure, or the
//! process-wide shutdown signal — to the consumer, which decodes,
//! correlates, resolves and emits synchronously.  A fatal channel outcome
//! stops only this consumer; sibling consumers share nothing mutable with
//! it and run on untouched.

use crate::codec::{event, spec_decode, DecodeError, Layout};
use crate::comm::CommTable;
use crate::filter::FilterConfig;
use crate::resolver::{resolve, spec_resolve, Domain, FrameV, StackStore, SymbolTable};
use crate::sink::{spec_event_line, spec_frame_line, EventSink};
use vstd::prelude::*;

verus! {

/// The most records one wake-up may drain: the size of the reusable
/// decode-buffer pool, so a burst cannot hold the channel unboundedly.
pub const BATCH_MAX: usize = 10;

/// Where a consumer stands in its lifecycle.
#[derive(Clone, Copy, Debug, PartialEq, Eq, Structural)]
pub enum ConsumerState {
    /// Between wake-ups, ready to wait again.
    Idle,
    /// Suspended on the channel, waiting for records.
    Waiting,
    /// Decoding and emitting a drained batch.  The draining pass runs
    /// synchronously inside one call, so this is never left standing.
    Draining,
    /// Terminal: shut down, or lost its channel.
    Stopped,
}

/// Why a consumer reached `Stopped`.
#[derive(Clone, Copy, Debug, PartialEq, Eq, Structural)]
pub enum StopReason {
    /// The process-wide shutdown signal: an orderly exit.
    Shutdown,
    /// The per-CPU channel closed: fatal to this consumer only.
    ChannelClosed,
    /// The transport reported a protocol error: fatal to this consumer
    /// only.
    TransportError,
}

/// The looked-up name bytes for a pid, if the table has them.
pub open spec fn spec_comm_of(comms: Map<u32, Seq<u8>>, pid: u32) -> Option<Seq<u8>> {
    if comms.contains_key(pid) {
        Some(comms[pid])
    } else {
        None
    }
}

/// The frame lines one resolved stack contributes: none when the stack
/// did not resolve, one line per frame in stored order otherwise.
pub open spec fn spec_stack_lines(domain: Domain, r: Option<Seq<FrameV>>) -> Seq<Seq<char>> {
    match r {
        Some(fs) => fs.map_values(|f: FrameV| spec_frame_line(domain, f)),
        None => Seq::empty(),
    }
}

/// Everything one decoded event emits: its event line, then — only with
/// stack capture enabled — the kernel frame lines and the user frame
/// lines.  A sentinel or unknown stack id contributes no lines for its
/// domain.
pub open spec fn spec_event_output(
    cpu: u32,
    e: event,
    comms: Map<u32, Seq<u8>>,
    store: Map<u32, Seq<u64>>,
    syms: Seq<(u64, Seq<char>)>,
    cfg: FilterConfig,
) -> Seq<Seq<char>> {
    seq![spec_event_line(cpu, e.pid, spec_comm_of(comms, e.pid))] + (
    if cfg.spec_capture_stack() {
        spec_stack_lines(Domain::Kernel, spec_resolve(store, syms, e.kernel_stackid))
            + spec_stack_lines(Domain::User, spec_resolve(store, syms, e.user_stackid))
    } else {
        Seq::empty()
    })
}

/// What one raw record emits: a record that fails to decode is dropped
/// and emits nothing; its failure never escapes the one record.
pub open spec fn spec_record_output(
    buf: Seq<u8>,
    layout: Layout,
    cpu: u32,
    comms: Map<u32, Seq<u8>>,
    store: Map<u32, Seq<u64>>,
    syms: Seq<(u64, Seq<char>)>,
    cfg: FilterConfig,
) -> Seq<Seq<char>> {
    match spec_decode(buf, layout) {
        Ok(e) => spec_event_output(cpu, e, comms, store, syms, cfg),
        Err(_) => Seq::empty(),
    }
}

/// What a batch emits: each record's output, in raw arrival order.
pub open spec fn spec_batch_output(
    bufs: Seq<Seq<u8>>,
    layout: Layout,
    cpu: u32,
    comms: Map<u32, Seq<u8>>,
    store: Map<u32, Seq<u64>>,
    syms: Seq<(u64, Seq<char>)>,
    cfg: FilterConfig,
) -> Seq<Seq<char>>
    decreases bufs.len(),
{
    if bufs.len() == 0 {
        Seq::empty()
    } else {
        spec_record_output(bufs[0], layout, cpu, comms, store, syms, cfg) + spec_batch_output(
            bufs.drop_first(),
            layout,
            cpu,
            comms,
            store,
            syms,
            cfg,
        )
    }
}

/// How many records of a batch fail to decode and are dropped.
pub open spec fn spec_dropped(bufs: Seq<Seq<u8>>, layout: Layout) -> nat
    decreases bufs.len(),
{
    if bufs.len() == 0 {
        0
    } else {
        (if spec_decode(bufs[0], layout) is Err {
            1nat
        } else {
            0nat
        }) + spec_dropped(bufs.drop_first(), layout)
    }
}

/// Per-CPU ordering: batches emit in arrival order.  Output for records
/// that arrived earlier stands, unchanged and in order, before output
/// for records that arrived later, however the work is cut into batches
/// and however other CPUs' consumers interleave with this one.
pub proof fn lemma_batch_output_ordered(
    earlier: Seq<Seq<u8>>,
    later: Seq<Seq<u8>>,
    layout: Layout,
    cpu: u32,
    comms: Map<u32, Seq<u8>>,
    store: Map<u32, Seq<u64>>,
    syms: Seq<(u64, Seq<char>)>,
    cfg: FilterConfig,
)
    ensures
        spec_batch_output(earlier + later, layout, cpu, comms, store, syms, cfg)
            == spec_batch_output(earlier, layout, cpu, comms, store, syms, cfg)
            + spec_batch_output(later, layout, cpu, comms, store, syms, cfg),
    decreases earlier.len(),
{
    if earlier.len() == 0 {
        assert(earlier + later =~= later);
        assert(Seq::<Seq<char>>::empty() + spec_batch_output(
            later,
            layout,
            cpu,
            comms,
            store,
            syms,
            cfg,
        ) =~= spec_batch_output(later, layout, cpu, comms, store, syms, cfg));
    } else {
        assert((earlier + later).drop_first() =~= earlier.drop_first() + later);
        lemma_batch_output_ordered(earlier.drop_first(), later, layout, cpu, comms, store, syms, cfg);
        assert(spec_record_output(earlier[0], layout, cpu, comms, store, syms, cfg)
            + (spec_batch_output(earlier.drop_first(), layout, cpu, comms, store, syms, cfg)
            + spec_batch_output(later, layout, cpu, comms, store, syms, cfg)) =~= (
        spec_record_output(earlier[0], layout, cpu, comms, store, syms, cfg) + spec_batch_output(
            earlier.drop_first(),
            layout,
            cpu,
            comms,
            store,
            syms,
            cfg,
        )) + spec_batch_output(later, layout, cpu, comms, store, syms, cfg));
    }
}

/// A pid the name table does not know renders as the empty name inside
/// an otherwise ordinary event line: the lookup cannot fail or stall an
/// event, only degrade its name.
pub proof fn lemma_absent_comm_renders_empty(comms: Map<u32, Seq<u8>>, cpu: u32, pid: u32)
    requires
        !comms.contains_key(pid),
    ensures
        spec_comm_of(comms, pid) == None::<Seq<u8>>,
        crate::sink::spec_comm_display(spec_comm_of(comms, pid)) == Seq::<char>::empty(),
        spec_event_line(cpu, pid, spec_comm_of(comms, pid)) == spec_event_line(cpu, pid, None),
{
}

/// Decode one record and emit everything it calls for.
///
/// A truncated record emits nothing and comes back as the error, for the
/// caller to log; processing of the surrounding batch continues.
pub fn process_record(
    sink: &mut EventSink,
    buf: &Vec<u8>,
    layout: Layout,
    cpu: u32,
    comms: &CommTable,
    store: &StackStore,
    syms: &SymbolTable,
    cfg: &FilterConfig,
) -> (r: Result<(), DecodeError>)
    requires
        comms.wf(),
        syms.wf(),
    ensures
        final (sink)@ == old(sink)@ + spec_record_output(
            buf@,
            layout,
            cpu,
            comms@,
            store@,
            syms@,
            *cfg,
        ),
        final (sink).spec_drained() == old(sink).spec_drained(),
        r == (match spec_decode(buf@, layout) {
            Ok(_) => Ok::<(), DecodeError>(()),
            Err(e) => Err::<(), DecodeError>(e),
        }),
{
    let e = match crate::codec::decode(buf.as_slice(), layout) {
        Ok(e) => e,
        Err(err) => {
            proof {
                assert(final (sink)@ =~= old(sink)@ + spec_record_output(
                    buf@,
                    layout,
                    cpu,
                    comms@,
                    store@,
                    syms@,
                    *cfg,
                ));
            }
            return Err(err);
        },
    };
    process_event(sink, cpu, &e, comms, store, syms, cfg);
    Ok(())
}

/// Emit everything one decoded event calls for: the event line, then,
/// with capture enabled, the kernel and user frame lines.
pub fn process_event(
    sink: &mut EventSink,
    cpu: u32,
    e: &event,
    comms: &CommTable,
    store: &StackStore,
    syms: &SymbolTable,
    cfg: &FilterConfig,
)
    requires
        comms.wf(),
        syms.wf(),
    ensures
        final (sink)@ == old(sink)@ + spec_event_output(cpu, *e, comms@, store@, syms@, *cfg),
        final (sink).spec_drained() == old(sink).spec_drained(),
{
    let comm = comms.lookup(e.pid);
    let line = crate::sink::render_event_line(cpu, e.pid, &comm);
    sink.emit(line);
    if cfg.capture_stack() {
        emit_stack(sink, store, syms, e.kernel_stackid, Domain::Kernel);
        emit_stack(sink, store, syms, e.user_stackid, Domain::User);
    }
    proof {
        assert(final (sink)@ =~= old(sink)@ + spec_event_output(
            cpu,
            *e,
            comms@,
            store@,
            syms@,
            *cfg,
        ));
    }
}

/// Resolve one stack id and emit its frame lines; an unresolved stack
/// emits nothing.
fn emit_stack(sink: &mut EventSink, store: &StackStore, syms: &SymbolTable, id: u32, domain: Domain)
    requires
        syms.wf(),
    ensures
        final (sink)@ == old(sink)@ + spec_stack_lines(domain, spec_resolve(store@, syms@, id)),
        final (sink).spec_drained() == old(sink).spec_drained(),
{
    let st = match resolve(store, syms, id, domain) {
        Some(st) => st,
        None => {
            proof {
                assert(final (sink)@ =~= old(sink)@ + spec_stack_lines(
                    domain,
                    spec_resolve(store@, syms@, id),
                ));
            }
            return ;
        },
    };
    let ghost frames_v = st@;
    let mut i: usize = 0;
    while i < st.frames.len()
        invariant
            st@ == frames_v,
            st.domain == domain,
            i <= st.frames@.len(),
            frames_v.len() == st.frames@.len(),
            sink.spec_drained() == old(sink).spec_drained(),
            sink@ == old(sink)@ + frames_v.take(i as int).map_values(
                |f: FrameV| spec_frame_line(domain, f),
            ),
        decreases st.frames@.len() - i,
    {
        let line = crate::sink::render_frame_line(domain, &st.frames[i]);
        sink.emit(line);
        proof {
            assert(frames_v[i as int] == st.frames@[i as int]@);
            assert(frames_v.take(i + 1).map_values(|f: FrameV| spec_frame_line(domain, f))
                =~= frames_v.take(i as int).map_values(|f: FrameV| spec_frame_line(domain, f)).push(
                spec_frame_line(domain, frames_v[i as int]),
            ));
            assert(sink@ =~= old(sink)@ + frames_v.take(i + 1).map_values(
                |f: FrameV| spec_frame_line(domain, f),
            ));
        }
        i = i + 1;
    }
    proof {
        assert(frames_v.take(frames_v.len() as int) =~= frames_v);
        assert(spec_stack_lines(domain, spec_resolve(store@, syms@, id)) =~= frames_v.map_values(
            |f: FrameV| spec_frame_line(domain, f),
        ));
    }
}

/// One CPU's consumer: its identity, configuration, lifecycle state and
/// private sink.  It shares nothing mutable with its siblings.
pub struct PerCpuConsumer {
    cpu_id: u32,
    layout: Layout,
    config: FilterConfig,
    state: ConsumerState,
    stop_reason: Option<StopReason>,
    sink: EventSink,
}

impl PerCpuConsumer {
    /// The CPU this consumer was bound to at spawn time.
    pub closed spec fn spec_cpu(&self) -> u32 {
        self.cpu_id
    }

    /// The record layout this consumer decodes with.
    pub closed spec fn spec_layout(&self) -> Layout {
        self.layout
    }

    /// The configuration this consumer was spawned with.
    pub closed spec fn spec_config(&self) -> FilterConfig {
        self.config
    }

    /// The lifecycle state.
    pub closed spec fn spec_state(&self) -> ConsumerState {
        self.state
    }

    /// Why the consumer stopped, once it has.
    pub closed spec fn spec_stop_reason(&self) -> Option<StopReason> {
        self.stop_reason
    }

    /// Everything emitted so far, in emission order.
    pub closed spec fn spec_lines(&self) -> Seq<Seq<char>> {
        self.sink@
    }

    /// The prefix of the emission history already handed out by
    /// [`PerCpuConsumer::drain_lines`].
    pub closed spec fn spec_drained_lines(&self) -> Seq<Seq<char>> {
        self.sink.spec_drained()
    }

    /// The emitted lines not yet handed out, in emission order.
    pub open spec fn spec_pending_lines(&self) -> Seq<Seq<char>> {
        self.spec_lines().skip(self.spec_drained_lines().len() as int)
    }

    /// A stop reason is recorded exactly in the terminal state.
    pub open spec fn wf(&self) -> bool {
        self.spec_stop_reason() is Some <==> self.spec_state() == ConsumerState::Stopped
    }

    /// Bind a fresh consumer to one CPU, before anything runs.
    pub fn new(cpu_id: u32, layout: Layout, config: FilterConfig) -> (r: PerCpuConsumer)
        ensures
            r.wf(),
            r.spec_cpu() == cpu_id,
            r.spec_layout() == layout,
            r.spec_config() == config,
            r.spec_state() == ConsumerState::Idle,
            r.spec_lines() == Seq::<Seq<char>>::empty(),
            r.spec_drained_lines() == Seq::<Seq<char>>::empty(),
    {
        PerCpuConsumer {
            cpu_id,
            layout,
            config,
            state: ConsumerState::Idle,
            stop_reason: None,
            sink: EventSink::new(),
        }
    }

    /// The CPU this consumer was bound to.
    pub fn cpu_id(&self) -> (r: u32)
        ensures
            r == self.spec_cpu(),
    {
        self.cpu_id
    }

    /// The lifecycle state.
    pub fn state(&self) -> (r: ConsumerState)
        ensures
            r == self.spec_state(),
    {
        self.state
    }

    /// Why the consumer stopped, once it has.
    pub fn stop_reason(&self) -> (r: Option<StopReason>)
        ensures
            r == self.spec_stop_reason(),
    {
        self.stop_reason
    }

    /// The emitted lines not yet drained, in emission order.
    pub fn lines(&self) -> (r: &Vec<String>)
        ensures
            r@.map_values(|l: String| l@) == self.spec_pending_lines(),
    {
        self.sink.pending()
    }

    /// Take the lines emitted since the last drain, in emission order.
    /// The emission history the contracts speak of is unchanged; only
    /// the not-yet-drained tail is handed out, so a long run need not
    /// hold every line ever emitted.
    pub fn drain_lines(&mut self) -> (r: Vec<String>)
        ensures
            final (self).spec_lines() == old(self).spec_lines(),
            final (self).spec_pending_lines() == Seq::<Seq<char>>::empty(),
            r@.map_values(|l: String| l@) == old(self).spec_pending_lines(),
            final (self).spec_state() == old(self).spec_state(),
            final (self).spec_stop_reason() == old(self).spec_stop_reason(),
            final (self).spec_cpu() == old(self).spec_cpu(),
            final (self).spec_layout() == old(self).spec_layout(),
            final (self).spec_config() == old(self).spec_config(),
    {
        self.sink.drain()
    }

    /// Go to sleep on the channel: the only suspension point.
    pub fn start_wait(&mut self)
        requires
            old(self).wf(),
            old(self).spec_state() == ConsumerState::Idle,
        ensures
            final (self).wf(),
            final (self).spec_state() == ConsumerState::Waiting,
            final (self).spec_cpu() == old(self).spec_cpu(),
            final (self).spec_layout() == old(self).spec_layout(),
            final (self).spec_config() == old(self).spec_config(),
            final (self).spec_stop_reason() == old(self).spec_stop_reason(),
            final (self).spec_lines() == old(self).spec_lines(),
            final (self).spec_drained_lines() == old(self).spec_drained_lines(),
    {
        self.state = ConsumerState::Waiting;
    }

    /// Drain one batch the channel woke us with: decode, correlate,
    /// resolve and emit every record in arrival order, then go back to
    /// idle.  Truncated records are dropped and counted, never fatal.
    pub fn accept_batch(
        &mut self,
        bufs: &Vec<Vec<u8>>,
        comms: &CommTable,
        store: &StackStore,
        syms: &SymbolTable,
    ) -> (dropped: usize)
        requires
            old(self).wf(),
            old(self).spec_state() == ConsumerState::Waiting,
            bufs@.len() <= BATCH_MAX,
            comms.wf(),
            syms.wf(),
        ensures
            final (self).wf(),
            final (self).spec_state() == ConsumerState::Idle,
            final (self).spec_cpu() == old(self).spec_cpu(),
            final (self).spec_layout() == old(self).spec_layout(),
            final (self).spec_config() == old(self).spec_config(),
            final (self).spec_stop_reason() == old(self).spec_stop_reason(),
            final (self).spec_lines() == old(self).spec_lines() + spec_batch_output(
                bufs@.map_values(|b: Vec<u8>| b@),
                old(self).spec_layout(),
                old(self).spec_cpu(),
                comms@,
                store@,
                syms@,
                old(self).spec_config(),
            ),
            dropped == spec_dropped(bufs@.map_values(|b: Vec<u8>| b@), old(self).spec_layout()),
            final (self).spec_drained_lines() == old(self).spec_drained_lines(),
    {
        self.state = ConsumerState::Draining;
        let ghost raw = bufs@.map_values(|b: Vec<u8>| b@);
        let mut dropped: usize = 0;
        let mut i: usize = 0;
        while i < bufs.len()
            invariant
                comms.wf(),
                syms.wf(),
                self.wf(),
                self.state == ConsumerState::Draining,
                self.cpu_id == old(self).cpu_id,
                self.layout == old(self).layout,
                self.config == old(self).config,
                self.stop_reason == old(self).stop_reason,
                i <= bufs@.len(),
                dropped <= i,
                raw == bufs@.map_values(|b: Vec<u8>| b@),
                raw.len() == bufs@.len(),
                self.sink.spec_drained() == old(self).sink.spec_drained(),
                self.sink@ == old(self).sink@ + spec_batch_output(
                    raw.take(i as int),
                    old(self).layout,
                    old(self).cpu_id,
                    comms@,
                    store@,
                    syms@,
                    old(self).config,
                ),
                dropped == spec_dropped(raw.take(i as int), old(self).layout),
            decreases bufs@.len() - i,
        {
            let r = process_record(
                &mut self.sink,
                &bufs[i],
                self.layout,
                self.cpu_id,
                comms,
                store,
                syms,
                &self.config,
            );
            if r.is_err() {
                dropped = dropped + 1;
            }
            proof {
                lemma_batch_take_one_more(
                    raw,
                    i as int,
                    old(self).layout,
                    old(self).cpu_id,
                    comms@,
                    store@,
                    syms@,
                    old(self).config,
                );
                assert(self.sink@ =~= old(self).sink@ + spec_batch_output(
                    raw.take(i + 1),
                    old(self).layout,
                    old(self).cpu_id,
                    comms@,
                    store@,
                    syms@,
                    old(self).config,
                ));
            }
            i = i + 1;
        }
        proof {
            assert(raw.take(raw.len() as int) =~= raw);
        }
        self.state = ConsumerState::Idle;
        dropped
    }

    /// Observe the process-wide shutdown signal between batches: an
    /// orderly exit that drops nothing already emitted.
    pub fn observe_shutdown(&mut self)
        requires
            old(self).wf(),
            old(self).spec_state() == ConsumerState::Idle || old(self).spec_state()
                == ConsumerState::Waiting,
        ensures
            final (self).wf(),
            final (self).spec_state() == ConsumerState::Stopped,
            final (self).spec_stop_reason() == Some(StopReason::Shutdown),
            final (self).spec_cpu() == old(self).spec_cpu(),
            final (self).spec_layout() == old(self).spec_layout(),
            final (self).spec_config() == old(self).spec_config(),
            final (self).spec_lines() == old(self).spec_lines(),
            final (self).spec_drained_lines() == old(self).spec_drained_lines(),
    {
        self.state = ConsumerState::Stopped;
        self.stop_reason = Some(StopReason::Shutdown);
    }

    /// The channel closed under us: fatal to this consumer alone.
    /// Nothing already emitted is lost, and no sibling is touched.
    pub fn observe_channel_closed(&mut self)
        requires
            old(self).wf(),
            old(self).spec_state() == ConsumerState::Waiting,
        ensures
            final (self).wf(),
            final (self).spec_state() == ConsumerState::Stopped,
            final (self).spec_stop_reason() == Some(StopReason::ChannelClosed),
            final (self).spec_cpu() == old(self).spec_cpu(),
            final (self).spec_layout() == old(self).spec_layout(),
            final (self).spec_config() == old(self).spec_config(),
            final (self).spec_lines() == old(self).spec_lines(),
            final (self).spec_drained_lines() == old(self).spec_drained_lines(),
    {
        self.state = ConsumerState::Stopped;
        self.stop_reason = Some(StopReason::ChannelClosed);
    }

    /// The transport reported a protocol error: fatal to this consumer
    /// alone.  Nothing already emitted is lost, and no sibling is
    /// touched.
    pub fn observe_transport_error(&mut self)
        requires
            old(self).wf(),
            old(self).spec_state() == ConsumerState::Waiting,
        ensures
            final (self).wf(),
            final (self).spec_state() == ConsumerState::Stopped,
            final (self).spec_stop_reason() == Some(StopReason::TransportError),
            final (self).spec_cpu() == old(self).spec_cpu(),
            final (self).spec_layout() == old(self).spec_layout(),
            final (self).spec_config() == old(self).spec_config(),
            final (self).spec_lines() == old(self).spec_lines(),
            final (self).spec_drained_lines() == old(self).spec_drained_lines(),
    {
        self.state = ConsumerState::Stopped;
        self.stop_reason = Some(StopReason::TransportError);
    }
}

/// Taking one more record extends a batch's output by that record's
/// output, and its dropped count by that record's failure.
proof fn lemma_batch_take_one_more(
    bufs: Seq<Seq<u8>>,
    i: int,
    layout: Layout,
    cpu: u32,
    comms: Map<u32, Seq<u8>>,
    store: Map<u32, Seq<u64>>,
    syms: Seq<(u64, Seq<char>)>,
    cfg: FilterConfig,
)
    requires
        0 <= i < bufs.len(),
    ensures
        spec_batch_output(bufs.take(i + 1), layout, cpu, comms, store, syms, cfg)
            == spec_batch_output(bufs.take(i), layout, cpu, comms, store, syms, cfg)
            + spec_record_output(bufs[i], layout, cpu, comms, store, syms, cfg),
        spec_dropped(bufs.take(i + 1), layout) == spec_dropped(bufs.take(i), layout) + (
        if spec_decode(bufs[i], layout) is Err {
            1nat
        } else {
            0nat
        }),
{
    assert(bufs.take(i + 1) =~= bufs.take(i).push(bufs[i]));
    lemma_batch_output_push(bufs.take(i), bufs[i], layout, cpu, comms, store, syms, cfg);
}

/// Appending one record to a batch appends its output, and adds its
/// failure to the dropped count.
proof fn lemma_batch_output_push(
    bufs: Seq<Seq<u8>>,
    buf: Seq<u8>,
    layout: Layout,
    cpu: u32,
    comms: Map<u32, Seq<u8>>,
    store: Map<u32, Seq<u64>>,
    syms: Seq<(u64, Seq<char>)>,
    cfg: FilterConfig,
)
    ensures
        spec_batch_output(bufs.push(buf), layout, cpu, comms, store, syms, cfg)
            == spec_batch_output(bufs, layout, cpu, comms, store, syms, cfg) + spec_record_output(
            buf,
            layout,
            cpu,
            comms,
            store,
            syms,
            cfg,
        ),
        spec_dropped(bufs.push(buf), layout) == spec_dropped(bufs, layout) + (
        if spec_decode(buf, layout) is Err {
            1nat
        } else {
            0nat
        }),
    decreases bufs.len(),
{
    if bufs.len() == 0 {
        assert(bufs.push(buf)[0] == buf);
        assert(bufs.push(buf).drop_first() =~= bufs);
        assert(spec_batch_output(bufs, layout, cpu, comms, store, syms, cfg)
            == Seq::<Seq<char>>::empty());
        assert(spec_dropped(bufs, layout) == 0);
        assert(spec_batch_output(bufs.push(buf), layout, cpu, comms, store, syms, cfg)
            =~= spec_batch_output(bufs, layout, cpu, comms, store, syms, cfg) + spec_record_output(
            buf,
            layout,
            cpu,
            comms,
            store,
            syms,
            cfg,
        ));
    } else {
        assert(bufs.push(buf)[0] == bufs[0]);
        assert(bufs.push(buf).drop_first() =~= bufs.drop_first().push(buf));
        lemma_batch_output_push(bufs.drop_first(), buf, layout, cpu, comms, store, syms, cfg);
        assert(spec_record_output(bufs[0], layout, cpu, comms, store, syms, cfg)
            + (spec_batch_output(bufs.drop_first(), layout, cpu, comms, store, syms, cfg)
            + spec_record_output(buf, layout, cpu, comms, store, syms, cfg)) =~= (
        spec_record_output(bufs[0], layout, cpu, comms, store, syms, cfg) + spec_batch_output(
            bufs.drop_first(),
            layout,
            cpu,
            comms,
            store,
            syms,
            cfg,
        )) + spec_record_output(buf, layout, cpu, comms, store, syms, cfg));
    }
}

} // verus!
