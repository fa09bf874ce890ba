//! The command-execution context.
//!
//! All graphics work is funneled through one context: producers enqueue
//! commands (`exec`, `swap_buffers`) and the consumer — the dedicated thread
//! of the running system — applies them to the graphics server strictly in
//! submission order.  One call of [`Context::run_frame`] is one iteration of
//! the consumer's loop: apply commands up to the first "end frame" marker,
//! swap buffers, forward the window's events, and advance the frame deadline
//! by a fixed period (never "now plus period", so delays do not accumulate).
//!
//! The context is an explicit state machine.  It is `Running` while
//! producers hold the channel, `Draining` once the last producer is gone,
//! and `Stopped` either after the drain or when a command kills the
//! consumer.

use vstd::prelude::*;

use crate::gpu::CmdResult;
use crate::gpu::GlCmd;
use crate::gpu::GpuModel;
use crate::gpu::spec_cmd_allocates;
use crate::gpu::spec_cmd_async_ok;
use crate::gpu::spec_has_object;
use crate::gpu::spec_object_of;

verus! {

/// The fixed frame period: about sixty frames a second.
pub const FRAME_PERIOD_NS: u64 = 16_666_667;

/// An input or window event, as forwarded from the windowing collaborator.
#[derive(Clone, Copy, PartialEq, Eq, Structural, Debug)]
pub enum Event {
    /// The window was closed.
    Closed,
    /// The window was resized to the given width and height.
    Resized(u32, u32),
    /// A key was pressed, by scan code.
    KeyPressed(u32),
    /// The pointer moved to the given coordinates.
    MouseMoved(i32, i32),
}

/// A message on the command channel.
pub enum Message {
    /// The frame-end marker: everything enqueued before it is applied before
    /// the buffer swap it announces.
    EndFrame,
    /// A command to run against the graphics server.
    Execute {
        /// The ticket under which the command's result is filed.
        ticket: u64,
        /// The command itself.
        cmd: GlCmd,
    },
}

/// One entry of the execution trace: what a message leaves behind once the
/// consumer has taken it.
#[derive(Clone, Copy, PartialEq, Eq, Structural, Debug)]
pub enum TraceEntry {
    /// A frame-end marker was consumed (a buffer swap).
    EndFrame,
    /// The command filed under this ticket was applied.
    Executed {
        /// The ticket of the applied command.
        ticket: u64,
    },
}

/// The trace entry a message leaves behind.
pub open spec fn spec_msg_entry(m: Message) -> TraceEntry {
    match m {
        Message::EndFrame => TraceEntry::EndFrame,
        Message::Execute { ticket, .. } => TraceEntry::Executed { ticket },
    }
}

/// The ticket of a message, if it carries one.
pub open spec fn spec_msg_ticket(m: Message) -> Option<u64> {
    match m {
        Message::EndFrame => None,
        Message::Execute { ticket, .. } => Some(ticket),
    }
}

/// The life cycle of the consumer.
#[derive(Clone, Copy, PartialEq, Eq, Structural, Debug)]
pub enum LoopState {
    /// Producers hold the channel; the consumer serves them.
    Running,
    /// The last producer is gone; the consumer applies what is left.
    Draining,
    /// The consumer has ended: cleanly after a drain, or killed by a
    /// command (see [`Context::failure`]).
    Stopped,
}

/// What one consumer-loop iteration did.
#[derive(Clone, Copy, PartialEq, Eq, Structural, Debug)]
pub enum FrameOutcome {
    /// A frame-end marker was reached and the buffers were swapped.
    Swapped,
    /// The queue ran dry before a frame-end marker; the consumer would now
    /// block for more commands.
    Blocked,
    /// The consumer has ended.
    Stopped,
}

/// The index of the first frame-end marker in `msgs`, or `msgs.len()` if
/// there is none.
pub open spec fn spec_first_end(msgs: Seq<Message>) -> int
    decreases msgs.len(),
{
    if msgs.len() == 0 {
        0
    } else if msgs[0] is EndFrame {
        0
    } else {
        1 + spec_first_end(msgs.drop_first())
    }
}

/// Whether `msgs` holds a frame-end marker.
pub open spec fn spec_has_end(msgs: Seq<Message>) -> bool {
    spec_first_end(msgs) < msgs.len()
}

/// `spec_first_end` is at most the length, everything before it is no
/// marker, and the message there (if within range) is one.
pub proof fn lemma_first_end_props(msgs: Seq<Message>)
    ensures
        0 <= spec_first_end(msgs) <= msgs.len(),
        forall|i: int| 0 <= i < spec_first_end(msgs) ==> !((#[trigger] msgs[i]) is EndFrame),
        spec_first_end(msgs) < msgs.len() ==> msgs[spec_first_end(msgs)] is EndFrame,
    decreases msgs.len(),
{
    if msgs.len() > 0 && !(msgs[0] is EndFrame) {
        lemma_first_end_props(msgs.drop_first());
        assert forall|i: int| 0 <= i < spec_first_end(msgs) implies !((#[trigger] msgs[i])
            is EndFrame) by {
            if i > 0 {
                assert(msgs.drop_first()[i - 1] == msgs[i]);
            }
        }
        if spec_first_end(msgs) < msgs.len() {
            assert(msgs.drop_first()[spec_first_end(msgs) - 1] == msgs[spec_first_end(msgs)]);
        }
    }
}

/// Whether every queued command is fire-and-forget: one that neither fails,
/// nor allocates, nor carries a result anyone waits for.  The library only
/// ever leaves such commands in the queue.
pub open spec fn spec_pending_async_ok(msgs: Seq<Message>) -> bool {
    forall|i: int|
        0 <= i < msgs.len() ==> ((#[trigger] msgs[i]) matches Message::Execute { cmd, .. }
            ==> spec_cmd_async_ok(cmd))
}

/// Whether a command deletes the object with the given name.
pub open spec fn spec_cmd_deletes(cmd: GlCmd, id: u32) -> bool {
    match cmd {
        GlCmd::DeleteBuffer { id: d } => d == id,
        GlCmd::DeleteTexture { id: d } => d == id,
        GlCmd::DeleteShader { id: d } => d == id,
        GlCmd::DeleteFramebuffer { id: d } => d == id,
        GlCmd::DeleteRenderbuffer { id: d } => d == id,
        _ => false,
    }
}

/// Whether some queued command deletes the object with the given name.
pub open spec fn spec_pending_deletes(msgs: Seq<Message>, id: u32) -> bool {
    exists|i: int|
        0 <= i < msgs.len() && ((#[trigger] msgs[i]) matches Message::Execute { cmd, .. }
            && spec_cmd_deletes(cmd, id))
}

/// The command-execution context: the command queue, the execution trace,
/// the event queue, the graphics server, and the consumer's state.
pub struct Context {
    /// Commands submitted and not yet applied, in submission order.
    pub pending: Vec<Message>,
    /// The trace of everything already applied, in application order.
    pub executed: Vec<TraceEntry>,
    /// The results of applied queued commands, filed by ticket.
    pub results: Vec<(u64, CmdResult)>,
    /// The next ticket to hand out.
    pub next_ticket: u64,
    /// Window events received and not yet drained by `recv`.
    pub events: Vec<Event>,
    /// The graphics server.
    pub gpu: GpuModel,
    /// The consumer's state.
    pub state: LoopState,
    /// The diagnostic of the command that killed the consumer, if one did.
    pub failure: Option<String>,
    /// When the next frame is scheduled, in nanoseconds.
    pub next_frame_ns: u64,
}

impl Context {
    /// The full submission history: the trace of what was applied followed
    /// by what is still queued.
    pub open spec fn history(self) -> Seq<TraceEntry> {
        self.executed@ + self.pending@.map_values(|m: Message| spec_msg_entry(m))
    }

    /// Whether the history entry at `k` has been applied.
    pub open spec fn spec_is_executed(self, k: int) -> bool {
        k < self.executed@.len()
    }

    /// Tickets are handed out in submission order and never reused: every
    /// ticket in the queue, the trace or the results is below the counter;
    /// queued tickets increase front to back; executed tickets increase
    /// along the trace; and everything executed carries a smaller ticket
    /// than everything still queued.
    pub open spec fn wf(self) -> bool {
        &&& self.gpu.wf()
        &&& forall|i: int|
            0 <= i < self.pending@.len() ==> ((#[trigger] self.pending@[i])
                matches Message::Execute { ticket, .. } ==> ticket < self.next_ticket)
        &&& forall|i: int|
            0 <= i < self.executed@.len() ==> ((#[trigger] self.executed@[i])
                matches TraceEntry::Executed { ticket } ==> ticket < self.next_ticket)
        &&& forall|i: int|
            0 <= i < self.results@.len() ==> (#[trigger] self.results@[i]).0 < self.next_ticket
        &&& forall|i: int, j: int|
            0 <= i < j < self.pending@.len() ==> ((#[trigger] self.pending@[i])
                matches Message::Execute { ticket: ti, .. } ==> ((#[trigger] self.pending@[j])
                matches Message::Execute { ticket: tj, .. } ==> ti < tj))
        &&& forall|i: int, j: int|
            0 <= i < j < self.executed@.len() ==> ((#[trigger] self.executed@[i])
                matches TraceEntry::Executed { ticket: ti } ==> ((#[trigger] self.executed@[j])
                matches TraceEntry::Executed { ticket: tj } ==> ti < tj))
        &&& forall|i: int, j: int|
            0 <= i < self.executed@.len() && 0 <= j < self.pending@.len() ==> ((
            #[trigger] self.executed@[i]) matches TraceEntry::Executed { ticket: ti } ==> ((
            #[trigger] self.pending@[j]) matches Message::Execute { ticket: tj, .. } ==> ti < tj))
        &&& forall|i: int, j: int|
            0 <= i < j < self.results@.len() ==> (#[trigger] self.results@[i]).0 != (
            #[trigger] self.results@[j]).0
        &&& forall|i: int, j: int|
            0 <= i < self.pending@.len() && 0 <= j < self.results@.len() ==> spec_msg_ticket(
                #[trigger] self.pending@[i],
            ) != Some((#[trigger] self.results@[j]).0)
    }

    /// A fresh context: queues empty, server fresh, consumer running, first
    /// frame scheduled at `start_ns`.
    pub fn new(start_ns: u64) -> (r: Context)
        ensures
            r.wf(),
            r.pending@ == Seq::<Message>::empty(),
            r.executed@ == Seq::<TraceEntry>::empty(),
            r.results@ == Seq::<(u64, CmdResult)>::empty(),
            r.next_ticket == 0,
            r.events@ == Seq::<Event>::empty(),
            r.gpu.next_id == 1,
            r.gpu.objects@ == Seq::<crate::gpu::GpuObject>::empty(),
            r.gpu.viewport is None,
            r.gpu.current_draws@.len() == 0,
            r.gpu.current_clears == 0,
            r.gpu.frames@ == Seq::<crate::gpu::FrameRecord>::empty(),
            r.state is Running,
            r.failure is None,
            r.next_frame_ns == start_ns,
    {
        Context {
            pending: Vec::new(),
            executed: Vec::new(),
            results: Vec::new(),
            next_ticket: 0,
            events: Vec::new(),
            gpu: GpuModel::new(),
            state: LoopState::Running,
            failure: None,
            next_frame_ns: start_ns,
        }
    }

    /// Enqueues a command to run on the consumer, returning the ticket its
    /// result will be filed under.  The command runs after everything
    /// already queued — never before — and its result can be read with
    /// [`Context::get_result`] once a frame run has applied it.
    pub fn exec(&mut self, cmd: GlCmd) -> (t: u64)
        requires
            old(self).wf(),
            old(self).next_ticket < u64::MAX,
        ensures
            final(self).wf(),
            t == old(self).next_ticket,
            final(self).next_ticket == old(self).next_ticket + 1,
            final(self).pending@ == old(self).pending@.push(Message::Execute { ticket: t, cmd }),
            final(self).executed == old(self).executed,
            final(self).results == old(self).results,
            final(self).events == old(self).events,
            final(self).gpu == old(self).gpu,
            final(self).state == old(self).state,
            final(self).failure == old(self).failure,
            final(self).next_frame_ns == old(self).next_frame_ns,
    {
        let t = self.next_ticket;
        self.next_ticket = t + 1;
        self.pending.push(Message::Execute { ticket: t, cmd });
        t
    }

    /// Enqueues the frame-end marker and returns at once: the buffer swap is
    /// a fire-and-forget signal.
    pub fn swap_buffers(&mut self)
        requires
            old(self).wf(),
        ensures
            final(self).wf(),
            final(self).pending@ == old(self).pending@.push(Message::EndFrame),
            final(self).executed == old(self).executed,
            final(self).results == old(self).results,
            final(self).next_ticket == old(self).next_ticket,
            final(self).events == old(self).events,
            final(self).gpu == old(self).gpu,
            final(self).state == old(self).state,
            final(self).failure == old(self).failure,
            final(self).next_frame_ns == old(self).next_frame_ns,
    {
        self.pending.push(Message::EndFrame);
    }

    /// Drains every buffered event without blocking, oldest first.  A second
    /// call with no events received in between returns an empty list: the
    /// drain leaves the buffer empty and never duplicates.
    pub fn recv(&mut self) -> (r: Vec<Event>)
        requires
            old(self).wf(),
        ensures
            final(self).wf(),
            r@ == old(self).events@,
            final(self).events@ == Seq::<Event>::empty(),
            final(self).pending == old(self).pending,
            final(self).executed == old(self).executed,
            final(self).results == old(self).results,
            final(self).next_ticket == old(self).next_ticket,
            final(self).gpu == old(self).gpu,
            final(self).state == old(self).state,
            final(self).failure == old(self).failure,
            final(self).next_frame_ns == old(self).next_frame_ns,
    {
        let mut drained: Vec<Event> = Vec::new();
        core::mem::swap(&mut drained, &mut self.events);
        drained
    }

    /// Marks the last producer gone: a running consumer starts draining
    /// what is left and then stops.
    pub fn close(&mut self)
        requires
            old(self).wf(),
        ensures
            final(self).wf(),
            final(self).state == if old(self).state is Running {
                LoopState::Draining
            } else {
                old(self).state
            },
            final(self).pending == old(self).pending,
            final(self).executed == old(self).executed,
            final(self).results == old(self).results,
            final(self).next_ticket == old(self).next_ticket,
            final(self).events == old(self).events,
            final(self).gpu == old(self).gpu,
            final(self).failure == old(self).failure,
            final(self).next_frame_ns == old(self).next_frame_ns,
    {
        if matches!(self.state, LoopState::Running) {
            self.state = LoopState::Draining;
        }
    }

    /// How long the consumer sleeps before the next frame: the time left
    /// until the schedule, or nothing when the schedule has passed.
    pub fn sleep_duration_ns(&self, now_ns: u64) -> (r: u64)
        ensures
            r == if self.next_frame_ns > now_ns {
                self.next_frame_ns - now_ns
            } else {
                0int
            },
    {
        frame_sleep_ns(self.next_frame_ns, now_ns)
    }
}

/// How long the consumer sleeps before a frame scheduled at
/// `next_frame_ns`: the time left until the schedule, or nothing once the
/// schedule has passed.
pub fn frame_sleep_ns(next_frame_ns: u64, now_ns: u64) -> (r: u64)
    ensures
        r == if next_frame_ns > now_ns {
            next_frame_ns - now_ns
        } else {
            0int
        },
{
    if next_frame_ns > now_ns {
        next_frame_ns - now_ns
    } else {
        0
    }
}

/// The schedule after a frame: exactly one period after the previous
/// schedule — never "now plus period", so delays do not accumulate.
pub fn next_deadline_ns(next_frame_ns: u64) -> (r: u64)
    requires
        next_frame_ns + FRAME_PERIOD_NS <= u64::MAX,
    ensures
        r == next_frame_ns + FRAME_PERIOD_NS,
{
    next_frame_ns + FRAME_PERIOD_NS
}

/// The index of the result filed under ticket `t`, or -1 if there is none.
pub open spec fn spec_result_index(results: Seq<(u64, CmdResult)>, t: u64) -> int
    decreases results.len(),
{
    if results.len() == 0 {
        -1
    } else if results[0].0 == t {
        0
    } else {
        let r = spec_result_index(results.drop_first(), t);
        if r == -1 {
            -1
        } else {
            r + 1
        }
    }
}

/// The index returned by `spec_result_index` is a valid index of a matching
/// result, and -1 exactly when no result matches.
pub proof fn lemma_result_index_props(results: Seq<(u64, CmdResult)>, t: u64)
    ensures
        spec_result_index(results, t) >= 0 ==> spec_result_index(results, t) < results.len()
            && results[spec_result_index(results, t)].0 == t,
        spec_result_index(results, t) == -1 ==> forall|k: int|
            0 <= k < results.len() ==> (#[trigger] results[k]).0 != t,
        spec_result_index(results, t) >= -1,
    decreases results.len(),
{
    if results.len() > 0 {
        lemma_result_index_props(results.drop_first(), t);
        if spec_result_index(results, t) == -1 {
            assert forall|k: int| 0 <= k < results.len() implies (#[trigger] results[k]).0
                != t by {
                if k > 0 {
                    assert(results.drop_first()[k - 1] == results[k]);
                }
            }
        }
    }
}

impl Context {
    /// Reads the result filed under a ticket, if its command has been
    /// applied.  This is the polling half of the future that `exec` returns.
    pub fn get_result(&self, t: u64) -> (r: Option<&CmdResult>)
        ensures
            spec_result_index(self.results@, t) >= 0 ==> (r matches Some(res) && *res
                == self.results@[spec_result_index(self.results@, t)].1),
            spec_result_index(self.results@, t) == -1 ==> r is None,
    {
        let n = self.results.len();
        let mut i: usize = 0;
        while i < n
            invariant
                n == self.results@.len(),
                i <= n,
                forall|k: int| 0 <= k < i ==> (#[trigger] self.results@[k]).0 != t,
            decreases n - i,
        {
            if self.results[i].0 == t {
                proof {
                    lemma_result_index_skip(self.results@, t, i as int);
                    assert(self.results@.skip(i as int)[0] == self.results@[i as int]);
                }
                return Some(&self.results[i].1);
            }
            i = i + 1;
        }
        proof {
            lemma_result_index_skip(self.results@, t, n as int);
            assert(self.results@.skip(n as int).len() == 0);
        }
        None
    }
}

/// If the first `m` results are not filed under `t`, the index of `t` in the
/// whole list is its index in the rest, shifted by `m`.
proof fn lemma_result_index_skip(results: Seq<(u64, CmdResult)>, t: u64, m: int)
    requires
        0 <= m <= results.len(),
        forall|k: int| 0 <= k < m ==> (#[trigger] results[k]).0 != t,
    ensures
        spec_result_index(results, t) == if spec_result_index(results.skip(m), t) == -1 {
            -1
        } else {
            spec_result_index(results.skip(m), t) + m
        },
    decreases m,
{
    if m > 0 {
        assert(results[0].0 != t);
        assert forall|k: int| 0 <= k < m - 1 implies (#[trigger] results.drop_first()[k]).0
            != t by {
            assert(results.drop_first()[k] == results[k + 1]);
        }
        lemma_result_index_skip(results.drop_first(), t, m - 1);
        assert(results.drop_first().skip(m - 1) =~= results.skip(m));
        lemma_result_index_props(results.skip(m), t);
        let r = spec_result_index(results.drop_first(), t);
        assert(spec_result_index(results, t) == if r == -1 {
            -1int
        } else {
            r + 1
        });
    } else {
        assert(results.skip(0) =~= results);
    }
}

/// Commands are taken in submission order and only ever from the front:
/// what is executed is always exactly a prefix of the submission history,
/// so a command enqueued earlier is never applied after one enqueued later.
pub proof fn lemma_fifo_order(c: Context)
    ensures
        c.executed@ == c.history().take(c.executed@.len() as int),
        forall|i: int, j: int|
            0 <= i < j < c.history().len() && c.spec_is_executed(j) ==> c.spec_is_executed(i),
        forall|i: int| 0 <= i < c.executed@.len() ==> c.executed@[i] == c.history()[i],
{
    assert(c.executed@ =~= c.history().take(c.executed@.len() as int));
}

/// Per-producer FIFO over tickets: tickets are handed out in submission
/// order, so two commands of one producer carry increasing tickets; the
/// executed trace applies commands in strictly increasing ticket order;
/// and a command still queued never ran before anything already executed.
pub proof fn lemma_fifo_tickets(c: Context, i: int, j: int)
    requires
        c.wf(),
        0 <= i < j < c.executed@.len(),
    ensures
        c.executed@[i] matches TraceEntry::Executed { ticket: ti } ==> (c.executed@[j]
            matches TraceEntry::Executed { ticket: tj } ==> ti < tj),
{
}

/// A fire-and-forget command preserves every object it does not delete,
/// with its value, and brings none into being or back.
proof fn lemma_async_cmd_preserves(
    pre: GpuModel,
    cmd: GlCmd,
    post: GpuModel,
    r: CmdResult,
    oid: u32,
)
    requires
        pre.wf(),
        spec_cmd_async_ok(cmd),
        crate::gpu::spec_cmd_post(pre, cmd, post, r),
    ensures
        !spec_cmd_deletes(cmd, oid) && spec_has_object(pre.objects@, oid) ==> spec_has_object(
            post.objects@,
            oid,
        ) && spec_object_of(post.objects@, oid) == spec_object_of(pre.objects@, oid),
        spec_has_object(post.objects@, oid) ==> spec_has_object(pre.objects@, oid),
{
    match cmd {
        GlCmd::DeleteBuffer { id } => {
            crate::gpu::lemma_delete_preserves(pre.objects@, pre.next_id, id, post.objects@, oid);
        },
        GlCmd::DeleteTexture { id } => {
            crate::gpu::lemma_delete_preserves(pre.objects@, pre.next_id, id, post.objects@, oid);
        },
        GlCmd::DeleteShader { id } => {
            crate::gpu::lemma_delete_preserves(pre.objects@, pre.next_id, id, post.objects@, oid);
        },
        GlCmd::DeleteFramebuffer { id } => {
            crate::gpu::lemma_delete_preserves(pre.objects@, pre.next_id, id, post.objects@, oid);
        },
        GlCmd::DeleteRenderbuffer { id } => {
            crate::gpu::lemma_delete_preserves(pre.objects@, pre.next_id, id, post.objects@, oid);
        },
        _ => {},
    }
}

/// What one consumed message did.
#[derive(Clone, Copy, PartialEq, Eq, Structural, Debug)]
pub enum StepOutcome {
    /// A command was applied and the consumer goes on.
    Ran,
    /// The frame-end marker was consumed: the buffers were swapped.
    Swapped,
    /// The command killed the consumer.
    Died,
}

/// Returns whether a command allocates a fresh object name.
fn cmd_allocates(cmd: &GlCmd) -> (r: bool)
    ensures
        r == spec_cmd_allocates(*cmd),
{
    match cmd {
        GlCmd::GenBuffer { .. } => true,
        GlCmd::GenTexture { .. } => true,
        GlCmd::CompileShader { .. } => true,
        GlCmd::LinkProgram { .. } => true,
        GlCmd::GenFramebuffer => true,
        GlCmd::GenRenderbuffer => true,
        _ => false,
    }
}

impl Context {
    /// Consumes the front message of the queue: applies its command to the
    /// server, or swaps buffers at a frame-end marker.  This is the one
    /// place where the consumer touches the graphics server.
    fn step(&mut self) -> (r: StepOutcome)
        requires
            old(self).wf(),
            !(old(self).state is Stopped),
            old(self).pending@.len() > 0,
        ensures
            final(self).wf(),
            final(self).executed@ == old(self).executed@.push(
                spec_msg_entry(old(self).pending@[0]),
            ),
            final(self).pending@ == old(self).pending@.drop_first(),
            final(self).events == old(self).events,
            final(self).next_ticket == old(self).next_ticket,
            final(self).next_frame_ns == old(self).next_frame_ns,
            final(self).gpu.viewport == old(self).gpu.viewport,
            (r is Swapped) <==> old(self).pending@[0] is EndFrame,
            old(self).pending@[0] is EndFrame ==> {
                &&& final(self).gpu.frames@ == old(self).gpu.frames@.push(
                    crate::gpu::FrameRecord {
                        draws: old(self).gpu.current_draws,
                        clears: old(self).gpu.current_clears,
                    },
                )
                &&& final(self).gpu.current_draws@.len() == 0
                &&& final(self).gpu.current_clears == 0
                &&& final(self).gpu.objects == old(self).gpu.objects
                &&& final(self).gpu.next_id == old(self).gpu.next_id
                &&& final(self).results == old(self).results
                &&& final(self).state == old(self).state
                &&& final(self).failure == old(self).failure
            },
            old(self).pending@[0] matches Message::Execute { ticket, cmd } ==> {
                &&& final(self).gpu.frames == old(self).gpu.frames
                &&& final(self).results@.len() == old(self).results@.len() + 1
                &&& final(self).results@.drop_last() == old(self).results@
                &&& final(self).results@.last().0 == ticket
                &&& final(self).gpu.next_id >= old(self).gpu.next_id
                &&& ((r is Died) ==> final(self).state is Stopped && final(self).failure is Some)
                &&& ((r is Ran) ==> final(self).state == old(self).state && final(self).failure
                    == old(self).failure)
                &&& ((r is Died) <==> final(self).results@.last().1 is Fatal)
                &&& ((spec_cmd_allocates(cmd) ==> old(self).gpu.next_id < u32::MAX)
                    ==> crate::gpu::spec_cmd_post(
                    old(self).gpu,
                    cmd,
                    final(self).gpu,
                    final(self).results@.last().1,
                ))
                &&& (spec_cmd_async_ok(cmd) ==> {
                    &&& r is Ran
                    &&& final(self).results@ == old(self).results@.push((ticket, CmdResult::Done))
                    &&& final(self).gpu.next_id == old(self).gpu.next_id
                    &&& final(self).gpu.current_draws == old(self).gpu.current_draws
                    &&& (!(cmd is Clear) ==> final(self).gpu.current_clears == old(self).gpu.current_clears)
                    &&& ((cmd is Clear) ==> final(self).gpu.objects == old(self).gpu.objects)
                    &&& forall|oid: u32|
                        spec_has_object(old(self).gpu.objects@, oid) && !spec_cmd_deletes(cmd, oid)
                            ==> spec_has_object(final(self).gpu.objects@, oid) && spec_object_of(
                            final(self).gpu.objects@,
                            oid,
                        ) == spec_object_of(old(self).gpu.objects@, oid)
                    &&& forall|oid: u32|
                        spec_has_object(final(self).gpu.objects@, oid) ==> spec_has_object(
                            old(self).gpu.objects@,
                            oid,
                        )
                })
            },
    {
        let msg = self.pending.remove(0);
        proof {
            assert(self.pending@ =~= old(self).pending@.drop_first());
        }
        match msg {
            Message::EndFrame => {
                self.gpu.end_frame();
                self.executed.push(TraceEntry::EndFrame);
                StepOutcome::Swapped
            },
            Message::Execute { ticket, cmd } => {
                let ghost gcmd = cmd;
                let ghost old_gpu = self.gpu;
                let alloc = cmd_allocates(&cmd);
                let res: CmdResult = if alloc && self.gpu.next_id == u32::MAX {
                    CmdResult::Fatal("object names exhausted".to_owned())
                } else {
                    self.gpu.exec_cmd(cmd)
                };
                proof {
                    if spec_cmd_async_ok(gcmd) {
                        assert forall|oid: u32|
                            spec_has_object(old_gpu.objects@, oid) && !spec_cmd_deletes(
                                gcmd,
                                oid,
                            ) implies spec_has_object(self.gpu.objects@, oid) && spec_object_of(
                            self.gpu.objects@,
                            oid,
                        ) == spec_object_of(old_gpu.objects@, oid) by {
                            lemma_async_cmd_preserves(old_gpu, gcmd, self.gpu, res, oid);
                        }
                        assert forall|oid: u32|
                            spec_has_object(self.gpu.objects@, oid) implies spec_has_object(
                            old_gpu.objects@,
                            oid,
                        ) by {
                            lemma_async_cmd_preserves(old_gpu, gcmd, self.gpu, res, oid);
                        }
                    }
                }
                let died = match &res {
                    CmdResult::Fatal(m) => {
                        self.failure = Some(m.clone());
                        self.state = LoopState::Stopped;
                        true
                    },
                    _ => false,
                };
                self.executed.push(TraceEntry::Executed { ticket });
                self.results.push((ticket, res));
                proof {
                    assert(self.results@.drop_last() =~= old(self).results@);
                }
                if died {
                    StepOutcome::Died
                } else {
                    StepOutcome::Ran
                }
            },
        }
    }
}

impl Context {
    /// Applies every queued message in order — commands run, frame-end
    /// markers swap buffers — until the queue is empty or a command kills
    /// the consumer.  This is what the consumer gets through while a
    /// producer blocks on a result.
    pub fn drain(&mut self)
        requires
            old(self).wf(),
        ensures
            final(self).wf(),
            final(self).next_ticket == old(self).next_ticket,
            final(self).events == old(self).events,
            final(self).next_frame_ns == old(self).next_frame_ns,
            final(self).gpu.viewport == old(self).gpu.viewport,
            old(self).state is Stopped ==> *final(self) == *old(self),
            (old(self).state is Running && spec_pending_async_ok(old(self).pending@)) ==> {
                &&& final(self).pending@.len() == 0
                &&& final(self).executed@ == old(self).executed@ + old(self).pending@.map_values(
                    |m: Message| spec_msg_entry(m),
                )
                &&& final(self).state is Running
                &&& final(self).failure == old(self).failure
                &&& final(self).gpu.next_id == old(self).gpu.next_id
                &&& final(self).gpu.frames@.len() >= old(self).gpu.frames@.len()
                &&& forall|i: int|
                    0 <= i < old(self).gpu.frames@.len() ==> final(self).gpu.frames@[i] == old(self).gpu.frames@[i]
                &&& (!spec_has_end(old(self).pending@) ==> final(self).gpu.frames == old(self).gpu.frames && final(self).gpu.current_draws == old(self).gpu.current_draws)
                &&& forall|oid: u32|
                    spec_has_object(old(self).gpu.objects@, oid) && !spec_pending_deletes(
                        old(self).pending@,
                        oid,
                    ) ==> spec_has_object(final(self).gpu.objects@, oid) && spec_object_of(
                        final(self).gpu.objects@,
                        oid,
                    ) == spec_object_of(old(self).gpu.objects@, oid)
                &&& forall|oid: u32|
                    spec_has_object(final(self).gpu.objects@, oid) ==> spec_has_object(
                        old(self).gpu.objects@,
                        oid,
                    )
            },
    {
        if matches!(self.state, LoopState::Stopped) {
            return ;
        }
        let ghost clean = old(self).state is Running && spec_pending_async_ok(old(self).pending@);
        let ghost entries = old(self).pending@.map_values(|m: Message| spec_msg_entry(m));
        proof {
            lemma_first_end_props(old(self).pending@);
            assert(old(self).pending@.skip(0) =~= old(self).pending@);
            assert(entries.take(0) =~= Seq::<TraceEntry>::empty());
            assert(self.executed@ =~= old(self).executed@ + entries.take(0));
        }
        let ghost mut j: int = 0;
        let mut alive = true;
        while alive && self.pending.len() > 0
            invariant
                self.wf(),
                old(self).wf(),
                entries == old(self).pending@.map_values(|m: Message| spec_msg_entry(m)),
                alive <==> !(self.state is Stopped),
                0 <= j <= old(self).pending@.len(),
                self.pending@ == old(self).pending@.skip(j),
                self.executed@ == old(self).executed@ + entries.take(j),
                self.next_ticket == old(self).next_ticket,
                self.events == old(self).events,
                self.next_frame_ns == old(self).next_frame_ns,
                self.gpu.viewport == old(self).gpu.viewport,
                clean ==> {
                    &&& self.state is Running
                    &&& self.failure == old(self).failure
                    &&& self.gpu.next_id == old(self).gpu.next_id
                    &&& self.gpu.frames@.len() >= old(self).gpu.frames@.len()
                    &&& forall|i: int|
                        0 <= i < old(self).gpu.frames@.len() ==> self.gpu.frames@[i] == old(self).gpu.frames@[i]
                    &&& (!spec_has_end(old(self).pending@) ==> self.gpu.frames == old(self).gpu.frames && self.gpu.current_draws == old(self).gpu.current_draws)
                    &&& forall|oid: u32|
                        spec_has_object(old(self).gpu.objects@, oid) && !spec_pending_deletes(
                            old(self).pending@,
                            oid,
                        ) ==> spec_has_object(self.gpu.objects@, oid) && spec_object_of(
                            self.gpu.objects@,
                            oid,
                        ) == spec_object_of(old(self).gpu.objects@, oid)
                    &&& forall|oid: u32|
                        spec_has_object(self.gpu.objects@, oid) ==> spec_has_object(
                            old(self).gpu.objects@,
                            oid,
                        )
                },
                clean == (old(self).state is Running && spec_pending_async_ok(old(self).pending@)),
            decreases old(self).pending@.len() - j,
        {
            let ghost pre = *self;
            let ghost front = old(self).pending@[j];
            proof {
                assert(self.pending@[0] == old(self).pending@.skip(j)[0]);
                assert(self.pending@[0] == front);
            }
            let out = self.step();
            proof {
                j = j + 1;
                assert(pre.pending@.drop_first() =~= old(self).pending@.skip(j));
                assert(entries.take(j) =~= entries.take(j - 1).push(spec_msg_entry(front)));
                assert(self.executed@ =~= old(self).executed@ + entries.take(j));
                if clean {
                    lemma_first_end_props(old(self).pending@);
                    if front is EndFrame {
                        assert(spec_first_end(old(self).pending@) <= j - 1) by {
                            if j - 1 < spec_first_end(old(self).pending@) {
                                assert(!(old(self).pending@[j - 1] is EndFrame));
                            }
                        }
                        assert(spec_has_end(old(self).pending@));
                        assert forall|i: int|
                            0 <= i < old(self).gpu.frames@.len() implies self.gpu.frames@[i] == old(self).gpu.frames@[i] by {
                            assert(self.gpu.frames@[i] == pre.gpu.frames@[i]);
                        }
                    } else {
                        let fcmd = front->Execute_cmd;
                        assert(spec_cmd_async_ok(fcmd));
                        assert forall|oid: u32|
                            spec_has_object(old(self).gpu.objects@, oid) && !spec_pending_deletes(
                                old(self).pending@,
                                oid,
                            ) implies spec_has_object(self.gpu.objects@, oid) && spec_object_of(
                            self.gpu.objects@,
                            oid,
                        ) == spec_object_of(old(self).gpu.objects@, oid) by {
                            assert(!(old(self).pending@[j - 1] matches Message::Execute {
                                cmd,
                                ..
                            } && spec_cmd_deletes(cmd, oid)));
                            assert(!spec_cmd_deletes(fcmd, oid));
                            assert(spec_has_object(pre.gpu.objects@, oid));
                        }
                    }
                }
            }
            match out {
                StepOutcome::Died => {
                    alive = false;
                },
                _ => {},
            }
        }
        proof {
            if clean {
                assert(j == old(self).pending@.len());
                assert(entries.take(j) =~= entries);
            }
        }
    }

    /// One iteration of the consumer's frame loop: set the viewport to the
    /// window's size, apply commands until the first frame-end marker, swap
    /// buffers, forward the window's events, and move the schedule forward
    /// by exactly one period.  Every command enqueued before the frame-end
    /// marker is applied before the swap: the marker is a frame barrier.
    ///
    /// Without a frame-end marker in the queue a running consumer applies
    /// everything and reports `Blocked`; a draining consumer stops instead.
    pub fn run_frame(&mut self, window_size: Option<(u32, u32)>, os_events: Vec<Event>) -> (r:
        FrameOutcome)
        requires
            old(self).wf(),
            old(self).next_frame_ns + FRAME_PERIOD_NS <= u64::MAX,
        ensures
            final(self).wf(),
            final(self).next_ticket == old(self).next_ticket,
            old(self).state is Stopped ==> (r is Stopped && *final(self) == *old(self)),
            !(old(self).state is Stopped) ==> {
                let k = spec_first_end(old(self).pending@);
                let entries = old(self).pending@.map_values(|m: Message| spec_msg_entry(m));
                &&& final(self).gpu.viewport == (match window_size {
                    Some((w, h)) => Some((w, h)),
                    None => old(self).gpu.viewport,
                })
                &&& ((r is Swapped) ==> {
                    &&& spec_has_end(old(self).pending@)
                    &&& final(self).executed@ == old(self).executed@ + entries.take(k + 1)
                    &&& final(self).pending@ == old(self).pending@.skip(k + 1)
                    &&& final(self).gpu.frames@.len() == old(self).gpu.frames@.len() + 1
                    &&& final(self).gpu.frames@.drop_last() == old(self).gpu.frames@
                    &&& final(self).events@ == old(self).events@ + os_events@
                    &&& final(self).next_frame_ns == old(self).next_frame_ns + FRAME_PERIOD_NS
                    &&& final(self).state == old(self).state
                    &&& final(self).failure == old(self).failure
                    &&& (spec_pending_async_ok(old(self).pending@) ==> final(self).gpu.frames@.last().draws == old(self).gpu.current_draws)
                    &&& forall|i: int|
                        0 <= i <= k ==> final(self).executed@.contains(#[trigger] entries[i])
                })
                &&& ((r is Blocked) ==> {
                    &&& old(self).state is Running
                    &&& !spec_has_end(old(self).pending@)
                    &&& final(self).executed@ == old(self).executed@ + entries
                    &&& final(self).pending@.len() == 0
                    &&& final(self).gpu.frames == old(self).gpu.frames
                    &&& final(self).events == old(self).events
                    &&& final(self).next_frame_ns == old(self).next_frame_ns
                    &&& final(self).state is Running
                    &&& final(self).failure == old(self).failure
                })
                &&& (spec_pending_async_ok(old(self).pending@) ==> {
                    &&& final(self).gpu.next_id == old(self).gpu.next_id
                    &&& ((r is Stopped) ==> final(self).pending@.len() == 0)
                    &&& (old(self).state is Running ==> (((r is Swapped) <==> spec_has_end(
                        old(self).pending@,
                    )) && ((r is Blocked) <==> !spec_has_end(old(self).pending@))))
                    &&& forall|oid: u32|
                        spec_has_object(old(self).gpu.objects@, oid) && !spec_pending_deletes(
                            old(self).pending@,
                            oid,
                        ) ==> spec_has_object(final(self).gpu.objects@, oid) && spec_object_of(
                            final(self).gpu.objects@,
                            oid,
                        ) == spec_object_of(old(self).gpu.objects@, oid)
                    &&& forall|oid: u32|
                        spec_has_object(final(self).gpu.objects@, oid) ==> spec_has_object(
                            old(self).gpu.objects@,
                            oid,
                        )
                    &&& forall|oid: u32|
                        !spec_pending_deletes(old(self).pending@, oid) ==> !spec_pending_deletes(
                            final(self).pending@,
                            oid,
                        )
                })
                &&& ((r is Stopped) ==> {
                    &&& final(self).state is Stopped
                    &&& final(self).events == old(self).events
                    &&& final(self).next_frame_ns == old(self).next_frame_ns
                    &&& final(self).gpu.frames == old(self).gpu.frames
                    &&& ((old(self).state is Draining && !spec_has_end(old(self).pending@)
                        && final(self).failure == old(self).failure && final(self).executed@ == old(self).executed@ + entries && final(self).pending@.len() == 0) || (final(self).failure is Some && exists|jj: int|
                        #![trigger entries.take(jj + 1)]
                        0 <= jj < k && final(self).executed@ == old(self).executed@ + entries.take(
                            jj + 1,
                        ) && final(self).pending@ == old(self).pending@.skip(jj + 1)))
                })
            },
    {
        if matches!(self.state, LoopState::Stopped) {
            return FrameOutcome::Stopped;
        }
        match window_size {
            Some((w, h)) => self.gpu.set_viewport(w, h),
            None => {},
        }
        let ghost entries = old(self).pending@.map_values(|m: Message| spec_msg_entry(m));
        let ghost k = spec_first_end(old(self).pending@);
        proof {
            lemma_first_end_props(old(self).pending@);
            assert(old(self).pending@.skip(0) =~= old(self).pending@);
            assert(entries.take(0) =~= Seq::<TraceEntry>::empty());
            assert(self.executed@ =~= old(self).executed@ + entries.take(0));
        }
        let ghost mut j: int = 0;
        let mut swapped = false;
        while !swapped && self.pending.len() > 0
            invariant
                self.wf(),
                old(self).wf(),
                k == spec_first_end(old(self).pending@),
                entries == old(self).pending@.map_values(|m: Message| spec_msg_entry(m)),
                0 <= k <= old(self).pending@.len(),
                forall|i: int| 0 <= i < k ==> !((#[trigger] old(self).pending@[i]) is EndFrame),
                k < old(self).pending@.len() ==> old(self).pending@[k] is EndFrame,
                !(self.state is Stopped),
                !swapped ==> 0 <= j <= old(self).pending@.len() && j <= k,
                !swapped ==> self.pending@ == old(self).pending@.skip(j),
                !swapped ==> self.executed@ == old(self).executed@ + entries.take(j),
                !swapped ==> self.state == old(self).state,
                !swapped ==> self.failure == old(self).failure,
                !swapped ==> self.gpu.frames == old(self).gpu.frames,
                !swapped ==> (spec_pending_async_ok(old(self).pending@)
                    ==> self.gpu.current_draws == old(self).gpu.current_draws),
                swapped ==> {
                    &&& j == k + 1
                    &&& k < old(self).pending@.len()
                    &&& self.pending@ == old(self).pending@.skip(k + 1)
                    &&& self.executed@ == old(self).executed@ + entries.take(k + 1)
                    &&& self.gpu.frames@.len() == old(self).gpu.frames@.len() + 1
                    &&& self.gpu.frames@.drop_last() == old(self).gpu.frames@
                    &&& self.state == old(self).state
                    &&& self.failure == old(self).failure
                    &&& (spec_pending_async_ok(old(self).pending@) ==> self.gpu.frames@.last().draws
                        == old(self).gpu.current_draws)
                },
                self.next_ticket == old(self).next_ticket,
                self.events == old(self).events,
                self.next_frame_ns == old(self).next_frame_ns,
                self.gpu.viewport == (match window_size {
                    Some((w, h)) => Some((w, h)),
                    None => old(self).gpu.viewport,
                }),
                spec_pending_async_ok(old(self).pending@) ==> {
                    &&& self.gpu.next_id == old(self).gpu.next_id
                    &&& forall|oid: u32|
                        spec_has_object(old(self).gpu.objects@, oid) && !spec_pending_deletes(
                            old(self).pending@,
                            oid,
                        ) ==> spec_has_object(self.gpu.objects@, oid) && spec_object_of(
                            self.gpu.objects@,
                            oid,
                        ) == spec_object_of(old(self).gpu.objects@, oid)
                    &&& forall|oid: u32|
                        spec_has_object(self.gpu.objects@, oid) ==> spec_has_object(
                            old(self).gpu.objects@,
                            oid,
                        )
                },
            decreases old(self).pending@.len() - j,
        {
            let ghost pre = *self;
            let ghost front = old(self).pending@[j];
            proof {
                assert(self.pending@[0] == old(self).pending@.skip(j)[0]);
                assert(self.pending@[0] == front);
            }
            let out = self.step();
            proof {
                j = j + 1;
                assert(pre.pending@.drop_first() =~= old(self).pending@.skip(j));
                assert(entries.take(j) =~= entries.take(j - 1).push(spec_msg_entry(front)));
                assert(self.executed@ =~= old(self).executed@ + entries.take(j));
                if spec_pending_async_ok(old(self).pending@) {
                    if !(front is EndFrame) {
                        let fcmd = front->Execute_cmd;
                        assert(spec_cmd_async_ok(fcmd));
                        assert forall|oid: u32|
                            spec_has_object(old(self).gpu.objects@, oid) && !spec_pending_deletes(
                                old(self).pending@,
                                oid,
                            ) implies spec_has_object(self.gpu.objects@, oid) && spec_object_of(
                            self.gpu.objects@,
                            oid,
                        ) == spec_object_of(old(self).gpu.objects@, oid) by {
                            assert(!(old(self).pending@[j - 1] matches Message::Execute {
                                cmd,
                                ..
                            } && spec_cmd_deletes(cmd, oid)));
                            assert(!spec_cmd_deletes(fcmd, oid));
                            assert(spec_has_object(pre.gpu.objects@, oid));
                        }
                    }
                }
            }
            match out {
                StepOutcome::Swapped => {
                    proof {
                        assert(front is EndFrame);
                        assert(j - 1 == k) by {
                            if j - 1 < k {
                                assert(!(old(self).pending@[j - 1] is EndFrame));
                            }
                        }
                        if spec_pending_async_ok(old(self).pending@) {
                            assert(pre.gpu.current_draws == old(self).gpu.current_draws);
                        }
                        assert(self.gpu.frames@.drop_last() =~= pre.gpu.frames@);
                    }
                    swapped = true;
                },
                StepOutcome::Died => {
                    proof {
                        assert(!(front is EndFrame));
                        if spec_pending_async_ok(old(self).pending@) {
                            let fcmd = front->Execute_cmd;
                            assert(spec_cmd_async_ok(fcmd));
                            assert(false);
                        }
                        assert(j - 1 < k) by {
                            if j - 1 == k {
                                assert(k < old(self).pending@.len());
                            }
                        }
                        assert(0 <= j - 1 < k && self.executed@ == old(self).executed@
                            + entries.take(j - 1 + 1) && self.pending@ == old(self).pending@.skip(
                            j - 1 + 1,
                        ));
                    }
                    return FrameOutcome::Stopped;
                },
                StepOutcome::Ran => {
                    proof {
                        assert(!(front is EndFrame));
                        assert(j - 1 != k);
                        if spec_pending_async_ok(old(self).pending@) {
                            assert(old(self).pending@[j - 1] matches Message::Execute { cmd, .. }
                                ==> spec_cmd_async_ok(cmd));
                        }
                    }
                },
            }
        }
        if swapped {
            let mut incoming = os_events;
            self.events.append(&mut incoming);
            self.next_frame_ns = self.next_frame_ns + FRAME_PERIOD_NS;
            proof {
                assert forall|oid: u32|
                    !spec_pending_deletes(old(self).pending@, oid) implies !spec_pending_deletes(
                        self.pending@,
                        oid,
                    ) by {
                    if spec_pending_deletes(self.pending@, oid) {
                        let i = choose|i: int|
                            0 <= i < self.pending@.len() && ((#[trigger] self.pending@[i])
                                matches Message::Execute { cmd, .. } && spec_cmd_deletes(
                                cmd,
                                oid,
                            ));
                        assert(self.pending@[i] == old(self).pending@[k + 1 + i]);
                    }
                }
                assert forall|i: int| 0 <= i <= k implies self.executed@.contains(
                    #[trigger] entries[i],
                ) by {
                    assert(self.executed@[old(self).executed@.len() + i] == entries.take(k + 1)[i]);
                }
            }
            return FrameOutcome::Swapped;
        }
        proof {
            assert(j == old(self).pending@.len());
            assert(j <= k);
            assert(k == old(self).pending@.len());
            assert(!spec_has_end(old(self).pending@));
            assert(entries.take(j) =~= entries);
        }
        if matches!(self.state, LoopState::Draining) {
            self.state = LoopState::Stopped;
            return FrameOutcome::Stopped;
        }
        FrameOutcome::Blocked
    }

    /// Submits one command as the producers' synchronous path does: the
    /// consumer first gets through everything already queued — our command
    /// runs after it, never before — then applies the command and hands its
    /// result back.  The caller must have drained the queue (see
    /// [`Context::drain`]); an ended consumer reports a broken channel.
    pub fn run_one(&mut self, cmd: GlCmd) -> (r: Result<CmdResult, ()>)
        requires
            old(self).wf(),
            old(self).pending@.len() == 0,
            old(self).next_ticket < u64::MAX,
            spec_cmd_allocates(cmd) ==> old(self).gpu.next_id < u32::MAX,
        ensures
            final(self).wf(),
            final(self).pending@.len() == 0,
            final(self).events == old(self).events,
            final(self).next_frame_ns == old(self).next_frame_ns,
            final(self).gpu.frames == old(self).gpu.frames,
            final(self).gpu.viewport == old(self).gpu.viewport,
            final(self).results == old(self).results,
            !(old(self).state is Running) ==> (r is Err && *final(self) == *old(self)),
            old(self).state is Running ==> {
                &&& final(self).next_ticket == old(self).next_ticket + 1
                &&& final(self).executed@ == old(self).executed@.push(
                    TraceEntry::Executed { ticket: old(self).next_ticket },
                )
                &&& r matches Ok(res) && crate::gpu::spec_cmd_post(
                    old(self).gpu,
                    cmd,
                    final(self).gpu,
                    res,
                )
                &&& (r matches Ok(res) && res is Fatal) ==> (final(self).state is Stopped && final(self).failure is Some)
                &&& (r matches Ok(res) && !(res is Fatal)) ==> (final(self).state == old(self).state
                    && final(self).failure == old(self).failure)
            },
    {
        if !matches!(self.state, LoopState::Running) {
            return Err(());
        }
        let t = self.next_ticket;
        self.next_ticket = t + 1;
        let res = self.gpu.exec_cmd(cmd);
        match &res {
            CmdResult::Fatal(m) => {
                self.failure = Some(m.clone());
                self.state = LoopState::Stopped;
            },
            _ => {},
        }
        self.executed.push(TraceEntry::Executed { ticket: t });
        Ok(res)
    }
}

/// The frame barrier: when a frame run swaps the buffers, every command
/// that was enqueued before the frame-end marker has been applied — its
/// trace entry stands in the executed trace — by the time the new frame
/// record exists.
pub proof fn lemma_frame_barrier(pre: Context, post: Context)
    requires
        spec_has_end(pre.pending@),
        post.executed@ == pre.executed@ + pre.pending@.map_values(|m: Message| spec_msg_entry(m)).take(
            spec_first_end(pre.pending@) + 1,
        ),
        post.gpu.frames@.len() == pre.gpu.frames@.len() + 1,
    ensures
        forall|i: int|
            0 <= i <= spec_first_end(pre.pending@) ==> post.executed@.contains(
                spec_msg_entry(#[trigger] pre.pending@[i]),
            ),
{
    let entries = pre.pending@.map_values(|m: Message| spec_msg_entry(m));
    let k = spec_first_end(pre.pending@);
    lemma_first_end_props(pre.pending@);
    assert forall|i: int| 0 <= i <= k implies post.executed@.contains(
        spec_msg_entry(pre.pending@[i]),
    ) by {
        assert(post.executed@[pre.executed@.len() + i] == entries.take(k + 1)[i]);
        assert(entries[i] == spec_msg_entry(pre.pending@[i]));
    }
}

} // verus!
