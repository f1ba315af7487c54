//! Asynchronous readback of GPU buffer contents into host memory.
//!
//! A readback request resolves the copy size, allocates a staging buffer
//! (copy destination, host readable, not pre-mapped), records a single copy
//! command from the source region into the staging buffer, submits it, and
//! requests an asynchronous host-read mapping. When the mapping outcome
//! arrives, the caller's continuation is invoked exactly once: with a
//! [`DownloadBuffer`] owning the mapped bytes on success, or with the mapping
//! failure otherwise.
//!
//! The device, queue, and mapping primitives live outside this crate. What is
//! verified here is the decision logic of a request — how the copy size is
//! resolved, which staging-buffer steps may happen in which order, and what
//! the continuation receives — as a state machine that a driver (for
//! instance a test harness with a mock device) advances, performing each step
//! on the real device and feeding the mapping outcome back in. Liveness is
//! owed by that driver: the request completes only as long as the external
//! context keeps making progress.

use vstd::prelude::*;

verus! {

/// Error delivered when the asynchronous mapping of a staging buffer fails.
#[derive(Clone, Copy, Debug, PartialEq, Eq, Structural)]
pub struct BufferAsyncError;

/// Source region of a readback: a byte offset into the source buffer and an
/// optional explicit byte size. `None` means the rest of the buffer, from
/// the offset to the buffer's total size.
#[derive(Clone, Copy, Debug)]
pub struct BufferRegion {
    pub offset: u64,
    pub size: Option<u64>,
}

/// Number of bytes a readback of `region` out of a buffer of `total_size`
/// bytes copies: the explicit size when one was given, the rest of the
/// buffer otherwise.
pub open spec fn spec_resolved_size(total_size: u64, region: BufferRegion) -> int {
    match region.size {
        Some(s) => s as int,
        None => total_size - region.offset,
    }
}

/// Lifecycle of the staging buffer behind one readback request.
#[derive(Clone, Copy, Debug, PartialEq, Eq, Structural)]
pub enum StagingPhase {
    /// Request accepted; no staging buffer exists yet.
    Start,
    /// Staging buffer allocated: copy destination, host readable, unmapped.
    Allocated,
    /// The copy from the source region into the staging buffer is recorded.
    CopyRecorded,
    /// The recorded command buffer was submitted to the queue.
    Submitted,
    /// An asynchronous host-read mapping of the full buffer was requested.
    MapRequested,
    /// Mapping succeeded; the handle owning the mapped range is alive.
    Mapped,
    /// Mapping failed; the failure was delivered and no mapped range exists.
    Failed,
    /// The delivered handle was dropped and the buffer unmapped.
    Unmapped,
    /// The buffer memory was handed back, to be reused or destroyed.
    Released,
}

/// One step a driver performs on behalf of a readback request.
#[derive(Clone, Copy, Debug, PartialEq, Eq, Structural)]
pub enum StagingStep {
    /// Allocate the staging buffer.
    Allocate,
    /// Record the copy command from the source region.
    RecordCopy,
    /// Submit the recorded command buffer.
    Submit,
    /// Request the asynchronous host-read mapping.
    RequestMap,
    /// The mapping completed successfully; the continuation receives the
    /// handle over the mapped range.
    MapOk,
    /// The mapping failed; the continuation receives the failure.
    MapErr,
    /// The caller dropped the delivered handle; the buffer is unmapped.
    DropHandle,
    /// The staging buffer is reused or destroyed.
    Release,
}

/// The phase every request starts in.
pub open spec fn init_phase() -> StagingPhase {
    StagingPhase::Start
}

/// Whether a driver may perform step `s` while the staging buffer is in
/// phase `p`. Releasing the buffer is enabled only once it is unmapped (the
/// handle was dropped) or the mapping failed, so a buffer backing a live
/// handle can never be reused or destroyed.
pub open spec fn step_enabled(p: StagingPhase, s: StagingStep) -> bool {
    match s {
        StagingStep::Allocate => p == StagingPhase::Start,
        StagingStep::RecordCopy => p == StagingPhase::Allocated,
        StagingStep::Submit => p == StagingPhase::CopyRecorded,
        StagingStep::RequestMap => p == StagingPhase::Submitted,
        StagingStep::MapOk => p == StagingPhase::MapRequested,
        StagingStep::MapErr => p == StagingPhase::MapRequested,
        StagingStep::DropHandle => p == StagingPhase::Mapped,
        StagingStep::Release => p == StagingPhase::Unmapped || p == StagingPhase::Failed,
    }
}

/// The phase the staging buffer is in after step `s`.
pub open spec fn next_phase(p: StagingPhase, s: StagingStep) -> StagingPhase
    recommends
        step_enabled(p, s),
{
    match s {
        StagingStep::Allocate => StagingPhase::Allocated,
        StagingStep::RecordCopy => StagingPhase::CopyRecorded,
        StagingStep::Submit => StagingPhase::Submitted,
        StagingStep::RequestMap => StagingPhase::MapRequested,
        StagingStep::MapOk => StagingPhase::Mapped,
        StagingStep::MapErr => StagingPhase::Failed,
        StagingStep::DropHandle => StagingPhase::Unmapped,
        StagingStep::Release => StagingPhase::Released,
    }
}

/// The phase reached after performing the steps of `t` in order, starting
/// from [`init_phase`].
pub open spec fn phase_after(t: Seq<StagingStep>) -> StagingPhase
    decreases t.len(),
{
    if t.len() == 0 {
        init_phase()
    } else {
        next_phase(phase_after(t.drop_last()), t.last())
    }
}

/// Whether every step of `t` was enabled when it was performed.
pub open spec fn valid_trace(t: Seq<StagingStep>) -> bool
    decreases t.len(),
{
    t.len() == 0 || (valid_trace(t.drop_last()) && step_enabled(
        phase_after(t.drop_last()),
        t.last(),
    ))
}

/// Steps that invoke the caller's continuation.
pub open spec fn is_delivery(s: StagingStep) -> bool {
    s == StagingStep::MapOk || s == StagingStep::MapErr
}

/// How many times the steps of `t` invoked the caller's continuation.
pub open spec fn delivery_count(t: Seq<StagingStep>) -> nat
    decreases t.len(),
{
    if t.len() == 0 {
        0
    } else {
        delivery_count(t.drop_last()) + if is_delivery(t.last()) {
            1nat
        } else {
            0nat
        }
    }
}

/// Whether step `s` occurs somewhere in `t`.
pub open spec fn contains_step(t: Seq<StagingStep>, s: StagingStep) -> bool {
    exists|i: int| 0 <= i < t.len() && t[i] == s
}

/// Phases in which the mapping outcome has arrived, so the continuation has
/// been invoked.
pub open spec fn completion_reached(p: StagingPhase) -> bool {
    p == StagingPhase::Mapped || p == StagingPhase::Failed || p == StagingPhase::Unmapped || p
        == StagingPhase::Released
}

proof fn lemma_contains_drop_last(t: Seq<StagingStep>, s: StagingStep)
    requires
        t.len() > 0,
    ensures
        contains_step(t, s) <==> (contains_step(t.drop_last(), s) || t.last() == s),
{
    if contains_step(t, s) {
        let i = choose|i: int| 0 <= i < t.len() && t[i] == s;
        if i < t.len() - 1 {
            assert(t.drop_last()[i] == s);
        }
    }
    if contains_step(t.drop_last(), s) {
        let i = choose|i: int| 0 <= i < t.drop_last().len() && t.drop_last()[i] == s;
        assert(t[i] == s);
    }
    if t.last() == s {
        assert(t[t.len() - 1] == s);
    }
}

/// Everything that holds of a valid trace, tied together so one induction
/// carries it: the continuation count matches whether a completion phase was
/// reached, success and failure deliveries exclude each other, and the
/// unmapped and released phases are only reached as the steps allow.
spec fn trace_inv(t: Seq<StagingStep>) -> bool {
    let p = phase_after(t);
    &&& delivery_count(t) <= 1
    &&& (completion_reached(p) ==> delivery_count(t) == 1)
    &&& (!completion_reached(p) ==> delivery_count(t) == 0)
    &&& (contains_step(t, StagingStep::MapOk) ==> p == StagingPhase::Mapped || p
        == StagingPhase::Unmapped || p == StagingPhase::Released)
    &&& (contains_step(t, StagingStep::MapErr) ==> p == StagingPhase::Failed || p
        == StagingPhase::Released)
    &&& !(contains_step(t, StagingStep::MapOk) && contains_step(t, StagingStep::MapErr))
    &&& (p == StagingPhase::Unmapped ==> contains_step(t, StagingStep::DropHandle))
    &&& (p == StagingPhase::Released && contains_step(t, StagingStep::MapOk) ==> contains_step(
        t,
        StagingStep::DropHandle,
    ))
}

proof fn lemma_trace_inv(t: Seq<StagingStep>)
    requires
        valid_trace(t),
    ensures
        trace_inv(t),
    decreases t.len(),
{
    if t.len() > 0 {
        let prefix = t.drop_last();
        lemma_trace_inv(prefix);
        lemma_contains_drop_last(t, StagingStep::MapOk);
        lemma_contains_drop_last(t, StagingStep::MapErr);
        lemma_contains_drop_last(t, StagingStep::DropHandle);
    }
}

/// A readback request delivers its outcome to the continuation at most once,
/// and exactly once as soon as the mapping outcome has arrived — never zero
/// and never more than one invocation for a completed request.
pub proof fn lemma_single_delivery(t: Seq<StagingStep>)
    requires
        valid_trace(t),
    ensures
        delivery_count(t) <= 1,
        completion_reached(phase_after(t)) ==> delivery_count(t) == 1,
        !completion_reached(phase_after(t)) ==> delivery_count(t) == 0,
{
    lemma_trace_inv(t);
}

proof fn lemma_valid_prefix(t: Seq<StagingStep>, n: int)
    requires
        valid_trace(t),
        0 <= n <= t.len(),
    ensures
        valid_trace(t.take(n)),
    decreases t.len(),
{
    if n == t.len() {
        assert(t.take(n) =~= t);
    } else {
        assert(t.drop_last().take(n) =~= t.take(n));
        lemma_valid_prefix(t.drop_last(), n);
    }
}

/// A staging buffer whose mapping succeeded is never released — reused or
/// destroyed — before the handle owning its mapped range was dropped: every
/// release step in a trace that delivered a handle is preceded by the drop
/// of that handle.
pub proof fn lemma_unmap_before_release(t: Seq<StagingStep>, i: int)
    requires
        valid_trace(t),
        0 <= i < t.len(),
        t[i] == StagingStep::Release,
        contains_step(t, StagingStep::MapOk),
    ensures
        exists|j: int| 0 <= j < i && t[j] == StagingStep::DropHandle,
{
    let before = t.take(i);
    let through = t.take(i + 1);
    lemma_valid_prefix(t, i);
    lemma_valid_prefix(t, i + 1);
    assert(through.drop_last() =~= before);
    assert(through.last() == t[i]);
    assert(step_enabled(phase_after(before), StagingStep::Release));
    lemma_trace_inv(before);
    lemma_trace_inv(t);
    if phase_after(before) == StagingPhase::Unmapped {
        let j = choose|j: int| 0 <= j < before.len() && before[j] == StagingStep::DropHandle;
        assert(t[j] == StagingStep::DropHandle);
    } else {
        // The release came off the failure path, yet a handle was delivered:
        // impossible, success and failure deliveries exclude each other.
        let j = choose|j: int| 0 <= j < before.len() && before[j] == StagingStep::MapErr;
        assert(t[j] == StagingStep::MapErr);
        assert(false);
    }
}

impl StagingPhase {
    /// The phase a fresh readback request starts in.
    pub fn initial() -> (p: StagingPhase)
        ensures
            p == init_phase(),
    {
        StagingPhase::Start
    }

    /// Whether a driver may perform step `s` now.
    pub fn enabled(&self, s: StagingStep) -> (b: bool)
        ensures
            b == step_enabled(*self, s),
    {
        match s {
            StagingStep::Allocate => *self == StagingPhase::Start,
            StagingStep::RecordCopy => *self == StagingPhase::Allocated,
            StagingStep::Submit => *self == StagingPhase::CopyRecorded,
            StagingStep::RequestMap => *self == StagingPhase::Submitted,
            StagingStep::MapOk => *self == StagingPhase::MapRequested,
            StagingStep::MapErr => *self == StagingPhase::MapRequested,
            StagingStep::DropHandle => *self == StagingPhase::Mapped,
            StagingStep::Release => *self == StagingPhase::Unmapped || *self
                == StagingPhase::Failed,
        }
    }

    /// Perform step `s`, moving the staging buffer to its next phase.
    pub fn step(self, s: StagingStep) -> (p: StagingPhase)
        requires
            step_enabled(self, s),
        ensures
            p == next_phase(self, s),
    {
        match s {
            StagingStep::Allocate => StagingPhase::Allocated,
            StagingStep::RecordCopy => StagingPhase::CopyRecorded,
            StagingStep::Submit => StagingPhase::Submitted,
            StagingStep::RequestMap => StagingPhase::MapRequested,
            StagingStep::MapOk => StagingPhase::Mapped,
            StagingStep::MapErr => StagingPhase::Failed,
            StagingStep::DropHandle => StagingPhase::Unmapped,
            StagingStep::Release => StagingPhase::Released,
        }
    }
}

/// The steps a readback request has its driver perform synchronously, in
/// order, before the mapping outcome arrives.
pub open spec fn setup_steps() -> Seq<StagingStep> {
    seq![StagingStep::Allocate, StagingStep::RecordCopy, StagingStep::Submit, StagingStep::RequestMap]
}

/// The setup steps are a valid trace and leave the staging buffer awaiting
/// its mapping outcome, with the continuation not yet invoked.
pub proof fn lemma_setup_steps_valid()
    ensures
        valid_trace(setup_steps()),
        phase_after(setup_steps()) == StagingPhase::MapRequested,
        delivery_count(setup_steps()) == 0,
{
    let t0 = Seq::<StagingStep>::empty();
    let t1 = seq![StagingStep::Allocate];
    let t2 = seq![StagingStep::Allocate, StagingStep::RecordCopy];
    let t3 = seq![StagingStep::Allocate, StagingStep::RecordCopy, StagingStep::Submit];
    let t4 = setup_steps();
    assert(t1.drop_last() =~= t0);
    assert(t2.drop_last() =~= t1);
    assert(t3.drop_last() =~= t2);
    assert(t4.drop_last() =~= t3);
    assert(valid_trace(t0));
    assert(delivery_count(t0) == 0);
    assert(phase_after(t1) == StagingPhase::Allocated);
    assert(phase_after(t2) == StagingPhase::CopyRecorded);
    assert(phase_after(t3) == StagingPhase::Submitted);
    assert(phase_after(t4) == StagingPhase::MapRequested);
    assert(valid_trace(t1));
    assert(valid_trace(t2));
    assert(valid_trace(t3));
    assert(valid_trace(t4));
    assert(delivery_count(t1) == 0);
    assert(delivery_count(t2) == 0);
    assert(delivery_count(t3) == 0);
    assert(delivery_count(t4) == 0);
}

/// An accepted readback request: the copy size is resolved and the staging
/// steps up to the mapping request are laid out. Consuming it with
/// [`ReadbackInFlight::complete`] is the single continuation invocation.
pub struct ReadbackInFlight {
    /// Resolved copy size: the staging buffer's size in bytes, and the
    /// length of the byte view a successful readback delivers.
    pub size: u64,
    /// Byte offset of the copied region in the source buffer.
    pub src_offset: u64,
    /// The staging steps performed on the request's behalf so far.
    pub trace: Ghost<Seq<StagingStep>>,
}

impl ReadbackInFlight {
    /// The request's staging buffer awaits its mapping outcome, reached by a
    /// trace of steps each performed in its turn.
    pub open spec fn wf(self) -> bool {
        valid_trace(self.trace@) && phase_after(self.trace@) == StagingPhase::MapRequested
    }

    /// Deliver the mapping outcome to the caller.
    ///
    /// This is the single-shot continuation of the request: it consumes the
    /// request, so it can be invoked at most once, and the driver invokes it
    /// for every outcome, success or failure. On success `bytes` is the
    /// mapped range over the full staging buffer, so it carries exactly the
    /// resolved size; the caller receives a [`DownloadBuffer`] owning those
    /// bytes. On failure the caller receives the error and no byte view
    /// exists.
    pub fn complete(self, outcome: Result<Vec<u8>, BufferAsyncError>) -> (r: Result<
        DownloadBuffer,
        BufferAsyncError,
    >)
        requires
            self.wf(),
            outcome matches Ok(bytes) ==> bytes@.len() == self.size,
        ensures
            match outcome {
                Ok(bytes) => r matches Ok(d) && d@ == bytes@ && d@.len() == self.size && d.trace()
                    == self.trace@.push(StagingStep::MapOk) && valid_trace(d.trace())
                    && phase_after(d.trace()) == StagingPhase::Mapped && delivery_count(d.trace())
                    == 1,
                Err(e) => r matches Err(e2) && e2 == e,
            },
    {
        match outcome {
            Ok(bytes) => {
                let ghost done = self.trace@.push(StagingStep::MapOk);
                proof {
                    assert(done.drop_last() =~= self.trace@);
                    lemma_single_delivery(done);
                }
                Ok(DownloadBuffer { data: bytes, trace: Ghost(done) })
            },
            Err(e) => Err(e),
        }
    }
}

/// CPU accessible buffer used to download data back from the GPU: it owns
/// the staging buffer together with the mapped range over its full contents.
/// While it is alive the buffer stays mapped; dropping it unmaps the buffer,
/// and only then may the buffer be reused or destroyed (the release step of
/// the staging lifecycle).
pub struct DownloadBuffer {
    data: Vec<u8>,
    trace: Ghost<Seq<StagingStep>>,
}

impl View for DownloadBuffer {
    type V = Seq<u8>;

    closed spec fn view(&self) -> Seq<u8> {
        self.data@
    }
}

impl DownloadBuffer {
    /// Asynchronously read the contents of a buffer region.
    ///
    /// `total_size` is the source buffer's total byte size, read from its
    /// shared metadata under a lock by the caller that owns the buffer.
    /// Resolves the copy size and returns the in-flight request whose
    /// staging buffer the driver allocates, fills, and maps (the step
    /// sequence of [`setup_steps`]). The call itself never blocks: the
    /// mapping outcome arrives later through
    /// [`ReadbackInFlight::complete`].
    pub fn read_buffer(total_size: u64, region: BufferRegion) -> (r: ReadbackInFlight)
        requires
            region.size is None ==> region.offset <= total_size,
        ensures
            r.size == spec_resolved_size(total_size, region),
            r.src_offset == region.offset,
            r.trace@ == setup_steps(),
            r.wf(),
            delivery_count(r.trace@) == 0,
    {
        let size = match region.size {
            Some(s) => s,
            None => total_size - region.offset,
        };
        proof {
            lemma_setup_steps_valid();
        }
        ReadbackInFlight { size, src_offset: region.offset, trace: Ghost(setup_steps()) }
    }

    /// The staging steps that produced this handle.
    pub closed spec fn trace(self) -> Seq<StagingStep> {
        self.trace@
    }

    /// Borrow the downloaded bytes, valid as long as the handle is alive.
    pub fn as_bytes(&self) -> (r: &[u8])
        ensures
            r@ == self@,
    {
        self.data.as_slice()
    }

    /// Number of downloaded bytes: the resolved size of the request.
    pub fn len(&self) -> (n: usize)
        ensures
            n == self@.len(),
    {
        self.data.len()
    }
}

} // verus!
