//! The buffered chunk forwarder: drains one pipe into tagged frames.
//!
//! A forwarder owns a frame buffer whose first byte is the tag of its stream.
//! The surrounding program reads from the pipe into the region after the tag,
//! reports the outcome, and sends the frame it is handed. A frame goes out for
//! every read that returned data, at once: there is no timer and nothing is
//! held back to fill the buffer.

use crate::frame::{
    demultiplexed, frame_of, interleaving, joined_payloads, lemma_frame_of, lemma_joined_push,
    lemma_tags_separate, payload_of, tagged_for, well_formed_frame, StreamSource,
    MAX_CHUNK_SIZE, STDERR_CHUNK_PREFIX, STDOUT_CHUNK_PREFIX,
};
use vstd::prelude::*;
use vstd::slice::{slice_subrange, slice_to_vec};

verus! {

/// The result of one read from the pipe into the forwarder's region.
#[derive(Clone, Copy, Debug, PartialEq, Eq, Structural)]
pub enum ReadOutcome {
    /// The read returned this many bytes, stored at the start of the region.
    /// Zero means the pipe had nothing to give.
    Read(usize),
    /// The read failed.
    Failed,
}

/// Why a forwarder gave up.
#[derive(Clone, Copy, Debug, PartialEq, Eq, Structural)]
pub enum ForwardError {
    /// Reading from the pipe failed.
    Pipe,
    /// Sending a frame on the sink failed.
    Sink,
}

/// Whether a forwarder is still in its loop.
#[derive(Clone, Copy, Debug, PartialEq, Eq, Structural)]
pub enum ForwardStatus {
    /// Reading and forwarding.
    Active,
    /// Stopped cleanly: the pipe was empty and the process was gone.
    Finished,
    /// Stopped on an error.
    Failed(ForwardError),
}

/// What the forwarder asks the surrounding program to do next.
#[derive(Clone, Debug, PartialEq, Eq)]
pub enum ForwardStep {
    /// Send these bytes as one binary frame while holding the sink, then
    /// report with `on_sent`.
    Send(Vec<u8>),
    /// Read from the pipe into the region again.
    Read,
    /// Leave the loop: everything was forwarded.
    Finished,
    /// Leave the loop with this error.
    Failed(ForwardError),
}

/// A `ForwardStep` as a mathematical value.
#[verifier::ext_equal]
pub enum Instruction {
    Send(Seq<u8>),
    Read,
    Finished,
    Failed(ForwardError),
}

impl View for ForwardStep {
    type V = Instruction;

    open spec fn view(&self) -> Instruction {
        match self {
            ForwardStep::Send(frame) => Instruction::Send(frame@),
            ForwardStep::Read => Instruction::Read,
            ForwardStep::Finished => Instruction::Finished,
            ForwardStep::Failed(error) => Instruction::Failed(*error),
        }
    }
}

/// A forwarder as a mathematical value, with the history of what it has read
/// and emitted.
#[verifier::ext_equal]
pub struct ForwarderState {
    /// The stream this forwarder drains.
    pub source: StreamSource,
    pub status: ForwardStatus,
    /// The bytes of the buffer after the tag, where reads are stored.
    pub region: Seq<u8>,
    /// Every byte read from the pipe so far, in order.
    pub drained: Seq<u8>,
    /// Every frame handed out for sending so far, in order.
    pub forwarded: Seq<Seq<u8>>,
}

impl ForwarderState {
    /// The invariant of a forwarder: the region has the fixed chunk size, and
    /// the frames emitted so far are well formed, carry the tag of this stream
    /// and hold between them exactly the bytes read, in order.
    pub open spec fn wf(self) -> bool {
        &&& self.region.len() == MAX_CHUNK_SIZE
        &&& joined_payloads(self.forwarded) == self.drained
        &&& forall|i: int|
            0 <= i < self.forwarded.len() ==> well_formed_frame(#[trigger] self.forwarded[i])
                && tagged_for(self.forwarded[i], self.source)
    }

    /// The state in which a forwarder starts.
    pub open spec fn fresh(source: StreamSource) -> ForwarderState {
        ForwarderState {
            source,
            status: ForwardStatus::Active,
            region: Seq::new(MAX_CHUNK_SIZE as nat, |i: int| 0u8),
            drained: Seq::empty(),
            forwarded: Seq::empty(),
        }
    }
}

/// What a stopped forwarder answers to every report: its verdict, again.
pub open spec fn verdict(status: ForwardStatus) -> Instruction {
    match status {
        ForwardStatus::Active => Instruction::Read,
        ForwardStatus::Finished => Instruction::Finished,
        ForwardStatus::Failed(error) => Instruction::Failed(error),
    }
}

/// `region` with its first `n` bytes set to zero.
pub open spec fn cleared(region: Seq<u8>, n: int) -> Seq<u8> {
    Seq::new(region.len(), |i: int| if i < n { 0u8 } else { region[i] })
}

/// The forwarder's rule for the outcome of a read. `terminated` is the
/// termination flag as read after the read returned.
///
/// A failed read stops the forwarder with an error. An empty read stops it
/// cleanly if the process has exited, and otherwise asks for another read. A
/// read of `n > 0` bytes emits one frame, the tag and exactly those bytes, and
/// zeroes the part of the region they occupied.
pub open spec fn read_rule(s: ForwarderState, outcome: ReadOutcome, terminated: bool) -> (
    ForwarderState,
    Instruction,
) {
    match (s.status, outcome) {
        (ForwardStatus::Active, ReadOutcome::Failed) => (
            ForwarderState { status: ForwardStatus::Failed(ForwardError::Pipe), ..s },
            Instruction::Failed(ForwardError::Pipe),
        ),
        (ForwardStatus::Active, ReadOutcome::Read(n)) => if n == 0 {
            if terminated {
                (ForwarderState { status: ForwardStatus::Finished, ..s }, Instruction::Finished)
            } else {
                (s, Instruction::Read)
            }
        } else {
            let chunk = s.region.take(n as int);
            let frame = frame_of(s.source, chunk);
            (
                ForwarderState {
                    region: cleared(s.region, n as int),
                    drained: s.drained + chunk,
                    forwarded: s.forwarded.push(frame),
                    ..s
                },
                Instruction::Send(frame),
            )
        },
        _ => (s, verdict(s.status)),
    }
}

/// The forwarder's rule for the outcome of sending a frame: carry on reading
/// if it was delivered, stop with an error if not.
pub open spec fn sent_rule(s: ForwarderState, delivered: bool) -> (ForwarderState, Instruction) {
    match s.status {
        ForwardStatus::Active => if delivered {
            (s, Instruction::Read)
        } else {
            (
                ForwarderState { status: ForwardStatus::Failed(ForwardError::Sink), ..s },
                Instruction::Failed(ForwardError::Sink),
            )
        },
        _ => (s, verdict(s.status)),
    }
}

/// `read_rule` keeps the invariant for every read that fits the region.
pub proof fn lemma_read_rule_keeps_wf(s: ForwarderState, outcome: ReadOutcome, terminated: bool)
    requires
        s.wf(),
        outcome matches ReadOutcome::Read(n) ==> n <= MAX_CHUNK_SIZE,
    ensures
        read_rule(s, outcome, terminated).0.wf(),
{
    if let (ForwardStatus::Active, ReadOutcome::Read(n)) = (s.status, outcome) {
        if n > 0 {
            let chunk = s.region.take(n as int);
            let frame = frame_of(s.source, chunk);
            let next = read_rule(s, outcome, terminated).0;
            lemma_frame_of(s.source, chunk);
            lemma_joined_push(s.forwarded, frame);
            assert forall|i: int| 0 <= i < next.forwarded.len() implies well_formed_frame(
                #[trigger] next.forwarded[i],
            ) && tagged_for(next.forwarded[i], next.source) by {
                if i < s.forwarded.len() {
                    assert(next.forwarded[i] == s.forwarded[i]);
                }
            }
        }
    }
}

/// One stream's forwarder.
pub struct Forwarder {
    source: StreamSource,
    buffer: Vec<u8>,
    status: ForwardStatus,
    drained: Ghost<Seq<u8>>,
    forwarded: Ghost<Seq<Seq<u8>>>,
}

impl View for Forwarder {
    type V = ForwarderState;

    closed spec fn view(&self) -> ForwarderState {
        ForwarderState {
            source: self.source,
            status: self.status,
            region: self.buffer@.skip(1),
            drained: self.drained@,
            forwarded: self.forwarded@,
        }
    }
}

impl Forwarder {
    /// The buffer holds the tag of this stream, then the region.
    pub closed spec fn tag_in_place(&self) -> bool {
        self.buffer@.len() >= 1 && self.buffer@[0] == self.source.tag_spec()
    }

    /// The forwarder's invariant. Every function here keeps it.
    pub open spec fn wf(&self) -> bool {
        self.tag_in_place() && self@.wf()
    }

    /// A forwarder for `source`, about to make its first read.
    pub fn new(source: StreamSource) -> (forwarder: Forwarder)
        ensures
            forwarder.wf(),
            forwarder@ == ForwarderState::fresh(source),
    {
        let mut buffer: Vec<u8> = vec![0u8; MAX_CHUNK_SIZE + 1];
        buffer[0] = source.tag();
        let forwarder = Forwarder {
            source,
            buffer,
            status: ForwardStatus::Active,
            drained: Ghost(Seq::empty()),
            forwarded: Ghost(Seq::empty()),
        };
        assert(forwarder@.region =~= ForwarderState::fresh(source).region);
        forwarder
    }

    /// The stream this forwarder drains.
    pub fn source(&self) -> (source: StreamSource)
        ensures
            source == self@.source,
    {
        self.source
    }

    /// Whether the forwarder is still in its loop, and if not, how it left.
    pub fn status(&self) -> (status: ForwardStatus)
        ensures
            status == self@.status,
    {
        self.status
    }

    /// Whether the forwarder has left its loop.
    pub fn stopped(&self) -> (yes: bool)
        ensures
            yes <==> self@.status != ForwardStatus::Active,
    {
        match self.status {
            ForwardStatus::Active => false,
            _ => true,
        }
    }

    /// The region to read into: the `MAX_CHUNK_SIZE` bytes after the tag.
    ///
    /// Whatever is written there is all that changes. A slice cannot change
    /// its length, so the invariant survives every use of the borrow.
    pub fn region(&mut self) -> (region: &mut [u8])
        requires
            old(self).wf(),
        ensures
            region@ == old(self)@.region,
            final(self)@ == (ForwarderState { region: final(region)@, ..old(self)@ }),
            final(region)@.len() == region@.len() ==> final(self).wf(),
    {
        let (tag, region) = self.buffer.as_mut_slice().split_at_mut(1);
        region
    }

    /// Reports the outcome of a read into the region and says what to do
    /// next, as `read_rule` rules. `terminated` is the termination flag.
    ///
    /// A read cannot return more bytes than the region holds.
    pub fn on_read(&mut self, outcome: ReadOutcome, terminated: bool) -> (step: ForwardStep)
        requires
            old(self).wf(),
            outcome matches ReadOutcome::Read(n) ==> n <= MAX_CHUNK_SIZE,
        ensures
            final(self).wf(),
            (final(self)@, step@) == read_rule(old(self)@, outcome, terminated),
    {
        proof {
            lemma_read_rule_keeps_wf(self@, outcome, terminated);
        }
        match self.status {
            ForwardStatus::Active => {},
            ForwardStatus::Finished => {
                return ForwardStep::Finished;
            },
            ForwardStatus::Failed(error) => {
                return ForwardStep::Failed(error);
            },
        }
        match outcome {
            ReadOutcome::Failed => {
                self.status = ForwardStatus::Failed(ForwardError::Pipe);
                ForwardStep::Failed(ForwardError::Pipe)
            },
            ReadOutcome::Read(n) => {
                if n == 0 {
                    if terminated {
                        self.status = ForwardStatus::Finished;
                        ForwardStep::Finished
                    } else {
                        ForwardStep::Read
                    }
                } else {
                    let ghost before = self@;
                    let frame = slice_to_vec(slice_subrange(self.buffer.as_slice(), 0, n + 1));
                    assert(frame@ =~= frame_of(before.source, before.region.take(n as int)));
                    self.clear(n);
                    proof {
                        self.drained@ = before.drained + before.region.take(n as int);
                        self.forwarded@ = before.forwarded.push(frame@);
                    }
                    ForwardStep::Send(frame)
                }
            },
        }
    }

    /// Zeroes the first `n` bytes of the region.
    fn clear(&mut self, n: usize)
        requires
            old(self).tag_in_place(),
            n < old(self).buffer@.len(),
        ensures
            final(self).tag_in_place(),
            final(self)@ == (ForwarderState { region: cleared(old(self)@.region, n as int), ..old(self)@ }),
    {
        let mut i: usize = 1;
        while i <= n
            invariant
                1 <= i <= n + 1,
                n < self.buffer.len(),
                self.buffer@.len() == old(self).buffer@.len(),
                self.buffer@[0] == old(self).buffer@[0],
                self.source == old(self).source,
                self.status == old(self).status,
                self.drained == old(self).drained,
                self.forwarded == old(self).forwarded,
                forall|j: int| 1 <= j < i ==> self.buffer@[j] == 0,
                forall|j: int| i <= j < self.buffer@.len() ==> self.buffer@[j] == old(self).buffer@[j],
            decreases n + 1 - i,
        {
            self.buffer[i] = 0;
            i = i + 1;
        }
        assert(self@.region =~= cleared(old(self)@.region, n as int));
    }

    /// Reports whether the frame of the last `Send` was delivered and says
    /// what to do next, as `sent_rule` rules.
    pub fn on_sent(&mut self, delivered: bool) -> (step: ForwardStep)
        requires
            old(self).wf(),
        ensures
            final(self).wf(),
            (final(self)@, step@) == sent_rule(old(self)@, delivered),
    {
        match self.status {
            ForwardStatus::Active => {
                if delivered {
                    ForwardStep::Read
                } else {
                    self.status = ForwardStatus::Failed(ForwardError::Sink);
                    ForwardStep::Failed(ForwardError::Sink)
                }
            },
            ForwardStatus::Finished => ForwardStep::Finished,
            ForwardStatus::Failed(error) => ForwardStep::Failed(error),
        }
    }
}

/// What the client reassembles for each stream is what was read from that
/// stream's pipe: however the frames of the stdout and stderr forwarders are
/// merged on the connection, the payloads of the frames tagged for a stream,
/// joined in the order received, are exactly the bytes its forwarder has
/// drained.
pub proof fn law_streams_reassemble(out: ForwarderState, err: ForwarderState, sent: Seq<Seq<u8>>)
    requires
        out.wf(),
        err.wf(),
        out.source == StreamSource::Stdout,
        err.source == StreamSource::Stderr,
        interleaving(sent, out.forwarded, err.forwarded),
    ensures
        demultiplexed(sent, StreamSource::Stdout) == out.drained,
        demultiplexed(sent, StreamSource::Stderr) == err.drained,
{
    lemma_tags_separate(sent, out.forwarded, err.forwarded);
}

/// Every frame a forwarder emits starts with the tag of its own stream: 0 if
/// and only if it drains stdout, 1 if and only if it drains stderr, and never
/// another value.
pub proof fn law_tag_names_the_stream(s: ForwarderState, i: int)
    requires
        s.wf(),
        0 <= i < s.forwarded.len(),
    ensures
        s.forwarded[i].len() >= 1,
        s.forwarded[i][0] == STDOUT_CHUNK_PREFIX <==> s.source == StreamSource::Stdout,
        s.forwarded[i][0] == STDERR_CHUNK_PREFIX <==> s.source == StreamSource::Stderr,
        s.forwarded[i][0] == STDOUT_CHUNK_PREFIX || s.forwarded[i][0] == STDERR_CHUNK_PREFIX,
{
    assert(tagged_for(s.forwarded[i], s.source));
}

/// No frame a forwarder emits has an empty payload or one longer than
/// `MAX_CHUNK_SIZE`.
pub proof fn law_payload_is_bounded(s: ForwarderState, i: int)
    requires
        s.wf(),
        0 <= i < s.forwarded.len(),
    ensures
        1 <= payload_of(s.forwarded[i]).len() <= MAX_CHUNK_SIZE,
{
    assert(well_formed_frame(s.forwarded[i]));
}

/// One report to a forwarder: the outcome of a read together with the
/// termination flag, or whether the last frame was delivered.
pub enum Report {
    Read(ReadOutcome, bool),
    Sent(bool),
}

/// The forwarder's rule for either kind of report.
pub open spec fn react(s: ForwarderState, report: Report) -> (ForwarderState, Instruction) {
    match report {
        Report::Read(outcome, terminated) => read_rule(s, outcome, terminated),
        Report::Sent(delivered) => sent_rule(s, delivered),
    }
}

/// The state of a forwarder that was in `s` and was given `reports` in order.
pub open spec fn forwarder_after(s: ForwarderState, reports: Seq<Report>) -> ForwarderState
    decreases reports.len(),
{
    if reports.len() == 0 {
        s
    } else {
        react(forwarder_after(s, reports.drop_last()), reports.last()).0
    }
}

/// A forwarder that has left its loop emits nothing more: whatever is
/// reported to it, it hands out no frame and its state, history included,
/// stays as it is.
pub proof fn law_stopped_is_silent(s: ForwarderState, report: Report)
    requires
        s.status != ForwardStatus::Active,
    ensures
        react(s, report) == (s, verdict(s.status)),
        !(react(s, report).1 is Send),
{
}

/// Nor does it ever start again: however many reports follow its stop, each
/// is answered with the same verdict and none with a frame.
pub proof fn law_stopped_stays_silent(s: ForwarderState, reports: Seq<Report>, i: int)
    requires
        s.status != ForwardStatus::Active,
        0 <= i < reports.len(),
    ensures
        forwarder_after(s, reports.take(i)) == s,
        react(forwarder_after(s, reports.take(i)), reports[i]) == (s, verdict(s.status)),
        !(react(forwarder_after(s, reports.take(i)), reports[i]).1 is Send),
    decreases i,
{
    if i > 0 {
        law_stopped_stays_silent(s, reports, i - 1);
        assert(reports.take(i).drop_last() =~= reports.take(i - 1));
        assert(reports.take(i).last() == reports[i - 1]);
    }
    law_stopped_is_silent(s, reports[i]);
}

} // verus!
