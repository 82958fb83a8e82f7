//! Steps of the non-blocking pipe transfers. The event loop performs each
//! read or write and hands its outcome to the transfer, which decides
//! whether to call again, wait for readiness, or finish and deregister.
use vstd::prelude::*;
use crate::data::{copy_bytes, ClipboardData};
use crate::error::ClipboardError;
use crate::mime::{normalize_lf_bytes, normalized_bytes};

verus! {

/// The outcome of one read from a pipe.
pub enum ReadOutcome {
    /// Some bytes were read.
    Chunk(Vec<u8>),
    /// The read returned 0 bytes: the writer closed the pipe.
    Eof,
    /// No byte is available yet.
    WouldBlock,
    /// Any other error, with its description.
    Failed(String),
}

/// Where the bytes of a read transfer go.
#[derive(Debug, Clone, Copy, PartialEq, Eq, Structural)]
pub enum ReadOrigin {
    /// A selection load: the reply channel.
    Selection,
    /// A drag-and-drop peek: the reply channel; the offer is not finished.
    DndPeek,
    /// The load after a drop: a data event, then the offer is finished.
    DndDrop,
}

/// What the event loop does after a read.
pub enum ReadStep {
    /// Read again now.
    ReadAgain,
    /// Keep the pipe registered and wait for readiness.
    Wait,
    /// Deregister and deliver the data to where `origin` says.
    Complete { data: ClipboardData, origin: ReadOrigin },
    /// Deregister and deliver the error.
    Fail(ClipboardError),
}

/// A read transfer: accumulates bytes until EOF.
pub struct ReadTransfer {
    /// The MIME type being read.
    pub mime_type: String,
    /// Where the bytes go.
    pub origin: ReadOrigin,
    /// Whether line endings are normalized on completion.
    pub normalize: bool,
    /// The bytes read so far.
    pub buffer: Vec<u8>,
}

/// The payload a completed read delivers.
pub open spec fn delivered(buffer: Seq<u8>, normalize: bool) -> Seq<u8> {
    if normalize {
        normalized_bytes(buffer)
    } else {
        buffer
    }
}

impl ReadTransfer {
    /// A read transfer with an empty buffer.
    pub fn new(mime_type: String, origin: ReadOrigin, normalize: bool) -> (r: ReadTransfer)
        ensures
            r.mime_type == mime_type,
            r.origin == origin,
            r.normalize == normalize,
            r.buffer@.len() == 0,
    {
        ReadTransfer { mime_type, origin, normalize, buffer: Vec::new() }
    }

    /// Takes the outcome of one read.
    pub fn on_read(&mut self, outcome: ReadOutcome) -> (r: ReadStep)
        ensures
            final(self).mime_type == old(self).mime_type,
            final(self).origin == old(self).origin,
            final(self).normalize == old(self).normalize,
            match outcome {
                ReadOutcome::Chunk(c) => r is ReadAgain && final(self).buffer@ == old(self).buffer@ + c@,
                ReadOutcome::Eof => match r {
                    ReadStep::Complete { data, origin } => {
                        &&& data.mime_type@ == old(self).mime_type@
                        &&& data.data@ == delivered(old(self).buffer@, old(self).normalize)
                        &&& origin == old(self).origin
                    },
                    _ => false,
                },
                ReadOutcome::WouldBlock => r is Wait && final(self).buffer@ == old(self).buffer@,
                ReadOutcome::Failed(e) => r matches ReadStep::Fail(ClipboardError::Io(m)) && m@ == e@,
            },
    {
        match outcome {
            ReadOutcome::Chunk(c) => {
                let mut i: usize = 0;
                let ghost start = self.buffer@;
                while i < c.len()
                    invariant
                        0 <= i <= c@.len(),
                        self.buffer@ == start + c@.subrange(0, i as int),
                        self.mime_type == old(self).mime_type,
                        self.origin == old(self).origin,
                        self.normalize == old(self).normalize,
                    decreases c@.len() - i,
                {
                    self.buffer.push(c[i]);
                    i = i + 1;
                    assert(self.buffer@ =~= start + c@.subrange(0, i as int));
                }
                assert(c@.subrange(0, c@.len() as int) =~= c@);
                ReadStep::ReadAgain
            },
            ReadOutcome::Eof => {
                let bytes = if self.normalize {
                    normalize_lf_bytes(self.buffer.as_slice())
                } else {
                    copy_bytes(self.buffer.as_slice())
                };
                ReadStep::Complete {
                    data: ClipboardData::new(self.mime_type.clone(), bytes),
                    origin: self.origin,
                }
            },
            ReadOutcome::WouldBlock => ReadStep::Wait,
            ReadOutcome::Failed(e) => ReadStep::Fail(ClipboardError::Io(e)),
        }
    }
}

/// The outcome of one write to a pipe.
#[derive(Debug, Clone, Copy, PartialEq, Eq, Structural)]
pub enum WriteOutcome {
    /// The pipe took this many bytes.
    Wrote(usize),
    /// The pipe is full.
    WouldBlock,
    /// Any other error: the reader went away.
    Failed,
}

/// What the event loop does after a write.
#[derive(Debug, Clone, Copy, PartialEq, Eq, Structural)]
pub enum WriteStep {
    /// Write the rest now.
    WriteAgain,
    /// Keep the pipe registered and wait for readiness.
    Wait,
    /// All bytes are written: deregister.
    Done,
    /// The transfer failed: deregister silently.
    Abort,
}

/// How a write outcome moves a transfer that has written `written` of `len`
/// bytes: the new count and the step.
pub open spec fn write_step(written: nat, len: nat, outcome: WriteOutcome) -> (nat, WriteStep) {
    match outcome {
        WriteOutcome::Wrote(n) => if written + n == len {
            (len, WriteStep::Done)
        } else if n == 0 || written + n > len {
            (written, WriteStep::Abort)
        } else {
            ((written + n) as nat, WriteStep::WriteAgain)
        },
        WriteOutcome::WouldBlock => (written, WriteStep::Wait),
        WriteOutcome::Failed => (written, WriteStep::Abort),
    }
}

/// A write transfer: sends a payload, possibly over many writes.
pub struct WriteTransfer {
    payload: Vec<u8>,
    written: usize,
}

impl WriteTransfer {
    /// The payload being sent.
    pub closed spec fn payload(&self) -> Seq<u8> {
        self.payload@
    }

    /// How many bytes were written so far.
    pub closed spec fn written(&self) -> nat {
        self.written as nat
    }

    /// The count never exceeds the payload.
    pub closed spec fn wf(&self) -> bool {
        self.written <= self.payload@.len()
    }

    /// A transfer of `payload` with nothing written yet.
    pub fn new(payload: Vec<u8>) -> (r: WriteTransfer)
        ensures
            r.wf(),
            r.payload() == payload@,
            r.written() == 0,
    {
        WriteTransfer { payload, written: 0 }
    }

    /// The bytes still to write.
    pub fn remaining(&self) -> (r: &[u8])
        requires
            self.wf(),
        ensures
            r@ == self.payload().subrange(self.written() as int, self.payload().len() as int),
    {
        let s = self.payload.as_slice();
        let (_, rest) = s.split_at(self.written);
        rest
    }

    /// How many bytes were written so far.
    pub fn written_len(&self) -> (r: usize)
        ensures
            r == self.written(),
    {
        self.written
    }

    /// Takes the outcome of one write of `remaining()`.
    pub fn on_write(&mut self, outcome: WriteOutcome) -> (r: WriteStep)
        requires
            old(self).wf(),
        ensures
            final(self).wf(),
            final(self).payload() == old(self).payload(),
            (final(self).written(), r) == write_step(old(self).written(), old(self).payload().len(), outcome),
    {
        match outcome {
            WriteOutcome::Wrote(n) => {
                let len = self.payload.len();
                let left = len - self.written;
                if n == left {
                    self.written = len;
                    WriteStep::Done
                } else if n == 0 || n > left {
                    WriteStep::Abort
                } else {
                    self.written = self.written + n;
                    WriteStep::WriteAgain
                }
            },
            WriteOutcome::WouldBlock => WriteStep::Wait,
            WriteOutcome::Failed => WriteStep::Abort,
        }
    }
}

/// A pipe that takes at most `cap` bytes per write and answers every
/// second call with would-block: the run of a write transfer over it from
/// `written` of `len` bytes, as the steps it returns.
pub open spec fn throttled_run(written: nat, len: nat, cap: nat) -> Seq<WriteStep>
    decreases len - written, 0nat,
{
    if written >= len || cap == 0 || len > usize::MAX {
        seq![write_step(written, len, WriteOutcome::Wrote(0)).1]
    } else {
        let n = if len - written < cap { (len - written) as nat } else { cap };
        let (w, step) = write_step(written, len, WriteOutcome::Wrote(n as usize));
        if step == WriteStep::Done {
            seq![step]
        } else {
            seq![step, write_step(w, len, WriteOutcome::WouldBlock).1] + throttled_run(w, len, cap)
        }
    }
}

/// The number of `Done` steps in a run.
pub open spec fn done_count(steps: Seq<WriteStep>) -> nat
    decreases steps.len(),
{
    if steps.len() == 0 {
        0
    } else {
        (if steps.last() == WriteStep::Done { 1nat } else { 0nat }) + done_count(steps.drop_last())
    }
}

proof fn lemma_done_count_append(a: Seq<WriteStep>, b: Seq<WriteStep>)
    ensures
        done_count(a + b) == done_count(a) + done_count(b),
    decreases b.len(),
{
    if b.len() == 0 {
        assert(a + b =~= a);
    } else {
        assert((a + b).drop_last() =~= a + b.drop_last());
        lemma_done_count_append(a, b.drop_last());
    }
}

/// A payload of any size sent through a pipe that takes only a few bytes
/// per write, and blocks in between, completes: the run ends with `Done`,
/// holds no `Abort`, and deregisters exactly once.
pub proof fn lemma_throttled_write_completes(written: nat, len: nat, cap: nat)
    requires
        written < len,
        0 < cap,
        len <= usize::MAX,
    ensures
        throttled_run(written, len, cap).last() == WriteStep::Done,
        done_count(throttled_run(written, len, cap)) == 1,
        forall|i: int| 0 <= i < throttled_run(written, len, cap).len() ==> #[trigger] throttled_run(written, len, cap)[i] != WriteStep::Abort,
    decreases len - written,
{
    let n: nat = if len - written < cap { (len - written) as nat } else { cap };
    let (w, step) = write_step(written, len, WriteOutcome::Wrote(n as usize));
    let run = throttled_run(written, len, cap);
    if step == WriteStep::Done {
        assert(run =~= seq![WriteStep::Done]);
        assert(done_count(seq![WriteStep::Done].drop_last()) == 0);
    } else {
        assert(w == written + n);
        assert(w < len);
        lemma_throttled_write_completes(w, len, cap);
        let head = seq![step, WriteStep::Wait];
        let tail = throttled_run(w, len, cap);
        assert(run =~= head + tail);
        lemma_done_count_append(head, tail);
        assert(head.drop_last() =~= seq![step]);
        assert(head.last() == WriteStep::Wait);
        assert(seq![step].drop_last() =~= Seq::<WriteStep>::empty());
        assert(seq![step].last() == step);
        assert(done_count(Seq::<WriteStep>::empty()) == 0);
        assert(done_count(seq![step]) == 0);
        assert(done_count(head) == 0);
        assert forall|i: int| 0 <= i < run.len() implies #[trigger] run[i] != WriteStep::Abort by {
            if i >= 2 {
                assert(run[i] == tail[i - 2]);
            }
        }
    }
}


/// Whether `outs` are answers of a pipe that, to a transfer at `written`
/// of `len` bytes, takes between 1 and `k` bytes per write and never more
/// than it was handed, or would block.
pub open spec fn bounded_pipe(written: nat, len: nat, k: nat, outs: Seq<WriteOutcome>) -> bool
    decreases outs.len(),
{
    if outs.len() == 0 {
        true
    } else {
        match outs[0] {
            WriteOutcome::WouldBlock => bounded_pipe(written, len, k, outs.drop_first()),
            WriteOutcome::Wrote(n) => 1 <= n <= k && written + n <= len && bounded_pipe(
                (written + n) as nat,
                len,
                k,
                outs.drop_first(),
            ),
            WriteOutcome::Failed => false,
        }
    }
}

/// The bytes a sequence of answers reports as written.
pub open spec fn total_written(outs: Seq<WriteOutcome>) -> nat
    decreases outs.len(),
{
    if outs.len() == 0 {
        0
    } else {
        (match outs[0] {
            WriteOutcome::Wrote(n) => n as nat,
            _ => 0nat,
        }) + total_written(outs.drop_first())
    }
}

/// A transfer at `written` of `len` bytes fed the answers `outs`: the count
/// it ends at and the steps it returns, up to the step that deregisters.
pub open spec fn write_run(written: nat, len: nat, outs: Seq<WriteOutcome>) -> (nat, Seq<WriteStep>)
    decreases outs.len(),
{
    if outs.len() == 0 {
        (written, seq![])
    } else {
        let (w, step) = write_step(written, len, outs[0]);
        if step == WriteStep::Done || step == WriteStep::Abort {
            (w, seq![step])
        } else {
            let (w2, rest) = write_run(w, len, outs.drop_first());
            (w2, seq![step] + rest)
        }
    }
}

/// Over a pipe that takes at most `k` bytes per write and otherwise would
/// block, a write transfer never aborts, never counts past the payload, and
/// deregisters exactly once, when the whole payload is written; once the
/// pipe has taken as many bytes as were left, it has deregistered.
pub proof fn lemma_bounded_write(written: nat, len: nat, k: nat, outs: Seq<WriteOutcome>)
    requires
        written < len,
        bounded_pipe(written, len, k, outs),
    ensures
        write_run(written, len, outs).0 <= len,
        forall|i: int| 0 <= i < write_run(written, len, outs).1.len() ==> #[trigger] write_run(written, len, outs).1[i]
            != WriteStep::Abort,
        done_count(write_run(written, len, outs).1) == if write_run(written, len, outs).0 == len { 1nat } else { 0nat },
        write_run(written, len, outs).0 == len ==> write_run(written, len, outs).1.last() == WriteStep::Done,
        total_written(outs) >= len - written ==> write_run(written, len, outs).0 == len,
    decreases outs.len(),
{
    let run = write_run(written, len, outs);
    if outs.len() == 0 {
        assert(done_count(run.1) == 0);
    } else {
        let (w, step) = write_step(written, len, outs[0]);
        if step == WriteStep::Done {
            assert(run.1 =~= seq![WriteStep::Done]);
            assert(seq![WriteStep::Done].drop_last() =~= Seq::<WriteStep>::empty());
            assert(done_count(Seq::<WriteStep>::empty()) == 0);
        } else {
            let rest_outs = outs.drop_first();
            assert(step != WriteStep::Abort);
            assert(w < len);
            lemma_bounded_write(w, len, k, rest_outs);
            let tail = write_run(w, len, rest_outs).1;
            assert(run.1 =~= seq![step] + tail);
            lemma_done_count_append(seq![step], tail);
            assert(seq![step].drop_last() =~= Seq::<WriteStep>::empty());
            assert(done_count(Seq::<WriteStep>::empty()) == 0);
            assert(done_count(seq![step]) == 0);
            assert forall|i: int| 0 <= i < run.1.len() implies #[trigger] run.1[i] != WriteStep::Abort by {
                if i >= 1 {
                    assert(run.1[i] == tail[i - 1]);
                }
            }
            if run.0 == len {
                if tail.len() == 0 {
                    assert(run.0 == w);
                } else {
                    assert(run.1.last() == tail.last());
                }
            }
        }
    }
}


/// Writing the first `n` bytes of what remains after `written` extends the
/// written prefix of the payload by exactly those bytes, in order.
pub proof fn lemma_written_pieces(payload: Seq<u8>, written: nat, n: nat)
    requires
        written + n <= payload.len(),
    ensures
        payload.subrange(0, written as int) + payload.subrange(written as int, payload.len() as int).subrange(0, n as int)
            == payload.subrange(0, (written + n) as int),
{
    assert(payload.subrange(0, written as int) + payload.subrange(written as int, payload.len() as int).subrange(0, n as int)
        =~= payload.subrange(0, (written + n) as int));
}

} // verus!
