//! The sender side of the streaming transcription client: audio chunks are
//! coalesced into batches, and a batch goes out as little-endian 16-bit PCM
//! once it is large enough or the flush interval has passed. The caller runs
//! the task (queue, timer, socket) and asks the batcher what to send.

use vstd::prelude::*;

verus! {

/// Samples per batch that trigger an immediate flush (about 100 ms at 48 kHz).
pub const FLUSH_THRESHOLD: usize = 4800;

/// Capacity, in chunks, of the queue between producer and sender task.
pub const CHUNK_QUEUE_CAPACITY: usize = 100;

/// Milliseconds after the last flush at which a partial batch is flushed.
pub const FLUSH_INTERVAL_MS: u64 = 100;

/// The control message that ends the audio stream before the socket closes.
pub const CLOSE_STREAM_MESSAGE: &'static str = "{\"type\":\"CloseStream\"}";

/// The two bytes of `x` in little-endian order (two's complement).
pub open spec fn sample_le(x: i16) -> Seq<u8> {
    let u: int = if x < 0 {
        x + 65536
    } else {
        x as int
    };
    seq![(u % 256) as u8, (u / 256) as u8]
}

/// `s` as raw little-endian 16-bit PCM.
pub open spec fn pcm_le(s: Seq<i16>) -> Seq<u8>
    decreases s.len(),
{
    if s.len() == 0 {
        Seq::empty()
    } else {
        pcm_le(s.drop_last()) + sample_le(s.last())
    }
}

/// Encoding distributes over concatenation.
pub proof fn lemma_pcm_le_concat(a: Seq<i16>, b: Seq<i16>)
    ensures
        pcm_le(a + b) == pcm_le(a) + pcm_le(b),
    decreases b.len(),
{
    if b.len() == 0 {
        assert(a + b =~= a);
        assert(pcm_le(a) + pcm_le(b) =~= pcm_le(a));
    } else {
        lemma_pcm_le_concat(a, b.drop_last());
        assert((a + b).drop_last() =~= a + b.drop_last());
        assert((a + b).last() == b.last());
        assert(pcm_le(a) + pcm_le(b.drop_last()) + sample_le(b.last()) =~= pcm_le(a) + (pcm_le(
            b.drop_last(),
        ) + sample_le(b.last())));
    }
}

/// Encodes samples as raw little-endian 16-bit PCM, two bytes per sample.
pub fn encode_pcm_le(samples: &[i16]) -> (bytes: Vec<u8>)
    ensures
        bytes@ == pcm_le(samples@),
        bytes@.len() == 2 * samples@.len(),
{
    let n = samples.len();
    let mut bytes: Vec<u8> = Vec::new();
    let mut i: usize = 0;
    while i < n
        invariant
            n == samples@.len(),
            i <= n,
            bytes@ == pcm_le(samples@.subrange(0, i as int)),
            bytes@.len() == 2 * i,
        decreases n - i,
    {
        let x = samples[i];
        let u: u32 = if x < 0 {
            (x as i32 + 65536) as u32
        } else {
            x as u32
        };
        bytes.push((u % 256) as u8);
        bytes.push((u / 256) as u8);
        proof {
            let s = samples@.subrange(0, i + 1);
            assert(s.drop_last() =~= samples@.subrange(0, i as int));
            assert(s.last() == x);
        }
        assert(bytes@ =~= pcm_le(samples@.subrange(0, i as int)) + sample_le(x));
        i = i + 1;
    }
    assert(samples@.subrange(0, n as int) =~= samples@);
    bytes
}

/// A batch is due once it is non-empty and either holds `threshold`
/// samples or the flush interval has passed.
pub open spec fn flush_due(pending: Seq<i16>, threshold: nat, deadline_passed: bool) -> bool {
    pending.len() > 0 && (pending.len() >= threshold || deadline_passed)
}

/// What the sender task is told, in spec form.
pub enum SenderInput {
    /// A chunk arrived; whether the flush deadline had passed when it did.
    Chunk(Seq<i16>, bool),
    /// The interval timer fired; whether the flush deadline had passed.
    Tick(bool),
}

/// The pending batch after `input`, and the bytes flushed by it (empty when
/// nothing was flushed), when the flush is sent: the batcher keeps a flushed
/// batch until `mark_sent` confirms it, and this is the state after that.
pub open spec fn sender_step(pending: Seq<i16>, threshold: nat, input: SenderInput) -> (
    Seq<i16>,
    Seq<u8>,
) {
    match input {
        SenderInput::Chunk(chunk, deadline_passed) => {
            let p = pending + chunk;
            if flush_due(p, threshold, deadline_passed) {
                (Seq::empty(), pcm_le(p))
            } else {
                (p, Seq::empty())
            }
        },
        SenderInput::Tick(deadline_passed) => {
            if pending.len() > 0 && deadline_passed {
                (Seq::empty(), pcm_le(pending))
            } else {
                (pending, Seq::empty())
            }
        },
    }
}

/// The pending batch after `inputs`, and all bytes flushed meanwhile, in order.
pub open spec fn sender_run(pending: Seq<i16>, threshold: nat, inputs: Seq<SenderInput>) -> (
    Seq<i16>,
    Seq<u8>,
)
    decreases inputs.len(),
{
    if inputs.len() == 0 {
        (pending, Seq::empty())
    } else {
        let (p, sent) = sender_run(pending, threshold, inputs.drop_last());
        let (p2, out) = sender_step(p, threshold, inputs.last());
        (p2, sent + out)
    }
}

/// The samples carried by the chunks among `inputs`, in order.
pub open spec fn chunk_samples(inputs: Seq<SenderInput>) -> Seq<i16>
    decreases inputs.len(),
{
    if inputs.len() == 0 {
        Seq::empty()
    } else {
        chunk_samples(inputs.drop_last()) + match inputs.last() {
            SenderInput::Chunk(chunk, _) => chunk,
            SenderInput::Tick(_) => Seq::empty(),
        }
    }
}

/// The concatenation of `chunks`.
pub open spec fn concat_chunks(chunks: Seq<Seq<i16>>) -> Seq<i16>
    decreases chunks.len(),
{
    if chunks.len() == 0 {
        Seq::empty()
    } else {
        concat_chunks(chunks.drop_last()) + chunks.last()
    }
}

/// `chunks` arriving one after another before the flush deadline.
pub open spec fn on_time(chunks: Seq<Seq<i16>>) -> Seq<SenderInput> {
    Seq::new(chunks.len(), |i: int| SenderInput::Chunk(chunks[i], false))
}

/// Nothing is dropped or reordered: whatever chunks and timer ticks arrive,
/// the bytes flushed along the way followed by the encoding of the batch
/// still pending (what the final flush sends before the end-of-stream
/// message) are the PCM encoding of everything pending before plus every
/// chunk, in arrival order.
pub proof fn lemma_sender_keeps_every_sample(
    pending: Seq<i16>,
    threshold: nat,
    inputs: Seq<SenderInput>,
)
    ensures
        ({
            let (p, sent) = sender_run(pending, threshold, inputs);
            sent + pcm_le(p) == pcm_le(pending + chunk_samples(inputs))
        }),
    decreases inputs.len(),
{
    if inputs.len() == 0 {
        assert(pending + Seq::<i16>::empty() =~= pending);
        assert(Seq::<u8>::empty() + pcm_le(pending) =~= pcm_le(pending));
    } else {
        lemma_sender_keeps_every_sample(pending, threshold, inputs.drop_last());
        let (p0, sent0) = sender_run(pending, threshold, inputs.drop_last());
        let before = pending + chunk_samples(inputs.drop_last());
        match inputs.last() {
            SenderInput::Chunk(c, dp) => {
                lemma_pcm_le_concat(p0, c);
                lemma_pcm_le_concat(before, c);
                assert(pending + chunk_samples(inputs) =~= before + c);
                if flush_due(p0 + c, threshold, dp) {
                    assert(sent0 + pcm_le(p0 + c) + pcm_le(Seq::<i16>::empty()) =~= sent0 + (pcm_le(
                        p0,
                    ) + pcm_le(c)));
                } else {
                    assert(sent0 + Seq::<u8>::empty() + pcm_le(p0 + c) =~= sent0 + (pcm_le(p0)
                        + pcm_le(c)));
                }
            },
            SenderInput::Tick(dp) => {
                assert(pending + chunk_samples(inputs) =~= before);
                if p0.len() > 0 && dp {
                    assert(sent0 + pcm_le(p0) + pcm_le(Seq::<i16>::empty()) =~= sent0 + pcm_le(p0));
                } else {
                    assert(sent0 + Seq::<u8>::empty() + pcm_le(p0) =~= sent0 + pcm_le(p0));
                }
            },
        }
    }
}

proof fn lemma_below_threshold(threshold: nat, chunks: Seq<Seq<i16>>)
    requires
        concat_chunks(chunks).len() < threshold,
    ensures
        sender_run(Seq::empty(), threshold, on_time(chunks)) == (
            concat_chunks(chunks),
            Seq::<u8>::empty(),
        ),
    decreases chunks.len(),
{
    if chunks.len() > 0 {
        assert(on_time(chunks).drop_last() =~= on_time(chunks.drop_last()));
        lemma_below_threshold(threshold, chunks.drop_last());
        assert(Seq::<u8>::empty() + Seq::<u8>::empty() =~= Seq::<u8>::empty());
    } else {
        assert(on_time(chunks) =~= Seq::<SenderInput>::empty());
    }
}

/// A batch that reaches the threshold before the flush deadline is flushed at
/// once and whole: starting from an empty batch, when chunks arrive before
/// the deadline and only the last brings the total to `threshold`, nothing is
/// sent before the last chunk, and the last sends the PCM encoding of all of
/// them and leaves the batch empty.
pub proof fn lemma_threshold_flush(threshold: nat, chunks: Seq<Seq<i16>>)
    requires
        threshold > 0,
        chunks.len() > 0,
        concat_chunks(chunks.drop_last()).len() < threshold <= concat_chunks(chunks).len(),
    ensures
        sender_run(Seq::empty(), threshold, on_time(chunks.drop_last())) == (
            concat_chunks(chunks.drop_last()),
            Seq::<u8>::empty(),
        ),
        sender_run(Seq::empty(), threshold, on_time(chunks)) == (
            Seq::<i16>::empty(),
            pcm_le(concat_chunks(chunks)),
        ),
{
    lemma_below_threshold(threshold, chunks.drop_last());
    assert(on_time(chunks).drop_last() =~= on_time(chunks.drop_last()));
    assert(Seq::<u8>::empty() + pcm_le(concat_chunks(chunks)) =~= pcm_le(concat_chunks(chunks)));
}

/// A batch below the threshold is still flushed when the timer finds the
/// deadline passed: after chunks that arrived before the deadline and stay
/// below `threshold`, a tick past the deadline sends the PCM encoding of all
/// of them and leaves the batch empty.
pub proof fn lemma_timer_flush(threshold: nat, chunks: Seq<Seq<i16>>)
    requires
        0 < concat_chunks(chunks).len() < threshold,
    ensures
        sender_run(Seq::empty(), threshold, on_time(chunks).push(SenderInput::Tick(true))) == (
            Seq::<i16>::empty(),
            pcm_le(concat_chunks(chunks)),
        ),
{
    lemma_below_threshold(threshold, chunks);
    assert(on_time(chunks).push(SenderInput::Tick(true)).drop_last() =~= on_time(chunks));
    assert(Seq::<u8>::empty() + pcm_le(concat_chunks(chunks)) =~= pcm_le(concat_chunks(chunks)));
}

/// Batches audio chunks for the sender task.
pub struct AudioBatcher {
    buffer: Vec<i16>,
    threshold: usize,
}

/// The batcher's state: the samples awaiting a flush, and the batch size that
/// triggers one.
pub struct BatcherView {
    pub pending: Seq<i16>,
    pub threshold: nat,
}

impl View for AudioBatcher {
    type V = BatcherView;

    closed spec fn view(&self) -> BatcherView {
        BatcherView { pending: self.buffer@, threshold: self.threshold as nat }
    }
}

impl AudioBatcher {
    /// An empty batcher that flushes at `threshold` samples.
    pub fn new(threshold: usize) -> (r: Self)
        ensures
            r@.pending.len() == 0,
            r@.threshold == threshold,
    {
        AudioBatcher { buffer: Vec::new(), threshold }
    }

    /// Samples awaiting a flush.
    pub fn pending_len(&self) -> (r: usize)
        ensures
            r == self@.pending.len(),
    {
        self.buffer.len()
    }

    /// A chunk arrived from the queue. It joins the batch; the batch is
    /// returned for sending when it has reached the threshold or the flush
    /// deadline has passed (`deadline_passed`). The batch stays pending until
    /// `mark_sent` confirms the send; with that confirmation, a push is one
    /// step of `sender_step`.
    pub fn push_chunk(&mut self, chunk: &[i16], deadline_passed: bool) -> (flush: Option<Vec<u8>>)
        ensures
            final(self)@ == (BatcherView { pending: old(self)@.pending + chunk@, ..old(self)@ }),
            match flush {
                Some(bytes) => flush_due(old(self)@.pending + chunk@, old(self)@.threshold, deadline_passed)
                    && bytes@ == pcm_le(old(self)@.pending + chunk@),
                None => !flush_due(old(self)@.pending + chunk@, old(self)@.threshold, deadline_passed),
            },
            ({
                let (p, out) = sender_step(
                    old(self)@.pending,
                    old(self)@.threshold,
                    SenderInput::Chunk(chunk@, deadline_passed),
                );
                match flush {
                    Some(bytes) => p == Seq::<i16>::empty() && out == bytes@,
                    None => p == final(self)@.pending && out.len() == 0,
                }
            }),
    {
        let ghost before = self.buffer@;
        self.buffer.extend_from_slice(chunk);
        assert forall|i: int| 0 <= i < self.buffer@.len() implies #[trigger] self.buffer@[i] == (
        before + chunk@)[i] by {
            if i >= before.len() {
                assert(cloned::<i16>(chunk@[i - before.len()], self.buffer@[i]));
            }
        }
        assert(self.buffer@ =~= before + chunk@);
        if self.buffer.len() > 0 && (self.buffer.len() >= self.threshold || deadline_passed) {
            Some(encode_pcm_le(self.buffer.as_slice()))
        } else {
            None
        }
    }

    /// The interval timer fired. A non-empty batch is returned for sending
    /// once the flush deadline has passed; it stays pending until `mark_sent`.
    pub fn on_tick(&self, deadline_passed: bool) -> (flush: Option<Vec<u8>>)
        ensures
            match flush {
                Some(bytes) => self@.pending.len() > 0 && deadline_passed && bytes@ == pcm_le(
                    self@.pending,
                ),
                None => !(self@.pending.len() > 0 && deadline_passed),
            },
            ({
                let (p, out) = sender_step(
                    self@.pending,
                    self@.threshold,
                    SenderInput::Tick(deadline_passed),
                );
                match flush {
                    Some(bytes) => p == Seq::<i16>::empty() && out == bytes@,
                    None => p == self@.pending && out.len() == 0,
                }
            }),
    {
        if self.buffer.len() > 0 && deadline_passed {
            Some(encode_pcm_le(self.buffer.as_slice()))
        } else {
            None
        }
    }

    /// The queue closed: the partial batch, if any, to send before the
    /// end-of-stream message; it stays pending until `mark_sent`.
    pub fn finish(&self) -> (flush: Option<Vec<u8>>)
        ensures
            match flush {
                Some(bytes) => self@.pending.len() > 0 && bytes@ == pcm_le(self@.pending),
                None => self@.pending.len() == 0,
            },
    {
        if self.buffer.len() > 0 {
            Some(encode_pcm_le(self.buffer.as_slice()))
        } else {
            None
        }
    }

    /// The batch last handed out was sent: it leaves the batcher. Until this
    /// is called, a batch whose send failed is still pending.
    pub fn mark_sent(&mut self)
        ensures
            final(self)@ == (BatcherView { pending: Seq::empty(), ..old(self)@ }),
    {
        self.buffer.clear();
    }
}

} // verus!
