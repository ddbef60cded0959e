use vstd::prelude::*;
use vstd::string::*;

verus! {

/// Where a single-request S3 writer stands.
#[derive(Debug, PartialEq, Eq, Structural, Clone, Copy)]
pub enum PutPhase {
    /// Bytes are being collected.
    Writing,
    /// The `PutObject` request is under way.
    Closing,
    /// The request has finished.
    Closed,
}

/// Why a step of a single-request S3 writer was refused.
#[derive(Debug, PartialEq, Eq, Structural, Clone, Copy)]
pub enum PutObjectError {
    /// A write came after close began.
    BadWrite,
    /// A flush came after close began.
    BadFlush,
    /// A close came after the request had finished.
    BadClose,
}

impl PutObjectError {
    /// The error's message.
    pub fn message(&self) -> (r: String)
        ensures
            r@ == match *self {
                PutObjectError::BadWrite => "bad poll_write"@,
                PutObjectError::BadFlush => "bad poll_flush"@,
                PutObjectError::BadClose => "bad poll_close"@,
            },
    {
        match *self {
            PutObjectError::BadWrite => String::from_str("bad poll_write"),
            PutObjectError::BadFlush => String::from_str("bad poll_flush"),
            PutObjectError::BadClose => String::from_str("bad poll_close"),
        }
    }
}

/// What a close step decided.
#[derive(Debug)]
pub enum PutCloseStep {
    /// Send one `PutObject` request with this body.
    Upload(Vec<u8>),
    /// The request is under way and is to be polled.
    AwaitUpload,
    /// The writer has already closed.
    Refused(PutObjectError),
}

/// The abstract state of a [PutObjectState].
pub struct PutView {
    pub phase: PutPhase,
    /// The bytes collected for the body.
    pub buffer: Seq<u8>,
    /// Every byte accepted by a write, in order.
    pub written: Seq<u8>,
}

/// The decision-making state behind an S3 writer that sends the whole object
/// in one `PutObject` request when it is closed.
pub struct PutObjectState {
    phase: PutPhase,
    buffer: Vec<u8>,
    written: Ghost<Seq<u8>>,
}

impl View for PutObjectState {
    type V = PutView;

    closed spec fn view(&self) -> PutView {
        PutView { phase: self.phase, buffer: self.buffer@, written: self.written@ }
    }
}

impl PutView {
    /// While writing, the buffer holds every byte written.
    pub open spec fn wf(self) -> bool {
        self.phase == PutPhase::Writing ==> self.buffer == self.written
    }
}

impl PutObjectState {
    /// A writer that has collected nothing.
    pub fn new() -> (r: PutObjectState)
        ensures
            r@.wf(),
            r@ == (PutView { phase: PutPhase::Writing, buffer: Seq::empty(), written: Seq::empty() }),
    {
        PutObjectState { phase: PutPhase::Writing, buffer: Vec::new(), written: Ghost(Seq::empty()) }
    }

    /// The writer's phase.
    pub fn phase(&self) -> (p: PutPhase)
        ensures
            p == self@.phase,
    {
        self.phase
    }

    /// Collects all of `buf` while writing; refuses once closing has begun.
    pub fn write(&mut self, buf: &[u8]) -> (r: Result<usize, PutObjectError>)
        requires
            old(self)@.wf(),
        ensures
            final(self)@.wf(),
            old(self)@.phase == PutPhase::Writing ==> r == Ok::<usize, PutObjectError>(buf@.len() as usize)
                && final(self)@ == (PutView {
                buffer: old(self)@.buffer + buf@,
                written: old(self)@.written + buf@,
                ..old(self)@
            }),
            old(self)@.phase != PutPhase::Writing ==> r == Err::<usize, _>(PutObjectError::BadWrite)
                && final(self)@ == old(self)@,
    {
        if self.phase != PutPhase::Writing {
            return Err(PutObjectError::BadWrite);
        }
        let ghost start = self@;
        let mut i: usize = 0;
        while i < buf.len()
            invariant
                i <= buf@.len(),
                self@ == (PutView {
                    buffer: start.buffer + buf@.take(i as int),
                    written: start.written + buf@.take(i as int),
                    ..start
                }),
            decreases buf@.len() - i,
        {
            self.buffer.push(buf[i]);
            proof {
                self.written@ = self.written@.push(buf@[i as int]);
                assert(buf@.take(i + 1) =~= buf@.take(i as int).push(buf@[i as int]));
            }
            i = i + 1;
        }
        assert(buf@.take(i as int) =~= buf@);
        Ok(buf.len())
    }

    /// Nothing is pending while writing; refuses once closing has begun.
    pub fn flush(&self) -> (r: Result<(), PutObjectError>)
        ensures
            r == (if self@.phase == PutPhase::Writing {
                Ok::<(), PutObjectError>(())
            } else {
                Err(PutObjectError::BadFlush)
            }),
    {
        if self.phase == PutPhase::Writing {
            Ok(())
        } else {
            Err(PutObjectError::BadFlush)
        }
    }

    /// Closes: the first call hands out the body, which is every byte that
    /// was written; later calls while the request runs ask for it to be polled.
    pub fn close(&mut self) -> (step: PutCloseStep)
        requires
            old(self)@.wf(),
        ensures
            final(self)@.wf(),
            old(self)@.phase == PutPhase::Writing ==> step is Upload && step->Upload_0@ == old(self)@.written
                && final(self)@ == (PutView {
                phase: PutPhase::Closing,
                buffer: Seq::empty(),
                ..old(self)@
            }),
            old(self)@.phase == PutPhase::Closing ==> step is AwaitUpload && final(self)@ == old(self)@,
            old(self)@.phase == PutPhase::Closed ==> step is Refused && step->Refused_0
                == PutObjectError::BadClose && final(self)@ == old(self)@,
    {
        match self.phase {
            PutPhase::Writing => {
                let mut body: Vec<u8> = Vec::new();
                std::mem::swap(&mut body, &mut self.buffer);
                self.phase = PutPhase::Closing;
                PutCloseStep::Upload(body)
            },
            PutPhase::Closing => PutCloseStep::AwaitUpload,
            PutPhase::Closed => PutCloseStep::Refused(PutObjectError::BadClose),
        }
    }

    /// The request has finished, successfully or not: the writer is closed.
    pub fn upload_finished(&mut self)
        requires
            old(self)@.phase == PutPhase::Closing,
        ensures
            final(self)@ == (PutView { phase: PutPhase::Closed, ..old(self)@ }),
    {
        self.phase = PutPhase::Closed;
    }
}

} // verus!
