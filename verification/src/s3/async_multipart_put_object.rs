use vstd::prelude::*;
use vstd::multiset::Multiset;
use vstd::string::*;

use crate::text::{decimal, push_decimal};
use crate::s3::completed_part::{part_number_seq, part_numbers, sort_by_part_number, sorted_by_part_number, CompletedPart};

verus! {

broadcast use vstd::seq_lib::group_to_multiset_ensures, vstd::multiset::group_multiset_axioms;

/// The smallest part of a multipart upload, 5 MiB.
pub const MIN_PART_SIZE: usize = 5242880;

/// The largest part of a multipart upload, 5 GiB (beyond a 32-bit `usize`).
pub const MAX_PART_SIZE: u64 = 5368709120;

/// How many parts upload at once when no limit is given.
pub const DEFAULT_MAX_UPLOADING_PARTS: usize = 100;

/// Where a multipart upload writer stands.
#[derive(Debug, PartialEq, Eq, Structural, Clone, Copy)]
pub enum UploadPhase {
    /// Bytes are being written; full parts upload as they fill.
    Writing,
    /// Closing: the last part has been handed out and parts are still uploading.
    CompletingParts,
    /// All parts are uploaded and the upload is being completed.
    Completing,
    /// The upload has completed, successfully or not.
    Closed,
    /// A step failed or was refused; the writer holds nothing any more.
    Invalid,
}

/// What became of one part upload that was polled to its end.
#[derive(Debug, PartialEq, Eq, Clone)]
pub enum PartUploadOutcome {
    /// S3 stored the part and returned its entity tag.
    Uploaded { part_number: i32, e_tag: Option<String> },
    /// The request for the part failed.
    Failed { part_number: i32 },
}

impl PartUploadOutcome {
    /// The number of the part the outcome is about.
    pub open spec fn number(self) -> i32 {
        match self {
            PartUploadOutcome::Uploaded { part_number, .. } => part_number,
            PartUploadOutcome::Failed { part_number } => part_number,
        }
    }
}

/// The uploading parts and the completed parts after `polled` has been taken
/// in order: an outcome about an uploading part takes that part off the
/// uploading parts and, if it was stored, appends it to the completed parts;
/// an outcome about any other part changes nothing.
pub open spec fn settle(
    uploading: Multiset<i32>,
    completed: Seq<CompletedPart>,
    polled: Seq<PartUploadOutcome>,
) -> (Multiset<i32>, Seq<CompletedPart>)
    decreases polled.len(),
{
    if polled.len() == 0 {
        (uploading, completed)
    } else {
        let (u, c) = settle(uploading, completed, polled.drop_last());
        let o = polled.last();
        if u.contains(o.number()) {
            (
                u.remove(o.number()),
                match o {
                    PartUploadOutcome::Uploaded { part_number, e_tag } => c.push(
                        CompletedPart { e_tag, part_number },
                    ),
                    PartUploadOutcome::Failed { .. } => c,
                },
            )
        } else {
            (u, c)
        }
    }
}

/// Whether `polled` reports a failed upload.
pub open spec fn has_failure(polled: Seq<PartUploadOutcome>) -> bool {
    exists|i: int| 0 <= i < polled.len() && #[trigger] polled[i] is Failed
}

/// The index of the first failed upload in `polled`, if any.
pub open spec fn is_first_failure(polled: Seq<PartUploadOutcome>, i: int) -> bool {
    &&& 0 <= i < polled.len()
    &&& polled[i] is Failed
    &&& forall|j: int| 0 <= j < i ==> !(#[trigger] polled[j] is Failed)
}

/// The abstract state of a [MultipartUploadState].
pub struct UploadView {
    pub phase: UploadPhase,
    /// Bytes in each part but the last.
    pub part_size: nat,
    /// How many parts may upload at once.
    pub max_uploading_parts: nat,
    /// Numbers of the parts handed out for upload whose outcome is not known.
    pub uploading: Multiset<i32>,
    /// Bytes accepted but not yet in a part.
    pub buffer: Seq<u8>,
    /// The number the next full part gets.
    pub part_number: int,
    /// Parts S3 has stored, in the order their outcomes were taken.
    pub completed: Seq<CompletedPart>,
    /// Every byte accepted by a write, in order.
    pub written: Seq<u8>,
    /// The bytes of every part handed out; part `k` holds `issued[k - 1]`.
    pub issued: Seq<Seq<u8>>,
    /// No upload of a part has failed.
    pub intact: bool,
}

/// The part handed out for upload: its number and its bytes.
pub struct PartToUpload {
    pub part_number: i32,
    pub bytes: Vec<u8>,
}

/// The decision-making state behind an S3 multipart upload writer: it buffers
/// written bytes, cuts them into parts, tracks the parts being uploaded and
/// those S3 has stored, and decides each step of writing, flushing and closing.
/// The requests themselves are made by its caller, which reports their outcomes.
pub struct MultipartUploadState {
    part_size: usize,
    max_uploading_parts: usize,
    phase: UploadPhase,
    uploading: Vec<i32>,
    buffer: Vec<u8>,
    part_number: i32,
    completed_parts: Vec<CompletedPart>,
    written: Ghost<Seq<u8>>,
    issued: Ghost<Seq<Seq<u8>>>,
    intact: Ghost<bool>,
}

impl View for MultipartUploadState {
    type V = UploadView;

    closed spec fn view(&self) -> UploadView {
        UploadView {
            phase: self.phase,
            part_size: self.part_size as nat,
            max_uploading_parts: self.max_uploading_parts as nat,
            uploading: self.uploading@.to_multiset(),
            buffer: self.buffer@,
            part_number: self.part_number as int,
            completed: self.completed_parts@,
            written: self.written@,
            issued: self.issued@,
            intact: self.intact@,
        }
    }
}

impl UploadView {
    /// The well-formedness of the writer's state.
    pub open spec fn wf(self) -> bool {
        &&& self.bounds()
        &&& self.phase != UploadPhase::Invalid ==> self.data_wf()
    }

    /// The settings and the part number are within their bounds.
    pub open spec fn bounds(self) -> bool {
        &&& MIN_PART_SIZE <= self.part_size <= MAX_PART_SIZE
        &&& 1 <= self.max_uploading_parts
        &&& self.max_uploading_parts * self.part_size <= usize::MAX
        &&& 1 <= self.part_number <= i32::MAX
    }

    /// What holds of the parts and bytes while the writer is usable.
    pub open spec fn data_wf(self) -> bool {
        let n = self.issued.len();
        &&& self.written == self.issued.flatten() + self.buffer
        &&& forall|k: int| 0 <= k < n ==> (#[trigger] self.issued[k]).len() > 0
        &&& forall|k: int| 0 <= k < self.part_number - 1 ==> (#[trigger] self.issued[k]).len() == self.part_size
        &&& n == self.part_number - 1 || (n == self.part_number && self.phase != UploadPhase::Writing)
        &&& self.phase == UploadPhase::Writing || self.phase == UploadPhase::CompletingParts ==> {
            &&& numbers_wf(self.uploading, self.completed, n as int)
            &&& self.intact ==> self.uploading.len() + self.completed.len() == n
        }
        &&& self.phase == UploadPhase::Writing ==> {
            &&& self.buffer.len() < self.part_size
            &&& self.uploading.len() <= self.max_uploading_parts
            &&& (self.uploading.len() < self.max_uploading_parts || self.buffer.len() == 0)
        }
        &&& self.phase != UploadPhase::Writing ==> self.buffer.len() == 0
    }
}

/// Why a multipart upload writer refused to start or a step of it.
#[derive(Debug, PartialEq, Eq, Structural, Clone, Copy)]
pub enum MultipartUploadError {
    /// The part size is below [MIN_PART_SIZE]; holds it.
    PartSizeTooSmall(usize),
    /// The part size is above [MAX_PART_SIZE]; holds it.
    PartSizeTooLarge(usize),
    /// At most zero parts may upload at once.
    ZeroUploadingParts,
    /// Creating the multipart upload returned no upload id.
    MissingUploadId,
    /// A write or flush found the writer holding nothing.
    WriteWithStateNone,
    /// A write came after close.
    WriteAfterClose,
    /// A flush came after close.
    FlushAfterClose,
    /// A close found the writer holding nothing.
    CloseWithStateNone,
    /// A close came after the upload had closed.
    CloseAfterClose,
}

impl MultipartUploadError {
    /// The error's message.
    pub fn message(&self) -> (r: String)
        ensures
            r@ == match *self {
                MultipartUploadError::PartSizeTooSmall(size) => "part_size was "@ + decimal(size as nat)
                    + ", can not be less than "@ + decimal(MIN_PART_SIZE as nat),
                MultipartUploadError::PartSizeTooLarge(size) => "part_size was "@ + decimal(size as nat)
                    + ", can not be more than "@ + decimal(MAX_PART_SIZE as nat),
                MultipartUploadError::ZeroUploadingParts => "Max uploading parts must not be 0"@,
                MultipartUploadError::MissingUploadId => "Expected Upload Id"@,
                MultipartUploadError::WriteWithStateNone => "Attempted to .write() when state is None"@,
                MultipartUploadError::WriteAfterClose => "Attempted to .write() after .close()."@,
                MultipartUploadError::FlushAfterClose => "Attempted to .flush() writer after .close()."@,
                MultipartUploadError::CloseWithStateNone => "Attempted to .close() writer with state None"@,
                MultipartUploadError::CloseAfterClose => "Attempted to .close() writer after .close()."@,
            },
    {
        match *self {
            MultipartUploadError::PartSizeTooSmall(size) => {
                let mut r = String::from_str("part_size was ");
                push_decimal(&mut r, size as u64);
                r.append(", can not be less than ");
                push_decimal(&mut r, MIN_PART_SIZE as u64);
                r
            },
            MultipartUploadError::PartSizeTooLarge(size) => {
                let mut r = String::from_str("part_size was ");
                push_decimal(&mut r, size as u64);
                r.append(", can not be more than ");
                push_decimal(&mut r, MAX_PART_SIZE);
                r
            },
            MultipartUploadError::ZeroUploadingParts => String::from_str("Max uploading parts must not be 0"),
            MultipartUploadError::MissingUploadId => String::from_str("Expected Upload Id"),
            MultipartUploadError::WriteWithStateNone => String::from_str(
                "Attempted to .write() when state is None",
            ),
            MultipartUploadError::WriteAfterClose => String::from_str("Attempted to .write() after .close()."),
            MultipartUploadError::FlushAfterClose => String::from_str(
                "Attempted to .flush() writer after .close().",
            ),
            MultipartUploadError::CloseWithStateNone => String::from_str(
                "Attempted to .close() writer with state None",
            ),
            MultipartUploadError::CloseAfterClose => String::from_str(
                "Attempted to .close() writer after .close().",
            ),
        }
    }
}

/// The upload id that creating the multipart upload returned; none is an error.
pub fn upload_id_or_error(upload_id: Option<String>) -> (r: Result<String, MultipartUploadError>)
    ensures
        match upload_id {
            Some(id) => r == Ok::<_, MultipartUploadError>(id),
            None => r == Err::<String, _>(MultipartUploadError::MissingUploadId),
        },
{
    match upload_id {
        Some(id) => Ok(id),
        None => Err(MultipartUploadError::MissingUploadId),
    }
}

/// The counts of part numbers among uploading and completed parts stay
/// within one each and within `1..=n`.
pub open spec fn numbers_wf(uploading: Multiset<i32>, completed: Seq<CompletedPart>, n: int) -> bool {
    &&& forall|v: i32| #[trigger] uploading.count(v) + #[trigger] part_numbers(completed).count(v) <= 1
    &&& forall|v: i32| uploading.count(v) + part_numbers(completed).count(v) > 0 ==> 1 <= v <= n
}

proof fn lemma_part_numbers_push(c: Seq<CompletedPart>, x: CompletedPart)
    ensures
        part_numbers(c.push(x)) == part_numbers(c).insert(x.part_number),
{
    assert(part_number_seq(c.push(x)) =~= part_number_seq(c).push(x.part_number));
}

proof fn lemma_settle(u: Multiset<i32>, c: Seq<CompletedPart>, polled: Seq<PartUploadOutcome>, n: int)
    requires
        numbers_wf(u, c, n),
    ensures
        numbers_wf(settle(u, c, polled).0, settle(u, c, polled).1, n),
        forall|v: i32| #[trigger] settle(u, c, polled).0.count(v) <= u.count(v),
        settle(u, c, polled).0.len() <= u.len(),
        !has_failure(polled) ==> settle(u, c, polled).0.len() + settle(u, c, polled).1.len() == u.len()
            + c.len(),
    decreases polled.len(),
{
    if polled.len() > 0 {
        let init = polled.drop_last();
        lemma_settle(u, c, init, n);
        let (u1, c1) = settle(u, c, init);
        let o = polled.last();
        if !has_failure(polled) {
            assert forall|i: int| 0 <= i < init.len() implies !(#[trigger] init[i] is Failed) by {
                assert(polled[i] == init[i]);
            }
            assert(!(polled[polled.len() - 1] is Failed));
        }
        if u1.contains(o.number()) {
            match o {
                PartUploadOutcome::Uploaded { part_number, e_tag } => {
                    lemma_part_numbers_push(c1, CompletedPart { e_tag, part_number });
                },
                PartUploadOutcome::Failed { .. } => {},
            }
        }
    }
}

/// A copy of an entity tag.
fn copy_e_tag(e_tag: &Option<String>) -> (r: Option<String>)
    ensures
        r == *e_tag,
{
    match e_tag {
        Some(t) => Some(t.clone()),
        None => None,
    }
}

/// What a write step decided.
pub enum WriteStep {
    /// The writer is not writing; it holds nothing afterwards.
    Refused(MultipartUploadError),
    /// The polled upload at this index failed; the writer holds nothing afterwards.
    Failed(usize),
    /// No byte fits while the uploading parts fill the limit; the writer keeps
    /// its state, to be written to again once a part has uploaded. `wake`
    /// asks for another poll when no part was uploading.
    Full { wake: bool },
    /// These many bytes were taken; the full parts they completed are to be uploaded.
    Accepted { accepted: usize, parts: Vec<PartToUpload> },
}

/// What a flush step decided.
#[derive(Debug, PartialEq, Eq, Structural, Clone, Copy)]
pub enum FlushStep {
    /// The writer is not writing; nothing changed.
    Refused(MultipartUploadError),
    /// The polled upload at this index failed.
    Failed(usize),
    /// No part is uploading any more.
    Flushed,
    /// Parts are still uploading.
    Pending,
}

/// What a close step decided.
pub enum CloseStep {
    /// The writer cannot close; see the error.
    Refused(MultipartUploadError),
    /// The polled upload at this index failed; the writer holds nothing afterwards.
    Failed(usize),
    /// No part may start while the uploading parts fill the limit; the writer
    /// keeps its state, to be closed again once a part has uploaded.
    Stalled,
    /// The buffered bytes form this last part (none when the buffer was empty);
    /// it is to be uploaded, the uploads polled, and [MultipartUploadState::recheck] called.
    LastPart(Option<PartToUpload>),
    /// Parts are still uploading; `wake` asks for another poll when none is left.
    Waiting { wake: bool },
    /// Every part is stored: the upload is to be completed with these parts.
    Complete(Vec<CompletedPart>),
    /// The completion request is under way and is to be polled.
    AwaitCompletion,
}

/// Strictly ascending part numbers lie at least as far apart as their indices.
proof fn lemma_strictly_ascending(parts: Seq<CompletedPart>, i: int, j: int)
    requires
        0 <= i <= j < parts.len(),
        forall|a: int, b: int|
            0 <= a < b < parts.len() ==> #[trigger] parts[a].part_number < #[trigger] parts[b].part_number,
    ensures
        parts[j].part_number - parts[i].part_number >= j - i,
    decreases j - i,
{
    if i < j {
        lemma_strictly_ascending(parts, i, j - 1);
        assert(parts[j - 1].part_number < parts[j].part_number);
    }
}

/// Parts in ascending order whose numbers are `n` distinct numbers within
/// `1..=n` are numbered `1, 2, ..., n`.
proof fn lemma_sorted_parts_cover(parts: Seq<CompletedPart>, n: int)
    requires
        sorted_by_part_number(parts),
        parts.len() == n,
        forall|v: i32| #[trigger] part_numbers(parts).count(v) <= 1,
        forall|v: i32| part_numbers(parts).count(v) > 0 ==> 1 <= v <= n,
    ensures
        forall|i: int| 0 <= i < n ==> #[trigger] parts[i].part_number == i + 1,
{
    let s = part_number_seq(parts);
    assert forall|a: int| 0 <= a < n implies 1 <= #[trigger] parts[a].part_number <= n by {
        assert(s[a] == parts[a].part_number);
        assert(s.contains(s[a]));
        assert(s.to_multiset().count(s[a]) > 0);
        assert(part_numbers(parts).count(s[a]) > 0);
    }
    assert forall|a: int, b: int| 0 <= a < b < n implies #[trigger] parts[a].part_number
        < #[trigger] parts[b].part_number by {
        if parts[a].part_number == parts[b].part_number {
            let v = parts[a].part_number;
            assert(s[a] == v && s[b] == v);
            assert(s.remove(b)[a] == v);
            assert(s.remove(b).contains(v));
            assert(s.remove(b).to_multiset().count(v) > 0);
            assert(s.to_multiset().remove(s[b]).count(v) > 0);
            assert(s.to_multiset().count(v) >= 2);
            assert(part_numbers(parts).count(v) >= 2);
        }
    }
    assert forall|i: int| 0 <= i < n implies #[trigger] parts[i].part_number == i + 1 by {
        lemma_strictly_ascending(parts, 0, i);
        lemma_strictly_ascending(parts, i, n - 1);
    }
}

impl MultipartUploadState {
    /// Drops everything the writer holds, as when its state is taken and not put back.
    fn invalidate(&mut self)
        requires
            old(self)@.wf(),
        ensures
            final(self)@.wf(),
            final(self)@.phase == UploadPhase::Invalid,
            final(self)@.part_size == old(self)@.part_size,
            final(self)@.max_uploading_parts == old(self)@.max_uploading_parts,
    {
        self.phase = UploadPhase::Invalid;
        self.uploading = Vec::new();
        self.buffer = Vec::new();
        self.completed_parts = Vec::new();
    }

    /// Cuts the first full part off the buffer and hands it out for upload.
    fn issue_part(&mut self) -> (part: PartToUpload)
        requires
            old(self)@.bounds(),
            old(self)@.phase == UploadPhase::Writing,
            old(self)@.buffer.len() >= old(self)@.part_size,
            old(self)@.part_number < i32::MAX,
            old(self)@.issued.len() == old(self)@.part_number - 1,
            old(self)@.written == old(self)@.issued.flatten() + old(self)@.buffer,
            forall|k: int| 0 <= k < old(self)@.issued.len() ==> (#[trigger] old(self)@.issued[k]).len() == old(self)@.part_size,
            numbers_wf(old(self)@.uploading, old(self)@.completed, old(self)@.issued.len() as int),
            old(self)@.intact ==> old(self)@.uploading.len() + old(self)@.completed.len() == old(self)@.issued.len(),
        ensures
            part.part_number == old(self)@.part_number,
            part.bytes@ == old(self)@.buffer.take(old(self)@.part_size as int),
            final(self)@ == (UploadView {
                buffer: old(self)@.buffer.skip(old(self)@.part_size as int),
                uploading: old(self)@.uploading.insert(part.part_number),
                part_number: old(self)@.part_number + 1,
                issued: old(self)@.issued.push(part.bytes@),
                ..old(self)@
            }),
            final(self)@.written == final(self)@.issued.flatten() + final(self)@.buffer,
            numbers_wf(final(self)@.uploading, final(self)@.completed, final(self)@.issued.len() as int),
            final(self)@.intact ==> final(self)@.uploading.len() + final(self)@.completed.len() == final(self)@.issued.len(),
    {
        let ghost old_buffer = self.buffer@;
        let ghost n = self@.issued.len() as int;
        let mut part = self.buffer.split_off(self.part_size);
        std::mem::swap(&mut self.buffer, &mut part);
        let number = self.part_number;
        self.uploading.push(number);
        self.part_number = number + 1;
        proof {
            self.issued@ = self.issued@.push(part@);
            self.issued@.lemma_flatten_push(part@);
            old(self)@.issued.lemma_flatten_push(part@);
            assert(old_buffer =~= part@ + self.buffer@);
            assert(self@.written =~= self@.issued.flatten() + self@.buffer);
            let u = self@.uploading;
            let c = self@.completed;
            assert(u == old(self)@.uploading.insert(number));
            assert forall|v: i32| #[trigger] u.count(v) + #[trigger] part_numbers(c).count(v) <= 1 by {
                if v == number {
                    if old(self)@.uploading.count(v) + part_numbers(c).count(v) > 0 {
                        assert(1 <= v <= n);
                    }
                }
            }
            assert forall|v: i32| u.count(v) + part_numbers(c).count(v) > 0 implies 1 <= v <= n + 1 by {
                if v != number {
                    assert(old(self)@.uploading.count(v) == u.count(v));
                }
            }
        }
        PartToUpload { part_number: number, bytes: part }
    }

    /// Takes up to `buf.len()` written bytes, after the outcomes of the polled
    /// part uploads. It takes no more than fits while at most
    /// `max_uploading_parts` parts upload at once; every full part the buffer
    /// then holds is handed out for upload, in order, with the next part
    /// numbers. When nothing fits, the writer keeps its state.
    pub fn write(&mut self, polled: &Vec<PartUploadOutcome>, buf: &[u8]) -> (step: WriteStep)
        requires
            old(self)@.wf(),
            old(self)@.phase == UploadPhase::Writing ==> old(self)@.part_number + (buf@.len() as int) / (
            old(self)@.part_size as int) + 1 <= i32::MAX,
        ensures
            final(self)@.wf(),
            final(self)@.part_size == old(self)@.part_size,
            final(self)@.max_uploading_parts == old(self)@.max_uploading_parts,
            old(self)@.phase == UploadPhase::Invalid ==> step == WriteStep::Refused(
                MultipartUploadError::WriteWithStateNone,
            ) && final(self)@ == old(self)@,
            old(self)@.phase != UploadPhase::Invalid && old(self)@.phase != UploadPhase::Writing ==> step
                == WriteStep::Refused(MultipartUploadError::WriteAfterClose) && final(self)@.phase
                == UploadPhase::Invalid,
            old(self)@.phase == UploadPhase::Writing ==> ({
                let (u, c) = settle(old(self)@.uploading, old(self)@.completed, polled@);
                let capacity = (old(self)@.max_uploading_parts - u.len()) * old(self)@.part_size
                    - old(self)@.buffer.len();
                let w = if capacity < buf@.len() {
                    capacity
                } else {
                    buf@.len() as int
                };
                &&& u.len() <= old(self)@.uploading.len()
                &&& 0 <= capacity
                &&& has_failure(polled@) ==> step is Failed && is_first_failure(polled@, step->Failed_0 as int)
                    && final(self)@.phase == UploadPhase::Invalid
                &&& !has_failure(polled@) && w == 0 ==> step == WriteStep::Full { wake: u.len() == 0 }
                    && final(self)@ == (UploadView { uploading: u, completed: c, ..old(self)@ })
                &&& !has_failure(polled@) && w > 0 ==> step is Accepted && ({
                    let parts = step->parts@;
                    let taken = buf@.take(w);
                    &&& step->accepted == w
                    &&& final(self)@.phase == UploadPhase::Writing
                    &&& final(self)@.written == old(self)@.written + taken
                    &&& final(self)@.completed == c
                    &&& final(self)@.intact == old(self)@.intact
                    &&& final(self)@.part_number == old(self)@.part_number + parts.len()
                    &&& final(self)@.issued == old(self)@.issued + parts.map_values(|p: PartToUpload| p.bytes@)
                    &&& final(self)@.uploading == u.add(
                        parts.map_values(|p: PartToUpload| p.part_number).to_multiset(),
                    )
                    &&& forall|j: int|
                        0 <= j < parts.len() ==> (#[trigger] parts[j]).part_number == old(self)@.part_number + j
                            && parts[j].bytes@.len() == old(self)@.part_size
                    &&& parts.map_values(|p: PartToUpload| p.bytes@).flatten() + final(self)@.buffer
                        == old(self)@.buffer + taken
                })
            }),
    {
        match self.phase {
            UploadPhase::Writing => {},
            UploadPhase::Invalid => {
                return WriteStep::Refused(MultipartUploadError::WriteWithStateNone);
            },
            _ => {
                self.invalidate();
                return WriteStep::Refused(MultipartUploadError::WriteAfterClose);
            },
        }
        proof {
            let o = old(self)@;
            lemma_settle(o.uploading, o.completed, polled@, o.issued.len() as int);
            let ul = settle(o.uploading, o.completed, polled@).0.len() as int;
            let m = o.max_uploading_parts as int;
            let p = o.part_size as int;
            assert(ul < m ==> (m - ul) * p >= p) by (nonlinear_arith)
                requires
                    p >= 0,
            ;
            assert(ul == m ==> (m - ul) * p == 0) by (nonlinear_arith);
        }
        match self.settle_polled(polled) {
            Some(i) => {
                self.invalidate();
                return WriteStep::Failed(i);
            },
            None => {},
        }
        let ps = self.part_size;
        proof {
            let m = self.max_uploading_parts as int;
            let ul = self.uploading@.len() as int;
            assert(ul == self@.uploading.len());
            assert((m - ul) * (ps as int) <= m * (ps as int)) by (nonlinear_arith)
                requires
                    0 <= ul <= m,
                    ps >= 0,
            ;
            assert(ul < m ==> (m - ul) * (ps as int) >= ps) by (nonlinear_arith)
                requires
                    ps >= 0,
            ;
        }
        let free = (self.max_uploading_parts - self.uploading.len()) * ps;
        let capacity = free - self.buffer.len();
        let w = if capacity < buf.len() {
            capacity
        } else {
            buf.len()
        };
        if w == 0 {
            return WriteStep::Full { wake: self.uploading.len() == 0 };
        }
        let ghost mid = self@;
        let mut k: usize = 0;
        while k < w
            invariant
                k <= w,
                w <= buf@.len(),
                self@ == (UploadView {
                    buffer: mid.buffer + buf@.take(k as int),
                    written: mid.written + buf@.take(k as int),
                    ..mid
                }),
            decreases w - k,
        {
            self.buffer.push(buf[k]);
            proof {
                self.written@ = self.written@.push(buf@[k as int]);
                assert(buf@.take(k + 1) =~= buf@.take(k as int).push(buf@[k as int]));
            }
            k = k + 1;
        }
        let ghost filled = self@;
        proof {
            mid.issued.lemma_flatten_push(Seq::empty());
            assert(filled.written =~= filled.issued.flatten() + filled.buffer);
            assert(filled.buffer.len() == mid.buffer.len() + w);
        }
        let mut parts: Vec<PartToUpload> = Vec::new();
        proof {
            assert(parts@.map_values(|p: PartToUpload| p.bytes@) =~= Seq::empty());
            assert(parts@.map_values(|p: PartToUpload| p.part_number) =~= Seq::empty());
            assert(filled.issued + Seq::<Seq<u8>>::empty() =~= filled.issued);
            assert(filled.uploading.add(Seq::<i32>::empty().to_multiset()) =~= filled.uploading);
            assert(parts@.len() * ps == 0) by (nonlinear_arith)
                requires
                    parts@.len() == 0,
            ;
        }
        while self.buffer.len() >= ps
            invariant
                self@.bounds(),
                self@.phase == UploadPhase::Writing,
                ps == self@.part_size,
                mid.buffer.len() < ps,
                w <= (mid.max_uploading_parts - mid.uploading.len()) * ps - mid.buffer.len(),
                mid.part_number + (buf@.len() as int) / (ps as int) + 1 <= i32::MAX,
                w <= buf@.len(),
                self@.part_size == mid.part_size,
                self@.max_uploading_parts == mid.max_uploading_parts,
                self@.completed == mid.completed,
                self@.intact == mid.intact,
                self@.written == filled.written,
                self@.part_number == mid.part_number + parts@.len(),
                self@.issued.len() == self@.part_number - 1,
                self@.issued == mid.issued + parts@.map_values(|p: PartToUpload| p.bytes@),
                self@.uploading == mid.uploading.add(
                    parts@.map_values(|p: PartToUpload| p.part_number).to_multiset(),
                ),
                self@.written == self@.issued.flatten() + self@.buffer,
                parts@.map_values(|p: PartToUpload| p.bytes@).flatten() + self@.buffer == filled.buffer,
                parts@.len() * ps + self@.buffer.len() == filled.buffer.len(),
                filled.buffer.len() == mid.buffer.len() + w,
                forall|k: int| 0 <= k < self@.issued.len() ==> (#[trigger] self@.issued[k]).len() == ps,
                numbers_wf(self@.uploading, self@.completed, self@.issued.len() as int),
                self@.intact ==> self@.uploading.len() + self@.completed.len() == self@.issued.len(),
                forall|j: int|
                    0 <= j < parts@.len() ==> (#[trigger] parts@[j]).part_number == mid.part_number + j
                        && parts@[j].bytes@.len() == ps,
            decreases self@.buffer.len(),
        {
            proof {
                let m = parts@.len() as int;
                let l = buf@.len() as int;
                let b0 = mid.buffer.len() as int;
                let p = ps as int;
                assert(m * p < l) by (nonlinear_arith)
                    requires
                        m * p + self@.buffer.len() == b0 + w,
                        self@.buffer.len() >= p,
                        b0 < p,
                        w <= l,
                ;
                assert(m <= l / p) by (nonlinear_arith)
                    requires
                        m * p < l,
                        p > 0,
                        m >= 0,
                ;
            }
            let ghost before = parts@;
            let ghost buffer_before = self@.buffer;
            let part = self.issue_part();
            parts.push(part);
            proof {
                let f = |p: PartToUpload| p.bytes@;
                let g = |p: PartToUpload| p.part_number;
                assert(parts@.map_values(f) =~= before.map_values(f).push(f(parts@.last())));
                assert(parts@.map_values(g) =~= before.map_values(g).push(g(parts@.last())));
                before.map_values(f).lemma_flatten_push(f(parts@.last()));
                assert(mid.issued + parts@.map_values(f) =~= (mid.issued + before.map_values(f)).push(
                    f(parts@.last()),
                ));
                assert(buffer_before =~= buffer_before.take(ps as int) + buffer_before.skip(ps as int));
                assert(parts@.map_values(f).flatten() + self@.buffer =~= before.map_values(f).flatten()
                    + buffer_before);
                assert(self@.uploading =~= mid.uploading.add(parts@.map_values(g).to_multiset()));
                assert((parts@.len() as int) * ps == (before.len() as int) * ps + ps) by (nonlinear_arith)
                    requires
                        parts@.len() == before.len() + 1,
                ;
                assert forall|k: int| 0 <= k < self@.issued.len() implies (#[trigger] self@.issued[k]).len()
                    == ps by {
                    if k < self@.issued.len() - 1 {
                    }
                }
            }
        }
        proof {
            let m = parts@.len() as int;
            let p = ps as int;
            let free = (mid.max_uploading_parts - mid.uploading.len()) as int;
            let b = self@.buffer.len() as int;
            assert(m * p + b <= free * p) by (nonlinear_arith)
                requires
                    m * p + b == mid.buffer.len() + w,
                    w <= free * p - mid.buffer.len(),
            ;
            assert(m <= free) by (nonlinear_arith)
                requires
                    m * p + b <= free * p,
                    p > 0,
                    b >= 0,
            ;
            assert(b > 0 ==> m < free) by (nonlinear_arith)
                requires
                    m * p + b <= free * p,
                    p > 0,
            ;
            assert(self@.uploading.len() == mid.uploading.len() + m);
            assert(buf@.take(w as int) == buf@.take(k as int));
        }
        WriteStep::Accepted { accepted: w, parts }
    }

    /// After the parts that a write handed out have started: takes the
    /// outcomes of the polled uploads; a failure leaves the writer holding nothing.
    pub fn finish_write(&mut self, polled: &Vec<PartUploadOutcome>) -> (first_failure: Option<usize>)
        requires
            old(self)@.wf(),
            old(self)@.phase == UploadPhase::Writing,
        ensures
            final(self)@.wf(),
            final(self)@.part_size == old(self)@.part_size,
            final(self)@.max_uploading_parts == old(self)@.max_uploading_parts,
            ({
                let (u, c) = settle(old(self)@.uploading, old(self)@.completed, polled@);
                &&& has_failure(polled@) ==> first_failure is Some && is_first_failure(
                    polled@,
                    first_failure->0 as int,
                ) && final(self)@.phase == UploadPhase::Invalid
                &&& !has_failure(polled@) ==> first_failure is None && final(self)@ == (UploadView {
                    uploading: u,
                    completed: c,
                    ..old(self)@
                })
            }),
    {
        let r = self.settle_polled(polled);
        if r.is_some() {
            self.invalidate();
        }
        r
    }

    /// Flushes: takes the outcomes of the polled uploads, and is done when no
    /// part is uploading. The buffered bytes stay buffered.
    pub fn flush(&mut self, polled: &Vec<PartUploadOutcome>) -> (step: FlushStep)
        requires
            old(self)@.wf(),
        ensures
            final(self)@.wf(),
            final(self)@.part_size == old(self)@.part_size,
            final(self)@.max_uploading_parts == old(self)@.max_uploading_parts,
            old(self)@.phase == UploadPhase::Invalid ==> step == FlushStep::Refused(
                MultipartUploadError::WriteWithStateNone,
            ) && final(self)@ == old(self)@,
            old(self)@.phase != UploadPhase::Invalid && old(self)@.phase != UploadPhase::Writing ==> step
                == FlushStep::Refused(MultipartUploadError::FlushAfterClose) && final(self)@ == old(self)@,
            old(self)@.phase == UploadPhase::Writing ==> ({
                let (u, c) = settle(old(self)@.uploading, old(self)@.completed, polled@);
                &&& final(self)@ == (UploadView {
                    uploading: u,
                    completed: if has_failure(polled@) {
                        old(self)@.completed
                    } else {
                        c
                    },
                    intact: old(self)@.intact && !has_failure(polled@),
                    ..old(self)@
                })
                &&& has_failure(polled@) ==> step is Failed && is_first_failure(
                    polled@,
                    step->Failed_0 as int,
                )
                &&& !has_failure(polled@) ==> step == (if u.len() == 0 {
                    FlushStep::Flushed
                } else {
                    FlushStep::Pending
                })
            }),
    {
        match self.phase {
            UploadPhase::Writing => {},
            UploadPhase::Invalid => {
                return FlushStep::Refused(MultipartUploadError::WriteWithStateNone);
            },
            _ => {
                return FlushStep::Refused(MultipartUploadError::FlushAfterClose);
            },
        }
        match self.settle_polled(polled) {
            Some(i) => FlushStep::Failed(i),
            None => {
                if self.uploading.len() == 0 {
                    FlushStep::Flushed
                } else {
                    FlushStep::Pending
                }
            },
        }
    }

    /// While closing with parts uploading: takes the outcomes of the polled
    /// uploads; a failure leaves the writer holding nothing.
    pub fn recheck(&mut self, polled: &Vec<PartUploadOutcome>) -> (step: CloseStep)
        requires
            old(self)@.wf(),
            old(self)@.phase == UploadPhase::CompletingParts,
        ensures
            final(self)@.wf(),
            final(self)@.part_size == old(self)@.part_size,
            final(self)@.max_uploading_parts == old(self)@.max_uploading_parts,
            ({
                let (u, c) = settle(old(self)@.uploading, old(self)@.completed, polled@);
                &&& has_failure(polled@) ==> step is Failed && is_first_failure(
                    polled@,
                    step->Failed_0 as int,
                ) && final(self)@.phase == UploadPhase::Invalid
                &&& !has_failure(polled@) ==> step == CloseStep::Waiting { wake: u.len() == 0 }
                    && final(self)@ == (UploadView { uploading: u, completed: c, ..old(self)@ })
            }),
    {
        match self.settle_polled(polled) {
            Some(i) => {
                self.invalidate();
                CloseStep::Failed(i)
            },
            None => CloseStep::Waiting { wake: self.uploading.len() == 0 },
        }
    }

    /// Closes, one step per call. While writing: after the outcomes of the
    /// polled uploads, the buffered bytes become the last part, if there are
    /// any and the uploading parts leave room. While parts upload: their
    /// outcomes are taken; while no part may start, the writer keeps its
    /// state. Once none uploads: the upload is to be completed
    /// with the stored parts in order of part number; when no upload failed,
    /// these are the parts `1..=n` that were handed out, and the bytes of
    /// those parts, in that order, are exactly the bytes that were written.
    pub fn close(&mut self, polled: &Vec<PartUploadOutcome>) -> (step: CloseStep)
        requires
            old(self)@.wf(),
        ensures
            final(self)@.wf(),
            final(self)@.part_size == old(self)@.part_size,
            final(self)@.max_uploading_parts == old(self)@.max_uploading_parts,
            old(self)@.phase == UploadPhase::Invalid ==> step == CloseStep::Refused(
                MultipartUploadError::CloseWithStateNone,
            ) && final(self)@ == old(self)@,
            old(self)@.phase == UploadPhase::Closed ==> step == CloseStep::Refused(
                MultipartUploadError::CloseAfterClose,
            ) && final(self)@.phase == UploadPhase::Invalid,
            old(self)@.phase == UploadPhase::Completing ==> step == CloseStep::AwaitCompletion
                && final(self)@ == old(self)@,
            old(self)@.phase == UploadPhase::Writing ==> ({
                let (u, c) = settle(old(self)@.uploading, old(self)@.completed, polled@);
                &&& has_failure(polled@) ==> step is Failed && is_first_failure(
                    polled@,
                    step->Failed_0 as int,
                ) && final(self)@.phase == UploadPhase::Invalid
                &&& !has_failure(polled@) && u.len() == old(self)@.max_uploading_parts ==> step
                    == CloseStep::Stalled && final(self)@ == (UploadView {
                    uploading: u,
                    completed: c,
                    ..old(self)@
                })
                &&& !has_failure(polled@) && u.len() < old(self)@.max_uploading_parts ==> step is LastPart
                    && final(self)@.phase == UploadPhase::CompletingParts && final(self)@.buffer.len() == 0
                    && final(self)@.completed == c && final(self)@.written == old(self)@.written
                    && final(self)@.intact == old(self)@.intact && match step->LastPart_0 {
                    None => old(self)@.buffer.len() == 0 && final(self)@.uploading == u
                        && final(self)@.issued == old(self)@.issued,
                    Some(part) => old(self)@.buffer.len() > 0 && part.part_number
                        == old(self)@.part_number && part.bytes@ == old(self)@.buffer
                        && final(self)@.uploading == u.insert(part.part_number) && final(self)@.issued
                        == old(self)@.issued.push(part.bytes@),
                }
            }),
            old(self)@.phase == UploadPhase::CompletingParts && old(self)@.uploading.len() > 0 ==> ({
                let (u, c) = settle(old(self)@.uploading, old(self)@.completed, polled@);
                &&& has_failure(polled@) ==> step is Failed && is_first_failure(
                    polled@,
                    step->Failed_0 as int,
                ) && final(self)@.phase == UploadPhase::Invalid
                &&& !has_failure(polled@) ==> step == CloseStep::Waiting { wake: u.len() == 0 }
                    && final(self)@ == (UploadView { uploading: u, completed: c, ..old(self)@ })
            }),
            old(self)@.phase == UploadPhase::CompletingParts && old(self)@.uploading.len() == 0 ==> step is Complete
                && final(self)@ == (UploadView {
                phase: UploadPhase::Completing,
                completed: Seq::empty(),
                ..old(self)@
            }) && ({
                let parts = step->Complete_0@;
                &&& parts.to_multiset() == old(self)@.completed.to_multiset()
                &&& sorted_by_part_number(parts)
                &&& old(self)@.intact ==> {
                    &&& parts.len() == old(self)@.issued.len()
                    &&& forall|i: int| 0 <= i < parts.len() ==> #[trigger] parts[i].part_number == i + 1
                    &&& old(self)@.issued.flatten() == old(self)@.written
                }
            }),
    {
        match self.phase {
            UploadPhase::Writing => {
                match self.settle_polled(polled) {
                    Some(i) => {
                        self.invalidate();
                        return CloseStep::Failed(i);
                    },
                    None => {},
                }
                if self.max_uploading_parts - self.uploading.len() == 0 {
                    return CloseStep::Stalled;
                }
                let ghost before = self@;
                let last = if self.buffer.len() > 0 {
                    let mut bytes: Vec<u8> = Vec::new();
                    std::mem::swap(&mut bytes, &mut self.buffer);
                    let number = self.part_number;
                    self.uploading.push(number);
                    proof {
                        let n = before.issued.len() as int;
                        self.issued@ = self.issued@.push(bytes@);
                        before.issued.lemma_flatten_push(bytes@);
                        assert(self@.written =~= self@.issued.flatten() + self@.buffer);
                        let u = self@.uploading;
                        let c = self@.completed;
                        assert forall|v: i32| #[trigger] u.count(v) + #[trigger] part_numbers(c).count(v) <= 1 by {
                            if v == number {
                                if before.uploading.count(v) + part_numbers(c).count(v) > 0 {
                                    assert(1 <= v <= n);
                                }
                            }
                        }
                        assert forall|v: i32| u.count(v) + part_numbers(c).count(v) > 0 implies 1 <= v <= n + 1 by {
                            if v != number {
                                assert(before.uploading.count(v) == u.count(v));
                            }
                        }
                    }
                    Some(PartToUpload { part_number: number, bytes })
                } else {
                    None
                };
                self.phase = UploadPhase::CompletingParts;
                CloseStep::LastPart(last)
            },
            UploadPhase::CompletingParts => {
                if self.uploading.len() == 0 {
                    let ghost before = self@;
                    let mut parts: Vec<CompletedPart> = Vec::new();
                    std::mem::swap(&mut parts, &mut self.completed_parts);
                    let sorted = sort_by_part_number(parts);
                    self.phase = UploadPhase::Completing;
                    proof {
                        assert(self@.completed =~= Seq::<CompletedPart>::empty());
                        if before.intact {
                            let n = before.issued.len() as int;
                            assert(before.uploading.len() == 0);
                            assert(sorted@.len() == sorted@.to_multiset().len());
                            assert(before.completed.len() == before.completed.to_multiset().len());
                            assert(sorted@.len() == n);
                            assert forall|v: i32| #[trigger] part_numbers(sorted@).count(v) <= 1 by {
                                assert(before.uploading.count(v) + part_numbers(before.completed).count(v) <= 1);
                            }
                            assert forall|v: i32| part_numbers(sorted@).count(v) > 0 implies 1 <= v <= n by {
                                assert(before.uploading.count(v) + part_numbers(before.completed).count(v) > 0);
                            }
                            lemma_sorted_parts_cover(sorted@, n);
                            assert(before.written =~= before.issued.flatten());
                        }
                    }
                    CloseStep::Complete(sorted)
                } else {
                    self.recheck(polled)
                }
            },
            UploadPhase::Completing => CloseStep::AwaitCompletion,
            UploadPhase::Invalid => CloseStep::Refused(MultipartUploadError::CloseWithStateNone),
            UploadPhase::Closed => {
                self.invalidate();
                CloseStep::Refused(MultipartUploadError::CloseAfterClose)
            },
        }
    }

    /// The completion request has finished, successfully or not: the writer is closed.
    pub fn completion_finished(&mut self)
        requires
            old(self)@.wf(),
            old(self)@.phase == UploadPhase::Completing,
        ensures
            final(self)@.wf(),
            final(self)@ == (UploadView { phase: UploadPhase::Closed, ..old(self)@ }),
    {
        self.phase = UploadPhase::Closed;
    }

    /// The writer's state before anything is written, or why the settings are
    /// refused: a part size outside [MIN_PART_SIZE]..=[MAX_PART_SIZE], or a
    /// limit of zero parts uploading at once (the limit defaults to
    /// [DEFAULT_MAX_UPLOADING_PARTS]).
    pub fn new(part_size: usize, max_uploading_parts: Option<usize>) -> (r: Result<
        MultipartUploadState,
        MultipartUploadError,
    >)
        requires
            MIN_PART_SIZE <= part_size <= MAX_PART_SIZE ==> match max_uploading_parts {
                Some(m) => m * part_size <= usize::MAX,
                None => DEFAULT_MAX_UPLOADING_PARTS * part_size <= usize::MAX,
            },
        ensures
            part_size < MIN_PART_SIZE ==> r == Err::<MultipartUploadState, _>(
                MultipartUploadError::PartSizeTooSmall(part_size),
            ),
            MIN_PART_SIZE <= part_size && part_size > MAX_PART_SIZE ==> r == Err::<
                MultipartUploadState,
                _,
            >(MultipartUploadError::PartSizeTooLarge(part_size)),
            MIN_PART_SIZE <= part_size <= MAX_PART_SIZE && max_uploading_parts == Some(0usize) ==> r
                == Err::<MultipartUploadState, _>(MultipartUploadError::ZeroUploadingParts),
            MIN_PART_SIZE <= part_size <= MAX_PART_SIZE && max_uploading_parts != Some(0usize) ==> {
                &&& r is Ok
                &&& r->Ok_0@.wf()
                &&& r->Ok_0@ == (UploadView {
                    phase: UploadPhase::Writing,
                    part_size: part_size as nat,
                    max_uploading_parts: match max_uploading_parts {
                        Some(m) => m as nat,
                        None => DEFAULT_MAX_UPLOADING_PARTS as nat,
                    },
                    uploading: Multiset::empty(),
                    buffer: Seq::empty(),
                    part_number: 1,
                    completed: Seq::empty(),
                    written: Seq::empty(),
                    issued: Seq::empty(),
                    intact: true,
                })
            },
    {
        if part_size < MIN_PART_SIZE {
            return Err(MultipartUploadError::PartSizeTooSmall(part_size));
        }
        if part_size as u64 > MAX_PART_SIZE {
            return Err(MultipartUploadError::PartSizeTooLarge(part_size));
        }
        let max = match max_uploading_parts {
            Some(m) => m,
            None => DEFAULT_MAX_UPLOADING_PARTS,
        };
        if max == 0 {
            return Err(MultipartUploadError::ZeroUploadingParts);
        }
        let state = MultipartUploadState {
            part_size,
            max_uploading_parts: max,
            phase: UploadPhase::Writing,
            uploading: Vec::new(),
            buffer: Vec::new(),
            part_number: 1,
            completed_parts: Vec::new(),
            written: Ghost(Seq::empty()),
            issued: Ghost(Seq::empty()),
            intact: Ghost(true),
        };
        proof {
            assert(state@.uploading =~= Multiset::empty());
            assert(part_numbers(state@.completed) =~= Multiset::empty()) by {
                assert(part_number_seq(state@.completed) =~= Seq::empty());
            }
            assert(state@.written =~= state@.issued.flatten() + state@.buffer);
        }
        Ok(state)
    }

    /// The writer's phase.
    pub fn phase(&self) -> (p: UploadPhase)
        ensures
            p == self@.phase,
    {
        self.phase
    }

    /// The number the next part will get.
    pub fn next_part_number(&self) -> (n: i32)
        ensures
            n == self@.part_number,
    {
        self.part_number
    }

    /// The size of every part but the last.
    pub fn part_size(&self) -> (n: usize)
        ensures
            n == self@.part_size,
    {
        self.part_size
    }

    /// Takes the outcomes of polled part uploads in order (see [settle]).
    /// When one failed, the stored parts among them are not kept, the writer
    /// is no longer intact, and the index of the first failure is returned.
    fn settle_polled(&mut self, polled: &Vec<PartUploadOutcome>) -> (first_failure: Option<usize>)
        requires
            old(self)@.wf(),
            old(self)@.phase == UploadPhase::Writing || old(self)@.phase == UploadPhase::CompletingParts,
        ensures
            ({
                let (u, c) = settle(old(self)@.uploading, old(self)@.completed, polled@);
                final(self)@ == UploadView {
                    uploading: u,
                    completed: if has_failure(polled@) {
                        old(self)@.completed
                    } else {
                        c
                    },
                    intact: old(self)@.intact && !has_failure(polled@),
                    ..old(self)@
                }
            }),
            match first_failure {
                Some(i) => is_first_failure(polled@, i as int),
                None => !has_failure(polled@),
            },
            final(self)@.wf(),
    {
        let ghost u0 = self@.uploading;
        let ghost c0 = self@.completed;
        let ghost n = self@.issued.len() as int;
        let mut collected: Vec<CompletedPart> = Vec::new();
        let mut first: Option<usize> = None;
        let mut i: usize = 0;
        proof {
            assert(polled@.take(0) =~= Seq::empty());
            assert(c0 + collected@ =~= c0);
        }
        while i < polled.len()
            invariant
                i <= polled@.len(),
                self.part_size == old(self).part_size,
                self.max_uploading_parts == old(self).max_uploading_parts,
                self.phase == old(self).phase,
                self.buffer == old(self).buffer,
                self.part_number == old(self).part_number,
                self.completed_parts == old(self).completed_parts,
                self.written == old(self).written,
                self.issued == old(self).issued,
                self.intact == old(self).intact,
                u0 == old(self)@.uploading,
                c0 == old(self)@.completed,
                self.uploading@.to_multiset() == settle(u0, c0, polled@.take(i as int)).0,
                c0 + collected@ == settle(u0, c0, polled@.take(i as int)).1,
                match first {
                    Some(k) => is_first_failure(polled@, k as int) && k < i,
                    None => forall|j: int| 0 <= j < i ==> !(#[trigger] polled@[j] is Failed),
                },
            decreases polled@.len() - i,
        {
            let ghost before = self.uploading@;
            proof {
                assert(polled@.take(i + 1).drop_last() =~= polled@.take(i as int));
                assert(polled@.take(i + 1).last() == polled@[i as int]);
            }
            let number = match &polled[i] {
                PartUploadOutcome::Uploaded { part_number, .. } => *part_number,
                PartUploadOutcome::Failed { part_number } => *part_number,
            };
            let mut j: usize = 0;
            while j < self.uploading.len() && self.uploading[j] != number
                invariant
                    self.uploading@ == before,
                    j <= before.len(),
                    forall|k: int| 0 <= k < j ==> before[k] != number,
                decreases before.len() - j,
            {
                j = j + 1;
            }
            if j < self.uploading.len() {
                assert(before.to_multiset().contains(number)) by {
                    assert(before.contains(before[j as int]));
                }
                self.uploading.remove(j);
                match &polled[i] {
                    PartUploadOutcome::Uploaded { part_number, e_tag } => {
                        let e = copy_e_tag(e_tag);
                        collected.push(CompletedPart { e_tag: e, part_number: *part_number });
                        assert(c0 + collected@ =~= (c0 + collected@.drop_last()).push(collected@.last()));
                    },
                    PartUploadOutcome::Failed { .. } => {
                        if first.is_none() {
                            first = Some(i);
                        }
                    },
                }
            } else {
                assert(!before.to_multiset().contains(number)) by {
                    if before.to_multiset().contains(number) {
                        assert(before.contains(number));
                    }
                }
                match &polled[i] {
                    PartUploadOutcome::Failed { .. } => {
                        if first.is_none() {
                            first = Some(i);
                        }
                    },
                    _ => {},
                }
            }
            i = i + 1;
        }
        proof {
            assert(polled@.take(polled@.len() as int) =~= polled@);
            lemma_settle(u0, c0, polled@, n);
            if first is None {
                assert(!has_failure(polled@));
            } else {
                assert(has_failure(polled@));
                let u1 = settle(u0, c0, polled@).0;
                assert(numbers_wf(u1, c0, n)) by {
                    assert forall|v: i32| #[trigger] u1.count(v) + #[trigger] part_numbers(c0).count(v) <= 1 by {
                        assert(u1.count(v) <= u0.count(v));
                    }
                    assert forall|v: i32| u1.count(v) + part_numbers(c0).count(v) > 0 implies 1 <= v <= n by {
                        assert(u1.count(v) <= u0.count(v));
                    }
                }
            }
        }
        if first.is_none() {
            self.completed_parts.append(&mut collected);
        } else {
            self.intact = Ghost(false);
        }
        first
    }
}

} // verus!
