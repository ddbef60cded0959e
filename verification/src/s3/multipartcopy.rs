use vstd::prelude::*;
use vstd::string::*;

use crate::s3::completed_part::CompletedPart;
use crate::s3::s3_object::S3Object;
use crate::text::{all_digits, decimal, digits_value, lemma_decimal_reads_back, push_decimal};

verus! {

/// The smallest size of an S3 object, 0 bytes.
pub const MIN_SOURCE_SIZE: i64 = 0;

/// The largest size of an S3 object, 5 TiB.
pub const MAX_SOURCE_SIZE: i64 = 5497558138880;

/// The smallest part of a multipart upload, 5 MiB.
pub const MIN_PART_SIZE: i64 = 5242880;

/// The largest part of a multipart upload, 5 GiB.
pub const MAX_PART_SIZE: i64 = 5368709120;

/// The part size used when none is given, 50 MiB.
pub const DEFAULT_COPY_PART_SIZE: i64 = 52428800;

/// Why an `i64` is not a valid [SourceSize].
#[derive(Debug, PartialEq, Eq, Structural, Clone, Copy)]
pub enum SourceSizeError {
    /// Below [MIN_SOURCE_SIZE]; holds the value.
    TooSmall(i64),
    /// Above [MAX_SOURCE_SIZE]; holds the value.
    TooLarge(i64),
}

/// The size of an S3 object in bytes: between 0 and 5 TiB.
#[derive(Debug)]
pub struct SourceSize(i64);

impl View for SourceSize {
    type V = i64;

    closed spec fn view(&self) -> i64 {
        self.0
    }
}

impl SourceSize {
    #[verifier::type_invariant]
    spec fn in_bounds(self) -> bool {
        MIN_SOURCE_SIZE <= self.0 <= MAX_SOURCE_SIZE
    }

    /// The size in bytes.
    pub fn value(&self) -> (v: i64)
        ensures
            v == self@,
            MIN_SOURCE_SIZE <= v <= MAX_SOURCE_SIZE,
    {
        proof {
            use_type_invariant(self);
        }
        self.0
    }

    /// What `SourceSize::try_from` gives for `value`, the accepted size by its value.
    pub open spec fn spec_try_from(value: i64) -> Result<i64, SourceSizeError> {
        if value < MIN_SOURCE_SIZE {
            Err(SourceSizeError::TooSmall(value))
        } else if value > MAX_SOURCE_SIZE {
            Err(SourceSizeError::TooLarge(value))
        } else {
            Ok(value)
        }
    }
}

impl Clone for SourceSize {
    fn clone(&self) -> (r: SourceSize)
        ensures
            r@ == self@,
    {
        proof {
            use_type_invariant(self);
        }
        SourceSize(self.0)
    }
}

impl vstd::std_specs::convert::TryFromSpecImpl<i64> for SourceSize {
    open spec fn obeys_try_from_spec() -> bool {
        true
    }

    closed spec fn try_from_spec(v: i64) -> Result<SourceSize, SourceSizeError> {
        match SourceSize::spec_try_from(v) {
            Ok(x) => Ok(SourceSize(x)),
            Err(e) => Err(e),
        }
    }
}

impl TryFrom<i64> for SourceSize {
    type Error = SourceSizeError;

    /// Accepts `value` when it lies between [MIN_SOURCE_SIZE] and [MAX_SOURCE_SIZE].
    fn try_from(value: i64) -> (r: Result<SourceSize, SourceSizeError>)
        ensures
            match (r, Self::spec_try_from(value)) {
                (Ok(s), Ok(v)) => s@ == v,
                (Err(e), Err(f)) => e == f,
                _ => false,
            },
    {
        if value < MIN_SOURCE_SIZE {
            Err(SourceSizeError::TooSmall(value))
        } else if value > MAX_SOURCE_SIZE {
            Err(SourceSizeError::TooLarge(value))
        } else {
            Ok(SourceSize(value))
        }
    }
}

/// Why an `i64` is not a valid [PartSize].
#[derive(Debug, PartialEq, Eq, Structural, Clone, Copy)]
pub enum PartSizeError {
    /// Below [MIN_PART_SIZE]; holds the value.
    TooSmall(i64),
    /// Above [MAX_PART_SIZE]; holds the value.
    TooLarge(i64),
}

/// The size in bytes of each part of a multipart copy: between 5 MiB and 5 GiB.
#[derive(Debug)]
pub struct PartSize(i64);

impl View for PartSize {
    type V = i64;

    closed spec fn view(&self) -> i64 {
        self.0
    }
}

impl PartSize {
    #[verifier::type_invariant]
    spec fn in_bounds(self) -> bool {
        MIN_PART_SIZE <= self.0 <= MAX_PART_SIZE
    }

    /// The size in bytes.
    pub fn value(&self) -> (v: i64)
        ensures
            v == self@,
            MIN_PART_SIZE <= v <= MAX_PART_SIZE,
    {
        proof {
            use_type_invariant(self);
        }
        self.0
    }

    /// What `PartSize::try_from` gives for `value`, the accepted size by its value.
    pub open spec fn spec_try_from(value: i64) -> Result<i64, PartSizeError> {
        if value < MIN_PART_SIZE {
            Err(PartSizeError::TooSmall(value))
        } else if value > MAX_PART_SIZE {
            Err(PartSizeError::TooLarge(value))
        } else {
            Ok(value)
        }
    }
}

impl Clone for PartSize {
    fn clone(&self) -> (r: PartSize)
        ensures
            r@ == self@,
    {
        proof {
            use_type_invariant(self);
        }
        PartSize(self.0)
    }
}

impl Default for PartSize {
    /// 50 MiB: few enough requests for large objects, small enough parts to retry cheaply.
    fn default() -> (r: PartSize)
        ensures
            r@ == DEFAULT_COPY_PART_SIZE,
    {
        PartSize(DEFAULT_COPY_PART_SIZE)
    }
}

impl vstd::std_specs::convert::TryFromSpecImpl<i64> for PartSize {
    open spec fn obeys_try_from_spec() -> bool {
        true
    }

    closed spec fn try_from_spec(v: i64) -> Result<PartSize, PartSizeError> {
        match PartSize::spec_try_from(v) {
            Ok(x) => Ok(PartSize(x)),
            Err(e) => Err(e),
        }
    }
}

impl TryFrom<i64> for PartSize {
    type Error = PartSizeError;

    /// Accepts `value` when it lies between [MIN_PART_SIZE] and [MAX_PART_SIZE].
    fn try_from(value: i64) -> (r: Result<PartSize, PartSizeError>)
        ensures
            match (r, Self::spec_try_from(value)) {
                (Ok(s), Ok(v)) => s@ == v,
                (Err(e), Err(f)) => e == f,
                _ => false,
            },
    {
        if value < MIN_PART_SIZE {
            Err(PartSizeError::TooSmall(value))
        } else if value > MAX_PART_SIZE {
            Err(PartSizeError::TooLarge(value))
        } else {
            Ok(PartSize(value))
        }
    }
}

/// Why a pair of offsets is not a valid [ByteRange].
#[derive(Debug, PartialEq, Eq, Structural, Clone, Copy)]
pub enum ByteRangeError {
    /// The start lies after the end; holds both.
    InvalidRange(i64, i64),
    /// The start is negative; holds it.
    NegativeStart(i64),
}

/// An inclusive range of byte offsets `start..=end`, with `0 <= start <= end`.
#[derive(Debug)]
pub struct ByteRange(i64, i64);

impl View for ByteRange {
    type V = (i64, i64);

    closed spec fn view(&self) -> (i64, i64) {
        (self.0, self.1)
    }
}

/// The text `bytes=<start>-<end>` of an S3 range header.
pub open spec fn range_header(start: nat, end: nat) -> Seq<char> {
    seq!['b', 'y', 't', 'e', 's', '='] + decimal(start) + seq!['-'] + decimal(end)
}

impl ByteRange {
    #[verifier::type_invariant]
    spec fn ordered(self) -> bool {
        0 <= self.0 <= self.1
    }

    /// The first offset.
    pub fn start(&self) -> (v: i64)
        ensures
            v == self@.0,
            0 <= v <= self@.1,
    {
        proof {
            use_type_invariant(self);
        }
        self.0
    }

    /// The last offset.
    pub fn end(&self) -> (v: i64)
        ensures
            v == self@.1,
            0 <= self@.0 <= v,
    {
        proof {
            use_type_invariant(self);
        }
        self.1
    }

    /// What `ByteRange::try_from` gives for `(start, end)`, the accepted range by its offsets.
    pub open spec fn spec_try_from(start: i64, end: i64) -> Result<(i64, i64), ByteRangeError> {
        if start < 0 {
            Err(ByteRangeError::NegativeStart(start))
        } else if start > end {
            Err(ByteRangeError::InvalidRange(start, end))
        } else {
            Ok((start, end))
        }
    }

    /// The range as an S3 range header value, e.g. `bytes=0-499`.
    pub fn as_string(&self) -> (s: String)
        ensures
            s@ == range_header(self@.0 as nat, self@.1 as nat),
    {
        proof {
            use_type_invariant(self);
        }
        let mut s = String::from_str("bytes=");
        proof {
            reveal_strlit("bytes=");
        }
        push_decimal(&mut s, self.0 as u64);
        s.append("-");
        proof {
            reveal_strlit("-");
        }
        push_decimal(&mut s, self.1 as u64);
        assert(s@ =~= range_header(self@.0 as nat, self@.1 as nat));
        s
    }
}

impl Clone for ByteRange {
    fn clone(&self) -> (r: ByteRange)
        ensures
            r@ == self@,
    {
        proof {
            use_type_invariant(self);
        }
        ByteRange(self.0, self.1)
    }
}

impl vstd::std_specs::convert::TryFromSpecImpl<(i64, i64)> for ByteRange {
    open spec fn obeys_try_from_spec() -> bool {
        true
    }

    closed spec fn try_from_spec(v: (i64, i64)) -> Result<ByteRange, ByteRangeError> {
        match ByteRange::spec_try_from(v.0, v.1) {
            Ok(x) => Ok(ByteRange(x.0, x.1)),
            Err(e) => Err(e),
        }
    }
}

impl TryFrom<(i64, i64)> for ByteRange {
    type Error = ByteRangeError;

    /// Accepts `(start, end)` when `0 <= start <= end`.
    fn try_from(value: (i64, i64)) -> (r: Result<ByteRange, ByteRangeError>)
        ensures
            match (r, Self::spec_try_from(value.0, value.1)) {
                (Ok(b), Ok(v)) => b@ == v,
                (Err(e), Err(f)) => e == f,
                _ => false,
            },
    {
        let (start, end) = value;
        if start < 0 {
            Err(ByteRangeError::NegativeStart(start))
        } else if start > end {
            Err(ByteRangeError::InvalidRange(start, end))
        } else {
            Ok(ByteRange(start, end))
        }
    }
}

/// Errors of an S3 multipart copy that the copy logic itself decides.
#[derive(Debug, PartialEq, Eq, Structural, Clone, Copy)]
pub enum S3MultipartCopierError {
    /// Creating the multipart upload returned no upload id.
    MissingUploadId,
    /// Copying a part returned no copy result.
    MissingCopyPartResult,
    /// The source object's head returned no content length.
    MissingContentLength,
    /// The source object's length is not a valid [SourceSize].
    SourceSize(SourceSizeError),
    /// A multipart copy was asked for a source smaller than one part.
    PartSizeGreaterThanSource { part_size: i64, source_size: i64 },
    /// A multipart copy was asked for an empty source.
    MultipartCopySourceSizeZero,
    /// A computed part range was invalid.
    ByteRangeError(ByteRangeError),
}

/// `a / b` rounded up, for `b > 0`.
pub open spec fn ceil_div(a: int, b: int) -> int {
    (a + b - 1) / b
}

/// The inclusive byte range of the part at index `i` (part number `i + 1`)
/// when a source of `source` bytes is cut into parts of `part` bytes.
pub open spec fn part_range(i: int, part: int, source: int) -> (int, int) {
    (i * part, if (i + 1) * part < source { (i + 1) * part - 1 } else { source - 1 })
}

proof fn lemma_ceil_div(a: int, b: int)
    requires
        a > 0,
        b > 0,
    ensures
        ceil_div(a, b) >= 1,
        (ceil_div(a, b) - 1) * b < a,
        a <= ceil_div(a, b) * b,
        ceil_div(a, b) <= a,
{
    let c = ceil_div(a, b);
    assert(c * b <= a + b - 1 < c * b + b) by (nonlinear_arith)
        requires
            c == (a + b - 1) / b,
            b > 0,
    ;
    assert((c - 1) * b == c * b - b) by (nonlinear_arith);
    assert(c >= 1) by (nonlinear_arith)
        requires
            c * b + b > a + b - 1,
            a > 0,
            b > 0,
    ;
    assert(c <= a) by (nonlinear_arith)
        requires
            c * b <= a + b - 1,
            b > 0,
            c >= 1,
    ;
}

proof fn lemma_mul_le(x: int, y: int, b: int)
    requires
        x <= y,
        b >= 0,
    ensures
        x * b <= y * b,
{
    assert(x * b <= y * b) by (nonlinear_arith)
        requires
            x <= y,
            b >= 0,
    ;
}

/// The part ranges of a non-empty source partition its bytes: the first
/// starts at 0, each starts right after the one before ends, the last ends at
/// the source's last byte, and none is empty, longer than a part, or past the end.
pub proof fn lemma_part_ranges_partition(source: int, part: int)
    requires
        source > 0,
        part > 0,
    ensures
        ceil_div(source, part) >= 1,
        part_range(0, part, source).0 == 0,
        part_range(ceil_div(source, part) - 1, part, source).1 == source - 1,
        forall|i: int|
            0 <= i < ceil_div(source, part) - 1 ==> #[trigger] part_range(i + 1, part, source).0
                == part_range(i, part, source).1 + 1,
        forall|i: int|
            0 <= i < ceil_div(source, part) ==> {
                let r = #[trigger] part_range(i, part, source);
                &&& 0 <= r.0 <= r.1 < source
                &&& r.1 - r.0 < part
            },
{
    let c = ceil_div(source, part);
    lemma_ceil_div(source, part);
    assert(0 * part == 0) by (nonlinear_arith);
    assert forall|i: int| 0 <= i < c - 1 implies #[trigger] part_range(i + 1, part, source).0
        == part_range(i, part, source).1 + 1 by {
        lemma_mul_le(i + 1, c - 1, part);
    }
    assert forall|i: int| 0 <= i < c implies {
        let r = #[trigger] part_range(i, part, source);
        &&& 0 <= r.0 <= r.1 < source
        &&& r.1 - r.0 < part
    } by {
        lemma_mul_le(i, c - 1, part);
        lemma_mul_le(0, i, part);
        assert((i + 1) * part == i * part + part) by (nonlinear_arith);
    }
    assert((c - 1 + 1) * part >= source);
}

/// Part `i` (counted from 0) of a non-empty source starts at `i * part`;
/// every part but the last holds exactly `part` bytes, and the last ends at
/// the source's last byte.
pub proof fn lemma_part_ranges_aligned(source: int, part: int)
    requires
        source > 0,
        part > 0,
    ensures
        forall|i: int| 0 <= i < ceil_div(source, part) ==> #[trigger] part_range(i, part, source).0 == i * part,
        forall|i: int|
            0 <= i < ceil_div(source, part) - 1 ==> #[trigger] part_range(i, part, source).1 == (i + 1) * part
                - 1,
        part_range(ceil_div(source, part) - 1, part, source).1 == source - 1,
{
    let c = ceil_div(source, part);
    lemma_ceil_div(source, part);
    assert forall|i: int| 0 <= i < c - 1 implies #[trigger] part_range(i, part, source).1 == (i + 1) * part
        - 1 by {
        lemma_mul_le(i + 1, c - 1, part);
    }
    assert((c - 1 + 1) * part >= source);
}

/// The range header of `start..=end` is `bytes=`, the digits of `start`, `-`
/// and the digits of `end`: each run of digits reads back as its offset.
pub proof fn lemma_range_header_reads_back(start: nat, end: nat)
    ensures
        exists|a: Seq<char>, b: Seq<char>|
            #![trigger digits_value(a), digits_value(b)]
            {
                &&& range_header(start, end) == seq!['b', 'y', 't', 'e', 's', '='] + a + seq!['-'] + b
                &&& a.len() > 0 && all_digits(a) && digits_value(a) == start
                &&& b.len() > 0 && all_digits(b) && digits_value(b) == end
            },
{
    lemma_decimal_reads_back(start);
    lemma_decimal_reads_back(end);
    let a = decimal(start);
    let b = decimal(end);
    assert(digits_value(a) == start && digits_value(b) == end);
}

/// The number of parts of `part_size` bytes that a source of `source_size`
/// bytes needs: the quotient rounded up. An empty source is refused.
pub fn part_count(source_size: &SourceSize, part_size: &PartSize) -> (r: Result<
    i64,
    S3MultipartCopierError,
>)
    ensures
        source_size@ == 0 ==> r == Err::<i64, _>(S3MultipartCopierError::MultipartCopySourceSizeZero),
        source_size@ != 0 ==> r == Ok::<_, S3MultipartCopierError>(
            ceil_div(source_size@ as int, part_size@ as int) as i64,
        ),
{
    let source = source_size.value();
    let part = part_size.value();
    if source == 0 {
        return Err(S3MultipartCopierError::MultipartCopySourceSizeZero);
    }
    Ok((source + part - 1) / part)
}

/// The parts of a multipart copy: for a non-empty source, the part numbers
/// `1..=part_count` each with its byte range (see [part_range]); for an empty
/// source, the single error [S3MultipartCopierError::MultipartCopySourceSizeZero].
pub fn byte_ranges(source_size: &SourceSize, part_size: &PartSize) -> (r: Vec<
    Result<(i64, ByteRange), S3MultipartCopierError>,
>)
    ensures
        source_size@ == 0 ==> r@ == seq![
            Err::<(i64, ByteRange), _>(S3MultipartCopierError::MultipartCopySourceSizeZero),
        ],
        source_size@ != 0 ==> {
            &&& r@.len() == ceil_div(source_size@ as int, part_size@ as int)
            &&& forall|i: int|
                0 <= i < r@.len() ==> {
                    let range = part_range(i, part_size@ as int, source_size@ as int);
                    &&& #[trigger] r@[i] is Ok
                    &&& r@[i]->Ok_0.0 == i + 1
                    &&& r@[i]->Ok_0.1@.0 == range.0
                    &&& r@[i]->Ok_0.1@.1 == range.1
                }
        },
{
    let mut out: Vec<Result<(i64, ByteRange), S3MultipartCopierError>> = Vec::new();
    let count = match part_count(source_size, part_size) {
        Ok(count) => count,
        Err(e) => {
            out.push(Err(e));
            return out;
        },
    };
    let source = source_size.value();
    let part = part_size.value();
    let ghost s = source as int;
    let ghost p = part as int;
    proof {
        lemma_part_ranges_partition(s, p);
        lemma_ceil_div(s, p);
    }
    let mut k: i64 = 1;
    while k <= count
        invariant
            1 <= k <= count + 1,
            count == ceil_div(s, p),
            s == source,
            p == part,
            s > 0,
            MIN_PART_SIZE <= p <= MAX_PART_SIZE,
            s <= MAX_SOURCE_SIZE,
            (count - 1) * p < s,
            out@.len() == k - 1,
            forall|i: int|
                0 <= i < out@.len() ==> {
                    let range = part_range(i, p, s);
                    &&& #[trigger] out@[i] is Ok
                    &&& out@[i]->Ok_0.0 == i + 1
                    &&& out@[i]->Ok_0.1@.0 == range.0
                    &&& out@[i]->Ok_0.1@.1 == range.1
                },
            forall|i: int|
                0 <= i < count ==> {
                    let r = #[trigger] part_range(i, p, s);
                    &&& 0 <= r.0 <= r.1 < s
                    &&& r.1 - r.0 < p
                },
        decreases count + 1 - k,
    {
        proof {
            lemma_mul_le(k as int, count as int, p);
            assert(part_range(k - 1, p, s).0 == (k - 1) * p);
            assert(k * p == (k - 1) * p + p) by (nonlinear_arith);
        }
        let start = (k - 1) * part;
        let end = if k * part < source {
            k * part - 1
        } else {
            source - 1
        };
        match ByteRange::try_from((start, end)) {
            Ok(range) => out.push(Ok((k, range))),
            Err(e) => out.push(Err(S3MultipartCopierError::ByteRangeError(e))),
        }
        k = k + 1;
    }
    out
}

/// The source size that a head request's content length gives: none is an
/// error, and so is a length outside the bounds of [SourceSize].
pub fn source_size_from_content_length(content_length: Option<i64>) -> (r: Result<
    SourceSize,
    S3MultipartCopierError,
>)
    ensures
        match content_length {
            None => r == Err::<SourceSize, _>(S3MultipartCopierError::MissingContentLength),
            Some(len) => match SourceSize::spec_try_from(len) {
                Ok(v) => r is Ok && r->Ok_0@ == v,
                Err(e) => r == Err::<SourceSize, _>(S3MultipartCopierError::SourceSize(e)),
            },
        },
{
    match content_length {
        None => Err(S3MultipartCopierError::MissingContentLength),
        Some(len) => match SourceSize::try_from(len) {
            Ok(size) => Ok(size),
            Err(e) => Err(S3MultipartCopierError::SourceSize(e)),
        },
    }
}

/// How an object is copied.
#[derive(Debug, PartialEq, Eq, Structural, Clone, Copy)]
pub enum CopyStrategy {
    /// One `CopyObject` request.
    Atomic,
    /// A multipart upload whose parts are copied from the source.
    Multipart,
}

/// A source no larger than one part is copied in one request; a larger one
/// part by part.
pub fn copy_strategy(source_size: &SourceSize, part_size: &PartSize) -> (r: CopyStrategy)
    ensures
        r == (if source_size@ <= part_size@ {
            CopyStrategy::Atomic
        } else {
            CopyStrategy::Multipart
        }),
{
    if source_size.value() <= part_size.value() {
        CopyStrategy::Atomic
    } else {
        CopyStrategy::Multipart
    }
}

/// The `bucket/key` form in which S3 names the source of a copy.
pub open spec fn spec_copy_source(bucket: Seq<char>, key: Seq<char>) -> Seq<char> {
    bucket + seq!['/'] + key
}

/// The copy source of `object`: its bucket and key joined by `/`.
pub fn copy_source(object: &S3Object) -> (r: String)
    ensures
        r@ == spec_copy_source(object.bucket@, object.key@),
{
    let mut s = object.bucket.clone();
    s.append("/");
    s.append(object.key.as_str());
    proof {
        reveal_strlit("/");
        assert(s@ =~= spec_copy_source(object.bucket@, object.key@));
    }
    s
}

/// A multipart copy needs a source larger than one part.
pub fn check_multipart(source_size: &SourceSize, part_size: &PartSize) -> (r: Result<
    (),
    S3MultipartCopierError,
>)
    ensures
        part_size@ > source_size@ ==> r == Err::<(), _>(
            S3MultipartCopierError::PartSizeGreaterThanSource {
                part_size: part_size@,
                source_size: source_size@,
            },
        ),
        part_size@ <= source_size@ ==> r is Ok,
{
    let part = part_size.value();
    let source = source_size.value();
    if part > source {
        Err(S3MultipartCopierError::PartSizeGreaterThanSource { part_size: part, source_size: source })
    } else {
        Ok(())
    }
}

/// The upload id that creating a multipart upload returned; none is an error.
pub fn upload_id_or_error(upload_id: Option<String>) -> (r: Result<String, S3MultipartCopierError>)
    ensures
        match upload_id {
            Some(id) => r == Ok::<_, S3MultipartCopierError>(id),
            None => r == Err::<String, _>(S3MultipartCopierError::MissingUploadId),
        },
{
    match upload_id {
        Some(id) => Ok(id),
        None => Err(S3MultipartCopierError::MissingUploadId),
    }
}

/// One `UploadPartCopy` request of a multipart copy.
#[derive(Debug)]
pub struct PartCopy {
    /// The number of the part, counted from 1.
    pub part_number: i32,
    /// The bytes of the source that the part copies.
    pub byte_range: ByteRange,
    /// The range as the request states it, `bytes=<start>-<end>`.
    pub copy_source_range: String,
}

proof fn lemma_part_count_fits(source: int, part: int)
    requires
        0 < source <= MAX_SOURCE_SIZE,
        MIN_PART_SIZE <= part,
    ensures
        ceil_div(source, part) <= 1048576,
{
    let m: int = MAX_SOURCE_SIZE as int;
    let q: int = MIN_PART_SIZE as int;
    let k: int = 1048576;
    assert(m == k * q);
    assert((source + part - 1) / part <= (m + part - 1) / part) by (nonlinear_arith)
        requires
            source <= m,
            part > 0,
    ;
    assert(m <= k * part) by (nonlinear_arith)
        requires
            m == k * q,
            part >= q,
            k >= 0,
    ;
    assert((m + part - 1) / part <= k) by (nonlinear_arith)
        requires
            m <= k * part,
            part > 0,
            m >= 0,
    ;
}

/// The part copies of a multipart copy, in order of part number: part `i + 1`
/// copies [part_range] `i` and states it as a [range_header]. An empty source
/// is refused.
pub fn part_copies(source_size: &SourceSize, part_size: &PartSize) -> (r: Result<
    Vec<PartCopy>,
    S3MultipartCopierError,
>)
    ensures
        source_size@ == 0 ==> r == Err::<Vec<PartCopy>, _>(
            S3MultipartCopierError::MultipartCopySourceSizeZero,
        ),
        source_size@ != 0 ==> r is Ok && {
            let parts = r->Ok_0@;
            &&& parts.len() == ceil_div(source_size@ as int, part_size@ as int)
            &&& forall|i: int|
                0 <= i < parts.len() ==> {
                    let range = part_range(i, part_size@ as int, source_size@ as int);
                    &&& #[trigger] parts[i].part_number == i + 1
                    &&& parts[i].byte_range@.0 == range.0
                    &&& parts[i].byte_range@.1 == range.1
                    &&& parts[i].copy_source_range@ == range_header(range.0 as nat, range.1 as nat)
                }
        },
{
    let ranges = byte_ranges(source_size, part_size);
    if source_size.value() == 0 {
        return Err(S3MultipartCopierError::MultipartCopySourceSizeZero);
    }
    proof {
        use_type_invariant(part_size);
        lemma_part_count_fits(source_size@ as int, part_size@ as int);
    }
    let n = ranges.len();
    let mut parts: Vec<PartCopy> = Vec::new();
    let mut i: usize = 0;
    while i < n
        invariant
            n == ranges@.len(),
            n == ceil_div(source_size@ as int, part_size@ as int),
            n <= 1048576,
            i <= n,
            parts@.len() == i,
            forall|k: int|
                0 <= k < n ==> {
                    let range = part_range(k, part_size@ as int, source_size@ as int);
                    &&& #[trigger] ranges@[k] is Ok
                    &&& ranges@[k]->Ok_0.0 == k + 1
                    &&& ranges@[k]->Ok_0.1@.0 == range.0
                    &&& ranges@[k]->Ok_0.1@.1 == range.1
                },
            forall|k: int|
                0 <= k < i ==> {
                    let range = part_range(k, part_size@ as int, source_size@ as int);
                    &&& #[trigger] parts@[k].part_number == k + 1
                    &&& parts@[k].byte_range@.0 == range.0
                    &&& parts@[k].byte_range@.1 == range.1
                    &&& parts@[k].copy_source_range@ == range_header(range.0 as nat, range.1 as nat)
                },
        decreases n - i,
    {
        assert(ranges@[i as int] is Ok);
        match &ranges[i] {
            Ok((number, range)) => {
                let text = range.as_string();
                parts.push(
                    PartCopy { part_number: *number as i32, byte_range: range.clone(), copy_source_range: text },
                );
            },
            Err(_) => {},
        }
        i = i + 1;
    }
    Ok(parts)
}

/// The result of one `UploadPartCopy` request: the entity tag of the new part.
#[derive(Debug, PartialEq, Eq, Clone)]
pub struct CopyPartResult {
    /// The entity tag of the copied part.
    pub e_tag: Option<String>,
}

/// The completed part that copying part `part_number` gives; a response
/// without a copy result is an error.
pub fn completed_part(part_number: i32, copy_part_result: Option<CopyPartResult>) -> (r: Result<
    CompletedPart,
    S3MultipartCopierError,
>)
    ensures
        match copy_part_result {
            None => r == Err::<CompletedPart, _>(S3MultipartCopierError::MissingCopyPartResult),
            Some(res) => r == Ok::<_, S3MultipartCopierError>(
                CompletedPart { e_tag: res.e_tag, part_number },
            ),
        },
{
    match copy_part_result {
        None => Err(S3MultipartCopierError::MissingCopyPartResult),
        Some(res) => Ok(CompletedPart { e_tag: res.e_tag, part_number }),
    }
}

} // verus!
