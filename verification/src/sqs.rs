use vstd::prelude::*;
use vstd::string::*;

use crate::text::{decimal, decimal_string};

verus! {

/// The longest queue name, in bytes.
pub const MAX_QUEUE_NAME_LENGTH: usize = 80;

/// The most messages one `SendMessageBatch` request may carry.
pub const BATCH_SIZE: usize = 10;

/// A character allowed in a queue name: an ASCII letter or digit, `-` or `_`.
pub open spec fn is_queue_name_char(c: char) -> bool {
    ('a' <= c && c <= 'z') || ('A' <= c && c <= 'Z') || ('0' <= c && c <= '9') || c == '-' || c == '_'
}

/// Why a string is not a valid queue name.
#[derive(Debug, PartialEq, Eq, Structural, Clone, Copy)]
pub enum SQSQueueNameError {
    /// The name is empty.
    TooShort,
    /// The name is longer than [MAX_QUEUE_NAME_LENGTH] bytes.
    TooLong,
    /// The name holds a character other than those of [is_queue_name_char].
    InvalidCharacters,
}

impl SQSQueueNameError {
    /// The error's message.
    pub fn message(&self) -> (r: String)
        ensures
            r@ == match *self {
                SQSQueueNameError::TooShort => "Min length is 1"@,
                SQSQueueNameError::TooLong => "Max length is 80 characters"@,
                SQSQueueNameError::InvalidCharacters => "The following characters are accepted: alphanumeric characters, hyphens (-), and underscores (_)"@,
            },
    {
        match *self {
            SQSQueueNameError::TooShort => String::from_str("Min length is 1"),
            SQSQueueNameError::TooLong => String::from_str("Max length is 80 characters"),
            SQSQueueNameError::InvalidCharacters => String::from_str(
                "The following characters are accepted: alphanumeric characters, hyphens (-), and underscores (_)",
            ),
        }
    }
}

/// The name of an SQS queue. Parsing accepts names of 1 to 80 bytes made of
/// ASCII letters and digits, hyphens and underscores.
#[derive(Debug, Clone, PartialEq, Eq)]
pub struct SQSQueueName(String);

impl View for SQSQueueName {
    type V = Seq<char>;

    closed spec fn view(&self) -> Seq<char> {
        self.0@
    }
}

/// What parsing `s` as a queue name gives: the length in bytes is checked
/// first, then emptiness, then the characters.
pub open spec fn spec_parse_queue_name(s: &str) -> Result<Seq<char>, SQSQueueNameError> {
    if s.spec_bytes().len() > MAX_QUEUE_NAME_LENGTH {
        Err(SQSQueueNameError::TooLong)
    } else if s@.len() == 0 {
        Err(SQSQueueNameError::TooShort)
    } else if !(forall|i: int| 0 <= i < s@.len() ==> is_queue_name_char(#[trigger] s@[i])) {
        Err(SQSQueueNameError::InvalidCharacters)
    } else {
        Ok(s@)
    }
}

/// A name of 1 to 80 bytes whose every character is an ASCII letter, a
/// digit, `-` or `_` is accepted, and the queue name is that text.
pub proof fn lemma_queue_name_accepted(s: &str)
    requires
        s@.len() >= 1,
        s.spec_bytes().len() <= 80,
        forall|i: int|
            0 <= i < s@.len() ==> {
                let c = #[trigger] s@[i];
                ||| 'a' <= c && c <= 'z'
                ||| 'A' <= c && c <= 'Z'
                ||| '0' <= c && c <= '9'
                ||| c == '-'
                ||| c == '_'
            },
    ensures
        spec_parse_queue_name(s) == Ok::<Seq<char>, SQSQueueNameError>(s@),
{
}

/// A name of at most 80 bytes that holds any other character is refused
/// with `InvalidCharacters`, wherever that character stands.
pub proof fn lemma_queue_name_refused(s: &str, i: int)
    requires
        s.spec_bytes().len() <= 80,
        0 <= i < s@.len(),
        !('a' <= s@[i] && s@[i] <= 'z'),
        !('A' <= s@[i] && s@[i] <= 'Z'),
        !('0' <= s@[i] && s@[i] <= '9'),
        s@[i] != '-',
        s@[i] != '_',
    ensures
        spec_parse_queue_name(s) == Err::<Seq<char>, SQSQueueNameError>(SQSQueueNameError::InvalidCharacters),
{
}

/// A name longer than 80 bytes is refused with `TooLong`, and an empty one
/// with `TooShort`.
pub proof fn lemma_queue_name_length(s: &str)
    ensures
        s.spec_bytes().len() > 80 ==> spec_parse_queue_name(s) == Err::<Seq<char>, SQSQueueNameError>(
            SQSQueueNameError::TooLong,
        ),
        s.spec_bytes().len() <= 80 && s@.len() == 0 ==> spec_parse_queue_name(s) == Err::<
            Seq<char>,
            SQSQueueNameError,
        >(SQSQueueNameError::TooShort),
{
}

impl SQSQueueName {
    /// Parses a queue name; see [spec_parse_queue_name].
    pub fn parse(s: &str) -> (r: Result<SQSQueueName, SQSQueueNameError>)
        ensures
            match (r, spec_parse_queue_name(s)) {
                (Ok(name), Ok(v)) => name@ == v,
                (Err(e), Err(f)) => e == f,
                _ => false,
            },
    {
        if s.as_bytes().len() > MAX_QUEUE_NAME_LENGTH {
            return Err(SQSQueueNameError::TooLong);
        }
        if s.is_empty() {
            return Err(SQSQueueNameError::TooShort);
        }
        let len = s.unicode_len();
        let mut i: usize = 0;
        while i < len
            invariant
                len == s@.len(),
                i <= len,
                s.spec_bytes().len() <= MAX_QUEUE_NAME_LENGTH,
                s@.len() != 0,
                forall|j: int| 0 <= j < i ==> is_queue_name_char(#[trigger] s@[j]),
            decreases len - i,
        {
            let c = s.get_char(i);
            if !(('a' <= c && c <= 'z') || ('A' <= c && c <= 'Z') || ('0' <= c && c <= '9') || c == '-'
                || c == '_') {
                assert(!is_queue_name_char(s@[i as int]));
                assert(!(forall|j: int| 0 <= j < s@.len() ==> is_queue_name_char(#[trigger] s@[j])));
                return Err(SQSQueueNameError::InvalidCharacters);
            }
            i = i + 1;
        }
        Ok(SQSQueueName(String::from_str(s)))
    }

    /// The name as a string slice.
    pub fn as_str(&self) -> (r: &str)
        ensures
            r@ == self@,
    {
        self.0.as_str()
    }

    /// The name as a string.
    pub fn to_string(&self) -> (r: String)
        ensures
            r@ == self@,
    {
        self.0.clone()
    }
}

impl vstd::std_specs::convert::FromSpecImpl<String> for SQSQueueName {
    open spec fn obeys_from_spec() -> bool {
        true
    }

    closed spec fn from_spec(v: String) -> SQSQueueName {
        SQSQueueName(v)
    }
}

impl From<String> for SQSQueueName {
    /// Wraps a string without checking it.
    fn from(v: String) -> (r: SQSQueueName)
        ensures
            r@ == v@,
    {
        SQSQueueName(v)
    }
}

impl std::str::FromStr for SQSQueueName {
    type Err = SQSQueueNameError;

    /// Parses a queue name as [SQSQueueName::parse] does.
    fn from_str(s: &str) -> (r: Result<SQSQueueName, SQSQueueNameError>)
        ensures
            match (r, spec_parse_queue_name(s)) {
                (Ok(name), Ok(v)) => name@ == v,
                (Err(e), Err(f)) => e == f,
                _ => false,
            },
    {
        SQSQueueName::parse(s)
    }
}

/// Why sending messages stopped, where the sending logic itself decides it.
#[derive(Debug, PartialEq, Eq, Clone)]
pub enum SendMessagesError {
    /// A concurrency of zero was asked for.
    ZeroConcurrency,
    /// The queue's URL was not returned; holds the queue's name.
    MissingQueueUrl(String),
}

impl SendMessagesError {
    /// The error's message.
    pub fn message(&self) -> (r: String)
        ensures
            r@ == match *self {
                SendMessagesError::ZeroConcurrency => "Zero concurrency not allowed."@,
                SendMessagesError::MissingQueueUrl(name) => "Failed to get queue URL for "@ + name@,
            },
    {
        match self {
            SendMessagesError::ZeroConcurrency => String::from_str("Zero concurrency not allowed."),
            SendMessagesError::MissingQueueUrl(name) => {
                let mut r = String::from_str("Failed to get queue URL for ");
                r.append(name.as_str());
                r
            },
        }
    }
}

/// How many batch requests may run at once: `None` sends them one at a
/// time, and zero is refused.
pub fn concurrency_limit(concurrency: Option<usize>) -> (r: Result<usize, SendMessagesError>)
    ensures
        match concurrency {
            None => r == Ok::<usize, SendMessagesError>(1),
            Some(n) => if n == 0 {
                r == Err::<usize, _>(SendMessagesError::ZeroConcurrency)
            } else {
                r == Ok::<usize, SendMessagesError>(n)
            },
        },
{
    match concurrency {
        Some(0) => Err(SendMessagesError::ZeroConcurrency),
        Some(n) => Ok(n),
        None => Ok(1),
    }
}

/// The queue URL that was looked up for `queue_name`; none is an error.
pub fn queue_url_or_error(queue_url: Option<String>, queue_name: &SQSQueueName) -> (r: Result<
    String,
    SendMessagesError,
>)
    ensures
        match queue_url {
            Some(url) => r == Ok::<String, SendMessagesError>(url),
            None => r is Err && r->Err_0 is MissingQueueUrl && r->Err_0->MissingQueueUrl_0@ == queue_name@,
        },
{
    match queue_url {
        Some(url) => Ok(url),
        None => Err(SendMessagesError::MissingQueueUrl(queue_name.to_string())),
    }
}

/// One message of a `SendMessageBatch` request: its id within the batch and its body.
#[derive(Debug, Clone)]
pub struct BatchEntry {
    pub id: String,
    pub message_body: String,
}

/// An entry by its id and body.
pub struct EntryView {
    pub id: Seq<char>,
    pub body: Seq<char>,
}

impl View for BatchEntry {
    type V = EntryView;

    open spec fn view(&self) -> EntryView {
        EntryView { id: self.id@, body: self.message_body@ }
    }
}

/// The entries of a batch, by their views.
pub open spec fn entry_views(batch: Seq<BatchEntry>) -> Seq<EntryView> {
    batch.map_values(|e: BatchEntry| e@)
}

/// The entries that messages `bodies` become: message `i` gets the id `i` in decimal.
pub open spec fn numbered(bodies: Seq<Seq<char>>) -> Seq<EntryView> {
    Seq::new(bodies.len(), |i: int| EntryView { id: decimal(i as nat), body: bodies[i] })
}

/// The abstract state of a [MessageBatcher].
pub struct BatcherView {
    /// The bodies of every message taken so far, in order.
    pub bodies: Seq<Seq<char>>,
    /// Entries waiting for a batch to fill.
    pub pending: Seq<EntryView>,
    /// Every batch handed out, in order.
    pub sent: Seq<Seq<EntryView>>,
}

impl BatcherView {
    /// The batches handed out and the pending entries are, in order, the
    /// numbered messages; every batch handed out is full.
    pub open spec fn wf(self) -> bool {
        &&& self.pending.len() < BATCH_SIZE
        &&& self.sent.flatten() + self.pending == numbered(self.bodies)
        &&& forall|k: int| 0 <= k < self.sent.len() ==> (#[trigger] self.sent[k]).len() == BATCH_SIZE
    }
}

/// Groups messages, numbered from 0 in the order they come, into batches of
/// [BATCH_SIZE] entries, the most a `SendMessageBatch` request may carry.
pub struct MessageBatcher {
    next_id: usize,
    pending: Vec<BatchEntry>,
    bodies: Ghost<Seq<Seq<char>>>,
    sent: Ghost<Seq<Seq<EntryView>>>,
}

impl View for MessageBatcher {
    type V = BatcherView;

    closed spec fn view(&self) -> BatcherView {
        BatcherView { bodies: self.bodies@, pending: entry_views(self.pending@), sent: self.sent@ }
    }
}

impl MessageBatcher {
    closed spec fn inv(self) -> bool {
        &&& self@.wf()
        &&& self.next_id == self.bodies@.len()
    }

    /// The batcher's abstract state is well formed.
    pub closed spec fn valid(self) -> bool {
        self.inv()
    }

    /// A batcher that has taken no message.
    pub fn new() -> (r: MessageBatcher)
        ensures
            r.valid(),
            r@.bodies == Seq::<Seq<char>>::empty(),
            r@.pending == Seq::<EntryView>::empty(),
            r@.sent == Seq::<Seq<EntryView>>::empty(),
    {
        let r = MessageBatcher {
            next_id: 0,
            pending: Vec::new(),
            bodies: Ghost(Seq::empty()),
            sent: Ghost(Seq::empty()),
        };
        proof {
            assert(entry_views(r.pending@) =~= Seq::empty());
            assert(numbered(Seq::empty()) =~= Seq::empty());
            assert(r@.sent.flatten() =~= Seq::empty());
            assert(r@.sent.flatten() + r@.pending =~= numbered(r@.bodies));
        }
        r
    }

    /// How many messages have been taken.
    pub fn taken(&self) -> (n: usize)
        requires
            self.valid(),
        ensures
            n == self@.bodies.len(),
    {
        self.next_id
    }

    /// Takes the next message; when it fills a batch, the batch is handed out.
    pub fn push(&mut self, body: String) -> (r: Option<Vec<BatchEntry>>)
        requires
            old(self).valid(),
            old(self)@.bodies.len() < usize::MAX,
        ensures
            final(self).valid(),
            final(self)@.bodies == old(self)@.bodies.push(body@),
            ({
                let entry = EntryView { id: decimal(old(self)@.bodies.len()), body: body@ };
                if old(self)@.pending.len() + 1 == BATCH_SIZE {
                    &&& r is Some
                    &&& entry_views(r->Some_0@) == old(self)@.pending.push(entry)
                    &&& final(self)@.pending == Seq::<EntryView>::empty()
                    &&& final(self)@.sent == old(self)@.sent.push(entry_views(r->Some_0@))
                } else {
                    &&& r is None
                    &&& final(self)@.pending == old(self)@.pending.push(entry)
                    &&& final(self)@.sent == old(self)@.sent
                }
            }),
    {
        let ghost old_view = self@;
        let id = decimal_string(self.next_id as u64);
        let ghost entry = EntryView { id: id@, body: body@ };
        self.pending.push(BatchEntry { id, message_body: body });
        self.next_id = self.next_id + 1;
        proof {
            self.bodies@ = self.bodies@.push(body@);
            assert(entry_views(self.pending@) =~= old_view.pending.push(entry));
            assert(numbered(self.bodies@) =~= numbered(old_view.bodies).push(entry));
        }
        if self.pending.len() == BATCH_SIZE {
            let mut batch: Vec<BatchEntry> = Vec::new();
            std::mem::swap(&mut batch, &mut self.pending);
            proof {
                let b = entry_views(batch@);
                old_view.sent.lemma_flatten_push(b);
                self.sent@ = self.sent@.push(b);
                assert(entry_views(self.pending@) =~= Seq::empty());
                assert(self@.sent.flatten() + self@.pending =~= numbered(self@.bodies));
            }
            Some(batch)
        } else {
            proof {
                assert(self@.sent.flatten() + self@.pending =~= numbered(self@.bodies));
            }
            None
        }
    }

    /// After the last message: the entries still waiting form the last
    /// batch, unless there are none. Together with the batches handed out
    /// before, the batches are then exactly the numbered messages, in order:
    /// every batch is full but the last, and none is empty.
    pub fn finish(self) -> (r: Option<Vec<BatchEntry>>)
        requires
            self.valid(),
        ensures
            ({
                let all = match r {
                    Some(b) => self@.sent.push(entry_views(b@)),
                    None => self@.sent,
                };
                &&& all.flatten() == numbered(self@.bodies)
                &&& forall|k: int| 0 <= k < all.len() ==> 0 < (#[trigger] all[k]).len() <= BATCH_SIZE
                &&& forall|k: int| 0 <= k < all.len() - 1 ==> (#[trigger] all[k]).len() == BATCH_SIZE
                &&& (r is None <==> self@.pending.len() == 0)
                &&& (r is Some ==> entry_views(r->Some_0@) == self@.pending)
            }),
    {
        if self.pending.len() == 0 {
            proof {
                assert(entry_views(self.pending@).len() == 0);
                assert(self@.sent.flatten() =~= self@.sent.flatten() + self@.pending);
            }
            None
        } else {
            proof {
                self@.sent.lemma_flatten_push(self@.pending);
            }
            Some(self.pending)
        }
    }
}

} // verus!
