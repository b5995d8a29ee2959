//! Reading a request off a connection, with a body sized by
//! `Content-Length` or sent in chunks. The reader is a state machine: the
//! program reads the connection when the reader asks for more bytes and
//! hands them in.
use vstd::prelude::*;
use vstd::utf8::{valid_utf8, decode_utf8};
use crate::bytes::{find_sub, find_subsequence, slice_bytes, push_bytes, occurs_at, lemma_find_sub_first, lemma_find_sub_props};
use crate::sys::{from_utf8, to_lowercase, unicode_lower};
use crate::text::{
    chars_of, string_of, text_lines, lines_of, views, find_text, find_in, has_prefix, starts_with,
    split, split_on, trim, trim_chars, parse_unsigned, parse_unsigned_chars, parse_hex,
    parse_hex_chars,
};

verus! {

/// A complete request: its bytes, and where its head ends.
#[derive(Debug)]
pub struct RequestData {
    pub data: Vec<u8>,
    headers_end: usize,
}

/// How the body of a request is delimited.
#[derive(Debug, Clone, Copy, PartialEq, Eq, Structural)]
pub enum ReaderType {
    Unknown,
    Standard { content_length: usize },
    Chunked,
}

/// Where the reading of a request stands.
#[derive(Debug)]
pub enum RequestState {
    /// The head is not complete yet.
    AwaitingHeaders,
    /// The head is complete and the body is being read.
    ProcessingBody { accumulated_data: Vec<u8>, headers_end: usize },
    /// The request is complete.
    Complete(RequestData),
    /// The connection was closed.
    EndOfStream,
}

/// A reading step in progress: where the reader waits for bytes.
#[derive(Debug)]
enum Phase {
    Idle,
    Headers,
    Standard { acc: Vec<u8>, headers_end: usize, content_length: usize },
    Chunked { acc: Vec<u8>, headers_end: usize },
}

/// What the reader needs next.
#[derive(Debug)]
pub enum ReadAction {
    /// Bytes from the connection.
    Read,
    /// Nothing: the step ends in this state.
    Done(RequestState),
    /// Nothing will ever come of the step: a complete chunk size line does
    /// not read as a size.
    Stalled,
    /// The request would be larger than `MAX_REQUEST_SIZE`: it is refused.
    TooLarge,
}

/// Reads one request after the other from a connection.
#[derive(Debug)]
pub struct UnifiedReader {
    buffer: Vec<u8>,
    state: RequestState,
    reader_type: ReaderType,
    temp_chunk_headers: Option<Vec<u8>>,
    current_chunk_size: Option<usize>,
    phase: Phase,
}

// ============= Plain values =============
/// A state as plain values.
pub enum StateSpec {
    AwaitingHeaders,
    ProcessingBody(Seq<u8>, nat),
    Complete(Seq<u8>, nat),
    EndOfStream,
}

/// A step in progress as plain values.
pub enum PhaseSpec {
    Idle,
    Headers,
    Standard(Seq<u8>, nat, nat),
    Chunked(Seq<u8>, nat),
}

/// An action as plain values.
pub enum ActionSpec {
    Read,
    Done(StateSpec),
    Stalled,
    TooLarge,
}

/// A reader as plain values.
pub struct ReaderSpec {
    pub buffer: Seq<u8>,
    pub state: StateSpec,
    pub reader_type: ReaderType,
    pub chunk: Option<usize>,
    pub chunk_headers: Option<Seq<u8>>,
    pub phase: PhaseSpec,
}

impl View for RequestData {
    type V = (Seq<u8>, nat);

    closed spec fn view(&self) -> (Seq<u8>, nat) {
        (self.data@, self.headers_end as nat)
    }
}

impl View for RequestState {
    type V = StateSpec;

    open spec fn view(&self) -> StateSpec {
        match self {
            RequestState::AwaitingHeaders => StateSpec::AwaitingHeaders,
            RequestState::ProcessingBody { accumulated_data, headers_end } => StateSpec::ProcessingBody(
                accumulated_data@,
                *headers_end as nat,
            ),
            RequestState::Complete(d) => StateSpec::Complete(d@.0, d@.1),
            RequestState::EndOfStream => StateSpec::EndOfStream,
        }
    }
}

impl View for Phase {
    type V = PhaseSpec;

    closed spec fn view(&self) -> PhaseSpec {
        match self {
            Phase::Idle => PhaseSpec::Idle,
            Phase::Headers => PhaseSpec::Headers,
            Phase::Standard { acc, headers_end, content_length } => PhaseSpec::Standard(
                acc@,
                *headers_end as nat,
                *content_length as nat,
            ),
            Phase::Chunked { acc, headers_end } => PhaseSpec::Chunked(acc@, *headers_end as nat),
        }
    }
}

impl View for ReadAction {
    type V = ActionSpec;

    open spec fn view(&self) -> ActionSpec {
        match self {
            ReadAction::Read => ActionSpec::Read,
            ReadAction::Done(s) => ActionSpec::Done(s@),
            ReadAction::Stalled => ActionSpec::Stalled,
            ReadAction::TooLarge => ActionSpec::TooLarge,
        }
    }
}

impl View for UnifiedReader {
    type V = ReaderSpec;

    closed spec fn view(&self) -> ReaderSpec {
        ReaderSpec {
            buffer: self.buffer@,
            state: self.state@,
            reader_type: self.reader_type,
            chunk: self.current_chunk_size,
            chunk_headers: match &self.temp_chunk_headers {
                Some(h) => Some(h@),
                None => None,
            },
            phase: self.phase@,
        }
    }
}

// ============= The head =============
/// The largest request read, head and body together: 10 MiB.
pub const MAX_REQUEST_SIZE: usize = 10485760;

/// The blank line that ends a head.
pub open spec fn head_end_mark() -> Seq<u8> {
    seq![13u8, 10u8, 13u8, 10u8]
}

/// A line end.
pub open spec fn crlf() -> Seq<u8> {
    seq![13u8, 10u8]
}

/// Where the head ends: just after the first blank line.
pub open spec fn spec_headers_end(data: Seq<u8>) -> Option<int> {
    match find_sub(data, head_end_mark()) {
        Some(p) => Some(p + 4),
        None => None,
    }
}

/// Where the first line ends: just after the first line end.
pub open spec fn spec_line_end(data: Seq<u8>) -> Option<int> {
    match find_sub(data, crlf()) {
        Some(p) => Some(p + 2),
        None => None,
    }
}

/// The size a chunk size line gives: the trimmed UTF-8 text read as a
/// hexadecimal number.
pub open spec fn spec_chunk_size(line: Seq<u8>) -> Option<usize> {
    if valid_utf8(line) {
        match parse_hex(trim(decode_utf8(line)), usize::MAX as nat) {
            Some(v) => Some(v as usize),
            None => None,
        }
    } else {
        None
    }
}

/// The position of the first line that, in lower case, starts with
/// `content-length:`.
pub open spec fn first_length_line(ls: Seq<Seq<char>>) -> Option<int>
    decreases ls.len(),
{
    if ls.len() == 0 {
        None
    } else if has_prefix(unicode_lower(ls[0]), "content-length:"@) {
        Some(0)
    } else {
        match first_length_line(ls.drop_first()) {
            Some(i) => Some(i + 1),
            None => None,
        }
    }
}

/// The length a `content-length` line gives: the trimmed text after its
/// first colon, as a number.
pub open spec fn length_of_line(l: Seq<char>) -> Option<nat> {
    let ps = split(l, ':');
    if ps.len() >= 2 {
        parse_unsigned(trim(ps[1]), usize::MAX as nat)
    } else {
        None
    }
}

/// How the body is delimited, from the head `data[..headers_end]`: chunked
/// when a line of the (UTF-8) head contains `transfer-encoding: chunked` in
/// lower case; else the length of the first `content-length:` line, when
/// it reads as a number; else no body.
pub open spec fn spec_reader_type(data: Seq<u8>, headers_end: int) -> ReaderType {
    let h = data.take(headers_end);
    if valid_utf8(h) {
        let ls = text_lines(decode_utf8(h));
        if exists|i: int|
            0 <= i < ls.len() && (find_text(unicode_lower(#[trigger] ls[i]), "transfer-encoding: chunked"@) is Some) {
            ReaderType::Chunked
        } else {
            match first_length_line(ls) {
                Some(i) => match length_of_line(ls[i]) {
                    Some(n) => ReaderType::Standard { content_length: n as usize },
                    None => ReaderType::Standard { content_length: 0 },
                },
                None => ReaderType::Standard { content_length: 0 },
            }
        }
    } else {
        ReaderType::Standard { content_length: 0 }
    }
}

/// Where the head of the data ends.
pub fn find_headers_end(data: &[u8]) -> (r: Option<usize>)
    ensures
        match spec_headers_end(data@) {
            Some(p) => r == Some(p as usize) && p <= data@.len(),
            None => r is None,
        },
        r matches Some(e) ==> e <= data@.len() && spec_headers_end(data@) == Some(e as int),
{
    let mark: [u8; 4] = [13u8, 10u8, 13u8, 10u8];
    assert(mark@ =~= head_end_mark());
    let n: usize = data.len();
    match find_subsequence(data, &mark) {
        Some(p) => {
            proof {
                crate::bytes::lemma_find_sub_props(data@, mark@);
            }
            assert(p + 4 <= n);
            Some(p + 4)
        },
        None => None,
    }
}

/// Where the first line of the data ends.
pub fn find_line_end(data: &[u8]) -> (r: Option<usize>)
    ensures
        match spec_line_end(data@) {
            Some(p) => r == Some(p as usize) && 2 <= p <= data@.len(),
            None => r is None,
        },
        r matches Some(e) ==> 2 <= e <= data@.len() && spec_line_end(data@) == Some(e as int),
{
    let mark: [u8; 2] = [13u8, 10u8];
    assert(mark@ =~= crlf());
    let n: usize = data.len();
    match find_subsequence(data, &mark) {
        Some(p) => {
            proof {
                crate::bytes::lemma_find_sub_props(data@, mark@);
            }
            assert(p + 2 <= n);
            Some(p + 2)
        },
        None => None,
    }
}

/// The size a chunk size line gives.
pub fn parse_chunk_size(line: &[u8]) -> (r: Option<usize>)
    ensures
        r == spec_chunk_size(line@),
{
    match from_utf8(line) {
        Some(s) => {
            let c = chars_of(s.as_str());
            let t = trim_chars(&c);
            parse_hex_chars(&t)
        },
        None => None,
    }
}

/// How the body of the request in `data` is delimited.
fn determine_reader_type(data: &[u8], headers_end: usize) -> (r: ReaderType)
    requires
        headers_end <= data@.len(),
    ensures
        r == spec_reader_type(data@, headers_end as int),
{
    let head = slice_bytes(data, 0, headers_end);
    assert(head@ =~= data@.take(headers_end as int));
    let text = match from_utf8(head.as_slice()) {
        Some(t) => t,
        None => {
            return ReaderType::Standard { content_length: 0 };
        },
    };
    let c = chars_of(text.as_str());
    let ls = lines_of(&c);
    if any_chunked_line(&ls) {
        return ReaderType::Chunked;
    }
    match length_from_lines(&ls) {
        Some(n) => ReaderType::Standard { content_length: n },
        None => ReaderType::Standard { content_length: 0 },
    }
}

/// Whether a line contains `transfer-encoding: chunked` in lower case.
fn any_chunked_line(ls: &Vec<Vec<char>>) -> (r: bool)
    ensures
        r == exists|i: int|
            0 <= i < views(ls@).len() && (find_text(
                unicode_lower(#[trigger] views(ls@)[i]),
                "transfer-encoding: chunked"@,
            ) is Some),
{
    let pat = chars_of("transfer-encoding: chunked");
    let mut i: usize = 0;
    while i < ls.len()
        invariant
            i <= ls@.len(),
            pat@ == "transfer-encoding: chunked"@,
            forall|j: int|
                0 <= j < i ==> find_text(unicode_lower(#[trigger] views(ls@)[j]), pat@) is None,
        decreases ls@.len() - i,
    {
        let lower = chars_of(to_lowercase(string_of(&ls[i]).as_str()).as_str());
        assert(views(ls@)[i as int] == ls@[i as int]@);
        if find_in(&lower, &pat).is_some() {
            return true;
        }
        i = i + 1;
    }
    false
}

/// The length the first `content-length:` line gives, if any.
fn length_from_lines(ls: &Vec<Vec<char>>) -> (r: Option<usize>)
    ensures
        r == match first_length_line(views(ls@)) {
            Some(i) => match length_of_line(views(ls@)[i]) {
                Some(n) => Some(n as usize),
                None => None,
            },
            None => None,
        },
{
    let prefix = chars_of("content-length:");
    let mut k: usize = 0;
    while k < ls.len()
        invariant
            k <= ls@.len(),
            prefix@ == "content-length:"@,
            forall|j: int|
                0 <= j < k ==> !has_prefix(unicode_lower(#[trigger] views(ls@)[j]), prefix@),
        decreases ls@.len() - k,
    {
        let lower = chars_of(to_lowercase(string_of(&ls[k]).as_str()).as_str());
        assert(views(ls@)[k as int] == ls@[k as int]@);
        if starts_with(&lower, &prefix) {
            proof {
                lemma_first_length_line(views(ls@), k as int);
            }
            let parts = split_on(&ls[k], ':');
            if parts.len() >= 2 {
                let t = trim_chars(&parts[1]);
                assert(views(parts@)[1] == parts@[1]@);
                return match parse_unsigned_chars(&t, usize::MAX as u64) {
                    Some(n) => Some(n as usize),
                    None => None,
                };
            }
            return None;
        }
        k = k + 1;
    }
    proof {
        lemma_no_length_line(views(ls@));
    }
    None
}

proof fn lemma_first_length_line(ls: Seq<Seq<char>>, k: int)
    requires
        0 <= k < ls.len(),
        has_prefix(unicode_lower(ls[k]), "content-length:"@),
        forall|j: int| 0 <= j < k ==> !has_prefix(unicode_lower(#[trigger] ls[j]), "content-length:"@),
    ensures
        first_length_line(ls) == Some(k),
    decreases k,
{
    if k > 0 {
        let t = ls.drop_first();
        assert forall|j: int| 0 <= j < k - 1 implies !has_prefix(unicode_lower(#[trigger] t[j]), "content-length:"@) by {
            assert(t[j] == ls[j + 1]);
        }
        lemma_first_length_line(t, k - 1);
    }
}

proof fn lemma_no_length_line(ls: Seq<Seq<char>>)
    requires
        forall|j: int| 0 <= j < ls.len() ==> !has_prefix(unicode_lower(#[trigger] ls[j]), "content-length:"@),
    ensures
        first_length_line(ls) is None,
    decreases ls.len(),
{
    if ls.len() > 0 {
        let t = ls.drop_first();
        assert forall|j: int| 0 <= j < t.len() implies !has_prefix(unicode_lower(#[trigger] t[j]), "content-length:"@) by {
            assert(t[j] == ls[j + 1]);
        }
        lemma_no_length_line(t);
    }
}

// ============= The request =============
impl RequestData {
    /// A request of bytes `data` whose head ends at `headers_end`.
    pub fn new(data: Vec<u8>, headers_end: usize) -> (r: Self)
        requires
            headers_end <= data@.len(),
        ensures
            r@ == (data@, headers_end as nat),
    {
        RequestData { data, headers_end }
    }

    /// All the bytes of the request.
    pub fn get_data(&self) -> (r: &[u8])
        ensures
            r@ == self@.0,
    {
        self.data.as_slice()
    }

    /// The head ends within the data.
    pub open spec fn wf(&self) -> bool {
        self@.1 <= self@.0.len()
    }

    /// The head followed by the body is the whole request, split where the
    /// head ends.
    pub proof fn law_head_then_body(&self)
        requires
            self.wf(),
        ensures
            self@.0.take(self@.1 as int) + self@.0.skip(self@.1 as int) == self@.0,
            self@.0.take(self@.1 as int).len() == self@.1,
    {
        assert(self@.0.take(self@.1 as int) + self@.0.skip(self@.1 as int) =~= self@.0);
    }

    /// The bytes of the head.
    pub fn get_headers(&self) -> (r: &[u8])
        requires
            self.wf(),
        ensures
            r@ == self@.0.take(self@.1 as int),
    {
        vstd::slice::slice_subrange(self.data.as_slice(), 0, self.headers_end)
    }

    /// The bytes of the body.
    pub fn get_body(&self) -> (r: &[u8])
        requires
            self.wf(),
        ensures
            r@ == self@.0.skip(self@.1 as int),
    {
        vstd::slice::slice_subrange(self.data.as_slice(), self.headers_end, self.data.len())
    }

    fn copy(&self) -> (r: Self)
        ensures
            r@ == self@,
            r.wf() == self.wf(),
    {
        let d = slice_bytes(self.data.as_slice(), 0, self.data.len());
        assert(d@ =~= self.data@);
        RequestData { data: d, headers_end: self.headers_end }
    }
}

impl RequestState {
    fn copy(&self) -> (r: Self)
        ensures
            r@ == self@,
    {
        match self {
            RequestState::AwaitingHeaders => RequestState::AwaitingHeaders,
            RequestState::ProcessingBody { accumulated_data, headers_end } => {
                let a = slice_bytes(accumulated_data.as_slice(), 0, accumulated_data.len());
                assert(a@ =~= accumulated_data@);
                RequestState::ProcessingBody { accumulated_data: a, headers_end: *headers_end }
            },
            RequestState::Complete(d) => RequestState::Complete(d.copy()),
            RequestState::EndOfStream => RequestState::EndOfStream,
        }
    }
}

// ============= The reading steps =============
/// The reader with its step in progress ended.
pub open spec fn idle(r: ReaderSpec) -> ReaderSpec {
    ReaderSpec { phase: PhaseSpec::Idle, ..r }
}

/// The chunked body, decoded: while no chunk size is pending, the first
/// line of the buffer gives one (a zero size completes the request with
/// the head and the chunks so far); a pending chunk that the buffer holds,
/// with its line end, is added to the data; otherwise more bytes are
/// needed. A chunk that would make the request larger than
/// `MAX_REQUEST_SIZE`, or a buffer beyond it without a line end, refuses
/// the request; a complete size line that does not read as a size leaves
/// the reader stalled.
#[verifier::opaque]
pub open spec fn chunk_loop(r: ReaderSpec, acc: Seq<u8>, he: nat) -> (ReaderSpec, ActionSpec)
    decreases r.buffer.len(),
{
    let le = spec_line_end(r.buffer);
    proof {
        crate::bytes::lemma_find_sub_props(r.buffer, crlf());
    }
    let size = match le {
        Some(e) => spec_chunk_size(r.buffer.take(e - 2)),
        None => None,
    };
    if r.chunk is None && size == Some(0usize) {
        let st = StateSpec::Complete(acc, he);
        (ReaderSpec { state: st, phase: PhaseSpec::Idle, ..r }, ActionSpec::Done(st))
    } else {
        let (buf1, cur1) = if r.chunk is None {
            match size {
                Some(sz) => (r.buffer.skip(le->0), Some(sz)),
                None => (r.buffer, None),
            }
        } else {
            (r.buffer, r.chunk)
        };
        match cur1 {
            Some(cs) => if acc.len() + cs > MAX_REQUEST_SIZE {
                (ReaderSpec { buffer: buf1, chunk: cur1, phase: PhaseSpec::Idle, ..r }, ActionSpec::TooLarge)
            } else if buf1.len() >= cs + 2 {
                chunk_loop(
                    ReaderSpec { buffer: buf1.skip(cs + 2), chunk: None, ..r },
                    acc + buf1.take(cs as int),
                    he,
                )
            } else {
                (
                    ReaderSpec { buffer: buf1, chunk: cur1, phase: PhaseSpec::Chunked(acc, he), ..r },
                    ActionSpec::Read,
                )
            },
            None => if le is Some {
                (ReaderSpec { buffer: buf1, chunk: None, phase: PhaseSpec::Idle, ..r }, ActionSpec::Stalled)
            } else if buf1.len() > MAX_REQUEST_SIZE {
                (ReaderSpec { buffer: buf1, chunk: None, phase: PhaseSpec::Idle, ..r }, ActionSpec::TooLarge)
            } else {
                (ReaderSpec { buffer: buf1, chunk: None, phase: PhaseSpec::Chunked(acc, he), ..r }, ActionSpec::Read)
            },
        }
    }
}

/// A body of known length: refused when the head and the body would be
/// larger than `MAX_REQUEST_SIZE`; complete once the data holds the head
/// and the body (the bytes beyond stay in the buffer), else more bytes are
/// needed.
pub open spec fn standard_check(r: ReaderSpec, acc: Seq<u8>, he: nat, cl: nat) -> (ReaderSpec, ActionSpec) {
    if he + cl > MAX_REQUEST_SIZE {
        (idle(r), ActionSpec::TooLarge)
    } else if acc.len() >= he + cl {
        let st = StateSpec::Complete(acc.take((he + cl) as int), he);
        (ReaderSpec { buffer: acc.skip((he + cl) as int), state: st, phase: PhaseSpec::Idle, ..r }, ActionSpec::Done(st))
    } else {
        (ReaderSpec { phase: PhaseSpec::Standard(acc, he, cl), ..r }, ActionSpec::Read)
    }
}

/// Reading the body, by the way it is delimited.
pub open spec fn body_step(r: ReaderSpec, acc: Seq<u8>, he: nat) -> (ReaderSpec, ActionSpec) {
    match r.reader_type {
        ReaderType::Unknown => (idle(r), ActionSpec::Done(StateSpec::EndOfStream)),
        ReaderType::Standard { content_length } => standard_check(r, acc, he, content_length as nat),
        ReaderType::Chunked => chunk_loop(r, acc.take(he as int), he),
    }
}

/// A reading step begins: by the state, the reader asks for bytes of the
/// head, reads the body, or reports where it stands.
pub open spec fn spec_start(r: ReaderSpec) -> (ReaderSpec, ActionSpec) {
    match r.state {
        StateSpec::AwaitingHeaders => (ReaderSpec { phase: PhaseSpec::Headers, ..r }, ActionSpec::Read),
        StateSpec::ProcessingBody(acc, he) => body_step(r, acc, he),
        StateSpec::Complete(d, he) => (idle(r), ActionSpec::Done(StateSpec::Complete(d, he))),
        StateSpec::EndOfStream => (idle(r), ActionSpec::Done(StateSpec::EndOfStream)),
    }
}

/// Bytes of the head arrive: once the buffer holds a complete head, the
/// way the body is delimited is read from it, the head and the bytes so
/// far become the data of the body, the bytes after the head stay in the
/// buffer, and the body is read. A head larger than `MAX_REQUEST_SIZE`
/// (complete or not) refuses the request.
pub open spec fn feed_headers(r: ReaderSpec, bytes: Seq<u8>) -> (ReaderSpec, ActionSpec) {
    if bytes.len() == 0 {
        (r, ActionSpec::Done(StateSpec::EndOfStream))
    } else {
        let buf = r.buffer + bytes;
        match spec_headers_end(buf) {
            Some(he) => if he > MAX_REQUEST_SIZE {
                (ReaderSpec { buffer: buf, ..r }, ActionSpec::TooLarge)
            } else {
                let r2 = ReaderSpec {
                    buffer: buf.skip(he),
                    state: StateSpec::ProcessingBody(buf, he as nat),
                    reader_type: spec_reader_type(buf, he),
                    ..r
                };
                body_step(r2, buf, he as nat)
            },
            None => if buf.len() > MAX_REQUEST_SIZE {
                (ReaderSpec { buffer: buf, ..r }, ActionSpec::TooLarge)
            } else {
                (ReaderSpec { buffer: buf, ..r }, ActionSpec::Done(StateSpec::AwaitingHeaders))
            },
        }
    }
}

/// Bytes arrive for the step in progress (none: the connection was
/// closed, and the step ends with `EndOfStream`). With no step in
/// progress, a step begins.
pub open spec fn spec_feed(r: ReaderSpec, bytes: Seq<u8>) -> (ReaderSpec, ActionSpec) {
    match r.phase {
        PhaseSpec::Idle => spec_start(r),
        PhaseSpec::Headers => feed_headers(idle(r), bytes),
        PhaseSpec::Standard(acc, he, cl) => if bytes.len() == 0 {
            (idle(r), ActionSpec::Done(StateSpec::EndOfStream))
        } else {
            standard_check(idle(r), acc + bytes, he, cl)
        },
        PhaseSpec::Chunked(acc, he) => if bytes.len() == 0 {
            (idle(r), ActionSpec::Done(StateSpec::EndOfStream))
        } else {
            chunk_loop(ReaderSpec { buffer: r.buffer + bytes, ..idle(r) }, acc, he)
        },
    }
}

/// Whether an action that completes a request keeps it within
/// `MAX_REQUEST_SIZE`.
pub open spec fn within_limit(a: ActionSpec) -> bool {
    a matches ActionSpec::Done(StateSpec::Complete(d, _)) ==> d.len() <= MAX_REQUEST_SIZE
}

/// The reader of a fresh connection or request.
pub open spec fn fresh(r: ReaderSpec) -> bool {
    &&& r.buffer.len() == 0
    &&& r.state is AwaitingHeaders
    &&& r.reader_type == ReaderType::Unknown
    &&& r.chunk is None
    &&& r.chunk_headers is None
    &&& r.phase is Idle
}

/// A request whose head and whole body (as long as its `content-length`
/// says) come in one read is read complete by a fresh reader: the step
/// asks for bytes, and on those bytes ends with the request, all of them.
pub proof fn law_one_read_request(r: ReaderSpec, b: Seq<u8>, he: int, n: usize)
    requires
        fresh(r),
        spec_headers_end(b) == Some(he),
        spec_reader_type(b, he) == (ReaderType::Standard { content_length: n }),
        b.len() == he + n,
        b.len() <= MAX_REQUEST_SIZE,
    ensures
        spec_start(r).1 == ActionSpec::Read,
        spec_feed(spec_start(r).0, b).1 == ActionSpec::Done(StateSpec::Complete(b, he as nat)),
{
    crate::bytes::lemma_find_sub_props(b, head_end_mark());
    assert(b.len() > 0);
    assert(r.buffer + b =~= b);
    assert(b.take(he + n) =~= b);
}

/// The line end that follows a line without a carriage return.
proof fn lemma_line_end_after(line: Seq<u8>, rest: Seq<u8>)
    requires
        forall|j: int| 0 <= j < line.len() ==> line[j] != 13u8,
    ensures
        spec_line_end(line + crlf() + rest) == Some(line.len() + 2int),
{
    let h = line + crlf() + rest;
    assert(h.subrange(line.len() as int, line.len() + 2int) =~= crlf());
    assert forall|j: int| 0 <= j < line.len() implies !occurs_at(h, crlf(), j) by {
        assert(h[j] == line[j]);
        if occurs_at(h, crlf(), j) {
            assert(h.subrange(j, j + 2)[0] == h[j]);
        }
    }
    lemma_find_sub_first(h, crlf(), line.len() as int);
}

/// A chunked message: a head, a chunk (its size line, its data), the
/// last chunk's size line, and whatever follows.
pub open spec fn chunked_message(head: Seq<u8>, size: Seq<u8>, data: Seq<u8>, last: Seq<u8>, rest: Seq<u8>) -> Seq<u8> {
    head + size + crlf() + data + crlf() + last + crlf() + rest
}

/// The chunk loop over a buffer holding one chunk of data, then the last
/// chunk: it completes with the data of the chunk added.
proof fn lemma_chunk_loop_one_chunk(
    r: ReaderSpec,
    acc: Seq<u8>,
    he: nat,
    size: Seq<u8>,
    data: Seq<u8>,
    last: Seq<u8>,
    rest: Seq<u8>,
)
    requires
        r.chunk is None,
        r.buffer == size + crlf() + data + crlf() + last + crlf() + rest,
        acc.len() + data.len() <= MAX_REQUEST_SIZE,
        forall|j: int| 0 <= j < size.len() ==> size[j] != 13u8,
        forall|j: int| 0 <= j < last.len() ==> last[j] != 13u8,
        spec_chunk_size(size) == Some(data.len() as usize),
        data.len() > 0,
        spec_chunk_size(last) == Some(0usize),
    ensures
        chunk_loop(r, acc, he).1 == ActionSpec::Done(StateSpec::Complete(acc + data, he)),
{
    let k = data.len();
    let after_size = data + crlf() + last + crlf() + rest;
    assert(r.buffer =~= size + crlf() + after_size);
    lemma_line_end_after(size, after_size);
    assert(r.buffer.take(size.len() as int) =~= size);
    let buf1 = r.buffer.skip(size.len() + 2int);
    assert(buf1 =~= after_size);
    assert(buf1.take(k as int) =~= data);
    let buf2 = buf1.skip(k + 2int);
    assert(buf2 =~= last + crlf() + rest);
    let r2 = ReaderSpec { buffer: buf2, chunk: None, ..r };
    assert(chunk_loop(r, acc, he) == chunk_loop(r2, acc + data, he)) by {
        reveal(chunk_loop);
    }
    lemma_line_end_after(last, rest);
    assert(buf2.take(last.len() as int) =~= last);
    assert(chunk_loop(r2, acc + data, he).1 == ActionSpec::Done(StateSpec::Complete(acc + data, he))) by {
        reveal(chunk_loop);
    }
}

/// A chunked request with one chunk of data, then the last chunk (of size
/// 0), that comes in one read (no larger than `MAX_REQUEST_SIZE`) is read
/// complete by a fresh reader: the step asks for bytes, and on those bytes
/// ends with the request, whose data is the head followed by the data of
/// the chunk, without the chunk framing.
#[verifier::spinoff_prover]
#[verifier::rlimit(40)]
pub proof fn law_one_read_chunked_request(
    r: ReaderSpec,
    head: Seq<u8>,
    size: Seq<u8>,
    data: Seq<u8>,
    last: Seq<u8>,
    rest: Seq<u8>,
)
    requires
        fresh(r),
        spec_headers_end(chunked_message(head, size, data, last, rest)) == Some(head.len() as int),
        spec_reader_type(chunked_message(head, size, data, last, rest), head.len() as int) == ReaderType::Chunked,
        forall|j: int| 0 <= j < size.len() ==> size[j] != 13u8,
        forall|j: int| 0 <= j < last.len() ==> last[j] != 13u8,
        spec_chunk_size(size) == Some(data.len() as usize),
        data.len() > 0,
        spec_chunk_size(last) == Some(0usize),
        chunked_message(head, size, data, last, rest).len() <= MAX_REQUEST_SIZE,
    ensures
        spec_start(r).1 == ActionSpec::Read,
        spec_feed(spec_start(r).0, chunked_message(head, size, data, last, rest)).1 == ActionSpec::Done(
            StateSpec::Complete(head + data, head.len() as nat),
        ),
{
    let b = chunked_message(head, size, data, last, rest);
    let he = head.len() as int;
    let r1 = spec_start(r).0;
    assert(r1 == ReaderSpec { phase: PhaseSpec::Headers, ..r });
    assert(b.len() > 0);
    assert(idle(r1).buffer + b =~= b);
    let r2 = ReaderSpec {
        buffer: b.skip(he),
        state: StateSpec::ProcessingBody(b, he as nat),
        reader_type: ReaderType::Chunked,
        ..idle(r1)
    };
    assert(b.take(he) =~= head);
    assert(spec_feed(r1, b) == chunk_loop(r2, head, he as nat));
    assert(b.skip(he) =~= size + crlf() + data + crlf() + last + crlf() + rest);
    lemma_chunk_loop_one_chunk(r2, head, he as nat, size, data, last, rest);
}

/// Chunks as they are sent: for each, its size line, a line end, its data
/// and a line end.
pub open spec fn chunk_stream(cs: Seq<(Seq<u8>, Seq<u8>)>) -> Seq<u8>
    decreases cs.len(),
{
    if cs.len() == 0 {
        Seq::empty()
    } else {
        cs[0].0 + crlf() + cs[0].1 + crlf() + chunk_stream(cs.drop_first())
    }
}

/// The data of the chunks, one after the other.
pub open spec fn chunk_data(cs: Seq<(Seq<u8>, Seq<u8>)>) -> Seq<u8>
    decreases cs.len(),
{
    if cs.len() == 0 {
        Seq::empty()
    } else {
        cs[0].1 + chunk_data(cs.drop_first())
    }
}

/// A chunk with data: a size line without carriage return that gives
/// the (non-zero) length of its data.
pub open spec fn good_chunk(c: (Seq<u8>, Seq<u8>)) -> bool {
    &&& forall|j: int| 0 <= j < c.0.len() ==> c.0[j] != 13u8
    &&& spec_chunk_size(c.0) == Some(c.1.len() as usize)
    &&& c.1.len() > 0
}

/// The size line of the last chunk: without carriage return, of size 0.
pub open spec fn last_chunk_line(l: Seq<u8>) -> bool {
    &&& forall|j: int| 0 <= j < l.len() ==> l[j] != 13u8
    &&& spec_chunk_size(l) == Some(0usize)
}

/// The chunk loop reads one chunk with data and goes on after it.
proof fn lemma_chunk_step(r: ReaderSpec, acc: Seq<u8>, he: nat, c: (Seq<u8>, Seq<u8>), x: Seq<u8>)
    requires
        r.chunk is None,
        r.buffer == c.0 + crlf() + c.1 + crlf() + x,
        good_chunk(c),
        acc.len() + c.1.len() <= MAX_REQUEST_SIZE,
    ensures
        chunk_loop(r, acc, he) == chunk_loop(ReaderSpec { buffer: x, chunk: None, ..r }, acc + c.1, he),
{
    let (size, data) = c;
    let after = data + crlf() + x;
    assert(r.buffer =~= size + crlf() + after);
    lemma_line_end_after(size, after);
    assert(r.buffer.take(size.len() as int) =~= size);
    let buf1 = r.buffer.skip(size.len() + 2int);
    assert(buf1 =~= after);
    assert(buf1.take(data.len() as int) =~= data);
    assert(buf1.skip(data.len() + 2int) =~= x);
    reveal(chunk_loop);
}

/// The chunk loop meets the last chunk: the request is complete with the
/// data so far.
proof fn lemma_chunk_last(r: ReaderSpec, acc: Seq<u8>, he: nat, last: Seq<u8>, rest: Seq<u8>)
    requires
        r.chunk is None,
        r.buffer == last + crlf() + rest,
        last_chunk_line(last),
    ensures
        chunk_loop(r, acc, he).1 == ActionSpec::Done(StateSpec::Complete(acc, he)),
{
    lemma_line_end_after(last, rest);
    assert(r.buffer.take(last.len() as int) =~= last);
    reveal(chunk_loop);
}

/// A buffer that holds any number of chunks with data, then the last
/// chunk, completes the request with the data of every chunk added, in
/// order.
pub proof fn law_chunk_loop_all_chunks(
    r: ReaderSpec,
    acc: Seq<u8>,
    he: nat,
    cs: Seq<(Seq<u8>, Seq<u8>)>,
    last: Seq<u8>,
    rest: Seq<u8>,
)
    requires
        r.chunk is None,
        r.buffer == chunk_stream(cs) + last + crlf() + rest,
        forall|k: int| 0 <= k < cs.len() ==> good_chunk(#[trigger] cs[k]),
        last_chunk_line(last),
        acc.len() + chunk_data(cs).len() <= MAX_REQUEST_SIZE,
    ensures
        chunk_loop(r, acc, he).1 == ActionSpec::Done(StateSpec::Complete(acc + chunk_data(cs), he)),
    decreases cs.len(),
{
    if cs.len() == 0 {
        assert(r.buffer =~= last + crlf() + rest);
        assert(acc + chunk_data(cs) =~= acc);
        lemma_chunk_last(r, acc, he, last, rest);
    } else {
        let c = cs[0];
        let t = cs.drop_first();
        let x = chunk_stream(t) + last + crlf() + rest;
        assert(r.buffer =~= c.0 + crlf() + c.1 + crlf() + x);
        assert(good_chunk(cs[0]));
        lemma_chunk_step(r, acc, he, c, x);
        assert forall|k: int| 0 <= k < t.len() implies good_chunk(#[trigger] t[k]) by {
            assert(t[k] == cs[k + 1]);
        }
        law_chunk_loop_all_chunks(ReaderSpec { buffer: x, chunk: None, ..r }, acc + c.1, he, t, last, rest);
        assert(acc + c.1 + chunk_data(t) =~= acc + chunk_data(cs));
    }
}

/// A pending chunk that the buffer holds, followed by any number of
/// chunks and the last chunk, completes the request with the pending data
/// and the data of every following chunk.
pub proof fn law_chunk_loop_pending(
    r: ReaderSpec,
    acc: Seq<u8>,
    he: nat,
    d: Seq<u8>,
    cs: Seq<(Seq<u8>, Seq<u8>)>,
    last: Seq<u8>,
    rest: Seq<u8>,
)
    requires
        r.chunk == Some(d.len() as usize),
        r.buffer == d + crlf() + chunk_stream(cs) + last + crlf() + rest,
        forall|k: int| 0 <= k < cs.len() ==> good_chunk(#[trigger] cs[k]),
        last_chunk_line(last),
        acc.len() + d.len() + chunk_data(cs).len() <= MAX_REQUEST_SIZE,
    ensures
        chunk_loop(r, acc, he).1 == ActionSpec::Done(StateSpec::Complete(acc + d + chunk_data(cs), he)),
{
    let x = chunk_stream(cs) + last + crlf() + rest;
    assert(r.buffer =~= d + crlf() + x);
    assert(r.buffer.take(d.len() as int) =~= d);
    assert(r.buffer.skip(d.len() + 2int) =~= x);
    assert(chunk_loop(r, acc, he) == chunk_loop(ReaderSpec { buffer: x, chunk: None, ..r }, acc + d, he)) by {
        reveal(chunk_loop);
    }
    law_chunk_loop_all_chunks(ReaderSpec { buffer: x, chunk: None, ..r }, acc + d, he, cs, last, rest);
    assert(acc + d + chunk_data(cs) =~= (acc + d) + chunk_data(cs));
}

/// More bytes after a buffer leave its first line where it was.
proof fn lemma_line_end_extend(b: Seq<u8>, y: Seq<u8>)
    requires
        spec_line_end(b) is Some,
    ensures
        spec_line_end(b + y) == spec_line_end(b),
        2 <= spec_line_end(b)->0 <= b.len(),
        (b + y).take(spec_line_end(b)->0 - 2) == b.take(spec_line_end(b)->0 - 2),
        (b + y).skip(spec_line_end(b)->0) == b.skip(spec_line_end(b)->0) + y,
{
    lemma_find_sub_props(b, crlf());
    let p = find_sub(b, crlf())->0;
    let h = b + y;
    assert(h.subrange(p, p + 2) =~= b.subrange(p, p + 2));
    assert forall|j: int| 0 <= j < p implies !occurs_at(h, crlf(), j) by {
        if occurs_at(h, crlf(), j) {
            assert(h.subrange(j, j + 2) =~= b.subrange(j, j + 2));
            assert(occurs_at(b, crlf(), j));
        }
    }
    lemma_find_sub_first(h, crlf(), p);
    assert(h.take(p) =~= b.take(p));
    assert(h.skip(p + 2) =~= b.skip(p + 2) + y);
}

/// What the chunk loop answers depends only on the buffer, the pending
/// chunk and the data so far.
proof fn lemma_chunk_action_by_buffer(r1: ReaderSpec, r2: ReaderSpec, acc: Seq<u8>, he: nat)
    requires
        r1.buffer == r2.buffer,
        r1.chunk == r2.chunk,
    ensures
        chunk_loop(r1, acc, he).1 == chunk_loop(r2, acc, he).1,
    decreases r1.buffer.len(),
{
    reveal(chunk_loop);
    lemma_find_sub_props(r1.buffer, crlf());
    let le = spec_line_end(r1.buffer);
    let size = match le {
        Some(e) => spec_chunk_size(r1.buffer.take(e - 2)),
        None => None,
    };
    if !(r1.chunk is None && size == Some(0usize)) {
        let (buf1, cur1) = if r1.chunk is None {
            match size {
                Some(sz) => (r1.buffer.skip(le->0), Some(sz)),
                None => (r1.buffer, None),
            }
        } else {
            (r1.buffer, r1.chunk)
        };
        if let Some(cs) = cur1 {
            if acc.len() + cs <= MAX_REQUEST_SIZE && buf1.len() >= cs + 2 {
                lemma_chunk_action_by_buffer(
                    ReaderSpec { buffer: buf1.skip(cs + 2), chunk: None, ..r1 },
                    ReaderSpec { buffer: buf1.skip(cs + 2), chunk: None, ..r2 },
                    acc + buf1.take(cs as int),
                    he,
                );
            }
        }
    }
}

/// A complete size line with a size other than 0 answers as the chunk it
/// announces, pending, would.
proof fn lemma_chunk_pending_equiv(r: ReaderSpec, acc: Seq<u8>, he: nat, cs: usize)
    requires
        r.chunk is None,
        spec_line_end(r.buffer) is Some,
        spec_chunk_size(r.buffer.take(spec_line_end(r.buffer)->0 - 2)) == Some(cs),
        cs != 0,
    ensures
        chunk_loop(r, acc, he).1 == chunk_loop(
            ReaderSpec { buffer: r.buffer.skip(spec_line_end(r.buffer)->0), chunk: Some(cs), ..r },
            acc,
            he,
        ).1,
{
    reveal(chunk_loop);
    lemma_find_sub_props(r.buffer, crlf());
    let buf1 = r.buffer.skip(spec_line_end(r.buffer)->0);
    let q = ReaderSpec { buffer: buf1, chunk: Some(cs), ..r };
    if acc.len() + cs <= MAX_REQUEST_SIZE && buf1.len() >= cs + 2 {
        lemma_chunk_action_by_buffer(
            ReaderSpec { buffer: buf1.skip(cs + 2), chunk: None, ..r },
            ReaderSpec { buffer: buf1.skip(cs + 2), chunk: None, ..q },
            acc + buf1.take(cs as int),
            he,
        );
    }
}

/// Reading a chunked body in two reads answers as reading it at once:
/// when the chunk loop asks for more bytes, what it answers once they come
/// is what it would have answered had they been in the buffer from the
/// start. So a body cut into reads at any places is read as a whole.
pub proof fn law_chunk_loop_incremental(r: ReaderSpec, acc: Seq<u8>, he: nat, y: Seq<u8>)
    requires
        chunk_loop(r, acc, he).1 == ActionSpec::Read,
    ensures
        chunk_loop(r, acc, he).0.phase matches PhaseSpec::Chunked(a2, h2) && h2 == he
            && chunk_loop(ReaderSpec { buffer: chunk_loop(r, acc, he).0.buffer + y, ..chunk_loop(r, acc, he).0 }, a2, he).1
            == chunk_loop(ReaderSpec { buffer: r.buffer + y, ..r }, acc, he).1,
    decreases r.buffer.len(),
{
    reveal(chunk_loop);
    lemma_find_sub_props(r.buffer, crlf());
    let b = r.buffer;
    let ry = ReaderSpec { buffer: b + y, ..r };
    let le = spec_line_end(b);
    let size = match le {
        Some(e) => spec_chunk_size(b.take(e - 2)),
        None => None,
    };
    if r.chunk is None && le is None {
        // no size line yet: the reader keeps its buffer
        let r1 = chunk_loop(r, acc, he).0;
        assert(r1.buffer == b && r1.chunk is None);
        lemma_chunk_action_by_buffer(ReaderSpec { buffer: b + y, ..r1 }, ry, acc, he);
    } else {
        if r.chunk is None {
            lemma_line_end_extend(b, y);
        }
        let (buf1, cur1) = if r.chunk is None {
            match size {
                Some(sz) => (b.skip(le->0), Some(sz)),
                None => (b, None),
            }
        } else {
            (b, r.chunk)
        };
        let cs = cur1->0;
        if buf1.len() >= cs + 2 {
            let r2 = ReaderSpec { buffer: buf1.skip(cs + 2), chunk: None, ..r };
            law_chunk_loop_incremental(r2, acc + buf1.take(cs as int), he, y);
            assert((buf1 + y).take(cs as int) =~= buf1.take(cs as int));
            assert((buf1 + y).skip(cs + 2) =~= buf1.skip(cs + 2) + y);
            if r.chunk is None {
                assert(ry.buffer.skip(le->0) == buf1 + y);
            }
            lemma_chunk_action_by_buffer(
                ReaderSpec { buffer: r2.buffer + y, ..r2 },
                ReaderSpec { buffer: buf1.skip(cs + 2) + y, chunk: None, ..ry },
                acc + buf1.take(cs as int),
                he,
            );
        } else {
            let r1 = chunk_loop(r, acc, he).0;
            assert(r1.buffer == buf1 && r1.chunk == Some(cs));
            if r.chunk is None {
                lemma_chunk_pending_equiv(ry, acc, he, cs);
                assert(ry.buffer.skip(le->0) == buf1 + y);
                lemma_chunk_action_by_buffer(
                    ReaderSpec { buffer: buf1 + y, ..r1 },
                    ReaderSpec { buffer: buf1 + y, chunk: Some(cs), ..ry },
                    acc,
                    he,
                );
            } else {
                lemma_chunk_action_by_buffer(ReaderSpec { buffer: buf1 + y, ..r1 }, ry, acc, he);
            }
        }
    }
}

/// A chunked request that comes in two reads, the first holding the head
/// and any beginning of the body (cut anywhere: in a size line, in a
/// chunk's data, between chunks) and the second the rest, is read
/// complete by a fresh reader: after the first read it asks for more
/// bytes, and on the second it ends with the request whose data is the
/// head followed by the data of every chunk, in order.
#[verifier::spinoff_prover]
#[verifier::rlimit(40)]
pub proof fn law_two_read_chunked_request(
    r: ReaderSpec,
    head: Seq<u8>,
    cs: Seq<(Seq<u8>, Seq<u8>)>,
    last: Seq<u8>,
    rest: Seq<u8>,
    x: Seq<u8>,
    y: Seq<u8>,
)
    requires
        fresh(r),
        x + y == chunk_stream(cs) + last + crlf() + rest,
        y.len() > 0,
        spec_headers_end(head + x) == Some(head.len() as int),
        spec_reader_type(head + x, head.len() as int) == ReaderType::Chunked,
        forall|k: int| 0 <= k < cs.len() ==> good_chunk(#[trigger] cs[k]),
        last_chunk_line(last),
        head.len() + chunk_data(cs).len() <= MAX_REQUEST_SIZE,
        spec_feed(spec_start(r).0, head + x).1 == ActionSpec::Read,
    ensures
        spec_feed(spec_feed(spec_start(r).0, head + x).0, y).1 == ActionSpec::Done(
            StateSpec::Complete(head + chunk_data(cs), head.len() as nat),
        ),
{
    let b = head + x;
    let he = head.len() as int;
    let r1 = spec_start(r).0;
    assert(r1 == ReaderSpec { phase: PhaseSpec::Headers, ..r });
    assert(idle(r1).buffer + b =~= b);
    assert(b.len() > 0) by {
        crate::bytes::lemma_find_sub_props(b, head_end_mark());
    }
    let r2 = ReaderSpec {
        buffer: b.skip(he),
        state: StateSpec::ProcessingBody(b, he as nat),
        reader_type: ReaderType::Chunked,
        ..idle(r1)
    };
    assert(b.take(he) =~= head);
    assert(b.skip(he) =~= x);
    assert(spec_feed(r1, b) == chunk_loop(r2, head, he as nat));
    law_chunk_loop_incremental(r2, head, he as nat, y);
    let r3 = chunk_loop(r2, head, he as nat).0;
    let a2 = r3.phase->Chunked_0;
    lemma_chunk_action_by_buffer(
        ReaderSpec { buffer: r3.buffer + y, ..idle(r3) },
        ReaderSpec { buffer: r3.buffer + y, ..r3 },
        a2,
        he as nat,
    );
    assert(spec_feed(r3, y) == chunk_loop(ReaderSpec { buffer: r3.buffer + y, ..idle(r3) }, a2, he as nat));
    law_chunk_loop_all_chunks(ReaderSpec { buffer: r2.buffer + y, ..r2 }, head, he as nat, cs, last, rest);
}

impl UnifiedReader {
    /// The reading state stays consistent: a body in progress has its head
    /// within its data, and so has a complete request.
    pub closed spec fn wf(&self) -> bool {
        &&& match &self.state {
            RequestState::ProcessingBody { accumulated_data, headers_end } => *headers_end <= accumulated_data@.len()
                && *headers_end <= MAX_REQUEST_SIZE,
            RequestState::Complete(d) => d.wf() && d@.0.len() <= MAX_REQUEST_SIZE,
            _ => true,
        }
        &&& match &self.phase {
            Phase::Standard { acc, headers_end, .. } => *headers_end <= acc@.len(),
            Phase::Chunked { acc, headers_end } => *headers_end <= acc@.len() && acc@.len() <= MAX_REQUEST_SIZE,
            _ => true,
        }
    }

    pub fn new() -> (r: Self)
        ensures
            fresh(r@),
            r.wf(),
    {
        UnifiedReader {
            buffer: Vec::new(),
            state: RequestState::AwaitingHeaders,
            reader_type: ReaderType::Unknown,
            temp_chunk_headers: None,
            current_chunk_size: None,
            phase: Phase::Idle,
        }
    }

    /// Forgets the request: ready for the next one.
    pub fn reset(&mut self)
        ensures
            fresh(final(self)@),
            final(self).wf(),
    {
        self.buffer.clear();
        self.state = RequestState::AwaitingHeaders;
        self.reader_type = ReaderType::Unknown;
        self.current_chunk_size = None;
        self.temp_chunk_headers = None;
        self.phase = Phase::Idle;
    }

    /// Whether a complete request has been read.
    pub fn is_complete(&self) -> (r: bool)
        ensures
            r == (self@.state is Complete),
    {
        match self.state {
            RequestState::Complete(_) => true,
            _ => false,
        }
    }

    /// The state of the reading.
    pub fn state(&self) -> (r: RequestState)
        ensures
            r@ == self@.state,
    {
        self.state.copy()
    }

    /// Ends the step in progress without a result (the connection could
    /// not be read); bytes gathered for a body of known length in this step
    /// are dropped.
    pub fn abandon_step(&mut self)
        requires
            old(self).wf(),
        ensures
            final(self)@ == idle(old(self)@),
            final(self).wf(),
    {
        self.phase = Phase::Idle;
    }

    /// One reading step. `input` is `None` to begin a step, or the bytes
    /// read from the connection when the reader asked for them (empty when
    /// the connection was closed). The reader asks for bytes, or reports
    /// the state at which the step ends; a request it completes is never
    /// larger than `MAX_REQUEST_SIZE`.
    pub fn read_next(&mut self, input: Option<&[u8]>) -> (r: ReadAction)
        requires
            old(self).wf(),
        ensures
            final(self).wf(),
            within_limit(r@),
            (final(self)@, r@) == match input {
                None => spec_start(old(self)@),
                Some(b) => spec_feed(old(self)@, b@),
            },
    {
        match input {
            None => self.start(),
            Some(bytes) => {
                let mut phase = Phase::Idle;
                std::mem::swap(&mut phase, &mut self.phase);
                proof {
                    assert(self@ == idle(old(self)@));
                }
                match phase {
                    Phase::Idle => self.start(),
                    Phase::Headers => self.feed_headers(bytes),
                    Phase::Standard { acc, headers_end, content_length } => {
                        if bytes.len() == 0 {
                            return ReadAction::Done(RequestState::EndOfStream);
                        }
                        let mut acc = acc;
                        push_bytes(&mut acc, bytes);
                        self.standard_check(acc, headers_end, content_length)
                    },
                    Phase::Chunked { acc, headers_end } => {
                        if bytes.len() == 0 {
                            return ReadAction::Done(RequestState::EndOfStream);
                        }
                        push_bytes(&mut self.buffer, bytes);
                        self.chunk_loop(acc, headers_end)
                    },
                }
            },
        }
    }

    #[verifier::rlimit(80)]
    fn feed_headers(&mut self, bytes: &[u8]) -> (r: ReadAction)
        requires
            old(self).wf(),
        ensures
            final(self).wf(),
            within_limit(r@),
            (final(self)@, r@) == feed_headers(old(self)@, bytes@),
    {
        if bytes.len() == 0 {
            return ReadAction::Done(RequestState::EndOfStream);
        }
        push_bytes(&mut self.buffer, bytes);
        match find_headers_end(self.buffer.as_slice()) {
            Some(he) => {
                if he > MAX_REQUEST_SIZE {
                    return ReadAction::TooLarge;
                }
                self.enter_body(he)
            },
            None => {
                if self.buffer.len() > MAX_REQUEST_SIZE {
                    return ReadAction::TooLarge;
                }
                ReadAction::Done(RequestState::AwaitingHeaders)
            },
        }
    }

    /// The head ends at `he` in the buffer: the body is read.
    fn enter_body(&mut self, he: usize) -> (r: ReadAction)
        requires
            old(self).wf(),
            spec_headers_end(old(self)@.buffer) == Some(he as int),
            he <= old(self)@.buffer.len(),
            he <= MAX_REQUEST_SIZE,
        ensures
            final(self).wf(),
            within_limit(r@),
            (final(self)@, r@) == body_step(
                ReaderSpec {
                    buffer: old(self)@.buffer.skip(he as int),
                    state: StateSpec::ProcessingBody(old(self)@.buffer, he as nat),
                    reader_type: spec_reader_type(old(self)@.buffer, he as int),
                    ..old(self)@
                },
                old(self)@.buffer,
                he as nat,
            ),
    {
        let acc = slice_bytes(self.buffer.as_slice(), 0, self.buffer.len());
        proof {
            assert(acc@ =~= self.buffer@);
        }
        self.reader_type = determine_reader_type(acc.as_slice(), he);
        self.buffer = slice_bytes(acc.as_slice(), he, acc.len());
        let acc2 = slice_bytes(acc.as_slice(), 0, acc.len());
        proof {
            assert(acc2@ =~= acc@);
            assert(self.buffer@ =~= acc@.skip(he as int));
        }
        self.state = RequestState::ProcessingBody { accumulated_data: acc, headers_end: he };
        self.body_step(acc2, he)
    }

    fn start(&mut self) -> (r: ReadAction)
        requires
            old(self).wf(),
        ensures
            final(self).wf(),
            within_limit(r@),
            (final(self)@, r@) == spec_start(old(self)@),
    {
        match &self.state {
            RequestState::AwaitingHeaders => {
                self.phase = Phase::Headers;
                ReadAction::Read
            },
            RequestState::ProcessingBody { accumulated_data, headers_end } => {
                let acc = slice_bytes(accumulated_data.as_slice(), 0, accumulated_data.len());
                let he = *headers_end;
                assert(accumulated_data@.subrange(0, accumulated_data@.len() as int) =~= accumulated_data@);
                self.body_step(acc, he)
            },
            RequestState::Complete(d) => {
                let c = d.copy();
                self.phase = Phase::Idle;
                ReadAction::Done(RequestState::Complete(c))
            },
            RequestState::EndOfStream => {
                self.phase = Phase::Idle;
                ReadAction::Done(RequestState::EndOfStream)
            },
        }
    }

    fn body_step(&mut self, acc: Vec<u8>, he: usize) -> (r: ReadAction)
        requires
            old(self).wf(),
            he <= acc@.len(),
            he <= MAX_REQUEST_SIZE,
        ensures
            final(self).wf(),
            within_limit(r@),
            (final(self)@, r@) == body_step(old(self)@, acc@, he as nat),
    {
        match self.reader_type {
            ReaderType::Unknown => {
                self.phase = Phase::Idle;
                ReadAction::Done(RequestState::EndOfStream)
            },
            ReaderType::Standard { content_length } => self.standard_check(acc, he, content_length),
            ReaderType::Chunked => {
                let head = slice_bytes(acc.as_slice(), 0, he);
                assert(head@ =~= acc@.take(he as int));
                self.chunk_loop(head, he)
            },
        }
    }

    fn standard_check(&mut self, acc: Vec<u8>, he: usize, cl: usize) -> (r: ReadAction)
        requires
            old(self).wf(),
            he <= acc@.len(),
        ensures
            final(self).wf(),
            within_limit(r@),
            (final(self)@, r@) == standard_check(old(self)@, acc@, he as nat, cl as nat),
    {
        if he > MAX_REQUEST_SIZE || cl > MAX_REQUEST_SIZE - he {
            self.phase = Phase::Idle;
            return ReadAction::TooLarge;
        }
        let total = he + cl;
        if acc.len() >= total {
            let data = slice_bytes(acc.as_slice(), 0, total);
            let data2 = slice_bytes(acc.as_slice(), 0, total);
            self.buffer = slice_bytes(acc.as_slice(), total, acc.len());
            self.state = RequestState::Complete(RequestData { data, headers_end: he });
            self.phase = Phase::Idle;
            proof {
                assert(acc@.subrange(0, total as int) =~= acc@.take(total as int));
                assert(acc@.subrange(total as int, acc@.len() as int) =~= acc@.skip(total as int));
            }
            ReadAction::Done(RequestState::Complete(RequestData { data: data2, headers_end: he }))
        } else {
            self.phase = Phase::Standard { acc, headers_end: he, content_length: cl };
            ReadAction::Read
        }
    }

    fn chunk_loop(&mut self, acc: Vec<u8>, he: usize) -> (r: ReadAction)
        requires
            old(self).wf(),
            he <= acc@.len(),
            acc@.len() <= MAX_REQUEST_SIZE,
        ensures
            final(self).wf(),
            within_limit(r@),
            (final(self)@, r@) == chunk_loop(old(self)@, acc@, he as nat),
        decreases old(self)@.buffer.len(),
    {
        reveal_with_fuel(chunk_loop, 1);
        let ghost r0 = self@;
        proof {
            crate::bytes::lemma_find_sub_props(self.buffer@, crlf());
        }
        let le = find_line_end(self.buffer.as_slice());
        let size = match le {
            Some(e) => {
                let line = slice_bytes(self.buffer.as_slice(), 0, e - 2);
                assert(line@ =~= self.buffer@.take(e - 2));
                parse_chunk_size(line.as_slice())
            },
            None => None,
        };
        let ghost sz_spec = match spec_line_end(r0.buffer) {
            Some(e) => spec_chunk_size(r0.buffer.take(e - 2)),
            None => None,
        };
        assert(size == sz_spec);
        if self.current_chunk_size.is_none() && size == Some(0usize) {
            let data2 = slice_bytes(acc.as_slice(), 0, acc.len());
            assert(acc@.subrange(0, acc@.len() as int) =~= acc@);
            self.state = RequestState::Complete(RequestData { data: acc, headers_end: he });
            self.phase = Phase::Idle;
            let res = ReadAction::Done(RequestState::Complete(RequestData { data: data2, headers_end: he }));
            assert(self@ == ReaderSpec { state: StateSpec::Complete(acc@, he as nat), phase: PhaseSpec::Idle, ..r0 });
            assert(res@ == ActionSpec::Done(StateSpec::Complete(acc@, he as nat)));
            return res;
        }
        if self.current_chunk_size.is_none() {
            match size {
                Some(sz) => {
                    let e = le.unwrap();
                    self.buffer = slice_bytes(self.buffer.as_slice(), e, self.buffer.len());
                    assert(self.buffer@ =~= r0.buffer.skip(e as int));
                    self.current_chunk_size = Some(sz);
                },
                None => {},
            }
        }
        match self.current_chunk_size {
            Some(cs) => {
                if acc.len() > MAX_REQUEST_SIZE || cs > MAX_REQUEST_SIZE - acc.len() {
                    self.phase = Phase::Idle;
                    return ReadAction::TooLarge;
                }
                if self.buffer.len() >= cs + 2 {
                    let mut acc = acc;
                    let chunk = slice_bytes(self.buffer.as_slice(), 0, cs);
                    push_bytes(&mut acc, chunk.as_slice());
                    self.buffer = slice_bytes(self.buffer.as_slice(), cs + 2, self.buffer.len());
                    self.current_chunk_size = None;
                    proof {
                        assert(chunk@ =~= r0.buffer.take(0).add(Seq::empty()) + chunk@);
                    }
                    self.chunk_loop(acc, he)
                } else {
                    self.phase = Phase::Chunked { acc, headers_end: he };
                    ReadAction::Read
                }
            },
            None => {
                if le.is_some() {
                    self.phase = Phase::Idle;
                    ReadAction::Stalled
                } else if self.buffer.len() > MAX_REQUEST_SIZE {
                    self.phase = Phase::Idle;
                    ReadAction::TooLarge
                } else {
                    self.phase = Phase::Chunked { acc, headers_end: he };
                    ReadAction::Read
                }
            },
        }
    }
}

} // verus!
