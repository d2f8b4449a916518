//! Reading the head of a request (request line and header block) from a
//! byte stream that arrives in pieces of any size.
use vstd::prelude::*;
use vstd::slice::slice_subrange;

verus! {

/// The most bytes a request head may take, its blank line included.
pub const HEAD_CAPACITY: usize = 1024;

/// The most header lines a request head may carry.
pub const MAX_HEADERS: usize = 64;

/// One header line, its name and value as they arrived.
pub struct Header {
    pub name: Vec<u8>,
    pub value: Vec<u8>,
}

/// A request line and its headers, in order of arrival.
pub struct RequestHead {
    pub method: Option<String>,
    pub target: Option<String>,
    pub version: Option<u8>,
    pub headers: Vec<Header>,
}

/// What the HTTP grammar makes of a block of bytes.
pub enum HeadParse {
    Partial,
    Complete(RequestHead),
    Invalid,
}

/// Why a request head was refused.
#[derive(PartialEq, Eq, Structural, Clone, Copy, Debug)]
pub enum ParseError {
    /// The bytes break the request-line or header grammar.
    Malformed,
    /// No complete head within `HEAD_CAPACITY` bytes.
    HeadersTooLarge,
}

/// Where reading a request head stands.
pub enum HeadStatus {
    /// More bytes are needed.
    Incomplete,
    /// The head, and the number of bytes it took.
    Parsed(RequestHead, usize),
    /// The connection cannot go on.
    Failed(ParseError),
}

/// What `httparse::Request::parse` makes of `head`, with room for
/// `max_headers` headers.
pub uninterp spec fn httparse_request(head: Seq<u8>, max_headers: nat) -> HeadParse;

/// Relies on `httparse::Request::parse` to read a request line and header
/// block; what it returns depends on the bytes and the number of header slots.
#[verifier::external_body]
fn parse_request(head: &[u8], max_headers: usize) -> (r: HeadParse)
    ensures
        r == httparse_request(head@, max_headers as nat),
{
    let mut slots = vec![httparse::EMPTY_HEADER; max_headers];
    let mut req = httparse::Request::new(&mut slots);
    match req.parse(head) {
        Ok(httparse::Status::Complete(_)) => HeadParse::Complete(RequestHead {
            method: req.method.map(String::from),
            target: req.path.map(String::from),
            version: req.version,
            headers: req.headers.iter().map(|h| Header { name: h.name.as_bytes().to_vec(), value: h.value.to_vec() }).collect(),
        }),
        Ok(httparse::Status::Partial) => HeadParse::Partial,
        Err(_) => HeadParse::Invalid,
    }
}

/// How many of the first `n` bytes of a stream a reader keeps.
pub open spec fn kept(n: int) -> int {
    if n < HEAD_CAPACITY {
        n
    } else {
        HEAD_CAPACITY as int
    }
}

/// A blank line (`\r\n\r\n`) starts at `i`.
pub open spec fn blank_at(s: Seq<u8>, i: int) -> bool {
    0 <= i && i + 4 <= s.len() && s[i] == 13 && s[i + 1] == 10 && s[i + 2] == 13 && s[i + 3] == 10
}

/// The blank line at `i` ends a head: it lies within the capacity, and the
/// bytes up to it are, for the grammar, no longer a mere beginning.
pub open spec fn decisive(s: Seq<u8>, i: int) -> bool {
    blank_at(s, i) && i + 4 <= HEAD_CAPACITY && !(httparse_request(
        s.take(i + 4),
        MAX_HEADERS as nat,
    ) is Partial)
}

pub open spec fn first_decisive(s: Seq<u8>, i: int) -> bool {
    decisive(s, i) && forall|j: int| 0 <= j < i ==> !decisive(s, j)
}

/// Where reading stands once the bytes `s` have arrived: the head ends at the
/// first blank line that settles it; without one, a stream that has reached
/// the capacity has failed, and a shorter one needs more bytes.
pub open spec fn head_outcome(s: Seq<u8>) -> HeadStatus {
    if exists|i: int| first_decisive(s, i) {
        let i = choose|i: int| first_decisive(s, i);
        match httparse_request(s.take(i + 4), MAX_HEADERS as nat) {
            HeadParse::Complete(h) => HeadStatus::Parsed(h, (i + 4) as usize),
            _ => HeadStatus::Failed(ParseError::Malformed),
        }
    } else if s.len() >= HEAD_CAPACITY {
        HeadStatus::Failed(ParseError::HeadersTooLarge)
    } else {
        HeadStatus::Incomplete
    }
}

proof fn lemma_first_decisive_unique(s: Seq<u8>, i: int, j: int)
    requires
        first_decisive(s, i),
        first_decisive(s, j),
    ensures
        i == j,
{
}

proof fn lemma_least_decisive(s: Seq<u8>, k: int)
    requires
        decisive(s, k),
    ensures
        exists|i: int| first_decisive(s, i),
    decreases k,
{
    if !first_decisive(s, k) {
        let j = choose|j: int| 0 <= j < k && decisive(s, j);
        lemma_least_decisive(s, j);
    }
}

/// Two streams that agree on their first `m` bytes agree on every blank line
/// that ends within them.
proof fn lemma_decisive_agree(s: Seq<u8>, t: Seq<u8>, m: int, j: int)
    requires
        0 <= j,
        j + 4 <= m,
        m <= s.len(),
        m <= t.len(),
        s.take(m) == t.take(m),
    ensures
        decisive(s, j) == decisive(t, j),
{
    assert(s[j] == s.take(m)[j]);
    assert(t[j] == t.take(m)[j]);
    assert(s[j + 1] == s.take(m)[j + 1]);
    assert(t[j + 1] == t.take(m)[j + 1]);
    assert(s[j + 2] == s.take(m)[j + 2]);
    assert(t[j + 2] == t.take(m)[j + 2]);
    assert(s[j + 3] == s.take(m)[j + 3]);
    assert(t[j + 3] == t.take(m)[j + 3]);
    assert(s.take(j + 4) =~= s.take(m).take(j + 4));
    assert(t.take(j + 4) =~= t.take(m).take(j + 4));
}

/// Only the first `HEAD_CAPACITY` bytes of a stream decide where reading
/// its head stands.
pub proof fn lemma_outcome_window(s: Seq<u8>)
    ensures
        head_outcome(s) == head_outcome(s.take(kept(s.len() as int))),
{
    let m = kept(s.len() as int);
    let t = s.take(m);
    assert(t.take(m) =~= s.take(m));
    assert forall|j: int| decisive(s, j) == decisive(t, j) by {
        if 0 <= j && j + 4 <= m {
            lemma_decisive_agree(s, t, m, j);
        }
    }
    assert forall|j: int| first_decisive(s, j) == first_decisive(t, j) by {
        if first_decisive(s, j) {
            assert(s.take(j + 4) =~= t.take(j + 4));
        }
    }
    if exists|i: int| first_decisive(s, i) {
        let i = choose|i: int| first_decisive(s, i);
        assert(s.take(i + 4) =~= t.take(i + 4));
    }
}

/// Once reading a head has ended, in a parsed head or a failure, more bytes
/// change nothing.
pub proof fn lemma_outcome_settled(s: Seq<u8>, u: Seq<u8>)
    requires
        !(head_outcome(s) is Incomplete),
    ensures
        head_outcome(s + u) == head_outcome(s),
{
    let t = s + u;
    let m = s.len() as int;
    assert(t.take(m) =~= s.take(m));
    if exists|i: int| first_decisive(s, i) {
        let i = choose|i: int| first_decisive(s, i);
        assert forall|j: int| 0 <= j <= i implies decisive(s, j) == decisive(t, j) by {
            lemma_decisive_agree(s, t, m, j);
        }
        assert(first_decisive(t, i));
        assert forall|k: int| first_decisive(t, k) implies k == i by {
            if k < i {
                assert(decisive(s, k));
            }
            if k > i {
                assert(!decisive(t, i));
            }
        }
        assert(s.take(i + 4) =~= t.take(i + 4));
    } else {
        assert(s.len() >= HEAD_CAPACITY);
        assert forall|k: int| !decisive(t, k) by {
            if decisive(t, k) {
                lemma_decisive_agree(s, t, m, k);
                lemma_least_decisive(s, k);
            }
        }
    }
}

/// A stream that has reached the capacity without a head that ends within it
/// fails as too large: reading a head never waits past `HEAD_CAPACITY` bytes.
pub proof fn lemma_bounded_wait(s: Seq<u8>)
    ensures
        head_outcome(s) is Incomplete ==> s.len() < HEAD_CAPACITY,
        s.len() >= HEAD_CAPACITY && (forall|i: int| !decisive(s, i)) ==> head_outcome(s)
            == HeadStatus::Failed(ParseError::HeadersTooLarge),
{
}

/// The concatenation of the pieces of a stream, in order.
pub open spec fn joined(pieces: Seq<Seq<u8>>) -> Seq<u8>
    decreases pieces.len(),
{
    if pieces.len() == 0 {
        Seq::empty()
    } else {
        joined(pieces.drop_last()) + pieces.last()
    }
}

/// Where reading stands when the pieces arrive one after another and reading
/// stops at the first piece after which it has ended.
pub open spec fn piecewise_outcome(pieces: Seq<Seq<u8>>) -> HeadStatus
    decreases pieces.len(),
{
    if pieces.len() == 0 {
        head_outcome(Seq::empty())
    } else {
        let before = piecewise_outcome(pieces.drop_last());
        if before is Incomplete {
            head_outcome(joined(pieces))
        } else {
            before
        }
    }
}

/// However a stream is cut into pieces, one byte at a time included, reading
/// its head ends as it does when the stream arrives whole.
pub proof fn lemma_fragmentation_invariant(pieces: Seq<Seq<u8>>)
    ensures
        piecewise_outcome(pieces) == head_outcome(joined(pieces)),
    decreases pieces.len(),
{
    if pieces.len() > 0 {
        let prefix = pieces.drop_last();
        lemma_fragmentation_invariant(prefix);
        if !(piecewise_outcome(prefix) is Incomplete) {
            lemma_outcome_settled(joined(prefix), pieces.last());
        }
    }
}

/// Gathers the bytes of a request head as they arrive.
pub struct HeadReader {
    buf: Vec<u8>,
    seen: Ghost<Seq<u8>>,
}

impl View for HeadReader {
    type V = Seq<u8>;

    /// Every byte fed so far.
    closed spec fn view(&self) -> Seq<u8> {
        self.seen@
    }
}

impl HeadReader {
    /// The reader keeps the first `HEAD_CAPACITY` bytes of the stream.
    pub closed spec fn wf(&self) -> bool {
        self.buf@ == self.seen@.take(kept(self.seen@.len() as int))
    }

    pub fn new() -> (r: HeadReader)
        ensures
            r.wf(),
            r@ == Seq::<u8>::empty(),
    {
        let r = HeadReader { buf: Vec::new(), seen: Ghost(Seq::empty()) };
        assert(r.buf@ =~= r.seen@.take(0));
        r
    }

    /// How many more bytes the reader keeps; reading more than that before the
    /// head has ended is of no use.
    pub fn room(&self) -> (r: usize)
        requires
            self.wf(),
        ensures
            r == HEAD_CAPACITY - kept(self@.len() as int),
    {
        HEAD_CAPACITY - self.buf.len()
    }

    /// Takes the next piece of the stream and says where reading stands.
    pub fn feed(&mut self, piece: &[u8]) -> (r: HeadStatus)
        requires
            old(self).wf(),
        ensures
            final(self).wf(),
            final(self)@ == old(self)@ + piece@,
            r == head_outcome(final(self)@),
    {
        let ghost all = self.seen@ + piece@;
        let mut k: usize = 0;
        while k < piece.len() && self.buf.len() < HEAD_CAPACITY
            invariant
                k <= piece.len(),
                all == old(self).seen@ + piece@,
                self.buf@ == all.take(kept(old(self).seen@.len() + k)),
                self.buf.len() == kept(old(self).seen@.len() + k),
            decreases piece.len() - k,
        {
            self.buf.push(piece[k]);
            k = k + 1;
            assert(self.buf@ =~= all.take(kept(old(self).seen@.len() + k)));
        }
        self.seen = Ghost(all);
        assert(self.buf@ =~= all.take(kept(all.len() as int)));
        proof {
            lemma_outcome_window(all);
        }
        self.scan()
    }

    /// Where reading stands on the kept bytes.
    fn scan(&self) -> (r: HeadStatus)
        requires
            self.wf(),
        ensures
            r == head_outcome(self@),
    {
        proof {
            lemma_outcome_window(self@);
        }
        let ghost s = self.buf@;
        assert(s == self@.take(kept(self@.len() as int)));
        let n = self.buf.len();
        let mut i: usize = 0;
        while i + 4 <= n
            invariant
                s == self.buf@,
                n == s.len(),
                n <= HEAD_CAPACITY,
                i <= n,
                head_outcome(self@) == head_outcome(s),
                forall|j: int| 0 <= j < i ==> !decisive(s, j),
            decreases n - i,
        {
            if self.buf[i] == 13 && self.buf[i + 1] == 10 && self.buf[i + 2] == 13
                && self.buf[i + 3] == 10 {
                let block = slice_subrange(self.buf.as_slice(), 0, i + 4);
                assert(block@ =~= s.take(i + 4));
                let p = parse_request(block, MAX_HEADERS);
                match p {
                    HeadParse::Partial => {},
                    HeadParse::Complete(h) => {
                        assert(first_decisive(s, i as int));
                        proof {
                            lemma_first_decisive_unique(s, i as int, choose|j: int| first_decisive(s, j));
                        }
                        return HeadStatus::Parsed(h, i + 4);
                    },
                    HeadParse::Invalid => {
                        assert(first_decisive(s, i as int));
                        proof {
                            lemma_first_decisive_unique(s, i as int, choose|j: int| first_decisive(s, j));
                        }
                        return HeadStatus::Failed(ParseError::Malformed);
                    },
                }
            }
            i = i + 1;
        }
        assert forall|j: int| !decisive(s, j) by {
            if j >= i {
                assert(!blank_at(s, j));
            }
        }
        if n >= HEAD_CAPACITY {
            HeadStatus::Failed(ParseError::HeadersTooLarge)
        } else {
            HeadStatus::Incomplete
        }
    }
}

} // verus!
