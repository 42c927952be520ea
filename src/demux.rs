use vstd::prelude::*;
use vstd::string::StringSliceAdditionalSpecFns;

verus! {

/// The byte of an opening brace.
pub const OPEN_BRACE: u8 = 0x7b;

/// The byte of a closing brace.
pub const CLOSE_BRACE: u8 = 0x7d;

/// What a complete JSON object, given as its bytes, holds at
/// `choices[0].delta.content` when that is a string: `None` where the bytes
/// do not parse or the field is missing or not a string.
pub uninterp spec fn delta_text(object: Seq<u8>) -> Option<Seq<char>>;

/// Relies on `serde_json::from_slice` to parse `object` as a JSON value, and on
/// indexing a `serde_json::Value` to read `choices[0].delta.content` from it.
#[verifier::external_body]
fn parse_delta(object: &[u8]) -> (r: Option<String>)
    ensures
        match r {
            Some(t) => delta_text(object@) == Some(t@),
            None => delta_text(object@).is_none(),
        },
{
    let value: serde_json::Value = serde_json::from_slice(object).ok()?;
    value["choices"][0]["delta"]["content"].as_str().map(|t| t.to_owned())
}

/// The nesting depth after byte `b` at depth `d`. A closing brace at depth
/// zero closes nothing and is skipped, so the depth never goes below zero
/// and a stray closing brace cannot hide the objects that follow it.
pub open spec fn depth_after(d: int, b: u8) -> int {
    if b == OPEN_BRACE {
        d + 1
    } else if b == CLOSE_BRACE && d > 0 {
        d - 1
    } else {
        d
    }
}

/// The brace depth after the bytes `s`.
pub open spec fn depth_of(s: Seq<u8>) -> int
    decreases s.len(),
{
    if s.len() == 0 {
        0
    } else {
        depth_after(depth_of(s.drop_last()), s.last())
    }
}

/// The last opening brace before index `e` of `s` that stands at depth zero.
pub open spec fn opener_before(s: Seq<u8>, e: int) -> Option<int>
    decreases e,
{
    if e <= 0 {
        None
    } else if s[e - 1] == OPEN_BRACE && depth_of(s.take(e - 1)) == 0 {
        Some(e - 1)
    } else {
        opener_before(s, e - 1)
    }
}

/// Index `e` of `s` is a closing brace that brings the depth from one back
/// to zero after an opening brace that stood at depth zero.
pub open spec fn closes_object(s: Seq<u8>, e: int) -> bool {
    &&& 0 <= e < s.len()
    &&& s[e] == CLOSE_BRACE
    &&& depth_of(s.take(e)) == 1
    &&& opener_before(s, e).is_some()
}

/// Some index of `s` closes an object.
pub open spec fn has_object(s: Seq<u8>) -> bool {
    exists|e: int| closes_object(s, e)
}

/// The first index of `s` that closes an object.
pub open spec fn first_close(s: Seq<u8>) -> int
    recommends
        has_object(s),
{
    choose|e: int| closes_object(s, e) && forall|j: int| 0 <= j < e ==> !closes_object(s, j)
}

/// The span of the first complete object in `s`, as the indices of its
/// opening and closing braces, both included.
#[verifier::opaque]
pub open spec fn object_span(s: Seq<u8>) -> Option<(int, int)> {
    if has_object(s) {
        Some((opener_before(s, first_close(s)).unwrap(), first_close(s)))
    } else {
        None
    }
}

/// The deltas that repeated extraction lifts out of the buffer `s`, in order.
#[verifier::opaque]
pub open spec fn pending_deltas(s: Seq<u8>) -> Seq<Seq<char>>
    decreases s.len(),
{
    match object_span(s) {
        None => seq![],
        Some((a, e)) => if 0 <= e < s.len() {
            delta_seq(s.subrange(a, e + 1)) + pending_deltas(s.subrange(e + 1, s.len() as int))
        } else {
            seq![]
        },
    }
}

/// The delta of one object, as a sequence of zero or one texts.
pub open spec fn delta_seq(object: Seq<u8>) -> Seq<Seq<char>> {
    match delta_text(object) {
        Some(t) => seq![t],
        None => seq![],
    }
}

/// One extraction step: the first object's delta, then what the rest gives.
proof fn lemma_extract_step(s: Seq<u8>, a: int, e: int)
    requires
        object_span(s) == Some((a, e)),
        0 <= a <= e < s.len(),
    ensures
        pending_deltas(s) == delta_seq(s.subrange(a, e + 1)) + pending_deltas(
            s.subrange(e + 1, s.len() as int),
        ),
        leftover(s) == leftover(s.subrange(e + 1, s.len() as int)),
{
    reveal(pending_deltas);
    reveal(leftover);
}

/// With no complete object, nothing is extracted and nothing removed.
proof fn lemma_extract_none(s: Seq<u8>)
    requires
        object_span(s).is_none(),
    ensures
        pending_deltas(s) == Seq::<Seq<char>>::empty(),
        leftover(s) == s,
{
    reveal(pending_deltas);
    reveal(leftover);
}

/// What remains of the buffer `s` after repeated extraction.
#[verifier::opaque]
pub open spec fn leftover(s: Seq<u8>) -> Seq<u8>
    decreases s.len(),
{
    match object_span(s) {
        None => s,
        Some((a, e)) => if 0 <= e < s.len() {
            leftover(s.subrange(e + 1, s.len() as int))
        } else {
            s
        },
    }
}

/// There is a first closing index whenever some index closes an object.
proof fn lemma_first_close(s: Seq<u8>)
    requires
        has_object(s),
    ensures
        closes_object(s, first_close(s)),
        forall|j: int| 0 <= j < first_close(s) ==> !closes_object(s, j),
{
    let e0 = choose|e: int| closes_object(s, e);
    lemma_least_close(s, e0);
}

proof fn lemma_least_close(s: Seq<u8>, e: int)
    requires
        closes_object(s, e),
    ensures
        exists|m: int| closes_object(s, m) && forall|j: int| 0 <= j < m ==> !closes_object(s, j),
    decreases e,
{
    if exists|j: int| 0 <= j < e && closes_object(s, j) {
        let j = choose|j: int| 0 <= j < e && closes_object(s, j);
        lemma_least_close(s, j);
    } else {
        assert(forall|j: int| 0 <= j < e ==> !closes_object(s, j));
    }
}

/// The opener found before `e` lies before `e`.
proof fn lemma_opener_range(s: Seq<u8>, e: int)
    ensures
        opener_before(s, e) matches Some(a) ==> 0 <= a < e,
    decreases e,
{
    if e > 0 {
        lemma_opener_range(s, e - 1);
    }
}

/// What extraction leaves holds no complete object.
proof fn lemma_leftover_has_no_object(s: Seq<u8>)
    ensures
        object_span(leftover(s)).is_none(),
    decreases s.len(),
{
    reveal(leftover);
    reveal(object_span);
    if has_object(s) {
        lemma_first_close(s);
    }
    match object_span(s) {
        None => {},
        Some((a, e)) => if 0 <= e < s.len() {
            lemma_leftover_has_no_object(s.subrange(e + 1, s.len() as int));
        },
    }
}

/// Extraction is idempotent: on what one pass leaves, a second pass with no
/// new data yields no delta and leaves the buffer unchanged.
pub proof fn lemma_extract_idempotent(s: Seq<u8>)
    ensures
        pending_deltas(leftover(s)) == Seq::<Seq<char>>::empty(),
        leftover(leftover(s)) == leftover(s),
{
    lemma_leftover_has_no_object(s);
    lemma_extract_none(leftover(s));
}

/// The opener before `e` depends only on the bytes before `e`.
proof fn lemma_opener_prefix(s: Seq<u8>, t: Seq<u8>, e: int)
    requires
        0 <= e <= s.len(),
    ensures
        opener_before(s + t, e) == opener_before(s, e),
    decreases e,
{
    if e > 0 {
        assert((s + t).take(e - 1) =~= s.take(e - 1));
        assert((s + t)[e - 1] == s[e - 1]);
        lemma_opener_prefix(s, t, e - 1);
    }
}

/// Whether an index of `s` closes an object does not change when bytes are
/// appended after it.
proof fn lemma_closes_prefix(s: Seq<u8>, t: Seq<u8>, e: int)
    requires
        0 <= e < s.len(),
    ensures
        closes_object(s + t, e) == closes_object(s, e),
{
    assert((s + t).take(e) =~= s.take(e));
    lemma_opener_prefix(s, t, e);
}

/// The span of the first object lies inside the buffer.
proof fn lemma_span_range(s: Seq<u8>)
    ensures
        object_span(s) matches Some((a, e)) ==> 0 <= a <= e < s.len(),
{
    reveal(object_span);
    if has_object(s) {
        lemma_first_close(s);
        lemma_opener_range(s, first_close(s));
    }
}

/// The first complete object of `s` is also the first of `s + t`.
proof fn lemma_span_prefix(s: Seq<u8>, t: Seq<u8>)
    requires
        object_span(s).is_some(),
    ensures
        object_span(s + t) == object_span(s),
{
    reveal(object_span);
    lemma_first_close(s);
    let e = first_close(s);
    lemma_closes_prefix(s, t, e);
    assert(has_object(s + t));
    lemma_first_close(s + t);
    let f = first_close(s + t);
    assert forall|j: int| 0 <= j < e implies !closes_object(s + t, j) by {
        lemma_closes_prefix(s, t, j);
    }
    assert(!(f < e));
    if e < f {
        assert(!closes_object(s + t, e));
    }
    assert(f == e);
    lemma_opener_prefix(s, t, e);
}

/// Delivering a stream in two pieces, with an extraction after each, yields
/// the same deltas, and leaves the same bytes, as delivering it at once: the
/// deltas of `s`, then those of what `s` leaves followed by `t`, are the
/// deltas of `s + t`.
pub proof fn lemma_split_delivery(s: Seq<u8>, t: Seq<u8>)
    ensures
        pending_deltas(s) + pending_deltas(leftover(s) + t) == pending_deltas(s + t),
        leftover(leftover(s) + t) == leftover(s + t),
    decreases s.len(),
{
    match object_span(s) {
        None => {
            lemma_extract_none(s);
            assert(pending_deltas(s) + pending_deltas(s + t) =~= pending_deltas(s + t));
        },
        Some((a, e)) => {
            lemma_span_range(s);
            lemma_span_prefix(s, t);
            let rest = s.subrange(e + 1, s.len() as int);
            lemma_extract_step(s, a, e);
            lemma_extract_step(s + t, a, e);
            assert((s + t).subrange(a, e + 1) =~= s.subrange(a, e + 1));
            assert((s + t).subrange(e + 1, (s + t).len() as int) =~= rest + t);
            lemma_split_delivery(rest, t);
            assert(pending_deltas(s) + pending_deltas(leftover(s) + t) =~= delta_seq(
                s.subrange(a, e + 1),
            ) + (pending_deltas(rest) + pending_deltas(leftover(rest) + t)));
        },
    }
}

/// Extending the depth by one byte.
proof fn lemma_depth_push(s: Seq<u8>, i: int)
    requires
        0 <= i < s.len(),
    ensures
        depth_of(s.take(i + 1)) == depth_after(depth_of(s.take(i)), s[i]),
{
    assert(s.take(i + 1).drop_last() =~= s.take(i));
}

/// Incrementally extracts complete JSON objects from an append-only buffer
/// fed with the chunks of a streamed response, and lifts the text delta out
/// of each.
pub struct JSONBufferParser {
    buffer: Vec<u8>,
}

impl View for JSONBufferParser {
    type V = Seq<u8>;

    closed spec fn view(&self) -> Seq<u8> {
        self.buffer@
    }
}

impl JSONBufferParser {
    /// An empty parser.
    pub fn new() -> (r: JSONBufferParser)
        ensures
            r@ == Seq::<u8>::empty(),
    {
        JSONBufferParser { buffer: Vec::new() }
    }

    /// Appends the bytes of `chunk` to the buffer.
    pub fn append(&mut self, chunk: &str)
        ensures
            final(self)@ == old(self)@ + chunk.spec_bytes(),
    {
        let bytes = chunk.as_bytes();
        let n = bytes.len();
        let mut i: usize = 0;
        while i < n
            invariant
                n == bytes@.len(),
                bytes@ == chunk.spec_bytes(),
                0 <= i <= n,
                self@ == old(self)@ + bytes@.take(i as int),
            decreases n - i,
        {
            self.buffer.push(bytes[i]);
            i = i + 1;
            proof {
                assert(bytes@.take(i as int) =~= bytes@.take(i - 1) + seq![bytes@[i - 1]]);
            }
        }
        proof {
            assert(bytes@.take(n as int) =~= bytes@);
        }
    }

    /// The span of the first complete object in the buffer: the indices of
    /// its opening and its closing brace.
    pub fn find_json_object_boundaries(&self) -> (r: Option<(usize, usize)>)
        ensures
            match r {
                None => object_span(self@).is_none(),
                Some((a, e)) => object_span(self@) == Some((a as int, e as int)) && a <= e
                    && e < self@.len(),
            },
    {
        reveal(object_span);
        let n = self.buffer.len();
        let mut opens: usize = 0;
        let mut closes: usize = 0;
        let mut start: Option<usize> = None;
        let mut i: usize = 0;
        while i < n
            invariant
                n == self@.len(),
                0 <= i <= n,
                opens <= i,
                closes <= i,
                closes <= opens,
                opens - closes == depth_of(self@.take(i as int)),
                match start {
                    None => opener_before(self@, i as int).is_none(),
                    Some(a) => opener_before(self@, i as int) == Some(a as int),
                },
                forall|j: int| 0 <= j < i ==> !closes_object(self@, j),
            decreases n - i,
        {
            let b = self.buffer[i];
            proof {
                lemma_depth_push(self@, i as int);
            }
            if b == OPEN_BRACE {
                if opens == closes {
                    start = Some(i);
                }
                opens = opens + 1;
            } else if b == CLOSE_BRACE && opens > closes {
                closes = closes + 1;
                if opens == closes {
                    if let Some(a) = start {
                        proof {
                            assert(closes_object(self@, i as int));
                            lemma_first_close(self@);
                            lemma_opener_range(self@, i as int);
                            let fc = first_close(self@);
                            assert(!(fc < i));
                            assert(!(i < fc));
                            assert(fc == i);
                            reveal(object_span);
                            assert(has_object(self@));
                            assert(object_span(self@) == Some((a as int, i as int)));
                            assert(a <= i);
                        }
                        return Some((a, i));
                    }
                }
            }
            i = i + 1;
        }
        proof {
            reveal(object_span);
            if has_object(self@) {
                lemma_first_close(self@);
            }
        }
        None
    }

    /// Extracts every complete object now in the buffer, front to back,
    /// removes each one with what precedes it, and returns the deltas of
    /// those that parse and hold one. What is left holds no complete object.
    pub fn extract_content(&mut self) -> (r: Vec<String>)
        ensures
            r.deep_view() == pending_deltas(old(self)@),
            final(self)@ == leftover(old(self)@),
            object_span(final(self)@).is_none(),
    {
        proof {
            lemma_leftover_has_no_object(old(self)@);
        }
        let mut contents: Vec<String> = Vec::new();
        loop
            invariant
                contents.deep_view() + pending_deltas(self@) == pending_deltas(old(self)@),
                leftover(self@) == leftover(old(self)@),
            decreases self@.len(),
        {
            match self.find_json_object_boundaries() {
                Some((start, end)) => {
                    let ghost before = self@;
                    let ghost prev = contents.deep_view();
                    let len = self.buffer.len();
                    assert(end < len);
                    let object = copy_range(&self.buffer, start, end + 1);
                    let found = parse_delta(object.as_slice());
                    match found {
                        Some(t) => {
                            let ghost tv = t@;
                            contents.push(t);
                            proof {
                                assert(contents.deep_view() =~= prev + seq![tv]);
                            }
                        },
                        None => {},
                    }
                    proof {
                        assert(contents.deep_view() == prev + delta_seq(object@));
                    }
                    self.buffer = copy_range(&self.buffer, end + 1, len);
                    proof {
                        lemma_extract_step(before, start as int, end as int);
                        assert(contents.deep_view() + pending_deltas(self@) =~= prev + (
                        delta_seq(object@) + pending_deltas(self@)));
                    }
                },
                None => {
                    proof {
                        lemma_extract_none(self@);
                        assert(contents.deep_view() =~= contents.deep_view()
                            + Seq::<Seq<char>>::empty());
                    }
                    return contents;
                },
            }
        }
    }
}

/// A copy of `v[from..to]`.
fn copy_range(v: &Vec<u8>, from: usize, to: usize) -> (r: Vec<u8>)
    requires
        from <= to <= v@.len(),
    ensures
        r@ == v@.subrange(from as int, to as int),
{
    let mut r: Vec<u8> = Vec::new();
    let mut i: usize = from;
    while i < to
        invariant
            from <= i <= to <= v@.len(),
            r@ == v@.subrange(from as int, i as int),
        decreases to - i,
    {
        r.push(v[i]);
        i = i + 1;
        proof {
            assert(r@ =~= v@.subrange(from as int, i as int));
        }
    }
    r
}

} // verus!
