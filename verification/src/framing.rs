use vstd::prelude::*;

verus! {

/// Frame delimiters of the line discipline: line feed and carriage return.
pub open spec fn is_delim(b: u8) -> bool {
    b == 10 || b == 13
}

/// Exec mirror of `is_delim`.
fn byte_is_delim(b: u8) -> (r: bool)
    ensures
        r == is_delim(b),
{
    b == 10 || b == 13
}

/// Position of the first delimiter in `s`, if any.
pub open spec fn find_delim(s: Seq<u8>) -> Option<int>
    decreases s.len(),
{
    if s.len() == 0 {
        None
    } else if is_delim(s[0]) {
        Some(0int)
    } else {
        match find_delim(s.skip(1)) {
            Some(i) => Some(i + 1),
            None => None,
        }
    }
}

/// What `find_delim` returns: the position of a delimiter with none before it,
/// or `None` when `s` is delimiter-free.
pub proof fn lemma_find_delim(s: Seq<u8>)
    ensures
        match find_delim(s) {
            Some(i) => 0 <= i < s.len() && is_delim(s[i]) && (forall|j: int|
                0 <= j < i ==> !is_delim(s[j])),
            None => forall|j: int| 0 <= j < s.len() ==> !is_delim(s[j]),
        },
    decreases s.len(),
{
    if s.len() == 0 {
    } else if is_delim(s[0]) {
    } else {
        lemma_find_delim(s.skip(1));
        match find_delim(s.skip(1)) {
            Some(i) => {
                assert(s[i + 1] == s.skip(1)[i]);
                assert forall|j: int| 0 <= j < i + 1 implies !is_delim(s[j]) by {
                    if j > 0 {
                        assert(s[j] == s.skip(1)[j - 1]);
                    }
                }
            },
            None => {
                assert forall|j: int| 0 <= j < s.len() implies !is_delim(s[j]) by {
                    if j > 0 {
                        assert(s[j] == s.skip(1)[j - 1]);
                    }
                }
            },
        }
    }
}

/// Converse of `lemma_find_delim`: a delimiter at `i` with none before it is
/// the one `find_delim` reports.
pub proof fn lemma_find_delim_at(s: Seq<u8>, i: int)
    requires
        0 <= i < s.len(),
        is_delim(s[i]),
        forall|j: int| 0 <= j < i ==> !is_delim(s[j]),
    ensures
        find_delim(s) == Some(i),
    decreases i,
{
    if i == 0 {
    } else {
        assert(forall|j: int| 0 <= j < s.skip(1).len() ==> s.skip(1)[j] == s[j + 1]);
        lemma_find_delim_at(s.skip(1), i - 1);
    }
}

/// Appending bytes does not move an already-found first delimiter.
pub proof fn lemma_find_delim_append(s: Seq<u8>, t: Seq<u8>)
    ensures
        match find_delim(s) {
            Some(i) => find_delim(s + t) == Some(i),
            None => true,
        },
{
    lemma_find_delim(s);
    match find_delim(s) {
        Some(i) => {
            assert(forall|j: int| 0 <= j < s.len() ==> (s + t)[j] == s[j]);
            lemma_find_delim_at(s + t, i);
        },
        None => {},
    }
}

/// The value, if any, that one decode step over the accumulated bytes `s`
/// produces: the first delimiter-terminated non-empty run of bytes, with
/// leading delimiters discarded.
pub open spec fn line_extract_value(s: Seq<u8>) -> Option<Seq<u8>>
    decreases s.len(),
{
    if s.len() == 0 {
        None
    } else {
        match find_delim(s) {
            None => None,
            Some(i) => if i > 0 {
                Some(s.take(i))
            } else {
                line_extract_value(s.skip(1))
            },
        }
    }
}

/// The bytes that one decode step over the accumulated bytes `s` retains.
pub open spec fn line_extract_rest(s: Seq<u8>) -> Seq<u8>
    decreases s.len(),
{
    if s.len() == 0 {
        s
    } else {
        match find_delim(s) {
            None => s,
            Some(i) => if i > 0 {
                s.skip(i + 1)
            } else {
                line_extract_rest(s.skip(1))
            },
        }
    }
}

/// The wire bytes of one line: the payload followed by a line feed.
pub open spec fn line_encoding(v: Seq<u8>) -> Seq<u8> {
    v + seq![10u8]
}

/// A value the line discipline can carry on the wire: non-empty, and free of
/// delimiter bytes.
pub open spec fn line_wf(v: Seq<u8>) -> bool {
    v.len() > 0 && (forall|j: int| 0 <= j < v.len() ==> !is_delim(v[j]))
}

/// Every value that a whole byte stream carries, in order: the greedy
/// delimiter split of `s`, with empty runs discarded and an unterminated
/// tail left out.
pub open spec fn line_values(s: Seq<u8>) -> Seq<Seq<u8>>
    decreases s.len(),
{
    if s.len() == 0 {
        Seq::empty()
    } else {
        match find_delim(s) {
            None => Seq::empty(),
            Some(i) => if i > 0 {
                proof {
                    lemma_find_delim(s);
                }
                seq![s.take(i)] + line_values(s.skip(i + 1))
            } else {
                line_values(s.skip(1))
            },
        }
    }
}

/// One decode step consumes bytes whenever it produces a value.
pub proof fn lemma_line_extract_progress(s: Seq<u8>)
    ensures
        line_extract_value(s) is Some ==> line_extract_rest(s).len() < s.len(),
    decreases s.len(),
{
    if s.len() == 0 {
    } else {
        match find_delim(s) {
            None => {},
            Some(i) => {
                lemma_find_delim(s);
                if i == 0 {
                    lemma_line_extract_progress(s.skip(1));
                }
            },
        }
    }
}

/// One decode step peels exactly the first value the stream carries: where a
/// value comes, it heads `line_values`, and where none comes, the stream
/// carries none at all.
pub proof fn lemma_line_drain(s: Seq<u8>)
    ensures
        match line_extract_value(s) {
            Some(v) => line_values(s) == seq![v] + line_values(line_extract_rest(s)),
            None => line_values(s) == Seq::<Seq<u8>>::empty(),
        },
    decreases s.len(),
{
    if s.len() == 0 {
    } else {
        match find_delim(s) {
            None => {},
            Some(i) => {
                lemma_find_delim(s);
                if i == 0 {
                    lemma_line_drain(s.skip(1));
                }
            },
        }
    }
}

/// Decoding one encoded well-formed value yields that value back, with
/// nothing retained.
pub proof fn lemma_line_round_trip(v: Seq<u8>)
    requires
        line_wf(v),
    ensures
        line_extract_value(line_encoding(v)) == Some(v),
        line_extract_rest(line_encoding(v)) == Seq::<u8>::empty(),
{
    let s = line_encoding(v);
    let n = v.len() as int;
    assert(forall|j: int| 0 <= j < n ==> s[j] == v[j]);
    assert(is_delim(s[n]));
    lemma_find_delim_at(s, n);
    assert(s.take(n) =~= v);
    assert(s.skip(n + 1) =~= Seq::<u8>::empty());
}

/// How the values of a whole stream split at one decode step over its front
/// part: the step's value, if any, heads the list, and the rest of the list
/// is carried by the retained bytes followed by the back part.
pub proof fn lemma_line_values_append(s: Seq<u8>, t: Seq<u8>)
    ensures
        line_values(s + t) == (match line_extract_value(s) {
            Some(v) => seq![v] + line_values(line_extract_rest(s) + t),
            None => line_values(line_extract_rest(s) + t),
        }),
    decreases s.len(),
{
    if s.len() == 0 {
        assert(s + t =~= t);
        assert(line_extract_rest(s) + t =~= t);
    } else {
        match find_delim(s) {
            None => {
                assert(line_extract_rest(s) + t =~= s + t);
            },
            Some(i) => {
                lemma_find_delim(s);
                lemma_find_delim_append(s, t);
                if i == 0 {
                    assert((s + t).skip(1) =~= s.skip(1) + t);
                    lemma_line_values_append(s.skip(1), t);
                } else {
                    assert((s + t).take(i) =~= s.take(i));
                    assert((s + t).skip(i + 1) =~= s.skip(i + 1) + t);
                }
            },
        }
    }
}

/// Concatenation of a sequence of chunks.
pub open spec fn concat_chunks(chunks: Seq<Seq<u8>>) -> Seq<u8>
    decreases chunks.len(),
{
    if chunks.len() == 0 {
        Seq::empty()
    } else {
        chunks[0] + concat_chunks(chunks.skip(1))
    }
}

/// The values an incremental decoder yields: starting from buffered bytes
/// `b`, one decode step as each chunk arrives, then step after step on what
/// remains once the stream ends.
pub open spec fn chunked_values(b: Seq<u8>, chunks: Seq<Seq<u8>>) -> Seq<Seq<u8>>
    decreases chunks.len(),
{
    if chunks.len() == 0 {
        line_values(b)
    } else {
        let s = b + chunks[0];
        (match line_extract_value(s) {
            Some(v) => seq![v],
            None => Seq::empty(),
        }) + chunked_values(line_extract_rest(s), chunks.skip(1))
    }
}

/// Partial-frame idempotence: however a byte stream is split into chunks,
/// feeding it through the decoder incrementally yields the same values, in
/// the same order, as the whole stream carries at once.
pub proof fn lemma_line_split_invariance(b: Seq<u8>, chunks: Seq<Seq<u8>>)
    ensures
        chunked_values(b, chunks) == line_values(b + concat_chunks(chunks)),
    decreases chunks.len(),
{
    if chunks.len() == 0 {
        assert(b + concat_chunks(chunks) =~= b);
    } else {
        let s = b + chunks[0];
        let rest = concat_chunks(chunks.skip(1));
        lemma_line_values_append(s, rest);
        lemma_line_split_invariance(line_extract_rest(s), chunks.skip(1));
        assert(b + concat_chunks(chunks) =~= s + rest);
    }
}

/// Exec search for the first delimiter in a byte slice.
pub fn find_delim_index(buf: &[u8]) -> (r: Option<usize>)
    ensures
        match r {
            Some(i) => find_delim(buf@) == Some(i as int),
            None => find_delim(buf@) is None,
        },
{
    let n = buf.len();
    let mut i: usize = 0;
    while i < n
        invariant
            0 <= i <= n,
            n == buf@.len(),
            forall|j: int| 0 <= j < i ==> !is_delim(buf@[j]),
        decreases n - i,
    {
        if byte_is_delim(buf[i]) {
            proof {
                lemma_find_delim_at(buf@, i as int);
            }
            return Some(i);
        }
        i = i + 1;
    }
    proof {
        lemma_find_delim(buf@);
    }
    None
}

/// One decode step on a framing buffer: discard leading delimiters, and if a
/// complete frame is present, cut it out and hand it back.  The buffer keeps
/// everything behind the first delimiter, so later steps can yield the frames
/// that arrived in the same chunk.
pub fn extract_frame(buf: &mut Vec<u8>) -> (r: Option<Vec<u8>>)
    ensures
        final(buf)@ == line_extract_rest(old(buf)@),
        match r {
            Some(v) => line_extract_value(old(buf)@) == Some(v@),
            None => line_extract_value(old(buf)@) is None,
        },
{
    loop
        invariant
            line_extract_value(buf@) == line_extract_value(old(buf)@),
            line_extract_rest(buf@) == line_extract_rest(old(buf)@),
        decreases buf@.len(),
    {
        match find_delim_index(buf.as_slice()) {
            None => {
                return None;
            },
            Some(i) => {
                proof {
                    lemma_find_delim(buf@);
                    assert(find_delim(buf@) == Some(i as int));
                    assert(i < buf@.len());
                }
                if i == 0 {
                    buf.remove(0);
                } else {
                    let frame = vstd::slice::slice_to_vec(vstd::slice::slice_subrange(
                        buf.as_slice(),
                        0,
                        i,
                    ));
                    let n = buf.len();
                    assert(i < n);
                    let tail = buf.split_off(i + 1);
                    *buf = tail;
                    return Some(frame);
                }
            },
        }
    }
}

/// Append a byte slice to a vector.
pub fn push_bytes(dst: &mut Vec<u8>, src: &[u8])
    ensures
        final(dst)@ == old(dst)@ + src@,
{
    let n = src.len();
    let mut i: usize = 0;
    while i < n
        invariant
            0 <= i <= n,
            n == src@.len(),
            dst@ == old(dst)@ + src@.take(i as int),
        decreases n - i,
    {
        dst.push(src[i]);
        proof {
            assert(dst@ =~= old(dst)@ + src@.take(i + 1));
        }
        i = i + 1;
    }
    proof {
        assert(old(dst)@ + src@.take(n as int) =~= old(dst)@ + src@);
    }
}

/// Step after step, everything the buffered bytes still carry, in order.
pub fn drain_buffer(buf: &mut Vec<u8>) -> (r: Vec<Vec<u8>>)
    ensures
        r@.map_values(|v: Vec<u8>| v@) == line_values(old(buf)@),
{
    let mut out: Vec<Vec<u8>> = Vec::new();
    loop
        invariant
            line_values(old(buf)@) == out@.map_values(|v: Vec<u8>| v@) + line_values(buf@),
        decreases buf@.len(),
    {
        proof {
            lemma_line_drain(buf@);
            lemma_line_extract_progress(buf@);
        }
        let ghost pre = buf@;
        let ghost out_pre = out@;
        match extract_frame(buf) {
            Some(f) => {
                out.push(f);
                proof {
                    assert(out@.map_values(|v: Vec<u8>| v@) =~= out_pre.map_values(
                        |v: Vec<u8>| v@,
                    ).push(f@));
                    assert(line_values(pre) == seq![f@] + line_values(buf@));
                    assert(out_pre.map_values(|v: Vec<u8>| v@) + line_values(pre)
                        =~= out@.map_values(|v: Vec<u8>| v@) + line_values(buf@));
                }
            },
            None => {
                proof {
                    assert(line_values(pre) =~= Seq::<Seq<u8>>::empty());
                    assert(out_pre.map_values(|v: Vec<u8>| v@) + line_values(pre)
                        =~= out@.map_values(|v: Vec<u8>| v@));
                }
                return out;
            },
        }
    }
}

/// What an unframed receive hands out: the bytes read, if there are any.
/// `None` means nothing arrived, which a caller treats as "try again", never
/// as an error.
pub fn package_chunk(buf: Vec<u8>) -> (r: Option<Vec<u8>>)
    ensures
        match r {
            Some(v) => v@ == buf@ && buf@.len() > 0,
            None => buf@.len() == 0,
        },
{
    if buf.len() == 0 {
        None
    } else {
        Some(buf)
    }
}

/// The delimiter-terminated-lines codec: values are delimiter-free byte
/// runs, carried on the wire as the run followed by a line feed.  Unconsumed
/// trailing bytes stay inside between calls.
pub struct LineParser {
    buf: Vec<u8>,
}

impl crate::traits::PacketParser<Vec<u8>> for LineParser {
    closed spec fn buffered(&self) -> Seq<u8> {
        self.buf@
    }

    open spec fn encoding(v: Seq<u8>) -> Seq<u8> {
        line_encoding(v)
    }

    open spec fn extract_rest(s: Seq<u8>) -> Seq<u8> {
        line_extract_rest(s)
    }

    open spec fn extract_value(s: Seq<u8>) -> Option<Seq<u8>> {
        line_extract_value(s)
    }

    fn new() -> (r: Self) {
        LineParser { buf: Vec::new() }
    }

    fn clone_inner(&self) -> (r: Self) {
        LineParser { buf: vstd::slice::slice_to_vec(self.buf.as_slice()) }
    }

    fn parse_from_bytes(&mut self, data: &[u8]) -> (r: Option<Vec<u8>>) {
        push_bytes(&mut self.buf, data);
        extract_frame(&mut self.buf)
    }

    fn parse_to_bytes(&mut self, data: &Vec<u8>) -> (r: Vec<u8>) {
        let mut out = vstd::slice::slice_to_vec(data.as_slice());
        out.push(10u8);
        proof {
            assert(out@ =~= line_encoding(data@));
        }
        out
    }
}

} // verus!
