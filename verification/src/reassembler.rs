//! Line reassembler: turns an ordered stream of raw byte chunks into the
//! ordered stream of complete, trimmed, non-empty lines they contain, keeping
//! any trailing partial line in a buffer until a later chunk completes it.
//!
//! Lines are delimited by the newline byte. Trimming removes ASCII whitespace
//! from both ends of a completed line; lines that become empty are dropped.
//! At end of input any dangling partial line is discarded, not parsed: the
//! backend terminates every event with a newline, so a missing terminator
//! means the line was cut short by the transport.

use vstd::prelude::*;

verus! {

/// The line delimiter.
pub const NEWLINE: u8 = 10;

/// ASCII whitespace: the bytes that trimming removes from line ends.
pub open spec fn is_space(b: u8) -> bool {
    b == 32 || b == 9 || b == 10 || b == 11 || b == 12 || b == 13
}

/// `s` with leading whitespace removed.
pub open spec fn trim_front(s: Seq<u8>) -> Seq<u8>
    decreases s.len(),
{
    if s.len() > 0 && is_space(s[0]) {
        trim_front(s.skip(1))
    } else {
        s
    }
}

/// `s` with trailing whitespace removed.
pub open spec fn trim_back(s: Seq<u8>) -> Seq<u8>
    decreases s.len(),
{
    if s.len() > 0 && is_space(s.last()) {
        trim_back(s.drop_last())
    } else {
        s
    }
}

/// `s` with whitespace removed from both ends.
pub open spec fn trimmed(s: Seq<u8>) -> Seq<u8> {
    trim_back(trim_front(s))
}

/// The meaning of feeding `input` to a reassembler whose buffer holds `buf`:
/// the complete lines that come out (trimmed, empties dropped), and the new
/// buffer contents (everything after the last newline seen).
pub open spec fn reassemble(buf: Seq<u8>, input: Seq<u8>) -> (Seq<Seq<u8>>, Seq<u8>)
    decreases input.len(),
{
    if input.len() == 0 {
        (Seq::<Seq<u8>>::empty(), buf)
    } else if input[0] == NEWLINE {
        let rest = reassemble(Seq::<u8>::empty(), input.skip(1));
        if trimmed(buf).len() > 0 {
            (seq![trimmed(buf)] + rest.0, rest.1)
        } else {
            rest
        }
    } else {
        reassemble(buf.push(input[0]), input.skip(1))
    }
}

/// The lines of a sequence of byte vectors, as sequences of bytes.
pub open spec fn lines_view(ls: Seq<Vec<u8>>) -> Seq<Seq<u8>> {
    ls.map_values(|l: Vec<u8>| l@)
}

/// Executable test for `is_space`.
pub fn is_space_byte(b: u8) -> (r: bool)
    ensures
        r == is_space(b),
{
    b == 32 || b == 9 || b == 10 || b == 11 || b == 12 || b == 13
}

/// Removes ASCII whitespace from both ends of `s`.
pub fn trim_bytes(s: &[u8]) -> (r: Vec<u8>)
    ensures
        r@ == trimmed(s@),
{
    let mut start: usize = 0;
    proof {
        assert(s@.skip(0) =~= s@);
    }
    while start < s.len() && is_space_byte(s[start])
        invariant
            start <= s@.len(),
            trim_front(s@) == trim_front(s@.skip(start as int)),
        decreases s@.len() - start,
    {
        proof {
            assert(s@.skip(start as int).skip(1) =~= s@.skip(start as int + 1));
        }
        start += 1;
    }
    proof {
        assert(trim_front(s@) == s@.skip(start as int));
        assert(s@.subrange(start as int, s@.len() as int) =~= s@.skip(start as int));
    }
    let mut end: usize = s.len();
    while end > start && is_space_byte(s[end - 1])
        invariant
            start <= end <= s@.len(),
            trim_front(s@) == s@.skip(start as int),
            trim_back(s@.skip(start as int)) == trim_back(s@.subrange(start as int, end as int)),
        decreases end,
    {
        proof {
            assert(s@.subrange(start as int, end as int).drop_last() =~= s@.subrange(
                start as int,
                end as int - 1,
            ));
        }
        end -= 1;
    }
    proof {
        assert(trimmed(s@) == s@.subrange(start as int, end as int));
    }
    let mut r: Vec<u8> = Vec::new();
    let mut i: usize = start;
    proof {
        assert(r@ =~= s@.subrange(start as int, start as int));
    }
    while i < end
        invariant
            start <= i <= end <= s@.len(),
            r@ == s@.subrange(start as int, i as int),
        decreases end - i,
    {
        r.push(s[i]);
        proof {
            assert(s@.subrange(start as int, i as int).push(s@[i as int]) =~= s@.subrange(
                start as int,
                i as int + 1,
            ));
        }
        i += 1;
    }
    r
}

/// Feeding `a` and then `b` emits the same lines, and leaves the same
/// buffer, as feeding `a + b` at once.
pub proof fn lemma_reassemble_append(buf: Seq<u8>, a: Seq<u8>, b: Seq<u8>)
    ensures
        reassemble(buf, a + b).0 == reassemble(buf, a).0 + reassemble(
            reassemble(buf, a).1,
            b,
        ).0,
        reassemble(buf, a + b).1 == reassemble(reassemble(buf, a).1, b).1,
    decreases a.len(),
{
    if a.len() == 0 {
        assert(a + b =~= b);
        assert(reassemble(buf, a).0 + reassemble(buf, b).0 =~= reassemble(buf, b).0);
    } else {
        assert((a + b)[0] == a[0]);
        assert((a + b).skip(1) =~= a.skip(1) + b);
        if a[0] == NEWLINE {
            lemma_reassemble_append(Seq::<u8>::empty(), a.skip(1), b);
            if trimmed(buf).len() > 0 {
                let r0 = reassemble(Seq::<u8>::empty(), a.skip(1)).0;
                let mid = reassemble(Seq::<u8>::empty(), a.skip(1)).1;
                assert(seq![trimmed(buf)] + (r0 + reassemble(mid, b).0) =~= (seq![trimmed(buf)]
                    + r0) + reassemble(mid, b).0);
            }
        } else {
            lemma_reassemble_append(buf.push(a[0]), a.skip(1), b);
        }
    }
}

/// The meaning of feeding a whole sequence of chunks, one after another.
pub open spec fn reassemble_all(buf: Seq<u8>, chunks: Seq<Seq<u8>>) -> (Seq<Seq<u8>>, Seq<u8>)
    decreases chunks.len(),
{
    if chunks.len() == 0 {
        (Seq::<Seq<u8>>::empty(), buf)
    } else {
        let first = reassemble(buf, chunks[0]);
        let rest = reassemble_all(first.1, chunks.skip(1));
        (first.0 + rest.0, rest.1)
    }
}

/// Chunk-boundary invariance: however a byte stream is cut into chunks, the
/// reassembler emits exactly the lines of the whole stream, in order, and is
/// left with the same buffer.
pub proof fn lemma_chunk_boundary_invariance(buf: Seq<u8>, chunks: Seq<Seq<u8>>)
    ensures
        reassemble_all(buf, chunks).0 == reassemble(buf, chunks.flatten()).0,
        reassemble_all(buf, chunks).1 == reassemble(buf, chunks.flatten()).1,
    decreases chunks.len(),
{
    if chunks.len() == 0 {
        assert(chunks.flatten() =~= Seq::<u8>::empty());
        assert(reassemble_all(buf, chunks).0 =~= reassemble(buf, chunks.flatten()).0);
    } else {
        assert(chunks.first() == chunks[0]);
        assert(chunks.drop_first() =~= chunks.skip(1));
        let after = reassemble(buf, chunks[0]).1;
        lemma_chunk_boundary_invariance(after, chunks.skip(1));
        lemma_reassemble_append(buf, chunks[0], chunks.skip(1).flatten());
        assert(chunks.flatten() == chunks[0] + chunks.skip(1).flatten());
    }
}

/// Whitespace-only suppression: every line the reassembler emits is
/// non-empty and already trimmed, so no blank or whitespace-only line ever
/// reaches the decoder.
pub proof fn lemma_emitted_lines_trimmed(buf: Seq<u8>, input: Seq<u8>)
    ensures
        forall|i: int|
            0 <= i < reassemble(buf, input).0.len() ==> (#[trigger] reassemble(
                buf,
                input,
            ).0[i]).len() > 0 && trimmed(reassemble(buf, input).0[i]) == reassemble(
                buf,
                input,
            ).0[i],
    decreases input.len(),
{
    let result = reassemble(buf, input).0;
    if input.len() == 0 {
    } else if input[0] == NEWLINE {
        lemma_emitted_lines_trimmed(Seq::<u8>::empty(), input.skip(1));
        lemma_trimmed_idempotent(buf);
        let rest = reassemble(Seq::<u8>::empty(), input.skip(1)).0;
        assert forall|i: int| 0 <= i < result.len() implies (#[trigger] result[i]).len() > 0
            && trimmed(result[i]) == result[i] by {
            if trimmed(buf).len() > 0 {
                assert(result == seq![trimmed(buf)] + rest);
                if i == 0 {
                    assert(result[0] == trimmed(buf));
                } else {
                    assert(result[i] == rest[i - 1]);
                }
            } else {
                assert(result[i] == rest[i]);
            }
        }
    } else {
        lemma_emitted_lines_trimmed(buf.push(input[0]), input.skip(1));
        let rest = reassemble(buf.push(input[0]), input.skip(1)).0;
        assert forall|i: int| 0 <= i < result.len() implies (#[trigger] result[i]).len() > 0
            && trimmed(result[i]) == result[i] by {
            assert(result[i] == rest[i]);
        }
    }
}

/// After `trim_front` the first byte, if any, is not whitespace.
proof fn lemma_trim_front_head(s: Seq<u8>)
    ensures
        trim_front(s).len() > 0 ==> !is_space(trim_front(s)[0]),
    decreases s.len(),
{
    if s.len() > 0 && is_space(s[0]) {
        lemma_trim_front_head(s.skip(1));
    }
}

/// After `trim_back` the last byte, if any, is not whitespace.
proof fn lemma_trim_back_last(s: Seq<u8>)
    ensures
        trim_back(s).len() > 0 ==> !is_space(trim_back(s).last()),
    decreases s.len(),
{
    if s.len() > 0 && is_space(s.last()) {
        lemma_trim_back_last(s.drop_last());
    }
}

/// `trim_back` keeps the first byte of a sequence it leaves non-empty.
proof fn lemma_trim_back_head(s: Seq<u8>)
    ensures
        trim_back(s).len() > 0 ==> trim_back(s)[0] == s[0],
    decreases s.len(),
{
    if s.len() > 0 && is_space(s.last()) {
        lemma_trim_back_head(s.drop_last());
    }
}

/// Trimming is idempotent.
pub proof fn lemma_trimmed_idempotent(s: Seq<u8>)
    ensures
        trimmed(trimmed(s)) == trimmed(s),
{
    let t = trim_front(s);
    let u = trim_back(t);
    lemma_trim_front_head(s);
    lemma_trim_back_head(t);
    lemma_trim_back_last(t);
    assert(trim_front(u) == u);
    assert(trim_back(u) == u);
}

/// Stateful buffer that reassembles byte chunks into complete lines.
pub struct LineReassembler {
    pub buf: Vec<u8>,
}

impl LineReassembler {
    /// The buffer never holds a completed line: no newline byte in it.
    pub open spec fn wf(&self) -> bool {
        forall|i: int| 0 <= i < self.buf@.len() ==> self.buf@[i] != NEWLINE
    }

    /// A fresh reassembler with an empty buffer.
    pub fn new() -> (r: LineReassembler)
        ensures
            r.buf@ == Seq::<u8>::empty(),
            r.wf(),
    {
        LineReassembler { buf: Vec::new() }
    }

    /// Feeds one chunk; returns the complete lines it finished, in order,
    /// and keeps the trailing partial line for later chunks.
    pub fn ingest(&mut self, chunk: &[u8]) -> (lines: Vec<Vec<u8>>)
        ensures
            lines_view(lines@) == reassemble(old(self).buf@, chunk@).0,
            final(self).buf@ == reassemble(old(self).buf@, chunk@).1,
            old(self).wf() ==> final(self).wf(),
    {
        let mut out: Vec<Vec<u8>> = Vec::new();
        let mut i: usize = 0;
        proof {
            assert(chunk@.skip(0) =~= chunk@);
            assert(lines_view(out@) =~= Seq::<Seq<u8>>::empty());
            assert(lines_view(out@) + reassemble(self.buf@, chunk@).0 =~= reassemble(
                self.buf@,
                chunk@,
            ).0);
        }
        while i < chunk.len()
            invariant
                i <= chunk@.len(),
                reassemble(old(self).buf@, chunk@).0 == lines_view(out@) + reassemble(
                    self.buf@,
                    chunk@.skip(i as int),
                ).0,
                reassemble(old(self).buf@, chunk@).1 == reassemble(
                    self.buf@,
                    chunk@.skip(i as int),
                ).1,
                old(self).wf() ==> self.wf(),
            decreases chunk@.len() - i,
        {
            let b = chunk[i];
            proof {
                assert(chunk@.skip(i as int)[0] == chunk@[i as int]);
                assert(chunk@.skip(i as int).skip(1) =~= chunk@.skip(i as int + 1));
            }
            if b == NEWLINE {
                let line = trim_bytes(self.buf.as_slice());
                let ghost pre = lines_view(out@);
                if line.len() > 0 {
                    out.push(line);
                    proof {
                        assert(lines_view(out@) =~= pre.push(trimmed(self.buf@)));
                        assert(pre + (seq![trimmed(self.buf@)] + reassemble(
                            Seq::<u8>::empty(),
                            chunk@.skip(i as int + 1),
                        ).0) =~= lines_view(out@) + reassemble(
                            Seq::<u8>::empty(),
                            chunk@.skip(i as int + 1),
                        ).0);
                    }
                }
                self.buf.clear();
            } else {
                self.buf.push(b);
            }
            i += 1;
        }
        proof {
            assert(chunk@.skip(chunk@.len() as int) =~= Seq::<u8>::empty());
            assert(lines_view(out@) + reassemble(self.buf@, Seq::<u8>::empty()).0 =~= lines_view(
                out@,
            ));
        }
        out
    }

    /// Ends the input. Any dangling partial line is discarded rather than
    /// parsed; it is handed back so a caller can log it. The buffer is left
    /// empty.
    pub fn finish(&mut self) -> (leftover: Option<Vec<u8>>)
        ensures
            final(self).buf@ == Seq::<u8>::empty(),
            final(self).wf(),
            match leftover {
                Some(v) => v@ == old(self).buf@ && old(self).buf@.len() > 0,
                None => old(self).buf@.len() == 0,
            },
    {
        if self.buf.len() > 0 {
            let mut taken: Vec<u8> = Vec::new();
            core::mem::swap(&mut self.buf, &mut taken);
            Some(taken)
        } else {
            None
        }
    }
}

} // verus!
