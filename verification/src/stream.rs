//! The whole decoding pipeline for one generation request: byte chunks in,
//! typed events out.
//!
//! A `StreamDecoder` owns one line reassembler and a terminal flag. Feeding
//! it a chunk reassembles complete lines and decodes each in order, until a
//! terminal item — a backend-reported error, or the final billing event —
//! has been produced; from then on nothing further is decoded, even if more
//! complete lines are already buffered. A repeated session announcement is
//! forwarded unchanged: the backend is not expected to send one, but it is
//! no reason to end the stream.

use vstd::prelude::*;
use crate::decoder::{decode, decode_model, yield_result_view};
use crate::events::{APIError, APIErrorModel, GenerationYield, GenerationYieldModel};
use crate::reassembler::{lines_view, reassemble, LineReassembler};

verus! {

/// Whether one decoded item ends the stream: every failure does, and so
/// does the final billing event.
pub open spec fn is_terminal(r: Result<GenerationYieldModel, APIErrorModel>) -> bool {
    match r {
        Ok(y) => y is Billing,
        Err(_) => true,
    }
}

/// The items that decoding a sequence of lines in order produces, stopping
/// after the first terminal item, and whether a terminal item was produced.
pub open spec fn drain(ls: Seq<Seq<u8>>) -> (Seq<Result<GenerationYieldModel, APIErrorModel>>, bool)
    decreases ls.len(),
{
    if ls.len() == 0 {
        (Seq::<Result<GenerationYieldModel, APIErrorModel>>::empty(), false)
    } else {
        match decode_model(ls[0]) {
            None => drain(ls.skip(1)),
            Some(r) => {
                if is_terminal(r) {
                    (seq![r], true)
                } else {
                    let rest = drain(ls.skip(1));
                    (seq![r] + rest.0, rest.1)
                }
            },
        }
    }
}

/// The models of a vector of decoded items.
pub open spec fn results_view(s: Seq<Result<GenerationYield, APIError>>) -> Seq<
    Result<GenerationYieldModel, APIErrorModel>,
> {
    s.map_values(|r: Result<GenerationYield, APIError>| yield_result_view(r))
}

/// Whether one decoded item ends the stream.
pub fn is_terminal_result(r: &Result<GenerationYield, APIError>) -> (b: bool)
    ensures
        b == is_terminal(yield_result_view(*r)),
{
    match r {
        Ok(GenerationYield::Billing { .. }) => true,
        Ok(_) => false,
        Err(_) => true,
    }
}

/// The decoding pipeline for one request.
pub struct StreamDecoder {
    pub lines: LineReassembler,
    pub done: bool,
}

impl StreamDecoder {
    /// A fresh pipeline: empty buffer, not terminated.
    pub fn new() -> (r: StreamDecoder)
        ensures
            r.lines.buf@ == Seq::<u8>::empty(),
            !r.done,
            r.lines.wf(),
    {
        StreamDecoder { lines: LineReassembler::new(), done: false }
    }

    /// Feeds one chunk of the response body and returns the events it
    /// completes, in order. After a terminal item has been produced the
    /// pipeline is done: it emits nothing more and changes nothing more.
    pub fn feed(&mut self, chunk: &[u8]) -> (out: Vec<Result<GenerationYield, APIError>>)
        ensures
            old(self).done ==> out@.len() == 0 && *final(self) == *old(self),
            !old(self).done ==> ({
                let emitted = reassemble(old(self).lines.buf@, chunk@);
                let drained = drain(emitted.0);
                &&& results_view(out@) == drained.0
                &&& final(self).done == drained.1
                &&& final(self).lines.buf@ == emitted.1
            }),
            old(self).lines.wf() ==> final(self).lines.wf(),
    {
        if self.done {
            return Vec::new();
        }
        let ls = self.lines.ingest(chunk);
        let ghost lsv = lines_view(ls@);
        let ghost lines_after = self.lines;
        let mut out: Vec<Result<GenerationYield, APIError>> = Vec::new();
        let mut i: usize = 0;
        proof {
            assert(lsv.skip(0) =~= lsv);
            assert(results_view(out@) =~= Seq::<
                Result<GenerationYieldModel, APIErrorModel>,
            >::empty());
            assert(results_view(out@) + drain(lsv).0 =~= drain(lsv).0);
        }
        while i < ls.len()
            invariant_except_break
                !self.done,
                i <= lsv.len(),
                lsv == lines_view(ls@),
                self.lines == lines_after,
                drain(lsv).0 == results_view(out@) + drain(lsv.skip(i as int)).0,
                drain(lsv).1 == drain(lsv.skip(i as int)).1,
            ensures
                self.lines == lines_after,
                self.done ==> drain(lsv).0 == results_view(out@) && drain(lsv).1,
                !self.done ==> drain(lsv).0 == results_view(out@) && !drain(lsv).1,
            decreases lsv.len() - i,
        {
            proof {
                assert(lsv.skip(i as int)[0] == lsv[i as int]);
                assert(lsv.skip(i as int).skip(1) =~= lsv.skip(i as int + 1));
                assert(ls@[i as int]@ == lsv[i as int]);
            }
            let ghost pre = results_view(out@);
            match decode(ls[i].as_slice()) {
                None => {},
                Some(r) => {
                    let terminal = is_terminal_result(&r);
                    let ghost rm = yield_result_view(r);
                    out.push(r);
                    proof {
                        assert(results_view(out@) =~= pre.push(rm));
                        assert(pre + (seq![rm] + drain(lsv.skip(i as int + 1)).0) =~= results_view(
                            out@,
                        ) + drain(lsv.skip(i as int + 1)).0);
                        assert(pre + seq![rm] =~= results_view(out@));
                    }
                    if terminal {
                        self.done = true;
                        proof {
                            assert(drain(lsv).0 =~= results_view(out@));
                        }
                        break;
                    }
                },
            }
            i += 1;
        }
        proof {
            if !self.done {
                assert(lsv.skip(lsv.len() as int) =~= Seq::<Seq<u8>>::empty());
                assert(results_view(out@) + drain(Seq::<Seq<u8>>::empty()).0 =~= results_view(
                    out@,
                ));
            }
        }
        out
    }

    /// Ends the input. A dangling partial line — the backend stopped without
    /// terminating its last line — is discarded, never parsed; it is handed
    /// back so a caller can log it. No event comes out of it.
    pub fn finish(&mut self) -> (leftover: Option<Vec<u8>>)
        ensures
            final(self).lines.buf@ == Seq::<u8>::empty(),
            final(self).done == old(self).done,
            final(self).lines.wf(),
            match leftover {
                Some(v) => v@ == old(self).lines.buf@ && old(self).lines.buf@.len() > 0,
                None => old(self).lines.buf@.len() == 0,
            },
    {
        self.lines.finish()
    }
}

/// Terminal on error: once a terminal item has been produced, the lines
/// already buffered behind it — and any later ones — produce nothing.
pub proof fn lemma_terminal_ignores_rest(ls: Seq<Seq<u8>>, extra: Seq<Seq<u8>>)
    requires
        drain(ls).1,
    ensures
        drain(ls + extra) == drain(ls),
    decreases ls.len(),
{
    if ls.len() == 0 {
    } else {
        assert((ls + extra)[0] == ls[0]);
        assert((ls + extra).skip(1) =~= ls.skip(1) + extra);
        match decode_model(ls[0]) {
            None => {
                lemma_terminal_ignores_rest(ls.skip(1), extra);
            },
            Some(r) => {
                if !is_terminal(r) {
                    lemma_terminal_ignores_rest(ls.skip(1), extra);
                }
            },
        }
    }
}

/// The stream carries at most one terminal item, it can only stand last,
/// and it stands there exactly when the terminal flag is set.
pub proof fn lemma_at_most_one_terminal(ls: Seq<Seq<u8>>)
    ensures
        forall|i: int| 0 <= i < drain(ls).0.len() - 1 ==> !is_terminal(#[trigger] drain(ls).0[i]),
        drain(ls).1 ==> drain(ls).0.len() > 0 && is_terminal(drain(ls).0.last()),
        !drain(ls).1 ==> forall|i: int|
            0 <= i < drain(ls).0.len() ==> !is_terminal(#[trigger] drain(ls).0[i]),
    decreases ls.len(),
{
    if ls.len() == 0 {
    } else {
        lemma_at_most_one_terminal(ls.skip(1));
        match decode_model(ls[0]) {
            None => {},
            Some(r) => {
                if !is_terminal(r) {
                    let rest = drain(ls.skip(1));
                    let whole = seq![r] + rest.0;
                    assert(whole[0] == r);
                    assert forall|i: int| 1 <= i < whole.len() implies whole[i] == rest.0[i - 1]
                    by {}
                    if rest.0.len() > 0 {
                        assert(whole.last() == rest.0.last());
                    }
                }
            },
        }
    }
}

/// The meaning of feeding a whole sequence of chunks to a pipeline, one
/// `feed` per chunk: the items produced, the final buffer, and the final
/// terminal flag.
pub open spec fn pipeline_run(buf: Seq<u8>, done: bool, chunks: Seq<Seq<u8>>) -> (
    Seq<Result<GenerationYieldModel, APIErrorModel>>,
    Seq<u8>,
    bool,
)
    decreases chunks.len(),
{
    if chunks.len() == 0 || done {
        (Seq::<Result<GenerationYieldModel, APIErrorModel>>::empty(), buf, done)
    } else {
        let emitted = reassemble(buf, chunks[0]);
        let drained = drain(emitted.0);
        let rest = pipeline_run(emitted.1, drained.1, chunks.skip(1));
        (drained.0 + rest.0, rest.1, rest.2)
    }
}

/// Chunk-boundary invariance, end to end: however the response body is cut
/// into chunks, the pipeline produces exactly the events of the whole body
/// decoded at once, and ends the stream in the same way.
pub proof fn lemma_pipeline_chunk_invariance(buf: Seq<u8>, chunks: Seq<Seq<u8>>)
    ensures
        pipeline_run(buf, false, chunks).0 == drain(reassemble(buf, chunks.flatten()).0).0,
        pipeline_run(buf, false, chunks).2 == drain(reassemble(buf, chunks.flatten()).0).1,
    decreases chunks.len(),
{
    if chunks.len() == 0 {
        assert(chunks.flatten() =~= Seq::<u8>::empty());
    } else {
        let c0 = chunks[0];
        let rest_flat = chunks.skip(1).flatten();
        assert(chunks.first() == c0);
        assert(chunks.drop_first() =~= chunks.skip(1));
        assert(chunks.flatten() == c0 + rest_flat);
        let emitted = reassemble(buf, c0);
        let drained = drain(emitted.0);
        crate::reassembler::lemma_reassemble_append(buf, c0, rest_flat);
        let tail = reassemble(emitted.1, rest_flat).0;
        if drained.1 {
            lemma_terminal_ignores_rest(emitted.0, tail);
            assert(emitted.0 + tail =~= reassemble(buf, chunks.flatten()).0);
            assert(drained.0 + pipeline_run(emitted.1, true, chunks.skip(1)).0 =~= drained.0);
        } else {
            lemma_pipeline_chunk_invariance(emitted.1, chunks.skip(1));
            lemma_drain_append(emitted.0, tail);
            assert(emitted.0 + tail =~= reassemble(buf, chunks.flatten()).0);
        }
    }
}

/// Feeding lines in two batches produces the same items as feeding them in
/// one, as long as the first batch did not end the stream.
pub proof fn lemma_drain_append(a: Seq<Seq<u8>>, b: Seq<Seq<u8>>)
    requires
        !drain(a).1,
    ensures
        drain(a + b).0 == drain(a).0 + drain(b).0,
        drain(a + b).1 == drain(b).1,
    decreases a.len(),
{
    if a.len() == 0 {
        assert(a + b =~= b);
        assert(drain(a).0 + drain(b).0 =~= drain(b).0);
    } else {
        assert((a + b)[0] == a[0]);
        assert((a + b).skip(1) =~= a.skip(1) + b);
        match decode_model(a[0]) {
            None => {
                lemma_drain_append(a.skip(1), b);
            },
            Some(r) => {
                lemma_drain_append(a.skip(1), b);
                assert(seq![r] + (drain(a.skip(1)).0 + drain(b).0) =~= (seq![r] + drain(
                    a.skip(1),
                ).0) + drain(b).0);
            },
        }
    }
}

} // verus!
